//! The scalar value codec: the closed set of primitive kinds, the one-row
//! column encoding, and the projection of a row onto the kinds a consumer
//! asked for.
//!
//! A stored entity carries at most one scalar; its value row populates at
//! most one of the primitive columns and leaves every other column NULL.

use vstd::prelude::*;

verus! {

/// A scalar primitive value, one variant per supported column of the value
/// table.  Floating-point kinds are outside the verified value model.
#[derive(Debug, Clone, PartialEq, Eq)]
pub enum Scalar {
    Bool(bool),
    U8(u8),
    I8(i8),
    U16(u16),
    I16(i16),
    U32(u32),
    I32(i32),
    U64(u64),
    I64(i64),
    Text(String),
    Bytes(Vec<u8>),
}

/// The mathematical value of a scalar.
pub enum ScalarV {
    Bool(bool),
    U8(u8),
    I8(i8),
    U16(u16),
    I16(i16),
    U32(u32),
    I32(i32),
    U64(u64),
    I64(i64),
    Text(Seq<char>),
    Bytes(Seq<u8>),
}

impl View for Scalar {
    type V = ScalarV;

    open spec fn view(&self) -> ScalarV {
        match self {
            Scalar::Bool(x) => ScalarV::Bool(*x),
            Scalar::U8(x) => ScalarV::U8(*x),
            Scalar::I8(x) => ScalarV::I8(*x),
            Scalar::U16(x) => ScalarV::U16(*x),
            Scalar::I16(x) => ScalarV::I16(*x),
            Scalar::U32(x) => ScalarV::U32(*x),
            Scalar::I32(x) => ScalarV::I32(*x),
            Scalar::U64(x) => ScalarV::U64(*x),
            Scalar::I64(x) => ScalarV::I64(*x),
            Scalar::Text(x) => ScalarV::Text(x@),
            Scalar::Bytes(x) => ScalarV::Bytes(x@),
        }
    }
}

/// The value of an optional scalar.
pub open spec fn opt_scalar_v(v: Option<Scalar>) -> Option<ScalarV> {
    match v {
        Option::Some(s) => Option::Some(s@),
        Option::None => Option::None,
    }
}

/// One row of the value table: at most one populated column among the
/// primitive kinds, every other column NULL.
#[derive(Debug, Clone)]
pub struct ValueRow {
    pub c_bool: Option<bool>,
    pub c_u8: Option<u8>,
    pub c_i8: Option<i8>,
    pub c_u16: Option<u16>,
    pub c_i16: Option<i16>,
    pub c_u32: Option<u32>,
    pub c_i32: Option<i32>,
    pub c_u64: Option<u64>,
    pub c_i64: Option<i64>,
    pub c_text: Option<String>,
    pub c_bytes: Option<Vec<u8>>,
}

/// The mathematical contents of a value row.
pub struct RowV {
    pub c_bool: Option<bool>,
    pub c_u8: Option<u8>,
    pub c_i8: Option<i8>,
    pub c_u16: Option<u16>,
    pub c_i16: Option<i16>,
    pub c_u32: Option<u32>,
    pub c_i32: Option<i32>,
    pub c_u64: Option<u64>,
    pub c_i64: Option<i64>,
    pub c_text: Option<Seq<char>>,
    pub c_bytes: Option<Seq<u8>>,
}

impl View for ValueRow {
    type V = RowV;

    open spec fn view(&self) -> RowV {
        RowV {
            c_bool: self.c_bool,
            c_u8: self.c_u8,
            c_i8: self.c_i8,
            c_u16: self.c_u16,
            c_i16: self.c_i16,
            c_u32: self.c_u32,
            c_i32: self.c_i32,
            c_u64: self.c_u64,
            c_i64: self.c_i64,
            c_text: match &self.c_text {
                Option::Some(s) => Option::Some(s@),
                Option::None => Option::None,
            },
            c_bytes: match &self.c_bytes {
                Option::Some(b) => Option::Some(b@),
                Option::None => Option::None,
            },
        }
    }
}

/// The row with every column NULL.
pub open spec fn empty_row() -> RowV {
    RowV {
        c_bool: Option::None,
        c_u8: Option::None,
        c_i8: Option::None,
        c_u16: Option::None,
        c_i16: Option::None,
        c_u32: Option::None,
        c_i32: Option::None,
        c_u64: Option::None,
        c_i64: Option::None,
        c_text: Option::None,
        c_bytes: Option::None,
    }
}

/// The row encoding of an optional scalar: exactly the matching column is
/// populated, every other column is NULL.
pub open spec fn row_of(v: Option<ScalarV>) -> RowV {
    match v {
        Option::None => empty_row(),
        Option::Some(s) => match s {
            ScalarV::Bool(x) => RowV { c_bool: Option::Some(x), ..empty_row() },
            ScalarV::U8(x) => RowV { c_u8: Option::Some(x), ..empty_row() },
            ScalarV::I8(x) => RowV { c_i8: Option::Some(x), ..empty_row() },
            ScalarV::U16(x) => RowV { c_u16: Option::Some(x), ..empty_row() },
            ScalarV::I16(x) => RowV { c_i16: Option::Some(x), ..empty_row() },
            ScalarV::U32(x) => RowV { c_u32: Option::Some(x), ..empty_row() },
            ScalarV::I32(x) => RowV { c_i32: Option::Some(x), ..empty_row() },
            ScalarV::U64(x) => RowV { c_u64: Option::Some(x), ..empty_row() },
            ScalarV::I64(x) => RowV { c_i64: Option::Some(x), ..empty_row() },
            ScalarV::Text(x) => RowV { c_text: Option::Some(x), ..empty_row() },
            ScalarV::Bytes(x) => RowV { c_bytes: Option::Some(x), ..empty_row() },
        },
    }
}

/// Builds the value row for an optional scalar.
pub fn scalar_row(v: &Option<Scalar>) -> (r: ValueRow)
    ensures
        r@ == row_of(opt_scalar_v(*v)),
{
    let mut r = ValueRow {
        c_bool: None,
        c_u8: None,
        c_i8: None,
        c_u16: None,
        c_i16: None,
        c_u32: None,
        c_i32: None,
        c_u64: None,
        c_i64: None,
        c_text: None,
        c_bytes: None,
    };
    match v {
        None => {},
        Some(Scalar::Bool(x)) => { r.c_bool = Some(*x); },
        Some(Scalar::U8(x)) => { r.c_u8 = Some(*x); },
        Some(Scalar::I8(x)) => { r.c_i8 = Some(*x); },
        Some(Scalar::U16(x)) => { r.c_u16 = Some(*x); },
        Some(Scalar::I16(x)) => { r.c_i16 = Some(*x); },
        Some(Scalar::U32(x)) => { r.c_u32 = Some(*x); },
        Some(Scalar::I32(x)) => { r.c_i32 = Some(*x); },
        Some(Scalar::U64(x)) => { r.c_u64 = Some(*x); },
        Some(Scalar::I64(x)) => { r.c_i64 = Some(*x); },
        Some(Scalar::Text(x)) => { r.c_text = Some(x.clone()); },
        Some(Scalar::Bytes(x)) => { r.c_bytes = Some(x.clone()); },
    }
    r
}

/// Which primitive kinds a consumer wants to extract: the typed-query object
/// of the extraction protocol.  A consumer receives only the kinds it set.
#[derive(Debug, Clone, Copy, PartialEq, Eq, Structural)]
pub struct TypeSet {
    pub want_bool: bool,
    pub want_u8: bool,
    pub want_i8: bool,
    pub want_u16: bool,
    pub want_i16: bool,
    pub want_u32: bool,
    pub want_i32: bool,
    pub want_u64: bool,
    pub want_i64: bool,
    pub want_text: bool,
    pub want_bytes: bool,
}

impl TypeSet {
    /// Wants every supported kind.
    pub fn all() -> (r: TypeSet)
        ensures
            r == (TypeSet {
                want_bool: true,
                want_u8: true,
                want_i8: true,
                want_u16: true,
                want_i16: true,
                want_u32: true,
                want_i32: true,
                want_u64: true,
                want_i64: true,
                want_text: true,
                want_bytes: true,
            }),
    {
        TypeSet {
            want_bool: true,
            want_u8: true,
            want_i8: true,
            want_u16: true,
            want_i16: true,
            want_u32: true,
            want_i32: true,
            want_u64: true,
            want_i64: true,
            want_text: true,
            want_bytes: true,
        }
    }

    /// Wants nothing.
    pub fn empty() -> (r: TypeSet)
        ensures
            r == (TypeSet {
                want_bool: false,
                want_u8: false,
                want_i8: false,
                want_u16: false,
                want_i16: false,
                want_u32: false,
                want_i32: false,
                want_u64: false,
                want_i64: false,
                want_text: false,
                want_bytes: false,
            }),
    {
        TypeSet {
            want_bool: false,
            want_u8: false,
            want_i8: false,
            want_u16: false,
            want_i16: false,
            want_u32: false,
            want_i32: false,
            want_u64: false,
            want_i64: false,
            want_text: false,
            want_bytes: false,
        }
    }

    /// Whether no kind at all is wanted; in that case the extraction
    /// protocol issues no value query.
    pub open spec fn spec_is_empty(&self) -> bool {
        !self.want_bool && !self.want_u8 && !self.want_i8 && !self.want_u16 && !self.want_i16
            && !self.want_u32 && !self.want_i32 && !self.want_u64 && !self.want_i64
            && !self.want_text && !self.want_bytes
    }

    /// Whether no kind at all is wanted.
    #[verifier::when_used_as_spec(spec_is_empty)]
    pub fn is_empty(&self) -> (r: bool)
        ensures
            r == self.spec_is_empty(),
    {
        !self.want_bool && !self.want_u8 && !self.want_i8 && !self.want_u16 && !self.want_i16
            && !self.want_u32 && !self.want_i32 && !self.want_u64 && !self.want_i64
            && !self.want_text && !self.want_bytes
    }
}

/// The sequence of mathematical values of a sequence of scalars.
pub open spec fn scalars_v(s: Seq<Scalar>) -> Seq<ScalarV> {
    s.map_values(|x: Scalar| x@)
}

pub proof fn lemma_scalars_v_push(s: Seq<Scalar>, x: Scalar)
    ensures
        scalars_v(s.push(x)) == scalars_v(s).push(x@),
{
    assert(scalars_v(s.push(x)) =~= scalars_v(s).push(x@));
}

/// What a consumer receives for one kind: the value, if the kind is both
/// wanted and populated, and nothing otherwise.
pub open spec fn req_bool(row: RowV, want: TypeSet) -> Seq<ScalarV> {
    if want.want_bool && row.c_bool is Some {
        seq![ScalarV::Bool(row.c_bool->0)]
    } else {
        Seq::empty()
    }
}

pub open spec fn req_u8(row: RowV, want: TypeSet) -> Seq<ScalarV> {
    if want.want_u8 && row.c_u8 is Some {
        seq![ScalarV::U8(row.c_u8->0)]
    } else {
        Seq::empty()
    }
}

pub open spec fn req_i8(row: RowV, want: TypeSet) -> Seq<ScalarV> {
    if want.want_i8 && row.c_i8 is Some {
        seq![ScalarV::I8(row.c_i8->0)]
    } else {
        Seq::empty()
    }
}

pub open spec fn req_u16(row: RowV, want: TypeSet) -> Seq<ScalarV> {
    if want.want_u16 && row.c_u16 is Some {
        seq![ScalarV::U16(row.c_u16->0)]
    } else {
        Seq::empty()
    }
}

pub open spec fn req_i16(row: RowV, want: TypeSet) -> Seq<ScalarV> {
    if want.want_i16 && row.c_i16 is Some {
        seq![ScalarV::I16(row.c_i16->0)]
    } else {
        Seq::empty()
    }
}

pub open spec fn req_u32(row: RowV, want: TypeSet) -> Seq<ScalarV> {
    if want.want_u32 && row.c_u32 is Some {
        seq![ScalarV::U32(row.c_u32->0)]
    } else {
        Seq::empty()
    }
}

pub open spec fn req_i32(row: RowV, want: TypeSet) -> Seq<ScalarV> {
    if want.want_i32 && row.c_i32 is Some {
        seq![ScalarV::I32(row.c_i32->0)]
    } else {
        Seq::empty()
    }
}

pub open spec fn req_u64(row: RowV, want: TypeSet) -> Seq<ScalarV> {
    if want.want_u64 && row.c_u64 is Some {
        seq![ScalarV::U64(row.c_u64->0)]
    } else {
        Seq::empty()
    }
}

pub open spec fn req_i64(row: RowV, want: TypeSet) -> Seq<ScalarV> {
    if want.want_i64 && row.c_i64 is Some {
        seq![ScalarV::I64(row.c_i64->0)]
    } else {
        Seq::empty()
    }
}

pub open spec fn req_text(row: RowV, want: TypeSet) -> Seq<ScalarV> {
    if want.want_text && row.c_text is Some {
        seq![ScalarV::Text(row.c_text->0)]
    } else {
        Seq::empty()
    }
}

pub open spec fn req_bytes(row: RowV, want: TypeSet) -> Seq<ScalarV> {
    if want.want_bytes && row.c_bytes is Some {
        seq![ScalarV::Bytes(row.c_bytes->0)]
    } else {
        Seq::empty()
    }
}

/// The values a consumer receives from a row, in the fixed kind order of the
/// schema: only kinds that are both wanted and populated, nothing else.
pub open spec fn requested(row: RowV, want: TypeSet) -> Seq<ScalarV> {
    req_bool(row, want) + req_u8(row, want) + req_i8(row, want) + req_u16(row, want) + req_i16(
        row,
        want,
    ) + req_u32(row, want) + req_i32(row, want) + req_u64(row, want) + req_i64(row, want)
        + req_text(row, want) + req_bytes(row, want)
}

fn push_bool(out: &mut Vec<Scalar>, row: &ValueRow, want: &TypeSet)
    ensures
        scalars_v(final(out)@) == scalars_v(old(out)@) + req_bool(row@, *want),
{
    let ghost pre = out@;
    if want.want_bool {
        if let Some(x) = row.c_bool {
            out.push(Scalar::Bool(x));
            proof {
                lemma_scalars_v_push(pre, Scalar::Bool(x));
            }
        }
    }
    proof {
        assert(scalars_v(out@) =~= scalars_v(pre) + req_bool(row@, *want));
    }
}

fn push_u8(out: &mut Vec<Scalar>, row: &ValueRow, want: &TypeSet)
    ensures
        scalars_v(final(out)@) == scalars_v(old(out)@) + req_u8(row@, *want),
{
    let ghost pre = out@;
    if want.want_u8 {
        if let Some(x) = row.c_u8 {
            out.push(Scalar::U8(x));
            proof {
                lemma_scalars_v_push(pre, Scalar::U8(x));
            }
        }
    }
    proof {
        assert(scalars_v(out@) =~= scalars_v(pre) + req_u8(row@, *want));
    }
}

fn push_i8(out: &mut Vec<Scalar>, row: &ValueRow, want: &TypeSet)
    ensures
        scalars_v(final(out)@) == scalars_v(old(out)@) + req_i8(row@, *want),
{
    let ghost pre = out@;
    if want.want_i8 {
        if let Some(x) = row.c_i8 {
            out.push(Scalar::I8(x));
            proof {
                lemma_scalars_v_push(pre, Scalar::I8(x));
            }
        }
    }
    proof {
        assert(scalars_v(out@) =~= scalars_v(pre) + req_i8(row@, *want));
    }
}

fn push_u16(out: &mut Vec<Scalar>, row: &ValueRow, want: &TypeSet)
    ensures
        scalars_v(final(out)@) == scalars_v(old(out)@) + req_u16(row@, *want),
{
    let ghost pre = out@;
    if want.want_u16 {
        if let Some(x) = row.c_u16 {
            out.push(Scalar::U16(x));
            proof {
                lemma_scalars_v_push(pre, Scalar::U16(x));
            }
        }
    }
    proof {
        assert(scalars_v(out@) =~= scalars_v(pre) + req_u16(row@, *want));
    }
}

fn push_i16(out: &mut Vec<Scalar>, row: &ValueRow, want: &TypeSet)
    ensures
        scalars_v(final(out)@) == scalars_v(old(out)@) + req_i16(row@, *want),
{
    let ghost pre = out@;
    if want.want_i16 {
        if let Some(x) = row.c_i16 {
            out.push(Scalar::I16(x));
            proof {
                lemma_scalars_v_push(pre, Scalar::I16(x));
            }
        }
    }
    proof {
        assert(scalars_v(out@) =~= scalars_v(pre) + req_i16(row@, *want));
    }
}

fn push_u32(out: &mut Vec<Scalar>, row: &ValueRow, want: &TypeSet)
    ensures
        scalars_v(final(out)@) == scalars_v(old(out)@) + req_u32(row@, *want),
{
    let ghost pre = out@;
    if want.want_u32 {
        if let Some(x) = row.c_u32 {
            out.push(Scalar::U32(x));
            proof {
                lemma_scalars_v_push(pre, Scalar::U32(x));
            }
        }
    }
    proof {
        assert(scalars_v(out@) =~= scalars_v(pre) + req_u32(row@, *want));
    }
}

fn push_i32(out: &mut Vec<Scalar>, row: &ValueRow, want: &TypeSet)
    ensures
        scalars_v(final(out)@) == scalars_v(old(out)@) + req_i32(row@, *want),
{
    let ghost pre = out@;
    if want.want_i32 {
        if let Some(x) = row.c_i32 {
            out.push(Scalar::I32(x));
            proof {
                lemma_scalars_v_push(pre, Scalar::I32(x));
            }
        }
    }
    proof {
        assert(scalars_v(out@) =~= scalars_v(pre) + req_i32(row@, *want));
    }
}

fn push_u64(out: &mut Vec<Scalar>, row: &ValueRow, want: &TypeSet)
    ensures
        scalars_v(final(out)@) == scalars_v(old(out)@) + req_u64(row@, *want),
{
    let ghost pre = out@;
    if want.want_u64 {
        if let Some(x) = row.c_u64 {
            out.push(Scalar::U64(x));
            proof {
                lemma_scalars_v_push(pre, Scalar::U64(x));
            }
        }
    }
    proof {
        assert(scalars_v(out@) =~= scalars_v(pre) + req_u64(row@, *want));
    }
}

fn push_i64(out: &mut Vec<Scalar>, row: &ValueRow, want: &TypeSet)
    ensures
        scalars_v(final(out)@) == scalars_v(old(out)@) + req_i64(row@, *want),
{
    let ghost pre = out@;
    if want.want_i64 {
        if let Some(x) = row.c_i64 {
            out.push(Scalar::I64(x));
            proof {
                lemma_scalars_v_push(pre, Scalar::I64(x));
            }
        }
    }
    proof {
        assert(scalars_v(out@) =~= scalars_v(pre) + req_i64(row@, *want));
    }
}

fn push_text(out: &mut Vec<Scalar>, row: &ValueRow, want: &TypeSet)
    ensures
        scalars_v(final(out)@) == scalars_v(old(out)@) + req_text(row@, *want),
{
    let ghost pre = out@;
    if want.want_text {
        if let Some(x) = &row.c_text {
            let c = x.clone();
            out.push(Scalar::Text(c));
            proof {
                lemma_scalars_v_push(pre, Scalar::Text(c));
            }
        }
    }
    proof {
        assert(scalars_v(out@) =~= scalars_v(pre) + req_text(row@, *want));
    }
}

fn push_bytes(out: &mut Vec<Scalar>, row: &ValueRow, want: &TypeSet)
    ensures
        scalars_v(final(out)@) == scalars_v(old(out)@) + req_bytes(row@, *want),
{
    let ghost pre = out@;
    if want.want_bytes {
        if let Some(x) = &row.c_bytes {
            let c = x.clone();
            out.push(Scalar::Bytes(c));
            proof {
                lemma_scalars_v_push(pre, Scalar::Bytes(c));
            }
        }
    }
    proof {
        assert(scalars_v(out@) =~= scalars_v(pre) + req_bytes(row@, *want));
    }
}

/// Projects a value row onto the requested kinds, handing back only values
/// of kinds the consumer declared interest in, in the fixed kind order.
pub fn project_row(row: &ValueRow, want: &TypeSet) -> (r: Vec<Scalar>)
    ensures
        scalars_v(r@) == requested(row@, *want),
{
    let mut out: Vec<Scalar> = Vec::new();
    proof {
        assert(scalars_v(out@) =~= Seq::<ScalarV>::empty());
    }
    push_bool(&mut out, row, want);
    push_u8(&mut out, row, want);
    push_i8(&mut out, row, want);
    push_u16(&mut out, row, want);
    push_i16(&mut out, row, want);
    push_u32(&mut out, row, want);
    push_i32(&mut out, row, want);
    push_u64(&mut out, row, want);
    push_i64(&mut out, row, want);
    push_text(&mut out, row, want);
    push_bytes(&mut out, row, want);
    proof {
        assert(scalars_v(out@) =~= requested(row@, *want));
    }
    out
}

/// Projecting the row of a stored scalar onto every kind yields exactly that
/// scalar, and projecting it onto any set of kinds that excludes the
/// scalar's own kind yields nothing: no value is ever reported under a kind
/// other than its own.
#[verifier::rlimit(100)]
#[verifier::spinoff_prover]
pub proof fn lemma_row_projection_exact(s: ScalarV, want: TypeSet)
    ensures
        requested(row_of(Option::Some(s)), want) == if scalar_wanted(s, want) {
            seq![s]
        } else {
            Seq::<ScalarV>::empty()
        },
        requested(row_of(Option::None), want) == Seq::<ScalarV>::empty(),
{
    let expect: Seq<ScalarV> = if scalar_wanted(s, want) {
        seq![s]
    } else {
        Seq::empty()
    };
    match s {
        ScalarV::Bool(_) => {
            assert(requested(row_of(Option::Some(s)), want) =~= expect);
        },
        ScalarV::U8(_) => {
            assert(requested(row_of(Option::Some(s)), want) =~= expect);
        },
        ScalarV::I8(_) => {
            assert(requested(row_of(Option::Some(s)), want) =~= expect);
        },
        ScalarV::U16(_) => {
            assert(requested(row_of(Option::Some(s)), want) =~= expect);
        },
        ScalarV::I16(_) => {
            assert(requested(row_of(Option::Some(s)), want) =~= expect);
        },
        ScalarV::U32(_) => {
            assert(requested(row_of(Option::Some(s)), want) =~= expect);
        },
        ScalarV::I32(_) => {
            assert(requested(row_of(Option::Some(s)), want) =~= expect);
        },
        ScalarV::U64(_) => {
            assert(requested(row_of(Option::Some(s)), want) =~= expect);
        },
        ScalarV::I64(_) => {
            assert(requested(row_of(Option::Some(s)), want) =~= expect);
        },
        ScalarV::Text(_) => {
            assert(requested(row_of(Option::Some(s)), want) =~= expect);
        },
        ScalarV::Bytes(_) => {
            assert(requested(row_of(Option::Some(s)), want) =~= expect);
        },
    }
    assert(requested(row_of(Option::None), want) =~= Seq::<ScalarV>::empty());
}

/// An empty request yields nothing from any row.
pub proof fn lemma_requested_empty(want: TypeSet)
    requires
        want.spec_is_empty(),
    ensures
        forall|row: RowV| #[trigger] requested(row, want) == Seq::<ScalarV>::empty(),
{
    assert forall|row: RowV| #[trigger] requested(row, want) == Seq::<ScalarV>::empty() by {
        assert(requested(row, want) =~= Seq::<ScalarV>::empty());
    }
}

/// The empty row yields nothing, whatever was requested.
pub proof fn lemma_row_projection_none(want: TypeSet)
    ensures
        requested(row_of(Option::None), want) == Seq::<ScalarV>::empty(),
{
    assert(requested(row_of(Option::None), want) =~= Seq::<ScalarV>::empty());
}

/// Whether the kind of `s` is in the requested set.
pub open spec fn scalar_wanted(s: ScalarV, want: TypeSet) -> bool {
    match s {
        ScalarV::Bool(_) => want.want_bool,
        ScalarV::U8(_) => want.want_u8,
        ScalarV::I8(_) => want.want_i8,
        ScalarV::U16(_) => want.want_u16,
        ScalarV::I16(_) => want.want_i16,
        ScalarV::U32(_) => want.want_u32,
        ScalarV::I32(_) => want.want_i32,
        ScalarV::U64(_) => want.want_u64,
        ScalarV::I64(_) => want.want_i64,
        ScalarV::Text(_) => want.want_text,
        ScalarV::Bytes(_) => want.want_bytes,
    }
}

/// A raw projected row as the substrate hands it over: the numeric
/// columns, then the remaining columns, each NULL when not selected, NULL,
/// or not decodable as its column's kind.
pub type RawRow = (
    (Option<bool>, Option<u8>, Option<i8>, Option<u16>, Option<i16>, Option<u32>),
    (Option<i32>, Option<u64>, Option<i64>, Option<String>, Option<Vec<u8>>),
);

/// The mathematical contents of a raw projected row.
pub open spec fn raw_row_v(t: RawRow) -> RowV {
    RowV {
        c_bool: t.0.0,
        c_u8: t.0.1,
        c_i8: t.0.2,
        c_u16: t.0.3,
        c_i16: t.0.4,
        c_u32: t.0.5,
        c_i32: t.1.0,
        c_u64: t.1.1,
        c_i64: t.1.2,
        c_text: match t.1.3 {
            Option::Some(s) => Option::Some(s@),
            Option::None => Option::None,
        },
        c_bytes: match t.1.4 {
            Option::Some(b) => Option::Some(b@),
            Option::None => Option::None,
        },
    }
}

/// Rebuilds the value row a raw projected row denotes.
pub fn row_from_raw(t: RawRow) -> (r: ValueRow)
    ensures
        r@ == raw_row_v(t),
{
    let ((c_bool, c_u8, c_i8, c_u16, c_i16, c_u32), (c_i32, c_u64, c_i64, c_text, c_bytes)) = t;
    ValueRow {
        c_bool,
        c_u8,
        c_i8,
        c_u16,
        c_i16,
        c_u32,
        c_i32,
        c_u64,
        c_i64,
        c_text,
        c_bytes,
    }
}

/// A row as a projection delivers it: the requested columns keep their
/// values, every column outside the request reads as NULL.
pub open spec fn masked(row: RowV, w: TypeSet) -> RowV {
    RowV {
        c_bool: if w.want_bool { row.c_bool } else { Option::None },
        c_u8: if w.want_u8 { row.c_u8 } else { Option::None },
        c_i8: if w.want_i8 { row.c_i8 } else { Option::None },
        c_u16: if w.want_u16 { row.c_u16 } else { Option::None },
        c_i16: if w.want_i16 { row.c_i16 } else { Option::None },
        c_u32: if w.want_u32 { row.c_u32 } else { Option::None },
        c_i32: if w.want_i32 { row.c_i32 } else { Option::None },
        c_u64: if w.want_u64 { row.c_u64 } else { Option::None },
        c_i64: if w.want_i64 { row.c_i64 } else { Option::None },
        c_text: if w.want_text { row.c_text } else { Option::None },
        c_bytes: if w.want_bytes { row.c_bytes } else { Option::None },
    }
}

/// Projecting away the unrequested columns changes nothing about what a
/// consumer receives: `requested` never reads them.
pub proof fn lemma_requested_masked(row: RowV, w: TypeSet)
    ensures
        requested(masked(row, w), w) == requested(row, w),
{
    assert(req_bool(masked(row, w), w) == req_bool(row, w));
    assert(req_u8(masked(row, w), w) == req_u8(row, w));
    assert(req_i8(masked(row, w), w) == req_i8(row, w));
    assert(req_u16(masked(row, w), w) == req_u16(row, w));
    assert(req_i16(masked(row, w), w) == req_i16(row, w));
    assert(req_u32(masked(row, w), w) == req_u32(row, w));
    assert(req_i32(masked(row, w), w) == req_i32(row, w));
    assert(req_u64(masked(row, w), w) == req_u64(row, w));
    assert(req_i64(masked(row, w), w) == req_i64(row, w));
    assert(req_text(masked(row, w), w) == req_text(row, w));
    assert(req_bytes(masked(row, w), w) == req_bytes(row, w));
}

/// Appending one column name to a comma-separated projection list, when it
/// is requested.
pub open spec fn add_col(s: Seq<char>, present: bool, name: Seq<char>) -> Seq<char> {
    if !present {
        s
    } else if s.len() == 0 {
        name
    } else {
        s + ","@ + name
    }
}

/// The column list of the minimal projection for `w`, in the fixed kind
/// order of the schema.
pub open spec fn proj_cols(w: TypeSet) -> Seq<char> {
    add_col(
        add_col(
            add_col(
                add_col(
                    add_col(
                        add_col(
                            add_col(
                                add_col(
                                    add_col(
                                        add_col(
                                            add_col(Seq::empty(), w.want_bool, "`bool`"@),
                                            w.want_u8,
                                            "`u8`"@,
                                        ),
                                        w.want_i8,
                                        "`i8`"@,
                                    ),
                                    w.want_u16,
                                    "`u16`"@,
                                ),
                                w.want_i16,
                                "`i16`"@,
                            ),
                            w.want_u32,
                            "`u32`"@,
                        ),
                        w.want_i32,
                        "`i32`"@,
                    ),
                    w.want_u64,
                    "`u64`"@,
                ),
                w.want_i64,
                "`i64`"@,
            ),
            w.want_text,
            "`str`"@,
        ),
        w.want_bytes,
        "`bytes`"@,
    )
}

/// The minimal projection query for `w`: selects exactly the requested
/// columns of the one value row under the bound identifier.
pub open spec fn projection_sql(w: TypeSet) -> Seq<char> {
    "SELECT "@ + proj_cols(w) + " FROM `values` WHERE `uuid` = ?;"@
}

/// Builds the minimal projection query for the requested kinds.
pub fn projection_query(want: &TypeSet) -> (r: String)
    ensures
        r@ == projection_sql(*want),
{
    let mut cols = String::new();
    let ghost g0: Seq<char> = Seq::empty();
    proof {
        assert(cols@ =~= g0);
    }
    if want.want_bool {
        if !cols.as_str().is_empty() {
            cols.append(",");
        }
        cols.append("`bool`");
    }
    let ghost g1: Seq<char> = add_col(g0, want.want_bool, "`bool`"@);
    proof {
        assert(cols@ =~= g1);
    }
    if want.want_u8 {
        if !cols.as_str().is_empty() {
            cols.append(",");
        }
        cols.append("`u8`");
    }
    let ghost g2: Seq<char> = add_col(g1, want.want_u8, "`u8`"@);
    proof {
        assert(cols@ =~= g2);
    }
    if want.want_i8 {
        if !cols.as_str().is_empty() {
            cols.append(",");
        }
        cols.append("`i8`");
    }
    let ghost g3: Seq<char> = add_col(g2, want.want_i8, "`i8`"@);
    proof {
        assert(cols@ =~= g3);
    }
    if want.want_u16 {
        if !cols.as_str().is_empty() {
            cols.append(",");
        }
        cols.append("`u16`");
    }
    let ghost g4: Seq<char> = add_col(g3, want.want_u16, "`u16`"@);
    proof {
        assert(cols@ =~= g4);
    }
    if want.want_i16 {
        if !cols.as_str().is_empty() {
            cols.append(",");
        }
        cols.append("`i16`");
    }
    let ghost g5: Seq<char> = add_col(g4, want.want_i16, "`i16`"@);
    proof {
        assert(cols@ =~= g5);
    }
    if want.want_u32 {
        if !cols.as_str().is_empty() {
            cols.append(",");
        }
        cols.append("`u32`");
    }
    let ghost g6: Seq<char> = add_col(g5, want.want_u32, "`u32`"@);
    proof {
        assert(cols@ =~= g6);
    }
    if want.want_i32 {
        if !cols.as_str().is_empty() {
            cols.append(",");
        }
        cols.append("`i32`");
    }
    let ghost g7: Seq<char> = add_col(g6, want.want_i32, "`i32`"@);
    proof {
        assert(cols@ =~= g7);
    }
    if want.want_u64 {
        if !cols.as_str().is_empty() {
            cols.append(",");
        }
        cols.append("`u64`");
    }
    let ghost g8: Seq<char> = add_col(g7, want.want_u64, "`u64`"@);
    proof {
        assert(cols@ =~= g8);
    }
    if want.want_i64 {
        if !cols.as_str().is_empty() {
            cols.append(",");
        }
        cols.append("`i64`");
    }
    let ghost g9: Seq<char> = add_col(g8, want.want_i64, "`i64`"@);
    proof {
        assert(cols@ =~= g9);
    }
    if want.want_text {
        if !cols.as_str().is_empty() {
            cols.append(",");
        }
        cols.append("`str`");
    }
    let ghost g10: Seq<char> = add_col(g9, want.want_text, "`str`"@);
    proof {
        assert(cols@ =~= g10);
    }
    if want.want_bytes {
        if !cols.as_str().is_empty() {
            cols.append(",");
        }
        cols.append("`bytes`");
    }
    let ghost g11: Seq<char> = add_col(g10, want.want_bytes, "`bytes`"@);
    proof {
        assert(cols@ =~= g11);
    }
    proof {
        assert(g11 == proj_cols(*want));
    }
    let mut out = String::new();
    out.append("SELECT ");
    out.append(cols.as_str());
    out.append(" FROM `values` WHERE `uuid` = ?;");
    proof {
        assert(out@ =~= projection_sql(*want));
    }
    out
}

} // verus!
