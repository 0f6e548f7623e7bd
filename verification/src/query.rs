//! The filter-to-query compiler: translates a boolean filter tree over
//! entity identity, text content and link shape into a parameterized SQL
//! fragment, threading a context that names the table and the key/target
//! columns of the current nesting level.
//!
//! A builder accumulates SELECT, FROM and WHERE clause strings plus an
//! ordered parameter list; its merge operator (`AND` or `OR`) is fixed by a
//! type parameter, and every `Or` boundary compiles into a child builder in
//! disjunction mode whose WHERE clause is merged back parenthesized — that
//! operator-mode switch is what keeps mixed trees correctly parenthesized.
//! The spec functions `lf_apply`/`df_apply` state the exact text and
//! parameter list every construct compiles to; parameter order always
//! matches `?`-placeholder order because both grow left to right together.

use vstd::prelude::*;

use crate::conn::{blob_param, text_param};
use crate::database::Database;
use crate::error::Error;
use crate::id::SqlID;

verus! {

broadcast use vstd::std_specs::vec::group_vec_axioms, vstd::seq::group_seq_axioms;

/// The merge operator a builder joins WHERE clauses with.
pub trait Operator {
    /// The operator's SQL text.
    spec fn op_spec() -> Seq<char>;

    /// The operator's SQL text.
    fn op() -> (r: &'static str)
        ensures
            r@ == Self::op_spec(),
    ;
}

/// Conjunction mode: clauses are joined with ` AND `.
pub struct Conjunction;

impl Operator for Conjunction {
    open spec fn op_spec() -> Seq<char> {
        " AND "@
    }

    fn op() -> (r: &'static str) {
        " AND "
    }
}

/// Disjunction mode: clauses are joined with ` OR `.
pub struct Disjunction;

impl Operator for Disjunction {
    open spec fn op_spec() -> Seq<char> {
        " OR "@
    }

    fn op() -> (r: &'static str) {
        " OR "
    }
}

/// One bound query parameter: an identifier (bound as its 16-byte blob) or
/// a text pattern.  Parameters are always bound, never interpolated into
/// the SQL text.
#[derive(Debug)]
pub enum Param {
    Id(SqlID),
    Text(String),
}

/// The mathematical value of a parameter.
pub enum ParamV {
    Id(u128),
    Text(Seq<char>),
}

impl View for Param {
    type V = ParamV;

    open spec fn view(&self) -> ParamV {
        match self {
            Param::Id(i) => ParamV::Id(i@),
            Param::Text(t) => ParamV::Text(t@),
        }
    }
}

/// The mathematical contents of a builder: its three clause strings, its
/// parameters in binding order, and its merge operator.
#[verifier::ext_equal]
pub struct BuilderV {
    pub select: Seq<char>,
    pub from: Seq<char>,
    pub wher: Seq<char>,
    pub params: Seq<ParamV>,
    pub op: Seq<char>,
}

/// A fresh builder with the given merge operator.
pub open spec fn empty_builder(op: Seq<char>) -> BuilderV {
    BuilderV {
        select: Seq::empty(),
        from: Seq::empty(),
        wher: Seq::empty(),
        params: Seq::empty(),
        op,
    }
}

/// Appending to the SELECT list, comma-separated; empty fragments are
/// dropped.
pub open spec fn b_select(b: BuilderV, s: Seq<char>) -> BuilderV {
    if s.len() == 0 {
        b
    } else if b.select.len() == 0 {
        BuilderV { select: s, ..b }
    } else {
        BuilderV { select: b.select + ", "@ + s, ..b }
    }
}

/// Appending to the FROM list, comma-separated; empty fragments are
/// dropped.
pub open spec fn b_from(b: BuilderV, s: Seq<char>) -> BuilderV {
    if s.len() == 0 {
        b
    } else if b.from.len() == 0 {
        BuilderV { from: s, ..b }
    } else {
        BuilderV { from: b.from + ", "@ + s, ..b }
    }
}

/// Appending to the WHERE clause under the builder's own merge operator;
/// empty fragments are dropped.
pub open spec fn b_wher(b: BuilderV, s: Seq<char>) -> BuilderV {
    if s.len() == 0 {
        b
    } else if b.wher.len() == 0 {
        BuilderV { wher: s, ..b }
    } else {
        BuilderV { wher: b.wher + b.op + s, ..b }
    }
}

/// Appending one bound parameter.
pub open spec fn b_with(b: BuilderV, p: ParamV) -> BuilderV {
    BuilderV { params: b.params.push(p), ..b }
}

/// Merging a child builder into a parent: SELECT and FROM lists are
/// concatenated, the child's WHERE clause is appended parenthesized as a
/// single unit under the parent's operator, and the child's parameters
/// follow the parent's in order.
pub open spec fn b_extend(b: BuilderV, o: BuilderV) -> BuilderV {
    let b1 = b_select(b, o.select);
    let b2 = b_from(b1, o.from);
    let b3 = if o.wher.len() == 0 {
        b2
    } else {
        let b2w = b_wher(b2, "("@);
        BuilderV { wher: b2w.wher + o.wher + ")"@, ..b2w }
    };
    BuilderV { params: b3.params + o.params, ..b3 }
}

/// The rendered SQL text of a builder:
/// `SELECT <list or "1"> [FROM <list>] [WHERE <clause>]`.
pub open spec fn rendered(b: BuilderV) -> Seq<char> {
    "SELECT "@ + (if b.select.len() == 0 {
        "1"@
    } else {
        b.select
    }) + (if b.from.len() == 0 {
        Seq::empty()
    } else {
        " FROM "@ + b.from
    }) + (if b.wher.len() == 0 {
        Seq::empty()
    } else {
        " WHERE "@ + b.wher
    })
}

/// The SQL fragment builder: clause strings, bound parameters, and the
/// compilation context of the current nesting level.
pub struct SQLBuilder<C, Op: Operator> {
    pub context: C,
    pub select: String,
    pub from: String,
    pub wher: String,
    pub params: Vec<Param>,
    pub op: Op,
}

/// The sequence of mathematical values of a parameter list.
pub open spec fn params_v(s: Seq<Param>) -> Seq<ParamV> {
    s.map_values(|p: Param| p@)
}

pub proof fn lemma_params_v_push(s: Seq<Param>, p: Param)
    ensures
        params_v(s.push(p)) == params_v(s).push(p@),
{
    assert(params_v(s.push(p)) =~= params_v(s).push(p@));
}

/// The mathematical contents of a builder.
pub open spec fn bview<C, Op: Operator>(b: SQLBuilder<C, Op>) -> BuilderV {
    BuilderV {
        select: b.select@,
        from: b.from@,
        wher: b.wher@,
        params: params_v(b.params@),
        op: Op::op_spec(),
    }
}

impl<C> SQLBuilder<C, Conjunction> {
    /// A fresh builder in conjunction mode.
    pub fn new_conjunct(context: C) -> (r: SQLBuilder<C, Conjunction>)
        ensures
            bview(r) == empty_builder(" AND "@),
            r.context == context,
    {
        let r = SQLBuilder {
            context,
            select: String::new(),
            from: String::new(),
            wher: String::new(),
            params: Vec::new(),
            op: Conjunction,
        };
        proof {
            assert(params_v(r.params@) =~= Seq::<ParamV>::empty());
            assert(bview(r) =~= empty_builder(" AND "@));
        }
        r
    }
}

impl<C> SQLBuilder<C, Disjunction> {
    /// A fresh builder in disjunction mode.
    pub fn new_disjunct(context: C) -> (r: SQLBuilder<C, Disjunction>)
        ensures
            bview(r) == empty_builder(" OR "@),
            r.context == context,
    {
        let r = SQLBuilder {
            context,
            select: String::new(),
            from: String::new(),
            wher: String::new(),
            params: Vec::new(),
            op: Disjunction,
        };
        proof {
            assert(params_v(r.params@) =~= Seq::<ParamV>::empty());
            assert(bview(r) =~= empty_builder(" OR "@));
        }
        r
    }
}

impl<C, Op: Operator> SQLBuilder<C, Op> {
    /// The compilation context of this nesting level.
    pub fn context(&self) -> (r: &C)
        ensures
            *r == self.context,
    {
        &self.context
    }

    /// The parameters bound so far, in `?`-placeholder order.
    pub fn params(&self) -> (r: &Vec<Param>)
        ensures
            *r == self.params,
    {
        &self.params
    }

    /// Appends to the SELECT list.
    pub fn select(&mut self, s: &str)
        ensures
            bview(*final(self)) == b_select(bview(*old(self)), s@),
            final(self).context == old(self).context,
    {
        if !s.is_empty() {
            if !self.select.as_str().is_empty() {
                self.select.append(", ");
            }
            self.select.append(s);
        }
        proof {
            assert(bview(*self) =~= b_select(bview(*old(self)), s@));
        }
    }

    /// Appends to the FROM list.
    pub fn from(&mut self, s: &str)
        ensures
            bview(*final(self)) == b_from(bview(*old(self)), s@),
            final(self).context == old(self).context,
    {
        if !s.is_empty() {
            if !self.from.as_str().is_empty() {
                self.from.append(", ");
            }
            self.from.append(s);
        }
        proof {
            assert(bview(*self) =~= b_from(bview(*old(self)), s@));
        }
    }

    /// Appends to the WHERE clause under this builder's merge operator.
    pub fn wher(&mut self, s: &str)
        ensures
            bview(*final(self)) == b_wher(bview(*old(self)), s@),
            final(self).context == old(self).context,
    {
        if !s.is_empty() {
            if !self.wher.as_str().is_empty() {
                self.wher.append(Op::op());
            }
            self.wher.append(s);
        }
        proof {
            assert(bview(*self) =~= b_wher(bview(*old(self)), s@));
        }
    }

    /// Binds one parameter.
    pub fn with(&mut self, param: Param)
        ensures
            bview(*final(self)) == b_with(bview(*old(self)), param@),
            final(self).context == old(self).context,
    {
        let ghost pre = self.params@;
        self.params.push(param);
        proof {
            lemma_params_v_push(pre, param);
            assert(bview(*self) =~= b_with(bview(*old(self)), param@));
        }
    }

    /// Merges a child builder into this one: clause lists concatenate, the
    /// child's WHERE clause lands parenthesized as one unit, and its
    /// parameters are appended in order.
    pub fn extend<C2, O2: Operator>(&mut self, other: SQLBuilder<C2, O2>)
        ensures
            bview(*final(self)) == b_extend(bview(*old(self)), bview(other)),
            final(self).context == old(self).context,
    {
        self.select(other.select.as_str());
        self.from(other.from.as_str());
        if !other.wher.as_str().is_empty() {
            self.wher("(");
            self.wher.append(other.wher.as_str());
            self.wher.append(")");
        }
        let ghost opv = params_v(other.params@);
        let ghost base = params_v(self.params@);
        let ghost sel0 = self.select@;
        let ghost frm0 = self.from@;
        let ghost whr0 = self.wher@;
        let mut rest: Vec<Param> = other.params;
        while rest.len() > 0
            invariant
                params_v(self.params@) + params_v(rest@) == base + opv,
                self.select@ == sel0,
                self.from@ == frm0,
                self.wher@ == whr0,
                self.context == old(self).context,
            decreases rest@.len(),
        {
            let ghost pre_params = self.params@;
            let ghost pre_rest = rest@;
            let p = rest.remove(0);
            self.params.push(p);
            proof {
                lemma_params_v_push(pre_params, p);
                assert(params_v(self.params@) == params_v(pre_params).push(p@));
                assert(params_v(pre_rest) =~= seq![p@] + params_v(rest@));
                assert(params_v(pre_params).push(p@) + params_v(rest@) =~= params_v(pre_params) + (
                seq![p@] + params_v(rest@)));
            }
        }
        proof {
            assert(params_v(rest@) =~= Seq::<ParamV>::empty());
            assert(params_v(self.params@) =~= base + opv);
            assert(bview(*self) =~= b_extend(bview(*old(self)), bview(other)));
        }
    }

    /// The rendered SQL text of this builder.
    pub fn render(&self) -> (r: String)
        ensures
            r@ == rendered(bview(*self)),
    {
        let mut out = String::new();
        out.append("SELECT ");
        if self.select.as_str().is_empty() {
            out.append("1");
        } else {
            out.append(self.select.as_str());
        }
        if !self.from.as_str().is_empty() {
            out.append(" FROM ");
            out.append(self.from.as_str());
        }
        if !self.wher.as_str().is_empty() {
            out.append(" WHERE ");
            out.append(self.wher.as_str());
        }
        proof {
            assert(out@ =~= rendered(bview(*self)));
        }
        out
    }
}

/// The compilation context of a top-level query: the link table and its
/// key/target columns.
#[derive(Debug)]
pub struct QueryContext {
    pub table: String,
    pub key_col: String,
    pub target_col: String,
}

/// The context inside a link filter: which columns hold the current key
/// and target.
#[derive(Debug)]
pub struct LinkContext {
    pub key_col: String,
    pub target_col: String,
}

/// The context inside a data filter: the column holding the identifier the
/// filter constrains.
#[derive(Debug)]
pub struct Column {
    pub col: String,
}

/// A boolean filter over links: trivial accept/reject, a condition on the
/// key or the target entity, and conjunction/disjunction.  `Reserved`
/// stands for filter kinds this compiler does not cover; compiling it
/// fails with `InvalidQuery`.
#[derive(Debug)]
pub enum LinkFilter {
    Any,
    Never,
    Key(DataFilter),
    Target(DataFilter),
    And(Vec<LinkFilter>),
    Or(Vec<LinkFilter>),
    Reserved,
}

/// A boolean filter over entities: identity tests, text content, one-hop
/// link traversal, negation and conjunction/disjunction.  `Reserved`
/// stands for filter kinds this compiler does not cover.
#[derive(Debug)]
pub enum DataFilter {
    Any,
    Never,
    Id(SqlID),
    NotId(SqlID),
    Unique,
    Not(Box<DataFilter>),
    And(Vec<DataFilter>),
    Or(Vec<DataFilter>),
    Text(TextFilter),
    Linked(Box<LinkFilter>),
    Reserved,
}

/// A text-content filter: the pattern is matched against the scalar text
/// column with SQL `LIKE`, always as a bound parameter.
#[derive(Debug)]
pub struct TextFilter {
    pub pattern: String,
}

/// A top-level link query: its filter tree.
#[derive(Debug)]
pub struct Query {
    pub filter: LinkFilter,
}

/// The column alias transformation: dots become underscores, so aliases
/// derived from qualified column names cannot collide with quoting.
pub open spec fn dots(s: Seq<char>) -> Seq<char> {
    s.map_values(|c: char| if c == '.' { '_' } else { c })
}

/// Rewrites every dot in a column name to an underscore.
pub fn replace_dots(s: &str) -> (r: String)
    ensures
        r@ == dots(s@),
{
    let n: usize = s.unicode_len();
    let mut out = String::new();
    let mut i: usize = 0;
    proof {
        assert(out@ =~= dots(s@.subrange(0, 0)));
    }
    while i < n
        invariant
            0 <= i <= n,
            n == s@.len(),
            out@ == dots(s@.subrange(0, i as int)),
        decreases n - i,
    {
        let c: char = s.get_char(i);
        if c == '.' {
            out.append("_");
            proof {
                reveal_strlit("_");
            }
        } else {
            out.append(s.substring_char(i, i + 1));
        }
        proof {
            assert(s@.subrange(i as int, i as int + 1) =~= seq![s@[i as int]]);
            assert(out@ =~= dots(s@.subrange(0, i as int + 1)));
        }
        i += 1;
    }
    proof {
        assert(s@.subrange(0, n as int) =~= s@);
    }
    out
}

/// The quoted rendering of a possibly table-qualified column name: each
/// dot-separated part is wrapped in backquotes, so `links.key_uuid`
/// renders as a qualified column reference, not a single identifier.
pub open spec fn qdots(s: Seq<char>) -> Seq<char>
    decreases s.len(),
{
    if s.len() == 0 {
        Seq::empty()
    } else {
        qdots(s.drop_last()) + (if s.last() == '.' {
            seq!['`', '.', '`']
        } else {
            seq![s.last()]
        })
    }
}

/// The full quoted form of a column name.
pub open spec fn qcol(s: Seq<char>) -> Seq<char> {
    "`"@ + qdots(s) + "`"@
}

/// Renders a possibly qualified column name in quoted form.
pub fn quote_col(s: &str) -> (r: String)
    ensures
        r@ == qcol(s@),
{
    let n: usize = s.unicode_len();
    let mut out = String::new();
    out.append("`");
    let mut i: usize = 0;
    proof {
        reveal_strlit("`");
        assert(qdots(s@.subrange(0, 0)) =~= Seq::<char>::empty());
        assert(out@ =~= "`"@ + qdots(s@.subrange(0, 0)));
    }
    while i < n
        invariant
            0 <= i <= n,
            n == s@.len(),
            out@ == "`"@ + qdots(s@.subrange(0, i as int)),
        decreases n - i,
    {
        let c: char = s.get_char(i);
        if c == '.' {
            out.append("`.`");
            proof {
                reveal_strlit("`.`");
            }
        } else {
            out.append(s.substring_char(i, i + 1));
        }
        proof {
            let t = s@.subrange(0, i as int + 1);
            assert(t.drop_last() =~= s@.subrange(0, i as int));
            assert(t.last() == s@[i as int]);
            assert(s@.subrange(i as int, i as int + 1) =~= seq![s@[i as int]]);
            if s@[i as int] == '.' {
                assert("`.`"@ =~= seq!['`', '.', '`']) by {
                    reveal_strlit("`.`");
                }
            }
            assert(out@ =~= "`"@ + qdots(t));
        }
        i += 1;
    }
    out.append("`");
    proof {
        assert(s@.subrange(0, n as int) =~= s@);
        assert(out@ =~= qcol(s@));
    }
    out
}

/// What compiling a link filter does to a builder, given the `(key column,
/// target column)` context: `None` when the filter holds a construct the
/// compiler does not cover.
pub open spec fn lf_apply(f: LinkFilter, ctx: (Seq<char>, Seq<char>), b: BuilderV) -> Option<
    BuilderV,
>
    decreases f, 1int,
{
    match f {
        LinkFilter::Any => Some(b_wher(b, "1"@)),
        LinkFilter::Never => Some(b_wher(b, "0"@)),
        LinkFilter::Key(s) => match df_apply(s, ctx.0, empty_builder(" AND "@)) {
            Option::Some(inner) => Some(b_extend(b, inner)),
            Option::None => None,
        },
        LinkFilter::Target(s) => match df_apply(s, ctx.1, empty_builder(" AND "@)) {
            Option::Some(inner) => Some(b_extend(b, inner)),
            Option::None => None,
        },
        LinkFilter::And(fs) => lfs_apply(fs@, ctx, b),
        LinkFilter::Or(fs) => match lfs_apply(fs@, ctx, empty_builder(" OR "@)) {
            Option::Some(inner) => Some(b_extend(b, inner)),
            Option::None => None,
        },
        LinkFilter::Reserved => None,
    }
}

/// Compiling a sequence of link filters into the same builder, in order.
pub open spec fn lfs_apply(fs: Seq<LinkFilter>, ctx: (Seq<char>, Seq<char>), b: BuilderV) -> Option<
    BuilderV,
>
    decreases fs, 0int,
{
    if fs.len() == 0 {
        Some(b)
    } else {
        match lf_apply(fs[0], ctx, b) {
            Option::Some(b2) => lfs_apply(fs.drop_first(), ctx, b2),
            Option::None => None,
        }
    }
}

/// What compiling a data filter does to a builder, given the identifier
/// column of the current context.
pub open spec fn df_apply(f: DataFilter, col: Seq<char>, b: BuilderV) -> Option<BuilderV>
    decreases f, 1int,
{
    match f {
        DataFilter::Any => Some(b_wher(b, "1"@)),
        DataFilter::Never => Some(b_wher(b, "0"@)),
        // stored entities are unique by construction
        DataFilter::Unique => Some(b_wher(b, "1"@)),
        DataFilter::Id(id) => Some(b_with(b_wher(b, qcol(col) + " == ?"@), ParamV::Id(id@))),
        DataFilter::NotId(id) => Some(b_with(b_wher(b, qcol(col) + " != ?"@), ParamV::Id(id@))),
        DataFilter::Not(s) => match df_apply(*s, col, empty_builder(" AND "@)) {
            Option::Some(inner) => {
                let b1 = b_select(b, inner.select);
                let b2 = b_from(b1, inner.from);
                let b3 = if inner.wher.len() == 0 {
                    b2
                } else {
                    b_wher(b2, "NOT ("@ + inner.wher + ")"@)
                };
                Some(BuilderV { params: b3.params + inner.params, ..b3 })
            },
            Option::None => None,
        },
        DataFilter::And(fs) => dfs_apply(fs@, col, b),
        DataFilter::Or(fs) => match dfs_apply(fs@, col, empty_builder(" OR "@)) {
            Option::Some(inner) => Some(b_extend(b, inner)),
            Option::None => None,
        },
        DataFilter::Text(t) => Some(text_apply(t, col, b)),
        DataFilter::Linked(sub) => {
            let tbl = dots(col) + "_l"@;
            let kc = tbl + "_k"@;
            let tc = tbl + "_t"@;
            let i1 = b_select(
                empty_builder(" AND "@),
                "`"@ + tbl + "`.`key_uuid` as `"@ + kc + "`"@,
            );
            let i2 = b_select(i1, "`"@ + tbl + "`.`target_uuid` as `"@ + tc + "`"@);
            let i3 = b_from(i2, "`links` as `"@ + tbl + "`"@);
            let i4 = b_wher(i3, "`"@ + tbl + "`.`source_uuid` == "@ + qcol(col));
            match lf_apply(*sub, (tbl + ".key_uuid"@, tbl + ".target_uuid"@), i4) {
                Option::Some(inner) => {
                    let b1 = b_wher(b, "EXISTS ("@ + rendered(inner) + ")"@);
                    Some(BuilderV { params: b1.params + inner.params, ..b1 })
                },
                Option::None => None,
            }
        },
        DataFilter::Reserved => None,
    }
}

/// Compiling a sequence of data filters into the same builder, in order.
pub open spec fn dfs_apply(fs: Seq<DataFilter>, col: Seq<char>, b: BuilderV) -> Option<BuilderV>
    decreases fs, 0int,
{
    if fs.len() == 0 {
        Some(b)
    } else {
        match df_apply(fs[0], col, b) {
            Option::Some(b2) => dfs_apply(fs.drop_first(), col, b2),
            Option::None => None,
        }
    }
}

/// What compiling a text filter does to a builder: an EXISTS correlated
/// subquery against the value table, aliased from the context column, with
/// the pattern as a bound parameter.
pub open spec fn text_apply(t: TextFilter, col: Seq<char>, b: BuilderV) -> BuilderV {
    let tbl = dots(col) + "_v"@;
    let i1 = b_from(empty_builder(" AND "@), "`values` as `"@ + tbl + "`"@);
    let i2 = b_wher(i1, "`"@ + tbl + "`.`uuid` == "@ + qcol(col));
    let i3 = b_wher(i2, "`"@ + tbl + "`.`str` LIKE ?"@);
    let i4 = b_with(i3, ParamV::Text(t.pattern@));
    let b1 = b_wher(b, "EXISTS ("@ + rendered(i4) + ")"@);
    BuilderV { params: b1.params + i4.params, ..b1 }
}

/// What compiling a whole query does to a builder: select the starting
/// context's key and target columns (aliased) as the first two output
/// columns, then compile the filter against that context.
pub open spec fn q_apply(q: Query, ctx: (Seq<char>, Seq<char>, Seq<char>), b: BuilderV) -> Option<
    BuilderV,
> {
    let key = ctx.0 + "_k"@;
    let target = ctx.0 + "_t"@;
    let b1 = b_select(b, "`"@ + ctx.0 + "`.`"@ + ctx.1 + "` as `"@ + key + "`"@);
    let b2 = b_select(b1, "`"@ + ctx.0 + "`.`"@ + ctx.2 + "` as `"@ + target + "`"@);
    let b3 = b_from(b2, "`"@ + ctx.0 + "`"@);
    match lf_apply(
        q.filter,
        (ctx.0 + "."@ + ctx.1, ctx.0 + "."@ + ctx.2),
        empty_builder(" AND "@),
    ) {
        Option::Some(inner) => Some(b_extend(b3, inner)),
        Option::None => None,
    }
}

impl<C, Op: Operator> SQLBuilder<C, Op> {
    /// Appends a batch of parameters in order.
    fn push_params(&mut self, rest: Vec<Param>)
        ensures
            bview(*final(self)) == (BuilderV {
                params: bview(*old(self)).params + params_v(rest@),
                ..bview(*old(self))
            }),
            final(self).context == old(self).context,
    {
        let ghost base = params_v(self.params@);
        let ghost opv = params_v(rest@);
        let ghost sel0 = self.select@;
        let ghost frm0 = self.from@;
        let ghost whr0 = self.wher@;
        let mut rest = rest;
        while rest.len() > 0
            invariant
                params_v(self.params@) + params_v(rest@) == base + opv,
                self.select@ == sel0,
                self.from@ == frm0,
                self.wher@ == whr0,
                self.context == old(self).context,
            decreases rest@.len(),
        {
            let ghost pre_params = self.params@;
            let ghost pre_rest = rest@;
            let p = rest.remove(0);
            self.params.push(p);
            proof {
                lemma_params_v_push(pre_params, p);
                assert(params_v(pre_rest) =~= seq![p@] + params_v(rest@));
                assert(params_v(pre_params).push(p@) + params_v(rest@) =~= params_v(pre_params) + (
                seq![p@] + params_v(rest@)));
            }
        }
        proof {
            assert(params_v(rest@) =~= Seq::<ParamV>::empty());
            assert(params_v(self.params@) =~= base + opv);
            assert(bview(*self) =~= (BuilderV {
                params: bview(*old(self)).params + opv,
                ..bview(*old(self))
            }));
        }
    }
}

impl TextFilter {
    /// Compiles this text filter into the builder: an EXISTS correlated
    /// subquery matching the scalar text column with `LIKE`, the pattern
    /// bound as a parameter.
    pub fn build_sql<Op: Operator>(&self, sql: &mut SQLBuilder<Column, Op>) -> (r: Result<
        (),
        Error,
    >)
        ensures
            final(sql).context == old(sql).context,
            r is Ok,
            bview(*final(sql)) == text_apply(*self, old(sql).context.col@, bview(*old(sql))),
    {
        let mut tbl = replace_dots(self_col(sql));
        tbl.append("_v");
        let mut inner: SQLBuilder<Column, Conjunction> = SQLBuilder::new_conjunct(
            Column { col: sql.context.col.clone() },
        );
        let mut f = String::new();
        f.append("`values` as `");
        f.append(tbl.as_str());
        f.append("`");
        inner.from(f.as_str());
        let q = quote_col(sql.context.col.as_str());
        let mut w1 = String::new();
        w1.append("`");
        w1.append(tbl.as_str());
        w1.append("`.`uuid` == ");
        w1.append(q.as_str());
        inner.wher(w1.as_str());
        let mut w2 = String::new();
        w2.append("`");
        w2.append(tbl.as_str());
        w2.append("`.`str` LIKE ?");
        inner.wher(w2.as_str());
        inner.with(Param::Text(self.pattern.clone()));
        let ri = inner.render();
        let mut ex = String::new();
        ex.append("EXISTS (");
        ex.append(ri.as_str());
        ex.append(")");
        sql.wher(ex.as_str());
        sql.push_params(inner.params);
        proof {
            assert(bview(*sql) =~= text_apply(*self, old(sql).context.col@, bview(*old(sql))));
        }
        Ok(())
    }
}

/// The context column of a data-filter builder.
fn self_col<Op: Operator>(sql: &SQLBuilder<Column, Op>) -> (r: &str)
    ensures
        r@ == sql.context.col@,
{
    sql.context.col.as_str()
}

impl LinkFilter {
    /// Compiles this link filter into the builder, against the context's
    /// key/target columns; a filter kind the compiler does not cover
    /// aborts the whole compilation with `InvalidQuery`.
    pub fn build_sql<Op: Operator>(&self, sql: &mut SQLBuilder<LinkContext, Op>) -> (r: Result<
        (),
        Error,
    >)
        ensures
            final(sql).context == old(sql).context,
            match r {
                Result::Ok(_) => lf_apply(
                    *self,
                    (old(sql).context.key_col@, old(sql).context.target_col@),
                    bview(*old(sql)),
                ) == Some(bview(*final(sql))),
                Result::Err(e) => e is InvalidQuery && lf_apply(
                    *self,
                    (old(sql).context.key_col@, old(sql).context.target_col@),
                    bview(*old(sql)),
                ) is None,
            },
        decreases *self,
    {
        let ghost ctx = (sql.context.key_col@, sql.context.target_col@);
        match self {
            LinkFilter::Any => {
                sql.wher("1");
                Ok(())
            },
            LinkFilter::Never => {
                sql.wher("0");
                Ok(())
            },
            LinkFilter::Key(s) => {
                let mut inner: SQLBuilder<Column, Conjunction> = SQLBuilder::new_conjunct(
                    Column { col: sql.context.key_col.clone() },
                );
                match s.build_sql(&mut inner) {
                    Err(e) => { return Err(e); },
                    Ok(_) => {},
                }
                sql.extend(inner);
                Ok(())
            },
            LinkFilter::Target(s) => {
                let mut inner: SQLBuilder<Column, Conjunction> = SQLBuilder::new_conjunct(
                    Column { col: sql.context.target_col.clone() },
                );
                match s.build_sql(&mut inner) {
                    Err(e) => { return Err(e); },
                    Ok(_) => {},
                }
                sql.extend(inner);
                Ok(())
            },
            LinkFilter::And(fs) => {
                proof {
                    assert(*self == LinkFilter::And(*fs));
                    assert(fs@.subrange(0, fs@.len() as int) =~= fs@);
                }
                let mut i: usize = 0;
                while i < fs.len()
                    invariant
                        0 <= i <= fs@.len(),
                        *self == LinkFilter::And(*fs),
                        sql.context == old(sql).context,
                        ctx == (old(sql).context.key_col@, old(sql).context.target_col@),
                        lfs_apply(fs@, ctx, bview(*old(sql))) == lfs_apply(
                            fs@.subrange(i as int, fs@.len() as int),
                            ctx,
                            bview(*sql),
                        ),
                    decreases fs@.len() - i,
                {
                    let ghost bpre = bview(*sql);
                    let ghost suff = fs@.subrange(i as int, fs@.len() as int);
                    proof {
                        assert(decreases_to!(*self => *fs));
                        assert(decreases_to!(*fs => fs@));
                        assert(decreases_to!(*fs => fs@[i as int]));
                        assert(suff[0] == fs@[i as int]);
                        assert(suff.drop_first() =~= fs@.subrange(i as int + 1, fs@.len() as int));
                    }
                    match fs[i].build_sql(sql) {
                        Err(e) => {
                            proof {
                                assert(lf_apply(fs@[i as int], ctx, bpre) is None);
                                assert(lfs_apply(suff, ctx, bpre) is None);
                            }
                            return Err(e);
                        },
                        Ok(_) => {},
                    }
                    proof {
                        assert(lf_apply(fs@[i as int], ctx, bpre) == Some(bview(*sql)));
                        assert(lfs_apply(suff, ctx, bpre) == lfs_apply(
                            suff.drop_first(),
                            ctx,
                            bview(*sql),
                        ));
                    }
                    i += 1;
                }
                proof {
                    assert(fs@.subrange(i as int, fs@.len() as int) =~= Seq::<LinkFilter>::empty());
                }
                Ok(())
            },
            LinkFilter::Or(fs) => {
                let mut inner: SQLBuilder<LinkContext, Disjunction> = SQLBuilder::new_disjunct(
                    LinkContext {
                        key_col: sql.context.key_col.clone(),
                        target_col: sql.context.target_col.clone(),
                    },
                );
                proof {
                    assert(*self == LinkFilter::Or(*fs));
                    assert(fs@.subrange(0, fs@.len() as int) =~= fs@);
                }
                let mut i: usize = 0;
                while i < fs.len()
                    invariant
                        0 <= i <= fs@.len(),
                        *self == LinkFilter::Or(*fs),
                        inner.context.key_col@ == ctx.0,
                        inner.context.target_col@ == ctx.1,
                        sql.context == old(sql).context,
                        ctx == (old(sql).context.key_col@, old(sql).context.target_col@),
                        lfs_apply(fs@, ctx, empty_builder(" OR "@)) == lfs_apply(
                            fs@.subrange(i as int, fs@.len() as int),
                            ctx,
                            bview(inner),
                        ),
                    decreases fs@.len() - i,
                {
                    let ghost bpre = bview(inner);
                    let ghost suff = fs@.subrange(i as int, fs@.len() as int);
                    proof {
                        assert(decreases_to!(*self => *fs));
                        assert(decreases_to!(*fs => fs@));
                        assert(decreases_to!(*fs => fs@[i as int]));
                        assert(suff[0] == fs@[i as int]);
                        assert(suff.drop_first() =~= fs@.subrange(i as int + 1, fs@.len() as int));
                    }
                    match fs[i].build_sql(&mut inner) {
                        Err(e) => {
                            proof {
                                assert(lfs_apply(suff, ctx, bpre) is None);
                            }
                            return Err(e);
                        },
                        Ok(_) => {},
                    }
                    proof {
                        assert(lfs_apply(suff, ctx, bpre) == lfs_apply(
                            suff.drop_first(),
                            ctx,
                            bview(inner),
                        ));
                    }
                    i += 1;
                }
                proof {
                    assert(fs@.subrange(i as int, fs@.len() as int) =~= Seq::<LinkFilter>::empty());
                }
                sql.extend(inner);
                Ok(())
            },
            LinkFilter::Reserved => Err(Error::InvalidQuery),
        }
    }
}

impl DataFilter {
    /// Compiles this data filter into the builder, against the context's
    /// identifier column; a filter kind the compiler does not cover aborts
    /// the whole compilation with `InvalidQuery`.
    pub fn build_sql<Op: Operator>(&self, sql: &mut SQLBuilder<Column, Op>) -> (r: Result<
        (),
        Error,
    >)
        ensures
            final(sql).context == old(sql).context,
            match r {
                Result::Ok(_) => df_apply(*self, old(sql).context.col@, bview(*old(sql))) == Some(
                    bview(*final(sql)),
                ),
                Result::Err(e) => e is InvalidQuery && df_apply(
                    *self,
                    old(sql).context.col@,
                    bview(*old(sql)),
                ) is None,
            },
        decreases *self,
    {
        let ghost col = sql.context.col@;
        match self {
            DataFilter::Any => {
                sql.wher("1");
                Ok(())
            },
            DataFilter::Never => {
                sql.wher("0");
                Ok(())
            },
            DataFilter::Unique => {
                sql.wher("1");
                Ok(())
            },
            DataFilter::Id(id) => {
                let mut w = quote_col(sql.context.col.as_str());
                w.append(" == ?");
                sql.wher(w.as_str());
                sql.with(Param::Id(*id));
                Ok(())
            },
            DataFilter::NotId(id) => {
                let mut w = quote_col(sql.context.col.as_str());
                w.append(" != ?");
                sql.wher(w.as_str());
                sql.with(Param::Id(*id));
                Ok(())
            },
            DataFilter::Not(s) => {
                let mut inner: SQLBuilder<Column, Conjunction> = SQLBuilder::new_conjunct(
                    Column { col: sql.context.col.clone() },
                );
                match s.build_sql(&mut inner) {
                    Err(e) => { return Err(e); },
                    Ok(_) => {},
                }
                sql.select(inner.select.as_str());
                sql.from(inner.from.as_str());
                if !inner.wher.as_str().is_empty() {
                    let mut w = String::new();
                    w.append("NOT (");
                    w.append(inner.wher.as_str());
                    w.append(")");
                    sql.wher(w.as_str());
                }
                sql.push_params(inner.params);
                proof {
                    assert(df_apply(*self, col, bview(*old(sql))) == Some(bview(*sql)));
                }
                Ok(())
            },
            DataFilter::And(fs) => {
                proof {
                    assert(*self == DataFilter::And(*fs));
                    assert(fs@.subrange(0, fs@.len() as int) =~= fs@);
                }
                let mut i: usize = 0;
                while i < fs.len()
                    invariant
                        0 <= i <= fs@.len(),
                        *self == DataFilter::And(*fs),
                        sql.context == old(sql).context,
                        col == old(sql).context.col@,
                        dfs_apply(fs@, col, bview(*old(sql))) == dfs_apply(
                            fs@.subrange(i as int, fs@.len() as int),
                            col,
                            bview(*sql),
                        ),
                    decreases fs@.len() - i,
                {
                    let ghost bpre = bview(*sql);
                    let ghost suff = fs@.subrange(i as int, fs@.len() as int);
                    proof {
                        assert(decreases_to!(*self => *fs));
                        assert(decreases_to!(*fs => fs@));
                        assert(decreases_to!(*fs => fs@[i as int]));
                        assert(suff[0] == fs@[i as int]);
                        assert(suff.drop_first() =~= fs@.subrange(i as int + 1, fs@.len() as int));
                    }
                    match fs[i].build_sql(sql) {
                        Err(e) => {
                            proof {
                                assert(dfs_apply(suff, col, bpre) is None);
                            }
                            return Err(e);
                        },
                        Ok(_) => {},
                    }
                    proof {
                        assert(dfs_apply(suff, col, bpre) == dfs_apply(
                            suff.drop_first(),
                            col,
                            bview(*sql),
                        ));
                    }
                    i += 1;
                }
                proof {
                    assert(fs@.subrange(i as int, fs@.len() as int) =~= Seq::<DataFilter>::empty());
                }
                Ok(())
            },
            DataFilter::Or(fs) => {
                let mut inner: SQLBuilder<Column, Disjunction> = SQLBuilder::new_disjunct(
                    Column { col: sql.context.col.clone() },
                );
                proof {
                    assert(*self == DataFilter::Or(*fs));
                    assert(fs@.subrange(0, fs@.len() as int) =~= fs@);
                }
                let mut i: usize = 0;
                while i < fs.len()
                    invariant
                        0 <= i <= fs@.len(),
                        *self == DataFilter::Or(*fs),
                        inner.context.col@ == col,
                        sql.context == old(sql).context,
                        col == old(sql).context.col@,
                        dfs_apply(fs@, col, empty_builder(" OR "@)) == dfs_apply(
                            fs@.subrange(i as int, fs@.len() as int),
                            col,
                            bview(inner),
                        ),
                    decreases fs@.len() - i,
                {
                    let ghost bpre = bview(inner);
                    let ghost suff = fs@.subrange(i as int, fs@.len() as int);
                    proof {
                        assert(decreases_to!(*self => *fs));
                        assert(decreases_to!(*fs => fs@));
                        assert(decreases_to!(*fs => fs@[i as int]));
                        assert(suff[0] == fs@[i as int]);
                        assert(suff.drop_first() =~= fs@.subrange(i as int + 1, fs@.len() as int));
                    }
                    match fs[i].build_sql(&mut inner) {
                        Err(e) => {
                            proof {
                                assert(dfs_apply(suff, col, bpre) is None);
                            }
                            return Err(e);
                        },
                        Ok(_) => {},
                    }
                    proof {
                        assert(dfs_apply(suff, col, bpre) == dfs_apply(
                            suff.drop_first(),
                            col,
                            bview(inner),
                        ));
                    }
                    i += 1;
                }
                proof {
                    assert(fs@.subrange(i as int, fs@.len() as int) =~= Seq::<DataFilter>::empty());
                }
                sql.extend(inner);
                Ok(())
            },
            DataFilter::Text(t) => {
                let r = t.build_sql(sql);
                proof {
                    assert(df_apply(*self, col, bview(*old(sql))) == Some(bview(*sql)));
                }
                r
            },
            DataFilter::Linked(sub) => {
                let mut tbl = replace_dots(self_col(sql));
                tbl.append("_l");
                let mut kc = tbl.clone();
                kc.append("_k");
                let mut tc = tbl.clone();
                tc.append("_t");
                let mut ikc = tbl.clone();
                ikc.append(".key_uuid");
                let mut itc = tbl.clone();
                itc.append(".target_uuid");
                let mut inner: SQLBuilder<LinkContext, Conjunction> = SQLBuilder::new_conjunct(
                    LinkContext { key_col: ikc, target_col: itc },
                );
                let mut s1 = String::new();
                s1.append("`");
                s1.append(tbl.as_str());
                s1.append("`.`key_uuid` as `");
                s1.append(kc.as_str());
                s1.append("`");
                inner.select(s1.as_str());
                let mut s2 = String::new();
                s2.append("`");
                s2.append(tbl.as_str());
                s2.append("`.`target_uuid` as `");
                s2.append(tc.as_str());
                s2.append("`");
                inner.select(s2.as_str());
                let mut s3 = String::new();
                s3.append("`links` as `");
                s3.append(tbl.as_str());
                s3.append("`");
                inner.from(s3.as_str());
                let q = quote_col(sql.context.col.as_str());
                let mut s4 = String::new();
                s4.append("`");
                s4.append(tbl.as_str());
                s4.append("`.`source_uuid` == ");
                s4.append(q.as_str());
                inner.wher(s4.as_str());
                match sub.build_sql(&mut inner) {
                    Err(e) => { return Err(e); },
                    Ok(_) => {},
                }
                let ri = inner.render();
                let mut ex = String::new();
                ex.append("EXISTS (");
                ex.append(ri.as_str());
                ex.append(")");
                sql.wher(ex.as_str());
                sql.push_params(inner.params);
                proof {
                    assert(df_apply(*self, col, bview(*old(sql))) == Some(bview(*sql)));
                }
                Ok(())
            },
            DataFilter::Reserved => Err(Error::InvalidQuery),
        }
    }
}

impl Query {
    /// Wraps a filter tree as a query.
    pub fn new(filter: LinkFilter) -> (r: Query)
        ensures
            r.filter == filter,
    {
        Query { filter }
    }

    /// Compiles the whole query: the starting context's key and target
    /// columns become the first two output columns, and the filter tree is
    /// compiled against that context.
    pub fn build_sql<Op: Operator>(&self, sql: &mut SQLBuilder<QueryContext, Op>) -> (r: Result<
        (),
        Error,
    >)
        ensures
            final(sql).context == old(sql).context,
            match r {
                Result::Ok(_) => q_apply(
                    *self,
                    (
                        old(sql).context.table@,
                        old(sql).context.key_col@,
                        old(sql).context.target_col@,
                    ),
                    bview(*old(sql)),
                ) == Some(bview(*final(sql))),
                Result::Err(e) => e is InvalidQuery && q_apply(
                    *self,
                    (
                        old(sql).context.table@,
                        old(sql).context.key_col@,
                        old(sql).context.target_col@,
                    ),
                    bview(*old(sql)),
                ) is None,
            },
    {
        let mut key = sql.context.table.clone();
        key.append("_k");
        let mut target = sql.context.table.clone();
        target.append("_t");
        let mut s1 = String::new();
        s1.append("`");
        s1.append(sql.context.table.as_str());
        s1.append("`.`");
        s1.append(sql.context.key_col.as_str());
        s1.append("` as `");
        s1.append(key.as_str());
        s1.append("`");
        sql.select(s1.as_str());
        let mut s2 = String::new();
        s2.append("`");
        s2.append(sql.context.table.as_str());
        s2.append("`.`");
        s2.append(sql.context.target_col.as_str());
        s2.append("` as `");
        s2.append(target.as_str());
        s2.append("`");
        sql.select(s2.as_str());
        let mut s3 = String::new();
        s3.append("`");
        s3.append(sql.context.table.as_str());
        s3.append("`");
        sql.from(s3.as_str());
        let mut qk = sql.context.table.clone();
        qk.append(".");
        qk.append(sql.context.key_col.as_str());
        let mut qt = sql.context.table.clone();
        qt.append(".");
        qt.append(sql.context.target_col.as_str());
        let mut selector: SQLBuilder<LinkContext, Conjunction> = SQLBuilder::new_conjunct(
            LinkContext { key_col: qk, target_col: qt },
        );
        match self.filter.build_sql(&mut selector) {
            Err(e) => { return Err(e); },
            Ok(_) => {},
        }
        sql.extend(selector);
        Ok(())
    }
}

/// The substrate parameter value one compiled parameter binds to: an
/// identifier as the BLOB of its 16-byte encoding, a text pattern as TEXT.
pub open spec fn param_value(p: ParamV) -> rusqlite::types::Value {
    match p {
        ParamV::Id(v) => crate::conn::blob_value(crate::id::id_bytes(v)),
        ParamV::Text(t) => crate::conn::text_value(t),
    }
}

/// The substrate parameter list a compiled parameter list binds to, in
/// order.
pub open spec fn sql_params_v(ps: Seq<ParamV>) -> Seq<rusqlite::types::Value> {
    ps.map_values(|p: ParamV| param_value(p))
}

/// Converts compiled parameters into exactly the substrate parameter
/// values they denote, in order: identifiers become their 16-byte blobs,
/// text patterns become text.
fn to_sql_params(params: &Vec<Param>) -> (r: Vec<rusqlite::types::Value>)
    ensures
        r@ == sql_params_v(params_v(params@)),
{
    let mut out: Vec<rusqlite::types::Value> = Vec::new();
    let mut i: usize = 0;
    while i < params.len()
        invariant
            0 <= i <= params@.len(),
            out@.len() == i,
            forall|j: int| 0 <= j < i ==> #[trigger] out@[j] == param_value(params@[j]@),
        decreases params@.len() - i,
    {
        match &params[i] {
            Param::Id(id) => {
                let b = id.to_bytes();
                out.push(blob_param(&b));
            },
            Param::Text(t) => {
                out.push(text_param(t.as_str()));
            },
        }
        i += 1;
    }
    proof {
        assert(out@ =~= sql_params_v(params_v(params@)));
    }
    out
}

/// Whether every identifier blob of a raw result-row list decodes.
pub open spec fn row_blobs_ok(q: Seq<(Option<Vec<u8>>, Vec<u8>)>) -> bool {
    forall|i: int|
        0 <= i < q.len() ==> ((#[trigger] q[i]).0 is Some ==> crate::id::blob_decodes(q[i].0->0@))
            && crate::id::blob_decodes(q[i].1@)
}

/// The decoded identifier pairs correspond to the raw rows one for one:
/// each decoded identifier re-encodes to exactly the row's blob.
pub open spec fn rows_decoded(q: Seq<(Option<Vec<u8>>, Vec<u8>)>, h: Seq<
    (Option<SqlID>, SqlID),
>) -> bool {
    &&& h.len() == q.len()
    &&& forall|i: int|
        0 <= i < q.len() ==> ((#[trigger] h[i]).0 is Some <==> q[i].0 is Some) && (h[i].0 is Some
            ==> crate::id::id_bytes(h[i].0->0@) == q[i].0->0@) && crate::id::id_bytes(h[i].1@)
            == q[i].1@
}

/// Resolves the `(key, target)` identifier blobs of each raw result row
/// into identifier pairs: succeeds exactly when every blob decodes, and
/// then the output corresponds to the rows one for one.
pub fn decode_link_rows(raw: &Vec<(Option<Vec<u8>>, Vec<u8>)>) -> (r: Result<
    Vec<(Option<SqlID>, SqlID)>,
    Error,
>)
    ensures
        match r {
            Result::Ok(out) => row_blobs_ok(raw@) && rows_decoded(raw@, out@),
            Result::Err(e) => e is InvalidID && !row_blobs_ok(raw@),
        },
{
    let mut out: Vec<(Option<SqlID>, SqlID)> = Vec::new();
    let mut i: usize = 0;
    while i < raw.len()
        invariant
            0 <= i <= raw@.len(),
            out@.len() == i,
            forall|j: int|
                0 <= j < i ==> ((#[trigger] raw@[j]).0 is Some ==> crate::id::blob_decodes(
                    raw@[j].0->0@,
                )) && crate::id::blob_decodes(raw@[j].1@),
            forall|j: int|
                0 <= j < i ==> ((#[trigger] out@[j]).0 is Some <==> raw@[j].0 is Some) && (
                out@[j].0 is Some ==> crate::id::id_bytes(out@[j].0->0@) == raw@[j].0->0@)
                    && crate::id::id_bytes(out@[j].1@) == raw@[j].1@,
        decreases raw@.len() - i,
    {
        let key: Option<SqlID> = match &raw[i].0 {
            Some(kb) => match SqlID::from_bytes(kb) {
                Ok(kid) => {
                    proof {
                        crate::id::lemma_be_bytes_be_val(kb@);
                    }
                    Some(kid)
                },
                Err(e) => {
                    proof {
                        assert(!crate::id::blob_decodes(raw@[i as int].0->0@));
                        assert(!row_blobs_ok(raw@));
                    }
                    return Err(e);
                },
            },
            None => None,
        };
        let target: SqlID = match SqlID::from_bytes(&raw[i].1) {
            Ok(tid) => {
                proof {
                    crate::id::lemma_be_bytes_be_val(raw@[i as int].1@);
                }
                tid
            },
            Err(e) => {
                proof {
                    assert(!crate::id::blob_decodes(raw@[i as int].1@));
                    assert(!row_blobs_ok(raw@));
                }
                return Err(e);
            },
        };
        out.push((key, target));
        i += 1;
    }
    Ok(out)
}

/// Executes a compiled link query against the store: hands the substrate
/// exactly the rendered text and the converted parameter list (both under
/// exact contracts), then resolves each result row's `(key, target)`
/// identifier blobs through `decode_link_rows`.  The substrate's row set
/// itself cannot be promised; every identifier handed back is valid
/// (nonzero) by construction, and failures are substrate errors or a
/// malformed blob — never `InvalidQuery`.
pub fn build_links<C, Op: Operator>(db: &Database, sql: &SQLBuilder<C, Op>) -> (r: Result<
    Vec<(Option<SqlID>, SqlID)>,
    Error,
>)
    ensures
        r is Ok ==> forall|i: int|
            0 <= i < r->Ok_0@.len() ==> (#[trigger] r->Ok_0@[i]).1@ != 0 && ((r->Ok_0@[i]).0
                is Some ==> (r->Ok_0@[i]).0->0@ != 0),
        r is Err ==> r->Err_0 is Sql || r->Err_0 is InvalidID,
{
    let text = sql.render();
    let ps = to_sql_params(&sql.params);
    let raw = match db.conn.query_link_rows(text.as_str(), &ps) {
        Err(m) => { return Err(Error::Sql(m)); },
        Ok(v) => v,
    };
    let out = match decode_link_rows(&raw) {
        Err(e) => { return Err(e); },
        Ok(v) => v,
    };
    proof {
        assert forall|i: int|
            0 <= i < out@.len() implies (#[trigger] out@[i]).1@ != 0 && (out@[i].0 is Some
            ==> out@[i].0->0@ != 0) by {
            crate::id::lemma_id_bytes_roundtrip(out@[i].1@);
            assert(crate::id::blob_decodes(raw@[i].1@));
            if out@[i].0 is Some {
                crate::id::lemma_id_bytes_roundtrip(out@[i].0->0@);
                assert(crate::id::blob_decodes(raw@[i].0->0@));
            }
        }
    }
    Ok(out)
}

impl Query {
    /// Compiles this query against the link table's canonical context and
    /// runs it: each result row is the `(key, target)` identifier pair of
    /// a link row satisfying the filter.  `InvalidQuery` comes back exactly
    /// when the filter holds a construct the compiler does not cover; any
    /// other failure is a substrate error or a malformed stored identifier.
    pub fn execute(&self, db: &Database) -> (r: Result<Vec<(Option<SqlID>, SqlID)>, Error>)
        ensures
            (r is Err && r->Err_0 is InvalidQuery) <==> q_apply(
                *self,
                ("links"@, "key_uuid"@, "target_uuid"@),
                empty_builder(" AND "@),
            ) is None,
            r is Ok ==> forall|i: int|
                0 <= i < r->Ok_0@.len() ==> (#[trigger] r->Ok_0@[i]).1@ != 0 && ((r->Ok_0@[i]).0
                    is Some ==> (r->Ok_0@[i]).0->0@ != 0),
    {
        let mut sql: SQLBuilder<QueryContext, Conjunction> = SQLBuilder::new_conjunct(
            QueryContext {
                table: "links".to_owned(),
                key_col: "key_uuid".to_owned(),
                target_col: "target_uuid".to_owned(),
            },
        );
        match self.build_sql(&mut sql) {
            Err(e) => { return Err(e); },
            Ok(_) => {},
        }
        build_links(db, &sql)
    }
}

/// Whether a link filter holds only constructs the compiler covers.
pub open spec fn lf_supported(f: LinkFilter) -> bool
    decreases f, 1int,
{
    match f {
        LinkFilter::Any => true,
        LinkFilter::Never => true,
        LinkFilter::Key(s) => df_supported(s),
        LinkFilter::Target(s) => df_supported(s),
        LinkFilter::And(fs) => lfs_supported(fs@),
        LinkFilter::Or(fs) => lfs_supported(fs@),
        LinkFilter::Reserved => false,
    }
}

pub open spec fn lfs_supported(fs: Seq<LinkFilter>) -> bool
    decreases fs, 0int,
{
    if fs.len() == 0 {
        true
    } else {
        lf_supported(fs[0]) && lfs_supported(fs.drop_first())
    }
}

/// Whether a data filter holds only constructs the compiler covers.
pub open spec fn df_supported(f: DataFilter) -> bool
    decreases f, 1int,
{
    match f {
        DataFilter::Any => true,
        DataFilter::Never => true,
        DataFilter::Unique => true,
        DataFilter::Id(_) => true,
        DataFilter::NotId(_) => true,
        DataFilter::Not(s) => df_supported(*s),
        DataFilter::And(fs) => dfs_supported(fs@),
        DataFilter::Or(fs) => dfs_supported(fs@),
        DataFilter::Text(_) => true,
        DataFilter::Linked(sub) => lf_supported(*sub),
        DataFilter::Reserved => false,
    }
}

pub open spec fn dfs_supported(fs: Seq<DataFilter>) -> bool
    decreases fs, 0int,
{
    if fs.len() == 0 {
        true
    } else {
        df_supported(fs[0]) && dfs_supported(fs.drop_first())
    }
}

/// Compilation fails exactly on the filter kinds the compiler does not
/// cover: a filter tree built only of covered constructs always compiles,
/// and one holding an uncovered construct never does — the failure
/// propagates and aborts the whole query rather than dropping a clause.
pub proof fn lemma_lf_compile_total(f: LinkFilter, ctx: (Seq<char>, Seq<char>), b: BuilderV)
    ensures
        lf_apply(f, ctx, b) is Some <==> lf_supported(f),
    decreases f, 1int,
{
    match f {
        LinkFilter::Key(s) => {
            lemma_df_compile_total(s, ctx.0, empty_builder(" AND "@));
        },
        LinkFilter::Target(s) => {
            lemma_df_compile_total(s, ctx.1, empty_builder(" AND "@));
        },
        LinkFilter::And(fs) => {
            lemma_lfs_compile_total(fs@, ctx, b);
        },
        LinkFilter::Or(fs) => {
            lemma_lfs_compile_total(fs@, ctx, empty_builder(" OR "@));
        },
        _ => {},
    }
}

pub proof fn lemma_lfs_compile_total(fs: Seq<LinkFilter>, ctx: (Seq<char>, Seq<char>), b: BuilderV)
    ensures
        lfs_apply(fs, ctx, b) is Some <==> lfs_supported(fs),
    decreases fs, 0int,
{
    if fs.len() > 0 {
        lemma_lf_compile_total(fs[0], ctx, b);
        match lf_apply(fs[0], ctx, b) {
            Option::Some(b2) => {
                lemma_lfs_compile_total(fs.drop_first(), ctx, b2);
            },
            Option::None => {},
        }
    }
}

pub proof fn lemma_df_compile_total(f: DataFilter, col: Seq<char>, b: BuilderV)
    ensures
        df_apply(f, col, b) is Some <==> df_supported(f),
    decreases f, 1int,
{
    match f {
        DataFilter::Not(s) => {
            lemma_df_compile_total(*s, col, empty_builder(" AND "@));
        },
        DataFilter::And(fs) => {
            lemma_dfs_compile_total(fs@, col, b);
        },
        DataFilter::Or(fs) => {
            lemma_dfs_compile_total(fs@, col, empty_builder(" OR "@));
        },
        DataFilter::Linked(sub) => {
            let tbl = dots(col) + "_l"@;
            let kc = tbl + "_k"@;
            let tc = tbl + "_t"@;
            let i1 = b_select(
                empty_builder(" AND "@),
                "`"@ + tbl + "`.`key_uuid` as `"@ + kc + "`"@,
            );
            let i2 = b_select(i1, "`"@ + tbl + "`.`target_uuid` as `"@ + tc + "`"@);
            let i3 = b_from(i2, "`links` as `"@ + tbl + "`"@);
            let i4 = b_wher(i3, "`"@ + tbl + "`.`source_uuid` == "@ + qcol(col));
            lemma_lf_compile_total(*sub, (tbl + ".key_uuid"@, tbl + ".target_uuid"@), i4);
        },
        _ => {},
    }
}

pub proof fn lemma_dfs_compile_total(fs: Seq<DataFilter>, col: Seq<char>, b: BuilderV)
    ensures
        dfs_apply(fs, col, b) is Some <==> dfs_supported(fs),
    decreases fs, 0int,
{
    if fs.len() > 0 {
        lemma_df_compile_total(fs[0], col, b);
        match df_apply(fs[0], col, b) {
            Option::Some(b2) => {
                lemma_dfs_compile_total(fs.drop_first(), col, b2);
            },
            Option::None => {},
        }
    }
}

} // verus!
