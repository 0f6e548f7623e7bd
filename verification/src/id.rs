//! Opaque 128-bit entity identifiers and their encodings.
//!
//! An identifier is a nonzero 128-bit value.  On disk it is a fixed 16-byte
//! big-endian sequence; the version-1 schema stored identifiers as canonical
//! decimal text, which the migration engine still has to parse.  Both codecs
//! are implemented and verified here.

use rand::Rng;
use vstd::arithmetic::div_mod::*;
use vstd::prelude::*;

use crate::error::Error;

verus! {

/// `256^n`.
pub open spec fn pow256(n: nat) -> int
    decreases n,
{
    if n == 0 {
        1
    } else {
        256 * pow256((n - 1) as nat)
    }
}

/// The value of a byte sequence read as a big-endian number.
pub open spec fn be_val(s: Seq<u8>) -> int
    decreases s.len(),
{
    if s.len() == 0 {
        0
    } else {
        be_val(s.drop_last()) * 256 + s.last()
    }
}

/// The `n`-byte big-endian encoding of `v` (modulo `256^n`).
pub open spec fn be_bytes(v: int, n: nat) -> Seq<u8>
    decreases n,
{
    if n == 0 {
        Seq::empty()
    } else {
        be_bytes(v / 256, (n - 1) as nat) + seq![(v % 256) as u8]
    }
}

/// The canonical 16-byte encoding of an identifier value.
pub open spec fn id_bytes(v: u128) -> Seq<u8> {
    be_bytes(v as int, 16)
}

pub proof fn lemma_pow256_pos(n: nat)
    ensures
        pow256(n) >= 1,
    decreases n,
{
    if n > 0 {
        lemma_pow256_pos((n - 1) as nat);
    }
}

pub proof fn lemma_pow256_mono(a: nat, b: nat)
    requires
        a <= b,
    ensures
        pow256(a) <= pow256(b),
    decreases b,
{
    if a < b {
        lemma_pow256_mono(a, (b - 1) as nat);
        lemma_pow256_pos((b - 1) as nat);
    }
}

pub proof fn lemma_be_bytes_len(v: int, n: nat)
    ensures
        be_bytes(v, n).len() == n,
    decreases n,
{
    if n > 0 {
        lemma_be_bytes_len(v / 256, (n - 1) as nat);
    }
}

/// A byte sequence read back as big-endian recovers the encoded value,
/// modulo `256^n`.
pub proof fn lemma_be_val_be_bytes(v: int, n: nat)
    requires
        v >= 0,
    ensures
        be_val(be_bytes(v, n)) == v % pow256(n),
    decreases n,
{
    if n == 0 {
        assert(v % 1 == 0) by (nonlinear_arith)
            requires
                v >= 0,
        ;
    } else {
        let m = (n - 1) as nat;
        let p = be_bytes(v / 256, m);
        lemma_be_bytes_len(v / 256, m);
        lemma_be_val_be_bytes(v / 256, m);
        let full = p + seq![(v % 256) as u8];
        assert(full.drop_last() =~= p);
        assert(be_val(full) == be_val(p) * 256 + (v % 256));
        lemma_pow256_pos(m);
        lemma_mod_breakdown(v, 256, pow256(m));
        assert(256 * pow256(m) == pow256(n));
    }
}

/// A big-endian value is bounded by `256^len`.
pub proof fn lemma_be_val_bound(s: Seq<u8>)
    ensures
        0 <= be_val(s) < pow256(s.len()),
    decreases s.len(),
{
    if s.len() > 0 {
        lemma_be_val_bound(s.drop_last());
        let b = be_val(s.drop_last());
        let p = pow256((s.len() - 1) as nat);
        assert(0 <= b * 256 + s.last() < 256 * p) by (nonlinear_arith)
            requires
                0 <= b < p,
                0 <= s.last() < 256,
        ;
    }
}

/// Encoding an identifier to 16 bytes and reading the bytes back as a
/// big-endian number is the identity.
pub proof fn lemma_id_bytes_roundtrip(v: u128)
    ensures
        id_bytes(v).len() == 16,
        be_val(id_bytes(v)) == v as int,
{
    lemma_be_bytes_len(v as int, 16);
    lemma_be_val_be_bytes(v as int, 16);
    reveal_with_fuel(pow256, 17);
    assert(pow256(16) == u128::MAX as int + 1);
    lemma_small_mod(v as nat, (u128::MAX as nat + 1) as nat);
}

/// A 16-byte sequence is exactly the encoding of the value it denotes:
/// decoding and re-encoding an identifier blob is the identity.
pub proof fn lemma_be_bytes_be_val(s: Seq<u8>)
    ensures
        be_bytes(be_val(s), s.len()) == s,
    decreases s.len(),
{
    if s.len() > 0 {
        let v = be_val(s);
        let d = s.drop_last();
        lemma_be_val_bound(d);
        assert(v == be_val(d) * 256 + s.last());
        assert(v % 256 == s.last() && v / 256 == be_val(d)) by (nonlinear_arith)
            requires
                v == be_val(d) * 256 + s.last(),
                0 <= s.last() < 256,
                be_val(d) >= 0,
        ;
        lemma_be_bytes_be_val(d);
        assert(be_bytes(v, s.len()) == be_bytes(be_val(d), d.len()) + seq![(v % 256) as u8]);
        assert(be_bytes(v, s.len()) =~= s);
    }
}

/// Whether a byte sequence is a decodable identifier blob: exactly 16
/// bytes, not all zero.
pub open spec fn blob_decodes(b: Seq<u8>) -> bool {
    b.len() == 16 && be_val(b) != 0
}

/// Whether `c` is a decimal digit.
pub open spec fn is_dec_digit(c: char) -> bool {
    48 <= c as u32 && c as u32 <= 57
}

pub open spec fn all_dec_digits(s: Seq<char>) -> bool {
    forall|i: int| 0 <= i < s.len() ==> is_dec_digit(#[trigger] s[i])
}

/// The value of a digit sequence read as a decimal number.
pub open spec fn dec_val(s: Seq<char>) -> int
    decreases s.len(),
{
    if s.len() == 0 {
        0
    } else {
        dec_val(s.drop_last()) * 10 + ((s.last() as u32) - 48)
    }
}

/// The canonical decimal text form of an identifier: nonempty, digits only,
/// no leading zero, nonzero, and within the 128-bit range.
pub open spec fn is_canonical_dec(s: Seq<char>) -> bool {
    &&& s.len() > 0
    &&& all_dec_digits(s)
    &&& (s.len() > 1 ==> s[0] != '0')
    &&& 0 < dec_val(s) <= u128::MAX as int
}

pub proof fn lemma_dec_val_nonneg(s: Seq<char>)
    requires
        all_dec_digits(s),
    ensures
        dec_val(s) >= 0,
    decreases s.len(),
{
    if s.len() > 0 {
        assert(all_dec_digits(s.drop_last())) by {
            assert(forall|i: int|
                0 <= i < s.len() - 1 ==> s.drop_last()[i] == #[trigger] s[i]);
        }
        lemma_dec_val_nonneg(s.drop_last());
        assert(is_dec_digit(s.last()));
        assert((s.last() as u32) >= 48);
    }
}

/// Appending digits never decreases the decimal value.
pub proof fn lemma_dec_val_prefix(s: Seq<char>, i: int)
    requires
        all_dec_digits(s),
        0 <= i <= s.len(),
    ensures
        dec_val(s.subrange(0, i)) <= dec_val(s),
    decreases s.len() - i,
{
    if i < s.len() {
        let t = s.subrange(0, i + 1);
        assert(t.drop_last() =~= s.subrange(0, i));
        assert(all_dec_digits(t.drop_last()));
        lemma_dec_val_nonneg(t.drop_last());
        assert(is_dec_digit(t.last()));
        assert(dec_val(t) == dec_val(t.drop_last()) * 10 + ((t.last() as u32) - 48));
        assert(dec_val(s.subrange(0, i)) * 10 >= dec_val(s.subrange(0, i))) by (nonlinear_arith)
            requires
                dec_val(s.subrange(0, i)) >= 0,
        ;
        lemma_dec_val_prefix(s, i + 1);
    } else {
        assert(s.subrange(0, i) =~= s);
    }
}

/// An opaque, unique, nonzero 128-bit entity identifier.
#[derive(Debug, Clone, Copy, PartialEq, Eq, PartialOrd, Ord, Hash, Structural)]
pub struct SqlID {
    raw: u128,
}

impl View for SqlID {
    type V = u128;

    closed spec fn view(&self) -> u128 {
        self.raw
    }
}

impl SqlID {
    /// The all-zero value is never a valid identifier.
    #[verifier::type_invariant]
    pub closed spec fn wf(self) -> bool {
        self.raw != 0
    }

    /// Every identifier is nonzero by construction; `use_type_invariant`
    /// supplies `wf` for any identifier in hand.
    pub proof fn lemma_wf_nonzero(self)
        requires
            self.wf(),
        ensures
            self@ != 0,
    {
    }

    /// Wraps a raw value; the all-zero identifier is never valid.
    pub fn new(raw: u128) -> (r: Result<SqlID, Error>)
        ensures
            r is Ok <==> raw != 0,
            r is Ok ==> r->Ok_0@ == raw,
            r is Err ==> r->Err_0 is InvalidID,
    {
        if raw == 0 {
            Err(Error::InvalidID)
        } else {
            Ok(SqlID { raw })
        }
    }

    /// Generates a fresh identifier, uniformly at random over the nonzero
    /// 128-bit space; the all-zero draw (never a valid identifier) is mapped
    /// into range.
    pub fn new_random() -> (r: SqlID)
        ensures
            r@ != 0,
    {
        let x: u128 = random_u128();
        if x == 0 {
            SqlID { raw: 1 }
        } else {
            SqlID { raw: x }
        }
    }

    /// The fixed-width big-endian storage encoding.
    pub fn to_bytes(&self) -> (r: Vec<u8>)
        ensures
            r@ == id_bytes(self@),
            r@.len() == 16,
    {
        let ghost v0: int = self.raw as int;
        let mut out: Vec<u8> = Vec::new();
        let mut x: u128 = self.raw;
        let mut i: usize = 0;
        proof {
            assert(v0 / 1 == v0) by (nonlinear_arith);
            assert(be_bytes(v0, 16) =~= be_bytes(v0, 16) + Seq::<u8>::empty());
        }
        while i < 16
            invariant
                0 <= i <= 16,
                out@.len() == i,
                x as int == v0 / pow256(i as nat),
                v0 >= 0,
                be_bytes(v0, 16) == be_bytes(x as int, (16 - i) as nat) + out@,
            decreases 16 - i,
        {
            let ghost old_out = out@;
            let ghost xi: int = x as int;
            let b: u8 = (x % 256) as u8;
            out.insert(0, b);
            x = x / 256;
            i += 1;
            proof {
                assert(out@ =~= seq![b] + old_out);
                let m = (16 - (i - 1)) as nat;
                assert(be_bytes(xi, m) == be_bytes(xi / 256, (m - 1) as nat) + seq![(xi % 256) as u8]);
                assert(be_bytes(xi / 256, (m - 1) as nat) + seq![b] + old_out =~= be_bytes(
                    xi / 256,
                    (m - 1) as nat,
                ) + (seq![b] + old_out));
                lemma_pow256_pos((i - 1) as nat);
                lemma_div_denominator(v0, pow256((i - 1) as nat), 256);
                assert(pow256((i - 1) as nat) * 256 == pow256(i as nat));
            }
        }
        proof {
            lemma_be_bytes_len(v0, 16);
            assert(be_bytes(x as int, 0) + out@ =~= out@);
        }
        out
    }

    /// Decodes the fixed-width storage encoding; fails on any length other
    /// than 16 bytes and on the all-zero encoding.
    pub fn from_bytes(b: &Vec<u8>) -> (r: Result<SqlID, Error>)
        ensures
            match r {
                Ok(id) => b@.len() == 16 && id@ as int == be_val(b@) && id@ != 0,
                Err(e) => e is InvalidID && (b@.len() != 16 || be_val(b@) == 0),
            },
    {
        if b.len() != 16 {
            return Err(Error::InvalidID);
        }
        let mut acc: u128 = 0;
        let mut i: usize = 0;
        proof {
            assert(b@.subrange(0, 0) =~= Seq::<u8>::empty());
        }
        while i < 16
            invariant
                0 <= i <= 16,
                b@.len() == 16,
                acc as int == be_val(b@.subrange(0, i as int)),
            decreases 16 - i,
        {
            proof {
                lemma_be_val_bound(b@.subrange(0, i as int));
                lemma_pow256_mono(i as nat, 15);
                reveal_with_fuel(pow256, 16);
                assert(pow256(15) == 0x1000000000000000000000000000000);
                let a: int = acc as int;
                assert(a * 256 + 255 <= u128::MAX as int)
                    by (nonlinear_arith)
                    requires
                        0 <= a < 0x1000000000000000000000000000000,
                ;
                assert(acc as int * 256 + 255 <= u128::MAX as int);
                let t = b@.subrange(0, i as int + 1);
                assert(t.drop_last() =~= b@.subrange(0, i as int));
                assert(be_val(t) == be_val(t.drop_last()) * 256 + t.last());
            }
            acc = acc * 256 + (b[i] as u128);
            i += 1;
        }
        proof {
            assert(b@.subrange(0, 16) =~= b@);
        }
        if acc == 0 {
            Err(Error::InvalidID)
        } else {
            Ok(SqlID { raw: acc })
        }
    }

    /// Parses the canonical decimal text form used by the version-1 schema:
    /// nonzero, digits only, no leading zero.
    pub fn parse(s: &str) -> (r: Result<SqlID, Error>)
        ensures
            match r {
                Ok(id) => is_canonical_dec(s@) && id@ as int == dec_val(s@) && id@ != 0,
                Err(e) => e is InvalidID && !is_canonical_dec(s@),
            },
    {
        let n: usize = s.unicode_len();
        if n == 0 {
            return Err(Error::InvalidID);
        }
        if n > 1 && s.get_char(0) == '0' {
            return Err(Error::InvalidID);
        }
        let mut acc: u128 = 0;
        let mut i: usize = 0;
        proof {
            assert(s@.subrange(0, 0) =~= Seq::<char>::empty());
        }
        while i < n
            invariant
                0 <= i <= n,
                n == s@.len(),
                n > 1 ==> s@[0] != '0',
                all_dec_digits(s@.subrange(0, i as int)),
                acc as int == dec_val(s@.subrange(0, i as int)),
            decreases n - i,
        {
            let c: char = s.get_char(i);
            let u: u32 = c as u32;
            if !(48 <= u && u <= 57) {
                proof {
                    assert(!is_dec_digit(s@[i as int]));
                }
                return Err(Error::InvalidID);
            }
            let d: u32 = u - 48;
            proof {
                let t = s@.subrange(0, i as int + 1);
                assert(t.drop_last() =~= s@.subrange(0, i as int));
                assert(t.last() == c);
                assert(dec_val(t) == acc as int * 10 + d);
                assert(forall|j: int| 0 <= j < t.len() ==> is_dec_digit(#[trigger] t[j]));
            }
            if acc > (u128::MAX - d as u128) / 10 {
                // The value so far already exceeds the 128-bit range, so the
                // whole string does too.
                proof {
                    let a: int = acc as int;
                    let dd: int = d as int;
                    assert(a * 10 + dd > u128::MAX as int) by (nonlinear_arith)
                        requires
                            a > (u128::MAX as int - dd) / 10,
                            0 <= dd < 10,
                            a >= 0,
                    ;
                    assert(acc as int * 10 + d > u128::MAX as int);
                    if all_dec_digits(s@) {
                        lemma_dec_val_prefix(s@, i as int + 1);
                    }
                    assert(!is_canonical_dec(s@));
                }
                return Err(Error::InvalidID);
            }
            proof {
                let a: int = acc as int;
                let dd: int = d as int;
                assert(a * 10 + dd <= u128::MAX as int) by (nonlinear_arith)
                    requires
                        a <= (u128::MAX as int - dd) / 10,
                        0 <= dd < 10,
                        a >= 0,
                ;
                assert(acc as int * 10 + d <= u128::MAX as int);
            }
            acc = acc * 10 + d as u128;
            i += 1;
        }
        proof {
            assert(s@.subrange(0, n as int) =~= s@);
        }
        if acc == 0 {
            proof {
                assert(!is_canonical_dec(s@));
            }
            Err(Error::InvalidID)
        } else {
            Ok(SqlID { raw: acc })
        }
    }
}

/// Relies on `rand::Rng::gen` via `rand::thread_rng` for uniformly random
/// bits; nothing is assumed of the value drawn.
#[verifier::external_body]
fn random_u128() -> u128 {
    rand::thread_rng().gen()
}

} // verus!
