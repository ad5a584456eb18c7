//! Decimal integers as they appear on the wire: the byte sequence a counter
//! is written as, and the value a sequence of ASCII digits denotes.

use vstd::prelude::*;

verus! {

/// An ASCII decimal digit.
pub open spec fn is_digit(b: u8) -> bool {
    48 <= b <= 57
}

/// A non-empty, all-digit byte sequence: the only shape the wire grammar
/// accepts where a decimal integer is expected.
pub open spec fn dec_digits(s: Seq<u8>) -> bool {
    s.len() > 0 && forall|i: int| 0 <= i < s.len() ==> is_digit(s[i])
}

/// The value denoted by a digit sequence, most significant digit first.
pub open spec fn dec_val(s: Seq<u8>) -> int
    decreases s.len(),
{
    if s.len() == 0 {
        0
    } else {
        dec_val(s.drop_last()) * 10 + (s.last() - 48)
    }
}

/// The canonical decimal rendering of a non-negative integer.
pub open spec fn dec_of(n: int) -> Seq<u8>
    decreases n,
{
    if n < 10 {
        seq![(48 + if n >= 0 { n } else { 0 }) as u8]
    } else {
        dec_of(n / 10).push((48 + n % 10) as u8)
    }
}

pub proof fn lemma_dec_val_nonneg(s: Seq<u8>)
    requires
        forall|i: int| 0 <= i < s.len() ==> is_digit(s[i]),
    ensures
        dec_val(s) >= 0,
    decreases s.len(),
{
    if s.len() > 0 {
        lemma_dec_val_nonneg(s.drop_last());
    }
}

/// Appending digits never decreases the denoted value.
pub proof fn lemma_dec_val_prefix_le(s: Seq<u8>, i: int)
    requires
        0 <= i <= s.len(),
        forall|j: int| 0 <= j < s.len() ==> is_digit(s[j]),
    ensures
        dec_val(s.take(i)) <= dec_val(s),
    decreases s.len() - i,
{
    if i < s.len() {
        lemma_dec_val_prefix_le(s, i + 1);
        let t = s.take(i + 1);
        lemma_dec_val_nonneg(t.drop_last());
        assert(t.drop_last() =~= s.take(i));
        assert(dec_val(t) == dec_val(s.take(i)) * 10 + (s[i] - 48));
        assert(dec_val(s.take(i)) <= dec_val(s.take(i)) * 10) by {
            lemma_dec_val_nonneg(s.take(i));
        }
    } else {
        assert(s.take(i) =~= s);
    }
}

pub proof fn lemma_dec_of_digits(n: int)
    requires
        n >= 0,
    ensures
        dec_digits(dec_of(n)),
    decreases n,
{
    if n >= 10 {
        lemma_dec_of_digits(n / 10);
    }
}

/// Rendering then reading a value gives the value back.
pub proof fn lemma_dec_roundtrip(n: int)
    requires
        n >= 0,
    ensures
        dec_val(dec_of(n)) == n,
    decreases n,
{
    if n >= 10 {
        lemma_dec_roundtrip(n / 10);
        assert(dec_of(n).drop_last() =~= dec_of(n / 10));
        assert(dec_of(n).last() == (48 + n % 10) as u8);
        vstd::arithmetic::div_mod::lemma_fundamental_div_mod(n, 10);
    } else {
        assert(dec_val(dec_of(n)) == dec_val(dec_of(n).drop_last()) * 10 + (dec_of(n).last() - 48));
        assert(dec_of(n).drop_last() =~= Seq::<u8>::empty());
    }
}

/// Writes `n` in decimal, most significant digit first.
pub fn format_u64(n: u64) -> (r: Vec<u8>)
    ensures
        r@ == dec_of(n as int),
    decreases n,
{
    if n < 10 {
        let mut r: Vec<u8> = Vec::new();
        r.push(48 + n as u8);
        proof {
            assert(r@ =~= dec_of(n as int));
        }
        r
    } else {
        let mut r = format_u64(n / 10);
        r.push(48 + (n % 10) as u8);
        r
    }
}

/// Reads a decimal integer from a token.  Returns the value exactly when the
/// token is a non-empty digit string whose value fits in a `u64`.
pub fn parse_u64(s: &Vec<u8>) -> (r: Option<u64>)
    ensures
        match r {
            Some(v) => dec_digits(s@) && v == dec_val(s@) && dec_val(s@) <= u64::MAX,
            None => !(dec_digits(s@) && dec_val(s@) <= u64::MAX),
        },
{
    if s.len() == 0 {
        return None;
    }
    let mut acc: u64 = 0;
    let mut i: usize = 0;
    while i < s.len()
        invariant
            0 <= i <= s@.len(),
            s@.len() > 0,
            forall|j: int| 0 <= j < i ==> is_digit(s@[j]),
            acc == dec_val(s@.take(i as int)),
        decreases s@.len() - i,
    {
        let b = s[i];
        if b < 48 || b > 57 {
            assert(!dec_digits(s@));
            return None;
        }
        let d = (b - 48) as u64;
        proof {
            assert(s@.take(i + 1).drop_last() =~= s@.take(i as int));
            assert(dec_val(s@.take(i + 1)) == acc * 10 + d);
        }
        if acc > (u64::MAX - d) / 10 {
            proof {
                assert(acc * 10 + d > u64::MAX) by (nonlinear_arith)
                    requires
                        acc > (u64::MAX - d) / 10,
                        d <= 9,
                        acc >= 0,
                ;
                if dec_digits(s@) {
                    lemma_dec_val_prefix_le(s@, i + 1);
                }
            }
            return None;
        }
        proof {
            assert(acc * 10 + d <= u64::MAX) by (nonlinear_arith)
                requires
                    acc <= (u64::MAX - d) / 10,
                    d <= 9,
                    acc >= 0,
            ;
        }
        acc = acc * 10 + d;
        i = i + 1;
    }
    proof {
        assert(s@.take(i as int) =~= s@);
    }
    Some(acc)
}

} // verus!
