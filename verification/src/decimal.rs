//! Decimal text: reading the caller-declared offset out of the "index" form
//! part, and rendering the running byte total for the reply body.

use vstd::prelude::*;

verus! {

/// `b` is an ASCII decimal digit.
pub open spec fn is_digit(b: u8) -> bool {
    48 <= b <= 57
}

/// Every byte of `s` is an ASCII decimal digit.
pub open spec fn all_digits(s: Seq<u8>) -> bool {
    forall|i: int| 0 <= i < s.len() ==> is_digit(#[trigger] s[i])
}

/// The value of the digit string `s`, most significant digit first.
pub open spec fn digits_val(s: Seq<u8>) -> int
    decreases s.len(),
{
    if s.len() == 0 {
        0
    } else {
        digits_val(s.drop_last()) * 10 + (s.last() - 48)
    }
}

/// What reading `s` as an unsigned decimal number yields: an optional leading
/// `+`, then at least one digit, and a value that fits the machine word.
pub open spec fn spec_parse_usize(s: Seq<u8>) -> Option<usize> {
    let t = if s.len() > 0 && s[0] == 43 {
        s.drop_first()
    } else {
        s
    };
    if t.len() > 0 && all_digits(t) && digits_val(t) <= usize::MAX {
        Some(digits_val(t) as usize)
    } else {
        None
    }
}

/// The canonical decimal rendering of `n`: no sign, no leading zero except
/// for the single digit of zero itself.
pub open spec fn spec_decimal(n: int) -> Seq<u8>
    decreases n,
    when n >= 0
{
    if n < 10 {
        seq![(48 + n) as u8]
    } else {
        spec_decimal(n / 10).push((48 + n % 10) as u8)
    }
}

proof fn lemma_digits_val_nonneg(s: Seq<u8>)
    requires
        all_digits(s),
    ensures
        digits_val(s) >= 0,
    decreases s.len(),
{
    if s.len() > 0 {
        assert(all_digits(s.drop_last())) by {
            assert(forall|i: int|
                0 <= i < s.len() - 1 ==> s.drop_last()[i] == #[trigger] s[i]);
        }
        lemma_digits_val_nonneg(s.drop_last());
    }
}

/// Appending digits never shrinks the value of a digit string.
proof fn lemma_digits_val_prefix(s: Seq<u8>, k: int)
    requires
        all_digits(s),
        0 <= k <= s.len(),
    ensures
        digits_val(s.take(k)) <= digits_val(s),
    decreases s.len() - k,
{
    if k < s.len() {
        assert(all_digits(s.take(k + 1))) by {
            assert(forall|i: int|
                0 <= i < k + 1 ==> s.take(k + 1)[i] == #[trigger] s[i]);
        }
        assert(s.take(k + 1).drop_last() =~= s.take(k));
        assert(digits_val(s.take(k + 1))
            == digits_val(s.take(k)) * 10 + (s[k] - 48));
        lemma_digits_val_nonneg(s.take(k));
        lemma_digits_val_prefix(s, k + 1);
    } else {
        assert(s.take(k) =~= s);
    }
}

/// Reads `s` as an unsigned decimal number, exactly as
/// [`spec_parse_usize`] describes.
pub fn parse_usize(s: &[u8]) -> (r: Option<usize>)
    ensures
        r == spec_parse_usize(s@),
{
    let start: usize = if s.len() > 0 && s[0] == 43 {
        1
    } else {
        0
    };
    let ghost t: Seq<u8> = s@.subrange(start as int, s@.len() as int);
    proof {
        if s@.len() > 0 && s@[0] == 43 {
            assert(t =~= s@.drop_first());
        } else {
            assert(t =~= s@);
        }
    }
    if s.len() == start {
        return None;
    }
    let mut val: usize = 0;
    let mut i: usize = start;
    while i < s.len()
        invariant
            start <= i <= s@.len(),
            t == s@.subrange(start as int, s@.len() as int),
            t == (if s@.len() > 0 && s@[0] == 43 {
                s@.drop_first()
            } else {
                s@
            }),
            t.len() == s@.len() - start,
            t.len() > 0,
            all_digits(t.take(i - start)),
            val == digits_val(t.take(i - start)),
        decreases s@.len() - i,
    {
        let b = s[i];
        assert(t[i - start] == b);
        if b < 48 || b > 57 {
            assert(!all_digits(t));
            return None;
        }
        let d = (b - 48) as usize;
        let ghost k: int = i - start;
        assert(all_digits(t.take(k + 1))) by {
            assert(forall|j: int|
                0 <= j < k + 1 ==> t.take(k + 1)[j] == #[trigger] t[j]);
        }
        assert(t.take(k + 1).drop_last() =~= t.take(k));
        assert(digits_val(t.take(k + 1)) == val * 10 + d);
        if val > usize::MAX / 10 {
            proof {
                assert(usize::MAX as int
                    == (usize::MAX as int / 10) * 10 + usize::MAX as int % 10);
                assert(val * 10 + d > usize::MAX);
                if all_digits(t) && digits_val(t) <= usize::MAX {
                    lemma_digits_val_prefix(t, k + 1);
                }
            }
            return None;
        }
        assert(val * 10 <= (usize::MAX as int / 10) * 10 <= usize::MAX);
        let v10 = val * 10;
        if d > usize::MAX - v10 {
            proof {
                if all_digits(t) && digits_val(t) <= usize::MAX {
                    lemma_digits_val_prefix(t, k + 1);
                }
            }
            return None;
        }
        val = v10 + d;
        i = i + 1;
    }
    proof {
        assert(t.take(i - start) =~= t);
        lemma_digits_val_nonneg(t);
    }
    Some(val)
}

/// Renders `n` in decimal, exactly as [`spec_decimal`] describes.
pub fn decimal_digits(n: usize) -> (r: Vec<u8>)
    ensures
        r@ == spec_decimal(n as int),
    decreases n,
{
    if n < 10 {
        let mut r: Vec<u8> = Vec::new();
        r.push(48 + n as u8);
        assert(r@ =~= seq![(48 + n) as u8]);
        r
    } else {
        let mut r = decimal_digits(n / 10);
        r.push(48 + (n % 10) as u8);
        r
    }
}

/// A rendered total reads back as the same number: the reply body that
/// carries the running byte count is unambiguous.
pub proof fn lemma_decimal_round_trip(n: usize)
    ensures
        spec_parse_usize(spec_decimal(n as int)) == Some(n),
    decreases n,
{
    lemma_decimal_digits(n as int);
    let s = spec_decimal(n as int);
    assert(s[0] != 43);
    assert(digits_val(s) == n) by { lemma_decimal_val(n as int); }
}

/// Every byte of a decimal rendering is a digit.
proof fn lemma_decimal_digits(n: int)
    requires
        n >= 0,
    ensures
        spec_decimal(n).len() > 0,
        all_digits(spec_decimal(n)),
        spec_decimal(n)[0] != 43,
    decreases n,
{
    if n >= 10 {
        lemma_decimal_digits(n / 10);
        let s = spec_decimal(n);
        let p = spec_decimal(n / 10);
        assert(forall|i: int| 0 <= i < s.len() ==> is_digit(#[trigger] s[i])) by {
            assert(forall|i: int| 0 <= i < p.len() ==> s[i] == #[trigger] p[i]);
        }
    }
}

/// Reading a decimal rendering back gives the rendered number.
proof fn lemma_decimal_val(n: int)
    requires
        n >= 0,
    ensures
        digits_val(spec_decimal(n)) == n,
    decreases n,
{
    if n >= 10 {
        lemma_decimal_val(n / 10);
        assert(spec_decimal(n).drop_last() =~= spec_decimal(n / 10));
        assert(spec_decimal(n).last() == (48 + n % 10) as u8);
        assert(0 <= n % 10 < 10);
        assert((48 + n % 10) as u8 == 48 + n % 10);
        assert((n / 10) * 10 + n % 10 == n);
        assert(digits_val(spec_decimal(n))
            == digits_val(spec_decimal(n).drop_last()) * 10
                + (spec_decimal(n).last() - 48));
    } else {
        assert(spec_decimal(n) =~= seq![(48 + n) as u8]);
        assert(spec_decimal(n).drop_last() =~= Seq::<u8>::empty());
        assert(digits_val(Seq::<u8>::empty()) == 0);
        assert((48 + n) as u8 == 48 + n);
        assert(digits_val(spec_decimal(n))
            == digits_val(spec_decimal(n).drop_last()) * 10
                + (spec_decimal(n).last() - 48));
    }
}

} // verus!
