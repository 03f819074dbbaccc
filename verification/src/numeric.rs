//! Plain decimal text, read exactly into fixed-point micros.
//!
//! Coordinate attributes hold plain decimal text such as `"156"`, `"-3"`,
//! `"32.5"` or `".25"`: an optional sign, digits, and at most one point.
//! The value is read exactly into millionths of a pixel, so a fraction is
//! representable when it needs no more than six decimal places (further
//! places may only hold zeros), and a whole part may not exceed
//! 999 999 999 pixels.  Text outside this shape or range denotes nothing.

use vstd::prelude::*;

use vstd::slice::slice_subrange;

verus! {

/// Largest whole-pixel magnitude a coordinate may spell out.
pub const MAX_WHOLE_PIXELS: u64 = 999_999_999;

/// True when `b` is an ASCII decimal digit.
pub open spec fn is_digit(b: u8) -> bool {
    48 <= b <= 57
}

/// True when every byte of `s` is an ASCII decimal digit.
pub open spec fn all_digits(s: Seq<u8>) -> bool {
    forall|i: int| 0 <= i < s.len() ==> is_digit(#[trigger] s[i])
}

/// The number that a sequence of ASCII digits writes in base ten; the empty
/// sequence writes zero.
pub open spec fn digits_val(s: Seq<u8>) -> int
    decreases s.len(),
{
    if s.len() == 0 {
        0
    } else {
        digits_val(s.drop_last()) * 10 + (s.last() - 48)
    }
}

/// Ten to the `k`.
pub open spec fn ten_pow(k: nat) -> int
    decreases k,
{
    if k == 0 {
        1
    } else {
        10 * ten_pow((k - 1) as nat)
    }
}

/// The position of the first point character at or after `i`, or the length
/// when there is none.
pub open spec fn dot_pos(s: Seq<u8>, i: int) -> int
    decreases s.len() - i,
{
    if i < 0 || i >= s.len() {
        s.len() as int
    } else if s[i] == 46 {
        i
    } else {
        dot_pos(s, i + 1)
    }
}

/// The fraction digits scaled to six decimal places: the value of the first
/// six of them, padded with zeros when there are fewer.
pub open spec fn frac6(fp: Seq<u8>) -> int {
    if fp.len() >= 6 {
        digits_val(fp.subrange(0, 6))
    } else {
        digits_val(fp) * ten_pow((6 - fp.len()) as nat)
    }
}

/// True when every fraction digit past the sixth is a zero, so that the
/// first six places carry the whole fraction.
pub open spec fn frac_tail_zero(fp: Seq<u8>) -> bool {
    forall|j: int| 6 <= j < fp.len() ==> #[trigger] fp[j] == 48
}

/// The value, in millionths, that unsigned decimal text `t` denotes:
/// digits, optionally split by one point, with at least one digit in all.
/// `None` when `t` is not of that shape, needs more than six meaningful
/// decimal places, or exceeds [`MAX_WHOLE_PIXELS`] whole pixels.
pub open spec fn spec_micros_unsigned(t: Seq<u8>) -> Option<int> {
    let dp = dot_pos(t, 0);
    let ip = t.subrange(0, dp);
    let fp = if dp < t.len() {
        t.subrange(dp + 1, t.len() as int)
    } else {
        Seq::<u8>::empty()
    };
    if all_digits(ip) && all_digits(fp) && ip.len() + fp.len() >= 1 && frac_tail_zero(fp)
        && digits_val(ip) <= MAX_WHOLE_PIXELS {
        Some(digits_val(ip) * 1_000_000 + frac6(fp))
    } else {
        None
    }
}

/// The value, in millionths, that decimal text `v` denotes: an optional
/// leading sign followed by an unsigned decimal.
pub open spec fn spec_micros(v: Seq<u8>) -> Option<int> {
    if v.len() > 0 && (v[0] == 43 || v[0] == 45) {
        match spec_micros_unsigned(v.skip(1)) {
            Some(m) => Some(
                if v[0] == 45 {
                    -m
                } else {
                    m
                },
            ),
            None => None,
        }
    } else {
        spec_micros_unsigned(v)
    }
}

proof fn lemma_dot_pos_is(s: Seq<u8>, i: int, k: int)
    requires
        0 <= i <= k <= s.len(),
        forall|j: int| i <= j < k ==> #[trigger] s[j] != 46,
        k == s.len() || s[k] == 46,
    ensures
        dot_pos(s, i) == k,
    decreases k - i,
{
    if i < k {
        lemma_dot_pos_is(s, i + 1, k);
    }
}

proof fn lemma_digits_val_bounds(s: Seq<u8>)
    requires
        all_digits(s),
    ensures
        0 <= digits_val(s) < ten_pow(s.len()),
    decreases s.len(),
{
    if s.len() > 0 {
        lemma_digits_val_bounds(s.drop_last());
    }
}

proof fn lemma_ten_pow_le(a: nat, b: nat)
    requires
        a <= b,
    ensures
        ten_pow(a) <= ten_pow(b),
    decreases b,
{
    if a < b {
        lemma_ten_pow_le(a, (b - 1) as nat);
        lemma_ten_pow_pos((b - 1) as nat);
    }
}

proof fn lemma_ten_pow_pos(k: nat)
    ensures
        ten_pow(k) >= 1,
    decreases k,
{
    if k > 0 {
        lemma_ten_pow_pos((k - 1) as nat);
    }
}

proof fn lemma_digits_val_monotone(s: Seq<u8>, i: int)
    requires
        all_digits(s),
        0 <= i <= s.len(),
    ensures
        digits_val(s.take(i)) <= digits_val(s),
    decreases s.len() - i,
{
    if i < s.len() {
        lemma_digits_val_monotone(s, i + 1);
        assert(s.take(i + 1).drop_last() =~= s.take(i));
        assert(all_digits(s.take(i))) by {
            assert(forall|j: int| 0 <= j < i ==> s.take(i)[j] == s[j]);
        }
        lemma_digits_val_bounds(s.take(i));
        assert(s.take(i + 1).last() == s[i]);
        assert(digits_val(s.take(i + 1)) == digits_val(s.take(i)) * 10 + (s[i] - 48));
    } else {
        assert(s.take(i) =~= s);
    }
}

#[verifier::loop_isolation(false)]
#[verifier::rlimit(60)]
fn parse_micros_unsigned(t: &[u8]) -> (r: Option<i64>)
    ensures
        r matches Some(m) ==> spec_micros_unsigned(t@) == Some(m as int) && 0 <= m
            <= crate::coord::COORD_MAX_MICROS,
        r is None ==> spec_micros_unsigned(t@) is None,
{
    let n = t.len();
    let mut dp: usize = 0;
    while dp < n && t[dp] != 46
        invariant
            n == t@.len(),
            0 <= dp <= n,
            forall|j: int| 0 <= j < dp ==> #[trigger] t@[j] != 46,
        decreases n - dp,
    {
        dp += 1;
    }
    proof {
        lemma_dot_pos_is(t@, 0, dp as int);
    }
    let ip = slice_subrange(t, 0, dp);
    let fp = if dp < n {
        slice_subrange(t, dp + 1, n)
    } else {
        slice_subrange(t, n, n)
    };
    proof {
        if dp >= n {
            assert(fp@ =~= Seq::<u8>::empty());
        }
    }
    if ip.len() == 0 && fp.len() == 0 {
        return None;
    }
    // the whole part
    let mut acc: u64 = 0;
    let mut i: usize = 0;
    let ilen = ip.len();
    while i < ilen
        invariant
            ilen == ip@.len(),
            0 <= i <= ilen,
            forall|j: int| 0 <= j < i ==> is_digit(#[trigger] ip@[j]),
            acc == digits_val(ip@.take(i as int)),
            acc <= MAX_WHOLE_PIXELS,
        decreases ilen - i,
    {
        let b = ip[i];
        if b < 48 || b > 57 {
            proof {
                assert(!is_digit(ip@[i as int]));
                assert(!all_digits(ip@));
            }
            return None;
        }
        let next: u64 = acc * 10 + ((b - 48) as u64);
        proof {
            assert(ip@.take(i + 1).drop_last() =~= ip@.take(i as int));
            assert(ip@.take(i + 1).last() == ip@[i as int]);
            assert(digits_val(ip@.take(i + 1)) == next);
        }
        if next > MAX_WHOLE_PIXELS {
            proof {
                if all_digits(ip@) {
                    lemma_digits_val_monotone(ip@, i + 1);
                    assert(digits_val(ip@) > MAX_WHOLE_PIXELS);
                }
                assert(spec_micros_unsigned(t@) is None);
            }
            return None;
        }
        acc = next;
        i += 1;
    }
    proof {
        assert(ip@.take(ilen as int) =~= ip@);
    }
    // the fraction, scaled to six places
    let mut frac: u64 = 0;
    let mut k: usize = 0;
    let flen = fp.len();
    while k < flen
        invariant
            flen == fp@.len(),
            0 <= k <= flen,
            forall|j: int| 0 <= j < k ==> is_digit(#[trigger] fp@[j]),
            forall|j: int| 6 <= j < k ==> #[trigger] fp@[j] == 48,
            k <= 6 ==> frac == digits_val(fp@.take(k as int)),
            k > 6 ==> frac == digits_val(fp@.take(6)),
            frac < ten_pow(if k < 6 {
                k as nat
            } else {
                6 as nat
            }),
        decreases flen - k,
    {
        let b = fp[k];
        if b < 48 || b > 57 {
            proof {
                assert(!is_digit(fp@[k as int]));
                assert(!all_digits(fp@));
            }
            return None;
        }
        if k < 6 {
            proof {
                assert(fp@.take(k + 1).drop_last() =~= fp@.take(k as int));
                assert(fp@.take(k + 1).last() == fp@[k as int]);
                lemma_ten_pow_le(k as nat, 5);
                reveal_with_fuel(ten_pow, 8);
                assert(ten_pow(5) == 100_000);
            }
            frac = frac * 10 + ((b - 48) as u64);
        } else if b != 48 {
            proof {
                assert(!frac_tail_zero(fp@));
            }
            return None;
        }
        k += 1;
    }
    proof {
        if flen >= 6 {
            assert(fp@.take(6) =~= fp@.subrange(0, 6));
        } else {
            assert(fp@.take(flen as int) =~= fp@);
        }
        lemma_ten_pow_le(if flen < 6 {
            flen as nat
        } else {
            6 as nat
        }, 6);
        reveal_with_fuel(ten_pow, 8);
        assert(ten_pow(6) == 1_000_000);
    }
    if flen < 6 {
        // scale the fraction out to six decimal places
        let mult: u64 = if flen == 0 {
            1_000_000
        } else if flen == 1 {
            100_000
        } else if flen == 2 {
            10_000
        } else if flen == 3 {
            1_000
        } else if flen == 4 {
            100
        } else {
            10
        };
        proof {
            reveal_with_fuel(ten_pow, 8);
            assert(mult == ten_pow((6 - flen) as nat));
        }
        frac = frac * mult;
    }
    proof {
        assert(frac == frac6(fp@));
        assert(frac < 1_000_000);
        assert(all_digits(ip@));
        assert(all_digits(fp@));
        assert(frac_tail_zero(fp@));
    }
    let total: i64 = (acc as i64) * 1_000_000 + (frac as i64);
    Some(total)
}

/// The exact fixed-point reading of decimal text: `Some` of the value in
/// millionths of a pixel when [`spec_micros`] gives one, `None` otherwise.
pub fn parse_micros(v: &[u8]) -> (r: Option<i64>)
    ensures
        r matches Some(m) ==> spec_micros(v@) == Some(m as int) && crate::coord::coord_in_range(
            m as int,
        ),
        r is None ==> spec_micros(v@) is None,
{
    let n = v.len();
    if n > 0 && (v[0] == 43 || v[0] == 45) {
        let neg = v[0] == 45;
        let t = slice_subrange(v, 1, n);
        proof {
            assert(t@ =~= v@.skip(1));
        }
        match parse_micros_unsigned(t) {
            Some(m) => Some(
                if neg {
                    -m
                } else {
                    m
                },
            ),
            None => None,
        }
    } else {
        proof {
            assert(v@.subrange(0, n as int) =~= v@);
        }
        parse_micros_unsigned(v)
    }
}

} // verus!
