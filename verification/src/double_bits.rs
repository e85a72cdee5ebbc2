//! Whole numbers and IEEE 754 binary64 values held as their bit patterns.
//!
//! A double is a `u64`: sign bit, 11-bit biased exponent, 52-bit fraction.
//! The two conversions here are the ones parameter values make between
//! integers and doubles: `i as f64` (round to nearest, ties to even) and,
//! for a double without fractional part, `d as i64` (saturating).
use vstd::prelude::*;
use vstd::arithmetic::power2::{
    pow2,
    lemma_pow2_pos,
    lemma_pow2_adds,
    lemma_pow2_unfold,
    lemma_pow2_strictly_increases,
    lemma2_to64,
    lemma2_to64_rest,
};
use vstd::arithmetic::div_mod::{
    lemma_small_mod,
    lemma_basic_div,
    lemma_div_is_ordered,
    lemma_fundamental_div_mod,
    lemma_fundamental_div_mod_converse,
};
use vstd::arithmetic::mul::{lemma_mul_inequality, lemma_mul_strict_inequality, lemma_mul_is_commutative};

verus! {

/// Weight of the hidden significand bit, 2^52.
pub open spec fn hidden_bit() -> nat {
    0x10_0000_0000_0000
}

/// Whether the sign bit of `b` is set.
pub open spec fn sign_bit(b: u64) -> bool {
    b >= 0x8000_0000_0000_0000u64
}

/// The biased exponent field of `b` (0 ..= 2047).
pub open spec fn exponent_field(b: u64) -> nat {
    ((b as nat % 0x8000_0000_0000_0000) / 0x10_0000_0000_0000) as nat
}

/// The fraction field of `b` (below 2^52).
pub open spec fn fraction_field(b: u64) -> nat {
    (b as nat % 0x10_0000_0000_0000) as nat
}

/// Significand of a finite double: the fraction, with the hidden bit for a
/// normal number.
pub open spec fn significand(b: u64) -> nat {
    if exponent_field(b) == 0 {
        fraction_field(b)
    } else {
        fraction_field(b) + hidden_bit()
    }
}

/// Power of two that scales the significand of a finite double:
/// `|value| = significand * 2^scale`.
pub open spec fn scale(b: u64) -> int {
    if exponent_field(b) == 0 {
        -1074
    } else {
        exponent_field(b) - 1075
    }
}

/// The magnitude of the double `b` when it is a whole number; `None` for an
/// infinity, a NaN, or a value with a fractional part.
pub open spec fn whole_magnitude(b: u64) -> Option<nat> {
    if exponent_field(b) == 2047 {
        None
    } else if scale(b) >= 0 {
        Some(significand(b) * pow2(scale(b) as nat))
    } else if significand(b) % pow2((-scale(b)) as nat) == 0 {
        Some(significand(b) / pow2((-scale(b)) as nat))
    } else {
        None
    }
}

/// `v` clamped into the range of `i64`.
pub open spec fn saturating_i64(v: int) -> i64 {
    if v > i64::MAX {
        i64::MAX
    } else if v < i64::MIN {
        i64::MIN
    } else {
        v as i64
    }
}

/// `d as i64` for a double `d` without fractional part; `None` when `d` has
/// one (or is not finite).
pub open spec fn spec_whole_to_i64(b: u64) -> Option<i64> {
    match whole_magnitude(b) {
        Some(m) => Some(saturating_i64(if sign_bit(b) { -m } else { m as int })),
        None => None,
    }
}

/// `2^n` for `n < 64`.
fn pow2_u64(n: u64) -> (r: u64)
    requires
        n < 64,
    ensures
        r as nat == pow2(n as nat),
{
    let mut r: u64 = 1;
    let mut i: u64 = 0;
    proof {
        lemma2_to64();
    }
    while i < n
        invariant
            i <= n < 64,
            r as nat == pow2(i as nat),
        decreases n - i,
    {
        proof {
            lemma_pow2_unfold((i + 1) as nat);
            lemma2_to64_rest();
            if i + 1 < 64 {
                lemma_pow2_strictly_increases((i + 1) as nat, 64);
            }
            lemma2_to64();
        }
        r = r * 2;
        i = i + 1;
    }
    r
}

proof fn lemma_significand_below(b: u64)
    ensures
        significand(b) < pow2(53),
        exponent_field(b) > 0 ==> significand(b) >= pow2(52),
        exponent_field(b) <= 2047,
{
    lemma2_to64_rest();
}

/// For a double without fractional part, `d as i64` (saturating); `None`
/// when `d` has a fractional part or is not finite.
pub fn whole_to_i64(b: u64) -> (r: Option<i64>)
    ensures
        r == spec_whole_to_i64(b),
{
    let e: u64 = (b % 0x8000_0000_0000_0000) / 0x10_0000_0000_0000;
    let f: u64 = b % 0x10_0000_0000_0000;
    let neg = b >= 0x8000_0000_0000_0000u64;
    proof {
        lemma_significand_below(b);
        lemma2_to64();
        lemma2_to64_rest();
    }
    if e == 2047 {
        return None;
    }
    if e == 0 {
        proof {
            lemma_pow2_strictly_increases(52, 1074);
            lemma_small_mod(f as nat, pow2(1074));
            lemma_basic_div(f as int, pow2(1074) as int);
        }
        if f == 0 {
            return Some(0);
        } else {
            return None;
        }
    }
    let m: u64 = f + 0x10_0000_0000_0000;
    if e < 1023 {
        proof {
            let sh = (1075 - e) as nat;
            if sh > 53 {
                lemma_pow2_strictly_increases(53, sh);
            }
            lemma_small_mod(m as nat, pow2(sh));
        }
        return None;
    }
    if e >= 1075 {
        let sh = e - 1075;
        if sh >= 11 {
            proof {
                if sh > 11 {
                    lemma_pow2_strictly_increases(11, sh as nat);
                }
                lemma_mul_inequality(pow2(52) as int, m as int, pow2(11) as int);
                lemma_mul_inequality(pow2(11) as int, pow2(sh as nat) as int, m as int);
                lemma_mul_is_commutative(m as int, pow2(11) as int);
                lemma_mul_is_commutative(m as int, pow2(sh as nat) as int);
                lemma_pow2_adds(52, 11);
                assert(significand(b) == m && scale(b) == sh);
                assert(m as int * pow2(sh as nat) >= pow2(63));
            }
            if neg {
                return Some(i64::MIN);
            } else {
                return Some(i64::MAX);
            }
        }
        let p = pow2_u64(sh);
        proof {
            if sh < 10 {
                lemma_pow2_strictly_increases(sh as nat, 10);
            }
            lemma_mul_strict_inequality(m as int, pow2(53) as int, p as int);
            lemma_pow2_pos(sh as nat);
            lemma_mul_inequality(p as int, pow2(10) as int, pow2(53) as int);
            lemma_mul_is_commutative(pow2(53) as int, p as int);
            lemma_pow2_adds(53, 10);
        }
        let v: u64 = m * p;
        if neg {
            return Some(-(v as i64));
        } else {
            return Some(v as i64);
        }
    }
    let sh = 1075 - e;
    let p = pow2_u64(sh);
    proof {
        lemma_pow2_pos(sh as nat);
    }
    if m % p != 0 {
        return None;
    }
    let v: u64 = m / p;
    proof {
        lemma_div_is_ordered(m as int, pow2(53) as int, p as int);
        assert(pow2(53) as int / p as int <= pow2(53)) by {
            lemma_div_is_ordered(pow2(53) as int, pow2(53) as int, 1);
            vstd::arithmetic::div_mod::lemma_div_is_ordered_by_denominator(pow2(53) as int, 1, p as int);
        }
    }
    if neg {
        Some(-(v as i64))
    } else {
        Some(v as i64)
    }
}

/// `floor(log2 n)` for `n >= 1` (and 0 below).
pub open spec fn ilog2(n: nat) -> nat
    decreases n,
{
    if n < 2 {
        0
    } else {
        1 + ilog2(n / 2)
    }
}

proof fn lemma_ilog2(n: nat)
    requires
        n >= 1,
    ensures
        pow2(ilog2(n)) <= n < pow2(ilog2(n) + 1),
    decreases n,
{
    if n < 2 {
        lemma2_to64();
    } else {
        lemma_ilog2(n / 2);
        let j = ilog2(n / 2);
        lemma_pow2_unfold(j + 1);
        lemma_pow2_unfold(j + 2);
    }
}

/// `n` with its low `s` bits dropped, rounded to nearest, ties to even.
pub open spec fn rounded_quotient(n: nat, s: nat) -> nat {
    let q = n / pow2(s);
    let r = n % pow2(s);
    let h = pow2(s) / 2;
    if r > h || (r == h && q % 2 == 1) {
        q + 1
    } else {
        q
    }
}

/// Biased exponent of the double nearest to `n >= 1`.
pub open spec fn nearest_exponent(n: nat) -> nat {
    let k = ilog2(n);
    if k <= 52 {
        k + 1023
    } else if rounded_quotient(n, (k - 52) as nat) == pow2(53) {
        k + 1024
    } else {
        k + 1023
    }
}

/// Significand (53 bits, hidden bit included) of the double nearest to `n >= 1`.
pub open spec fn nearest_significand(n: nat) -> nat {
    let k = ilog2(n);
    if k <= 52 {
        n * pow2((52 - k) as nat)
    } else if rounded_quotient(n, (k - 52) as nat) == pow2(53) {
        pow2(52)
    } else {
        rounded_quotient(n, (k - 52) as nat)
    }
}

/// Bits of `i as f64`: the double nearest to `i`, ties to an even
/// significand (0 gives +0.0).
pub open spec fn spec_int_to_double(i: i64) -> u64 {
    if i == 0 {
        0
    } else {
        let a: int = i as int;
        let n: nat = (if a < 0 { -a } else { a }) as nat;
        let sign: nat = if a < 0 { 0x8000_0000_0000_0000 } else { 0 };
        (sign + nearest_exponent(n) * 0x10_0000_0000_0000 + (nearest_significand(n) - hidden_bit())) as u64
    }
}

/// `i as f64`, as bits.
pub fn int_to_double(i: i64) -> (b: u64)
    ensures
        b == spec_int_to_double(i),
{
    if i == 0 {
        return 0;
    }
    let neg = i < 0;
    let n: u64 = if neg {
        ((-(i + 1)) as u64) + 1
    } else {
        i as u64
    };
    proof {
        lemma_ilog2(n as nat);
        lemma2_to64();
        lemma2_to64_rest();
        if ilog2(n as nat) > 64 {
            lemma_pow2_strictly_increases(64, ilog2(n as nat));
        }
    }
    let mut k: u64 = 0;
    let mut t: u64 = n;
    while t >= 2
        invariant
            t >= 1,
            k + ilog2(t as nat) == ilog2(n as nat),
            ilog2(n as nat) <= 63,
        decreases t,
    {
        t = t / 2;
        k = k + 1;
    }
    let e: u64;
    let m: u64;
    if k <= 52 {
        let p = pow2_u64(52 - k);
        proof {
            lemma_pow2_adds(k as nat, (52 - k) as nat);
            lemma_pow2_adds((k + 1) as nat, (52 - k) as nat);
            lemma_pow2_pos((52 - k) as nat);
            lemma_mul_inequality(pow2(k as nat) as int, n as int, p as int);
            lemma_mul_strict_inequality(n as int, pow2((k + 1) as nat) as int, p as int);
        }
        m = n * p;
        e = k + 1023;
    } else {
        let s = k - 52;
        let p = pow2_u64(s);
        let q = n / p;
        let r = n % p;
        let h = p / 2;
        proof {
            lemma_pow2_pos(s as nat);
            lemma_pow2_adds(52, s as nat);
            lemma_pow2_adds(53, s as nat);
            lemma_fundamental_div_mod_converse(pow2(k as nat) as int, p as int, pow2(52) as int, 0);
            lemma_div_is_ordered(pow2(k as nat) as int, n as int, p as int);
            lemma_fundamental_div_mod(n as int, p as int);
            if q >= pow2(53) {
                lemma_mul_inequality(pow2(53) as int, q as int, p as int);
                lemma_mul_is_commutative(q as int, p as int);
            }
        }
        let q2 = if r > h || (r == h && q % 2 == 1) {
            q + 1
        } else {
            q
        };
        if q2 == 0x20_0000_0000_0000 {
            e = k + 1024;
            m = 0x10_0000_0000_0000;
        } else {
            e = k + 1023;
            m = q2;
        }
    }
    let sign: u64 = if neg {
        0x8000_0000_0000_0000
    } else {
        0
    };
    sign + e * 0x10_0000_0000_0000 + (m - 0x10_0000_0000_0000)
}

/// Every integer of magnitude at most 2^53 is a double exactly: turning it
/// into a double and back into an integer gives it back.
pub proof fn law_whole_numbers_round_trip(i: i64)
    requires
        -0x20_0000_0000_0000 <= i <= 0x20_0000_0000_0000,
    ensures
        spec_whole_to_i64(spec_int_to_double(i)) == Some(i),
{
    lemma2_to64();
    lemma2_to64_rest();
    let b = spec_int_to_double(i);
    if i == 0 {
        lemma_pow2_pos(1074);
        lemma_small_mod(0, pow2(1074));
        lemma_basic_div(0, pow2(1074) as int);
        assert(exponent_field(b) == 0 && fraction_field(b) == 0);
        return;
    }
    let a: int = i as int;
    let n: nat = (if a < 0 { -a } else { a }) as nat;
    lemma_ilog2(n);
    let k = ilog2(n);
    if k > 53 {
        lemma_pow2_strictly_increases(53, k);
    }
    let e = nearest_exponent(n);
    let m = nearest_significand(n);
    if k <= 52 {
        let p = pow2((52 - k) as nat);
        lemma_pow2_adds(k, (52 - k) as nat);
        lemma_pow2_adds(k + 1, (52 - k) as nat);
        lemma_pow2_pos((52 - k) as nat);
        lemma_mul_inequality(pow2(k) as int, n as int, p as int);
        lemma_mul_strict_inequality(n as int, pow2(k + 1) as int, p as int);
        assert(e == k + 1023 && m == n * p);
    } else {
        assert(k == 53);
        lemma_pow2_unfold(53);
        assert(n == pow2(53));
        lemma_pow2_unfold(1);
        lemma_fundamental_div_mod_converse(n as int, 2, pow2(52) as int, 0);
        assert(rounded_quotient(n, 1) == pow2(52));
        assert(e == 1076 && m == pow2(52));
    }
    let f: int = m - hidden_bit();
    let sq: int = if a < 0 { 1 } else { 0 };
    assert(0 <= f < 0x10_0000_0000_0000);
    assert(b as int == sq * 0x8000_0000_0000_0000 + e * 0x10_0000_0000_0000 + f);
    lemma_fundamental_div_mod_converse(b as int, 0x8000_0000_0000_0000, sq, e * 0x10_0000_0000_0000 + f);
    lemma_fundamental_div_mod_converse(e * 0x10_0000_0000_0000 + f, 0x10_0000_0000_0000, e as int, f);
    lemma_fundamental_div_mod_converse(b as int, 0x10_0000_0000_0000, sq * 0x800 + e, f);
    assert(exponent_field(b) == e);
    assert(fraction_field(b) == f);
    assert(significand(b) == m);
    assert(sign_bit(b) == (a < 0));
    if k < 52 {
        let p = pow2((52 - k) as nat);
        lemma_fundamental_div_mod_converse(m as int, p as int, n as int, 0);
        assert(-scale(b) == 52 - k);
        assert(((-scale(b)) as nat) == (52 - k) as nat);
        assert(pow2((-scale(b)) as nat) == p);
        assert(m == n * p);
        assert(significand(b) % p == 0);
        assert(significand(b) / p == n);
        assert(whole_magnitude(b) == Some(n));
    } else if k == 52 {
        assert(scale(b) == 0);
        assert(pow2(0) == 1);
        assert(m == n * pow2(0));
        assert(m == n);
        assert(m * pow2(0) == m);
        assert(whole_magnitude(b) == Some(n));
    } else {
        assert(scale(b) == 1);
        assert(m * pow2(1) == n);
        assert(whole_magnitude(b) == Some(n));
    }
}

} // verus!
