//! Integers in IEEE 754 doubles, read from the 64 bits of the double.

use vstd::prelude::*;

verus! {

/// The exponent field.
pub open spec fn exponent(bits: u64) -> int {
    (bits as int / 0x10_0000_0000_0000) % 2048
}

/// The significand: the fraction field, with the leading one that normal numbers leave out.
pub open spec fn significand(bits: u64) -> int {
    let fraction = bits as int % 0x10_0000_0000_0000;
    if exponent(bits) == 0 {
        fraction
    } else {
        0x10_0000_0000_0000 + fraction
    }
}

/// The power of two by which the significand is scaled.
pub open spec fn scale(bits: u64) -> int {
    if exponent(bits) == 0 {
        -1074
    } else {
        exponent(bits) - 1075
    }
}

/// The magnitude of a finite double, where it is an integer.
pub open spec fn magnitude(bits: u64) -> Option<int> {
    if scale(bits) >= 0 {
        Some(significand(bits) * vstd::arithmetic::power2::pow2(scale(bits) as nat))
    } else if significand(bits) % (vstd::arithmetic::power2::pow2((-scale(bits)) as nat) as int)
        == 0 {
        Some(significand(bits) / (vstd::arithmetic::power2::pow2((-scale(bits)) as nat) as int))
    } else {
        None
    }
}

/// The value of a double, where it is an integer; neither an infinity nor a NaN is one.
pub open spec fn integer_value(bits: u64) -> Option<int> {
    if exponent(bits) == 2047 {
        None
    } else {
        match magnitude(bits) {
            Some(m) => Some(
                if bits >= 0x8000_0000_0000_0000 {
                    -m
                } else {
                    m
                },
            ),
            None => None,
        }
    }
}

/// The largest `usize` as a double: rounded up by one where it has 64 bits.
pub open spec fn usize_limit() -> int {
    if usize::MAX == u64::MAX {
        0x1_0000_0000_0000_0000
    } else {
        usize::MAX as int
    }
}

/// A double as a positive `usize`: an integer from one up to the largest `usize`, the double next
/// to that largest being taken for it.
pub open spec fn positive_usize(bits: u64) -> Option<usize> {
    match integer_value(bits) {
        Some(v) => if 1 <= v <= usize_limit() {
            Some(if v > usize::MAX { usize::MAX } else { v as usize })
        } else {
            None
        },
        None => None,
    }
}

/// Two to the power of `n`.
fn power_of_two(n: u64) -> (r: u128)
    requires
        n <= 64,
    ensures
        r == vstd::arithmetic::power2::pow2(n as nat),
        0 < r <= 0x1_0000_0000_0000_0000,
{
    proof {
        vstd::arithmetic::power2::lemma2_to64();
    }
    let mut p: u128 = 1;
    let mut i: u64 = 0;
    while i < n
        invariant
            i <= n <= 64,
            p == vstd::arithmetic::power2::pow2(i as nat),
            vstd::arithmetic::power2::pow2(64) == 0x1_0000_0000_0000_0000,
        decreases n - i,
    {
        proof {
            vstd::arithmetic::power2::lemma_pow2_unfold((i + 1) as nat);
            vstd::arithmetic::power2::lemma_pow2_strictly_increases(i as nat, 64);
        }
        p = p * 2;
        i += 1;
    }
    proof {
        vstd::arithmetic::power2::lemma_pow2_pos(n as nat);
        if n < 64 {
            vstd::arithmetic::power2::lemma_pow2_strictly_increases(n as nat, 64);
        }
    }
    p
}

/// A finite double below one is zero or no integer.
proof fn lemma_below_one(bits: u64)
    requires
        exponent(bits) < 1023,
    ensures
        magnitude(bits) matches Some(m) ==> m == 0,
{
    let k = (-scale(bits)) as nat;
    let p = vstd::arithmetic::power2::pow2(k) as int;
    vstd::arithmetic::power2::lemma2_to64_rest();
    assert(vstd::arithmetic::power2::pow2(53) == 0x20_0000_0000_0000);
    if k > 53 {
        vstd::arithmetic::power2::lemma_pow2_strictly_increases(53, k);
    }
    let s = significand(bits);
    assert(0 <= s < p);
    vstd::arithmetic::div_mod::lemma_small_mod(s as nat, p as nat);
    vstd::arithmetic::div_mod::lemma_basic_div(s, p);
}

/// A double that is scaled by more than two to the power of twelve exceeds 64 bits.
proof fn lemma_too_large(bits: u64)
    requires
        exponent(bits) > 1087,
    ensures
        magnitude(bits) matches Some(m) && m > 0x1_0000_0000_0000_0000,
{
    let k = scale(bits) as nat;
    vstd::arithmetic::power2::lemma2_to64();
    if k > 13 {
        vstd::arithmetic::power2::lemma_pow2_strictly_increases(13, k);
    }
    let (s, p) = (significand(bits), vstd::arithmetic::power2::pow2(k) as int);
    assert(s * p > 0x1_0000_0000_0000_0000) by (nonlinear_arith)
        requires
            s >= 0x10_0000_0000_0000,
            p >= 0x2000,
    ;
}

/// Reads the bits of a double as a positive `usize`.
pub fn read_positive_usize(bits: u64) -> (r: Option<usize>)
    ensures
        r == positive_usize(bits),
{
    let e: u64 = (bits / 0x10_0000_0000_0000) % 2048;
    let fraction: u64 = bits % 0x10_0000_0000_0000;
    assert(e == exponent(bits));
    if e == 2047 {
        return None;
    }
    if e < 1023 {
        proof {
            lemma_below_one(bits);
        }
        return None;
    }
    let s: u128 = 0x10_0000_0000_0000u128 + fraction as u128;
    assert(s == significand(bits));
    if e > 1087 {
        proof {
            lemma_too_large(bits);
        }
        return None;
    }
    let value: u128 = if e >= 1075 {
        let p: u128 = power_of_two(e - 1075);
        proof {
            vstd::arithmetic::power2::lemma2_to64();
            if e < 1087 {
                vstd::arithmetic::power2::lemma_pow2_strictly_increases(scale(bits) as nat, 12);
            }
            assert(s * p <= 0x20_0000_0000_0000 * 0x1000) by (nonlinear_arith)
                requires
                    0 <= s <= 0x20_0000_0000_0000,
                    0 < p <= 0x1000,
            ;
            assert(s * p >= 0) by (nonlinear_arith)
                requires
                    s >= 0,
                    p > 0,
            ;
        }
        s * p
    } else {
        let p: u128 = power_of_two(1075 - e);
        if s % p != 0 {
            return None;
        }
        s / p
    };
    assert(magnitude(bits) == Some(value as int));
    if bits >= 0x8000_0000_0000_0000 || value < 1 {
        return None;
    }
    if value <= usize::MAX as u128 {
        return Some(value as usize);
    }
    if usize::MAX as u128 == u64::MAX as u128 && value == 0x1_0000_0000_0000_0000u128 {
        return Some(usize::MAX);
    }
    None
}

/// A double is read as the number that it is: from one on, and below the largest `usize`, the bits
/// write `n` exactly where the sign bit is zero and `n` is the fraction with a leading one, as a
/// number of 52 binary places, times the power of two that the exponent field, less 1023, names.
pub proof fn law_doubles_are_read_exactly(bits: u64, n: int)
    requires
        1 <= n < usize::MAX,
    ensures
        positive_usize(bits) == Some(n as usize) <==> {
            let e = bits as int / 0x10_0000_0000_0000;
            &&& 1023 <= e < 2047
            &&& n * 0x10_0000_0000_0000 == (0x10_0000_0000_0000 + bits as int % 0x10_0000_0000_0000)
                * vstd::arithmetic::power2::pow2((e - 1023) as nat)
        },
{
    let e = bits as int / 0x10_0000_0000_0000;
    let s = significand(bits);
    vstd::arithmetic::power2::lemma2_to64();
    vstd::arithmetic::power2::lemma2_to64_rest();
    if exponent(bits) < 1023 {
        lemma_below_one(bits);
    } else if exponent(bits) < 2047 {
        let k = scale(bits);
        let m = magnitude(bits);
        if k >= 0 {
            let p = vstd::arithmetic::power2::pow2(k as nat) as int;
            vstd::arithmetic::power2::lemma_pow2_adds(k as nat, 52);
            vstd::arithmetic::power2::lemma_pow2_pos(k as nat);
            let q = vstd::arithmetic::power2::pow2((k + 52) as nat) as int;
            assert(m == Some(s * p));
            assert(s * q == (s * p) * 0x10_0000_0000_0000) by (nonlinear_arith)
                requires
                    q == p * 0x10_0000_0000_0000,
            ;
            assert(s * p >= 0) by (nonlinear_arith)
                requires
                    s >= 0,
                    p >= 0,
            ;
            assert(k + 52 == exponent(bits) - 1023);
        } else {
            let p = vstd::arithmetic::power2::pow2((-k) as nat) as int;
            let q = vstd::arithmetic::power2::pow2((k + 52) as nat) as int;
            vstd::arithmetic::power2::lemma_pow2_adds((-k) as nat, (k + 52) as nat);
            vstd::arithmetic::power2::lemma_pow2_pos((-k) as nat);
            vstd::arithmetic::power2::lemma_pow2_pos((k + 52) as nat);
            assert(p * q == 0x10_0000_0000_0000);
            assert(k + 52 == exponent(bits) - 1023);
            assert(n * 0x10_0000_0000_0000 == s * q <==> n * p == s) by (nonlinear_arith)
                requires
                    p * q == 0x10_0000_0000_0000,
                    q > 0,
            ;
            if n * p == s {
                vstd::arithmetic::div_mod::lemma_fundamental_div_mod_converse(s, p, n, 0);
            }
            vstd::arithmetic::div_mod::lemma_fundamental_div_mod(s, p);
            assert(p * (s / p) == (s / p) * p) by (nonlinear_arith);
            vstd::arithmetic::div_mod::lemma_div_pos_is_pos(s, p);
        }
    }
}

} // verus!
