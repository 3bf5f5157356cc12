//! Fixed-point rendering of single-precision values held as bit patterns,
//! matching `format!("{:.1}", v)` / `format!("{:.2}", v)`: the exact binary
//! value rounded half-to-even at the last printed digit.

use vstd::prelude::*;
use vstd::arithmetic::power2::{
    lemma2_to64, lemma_pow2_adds, lemma_pow2_pos, lemma_pow2_strictly_increases,
    lemma_pow2_unfold, pow2,
};
use vstd::arithmetic::div_mod::{lemma_div_multiples_vanish, lemma_mod_multiples_basic};
use vstd::arithmetic::mul::{lemma_mul_inequality, lemma_mul_strict_inequality};

use crate::text::{decimal, digit_char, push_char, push_decimal};

verus! {

/// Sign bit of a single-precision bit pattern.
pub open spec fn f32_negative(bits: u32) -> bool {
    bits >= 0x8000_0000u32
}

/// Biased exponent field (8 bits).
pub open spec fn f32_exp_field(bits: u32) -> int {
    (bits as int / 0x80_0000) % 256
}

/// Fraction field (23 bits).
pub open spec fn f32_frac_field(bits: u32) -> int {
    bits as int % 0x80_0000
}

/// Integer significand of a finite value.
pub open spec fn f32_mantissa(bits: u32) -> nat {
    if f32_exp_field(bits) == 0 {
        f32_frac_field(bits) as nat
    } else {
        (f32_frac_field(bits) + 0x80_0000) as nat
    }
}

/// Power of two scaling the significand: `|value| == mantissa * 2^exponent`.
pub open spec fn f32_exponent(bits: u32) -> int {
    (if f32_exp_field(bits) == 0 {
        1
    } else {
        f32_exp_field(bits)
    }) - 150
}

/// `a / b` rounded to the nearest integer, ties to even.
pub open spec fn round_half_even(a: nat, b: nat) -> nat {
    let q = a / b;
    let r = a % b;
    if 2 * r > b || (2 * r == b && q % 2 == 1) {
        q + 1
    } else {
        q
    }
}

/// `10^d` for the supported precisions.
pub open spec fn scale_of(d: nat) -> nat {
    if d == 1 {
        10
    } else {
        100
    }
}

/// `|value| * 10^d`, rounded half-to-even.
pub open spec fn scaled_magnitude(bits: u32, d: nat) -> nat {
    let m = f32_mantissa(bits);
    let e = f32_exponent(bits);
    if e >= 0 {
        m * pow2(e as nat) * scale_of(d)
    } else {
        round_half_even(m * scale_of(d), pow2((-e) as nat))
    }
}

/// The `d` fraction digits of `x` (`x < 10^d`), zero padded.
pub open spec fn fraction_digits(x: nat, d: nat) -> Seq<char> {
    if d == 1 {
        seq![digit_char(x)]
    } else {
        seq![digit_char(x / 10), digit_char(x % 10)]
    }
}

/// The text `format!("{:.d}", f32::from_bits(bits))` produces.
pub open spec fn fixed_text(bits: u32, d: nat) -> Seq<char> {
    if f32_exp_field(bits) == 255 {
        if f32_frac_field(bits) != 0 {
            seq!['N', 'a', 'N']
        } else if f32_negative(bits) {
            seq!['-', 'i', 'n', 'f']
        } else {
            seq!['i', 'n', 'f']
        }
    } else {
        let n = scaled_magnitude(bits, d);
        let sign = if f32_negative(bits) {
            seq!['-']
        } else {
            Seq::<char>::empty()
        };
        sign + decimal(n / scale_of(d)) + seq!['.'] + fraction_digits(n % scale_of(d), d)
    }
}

/// `2^k` as a machine integer.
fn pow2_u64(k: u64) -> (p: u64)
    requires
        k < 64,
    ensures
        p == pow2(k as nat),
{
    let mut p: u64 = 1;
    let mut i: u64 = 0;
    proof {
        lemma2_to64();
    }
    while i < k
        invariant
            i <= k,
            k < 64,
            p == pow2(i as nat),
        decreases k - i,
    {
        proof {
            lemma_pow2_unfold((i + 1) as nat);
            lemma_pow2_strictly_increases((i + 1) as nat, 64);
            lemma2_to64();
        }
        p = p * 2;
        i = i + 1;
    }
    p
}

fn push_fraction_digits(s: &mut String, x: u64, d: usize)
    requires
        d == 1 || d == 2,
        x < scale_of(d as nat),
    ensures
        final(s)@ == old(s)@ + fraction_digits(x as nat, d as nat),
{
    if d == 1 {
        push_decimal(s, x as u128);
        proof {
            assert(decimal(x as nat) =~= seq![digit_char(x as nat)]);
        }
    } else {
        push_decimal(s, (x / 10) as u128);
        push_decimal(s, (x % 10) as u128);
        proof {
            assert(decimal((x / 10) as nat) =~= seq![digit_char((x / 10) as nat)]);
            assert(decimal((x % 10) as nat) =~= seq![digit_char((x % 10) as nat)]);
        }
    }
    proof {
        assert(old(s)@ + fraction_digits(x as nat, d as nat) =~= final(s)@);
    }
}

/// Append the fixed-point rendering of a single-precision bit pattern with
/// `d` fraction digits (`d` is 1 or 2).
pub fn push_fixed(s: &mut String, bits: u32, d: usize)
    requires
        d == 1 || d == 2,
    ensures
        final(s)@ == old(s)@ + fixed_text(bits, d as nat),
{
    let scale: u64 = if d == 1 {
        10
    } else {
        100
    };
    let expf = (bits / 0x80_0000) % 256;
    let frac = bits % 0x80_0000;
    let neg = bits >= 0x8000_0000;
    if expf == 255 {
        if frac != 0 {
            push_char(s, 'N');
            push_char(s, 'a');
            push_char(s, 'N');
        } else {
            if neg {
                push_char(s, '-');
            }
            push_char(s, 'i');
            push_char(s, 'n');
            push_char(s, 'f');
        }
        proof {
            assert(final(s)@ =~= old(s)@ + fixed_text(bits, d as nat));
        }
        return;
    }
    let ghost start = s@;
    if neg {
        push_char(s, '-');
    }
    let ghost signed = s@;
    let m: u64 = if expf == 0 {
        frac as u64
    } else {
        (frac + 0x80_0000) as u64
    };
    assert(m == f32_mantissa(bits));
    assert(m < 0x100_0000);
    let ghost n = scaled_magnitude(bits, d as nat);
    if expf >= 150 {
        // An integer value: print it exactly, then zero fraction digits.
        let e: u64 = (expf - 150) as u64;
        let mut big: u128 = m as u128;
        let mut i: u64 = 0;
        proof {
            lemma2_to64();
            lemma_pow2_adds(64, 64);
        }
        while i < e
            invariant
                i <= e,
                e <= 104,
                m < 0x100_0000,
                big == m * pow2(i as nat),
                pow2(128) == 0x1_0000_0000_0000_0000_0000_0000_0000_0000,
            decreases e - i,
        {
            proof {
                lemma_pow2_unfold((i + 1) as nat);
                lemma_pow2_pos((i + 1) as nat);
                lemma_pow2_adds(24, (i + 1) as nat);
                lemma2_to64();
                if i + 1 < 104 {
                    lemma_pow2_strictly_increases((24 + i + 1) as nat, 128);
                }
                lemma_mul_strict_inequality(m as int, 0x100_0000, pow2((i + 1) as nat) as int);
                let pi = pow2(i as nat);
                let pi1 = pow2((i + 1) as nat);
                assert(m * pi1 == 2 * big) by (nonlinear_arith)
                    requires
                        pi1 == 2 * pi,
                        big == m * pi,
                ;
                assert(0x100_0000 * pow2((i + 1) as nat) == pow2((24 + i + 1) as nat));
                assert(pow2((24 + i + 1) as nat) <= pow2(128));
            }
            big = big * 2;
            i = i + 1;
        }
        push_decimal(s, big);
        push_char(s, '.');
        push_fraction_digits(s, 0, d);
        proof {
            let x = big as int;
            assert(n == big * scale_of(d as nat));
            vstd::arithmetic::mul::lemma_mul_is_commutative(x, scale_of(d as nat) as int);
            lemma_div_multiples_vanish(x, scale_of(d as nat) as int);
            lemma_mod_multiples_basic(x, scale_of(d as nat) as int);
            assert(n / scale_of(d as nat) == big);
            assert(n % scale_of(d as nat) == 0);
            assert(final(s)@ =~= old(s)@ + fixed_text(bits, d as nat));
        }
        return;
    }
    let k: u64 = (150 - (if expf == 0 {
        1
    } else {
        expf
    })) as u64;
    let p: u64 = m * scale;
    assert(p < 0x8000_0000) by {
        lemma_mul_inequality(m as int, 0xFF_FFFF, scale as int);
    }
    let mut rounded: u64 = 0;
    if k >= 64 {
        proof {
            lemma2_to64();
            if k > 64 {
                lemma_pow2_strictly_increases(64, k as nat);
            }
            assert(p < pow2(k as nat));
            assert(p as nat / pow2(k as nat) == 0) by {
                vstd::arithmetic::div_mod::lemma_basic_div(p as int, pow2(k as nat) as int);
            }
            assert(p as nat % pow2(k as nat) == p) by {
                vstd::arithmetic::div_mod::lemma_small_mod(p as nat, pow2(k as nat));
            }
            assert(round_half_even(p as nat, pow2(k as nat)) == 0);
        }
    } else {
        let p2 = pow2_u64(k);
        proof {
            lemma2_to64();
            vstd::arithmetic::power2::lemma2_to64_rest();
            if k < 63 {
                lemma_pow2_strictly_increases(k as nat, 63);
            }
            lemma_pow2_pos(k as nat);
        }
        assert(p2 <= 0x8000_0000_0000_0000u64);
        let q = p / p2;
        let r = p % p2;
        assert(r < p2);
        if 2 * r > p2 || (2 * r == p2 && q % 2 == 1) {
            rounded = q + 1;
        } else {
            rounded = q;
        }
    }
    assert(rounded == n);
    assert(rounded < 0x8000_0001) by {
        if k < 64 {
            lemma_pow2_pos(k as nat);
            vstd::arithmetic::div_mod::lemma_div_is_ordered_by_denominator(p as int, 1, pow2(k as nat) as int);
        }
    }
    push_decimal(s, (rounded / scale) as u128);
    push_char(s, '.');
    push_fraction_digits(s, rounded % scale, d);
    proof {
        assert(final(s)@ =~= old(s)@ + fixed_text(bits, d as nat));
    }
}

} // verus!
