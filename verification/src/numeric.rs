//! The numeric conversion model of the call protocol.
//!
//! The host runtime carries every number in a double-precision slot.  This
//! module models that path over 64-bit integers: [`spec_round`] is rounding
//! to a floating-point significand of `mbits` bits (round to nearest, ties
//! to even), [`spec_cast_integer`] is the saturating narrowing cast applied
//! when a slot value is extracted into a declared integer width.
//!
//! The precision boundary is stated, not hidden: [`lemma_round_exact`]
//! proves the conversion exact for magnitudes up to `2^mbits` (so up to
//! `2^53` on the double-precision path); beyond that, values round to the
//! nearest representable multiple of a power of two and may lose precision.
//! Model boundary: slot numbers are carried as `i64`, so results saturate
//! at the 64-bit signed range.

use vstd::prelude::*;
use vstd::arithmetic::div_mod::{
    lemma_fundamental_div_mod, lemma_mod_multiples_basic,
};
use vstd::arithmetic::power2::{
    lemma2_to64, lemma2_to64_rest, lemma_pow2_adds, lemma_pow2_pos, lemma_pow2_strictly_increases,
    pow2,
};

verus! {

/// The rounding granularity for a magnitude `a` and a significand capacity
/// `cap`: the smallest power of two `g` with `a < cap * g`.
pub open spec fn gran(a: int, cap: int) -> int
    decreases a,
{
    if cap <= 0 || a < cap {
        1
    } else if a < 1 {
        1
    } else {
        2 * gran(a / 2, cap)
    }
}

/// Round a non-negative `a` to the nearest multiple of `g`, ties to the
/// even multiple.
pub open spec fn round_even_to(a: int, g: int) -> int {
    let rem = a % g;
    if 2 * rem < g {
        a - rem
    } else if 2 * rem > g {
        a - rem + g
    } else if (a / g) % 2 == 0 {
        a - rem
    } else {
        a - rem + g
    }
}

/// Round a non-negative magnitude to an `mbits`-bit significand.
pub open spec fn round_abs(a: int, mbits: nat) -> int {
    round_even_to(a, gran(a, pow2(mbits) as int))
}

/// Saturate a mathematical integer into the 64-bit signed range.
pub open spec fn clamp_i64(v: int) -> int {
    if v < i64::MIN {
        i64::MIN as int
    } else if v > i64::MAX {
        i64::MAX as int
    } else {
        v
    }
}

/// Round `v` to an `mbits`-bit floating-point significand, saturating into
/// the 64-bit signed range.
pub open spec fn spec_round(v: int, mbits: nat) -> int {
    if v >= 0 {
        clamp_i64(round_abs(v, mbits))
    } else {
        clamp_i64(-round_abs(-v, mbits))
    }
}

/// Rounding through a double-precision slot (53-bit significand).
pub open spec fn spec_round_f64(v: int) -> int {
    spec_round(v, 53)
}

/// Clamp `v` into `lo..=hi`.
pub open spec fn clamp(v: int, lo: int, hi: int) -> int {
    if v < lo {
        lo
    } else if v > hi {
        hi
    } else {
        v
    }
}

/// Smallest value of an integer category.
pub open spec fn cat_lo(bits: nat, signed: bool) -> int {
    if signed {
        -(pow2((bits - 1) as nat) as int)
    } else {
        0
    }
}

/// Largest value of an integer category.
pub open spec fn cat_hi(bits: nat, signed: bool) -> int {
    if signed {
        pow2((bits - 1) as nat) - 1
    } else {
        pow2(bits) - 1
    }
}

/// The saturating cast of a slot number into a declared integer width and
/// signedness, then into the model's 64-bit signed carrier.
pub open spec fn spec_cast_integer(v: int, bits: nat, signed: bool) -> int {
    clamp_i64(clamp(v, cat_lo(bits, signed), cat_hi(bits, signed)))
}

/// `gran` is a positive power of two, large enough that `a < cap * g`, and
/// no larger than needed: either `g == 1` or `cap * g <= 2 * a`.
pub proof fn lemma_gran(a: int, cap: int)
    requires
        1 <= cap,
        0 <= a,
    ensures
        1 <= gran(a, cap),
        a < cap * gran(a, cap),
        gran(a, cap) == 1 || cap * gran(a, cap) <= 2 * a,
        exists|s: nat| gran(a, cap) == pow2(s),
    decreases a,
{
    if a < cap {
        assert(gran(a, cap) == 1);
        assert(pow2(0) == 1) by {
            lemma2_to64();
        }
        assert(gran(a, cap) == pow2(0));
        assert(a < cap * 1 == cap);
    } else {
        assert(a >= 1);
        let h = a / 2;
        assert(0 <= h < a) by (nonlinear_arith)
            requires
                a >= 1,
                h == a / 2,
        {
        }
        lemma_gran(h, cap);
        let g2 = gran(h, cap);
        let g = gran(a, cap);
        assert(g == 2 * g2);
        let s2 = choose|s: nat| g2 == pow2(s);
        assert(g == pow2(s2 + 1)) by {
            lemma_pow2_adds(s2, 1);
            lemma2_to64();
        }
        assert(a <= 2 * h + 1) by (nonlinear_arith)
            requires
                h == a / 2,
                a >= 0,
        {
        }
        assert(a < cap * g) by (nonlinear_arith)
            requires
                h < cap * g2,
                a <= 2 * h + 1,
                g == 2 * g2,
                cap >= 1,
                g2 >= 1,
        {
        }
        if g2 == 1 {
            assert(cap * g == 2 * cap <= 2 * a) by (nonlinear_arith)
                requires
                    g == 2 * g2,
                    g2 == 1,
                    cap <= a,
            {
            }
        } else {
            assert(2 * h <= a) by (nonlinear_arith)
                requires
                    h == a / 2,
                    a >= 0,
            {
            }
            assert(cap * g <= 2 * a) by (nonlinear_arith)
                requires
                    cap * g2 <= 2 * h,
                    2 * h <= a,
                    g == 2 * g2,
            {
            }
        }
    }
}

/// Rounding to `mbits` significand bits is exact for magnitudes up to
/// `2^mbits`: the precision boundary of the numeric path.
pub proof fn lemma_round_exact(v: int, mbits: nat)
    requires
        1 <= mbits <= 53,
        -(pow2(mbits) as int) <= v <= pow2(mbits) as int,
    ensures
        spec_round(v, mbits) == v,
{
    let cap = pow2(mbits) as int;
    lemma_pow2_pos(mbits);
    assert forall|a: int| 0 <= a <= cap implies round_abs(a, mbits) == a by {
        if a < cap {
            assert(gran(a, cap) == 1);
            assert(a % 1 == 0 && a / 1 == a) by (nonlinear_arith);
            assert(round_even_to(a, 1) == a);
        } else {
            assert(a == cap);
            let h = a / 2;
            assert(cap == 2 * pow2((mbits - 1) as nat)) by {
                lemma_pow2_adds((mbits - 1) as nat, 1);
                lemma2_to64();
            }
            assert(h == pow2((mbits - 1) as nat)) by (nonlinear_arith)
                requires
                    a == cap,
                    cap == 2 * pow2((mbits - 1) as nat),
                    h == a / 2,
            {
            }
            assert(h < cap) by {
                lemma_pow2_strictly_increases((mbits - 1) as nat, mbits);
            }
            assert(a >= 1);
            assert(gran(h, cap) == 1);
            assert(gran(a, cap) == 2);
            assert(a % 2 == 0 && a / 2 * 2 == a) by (nonlinear_arith)
                requires
                    a == 2 * pow2((mbits - 1) as nat),
                    h == a / 2,
                    h == pow2((mbits - 1) as nat),
            {
            }
            assert(round_even_to(a, 2) == a);
        }
    }
    assert(pow2(mbits) <= pow2(53)) by {
        if mbits < 53 {
            lemma_pow2_strictly_increases(mbits, 53);
        }
    }
    assert(pow2(53) < pow2(63)) by {
        lemma_pow2_strictly_increases(53, 63);
    }
    assert(pow2(63) == 0x8000000000000000) by {
        lemma2_to64_rest();
    }
    if v >= 0 {
        assert(round_abs(v, mbits) == v);
    } else {
        assert(round_abs(-v, mbits) == -v);
    }
}

/// The saturating cast is the identity on the 64-bit signed category.
pub proof fn lemma_cast_identity_i64(v: int)
    requires
        i64::MIN <= v <= i64::MAX,
    ensures
        spec_cast_integer(v, 64, true) == v,
{
    assert(pow2(63) == 0x8000000000000000) by {
        lemma2_to64_rest();
    }
}

/// Compute a small power of two.
fn pow2_u64(e: u32) -> (r: u64)
    requires
        e <= 63,
    ensures
        r == pow2(e as nat),
{
    let mut i: u32 = 0;
    let mut acc: u64 = 1;
    proof {
        lemma2_to64();
    }
    while i < e
        invariant
            i <= e,
            e <= 63,
            acc == pow2(i as nat),
        decreases e - i,
    {
        proof {
            lemma_pow2_strictly_increases(i as nat, 63);
            lemma2_to64_rest();
            lemma_pow2_adds(i as nat, 1);
            lemma2_to64();
        }
        acc = acc * 2;
        i += 1;
    }
    acc
}

/// Compute the rounding granularity.
fn gran_rec(a: u64, cap: u64) -> (g: u64)
    requires
        1 <= cap,
        a < pow2(63),
    ensures
        g == gran(a as int, cap as int),
        1 <= g,
    decreases a,
{
    if a < cap {
        1
    } else {
        assert(a / 2 < a) by (nonlinear_arith)
            requires
                a >= 1,
        {
        }
        let g2 = gran_rec(a / 2, cap);
        proof {
            lemma_gran(a as int / 2, cap as int);
            lemma2_to64_rest();
            assert(2 * (a as int / 2) <= a) by (nonlinear_arith)
                requires
                    a >= 0,
            {
            }
            assert(g2 < pow2(63)) by (nonlinear_arith)
                requires
                    g2 == 1 || cap * g2 <= 2 * (a as int / 2),
                    2 * (a as int / 2) <= a,
                    (a as int) < pow2(63),
                    pow2(63) == 0x8000000000000000,
                    cap >= 1,
                    g2 >= 1,
            {
            }
        }
        2 * g2
    }
}

/// Round `v` to an `mbits`-bit floating-point significand, ties to even,
/// saturating into the 64-bit signed range.
pub fn round_mantissa_i64(v: i64, mbits: u32) -> (r: i64)
    requires
        24 <= mbits <= 53,
    ensures
        r == spec_round(v as int, mbits as nat),
{
    proof {
        lemma2_to64();
        lemma2_to64_rest();
    }
    if v == i64::MIN {
        proof {
            lemma_round_min_exact(mbits as nat);
        }
        return v;
    }
    let neg: bool = v < 0;
    let av: i64 = if neg {
        -v
    } else {
        v
    };
    let a: u64 = av as u64;
    let cap: u64 = pow2_u64(mbits);
    proof {
        assert(pow2(mbits as nat) <= pow2(53)) by {
            if mbits < 53 {
                lemma_pow2_strictly_increases(mbits as nat, 53);
            }
        }
        lemma_pow2_strictly_increases(53, 63);
    }
    if a < cap {
        proof {
            lemma_round_exact(v as int, mbits as nat);
        }
        return v;
    }
    let g: u64 = gran_rec(a, cap);
    proof {
        lemma_gran(a as int, cap as int);
        // a >= cap, so the granularity is even and in particular not 1.
        assert(gran(a as int, cap as int) != 1);
        assert(cap * g <= 2 * a);
        // cap >= 2^24 bounds g below 2^40.
        assert(pow2(24) <= pow2(mbits as nat)) by {
            if 24 < mbits {
                lemma_pow2_strictly_increases(24, mbits as nat);
            }
        }
        assert(g as int * pow2(24) as int <= 2 * a) by (nonlinear_arith)
            requires
                cap * g <= 2 * (a as int),
                pow2(24) <= cap,
                g >= 1,
        {
        }
        assert(2 * (a as int) < pow2(64)) by {
            lemma_pow2_adds(63, 1);
        }
        assert(pow2(64) == pow2(24) * pow2(40)) by {
            lemma_pow2_adds(24, 40);
        }
        assert(g < pow2(40)) by (nonlinear_arith)
            requires
                g as int * pow2(24) as int <= 2 * (a as int),
                2 * (a as int) < pow2(64),
                pow2(64) == pow2(24) * pow2(40),
                pow2(24) >= 1,
                pow2(40) >= 1,
        {
        }
        // g is a power of two no larger than 2^40, hence divides 2^63.
        let s = choose|s: nat| g == pow2(s);
        assert(s <= 40) by {
            if s > 40 {
                lemma_pow2_strictly_increases(40, s);
            }
        }
        assert(pow2(63) == pow2(s) * pow2((63 - s) as nat)) by {
            lemma_pow2_adds(s, (63 - s) as nat);
        }
        lemma_mod_multiples_basic(pow2((63 - s) as nat) as int, g as int);
        assert(pow2(63) as int == pow2((63 - s) as nat) as int * (g as int)) by (nonlinear_arith)
            requires
                pow2(63) == pow2(s) * pow2((63 - s) as nat),
                g == pow2(s),
        {
        }
        assert(pow2(63) as int % (g as int) == 0);
    }
    let rem: u64 = a % g;
    proof {
        lemma_fundamental_div_mod(a as int, g as int);
        assert(rem <= a) by (nonlinear_arith)
            requires
                a == g * (a as int / g as int) + rem,
                g >= 1,
                a as int / g as int >= 0,
                rem >= 0,
        {
        }
    }
    let down: u64 = a - rem;
    proof {
        // down is a multiple of g strictly below 2^63, and 2^63 is itself a
        // multiple of g, so down + g stays within 2^63.
        let q = a as int / g as int;
        let qm = pow2(63) as int / g as int;
        lemma_fundamental_div_mod(pow2(63) as int, g as int);
        assert(pow2(63) as int == g * qm);
        assert(down == g * q) by (nonlinear_arith)
            requires
                a == g * q + rem,
                down == a - rem,
        {
        }
        assert(q < qm) by (nonlinear_arith)
            requires
                g * q <= a as int,
                (a as int) < pow2(63),
                pow2(63) as int == g * qm,
                g >= 1,
                q >= 0,
                down == g * q,
                down <= a,
        {
        }
        assert(down + g <= pow2(63)) by (nonlinear_arith)
            requires
                down == g * q,
                pow2(63) as int == g * qm,
                q < qm,
                g >= 1,
        {
        }
    }
    let r_abs: u64 = if 2 * rem < g {
        down
    } else if 2 * rem > g {
        down + g
    } else if (a / g) % 2 == 0 {
        down
    } else {
        down + g
    };
    proof {
        assert(r_abs == round_even_to(a as int, g as int));
        assert(r_abs <= pow2(63));
    }
    if neg {
        if r_abs >= 0x8000000000000000u64 {
            proof {
                assert(r_abs == pow2(63));
            }
            i64::MIN
        } else {
            -(r_abs as i64)
        }
    } else {
        if r_abs >= 0x8000000000000000u64 {
            proof {
                assert(r_abs == pow2(63));
            }
            i64::MAX
        } else {
            r_abs as i64
        }
    }
}

/// The smallest 64-bit signed value is a power of two and rounds to itself.
proof fn lemma_round_min_exact(mbits: nat)
    requires
        24 <= mbits <= 53,
    ensures
        spec_round(i64::MIN as int, mbits) == i64::MIN,
{
    lemma2_to64();
    lemma2_to64_rest();
    let a = pow2(63) as int;
    let cap = pow2(mbits) as int;
    lemma_pow2_pos(mbits);
    lemma_pow2_strictly_increases(mbits, 63);
    let g = gran(a, cap);
    lemma_gran(a, cap);
    let s = choose|s: nat| g == pow2(s);
    // cap * g is a power of two strictly between a and 2 * a inclusive,
    // hence exactly 2^64, so g == 2^(64 - mbits).
    assert(cap * g == pow2(mbits + s)) by {
        lemma_pow2_adds(mbits, s);
    }
    assert(g != 1) by {
        if g == 1 {
            assert(cap * g == cap) by (nonlinear_arith)
                requires
                    g == 1,
            {
            }
            assert(a < cap);
        }
    }
    assert(cap * g <= 2 * a);
    assert(2 * a == pow2(64)) by {
        lemma_pow2_adds(63, 1);
    }
    assert(a < pow2(mbits + s) <= pow2(64));
    assert(mbits + s > 63) by {
        if mbits + s <= 63 {
            if mbits + s < 63 {
                lemma_pow2_strictly_increases(mbits + s, 63);
            }
        }
    }
    assert(mbits + s <= 64) by {
        if mbits + s > 64 {
            lemma_pow2_strictly_increases(64, mbits + s);
        }
    }
    assert(mbits + s == 64);
    let s64 = (64 - mbits) as nat;
    assert(g == pow2(s64));
    assert(s64 <= 63);
    assert(pow2(63) == pow2(s64) * pow2((63 - s64) as nat)) by {
        lemma_pow2_adds(s64, (63 - s64) as nat);
    }
    lemma_mod_multiples_basic(pow2((63 - s64) as nat) as int, g);
    assert(a % g == 0);
    assert(round_even_to(a, g) == a) by {
        lemma_pow2_pos(s64);
    }
    assert(round_abs(a, mbits) == a);
    assert(spec_round(i64::MIN as int, mbits) == clamp_i64(-a));
}

/// Round through the double-precision slot representation.
pub fn round_to_double(v: i64) -> (r: i64)
    ensures
        r == spec_round_f64(v as int),
{
    round_mantissa_i64(v, 53)
}

/// The saturating narrowing cast of a slot number into a declared integer
/// width and signedness.
pub fn cast_integer(v: i64, bits: u32, signed: bool) -> (r: i64)
    requires
        bits == 8 || bits == 16 || bits == 32 || bits == 64 || bits == 128,
    ensures
        r == spec_cast_integer(v as int, bits as nat, signed),
{
    proof {
        lemma2_to64();
        lemma2_to64_rest();
        lemma_pow2_strictly_increases(63, 127);
        lemma_pow2_strictly_increases(64, 127);
        lemma_pow2_strictly_increases(64, 128);
    }
    if signed {
        if bits == 8 {
            if v < -128 {
                -128
            } else if v > 127 {
                127
            } else {
                v
            }
        } else if bits == 16 {
            if v < -32768 {
                -32768
            } else if v > 32767 {
                32767
            } else {
                v
            }
        } else if bits == 32 {
            if v < -2147483648 {
                -2147483648
            } else if v > 2147483647 {
                2147483647
            } else {
                v
            }
        } else {
            v
        }
    } else {
        let w: i64 = if v < 0 {
            0
        } else {
            v
        };
        if bits == 8 {
            if w > 255 {
                255
            } else {
                w
            }
        } else if bits == 16 {
            if w > 65535 {
                65535
            } else {
                w
            }
        } else if bits == 32 {
            if w > 4294967295 {
                4294967295
            } else {
                w
            }
        } else {
            w
        }
    }
}

} // verus!
