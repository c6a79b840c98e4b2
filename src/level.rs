use vstd::arithmetic::div_mod::*;
use vstd::arithmetic::power2::*;
use vstd::prelude::*;

verus! {

/// Status byte of a controller-change frame on hardware channel 0.
pub const CONTROLLER_CHANGE: u8 = 0xB0;

/// Largest value a controller-change frame carries.
pub const CONTROLLER_MAX: u8 = 127;

/// Whether the sign bit of a single-precision bit pattern is set.
pub open spec fn sign_set(bits: u32) -> bool {
    bits >= 0x8000_0000
}

/// The biased exponent field of a single-precision bit pattern.
pub open spec fn exponent_field(bits: u32) -> nat {
    ((bits / 0x80_0000) % 256) as nat
}

/// The fraction field of a single-precision bit pattern.
pub open spec fn fraction_field(bits: u32) -> nat {
    (bits % 0x80_0000) as nat
}

pub open spec fn is_nan(bits: u32) -> bool {
    exponent_field(bits) == 255 && fraction_field(bits) != 0
}

pub open spec fn is_infinite(bits: u32) -> bool {
    exponent_field(bits) == 255 && fraction_field(bits) == 0
}

/// The integer significand: a finite value's magnitude is
/// `significand(bits) * 2^scale(bits)`.
pub open spec fn significand(bits: u32) -> nat {
    if exponent_field(bits) == 0 {
        fraction_field(bits)
    } else {
        fraction_field(bits) + 0x80_0000
    }
}

pub open spec fn scale(bits: u32) -> int {
    if exponent_field(bits) == 0 {
        -149
    } else {
        exponent_field(bits) - 150
    }
}

/// Numerator of a finite magnitude written as a fraction over a power of two.
pub open spec fn magnitude_num(bits: u32) -> nat {
    if scale(bits) >= 0 {
        significand(bits) * pow2(scale(bits) as nat)
    } else {
        significand(bits)
    }
}

/// Denominator of a finite magnitude written as a fraction over a power of two.
pub open spec fn magnitude_den(bits: u32) -> nat {
    if scale(bits) >= 0 {
        1
    } else {
        pow2((-scale(bits)) as nat)
    }
}

/// The integer nearest to `n / d`, halves rounded up.
pub open spec fn round_half_up(n: nat, d: nat) -> nat
    recommends
        d > 0,
{
    ((2 * n + d) / (2 * d)) as nat
}

/// The controller value of a control value `v`: `round(127 * v)` clamped
/// to `[0, 127]`. A NaN gives 0, as a saturating float-to-byte conversion does.
pub open spec fn controller_value_of(bits: u32) -> nat {
    if is_nan(bits) || sign_set(bits) {
        0
    } else if is_infinite(bits) {
        127
    } else {
        let r = round_half_up(127 * magnitude_num(bits), magnitude_den(bits));
        if r > 127 {
            127
        } else {
            r
        }
    }
}

/// The three bytes of a controller-change frame for `channel` and `value`.
pub open spec fn frame_of(channel: usize, value: u8) -> Seq<u8> {
    seq![CONTROLLER_CHANGE, channel as u8, value]
}

/// Magnitudes at or above one give the top controller value.
proof fn lemma_at_least_one(bits: u32)
    requires
        127 <= exponent_field(bits) < 255,
    ensures
        round_half_up(127 * magnitude_num(bits), magnitude_den(bits)) >= 127,
{
    let s = scale(bits);
    let m = significand(bits);
    assert(m >= 0x80_0000);
    lemma2_to64();
    if s >= 0 {
        lemma_pow2_pos(s as nat);
        let n = magnitude_num(bits);
        assert(n >= m) by (nonlinear_arith)
            requires
                n == m * pow2(s as nat),
                pow2(s as nat) >= 1,
        ;
        assert((2 * (127 * n) + 1) / 2 == 127 * n);
    } else {
        let k = (-s) as nat;
        assert(k <= 23);
        let d = pow2(k);
        lemma_pow2_pos(k);
        if k < 23 {
            lemma_pow2_strictly_increases(k, 23);
        }
        assert(d <= 0x80_0000);
        let q = 2 * (127 * m) + d;
        assert(q >= 255 * d);
        lemma_div_is_ordered((255 * d) as int, q as int, (2 * d) as int);
        lemma_fundamental_div_mod_converse_div((255 * d) as int, (2 * d) as int, 127, d as int);
    }
}

/// Magnitudes below two to the minus thirty-two round to zero.
proof fn lemma_tiny(bits: u32, k: nat)
    requires
        exponent_field(bits) < 127,
        k == -scale(bits),
        k >= 32,
    ensures
        round_half_up(127 * magnitude_num(bits), magnitude_den(bits)) == 0,
{
    let m = significand(bits);
    let d = pow2(k);
    lemma2_to64();
    if k > 32 {
        lemma_pow2_strictly_increases(32, k);
    }
    lemma_pow2_unfold(k + 1);
    assert(m < 0x100_0000);
    assert(2 * (127 * m) + d < 2 * d);
    lemma_basic_div((2 * (127 * m) + d) as int, (2 * d) as int);
}

/// The controller value of a control value given by its single-precision bits.
pub fn controller_value(bits: u32) -> (r: u8)
    ensures
        r as nat == controller_value_of(bits),
{
    let exp: u32 = (bits / 0x80_0000) % 256;
    let frac: u32 = bits % 0x80_0000;
    if bits >= 0x8000_0000 {
        return 0;
    }
    if exp == 255 {
        if frac != 0 {
            return 0;
        }
        return CONTROLLER_MAX;
    }
    if exp >= 127 {
        proof {
            lemma_at_least_one(bits);
        }
        return CONTROLLER_MAX;
    }
    let k: u32 = if exp == 0 {
        149
    } else {
        150 - exp
    };
    if k >= 32 {
        proof {
            lemma_tiny(bits, k as nat);
        }
        return 0;
    }
    let m: u64 = if exp == 0 {
        frac as u64
    } else {
        frac as u64 + 0x80_0000
    };
    let mut d: u64 = 1;
    let mut j: u32 = 0;
    proof {
        lemma2_to64();
    }
    while j < k
        invariant
            j <= k,
            k < 32,
            d == pow2(j as nat),
        decreases k - j,
    {
        proof {
            lemma2_to64();
            lemma_pow2_unfold((j + 1) as nat);
            lemma_pow2_strictly_increases(j as nat, 32);
        }
        d = d * 2;
        j = j + 1;
    }
    assert(m < 0x100_0000);
    proof {
        if k < 31 {
            lemma_pow2_strictly_increases(k as nat, 31);
        }
    }
    assert(d <= 0x8000_0000);
    let q: u64 = (254 * m + d) / (2 * d);
    assert(magnitude_den(bits) == d);
    assert(magnitude_num(bits) == m);
    if q > 127 {
        CONTROLLER_MAX
    } else {
        q as u8
    }
}

/// The controller-change frame that sets controller `channel` to `value`.
pub fn controller_frame(channel: usize, value: u8) -> (r: [u8; 3])
    ensures
        r@ == frame_of(channel, value),
{
    let r = [CONTROLLER_CHANGE, channel as u8, value];
    assert(r@ =~= frame_of(channel, value));
    r
}

} // verus!
