use vstd::prelude::*;
use vstd::arithmetic::power2::{
    lemma2_to64, lemma_pow2_adds, lemma_pow2_pos, lemma_pow2_strictly_increases, pow2,
};

verus! {

/// One thousand times two to the twenty-third: a milli-unit magnitude `m`
/// scaled into `[BIN32_LO, 2 * BIN32_LO)` has a 24-bit significand.
pub const BIN32_LO: u64 = 8_388_608_000;

/// One thousand times two to the twenty-fourth: the smallest milli-unit
/// magnitude the encoder does not accept.
pub const BIN32_HI: u64 = 16_777_216_000;

/// How many doublings bring `m` into `[BIN32_LO, 2 * BIN32_LO)`.
pub open spec fn norm_shift(m: nat) -> nat
    recommends
        1 <= m,
    decreases 8_388_608_000 - m,
        when 1 <= m
{
    if m >= 8_388_608_000 {
        0
    } else if 2 * m >= 8_388_608_000 {
        1
    } else {
        1 + norm_shift(2 * m)
    }
}

/// `a / d` rounded to the nearest integer, ties to the even neighbour.
pub open spec fn rne_div(a: nat, d: nat) -> nat
    recommends
        1 <= d,
{
    let q = a / d;
    let r = a % d;
    if 2 * r < d {
        q
    } else if 2 * r > d {
        q + 1
    } else if q % 2 == 0 {
        q
    } else {
        q + 1
    }
}

/// The IEEE binary32 bit pattern of `n / 1000`, rounded to nearest, ties to
/// even: the magnitude is scaled by doublings until its significand spans 24
/// bits, the scaled value is rounded at the thousandth, and sign, biased
/// exponent and fraction are packed.  Every representable input is a normal
/// number, so no subnormal or infinite case arises.
pub open spec fn milli_bits(n: int) -> u32
    recommends
        -BIN32_HI < n < BIN32_HI,
{
    if n == 0 {
        0u32
    } else {
        let m = (if n < 0 {
            -n
        } else {
            n
        }) as nat;
        let s = norm_shift(m);
        let man = rne_div(m * pow2(s), 1000);
        let bits = if man == 16_777_216 {
            (151 - s) * 8_388_608
        } else {
            (150 - s) * 8_388_608 + (man - 8_388_608)
        };
        (if n < 0 {
            0x8000_0000 + bits
        } else {
            bits
        }) as u32
    }
}

/// Scaling by `norm_shift` doublings lands in `[BIN32_LO, BIN32_HI)`, and
/// never needs more than 33 doublings.
proof fn lemma_norm_shift_props(m: nat)
    requires
        1 <= m < BIN32_HI,
    ensures
        BIN32_LO <= m * pow2(norm_shift(m)) < BIN32_HI,
        norm_shift(m) <= 33,
    decreases 8_388_608_000 - m,
{
    let s = norm_shift(m);
    if m >= 8_388_608_000 {
        assert(pow2(0) == 1) by {
            lemma2_to64();
        }
    } else if 2 * m >= 8_388_608_000 {
        assert(pow2(1) == 2) by {
            lemma2_to64();
        }
    } else {
        lemma_norm_shift_props(2 * m);
        let s2 = norm_shift(2 * m);
        assert(pow2(s2 + 1) == 2 * pow2(s2)) by {
            lemma_pow2_adds(s2, 1);
            lemma2_to64();
        }
        assert(m * (2 * pow2(s2)) == (2 * m) * pow2(s2)) by (nonlinear_arith);
        if s > 33 {
            lemma_pow2_strictly_increases(33, s);
            assert(pow2(33) == 8_589_934_592) by {
                lemma2_to64_rest_helper();
            }
            assert(m * pow2(s) >= pow2(s)) by (nonlinear_arith)
                requires
                    1 <= m,
                    0 < pow2(s),
            ;
            lemma_pow2_pos(s);
        }
    }
}

proof fn lemma2_to64_rest_helper()
    ensures
        pow2(33) == 8_589_934_592,
        pow2(34) == 17_179_869_184,
{
    vstd::arithmetic::power2::lemma2_to64_rest();
}

/// Encodes `n` thousandths as an IEEE binary32 bit pattern, in pure integer
/// arithmetic.
pub fn milli_to_bits32(n: i64) -> (r: u32)
    requires
        -BIN32_HI < n < BIN32_HI,
    ensures
        r == milli_bits(n as int),
{
    if n == 0 {
        return 0u32;
    }
    let neg = n < 0;
    let mut a: u64 = if neg {
        (-n) as u64
    } else {
        n as u64
    };
    let ghost m = a as nat;
    let mut s: u64 = 0;
    proof {
        lemma_norm_shift_props(m);
        assert(pow2(0) == 1) by {
            lemma2_to64();
        }
    }
    while a < 8_388_608_000
        invariant
            1 <= m < BIN32_HI,
            1 <= a,
            a == m * pow2(s as nat),
            s as nat + norm_shift(a as nat) == norm_shift(m),
            norm_shift(m) <= 33,
        decreases norm_shift(m) - s,
    {
        proof {
            assert(s as nat <= norm_shift(m));
            let sa = norm_shift(a as nat);
            assert(sa == 1 + norm_shift((2 * a) as nat));
            assert(pow2(s as nat + 1) == 2 * pow2(s as nat)) by {
                lemma_pow2_adds(s as nat, 1);
                lemma2_to64();
            }
            assert(2 * (m * pow2(s as nat)) == m * (2 * pow2(s as nat))) by (nonlinear_arith);
        }
        a = a * 2;
        s = s + 1;
    }
    proof {
        assert(norm_shift(a as nat) == 0);
        assert(s as nat == norm_shift(m));
        lemma_norm_shift_props(m);
        assert(a < BIN32_HI);
        assert(s <= 33);
    }
    let q = a / 1000;
    let r10 = a % 1000;
    let man0: u64 = if 2 * r10 < 1000 {
        q
    } else if 2 * r10 > 1000 {
        q + 1
    } else if q % 2 == 0 {
        q
    } else {
        q + 1
    };
    proof {
        assert(man0 == rne_div(a as nat, 1000));
        assert(8_388_608 <= q <= 16_777_215);
    }
    let bits: u64 = if man0 == 16_777_216 {
        (151 - s) * 8_388_608
    } else {
        (150 - s) * 8_388_608 + (man0 - 8_388_608)
    };
    if neg {
        0x8000_0000u32 + (bits as u32)
    } else {
        bits as u32
    }
}

} // verus!
