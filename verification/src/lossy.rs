//! The integer part of the lossy, saturating conversion of a double into a
//! fixed-width unsigned integer. The conversion reads the IEEE 754 bit pattern of
//! the double, so it stands here on the `u64` that `f64::to_bits` gives.
use crate::limbs::{
    lemma_limbs_value_extend, lemma_limbs_value_single, lemma_limbs_value_split,
    lemma_limbs_value_zero, lemma_pow2_limb_step, limb_radix, limbs_value, zero_limbs,
};
use vstd::arithmetic::div_mod::{
    lemma_div_by_multiple, lemma_div_denominator, lemma_div_is_ordered, lemma_fundamental_div_mod,
    lemma_mod_bound,
};
use vstd::arithmetic::mul::{
    lemma_mul_inequality, lemma_mul_is_associative, lemma_mul_is_commutative,
    lemma_mul_is_distributive_add, lemma_mul_strict_inequality,
};
use vstd::arithmetic::power2::{
    lemma2_to64, lemma2_to64_rest, lemma_pow2_adds, lemma_pow2_pos, lemma_pow2_strictly_increases,
    pow2,
};
use vstd::bits::{lemma_u64_shl_is_mul, lemma_u64_shr_is_div};
use vstd::prelude::*;

verus! {

/// The bit pattern of the double `1.0`.
pub open spec fn f64_bits_one() -> u64 {
    0x3FF0_0000_0000_0000
}

/// The bit pattern of the double `+infinity`.
pub open spec fn f64_bits_infinity() -> u64 {
    0x7FF0_0000_0000_0000
}

/// `2^52`, the weight of the implicit leading bit of a double's significand.
pub open spec fn significand_unit() -> nat {
    0x10_0000_0000_0000
}

/// Whether the double with this bit pattern is at least `1.0`: the patterns from
/// `1.0` up to `+infinity`. Negative numbers have the sign bit set and NaNs lie
/// above `+infinity`, so both fall outside.
pub open spec fn f64_bits_at_least_one(bits: u64) -> bool {
    f64_bits_one() <= bits <= f64_bits_infinity()
}

/// The unbiased binary exponent of a double at least `1.0` (`1024` for infinity).
pub open spec fn f64_bits_exponent(bits: u64) -> nat {
    ((bits as nat / significand_unit()) - 1023) as nat
}

/// The significand of a normal double with its implicit leading bit, in units of `2^-52`.
pub open spec fn f64_bits_significand(bits: u64) -> nat {
    bits as nat % significand_unit() + significand_unit()
}

/// The integer part of the double `significand * 2^(exponent - 52)` (for infinity,
/// of `2^1024`).
pub open spec fn f64_bits_integer_part(bits: u64) -> nat {
    (f64_bits_significand(bits) * pow2(f64_bits_exponent(bits))) / significand_unit()
}

/// What the lossy conversion of the double with this bit pattern into a `width`-bit
/// unsigned integer gives: `0` for NaN and for everything below `1.0`, the integer
/// part when it fits, and the largest `width`-bit number otherwise.
pub open spec fn lossy_uint_from_f64_bits(bits: u64, width: nat) -> nat {
    if !f64_bits_at_least_one(bits) {
        0
    } else if f64_bits_integer_part(bits) < pow2(width) {
        f64_bits_integer_part(bits)
    } else {
        (pow2(width) - 1) as nat
    }
}

/// Every bit pattern from that of `1.0` up to that of `+infinity` converts to the
/// integer part of its double, saturated at the largest `width`-bit number; every
/// other pattern (negative numbers, numbers below one, NaN) converts to zero.
pub proof fn law_lossy_ranges(bits: u64, width: nat)
    ensures
        0x3FF0_0000_0000_0000 <= bits <= 0x7FF0_0000_0000_0000 ==> lossy_uint_from_f64_bits(
            bits,
            width,
        ) == if f64_bits_integer_part(bits) < pow2(width) {
            f64_bits_integer_part(bits)
        } else {
            (pow2(width) - 1) as nat
        },
        !(0x3FF0_0000_0000_0000 <= bits <= 0x7FF0_0000_0000_0000) ==> lossy_uint_from_f64_bits(
            bits,
            width,
        ) == 0,
{
}

/// The integer part grows with the bit pattern of doubles from `1.0` to infinity.
proof fn lemma_integer_part_monotone(b1: u64, b2: u64)
    requires
        0x3FF0_0000_0000_0000 <= b1 <= b2 <= 0x7FF0_0000_0000_0000,
    ensures
        f64_bits_integer_part(b1) <= f64_bits_integer_part(b2),
{
    lemma_f64_fields(b1);
    lemma_f64_fields(b2);
    lemma2_to64_rest();
    let u = significand_unit();
    let e1 = f64_bits_exponent(b1);
    let e2 = f64_bits_exponent(b2);
    let m1 = f64_bits_significand(b1);
    let m2 = f64_bits_significand(b2);
    lemma_pow2_pos(e1);
    lemma_pow2_pos(e2);
    assert(b1 as nat / u <= b2 as nat / u) by {
        lemma_div_is_ordered(b1 as int, b2 as int, u as int);
    }
    if e1 == e2 {
        assert(b1 as nat / u == b2 as nat / u);
        lemma_fundamental_div_mod(b1 as int, u as int);
        lemma_fundamental_div_mod(b2 as int, u as int);
        assert(m1 <= m2);
        lemma_mul_inequality(m1 as int, m2 as int, pow2(e1) as int);
    } else {
        assert(e1 < e2);
        // m1 * 2^e1 < 2u * 2^e1 = u * 2^(e1 + 1) <= u * 2^e2 <= m2 * 2^e2
        lemma_mul_strict_inequality(m1 as int, (2 * u) as int, pow2(e1) as int);
        lemma_pow2_adds(1, e1);
        lemma2_to64();
        assert((2 * u) * pow2(e1) == u * pow2(e1 + 1)) by {
            lemma_mul_is_associative(u as int, 2, pow2(e1) as int);
            lemma_mul_is_commutative(u as int, 2);
        }
        if e1 + 1 < e2 {
            lemma_pow2_strictly_increases(e1 + 1, e2);
        }
        lemma_mul_inequality(pow2(e1 + 1) as int, pow2(e2) as int, u as int);
        lemma_mul_is_commutative(pow2(e1 + 1) as int, u as int);
        lemma_mul_is_commutative(pow2(e2) as int, u as int);
        lemma_mul_inequality(u as int, m2 as int, pow2(e2) as int);
    }
    lemma_div_is_ordered((m1 * pow2(e1)) as int, (m2 * pow2(e2)) as int, u as int);
}

/// The conversion never decreases as the bit pattern of a non-negative double grows
/// (NaN patterns aside): a larger double never gives a smaller number.
pub proof fn law_lossy_monotone(b1: u64, b2: u64, width: nat)
    requires
        b1 <= b2 <= 0x7FF0_0000_0000_0000,
    ensures
        lossy_uint_from_f64_bits(b1, width) <= lossy_uint_from_f64_bits(b2, width),
{
    lemma_pow2_pos(width);
    if 0x3FF0_0000_0000_0000 <= b1 {
        lemma_integer_part_monotone(b1, b2);
    }
}

/// Limbs that are all `u64::MAX` stand for `2^(64 * n) - 1`.
proof fn lemma_all_ones_value(limbs: Seq<u64>)
    requires
        forall|i: int| 0 <= i < limbs.len() ==> limbs[i] == u64::MAX,
    ensures
        limbs_value(limbs) == pow2(64 * limbs.len()) - 1,
    decreases limbs.len(),
{
    if limbs.len() == 0 {
        lemma2_to64();
    } else {
        let rest = limbs.drop_first();
        lemma_all_ones_value(rest);
        lemma_pow2_limb_step(rest.len());
        lemma_pow2_pos(64 * rest.len());
        let p = pow2(64 * rest.len());
        assert(limb_radix() * (p - 1) == limb_radix() * p - limb_radix()) by {
            vstd::arithmetic::mul::lemma_mul_is_distributive_sub(limb_radix() as int, p as int, 1);
        }
    }
}

/// The value of limbs that are zero but for `lo` at index `k` and `hi` just above it.
proof fn lemma_two_limbs_value(k: nat, lo: u64, hi: u64, rest: nat)
    ensures
        limbs_value(zero_limbs(k) + seq![lo, hi] + zero_limbs(rest)) == pow2(64 * k) * (lo
            + limb_radix() * hi),
{
    let s = zero_limbs(k) + seq![lo, hi] + zero_limbs(rest);
    lemma_limbs_value_split(s, k);
    assert(s.take(k as int) =~= zero_limbs(k));
    lemma_limbs_value_zero(zero_limbs(k));
    assert(s.skip(k as int) =~= seq![lo, hi] + zero_limbs(rest));
    lemma_limbs_value_extend(seq![lo, hi], rest);
    assert(seq![lo, hi].drop_first() =~= seq![hi]);
    assert(seq![hi].drop_first() =~= Seq::<u64>::empty());
    assert(limbs_value(Seq::<u64>::empty()) == 0);
    assert(limbs_value(seq![hi]) == hi);
    assert(limbs_value(seq![lo, hi]) == lo + limb_radix() * hi);
    assert(limbs_value(s.take(k as int)) == 0);
    assert(limbs_value(s.skip(k as int)) == lo + limb_radix() * hi);
}

/// The value of limbs that are zero but for `lo` at the top index `k`.
proof fn lemma_top_limb_value(k: nat, lo: u64)
    ensures
        limbs_value(zero_limbs(k) + seq![lo]) == pow2(64 * k) * lo,
{
    let s = zero_limbs(k) + seq![lo];
    lemma_limbs_value_split(s, k);
    assert(s.take(k as int) =~= zero_limbs(k));
    lemma_limbs_value_zero(zero_limbs(k));
    assert(s.skip(k as int) =~= seq![lo]);
    assert(seq![lo].drop_first() =~= Seq::<u64>::empty());
    assert(limbs_value(Seq::<u64>::empty()) == 0);
    assert(limbs_value(seq![lo]) == lo);
    assert(limbs_value(s.take(k as int)) == 0);
    lemma_mul_is_commutative(pow2(64 * k) as int, lo as int);
}

/// The exponent and significand fields of a pattern between `1.0` and infinity.
proof fn lemma_f64_fields(bits: u64)
    requires
        f64_bits_at_least_one(bits),
    ensures
        (bits >> 52u64) & 0x7ff == bits as nat / significand_unit(),
        (bits & 0x0f_ffff_ffff_ffff) | 0x10_0000_0000_0000 == f64_bits_significand(bits),
        1023 <= bits as nat / significand_unit() <= 2047,
        f64_bits_significand(bits) < 2 * significand_unit(),
{
    assert((bits >> 52u64) & 0x7ff == bits / 0x10_0000_0000_0000) by (bit_vector)
        requires
            bits <= 0x7FF0_0000_0000_0000u64,
    ;
    assert((bits & 0x0f_ffff_ffff_ffff) | 0x10_0000_0000_0000 == (bits % 0x10_0000_0000_0000)
        + 0x10_0000_0000_0000) by (bit_vector);
    assert(0x3FF0_0000_0000_0000u64 <= bits <= 0x7FF0_0000_0000_0000u64 ==> 1023 <= bits
        / 0x10_0000_0000_0000 <= 2047) by (bit_vector);
}

/// For an exponent of at most 52, the integer part is the significand shifted down.
proof fn lemma_integer_part_small(bits: u64, down: u64, v: u64)
    requires
        f64_bits_at_least_one(bits),
        f64_bits_exponent(bits) <= 52,
        down == 52 - f64_bits_exponent(bits),
        v == f64_bits_significand(bits) / pow2(down as nat),
    ensures
        f64_bits_integer_part(bits) == v,
        v < pow2(64),
{
    let e = f64_bits_exponent(bits);
    let m = f64_bits_significand(bits);
    let d = down as nat;
    lemma2_to64_rest();
    lemma2_to64();
    lemma_pow2_adds(e, d);
    lemma_pow2_pos(e);
    lemma_pow2_pos(d);
    lemma_div_denominator((m * pow2(e)) as int, pow2(e) as int, pow2(d) as int);
    lemma_div_by_multiple(m as int, pow2(e) as int);
    vstd::arithmetic::div_mod::lemma_div_is_ordered_by_denominator(m as int, 1, pow2(d) as int);
}

/// For an exponent from 53 below the width, the integer part is the significand
/// times `2^shift`, and it fits.
proof fn lemma_integer_part_shifted(bits: u64, shift: nat, width: nat)
    requires
        f64_bits_at_least_one(bits),
        52 < f64_bits_exponent(bits) < width,
        shift == f64_bits_exponent(bits) - 52,
    ensures
        f64_bits_integer_part(bits) == f64_bits_significand(bits) * pow2(shift),
        f64_bits_significand(bits) * pow2(shift) < pow2(width),
{
    let m = f64_bits_significand(bits);
    lemma2_to64_rest();
    lemma2_to64();
    lemma_f64_fields(bits);
    lemma_pow2_adds(shift, 52);
    lemma_pow2_pos(shift);
    lemma_mul_is_associative(m as int, pow2(shift) as int, pow2(52) as int);
    lemma_div_by_multiple((m * pow2(shift)) as int, pow2(52) as int);
    lemma_pow2_adds(53, shift);
    lemma_mul_strict_inequality(m as int, pow2(53) as int, pow2(shift) as int);
    lemma_mul_is_commutative(m as int, pow2(shift) as int);
    lemma_mul_is_commutative(pow2(53) as int, pow2(shift) as int);
    if 53 + shift < width {
        lemma_pow2_strictly_increases(53 + shift, width);
    }
}

/// For an exponent of at least the width, the integer part does not fit.
proof fn lemma_integer_part_too_large(bits: u64, width: nat)
    requires
        f64_bits_at_least_one(bits),
        f64_bits_exponent(bits) >= width,
    ensures
        f64_bits_integer_part(bits) >= pow2(width),
{
    let e = f64_bits_exponent(bits);
    let m = f64_bits_significand(bits);
    lemma2_to64_rest();
    lemma_pow2_pos(e);
    lemma_mul_inequality(pow2(52) as int, m as int, pow2(e) as int);
    lemma_div_is_ordered((pow2(52) * pow2(e)) as int, (m * pow2(e)) as int, pow2(52) as int);
    lemma_div_by_multiple(pow2(e) as int, pow2(52) as int);
    lemma_mul_is_commutative(pow2(52) as int, pow2(e) as int);
    if width < e {
        lemma_pow2_strictly_increases(width, e);
    }
}

/// `N` limbs holding the number `v`.
fn limbs_of_u64<const N: usize>(v: u64) -> (limbs: [u64; N])
    requires
        1 <= N,
    ensures
        limbs_value(limbs@) == v,
{
    let mut ret = [0u64; N];
    ret[0] = v;
    proof {
        assert(ret@ =~= seq![v] + zero_limbs((N - 1) as nat));
        lemma_limbs_value_extend(seq![v], (N - 1) as nat);
        assert(seq![v].drop_first() =~= Seq::<u64>::empty());
        assert(limbs_value(Seq::<u64>::empty()) == 0);
        lemma_limbs_value_single(v);
    }
    ret
}

/// `N` limbs that are all `u64::MAX`, the largest `64 * N`-bit number.
fn max_limbs<const N: usize>() -> (limbs: [u64; N])
    ensures
        limbs_value(limbs@) == pow2(64 * N as nat) - 1,
{
    let mut ret = [0u64; N];
    let mut i: usize = 0;
    while i < N
        invariant
            i <= N,
            ret@.len() == N,
            forall|j: int| 0 <= j < i ==> ret@[j] == u64::MAX,
        decreases N - i,
    {
        ret[i] = u64::MAX;
        i = i + 1;
    }
    proof {
        lemma_all_ones_value(ret@);
    }
    ret
}

/// Splits `m * 2^o` (for `m < 2^53`, `o < 64`) into a low and a high limb.
fn split_shifted(m: u64, o: u64) -> (parts: (u64, u64))
    requires
        m < 0x20_0000_0000_0000,
        o < 64,
    ensures
        m * pow2(o as nat) == parts.0 + limb_radix() * parts.1,
{
    if o == 0 {
        proof {
            lemma2_to64();
            assert(pow2(o as nat) == 1);
            assert(m * pow2(o as nat) == m);
            assert(m * pow2(o as nat) == m + limb_radix() * 0);
        }
        (m, 0u64)
    } else {
        let q: u64 = 64 - o;
        let pq: u64 = 1u64 << q;
        let po: u64 = 1u64 << o;
        proof {
            vstd::bits::lemma_u64_pow2_no_overflow(q as nat);
            vstd::bits::lemma_u64_pow2_no_overflow(o as nat);
            lemma_u64_shl_is_mul(1, q);
            lemma_u64_shl_is_mul(1, o);
            lemma_pow2_pos(q as nat);
        }
        let hi = m / pq;
        let r = m % pq;
        proof {
            lemma_mod_bound(m as int, pq as int);
            lemma_pow2_adds(q as nat, o as nat);
            lemma2_to64();
            assert(pow2(64) == limb_radix());
            lemma_mul_strict_inequality(r as int, pq as int, po as int);
        }
        let lo = r * po;
        proof {
            lemma_fundamental_div_mod(m as int, pq as int);
            lemma_mul_is_distributive_add(po as int, (pq * hi) as int, r as int);
            lemma_mul_is_commutative(po as int, (pq * hi) as int);
            lemma_mul_is_commutative(po as int, r as int);
            lemma_mul_is_associative(pq as int, hi as int, po as int);
            lemma_mul_is_commutative(hi as int, po as int);
            lemma_mul_is_associative(pq as int, po as int, hi as int);
            lemma_mul_is_commutative(limb_radix() as int, hi as int);
            assert(m == pq * hi + r);
            assert(m * po == (pq * hi + r) * po);
            lemma_mul_is_commutative((pq * hi + r) as int, po as int);
            assert((pq * hi + r) * po == (pq * po) * hi + r * po);
            assert(pq * po == limb_radix());
            assert(m * pow2(o as nat) == lo + limb_radix() * hi);
        }
        (lo, hi)
    }
}

/// `N` limbs holding `m * 2^shift`, given that it fits.
fn shifted_limbs<const N: usize>(m: u64, shift: u64) -> (limbs: [u64; N])
    requires
        1 <= N <= 8,
        1 <= m < 0x20_0000_0000_0000,
        m * pow2(shift as nat) < pow2(64 * N as nat),
    ensures
        limbs_value(limbs@) == m * pow2(shift as nat),
{
    let ghost s = shift as nat;
    proof {
        // 2^shift alone is below 2^(64 * N), so the shift is below 64 * N
        lemma_pow2_pos(s);
        lemma_mul_inequality(1, m as int, pow2(s) as int);
        if 64 * N <= s {
            if 64 * N < s {
                lemma_pow2_strictly_increases(64 * N as nat, s);
            }
            assert(false);
        }
    }
    let k: usize = (shift / 64) as usize;
    let o: u64 = shift % 64;
    proof {
        assert(s == 64 * k as nat + o as nat);
        lemma_pow2_adds(64 * k as nat, o as nat);
        lemma_pow2_pos(o as nat);
        lemma_pow2_pos(64 * k as nat);
    }
    let (lo, hi) = split_shifted(m, o);
    proof {
        lemma_mul_is_associative(m as int, pow2(o as nat) as int, pow2(64 * k as nat) as int);
        lemma_mul_is_commutative(pow2(o as nat) as int, pow2(64 * k as nat) as int);
        lemma_mul_is_commutative((m * pow2(o as nat)) as int, pow2(64 * k as nat) as int);
        assert(m * pow2(s) == pow2(64 * k as nat) * (lo + limb_radix() * hi));
    }
    let mut ret = [0u64; N];
    ret[k] = lo;
    if k + 1 < N {
        ret[k + 1] = hi;
        proof {
            assert(ret@ =~= zero_limbs(k as nat) + seq![lo, hi] + zero_limbs((N - k - 2) as nat));
            lemma_two_limbs_value(k as nat, lo, hi, (N - k - 2) as nat);
        }
    } else {
        proof {
            lemma_pow2_limb_step(k as nat);
            if hi > 0 {
                assert(lo + limb_radix() * hi >= limb_radix()) by {
                    lemma_mul_inequality(1, hi as int, limb_radix() as int);
                    lemma_mul_is_commutative(hi as int, limb_radix() as int);
                }
                lemma_mul_inequality(
                    limb_radix() as int,
                    (lo + limb_radix() * hi) as int,
                    pow2(64 * k as nat) as int,
                );
                lemma_mul_is_commutative(limb_radix() as int, pow2(64 * k as nat) as int);
                lemma_mul_is_commutative(
                    (lo + limb_radix() * hi) as int,
                    pow2(64 * k as nat) as int,
                );
            }
            assert(ret@ =~= zero_limbs(k as nat) + seq![lo]);
            lemma_top_limb_value(k as nat, lo);
        }
    }
    ret
}

/// Writes the integer part of a double at least `1.0`, saturated at the largest
/// `64 * N`-bit number, into `N` limbs; gives zero for everything else.
pub fn lossy_limbs_from_f64_bits<const N: usize>(bits: u64) -> (limbs: [u64; N])
    requires
        1 <= N <= 8,
    ensures
        limbs_value(limbs@) == lossy_uint_from_f64_bits(bits, 64 * N as nat),
{
    if bits < 0x3FF0_0000_0000_0000 || bits > 0x7FF0_0000_0000_0000 {
        let ret = [0u64; N];
        proof {
            assert(ret@ =~= zero_limbs(N as nat));
            lemma_limbs_value_zero(ret@);
        }
        return ret;
    }
    proof {
        lemma_f64_fields(bits);
    }
    let exponent: u64 = ((bits >> 52u64) & 0x7ff) - 1023;
    let mantissa: u64 = (bits & 0x0f_ffff_ffff_ffff) | 0x10_0000_0000_0000;
    let ty_bits: u64 = N as u64 * 64;
    let ghost width = 64 * N as nat;
    assert(exponent == f64_bits_exponent(bits));
    assert(mantissa == f64_bits_significand(bits));
    if exponent <= 52 {
        let down: u64 = 52 - exponent;
        let v = mantissa >> down;
        proof {
            lemma_u64_shr_is_div(mantissa, down);
            lemma_integer_part_small(bits, down, v);
            lemma2_to64();
            lemma_pow2_limb_step(0);
            if 64 < width {
                lemma_pow2_strictly_increases(64, width);
            }
        }
        limbs_of_u64::<N>(v)
    } else if exponent < ty_bits {
        proof {
            lemma_integer_part_shifted(bits, (exponent - 52) as nat, width);
        }
        shifted_limbs::<N>(mantissa, exponent - 52)
    } else {
        proof {
            lemma_integer_part_too_large(bits, width);
        }
        max_limbs::<N>()
    }
}

} // verus!
