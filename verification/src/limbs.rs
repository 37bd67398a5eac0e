//! The numeric model of little-endian 64-bit limb sequences.
use vstd::arithmetic::mul::*;
use vstd::arithmetic::power2::*;
use vstd::prelude::*;

verus! {

/// The radix of one limb, 2^64.
pub open spec fn limb_radix() -> nat {
    0x1_0000_0000_0000_0000
}

/// The number that a sequence of little-endian 64-bit limbs stands for:
/// `limbs[0] + limbs[1] * 2^64 + limbs[2] * 2^128 + ...`.
pub open spec fn limbs_value(limbs: Seq<u64>) -> nat
    decreases limbs.len(),
{
    if limbs.len() == 0 {
        0
    } else {
        limbs[0] as nat + limb_radix() * limbs_value(limbs.drop_first())
    }
}

/// `n` zero limbs.
pub open spec fn zero_limbs(n: nat) -> Seq<u64> {
    Seq::new(n, |i: int| 0u64)
}

/// A single limb stands for itself.
pub proof fn lemma_limbs_value_single(v: u64)
    ensures
        limbs_value(seq![v]) == v,
{
    let s = seq![v];
    assert(s.len() == 1);
    assert(s[0] == v);
    assert(s.drop_first() =~= Seq::<u64>::empty());
    assert(limbs_value(s.drop_first()) == 0);
}

/// `2^(64 * (n + 1)) == 2^64 * 2^(64 * n)`.
pub proof fn lemma_pow2_limb_step(n: nat)
    ensures
        pow2(64 * (n + 1)) == limb_radix() * pow2(64 * n),
{
    lemma_pow2_adds(64, 64 * n);
    lemma2_to64();
    assert(64 * (n + 1) == 64 + 64 * n) by (nonlinear_arith);
}

/// A sequence of `n` limbs stands for a number below `2^(64 * n)`.
pub proof fn lemma_limbs_value_bound(limbs: Seq<u64>)
    ensures
        limbs_value(limbs) < pow2(64 * limbs.len()),
    decreases limbs.len(),
{
    if limbs.len() == 0 {
        lemma2_to64();
    } else {
        let rest = limbs.drop_first();
        lemma_limbs_value_bound(rest);
        lemma_pow2_limb_step(rest.len());
        let v = limbs_value(rest);
        let p = pow2(64 * rest.len());
        assert(limb_radix() * v <= limb_radix() * (p - 1)) by {
            lemma_mul_inequality(v as int, p - 1, limb_radix() as int);
            lemma_mul_is_commutative(v as int, limb_radix() as int);
            lemma_mul_is_commutative(p - 1, limb_radix() as int);
        }
        assert(limb_radix() * (p - 1) == limb_radix() * p - limb_radix()) by {
            lemma_mul_is_distributive_sub(limb_radix() as int, p as int, 1);
        }
    }
}

/// Zero limbs appended at the most significant end do not change the number.
pub proof fn lemma_limbs_value_extend(limbs: Seq<u64>, n: nat)
    ensures
        limbs_value(limbs + zero_limbs(n)) == limbs_value(limbs),
    decreases limbs.len() + n,
{
    if limbs.len() == 0 {
        assert(limbs + zero_limbs(n) =~= zero_limbs(n));
        lemma_limbs_value_zero(zero_limbs(n));
    } else {
        let s = limbs + zero_limbs(n);
        assert(s.drop_first() =~= limbs.drop_first() + zero_limbs(n));
        lemma_limbs_value_extend(limbs.drop_first(), n);
    }
}

/// A sequence stands for zero exactly when all its limbs are zero.
pub proof fn lemma_limbs_value_zero(limbs: Seq<u64>)
    ensures
        limbs_value(limbs) == 0 <==> (forall|i: int| 0 <= i < limbs.len() ==> limbs[i] == 0),
    decreases limbs.len(),
{
    if limbs.len() != 0 {
        let rest = limbs.drop_first();
        lemma_limbs_value_zero(rest);
        if limbs_value(rest) != 0 {
            assert(limb_radix() * limbs_value(rest) >= limb_radix()) by {
                lemma_mul_increases(limbs_value(rest) as int, limb_radix() as int);
                lemma_mul_is_commutative(limbs_value(rest) as int, limb_radix() as int);
            }
            let j = choose|j: int| 0 <= j < rest.len() && rest[j] != 0;
            assert(limbs[j + 1] == rest[j]);
        } else {
            assert forall|i: int| 0 <= i < limbs.len() && limbs[0] == 0 implies #[trigger] limbs[i] == 0 by {
                if i > 0 {
                    assert(limbs[i] == rest[i - 1]);
                }
            }
        }
    }
}

/// Splitting after `m` limbs: the low part plus `2^(64 * m)` times the high part.
pub proof fn lemma_limbs_value_split(limbs: Seq<u64>, m: nat)
    requires
        m <= limbs.len(),
    ensures
        limbs_value(limbs) == limbs_value(limbs.take(m as int)) + pow2(64 * m) * limbs_value(
            limbs.skip(m as int),
        ),
    decreases m,
{
    if m == 0 {
        lemma2_to64();
        assert(limbs.skip(0) =~= limbs);
        assert(limbs.take(0) =~= Seq::<u64>::empty());
        assert(limbs_value(limbs.take(0)) == 0);
        assert(pow2(64 * m) == 1);
    } else {
        let rest = limbs.drop_first();
        let k = (m - 1) as nat;
        lemma_limbs_value_split(rest, k);
        assert(limbs.take(m as int).drop_first() =~= rest.take(k as int));
        assert(limbs.skip(m as int) =~= rest.skip(k as int));
        lemma_pow2_limb_step(k);
        let lo = limbs_value(rest.take(k as int));
        let hi = limbs_value(rest.skip(k as int));
        let p = pow2(64 * k);
        assert(limb_radix() * (lo + p * hi) == limb_radix() * lo + (limb_radix() * p) * hi) by {
            lemma_mul_is_distributive_add(limb_radix() as int, lo as int, (p * hi) as int);
            lemma_mul_is_associative(limb_radix() as int, p as int, hi as int);
        }
        assert(limbs_value(limbs.take(m as int)) == limbs[0] + limb_radix() * lo);
        assert(m == k + 1);
        assert(pow2(64 * m) == limb_radix() * p);
        assert(limbs_value(limbs) == limbs[0] + limb_radix() * (lo + p * hi));
    }
}

/// Two sequences of the same length that stand for the same number are equal.
pub proof fn lemma_limbs_value_injective(a: Seq<u64>, b: Seq<u64>)
    requires
        a.len() == b.len(),
        limbs_value(a) == limbs_value(b),
    ensures
        a == b,
    decreases a.len(),
{
    if a.len() != 0 {
        let ra = a.drop_first();
        let rb = b.drop_first();
        let va = limbs_value(ra);
        let vb = limbs_value(rb);
        assert(a[0] == b[0] && va == vb) by {
            assert(((a[0] as nat + limb_radix() * va) as nat) % limb_radix() == a[0] as nat) by {
                lemma_mod_add_multiple(a[0] as nat, va, limb_radix());
            }
            assert(((b[0] as nat + limb_radix() * vb) as nat) % limb_radix() == b[0] as nat) by {
                lemma_mod_add_multiple(b[0] as nat, vb, limb_radix());
            }
            assert(limb_radix() * va == limb_radix() * vb);
            lemma_mul_equality_converse(limb_radix() as int, va as int, vb as int);
        }
        lemma_limbs_value_injective(ra, rb);
        assert(a =~= b) by {
            assert forall|i: int| 0 <= i < a.len() implies a[i] == b[i] by {
                if i > 0 {
                    assert(a[i] == ra[i - 1] && b[i] == rb[i - 1]);
                }
            }
        }
    }
}

/// `(x + r * q) % r == x` for a digit `x < r`.
proof fn lemma_mod_add_multiple(x: nat, q: nat, r: nat)
    requires
        x < r,
    ensures
        ((x + r * q) as nat) % r == x,
{
    vstd::arithmetic::div_mod::lemma_mod_multiples_vanish(q as int, x as int, r as int);
    vstd::arithmetic::div_mod::lemma_small_mod(x, r);
    lemma_mul_is_commutative(r as int, q as int);
}

} // verus!
