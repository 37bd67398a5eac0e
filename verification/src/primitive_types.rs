//! Fixed-width unsigned integers made of little-endian 64-bit limbs, and the
//! conversions between them.
use crate::limbs::{
    lemma_limbs_value_bound, lemma_limbs_value_extend, lemma_limbs_value_single,
    lemma_limbs_value_split, lemma_limbs_value_zero, limbs_value, zero_limbs,
};
use crate::lossy::{lossy_limbs_from_f64_bits, lossy_uint_from_f64_bits};
use vstd::arithmetic::power2::pow2;
use vstd::prelude::*;
use vstd::std_specs::convert::FromSpec;
use vstd::std_specs::convert::FromSpecImpl;
use vstd::std_specs::convert::TryFromSpec;
use vstd::std_specs::convert::TryFromSpecImpl;

verus! {

/// Error type for conversion.
#[derive(Debug, PartialEq, Eq, Structural)]
pub enum Error {
    /// Overflow encountered.
    Overflow,
}

/// 128-bit unsigned integer (two little-endian 64-bit limbs).
#[derive(Clone, Copy, Debug, PartialEq, Eq)]
pub struct U128(pub [u64; 2]);

/// 256-bit unsigned integer (four little-endian 64-bit limbs).
#[derive(Clone, Copy, Debug, PartialEq, Eq)]
pub struct U256(pub [u64; 4]);

/// 512-bit unsigned integer (eight little-endian 64-bit limbs).
#[derive(Clone, Copy, Debug, PartialEq, Eq)]
pub struct U512(pub [u64; 8]);

impl View for U128 {
    type V = nat;

    open spec fn view(&self) -> nat {
        limbs_value(self.0@)
    }
}

impl View for U256 {
    type V = nat;

    open spec fn view(&self) -> nat {
        limbs_value(self.0@)
    }
}

impl View for U512 {
    type V = nat;

    open spec fn view(&self) -> nat {
        limbs_value(self.0@)
    }
}

/// Copies the limbs of a narrower number into a wider one whose upper limbs are zero.
fn widen_limbs<const M: usize, const N: usize>(small: &[u64; M]) -> (wide: [u64; N])
    requires
        M <= N,
    ensures
        wide@ == small@ + zero_limbs((N - M) as nat),
{
    let mut ret = [0u64; N];
    for i in 0..M
        invariant
            M <= N,
            ret@.len() == N,
            forall|j: int| 0 <= j < i ==> ret@[j] == small@[j],
            forall|j: int| i <= j < N ==> ret@[j] == 0,
    {
        ret[i] = small[i];
    }
    assert(ret@ =~= small@ + zero_limbs((N - M) as nat));
    ret
}

/// Keeps the lower `M` limbs of a wider number, failing with `Overflow` when a
/// dropped limb is not zero.
fn narrow_limbs<const N: usize, const M: usize>(large: &[u64; N]) -> (res: Result<[u64; M], Error>)
    requires
        M <= N,
    ensures
        match res {
            Ok(small) => small@ == large@.take(M as int) && high_limbs_zero(large@, M as nat),
            Err(e) => e == Error::Overflow && !high_limbs_zero(large@, M as nat),
        },
{
    let mut ret = [0u64; M];
    for i in 0..M
        invariant
            M <= N,
            ret@.len() == M,
            forall|j: int| 0 <= j < i ==> ret@[j] == large@[j],
    {
        ret[i] = large[i];
    }
    let mut ov: u64 = 0;
    for i in M..N
        invariant
            M <= N,
            ov == 0 <==> forall|j: int| M <= j < i ==> large@[j] == 0,
    {
        let x = large[i];
        assert(ov | x == 0 <==> ov == 0 && x == 0) by (bit_vector);
        ov = ov | x;
    }
    assert(ret@ =~= large@.take(M as int));
    if ov == 0 {
        Ok(ret)
    } else {
        Err(Error::Overflow)
    }
}

/// Whether every limb from index `m` on is zero.
pub open spec fn high_limbs_zero(limbs: Seq<u64>, m: nat) -> bool {
    forall|i: int| m <= i < limbs.len() ==> limbs[i] == 0
}

/// Widening keeps the number.
proof fn lemma_widen_value(small: Seq<u64>, n: nat)
    ensures
        limbs_value(small + zero_limbs(n)) == limbs_value(small),
{
    lemma_limbs_value_extend(small, n);
}

/// Narrowing to `m` limbs keeps the number exactly when the dropped limbs are zero,
/// which is exactly when the number is below `2^(64 * m)`.
proof fn lemma_narrow_value(large: Seq<u64>, m: nat)
    requires
        m <= large.len(),
    ensures
        high_limbs_zero(large, m) <==> limbs_value(large) < pow2(64 * m),
        high_limbs_zero(large, m) ==> limbs_value(large.take(m as int)) == limbs_value(large),
{
    let hi = large.skip(m as int);
    let lo = large.take(m as int);
    lemma_limbs_value_split(large, m);
    lemma_limbs_value_bound(lo);
    lemma_limbs_value_zero(hi);
    if high_limbs_zero(large, m) {
        assert forall|i: int| 0 <= i < hi.len() implies hi[i] == 0 by {
            assert(hi[i] == large[m + i]);
        }
        assert(limbs_value(hi) == 0);
        vstd::arithmetic::mul::lemma_mul_by_zero_is_zero(pow2(64 * m) as int);
    } else {
        let j = choose|j: int| m <= j < large.len() && large[j] != 0;
        assert(hi[j - m] == large[j]);
        assert(limbs_value(hi) != 0);
        assert(pow2(64 * m) * limbs_value(hi) >= pow2(64 * m)) by {
            vstd::arithmetic::mul::lemma_mul_increases(
                limbs_value(hi) as int,
                pow2(64 * m) as int,
            );
            vstd::arithmetic::mul::lemma_mul_is_commutative(
                limbs_value(hi) as int,
                pow2(64 * m) as int,
            );
        }
    }
}

impl From<U128> for U256 {
    fn from(val: U128) -> (r: U256)
        ensures
            r@ == val@,
    {
        let r = U256(widen_limbs::<2, 4>(&val.0));
        proof {
            lemma_widen_value(val.0@, 2);
            assert(r.0 =~= [val.0[0], val.0[1], 0, 0]);
        }
        r
    }
}

impl FromSpecImpl<U128> for U256 {
    open spec fn obeys_from_spec() -> bool {
        true
    }

    open spec fn from_spec(v: U128) -> U256 {
        U256([v.0[0], v.0[1], 0, 0])
    }
}

impl<'a> From<&'a U128> for U256 {
    fn from(val: &'a U128) -> (r: U256)
        ensures
            r@ == val@,
    {
        U256::from(*val)
    }
}

impl<'a> FromSpecImpl<&'a U128> for U256 {
    open spec fn obeys_from_spec() -> bool {
        true
    }

    open spec fn from_spec(v: &'a U128) -> U256 {
        U256([v.0[0], v.0[1], 0, 0])
    }
}

impl TryFrom<U256> for U128 {
    type Error = Error;

    fn try_from(val: U256) -> (r: Result<U128, Error>)
        ensures
            match r {
                Ok(x) => val@ < pow2(128) && x@ == val@,
                Err(e) => val@ >= pow2(128) && e == Error::Overflow,
            },
    {
        let r = narrow_limbs::<4, 2>(&val.0);
        proof {
            lemma_narrow_value(val.0@, 2);
        }
        match r {
            Ok(limbs) => {
                assert(limbs =~= [val.0[0], val.0[1]]);
                Ok(U128(limbs))
            },
            Err(e) => Err(e),
        }
    }
}

impl TryFromSpecImpl<U256> for U128 {
    open spec fn obeys_try_from_spec() -> bool {
        true
    }

    open spec fn try_from_spec(v: U256) -> Result<U128, Error> {
        if v.0[2] == 0 && v.0[3] == 0 {
            Ok(U128([v.0[0], v.0[1]]))
        } else {
            Err(Error::Overflow)
        }
    }
}

impl<'a> TryFrom<&'a U256> for U128 {
    type Error = Error;

    fn try_from(val: &'a U256) -> (r: Result<U128, Error>)
        ensures
            match r {
                Ok(x) => val@ < pow2(128) && x@ == val@,
                Err(e) => val@ >= pow2(128) && e == Error::Overflow,
            },
    {
        U128::try_from(*val)
    }
}

impl<'a> TryFromSpecImpl<&'a U256> for U128 {
    open spec fn obeys_try_from_spec() -> bool {
        true
    }

    open spec fn try_from_spec(v: &'a U256) -> Result<U128, Error> {
        if v.0[2] == 0 && v.0[3] == 0 {
            Ok(U128([v.0[0], v.0[1]]))
        } else {
            Err(Error::Overflow)
        }
    }
}

impl From<U128> for U512 {
    fn from(val: U128) -> (r: U512)
        ensures
            r@ == val@,
    {
        let r = U512(widen_limbs::<2, 8>(&val.0));
        proof {
            lemma_widen_value(val.0@, 6);
            assert(r.0 =~= [val.0[0], val.0[1], 0, 0, 0, 0, 0, 0]);
        }
        r
    }
}

impl FromSpecImpl<U128> for U512 {
    open spec fn obeys_from_spec() -> bool {
        true
    }

    open spec fn from_spec(v: U128) -> U512 {
        U512([v.0[0], v.0[1], 0, 0, 0, 0, 0, 0])
    }
}

impl<'a> From<&'a U128> for U512 {
    fn from(val: &'a U128) -> (r: U512)
        ensures
            r@ == val@,
    {
        U512::from(*val)
    }
}

impl<'a> FromSpecImpl<&'a U128> for U512 {
    open spec fn obeys_from_spec() -> bool {
        true
    }

    open spec fn from_spec(v: &'a U128) -> U512 {
        U512([v.0[0], v.0[1], 0, 0, 0, 0, 0, 0])
    }
}

impl TryFrom<U512> for U128 {
    type Error = Error;

    fn try_from(val: U512) -> (r: Result<U128, Error>)
        ensures
            match r {
                Ok(x) => val@ < pow2(128) && x@ == val@,
                Err(e) => val@ >= pow2(128) && e == Error::Overflow,
            },
    {
        let r = narrow_limbs::<8, 2>(&val.0);
        proof {
            lemma_narrow_value(val.0@, 2);
        }
        match r {
            Ok(limbs) => {
                assert(limbs =~= [val.0[0], val.0[1]]);
                Ok(U128(limbs))
            },
            Err(e) => Err(e),
        }
    }
}

impl TryFromSpecImpl<U512> for U128 {
    open spec fn obeys_try_from_spec() -> bool {
        true
    }

    open spec fn try_from_spec(v: U512) -> Result<U128, Error> {
        if v.0[2] == 0 && v.0[3] == 0 && v.0[4] == 0 && v.0[5] == 0 && v.0[6] == 0 && v.0[7] == 0 {
            Ok(U128([v.0[0], v.0[1]]))
        } else {
            Err(Error::Overflow)
        }
    }
}

impl<'a> TryFrom<&'a U512> for U128 {
    type Error = Error;

    fn try_from(val: &'a U512) -> (r: Result<U128, Error>)
        ensures
            match r {
                Ok(x) => val@ < pow2(128) && x@ == val@,
                Err(e) => val@ >= pow2(128) && e == Error::Overflow,
            },
    {
        U128::try_from(*val)
    }
}

impl<'a> TryFromSpecImpl<&'a U512> for U128 {
    open spec fn obeys_try_from_spec() -> bool {
        true
    }

    open spec fn try_from_spec(v: &'a U512) -> Result<U128, Error> {
        if v.0[2] == 0 && v.0[3] == 0 && v.0[4] == 0 && v.0[5] == 0 && v.0[6] == 0 && v.0[7] == 0 {
            Ok(U128([v.0[0], v.0[1]]))
        } else {
            Err(Error::Overflow)
        }
    }
}

impl From<U256> for U512 {
    fn from(val: U256) -> (r: U512)
        ensures
            r@ == val@,
    {
        let r = U512(widen_limbs::<4, 8>(&val.0));
        proof {
            lemma_widen_value(val.0@, 4);
            assert(r.0 =~= [val.0[0], val.0[1], val.0[2], val.0[3], 0, 0, 0, 0]);
        }
        r
    }
}

impl FromSpecImpl<U256> for U512 {
    open spec fn obeys_from_spec() -> bool {
        true
    }

    open spec fn from_spec(v: U256) -> U512 {
        U512([v.0[0], v.0[1], v.0[2], v.0[3], 0, 0, 0, 0])
    }
}

impl<'a> From<&'a U256> for U512 {
    fn from(val: &'a U256) -> (r: U512)
        ensures
            r@ == val@,
    {
        U512::from(*val)
    }
}

impl<'a> FromSpecImpl<&'a U256> for U512 {
    open spec fn obeys_from_spec() -> bool {
        true
    }

    open spec fn from_spec(v: &'a U256) -> U512 {
        U512([v.0[0], v.0[1], v.0[2], v.0[3], 0, 0, 0, 0])
    }
}

impl TryFrom<U512> for U256 {
    type Error = Error;

    fn try_from(val: U512) -> (r: Result<U256, Error>)
        ensures
            match r {
                Ok(x) => val@ < pow2(256) && x@ == val@,
                Err(e) => val@ >= pow2(256) && e == Error::Overflow,
            },
    {
        let r = narrow_limbs::<8, 4>(&val.0);
        proof {
            lemma_narrow_value(val.0@, 4);
        }
        match r {
            Ok(limbs) => {
                assert(limbs =~= [val.0[0], val.0[1], val.0[2], val.0[3]]);
                Ok(U256(limbs))
            },
            Err(e) => Err(e),
        }
    }
}

impl TryFromSpecImpl<U512> for U256 {
    open spec fn obeys_try_from_spec() -> bool {
        true
    }

    open spec fn try_from_spec(v: U512) -> Result<U256, Error> {
        if v.0[4] == 0 && v.0[5] == 0 && v.0[6] == 0 && v.0[7] == 0 {
            Ok(U256([v.0[0], v.0[1], v.0[2], v.0[3]]))
        } else {
            Err(Error::Overflow)
        }
    }
}

impl<'a> TryFrom<&'a U512> for U256 {
    type Error = Error;

    fn try_from(val: &'a U512) -> (r: Result<U256, Error>)
        ensures
            match r {
                Ok(x) => val@ < pow2(256) && x@ == val@,
                Err(e) => val@ >= pow2(256) && e == Error::Overflow,
            },
    {
        U256::try_from(*val)
    }
}

impl<'a> TryFromSpecImpl<&'a U512> for U256 {
    open spec fn obeys_try_from_spec() -> bool {
        true
    }

    open spec fn try_from_spec(v: &'a U512) -> Result<U256, Error> {
        if v.0[4] == 0 && v.0[5] == 0 && v.0[6] == 0 && v.0[7] == 0 {
            Ok(U256([v.0[0], v.0[1], v.0[2], v.0[3]]))
        } else {
            Err(Error::Overflow)
        }
    }
}

impl U128 {
    /// Lossy saturating conversion from a `f64`, given by its bit pattern
    /// (`f64::to_bits`), to a `U128`. Like the conversion of a double into a primitive
    /// integer type it truncates fractional parts: `NaN` gives `0`, everything up to
    /// and below `1.0` except `1.0` itself gives `0`, numbers up to `U128::MAX` give their
    /// integer part, and larger numbers (and `+infinity`) give `U128::MAX`.
    pub fn from_f64_bits_lossy(bits: u64) -> (r: U128)
        ensures
            r@ == lossy_uint_from_f64_bits(bits, 128),
    {
        U128(lossy_limbs_from_f64_bits::<2>(bits))
    }
}

impl U256 {
    /// The number as a `u64`, or `None` when it does not fit (where `as_u64` panics).
    pub fn checked_as_u64(&self) -> (r: Option<u64>)
        ensures
            self@ < pow2(64) ==> r == Some(self@ as u64),
            self@ >= pow2(64) ==> r is None,
    {
        proof {
            lemma_narrow_value(self.0@, 1);
            lemma_limbs_value_single(self.0[0]);
            assert(self.0@.take(1) =~= seq![self.0[0]]);
        }
        if self.0[1] == 0 && self.0[2] == 0 && self.0[3] == 0 {
            Some(self.0[0])
        } else {
            None
        }
    }
}

impl U256 {
    /// Lossy saturating conversion from a `f64`, given by its bit pattern
    /// (`f64::to_bits`), to a `U256`. Like the conversion of a double into a primitive
    /// integer type it truncates fractional parts: `NaN` gives `0`, everything up to
    /// and below `1.0` except `1.0` itself gives `0`, numbers up to `U256::MAX` give their
    /// integer part, and larger numbers (and `+infinity`) give `U256::MAX`.
    pub fn from_f64_bits_lossy(bits: u64) -> (r: U256)
        ensures
            r@ == lossy_uint_from_f64_bits(bits, 256),
    {
        U256(lossy_limbs_from_f64_bits::<4>(bits))
    }
}

impl U512 {
    /// Lossy saturating conversion from a `f64`, given by its bit pattern
    /// (`f64::to_bits`), to a `U512`. Like the conversion of a double into a primitive
    /// integer type it truncates fractional parts: `NaN` gives `0`, everything up to
    /// and below `1.0` except `1.0` itself gives `0`, numbers up to `U512::MAX` give their
    /// integer part, and larger numbers (and `+infinity`) give `U512::MAX`.
    pub fn from_f64_bits_lossy(bits: u64) -> (r: U512)
        ensures
            r@ == lossy_uint_from_f64_bits(bits, 512),
    {
        U512(lossy_limbs_from_f64_bits::<8>(bits))
    }
}
/// Converting a `U128` into a `U256` keeps the number, and converting the result
/// back into a `U128` succeeds and gives the `U128` that was started from.
pub proof fn law_u128_into_u256_round_trip(x: U128)
    ensures
        (<U256 as FromSpec<U128>>::from_spec(x))@ == x@,
        <U128 as TryFromSpec<U256>>::try_from_spec(<U256 as FromSpec<U128>>::from_spec(x)) == Ok::<
            U128,
            Error,
        >(x),
{
    let y = <U256 as FromSpec<U128>>::from_spec(x);
    assert(y.0@ =~= x.0@ + zero_limbs(2));
    lemma_widen_value(x.0@, 2);
    assert(x.0 =~= [x.0[0], x.0[1]]);
}

/// Converting a `U256` into a `U128` succeeds exactly when the number is below
/// `2^128`; it then keeps the number, and converting back gives the `U256` that
/// was started from.
pub proof fn law_u256_into_u128_round_trip(y: U256)
    ensures
        match <U128 as TryFromSpec<U256>>::try_from_spec(y) {
            Ok(x) => y@ < pow2(128) && x@ == y@ && <U256 as FromSpec<U128>>::from_spec(x) == y,
            Err(e) => y@ >= pow2(128) && e == Error::Overflow,
        },
{
    lemma_narrow_value(y.0@, 2);
    if let Ok(x) = <U128 as TryFromSpec<U256>>::try_from_spec(y) {
        assert(x.0@ =~= y.0@.take(2));
        assert(<U256 as FromSpec<U128>>::from_spec(x).0 =~= y.0);
    }
}

/// Converting a `U128` into a `U512` keeps the number, and converting the result
/// back into a `U128` succeeds and gives the `U128` that was started from.
pub proof fn law_u128_into_u512_round_trip(x: U128)
    ensures
        (<U512 as FromSpec<U128>>::from_spec(x))@ == x@,
        <U128 as TryFromSpec<U512>>::try_from_spec(<U512 as FromSpec<U128>>::from_spec(x)) == Ok::<
            U128,
            Error,
        >(x),
{
    let y = <U512 as FromSpec<U128>>::from_spec(x);
    assert(y.0@ =~= x.0@ + zero_limbs(6));
    lemma_widen_value(x.0@, 6);
    assert(x.0 =~= [x.0[0], x.0[1]]);
}

/// Converting a `U512` into a `U128` succeeds exactly when the number is below
/// `2^128`; it then keeps the number, and converting back gives the `U512` that
/// was started from.
pub proof fn law_u512_into_u128_round_trip(y: U512)
    ensures
        match <U128 as TryFromSpec<U512>>::try_from_spec(y) {
            Ok(x) => y@ < pow2(128) && x@ == y@ && <U512 as FromSpec<U128>>::from_spec(x) == y,
            Err(e) => y@ >= pow2(128) && e == Error::Overflow,
        },
{
    lemma_narrow_value(y.0@, 2);
    if let Ok(x) = <U128 as TryFromSpec<U512>>::try_from_spec(y) {
        assert(x.0@ =~= y.0@.take(2));
        assert(<U512 as FromSpec<U128>>::from_spec(x).0 =~= y.0);
    }
}

/// Converting a `U256` into a `U512` keeps the number, and converting the result
/// back into a `U256` succeeds and gives the `U256` that was started from.
pub proof fn law_u256_into_u512_round_trip(x: U256)
    ensures
        (<U512 as FromSpec<U256>>::from_spec(x))@ == x@,
        <U256 as TryFromSpec<U512>>::try_from_spec(<U512 as FromSpec<U256>>::from_spec(x)) == Ok::<
            U256,
            Error,
        >(x),
{
    let y = <U512 as FromSpec<U256>>::from_spec(x);
    assert(y.0@ =~= x.0@ + zero_limbs(4));
    lemma_widen_value(x.0@, 4);
    assert(x.0 =~= [x.0[0], x.0[1], x.0[2], x.0[3]]);
}

/// Converting a `U512` into a `U256` succeeds exactly when the number is below
/// `2^256`; it then keeps the number, and converting back gives the `U512` that
/// was started from.
pub proof fn law_u512_into_u256_round_trip(y: U512)
    ensures
        match <U256 as TryFromSpec<U512>>::try_from_spec(y) {
            Ok(x) => y@ < pow2(256) && x@ == y@ && <U512 as FromSpec<U256>>::from_spec(x) == y,
            Err(e) => y@ >= pow2(256) && e == Error::Overflow,
        },
{
    lemma_narrow_value(y.0@, 4);
    if let Ok(x) = <U256 as TryFromSpec<U512>>::try_from_spec(y) {
        assert(x.0@ =~= y.0@.take(4));
        assert(<U512 as FromSpec<U256>>::from_spec(x).0 =~= y.0);
    }
}
} // verus!
