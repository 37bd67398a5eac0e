//! Fixed-size hash types (big-endian byte strings) and the conversions between them.
use crate::hex::{hex_items, parse_fixed_hex, read_exact_bytes, strip_hex_prefix, HexDigitError};
use vstd::prelude::*;
use vstd::std_specs::convert::FromSpec;
use vstd::std_specs::convert::FromSpecImpl;

verus! {

/// 128-bit hash type.
#[derive(Clone, Copy, Debug, PartialEq, Eq, Hash)]
pub struct H128(pub [u8; 16]);

impl View for H128 {
    type V = Seq<u8>;

    open spec fn view(&self) -> Seq<u8> {
        self.0@
    }
}

/// 160-bit hash type.
#[derive(Clone, Copy, Debug, PartialEq, Eq, Hash)]
pub struct H160(pub [u8; 20]);

impl View for H160 {
    type V = Seq<u8>;

    open spec fn view(&self) -> Seq<u8> {
        self.0@
    }
}

/// 256-bit hash type.
#[derive(Clone, Copy, Debug, PartialEq, Eq, Hash)]
pub struct H256(pub [u8; 32]);

impl View for H256 {
    type V = Seq<u8>;

    open spec fn view(&self) -> Seq<u8> {
        self.0@
    }
}

/// 512-bit hash type.
#[derive(Clone, Copy, Debug, PartialEq, Eq, Hash)]
pub struct H512(pub [u8; 64]);

impl View for H512 {
    type V = Seq<u8>;

    open spec fn view(&self) -> Seq<u8> {
        self.0@
    }
}

/// `n` zero bytes.
pub open spec fn zero_bytes(n: nat) -> Seq<u8> {
    Seq::new(n, |i: int| 0u8)
}

/// Places the bytes of a shorter hash at the end of a longer one whose leading
/// bytes are zero.
fn pad_front<const M: usize, const N: usize>(small: &[u8; M]) -> (wide: [u8; N])
    requires
        M <= N,
    ensures
        wide@ == zero_bytes((N - M) as nat) + small@,
{
    let mut ret = [0u8; N];
    let offset = N - M;
    for i in 0..M
        invariant
            M <= N,
            offset == N - M,
            ret@.len() == N,
            forall|j: int| 0 <= j < offset ==> ret@[j] == 0,
            forall|j: int| 0 <= j < i ==> ret@[offset + j] == small@[j],
            forall|j: int| offset + i <= j < N ==> ret@[j] == 0,
    {
        ret[offset + i] = small[i];
    }
    assert(ret@ =~= zero_bytes((N - M) as nat) + small@);
    ret
}

/// Keeps the last `M` bytes of a longer hash.
fn keep_back<const N: usize, const M: usize>(large: &[u8; N]) -> (small: [u8; M])
    requires
        M <= N,
    ensures
        small@ == large@.skip((N - M) as int),
{
    let mut ret = [0u8; M];
    let offset = N - M;
    for i in 0..M
        invariant
            M <= N,
            offset == N - M,
            ret@.len() == M,
            forall|j: int| 0 <= j < i ==> ret@[j] == large@[offset + j],
    {
        ret[i] = large[offset + i];
    }
    assert(ret@ =~= large@.skip((N - M) as int));
    ret
}

impl From<H160> for H256 {
    fn from(value: H160) -> (r: H256)
        ensures
            r@ == zero_bytes(12) + value@,
    {
        let r = H256(pad_front::<20, 32>(&value.0));
        assert(r.0 =~= [0, 0, 0, 0, 0, 0, 0, 0, 0, 0, 0, 0, value.0[0], value.0[1], value.0[2], value.0[3], value.0[4], value.0[5], value.0[6], value.0[7], value.0[8], value.0[9], value.0[10], value.0[11], value.0[12], value.0[13], value.0[14], value.0[15], value.0[16], value.0[17], value.0[18], value.0[19]]);
        r
    }
}

impl FromSpecImpl<H160> for H256 {
    open spec fn obeys_from_spec() -> bool {
        true
    }

    open spec fn from_spec(v: H160) -> H256 {
        H256([0, 0, 0, 0, 0, 0, 0, 0, 0, 0, 0, 0, v.0[0], v.0[1], v.0[2], v.0[3], v.0[4], v.0[5], v.0[6], v.0[7], v.0[8], v.0[9], v.0[10], v.0[11], v.0[12], v.0[13], v.0[14], v.0[15], v.0[16], v.0[17], v.0[18], v.0[19]])
    }
}

impl From<H256> for H160 {
    fn from(value: H256) -> (r: H160)
        ensures
            r@ == value@.skip(12),
    {
        let r = H160(keep_back::<32, 20>(&value.0));
        assert(r.0 =~= [value.0[12], value.0[13], value.0[14], value.0[15], value.0[16], value.0[17], value.0[18], value.0[19], value.0[20], value.0[21], value.0[22], value.0[23], value.0[24], value.0[25], value.0[26], value.0[27], value.0[28], value.0[29], value.0[30], value.0[31]]);
        r
    }
}

impl FromSpecImpl<H256> for H160 {
    open spec fn obeys_from_spec() -> bool {
        true
    }

    open spec fn from_spec(v: H256) -> H160 {
        H160([v.0[12], v.0[13], v.0[14], v.0[15], v.0[16], v.0[17], v.0[18], v.0[19], v.0[20], v.0[21], v.0[22], v.0[23], v.0[24], v.0[25], v.0[26], v.0[27], v.0[28], v.0[29], v.0[30], v.0[31]])
    }
}

impl From<H256> for H512 {
    fn from(value: H256) -> (r: H512)
        ensures
            r@ == zero_bytes(32) + value@,
    {
        let r = H512(pad_front::<32, 64>(&value.0));
        assert(r.0 =~= [0, 0, 0, 0, 0, 0, 0, 0, 0, 0, 0, 0, 0, 0, 0, 0, 0, 0, 0, 0, 0, 0, 0, 0, 0, 0, 0, 0, 0, 0, 0, 0, value.0[0], value.0[1], value.0[2], value.0[3], value.0[4], value.0[5], value.0[6], value.0[7], value.0[8], value.0[9], value.0[10], value.0[11], value.0[12], value.0[13], value.0[14], value.0[15], value.0[16], value.0[17], value.0[18], value.0[19], value.0[20], value.0[21], value.0[22], value.0[23], value.0[24], value.0[25], value.0[26], value.0[27], value.0[28], value.0[29], value.0[30], value.0[31]]);
        r
    }
}

impl FromSpecImpl<H256> for H512 {
    open spec fn obeys_from_spec() -> bool {
        true
    }

    open spec fn from_spec(v: H256) -> H512 {
        H512([0, 0, 0, 0, 0, 0, 0, 0, 0, 0, 0, 0, 0, 0, 0, 0, 0, 0, 0, 0, 0, 0, 0, 0, 0, 0, 0, 0, 0, 0, 0, 0, v.0[0], v.0[1], v.0[2], v.0[3], v.0[4], v.0[5], v.0[6], v.0[7], v.0[8], v.0[9], v.0[10], v.0[11], v.0[12], v.0[13], v.0[14], v.0[15], v.0[16], v.0[17], v.0[18], v.0[19], v.0[20], v.0[21], v.0[22], v.0[23], v.0[24], v.0[25], v.0[26], v.0[27], v.0[28], v.0[29], v.0[30], v.0[31]])
    }
}

impl From<H512> for H256 {
    fn from(value: H512) -> (r: H256)
        ensures
            r@ == value@.skip(32),
    {
        let r = H256(keep_back::<64, 32>(&value.0));
        assert(r.0 =~= [value.0[32], value.0[33], value.0[34], value.0[35], value.0[36], value.0[37], value.0[38], value.0[39], value.0[40], value.0[41], value.0[42], value.0[43], value.0[44], value.0[45], value.0[46], value.0[47], value.0[48], value.0[49], value.0[50], value.0[51], value.0[52], value.0[53], value.0[54], value.0[55], value.0[56], value.0[57], value.0[58], value.0[59], value.0[60], value.0[61], value.0[62], value.0[63]]);
        r
    }
}

impl FromSpecImpl<H512> for H256 {
    open spec fn obeys_from_spec() -> bool {
        true
    }

    open spec fn from_spec(v: H512) -> H256 {
        H256([v.0[32], v.0[33], v.0[34], v.0[35], v.0[36], v.0[37], v.0[38], v.0[39], v.0[40], v.0[41], v.0[42], v.0[43], v.0[44], v.0[45], v.0[46], v.0[47], v.0[48], v.0[49], v.0[50], v.0[51], v.0[52], v.0[53], v.0[54], v.0[55], v.0[56], v.0[57], v.0[58], v.0[59], v.0[60], v.0[61], v.0[62], v.0[63]])
    }
}

impl From<H160> for H512 {
    fn from(value: H160) -> (r: H512)
        ensures
            r@ == zero_bytes(44) + value@,
    {
        let r = H512(pad_front::<20, 64>(&value.0));
        assert(r.0 =~= [0, 0, 0, 0, 0, 0, 0, 0, 0, 0, 0, 0, 0, 0, 0, 0, 0, 0, 0, 0, 0, 0, 0, 0, 0, 0, 0, 0, 0, 0, 0, 0, 0, 0, 0, 0, 0, 0, 0, 0, 0, 0, 0, 0, value.0[0], value.0[1], value.0[2], value.0[3], value.0[4], value.0[5], value.0[6], value.0[7], value.0[8], value.0[9], value.0[10], value.0[11], value.0[12], value.0[13], value.0[14], value.0[15], value.0[16], value.0[17], value.0[18], value.0[19]]);
        r
    }
}

impl FromSpecImpl<H160> for H512 {
    open spec fn obeys_from_spec() -> bool {
        true
    }

    open spec fn from_spec(v: H160) -> H512 {
        H512([0, 0, 0, 0, 0, 0, 0, 0, 0, 0, 0, 0, 0, 0, 0, 0, 0, 0, 0, 0, 0, 0, 0, 0, 0, 0, 0, 0, 0, 0, 0, 0, 0, 0, 0, 0, 0, 0, 0, 0, 0, 0, 0, 0, v.0[0], v.0[1], v.0[2], v.0[3], v.0[4], v.0[5], v.0[6], v.0[7], v.0[8], v.0[9], v.0[10], v.0[11], v.0[12], v.0[13], v.0[14], v.0[15], v.0[16], v.0[17], v.0[18], v.0[19]])
    }
}

impl From<H512> for H160 {
    fn from(value: H512) -> (r: H160)
        ensures
            r@ == value@.skip(44),
    {
        let r = H160(keep_back::<64, 20>(&value.0));
        assert(r.0 =~= [value.0[44], value.0[45], value.0[46], value.0[47], value.0[48], value.0[49], value.0[50], value.0[51], value.0[52], value.0[53], value.0[54], value.0[55], value.0[56], value.0[57], value.0[58], value.0[59], value.0[60], value.0[61], value.0[62], value.0[63]]);
        r
    }
}

impl FromSpecImpl<H512> for H160 {
    open spec fn obeys_from_spec() -> bool {
        true
    }

    open spec fn from_spec(v: H512) -> H160 {
        H160([v.0[44], v.0[45], v.0[46], v.0[47], v.0[48], v.0[49], v.0[50], v.0[51], v.0[52], v.0[53], v.0[54], v.0[55], v.0[56], v.0[57], v.0[58], v.0[59], v.0[60], v.0[61], v.0[62], v.0[63]])
    }
}

impl H128 {
    /// Creates a hash from hexadecimal text, read in big-endian order. A leading
    /// `0x` is dropped and white space between digits is skipped. Fails on a
    /// character that is not a hex digit, and on any length other than 16 bytes.
    pub fn from_hex_str(text: &str) -> (res: Result<H128, HexDigitError>)
        ensures
            match res {
                Ok(hash) => read_exact_bytes(hex_items(strip_hex_prefix(text@)), 16) == Ok::<
                    Seq<u8>,
                    HexDigitError,
                >(hash@),
                Err(e) => read_exact_bytes(hex_items(strip_hex_prefix(text@)), 16) == Err::<
                    Seq<u8>,
                    HexDigitError,
                >(e),
            },
    {
        match parse_fixed_hex::<16>(text) {
            Ok(bytes) => Ok(H128(bytes)),
            Err(e) => Err(e),
        }
    }
}

impl core::str::FromStr for H128 {
    type Err = HexDigitError;

    fn from_str(text: &str) -> (res: Result<H128, HexDigitError>)
        ensures
            match res {
                Ok(hash) => read_exact_bytes(hex_items(strip_hex_prefix(text@)), 16) == Ok::<
                    Seq<u8>,
                    HexDigitError,
                >(hash@),
                Err(e) => read_exact_bytes(hex_items(strip_hex_prefix(text@)), 16) == Err::<
                    Seq<u8>,
                    HexDigitError,
                >(e),
            },
    {
        H128::from_hex_str(text)
    }
}

impl H160 {
    /// Creates a hash from hexadecimal text, read in big-endian order. A leading
    /// `0x` is dropped and white space between digits is skipped. Fails on a
    /// character that is not a hex digit, and on any length other than 20 bytes.
    pub fn from_hex_str(text: &str) -> (res: Result<H160, HexDigitError>)
        ensures
            match res {
                Ok(hash) => read_exact_bytes(hex_items(strip_hex_prefix(text@)), 20) == Ok::<
                    Seq<u8>,
                    HexDigitError,
                >(hash@),
                Err(e) => read_exact_bytes(hex_items(strip_hex_prefix(text@)), 20) == Err::<
                    Seq<u8>,
                    HexDigitError,
                >(e),
            },
    {
        match parse_fixed_hex::<20>(text) {
            Ok(bytes) => Ok(H160(bytes)),
            Err(e) => Err(e),
        }
    }
}

impl core::str::FromStr for H160 {
    type Err = HexDigitError;

    fn from_str(text: &str) -> (res: Result<H160, HexDigitError>)
        ensures
            match res {
                Ok(hash) => read_exact_bytes(hex_items(strip_hex_prefix(text@)), 20) == Ok::<
                    Seq<u8>,
                    HexDigitError,
                >(hash@),
                Err(e) => read_exact_bytes(hex_items(strip_hex_prefix(text@)), 20) == Err::<
                    Seq<u8>,
                    HexDigitError,
                >(e),
            },
    {
        H160::from_hex_str(text)
    }
}

impl H256 {
    /// Creates a hash from hexadecimal text, read in big-endian order. A leading
    /// `0x` is dropped and white space between digits is skipped. Fails on a
    /// character that is not a hex digit, and on any length other than 32 bytes.
    pub fn from_hex_str(text: &str) -> (res: Result<H256, HexDigitError>)
        ensures
            match res {
                Ok(hash) => read_exact_bytes(hex_items(strip_hex_prefix(text@)), 32) == Ok::<
                    Seq<u8>,
                    HexDigitError,
                >(hash@),
                Err(e) => read_exact_bytes(hex_items(strip_hex_prefix(text@)), 32) == Err::<
                    Seq<u8>,
                    HexDigitError,
                >(e),
            },
    {
        match parse_fixed_hex::<32>(text) {
            Ok(bytes) => Ok(H256(bytes)),
            Err(e) => Err(e),
        }
    }
}

impl core::str::FromStr for H256 {
    type Err = HexDigitError;

    fn from_str(text: &str) -> (res: Result<H256, HexDigitError>)
        ensures
            match res {
                Ok(hash) => read_exact_bytes(hex_items(strip_hex_prefix(text@)), 32) == Ok::<
                    Seq<u8>,
                    HexDigitError,
                >(hash@),
                Err(e) => read_exact_bytes(hex_items(strip_hex_prefix(text@)), 32) == Err::<
                    Seq<u8>,
                    HexDigitError,
                >(e),
            },
    {
        H256::from_hex_str(text)
    }
}

impl H512 {
    /// Creates a hash from hexadecimal text, read in big-endian order. A leading
    /// `0x` is dropped and white space between digits is skipped. Fails on a
    /// character that is not a hex digit, and on any length other than 64 bytes.
    pub fn from_hex_str(text: &str) -> (res: Result<H512, HexDigitError>)
        ensures
            match res {
                Ok(hash) => read_exact_bytes(hex_items(strip_hex_prefix(text@)), 64) == Ok::<
                    Seq<u8>,
                    HexDigitError,
                >(hash@),
                Err(e) => read_exact_bytes(hex_items(strip_hex_prefix(text@)), 64) == Err::<
                    Seq<u8>,
                    HexDigitError,
                >(e),
            },
    {
        match parse_fixed_hex::<64>(text) {
            Ok(bytes) => Ok(H512(bytes)),
            Err(e) => Err(e),
        }
    }
}

impl core::str::FromStr for H512 {
    type Err = HexDigitError;

    fn from_str(text: &str) -> (res: Result<H512, HexDigitError>)
        ensures
            match res {
                Ok(hash) => read_exact_bytes(hex_items(strip_hex_prefix(text@)), 64) == Ok::<
                    Seq<u8>,
                    HexDigitError,
                >(hash@),
                Err(e) => read_exact_bytes(hex_items(strip_hex_prefix(text@)), 64) == Err::<
                    Seq<u8>,
                    HexDigitError,
                >(e),
            },
    {
        H512::from_hex_str(text)
    }
}
/// A `H160` placed into a `H256` (after 12 zero bytes) and cut back out of it
/// is unchanged.
pub proof fn law_h160_into_h256_round_trip(x: H160)
    ensures
        (<H256 as FromSpec<H160>>::from_spec(x))@ == zero_bytes(12) + x@,
        <H160 as FromSpec<H256>>::from_spec(<H256 as FromSpec<H160>>::from_spec(x)) == x,
{
    let y = <H256 as FromSpec<H160>>::from_spec(x);
    assert(y@ =~= zero_bytes(12) + x@);
    assert(<H160 as FromSpec<H256>>::from_spec(y).0 =~= x.0);
}

/// Cutting the last 20 bytes out of a `H256` and placing them back gives the `H256`
/// that was started from exactly when its first 12 bytes are zero.
pub proof fn law_h256_into_h160_round_trip(y: H256)
    ensures
        (<H160 as FromSpec<H256>>::from_spec(y))@ == y@.skip(12),
        <H256 as FromSpec<H160>>::from_spec(<H160 as FromSpec<H256>>::from_spec(y)) == y <==> y@.take(
            12,
        ) == zero_bytes(12),
{
    let x = <H160 as FromSpec<H256>>::from_spec(y);
    let z = <H256 as FromSpec<H160>>::from_spec(x);
    assert(x@ =~= y@.skip(12));
    assert(z@ =~= zero_bytes(12) + y@.skip(12));
    if y@.take(12) == zero_bytes(12) {
        assert(y@ =~= y@.take(12) + y@.skip(12));
        assert(z.0 =~= y.0);
    }
    if z == y {
        assert(y@.take(12) =~= zero_bytes(12));
    }
}

/// A `H256` placed into a `H512` (after 32 zero bytes) and cut back out of it
/// is unchanged.
pub proof fn law_h256_into_h512_round_trip(x: H256)
    ensures
        (<H512 as FromSpec<H256>>::from_spec(x))@ == zero_bytes(32) + x@,
        <H256 as FromSpec<H512>>::from_spec(<H512 as FromSpec<H256>>::from_spec(x)) == x,
{
    let y = <H512 as FromSpec<H256>>::from_spec(x);
    assert(y@ =~= zero_bytes(32) + x@);
    assert(<H256 as FromSpec<H512>>::from_spec(y).0 =~= x.0);
}

/// Cutting the last 32 bytes out of a `H512` and placing them back gives the `H512`
/// that was started from exactly when its first 32 bytes are zero.
pub proof fn law_h512_into_h256_round_trip(y: H512)
    ensures
        (<H256 as FromSpec<H512>>::from_spec(y))@ == y@.skip(32),
        <H512 as FromSpec<H256>>::from_spec(<H256 as FromSpec<H512>>::from_spec(y)) == y <==> y@.take(
            32,
        ) == zero_bytes(32),
{
    let x = <H256 as FromSpec<H512>>::from_spec(y);
    let z = <H512 as FromSpec<H256>>::from_spec(x);
    assert(x@ =~= y@.skip(32));
    assert(z@ =~= zero_bytes(32) + y@.skip(32));
    if y@.take(32) == zero_bytes(32) {
        assert(y@ =~= y@.take(32) + y@.skip(32));
        assert(z.0 =~= y.0);
    }
    if z == y {
        assert(y@.take(32) =~= zero_bytes(32));
    }
}

/// A `H160` placed into a `H512` (after 44 zero bytes) and cut back out of it
/// is unchanged.
pub proof fn law_h160_into_h512_round_trip(x: H160)
    ensures
        (<H512 as FromSpec<H160>>::from_spec(x))@ == zero_bytes(44) + x@,
        <H160 as FromSpec<H512>>::from_spec(<H512 as FromSpec<H160>>::from_spec(x)) == x,
{
    let y = <H512 as FromSpec<H160>>::from_spec(x);
    assert(y@ =~= zero_bytes(44) + x@);
    assert(<H160 as FromSpec<H512>>::from_spec(y).0 =~= x.0);
}

/// Cutting the last 20 bytes out of a `H512` and placing them back gives the `H512`
/// that was started from exactly when its first 44 bytes are zero.
pub proof fn law_h512_into_h160_round_trip(y: H512)
    ensures
        (<H160 as FromSpec<H512>>::from_spec(y))@ == y@.skip(44),
        <H512 as FromSpec<H160>>::from_spec(<H160 as FromSpec<H512>>::from_spec(y)) == y <==> y@.take(
            44,
        ) == zero_bytes(44),
{
    let x = <H160 as FromSpec<H512>>::from_spec(y);
    let z = <H512 as FromSpec<H160>>::from_spec(x);
    assert(x@ =~= y@.skip(44));
    assert(z@ =~= zero_bytes(44) + y@.skip(44));
    if y@.take(44) == zero_bytes(44) {
        assert(y@ =~= y@.take(44) + y@.skip(44));
        assert(z.0 =~= y.0);
    }
    if z == y {
        assert(y@.take(44) =~= zero_bytes(44));
    }
}
} // verus!
