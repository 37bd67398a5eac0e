//! Reading a fixed number of bytes from hexadecimal text, as the fixed-size hash
//! types do in `from_str`. The digit-pairing itself is `rustc_hex`'s `FromHexIter`.
use rustc_hex::FromHexIter;
use vstd::prelude::*;

verus! {

/// Why hexadecimal text could not be read; the cases of `rustc_hex::FromHexError`.
#[derive(Clone, Copy, Debug, PartialEq, Eq, Structural)]
pub enum HexDigitError {
    /// A character that is neither a hex digit nor white space, and its byte index.
    InvalidHexCharacter(char, usize),
    /// Too few or too many digits, or an odd number of them.
    InvalidHexLength,
}

/// One item yielded while reading hexadecimal text: a byte or the reason for stopping.
pub type HexItem = Result<u8, HexDigitError>;

#[verifier::external_type_specification]
#[verifier::external_body]
pub struct ExFromHexIter<'a>(FromHexIter<'a>);

#[verifier::external_type_specification]
#[verifier::external_body]
pub struct ExFromHexError(rustc_hex::FromHexError);

/// The characters that are skipped between hex digits.
pub open spec fn is_hex_space(c: char) -> bool {
    c == ' ' || c == '\r' || c == '\n' || c == '\t'
}

/// The value of a hex digit (either case), or `None` for any other character.
pub open spec fn hex_digit_value(c: char) -> Option<u8> {
    let v = c as int;
    if 48 <= v <= 57 {
        Some((v - 48) as u8)
    } else if 97 <= v <= 102 {
        Some((v - 87) as u8)
    } else if 65 <= v <= 70 {
        Some((v - 55) as u8)
    } else {
        None
    }
}

/// The items read from position `i` of `text` on, where `high` is the first digit of
/// a byte already begun: white space is skipped, two digits make a byte (the first
/// is the high nibble), a character that is neither stops the reading with its
/// position, and a digit left alone at the end stops it with a length error.
pub open spec fn hex_items_from(text: Seq<char>, i: nat, high: Option<u8>) -> Seq<HexItem>
    decreases text.len() - i,
{
    if i >= text.len() {
        if high is Some {
            seq![Err(HexDigitError::InvalidHexLength)]
        } else {
            Seq::empty()
        }
    } else if is_hex_space(text[i as int]) {
        hex_items_from(text, i + 1, high)
    } else {
        match hex_digit_value(text[i as int]) {
            None => seq![Err(HexDigitError::InvalidHexCharacter(text[i as int], i as usize))],
            Some(d) => match high {
                None => hex_items_from(text, i + 1, Some(d)),
                Some(h) => seq![Ok((h * 16 + d) as u8)] + hex_items_from(text, i + 1, None),
            },
        }
    }
}

/// The items that `rustc_hex::FromHexIter::new(text)` yields over its whole life.
pub open spec fn hex_items(text: Seq<char>) -> Seq<HexItem> {
    hex_items_from(text, 0, None)
}

/// The items that a `FromHexIter` has still to yield.
pub uninterp spec fn hex_iter_pending(iter: FromHexIter) -> Seq<HexItem>;

/// `rustc_hex::FromHexIter::new`. Claimed: the new iterator has all of `hex_items(text)`
/// still to yield, the decoding stated above. (An invalid character is reported with
/// its byte index, which is its character index because every character before it is
/// ASCII.)
#[verifier::external_body]
fn hex_iter_new<'a>(text: &'a str) -> (iter: FromHexIter<'a>)
    ensures
        hex_iter_pending(iter) == hex_items(text@),
{
    FromHexIter::new(text)
}

/// `<rustc_hex::FromHexIter as Iterator>::next`, with `FromHexError` turned into
/// `HexDigitError` case by case. Claimed: it yields the first pending item and drops
/// it, or `None` when nothing is pending; the iterator is fused (after an error or the
/// end it keeps yielding `None`).
#[verifier::external_body]
fn hex_iter_next(iter: &mut FromHexIter) -> (item: Option<HexItem>)
    ensures
        hex_iter_pending(*old(iter)).len() == 0 ==> item is None && hex_iter_pending(
            *final(iter),
        ).len() == 0,
        hex_iter_pending(*old(iter)).len() > 0 ==> item == Some(hex_iter_pending(*old(iter))[0])
            && hex_iter_pending(*final(iter)) == hex_iter_pending(*old(iter)).drop_first(),
{
    match iter.next() {
        None => None,
        Some(Ok(byte)) => Some(Ok(byte)),
        Some(Err(rustc_hex::FromHexError::InvalidHexCharacter(c, idx))) => Some(
            Err(HexDigitError::InvalidHexCharacter(c, idx)),
        ),
        Some(Err(rustc_hex::FromHexError::InvalidHexLength)) => Some(
            Err(HexDigitError::InvalidHexLength),
        ),
    }
}

/// The text with one leading `0x` removed, if it has one.
pub open spec fn strip_hex_prefix(text: Seq<char>) -> Seq<char> {
    if text.len() >= 2 && text[0] == '0' && text[1] == 'x' {
        text.skip(2)
    } else {
        text
    }
}

/// Reading exactly `n` bytes from a stream of items: the first `n` items must be
/// bytes (an error among them is the result), and nothing may follow them.
pub open spec fn read_exact_bytes(items: Seq<HexItem>, n: nat) -> Result<Seq<u8>, HexDigitError>
    decreases n,
{
    if n == 0 {
        if items.len() == 0 {
            Ok(Seq::empty())
        } else {
            Err(HexDigitError::InvalidHexLength)
        }
    } else if items.len() == 0 {
        Err(HexDigitError::InvalidHexLength)
    } else {
        match items[0] {
            Err(e) => Err(e),
            Ok(b) => match read_exact_bytes(items.drop_first(), (n - 1) as nat) {
                Ok(rest) => Ok(seq![b] + rest),
                Err(e) => Err(e),
            },
        }
    }
}

/// After `k` bytes have been read, the outcome is fixed by the remaining items.
proof fn lemma_read_exact_bytes_prefix(items: Seq<HexItem>, bytes: Seq<u8>, n: nat)
    requires
        bytes.len() <= n,
        bytes.len() <= items.len(),
        forall|j: int| 0 <= j < bytes.len() ==> items[j] == Ok::<u8, HexDigitError>(bytes[j]),
    ensures
        read_exact_bytes(items, n) == match read_exact_bytes(
            items.skip(bytes.len() as int),
            (n - bytes.len()) as nat,
        ) {
            Ok(rest) => Ok(bytes + rest),
            Err(e) => Err(e),
        },
    decreases bytes.len(),
{
    if bytes.len() == 0 {
        assert(items.skip(0) =~= items);
        assert(forall|r: Seq<u8>| bytes + r =~= r);
    } else {
        let tail = bytes.drop_first();
        lemma_read_exact_bytes_prefix(items.drop_first(), tail, (n - 1) as nat);
        assert(items.drop_first().skip(tail.len() as int) =~= items.skip(bytes.len() as int));
        assert(items[0] == Ok::<u8, HexDigitError>(bytes[0]));
        assert(forall|r: Seq<u8>| seq![bytes[0]] + (tail + r) =~= bytes + r);
    }
}

/// Reading every byte from a stream of items: all of them when they are all bytes,
/// otherwise the first error.
pub open spec fn read_all_bytes(items: Seq<HexItem>) -> Result<Seq<u8>, HexDigitError>
    decreases items.len(),
{
    if items.len() == 0 {
        Ok(Seq::empty())
    } else {
        match items[0] {
            Err(e) => Err(e),
            Ok(b) => match read_all_bytes(items.drop_first()) {
                Ok(rest) => Ok(seq![b] + rest),
                Err(e) => Err(e),
            },
        }
    }
}

/// `bytes` put in front of a successful reading; an error stays as it is.
pub open spec fn prepend_bytes(
    bytes: Seq<u8>,
    read: Result<Seq<u8>, HexDigitError>,
) -> Result<Seq<u8>, HexDigitError> {
    match read {
        Ok(rest) => Ok(bytes + rest),
        Err(e) => Err(e),
    }
}

/// `text` without a leading `0x`, like `text.strip_prefix("0x").unwrap_or(text)`.
fn strip_0x(text: &str) -> (rest: &str)
    ensures
        rest@ == strip_hex_prefix(text@),
{
    let len = text.unicode_len();
    if len >= 2 && text.get_char(0) == '0' && text.get_char(1) == 'x' {
        text.substring_char(2, len)
    } else {
        text
    }
}

/// Reads exactly `N` bytes of big-endian hexadecimal text, with an optional `0x`
/// prefix; white space between digits is skipped.
pub fn parse_fixed_hex<const N: usize>(text: &str) -> (res: Result<[u8; N], HexDigitError>)
    ensures
        match res {
            Ok(bytes) => read_exact_bytes(hex_items(strip_hex_prefix(text@)), N as nat) == Ok::<
                Seq<u8>,
                HexDigitError,
            >(bytes@),
            Err(e) => read_exact_bytes(hex_items(strip_hex_prefix(text@)), N as nat) == Err::<
                Seq<u8>,
                HexDigitError,
            >(e),
        },
{
    let digits = strip_0x(text);
    let ghost items = hex_items(digits@);
    let mut iter = hex_iter_new(digits);
    let mut result = [0u8; N];
    let mut i: usize = 0;
    while i < N
        invariant
            i <= N,
            result@.len() == N,
            items == hex_items(digits@),
            digits@ == strip_hex_prefix(text@),
            i <= items.len(),
            hex_iter_pending(iter) == items.skip(i as int),
            forall|j: int| 0 <= j < i ==> items[j] == Ok::<u8, HexDigitError>(result@[j]),
        decreases N - i,
    {
        let item = hex_iter_next(&mut iter);
        match item {
            None => {
                proof {
                    lemma_read_exact_bytes_prefix(items, result@.take(i as int), N as nat);
                    assert(items.skip(i as int).len() == 0);
                }
                return Err(HexDigitError::InvalidHexLength);
            },
            Some(Err(e)) => {
                proof {
                    lemma_read_exact_bytes_prefix(items, result@.take(i as int), N as nat);
                    assert(items.skip(i as int)[0] == items[i as int]);
                }
                return Err(e);
            },
            Some(Ok(byte)) => {
                proof {
                    assert(items.skip(i as int)[0] == items[i as int]);
                    assert(items.skip(i as int).drop_first() =~= items.skip(i + 1));
                }
                result[i] = byte;
                i = i + 1;
            },
        }
    }
    proof {
        assert(result@.take(N as int) =~= result@);
        lemma_read_exact_bytes_prefix(items, result@, N as nat);
    }
    match hex_iter_next(&mut iter) {
        Some(_) => Err(HexDigitError::InvalidHexLength),
        None => {
            assert(result@ + Seq::<u8>::empty() =~= result@);
            Ok(result)
        },
    }
}

/// Reads all bytes of hexadecimal text, with an optional `0x` prefix; white space
/// between digits is skipped. Fails on a character that is not a hex digit and on an
/// odd number of digits.
pub fn parse_hex_bytes(text: &str) -> (res: Result<Vec<u8>, HexDigitError>)
    ensures
        match res {
            Ok(bytes) => read_all_bytes(hex_items(strip_hex_prefix(text@))) == Ok::<
                Seq<u8>,
                HexDigitError,
            >(bytes@),
            Err(e) => read_all_bytes(hex_items(strip_hex_prefix(text@))) == Err::<
                Seq<u8>,
                HexDigitError,
            >(e),
        },
{
    let digits = strip_0x(text);
    let ghost items = hex_items(digits@);
    let mut iter = hex_iter_new(digits);
    let mut bytes: Vec<u8> = Vec::new();
    assert(bytes@ + Seq::<u8>::empty() =~= bytes@);
    loop
        invariant
            items == hex_items(digits@),
            digits@ == strip_hex_prefix(text@),
            read_all_bytes(items) == prepend_bytes(bytes@, read_all_bytes(hex_iter_pending(iter))),
        decreases hex_iter_pending(iter).len(),
    {
        let ghost pending = hex_iter_pending(iter);
        match hex_iter_next(&mut iter) {
            None => {
                assert(bytes@ + Seq::<u8>::empty() =~= bytes@);
                return Ok(bytes);
            },
            Some(Err(e)) => {
                return Err(e);
            },
            Some(Ok(b)) => {
                proof {
                    assert(forall|r: Seq<u8>| bytes@.push(b) + r =~= bytes@ + (seq![b] + r));
                }
                bytes.push(b);
            },
        }
    }
}

/// The lower-case hex digit for a nibble `n < 16`.
pub open spec fn hex_digit_char(n: nat) -> char {
    if n < 10 {
        (n + 48) as char
    } else {
        (n + 87) as char
    }
}

/// Bytes written as lower-case hex text, two digits per byte, high nibble first.
pub open spec fn hex_text(bytes: Seq<u8>) -> Seq<char> {
    Seq::new(
        2 * bytes.len(),
        |i: int|
            if i % 2 == 0 {
                hex_digit_char((bytes[i / 2] / 16) as nat)
            } else {
                hex_digit_char((bytes[i / 2] % 16) as nat)
            },
    )
}

/// Every byte of a sequence as a successfully read item.
pub open spec fn byte_items(bytes: Seq<u8>) -> Seq<HexItem> {
    Seq::new(bytes.len(), |i: int| Ok::<u8, HexDigitError>(bytes[i]))
}

proof fn lemma_hex_digit_char(n: nat)
    requires
        n < 16,
    ensures
        hex_digit_value(hex_digit_char(n)) == Some(n as u8),
        !is_hex_space(hex_digit_char(n)),
        hex_digit_char(n) != 'x',
{
    if n < 10 {
        assert(((n + 48) as char) as int == n + 48);
    } else {
        assert(((n + 87) as char) as int == n + 87);
    }
}

proof fn lemma_hex_items_of_hex_text(bytes: Seq<u8>, k: nat)
    requires
        k <= bytes.len(),
    ensures
        hex_items_from(hex_text(bytes), 2 * k, None) == byte_items(bytes.skip(k as int)),
    decreases bytes.len() - k,
{
    let t = hex_text(bytes);
    if k == bytes.len() {
        assert(byte_items(bytes.skip(k as int)) =~= Seq::<HexItem>::empty());
    } else {
        let b = bytes[k as int];
        let h = (b / 16) as nat;
        let d = (b % 16) as nat;
        assert((2 * k) % 2 == 0 && (2 * k) / 2 == k);
        assert((2 * k + 1) % 2 == 1 && (2 * k + 1) / 2 == k);
        assert(t[(2 * k) as int] == hex_digit_char(h));
        assert(t[(2 * k + 1) as int] == hex_digit_char(d));
        lemma_hex_digit_char(h);
        lemma_hex_digit_char(d);
        lemma_hex_items_of_hex_text(bytes, k + 1);
        assert(2 * (k + 1) == 2 * k + 1 + 1);
        assert(((h as u8) * 16 + (d as u8)) as u8 == b);
        assert(hex_items_from(t, 2 * k + 1, Some(h as u8)) == seq![Ok::<u8, HexDigitError>(b)]
            + hex_items_from(t, 2 * k + 2, None));
        assert(hex_items_from(t, 2 * k, None) == hex_items_from(t, 2 * k + 1, Some(h as u8)));
        assert(seq![Ok::<u8, HexDigitError>(b)] + byte_items(bytes.skip((k + 1) as int)) =~= byte_items(
            bytes.skip(k as int),
        ));
    }
}

proof fn lemma_read_all_byte_items(bytes: Seq<u8>)
    ensures
        read_all_bytes(byte_items(bytes)) == Ok::<Seq<u8>, HexDigitError>(bytes),
    decreases bytes.len(),
{
    if bytes.len() == 0 {
        assert(byte_items(bytes) =~= Seq::<HexItem>::empty());
        assert(bytes =~= Seq::<u8>::empty());
    } else {
        assert(byte_items(bytes).drop_first() =~= byte_items(bytes.drop_first()));
        lemma_read_all_byte_items(bytes.drop_first());
        assert(seq![bytes[0]] + bytes.drop_first() =~= bytes);
    }
}

proof fn lemma_read_exact_byte_items(bytes: Seq<u8>)
    ensures
        read_exact_bytes(byte_items(bytes), bytes.len()) == Ok::<Seq<u8>, HexDigitError>(bytes),
    decreases bytes.len(),
{
    if bytes.len() == 0 {
        assert(byte_items(bytes) =~= Seq::<HexItem>::empty());
        assert(bytes =~= Seq::<u8>::empty());
    } else {
        assert(byte_items(bytes).drop_first() =~= byte_items(bytes.drop_first()));
        lemma_read_exact_byte_items(bytes.drop_first());
        assert(seq![bytes[0]] + bytes.drop_first() =~= bytes);
    }
}

/// Dropping the `0x` prefix does not depend on the length of the text: `0x` followed
/// by any text gives that text back, and a text that does not begin with `0x` is
/// left as it is.
pub proof fn law_strip_hex_prefix(text: Seq<char>)
    ensures
        strip_hex_prefix(seq!['0', 'x'] + text) == text,
        !(text.len() >= 2 && text[0] == '0' && text[1] == 'x') ==> strip_hex_prefix(text) == text,
{
    let p = seq!['0', 'x'] + text;
    assert(p[0] == '0' && p[1] == 'x');
    assert(p.skip(2) =~= text);
}

/// Hex text read back gives the bytes it was written from, every byte in order and
/// none more: with or without a `0x` prefix, reading all bytes gives exactly `bytes`,
/// and reading exactly `bytes.len()` bytes (as the fixed-size hashes do) succeeds with
/// them.
pub proof fn law_hex_round_trip(bytes: Seq<u8>)
    ensures
        read_all_bytes(hex_items(strip_hex_prefix(hex_text(bytes)))) == Ok::<
            Seq<u8>,
            HexDigitError,
        >(bytes),
        read_all_bytes(hex_items(strip_hex_prefix(seq!['0', 'x'] + hex_text(bytes)))) == Ok::<
            Seq<u8>,
            HexDigitError,
        >(bytes),
        read_exact_bytes(hex_items(strip_hex_prefix(hex_text(bytes))), bytes.len()) == Ok::<
            Seq<u8>,
            HexDigitError,
        >(bytes),
        read_exact_bytes(
            hex_items(strip_hex_prefix(seq!['0', 'x'] + hex_text(bytes))),
            bytes.len(),
        ) == Ok::<Seq<u8>, HexDigitError>(bytes),
{
    let t = hex_text(bytes);
    law_strip_hex_prefix(t);
    if t.len() >= 2 {
        assert(t[1] == hex_digit_char((bytes[0] % 16) as nat));
        lemma_hex_digit_char((bytes[0] % 16) as nat);
    }
    assert(strip_hex_prefix(t) == t);
    lemma_hex_items_of_hex_text(bytes, 0);
    assert(bytes.skip(0) =~= bytes);
    lemma_read_all_byte_items(bytes);
    lemma_read_exact_byte_items(bytes);
}

} // verus!
