//! Reading the private key that signs dispatch transactions from the text of the
//! key file.
use ethers::signers::{LocalWallet, WalletError};
use vstd::prelude::*;

verus! {

#[verifier::external_type_specification]
#[verifier::external_body]
pub struct ExWalletError(WalletError);

/// Whether `<LocalWallet as FromStr>::from_str` (ethers-signers) accepts this text as a
/// private key.
pub uninterp spec fn private_key_parses(text: Seq<char>) -> bool;

/// The 32 secret-key bytes of the wallet that `<LocalWallet as FromStr>::from_str` makes
/// of this text.
pub uninterp spec fn parsed_private_key(text: Seq<char>) -> Seq<u8>;

/// `<LocalWallet as FromStr>::from_str` (ethers-signers), which hex-decodes the text,
/// checks that it is 32 bytes, and builds a secp256k1 signing key from them (a nonzero
/// scalar below the group order). The wallet is handed out as the bytes of its signing
/// key. Claimed: it succeeds exactly when the text parses, and then gives that key's
/// bytes; which `WalletError` a failure carries is not stated.
#[verifier::external_body]
fn private_key_from_str(text: &str) -> (res: Result<[u8; 32], WalletError>)
    ensures
        res is Ok <==> private_key_parses(text@),
        res matches Ok(key) ==> key@ == parsed_private_key(text@),
{
    match text.parse::<LocalWallet>() {
        Ok(wallet) => Ok(wallet.signer().to_bytes().into()),
        Err(e) => Err(e),
    }
}

/// The characters with the Unicode `White_Space` property, which `str::trim` removes.
pub open spec fn is_white_space(c: char) -> bool {
    let v = c as u32;
    ||| 0x09 <= v <= 0x0D
    ||| v == 0x20
    ||| v == 0x85
    ||| v == 0xA0
    ||| v == 0x1680
    ||| 0x2000 <= v <= 0x200A
    ||| v == 0x2028
    ||| v == 0x2029
    ||| v == 0x202F
    ||| v == 0x205F
    ||| v == 0x3000
}

/// The text without its leading white space.
pub open spec fn trim_start(text: Seq<char>) -> Seq<char>
    decreases text.len(),
{
    if text.len() > 0 && is_white_space(text[0]) {
        trim_start(text.drop_first())
    } else {
        text
    }
}

/// The text without its trailing white space.
pub open spec fn trim_end(text: Seq<char>) -> Seq<char>
    decreases text.len(),
{
    if text.len() > 0 && is_white_space(text.last()) {
        trim_end(text.drop_last())
    } else {
        text
    }
}

/// The text without leading and trailing white space, like `str::trim`.
pub open spec fn trimmed(text: Seq<char>) -> Seq<char> {
    trim_end(trim_start(text))
}

/// Leading white space does not survive `trim_start`.
proof fn lemma_trim_start_white_prefix(pre: Seq<char>, x: Seq<char>)
    requires
        forall|i: int| 0 <= i < pre.len() ==> is_white_space(#[trigger] pre[i]),
    ensures
        trim_start(pre + x) == trim_start(x),
    decreases pre.len(),
{
    if pre.len() > 0 {
        assert((pre + x)[0] == pre[0]);
        assert((pre + x).drop_first() =~= pre.drop_first() + x);
        lemma_trim_start_white_prefix(pre.drop_first(), x);
    } else {
        assert(pre + x =~= x);
    }
}

/// Trailing white space does not survive `trim_end`.
proof fn lemma_trim_end_white_suffix(x: Seq<char>, post: Seq<char>)
    requires
        forall|i: int| 0 <= i < post.len() ==> is_white_space(#[trigger] post[i]),
    ensures
        trim_end(x + post) == trim_end(x),
    decreases post.len(),
{
    if post.len() > 0 {
        assert((x + post).last() == post.last());
        assert((x + post).drop_last() =~= x + post.drop_last());
        lemma_trim_end_white_suffix(x, post.drop_last());
    } else {
        assert(x + post =~= x);
    }
}

/// White space around a key does not change what is read from a key file: a key
/// that neither begins nor ends with white space, with any white space before and
/// after it, trims to the key itself.
pub proof fn law_key_file_white_space(pre: Seq<char>, key: Seq<char>, post: Seq<char>)
    requires
        forall|i: int| 0 <= i < pre.len() ==> is_white_space(#[trigger] pre[i]),
        forall|i: int| 0 <= i < post.len() ==> is_white_space(#[trigger] post[i]),
        key.len() > 0,
        !is_white_space(key[0]),
        !is_white_space(key.last()),
    ensures
        trimmed(pre + key + post) == key,
{
    assert(pre + key + post =~= pre + (key + post));
    lemma_trim_start_white_prefix(pre, key + post);
    assert((key + post)[0] == key[0]);
    assert(trim_start(key + post) == key + post);
    lemma_trim_end_white_suffix(key, post);
    assert(trim_end(key) == key);
}

/// Whether a character is an ASCII letter or digit, as the characters of a key text
/// (hex digits, and the `x` of a `0x` prefix) are.
pub open spec fn is_ascii_alphanumeric(c: char) -> bool {
    let v = c as u32;
    ||| 48 <= v <= 57
    ||| 65 <= v <= 90
    ||| 97 <= v <= 122
}

/// Space, tab, line feed and carriage return are white space; no ASCII letter or
/// digit (so no hex digit) is.
pub proof fn law_white_space_characters(c: char)
    ensures
        is_ascii_alphanumeric(c) ==> !is_white_space(c),
        c == ' ' || c == '\t' || c == '\n' || c == '\r' ==> is_white_space(c),
{
}

/// A key written in ASCII letters and digits (hex digits, with or without `0x`) with
/// any spaces, tabs and line breaks around it reads as the key itself: in particular a
/// key file holding the key and a final line break gives the key, and it parses
/// exactly when the key does.
pub proof fn law_key_file_line_breaks(pre: Seq<char>, key: Seq<char>, post: Seq<char>)
    requires
        key.len() > 0,
        forall|i: int| 0 <= i < key.len() ==> is_ascii_alphanumeric(#[trigger] key[i]),
        forall|i: int|
            0 <= i < pre.len() ==> #[trigger] pre[i] == ' ' || pre[i] == '\t' || pre[i] == '\n'
                || pre[i] == '\r',
        forall|i: int|
            0 <= i < post.len() ==> #[trigger] post[i] == ' ' || post[i] == '\t' || post[i]
                == '\n' || post[i] == '\r',
    ensures
        trimmed(pre + key + post) == key,
        trimmed(key.push('\n')) == key,
        private_key_parses(trimmed(pre + key + post)) == private_key_parses(key),
        private_key_parses(trimmed(key.push('\n'))) == private_key_parses(key),
{
    assert forall|i: int| 0 <= i < pre.len() implies is_white_space(#[trigger] pre[i]) by {
        law_white_space_characters(pre[i]);
    }
    assert forall|i: int| 0 <= i < post.len() implies is_white_space(#[trigger] post[i]) by {
        law_white_space_characters(post[i]);
    }
    law_white_space_characters(key[0]);
    law_white_space_characters(key.last());
    law_key_file_white_space(pre, key, post);
    let nl = seq!['\n'];
    assert forall|i: int| 0 <= i < nl.len() implies is_white_space(#[trigger] nl[i]) by {
        law_white_space_characters(nl[i]);
    }
    law_key_file_white_space(Seq::empty(), key, nl);
    assert(Seq::<char>::empty() + key + nl =~= key.push('\n'));
}

fn white_space(c: char) -> (b: bool)
    ensures
        b == is_white_space(c),
{
    let v = c as u32;
    (0x09 <= v && v <= 0x0D) || v == 0x20 || v == 0x85 || v == 0xA0 || v == 0x1680 || (0x2000
        <= v && v <= 0x200A) || v == 0x2028 || v == 0x2029 || v == 0x202F || v == 0x205F || v
        == 0x3000
}

/// `text.trim()`: the text without its leading and trailing white space.
fn trim(text: &str) -> (rest: &str)
    ensures
        rest@ == trimmed(text@),
{
    let len = text.unicode_len();
    let mut start: usize = 0;
    assert(text@.skip(0) =~= text@);
    while start < len && white_space(text.get_char(start))
        invariant
            start <= len,
            len == text@.len(),
            trim_start(text@) == trim_start(text@.skip(start as int)),
        decreases len - start,
    {
        proof {
            assert(text@.skip(start as int).drop_first() =~= text@.skip(start + 1));
        }
        start = start + 1;
    }
    let ghost front = text@.skip(start as int);
    proof {
        if start < len {
            assert(front[0] == text@[start as int]);
        }
        assert(trim_start(text@) == front);
    }
    let mut end: usize = len;
    while end > start && white_space(text.get_char(end - 1))
        invariant
            start <= end <= len,
            len == text@.len(),
            front == text@.skip(start as int),
            trim_end(front) == trim_end(text@.subrange(start as int, end as int)),
        decreases end,
    {
        proof {
            assert(text@.subrange(start as int, end as int).drop_last() =~= text@.subrange(
                start as int,
                end - 1,
            ));
        }
        end = end - 1;
    }
    proof {
        assert(text@.skip(start as int) =~= text@.subrange(start as int, len as int));
        let rest = text@.subrange(start as int, end as int);
        if end > start {
            assert(rest.last() == text@[end - 1]);
        }
        assert(trim_end(rest) == rest);
    }
    text.substring_char(start, end)
}

/// Reads the private key from the text of a key file: white space around the key is
/// dropped, then the rest must parse as a private key.
pub fn private_key_from_key_file(key_file_text: &str) -> (res: Result<[u8; 32], WalletError>)
    ensures
        res is Ok <==> private_key_parses(trimmed(key_file_text@)),
        res matches Ok(key) ==> key@ == parsed_private_key(trimmed(key_file_text@)),
{
    private_key_from_str(trim(key_file_text))
}

} // verus!
