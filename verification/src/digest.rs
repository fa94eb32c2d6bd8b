//! Digests of texts.

use sha2::Digest;
use vstd::utf8::encode_utf8;
use vstd::prelude::*;

verus! {

/// The SHA-256 digest of a sequence of bytes.
pub uninterp spec fn sha256(bytes: Seq<u8>) -> Seq<u8>;

/// `sha2::Sha256::digest`: the digest depends on the bytes alone and is 32 bytes long.
#[verifier::external_body]
fn sha256_bytes(bytes: &[u8]) -> (r: Vec<u8>)
    ensures
        r@ == sha256(bytes@),
        r@.len() == 32,
{
    sha2::Sha256::digest(bytes).to_vec()
}

/// The sixteen digits, in lower case.
pub open spec fn hex_digit(n: int) -> char {
    "0123456789abcdef"@[n]
}

/// A digit below sixteen, as a text.
fn hex_digit_text(n: u8) -> (r: &'static str)
    requires
        n < 16,
    ensures
        r@ == seq![hex_digit(n as int)],
{
    proof {
        reveal_strlit("0123456789abcdef");
    }
    let r = "0123456789abcdef".substring_char(n as usize, n as usize + 1);
    assert(r@ =~= seq![hex_digit(n as int)]);
    r
}

/// Bytes written in pairs of digits.
pub open spec fn hex(bytes: Seq<u8>) -> Seq<char>
    decreases bytes.len(),
{
    if bytes.len() == 0 {
        Seq::empty()
    } else {
        hex(bytes.drop_last()).push(hex_digit(bytes.last() as int / 16)).push(
            hex_digit(bytes.last() as int % 16),
        )
    }
}

/// The digest of a text: `sha256:` and the digits of the digest of its UTF-8 bytes.
pub open spec fn text_digest(text: Seq<char>) -> Seq<char> {
    "sha256:"@ + hex(sha256(encode_utf8(text)))
}

/// A digit below sixteen, in lower case.
pub open spec fn is_hex_digit(c: char) -> bool {
    ('0' <= c && c <= '9') || ('a' <= c && c <= 'f')
}

/// A text has the form of a digest: `sha256:` and sixty-four digits.
pub open spec fn is_digest(text: Seq<char>) -> bool {
    &&& text.len() == 71
    &&& text.take(7) == "sha256:"@
    &&& forall|i: int| 7 <= i < 71 ==> is_hex_digit(#[trigger] text[i])
}

proof fn lemma_hex(bytes: Seq<u8>)
    ensures
        hex(bytes).len() == 2 * bytes.len(),
        forall|i: int| 0 <= i < hex(bytes).len() ==> is_hex_digit(#[trigger] hex(bytes)[i]),
    decreases bytes.len(),
{
    if bytes.len() > 0 {
        reveal_strlit("0123456789abcdef");
        lemma_hex(bytes.drop_last());
        let high = bytes.last() as int / 16;
        let low = bytes.last() as int % 16;
        assert(is_hex_digit("0123456789abcdef"@[high]));
        assert(is_hex_digit("0123456789abcdef"@[low]));
    }
}

/// The digest of a text.
pub fn digest_text(text: &str) -> (r: String)
    ensures
        r@ == text_digest(text@),
        is_digest(r@),
{
    let bytes = sha256_bytes(text.as_bytes());
    let mut r = "sha256:".to_owned();
    assert(bytes@.take(0) =~= Seq::empty());
    assert("sha256:"@ + hex(bytes@.take(0)) =~= "sha256:"@);
    for i in 0..bytes.len()
        invariant
            r@ == "sha256:"@ + hex(bytes@.take(i as int)),
    {
        let byte = bytes[i];
        let ghost before = bytes@.take(i as int);
        assert(bytes@.take(i + 1).drop_last() =~= before);
        assert(bytes@.take(i + 1).last() == byte);
        r.append(hex_digit_text(byte / 16));
        r.append(hex_digit_text(byte % 16));
        assert(r@ =~= "sha256:"@ + hex(bytes@.take(i + 1)));
    }
    assert(bytes@.take(bytes.len() as int) =~= bytes@);
    proof {
        reveal_strlit("sha256:");
        lemma_hex(bytes@);
        assert(r@.take(7) =~= "sha256:"@);
        assert forall|i: int| 7 <= i < 71 implies is_hex_digit(#[trigger] r@[i]) by {
            assert(r@[i] == hex(bytes@)[i - 7]);
        }
    }
    r
}

} // verus!
