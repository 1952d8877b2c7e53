//! Content digests: SHA-256 of bytes and of texts, written as lower-case
//! hexadecimal.
use vstd::prelude::*;
use sha2::Digest;
use crate::text::{owned, push_char, push_text};

verus! {

/// The SHA-256 digest of a byte sequence.
pub uninterp spec fn sha256_of(bytes: Seq<u8>) -> Seq<u8>;

/// `sha2::Sha256::digest`: the digest of `bytes`, named, and its length of
/// 32 bytes (the output size in the type of `Sha256`).
#[verifier::external_body]
fn sha256_digest(bytes: &[u8]) -> (r: Vec<u8>)
    ensures
        r@ == sha256_of(bytes@),
        r@.len() == 32,
{
    sha2::Sha256::digest(bytes).to_vec()
}

/// The lower-case hexadecimal digit of `d < 16`.
pub open spec fn hex_char(d: nat) -> char {
    if d < 10 {
        ((48 + d) as u8) as char
    } else {
        ((87 + d) as u8) as char
    }
}

/// Bytes written as lower-case hexadecimal, two digits a byte (`{:x}`).
pub open spec fn lower_hex(bytes: Seq<u8>) -> Seq<char>
    decreases bytes.len(),
{
    if bytes.len() == 0 {
        seq![]
    } else {
        seq![hex_char((bytes[0] / 16) as nat), hex_char((bytes[0] % 16) as nat)] + lower_hex(
            bytes.drop_first(),
        )
    }
}

fn hex_digit_char(d: u8) -> (c: char)
    requires
        d < 16,
    ensures
        c == hex_char(d as nat),
{
    if d < 10 {
        (48u8 + d) as char
    } else {
        (87u8 + d) as char
    }
}

proof fn lemma_lower_hex_len(bytes: Seq<u8>)
    ensures
        lower_hex(bytes).len() == 2 * bytes.len(),
    decreases bytes.len(),
{
    if bytes.len() > 0 {
        lemma_lower_hex_len(bytes.drop_first());
    }
}

/// Writes bytes as lower-case hexadecimal.
pub fn to_lower_hex(bytes: &[u8]) -> (r: String)
    ensures
        r@ == lower_hex(bytes@),
        r@.len() == 2 * bytes@.len(),
{
    let mut r = String::new();
    let n = bytes.len();
    let mut i: usize = 0;
    assert(bytes@.skip(0) == bytes@);
    while i < n
        invariant
            i <= n,
            n == bytes@.len(),
            lower_hex(bytes@) == r@ + lower_hex(bytes@.skip(i as int)),
        decreases n - i,
    {
        let b = bytes[i];
        push_char(&mut r, hex_digit_char(b / 16));
        push_char(&mut r, hex_digit_char(b % 16));
        assert(bytes@.skip(i as int).drop_first() == bytes@.skip(i + 1));
        assert(bytes@.skip(i as int)[0] == b);
        i += 1;
    }
    assert(bytes@.skip(n as int) =~= Seq::<u8>::empty());
    assert(r@ + lower_hex(Seq::<u8>::empty()) == r@);
    proof {
        lemma_lower_hex_len(bytes@);
    }
    r
}

/// The SHA-256 digest of bytes in lower-case hexadecimal: 64 digits.
pub fn sha256(bytes: &[u8]) -> (r: String)
    ensures
        r@ == lower_hex(sha256_of(bytes@)),
        r@.len() == 64,
{
    let d = sha256_digest(bytes);
    to_lower_hex(d.as_slice())
}

/// The digest of a text: SHA-256 of its UTF-8 bytes, in hexadecimal.
pub open spec fn text_digest(s: Seq<char>) -> Seq<char> {
    lower_hex(sha256_of(vstd::utf8::encode_utf8(s)))
}

/// The digest stored beside a card body.
pub fn content_sha256(text: &str) -> (r: String)
    ensures
        r@ == text_digest(text@),
        r@.len() == 64,
{
    sha256(text.as_bytes())
}

/// The identifier of a stored file object: its kind, a dash and the digest
/// of its bytes.
pub fn file_object_id(kind: &str, bytes: &[u8]) -> (r: String)
    ensures
        r@ == kind@ + "-"@ + lower_hex(sha256_of(bytes@)),
{
    let mut r = owned(kind);
    push_text(&mut r, "-");
    let h = sha256(bytes);
    push_text(&mut r, h.as_str());
    r
}

} // verus!
