//! Bytes as base64 text, in the standard alphabet with padding.

use vstd::prelude::*;

verus! {

/// The text that `base64::encode` writes for some bytes.
pub uninterp spec fn base64_of(b: Seq<u8>) -> Seq<char>;

/// The bytes that `base64::decode` reads from a text, or the text of its error.
pub uninterp spec fn bytes_of_base64(s: Seq<char>) -> Result<Seq<u8>, Seq<char>>;

/// Whether decoding gave the bytes `b`.
pub open spec fn decodes_to(read: Result<Seq<u8>, Seq<char>>, b: Seq<u8>) -> bool {
    read matches Ok(got) && got == b
}

/// Whether base64 text may hold a character.
pub open spec fn base64_char(c: char) -> bool {
    ('A' <= c && c <= 'Z') || ('a' <= c && c <= 'z') || ('0' <= c && c <= '9') || c == '+' || c
        == '/' || c == '='
}

/// `base64::encode`: the text for some bytes, in the characters of the standard alphabet and the
/// padding character. Decoding it gives the bytes back.
#[verifier::external_body]
pub(crate) fn encode_base64(b: &[u8]) -> (r: String)
    ensures
        r@ == base64_of(b@),
        forall|i: int| 0 <= i < r@.len() ==> base64_char(#[trigger] r@[i]),
        decodes_to(bytes_of_base64(r@), b@),
{
    base64::encode(b)
}

/// `base64::decode`: the bytes that a text stands for, or the text of the error.
#[verifier::external_body]
pub(crate) fn decode_base64(s: &str) -> (r: Result<Vec<u8>, String>)
    ensures
        match r {
            Ok(b) => decodes_to(bytes_of_base64(s@), b@),
            Err(e) => bytes_of_base64(s@) matches Err(text) && text == e@,
        },
{
    base64::decode(s).map_err(|e| e.to_string())
}

} // verus!
