//! From the bytes of a file to its text.

use crate::config::Utf8Rule;
use vstd::prelude::*;
use vstd::utf8::{decode_utf8, encode_utf8, valid_utf8};

verus! {

/// The text that lossy decoding makes of `bytes`: what is valid UTF-8 is
/// kept, and each stretch that is not is replaced by U+FFFD.
pub uninterp spec fn lossy_text(bytes: Seq<u8>) -> Seq<char>;

/// What decoding makes of the bytes of a file.
pub enum Decoded {
    /// The text of the file.
    Text(String),
    /// The file is passed over.
    Skipped,
    /// The file is not valid UTF-8, and nothing else was allowed.
    Invalid,
}

/// What decoding `bytes` under the rule `rule` gives: the text, or `None`
/// where the bytes are not valid UTF-8 and the rule is not `Lossy`.
pub open spec fn decoded_text(bytes: Seq<u8>, rule: Utf8Rule) -> Option<Seq<char>> {
    match rule {
        Utf8Rule::Lossy => Some(lossy_text(bytes)),
        _ => if valid_utf8(bytes) {
            Some(decode_utf8(bytes))
        } else {
            None
        },
    }
}

/// The string that `bytes` encode, if they are valid UTF-8.
///
/// Trusted: the body calls std's `String::from_utf8`; the contract claims
/// that it succeeds on valid UTF-8 and on nothing else, and that the string
/// then consists of the very bytes given.
#[verifier::external_body]
fn utf8_string(bytes: Vec<u8>) -> (r: Option<String>)
    ensures
        r is Some <==> valid_utf8(bytes@),
        r matches Some(s) ==> encode_utf8(s@) == bytes@,
{
    String::from_utf8(bytes).ok()
}

/// The string that lossy decoding makes of `bytes`.
///
/// Trusted: the body calls std's `String::from_utf8_lossy`; the contract
/// gives its result a name, and claims that valid UTF-8 is decoded as it
/// is.
#[verifier::external_body]
fn utf8_lossy(bytes: &[u8]) -> (s: String)
    ensures
        s@ == lossy_text(bytes@),
        valid_utf8(bytes@) ==> s@ == decode_utf8(bytes@),
{
    String::from_utf8_lossy(bytes).into_owned()
}

/// Decodes the bytes of a file under the rule `rule`.
///
/// `Lossy` always gives a text. Bytes that are not valid UTF-8 are
/// `Invalid` under `Strict` and `Skipped` under `Ignore`.
pub fn decode(bytes: Vec<u8>, rule: Utf8Rule) -> (r: Decoded)
    ensures
        match r {
            Decoded::Text(s) => decoded_text(bytes@, rule) == Some(s@),
            Decoded::Skipped => decoded_text(bytes@, rule) is None && rule == Utf8Rule::Ignore,
            Decoded::Invalid => decoded_text(bytes@, rule) is None && rule == Utf8Rule::Strict,
        },
        valid_utf8(bytes@) ==> (r matches Decoded::Text(s) && s@ == decode_utf8(bytes@)),
{
    broadcast use vstd::utf8::decode_utf8_encode_utf8, vstd::utf8::encode_utf8_decode_utf8;

    match rule {
        Utf8Rule::Lossy => Decoded::Text(utf8_lossy(bytes.as_slice())),
        Utf8Rule::Ignore => match utf8_string(bytes) {
            Some(s) => Decoded::Text(s),
            None => Decoded::Skipped,
        },
        Utf8Rule::Strict => match utf8_string(bytes) {
            Some(s) => Decoded::Text(s),
            None => Decoded::Invalid,
        },
    }
}

} // verus!
