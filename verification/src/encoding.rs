//! Reading text out of the bytes of a file: as UTF-8 where the bytes are
//! that, else in the encoding that they suggest.

use chardetng::EncodingDetector;
use vstd::prelude::*;
use vstd::utf8::{decode_utf8, valid_utf8};

verus! {

/// The text that the detector reads out of bytes: `EncodingDetector` is
/// fed all of them, its guess, with UTF-8 allowed and no domain given,
/// names an encoding, and `Encoding::decode` decodes the bytes in it,
/// putting the replacement character where they are malformed.
pub uninterp spec fn detected_text(bytes: Seq<u8>) -> Seq<char>;

/// The longest input that `Encoding::decode` is handed: its buffer for
/// the text is at most three bytes for each byte of input and a few
/// more, a size that must fit the machine word.
pub open spec fn detect_limit() -> nat {
    (usize::MAX / 4) as nat
}

/// Reads bytes as UTF-8 with `std::str::from_utf8`: the text that they
/// encode where they are well formed, `None` where they are not.
#[verifier::external_body]
fn utf8_text(bytes: &[u8]) -> (text: Option<String>)
    ensures
        text is Some <==> valid_utf8(bytes@),
        text matches Some(t) ==> t@ == decode_utf8(bytes@),
{
    match std::str::from_utf8(bytes) {
        Ok(text) => Some(text.to_string()),
        Err(_) => None,
    }
}

/// Detects the encoding of the bytes and decodes them in it:
/// `EncodingDetector::new`, `feed` with all the bytes as the last chunk,
/// `guess` with no domain and UTF-8 allowed, then `Encoding::decode`. The
/// text is the one that the bytes determine.
#[verifier::external_body]
fn detect_and_decode(bytes: &[u8]) -> (text: String)
    requires
        bytes.len() <= detect_limit(),
    ensures
        text@ == detected_text(bytes@),
{
    let mut detector = EncodingDetector::new();
    detector.feed(bytes, true);
    let (text, _, _) = detector.guess(None, true).decode(bytes);
    text.into_owned()
}

/// The text of a file's bytes: what they encode where they are UTF-8,
/// else what the detector reads out of them.
pub open spec fn decoded(bytes: Seq<u8>) -> Seq<char> {
    if valid_utf8(bytes) {
        decode_utf8(bytes)
    } else {
        detected_text(bytes)
    }
}

/// Decodes the bytes of a file. It gives no text only for bytes that are
/// not UTF-8 and too many for the detector.
pub fn decode(bytes: &[u8]) -> (text: Option<String>)
    ensures
        match text {
            Some(t) => t@ == decoded(bytes@),
            None => !valid_utf8(bytes@) && bytes.len() > detect_limit(),
        },
{
    match utf8_text(bytes) {
        Some(text) => Some(text),
        None => if bytes.len() <= usize::MAX / 4 {
            Some(detect_and_decode(bytes))
        } else {
            None
        },
    }
}

} // verus!
