//! Decoding a raw byte buffer into text: a strict UTF-8 fast path, then a
//! charset-sniffing fallback that never accepts a lossy decode.

use vstd::prelude::*;
use vstd::string::StrSliceExecFns;
use vstd::utf8::{valid_utf8, decode_utf8};

verus! {

/// Failure of the byte decoder: the buffer was not valid strict text and the
/// decode with the sniffed fallback encoding substituted replacement
/// characters. Carries the name of the encoding that the sniffer guessed.
#[derive(Debug)]
pub struct DecodeError {
    pub encoding: String,
}

/// The name of the encoding that the charset sniffer guesses when fed the
/// whole buffer as a single final chunk.
pub uninterp spec fn guessed_name(bytes: Seq<u8>) -> Seq<char>;

/// What decoding the buffer with the sniffer's guessed encoding yields: the
/// decoded text, and whether any replacement characters were substituted.
pub uninterp spec fn guessed_decode(bytes: Seq<u8>) -> (Seq<char>, bool);

/// Relies on std::str::from_utf8: it succeeds exactly on buffers that are
/// valid UTF-8, and returns their decoding.
#[verifier::external_body]
fn utf8_decode(bytes: &[u8]) -> (r: Option<&str>)
    ensures
        match r {
            Some(s) => valid_utf8(bytes@) && s@ == decode_utf8(bytes@),
            None => !valid_utf8(bytes@),
        },
{
    std::str::from_utf8(bytes).ok()
}

/// Relies on chardetng::EncodingDetector (new, feed, guess) and on
/// encoding_rs::Encoding::decode and name: fed the whole buffer as one final
/// chunk, the detector's single best guess, the decode of the buffer with the
/// guessed encoding, and that encoding's name depend on the buffer alone.
#[verifier::external_body]
fn sniff_and_decode(bytes: &[u8]) -> (r: (String, bool, String))
    ensures
        r.0@ == guessed_decode(bytes@).0,
        r.1 == guessed_decode(bytes@).1,
        r.2@ == guessed_name(bytes@),
{
    let mut detector = chardetng::EncodingDetector::new(chardetng::Iso2022JpDetection::Allow);
    detector.feed(bytes, true);
    let encoding = detector.guess(None, chardetng::Utf8Detection::Allow);
    let (decoded, _, had_errors) = encoding.decode(bytes);
    (decoded.into_owned(), had_errors, encoding.name().to_owned())
}

/// Text with a single leading byte-order-mark removed, if one is present.
pub open spec fn spec_strip_bom(s: Seq<char>) -> Seq<char> {
    if s.len() > 0 && s[0] == '\u{FEFF}' {
        s.subrange(1, s.len() as int)
    } else {
        s
    }
}

fn strip_bom(s: &str) -> (r: String)
    ensures
        r@ == spec_strip_bom(s@),
{
    let n = s.unicode_len();
    if n > 0 && s.get_char(0) == '\u{FEFF}' {
        s.substring_char(1, n).to_owned()
    } else {
        s.to_owned()
    }
}

/// Decode a raw byte buffer into text. Bytes that are valid strict UTF-8 are
/// taken as they are, with no sniffing; otherwise the buffer is decoded with
/// the sniffer's guessed encoding and a lossy result is rejected. Either way
/// a single leading byte-order-mark is stripped from the returned text.
pub fn detect_and_decode(bytes: &[u8]) -> (r: Result<String, DecodeError>)
    ensures
        match r {
            Ok(text) => if valid_utf8(bytes@) {
                text@ == spec_strip_bom(decode_utf8(bytes@))
            } else {
                &&& !guessed_decode(bytes@).1
                &&& text@ == spec_strip_bom(guessed_decode(bytes@).0)
            },
            Err(e) => {
                &&& !valid_utf8(bytes@)
                &&& guessed_decode(bytes@).1
                &&& e.encoding@ == guessed_name(bytes@)
            },
        },
{
    match utf8_decode(bytes) {
        Some(text) => Ok(strip_bom(text)),
        None => {
            let (decoded, had_errors, name) = sniff_and_decode(bytes);
            if had_errors {
                Err(DecodeError { encoding: name })
            } else {
                Ok(strip_bom(decoded.as_str()))
            }
        },
    }
}

} // verus!
