use json2excel::decode::detect_and_decode;
use json2excel::flatten::create_df;

#[test]
fn strict_text_passes_through_unchanged() {
    let text = detect_and_decode(b"hello").unwrap();
    assert_eq!(text, "hello");
}

#[test]
fn strict_text_bypasses_sniffing() {
    // Half-width katakana that a sniffer fed these bytes could plausibly take
    // for a legacy Japanese encoding; since they are valid UTF-8 the fast
    // path must return them untouched.
    let bytes = "\u{FF71}\u{FF72}\u{FF73}\u{FF74}\u{FF75}".as_bytes();
    let text = detect_and_decode(bytes).unwrap();
    assert_eq!(text, "\u{FF71}\u{FF72}\u{FF73}\u{FF74}\u{FF75}");
}

#[test]
fn utf8_byte_order_mark_is_stripped() {
    let text = detect_and_decode(b"\xEF\xBB\xBFhi").unwrap();
    assert_eq!(text, "hi");
}

#[test]
fn utf16_byte_order_mark_is_stripped_on_the_sniffing_path() {
    let text = detect_and_decode(b"\xFF\xFEh\x00i\x00").unwrap();
    assert_eq!(text, "hi");
}

#[test]
fn latin_bytes_are_sniffed_and_decoded() {
    let text = detect_and_decode(b"caf\xE9 au lait, d\xE9j\xE0 vu").unwrap();
    assert_eq!(text, "caf\u{E9} au lait, d\u{E9}j\u{E0} vu");
}

#[test]
fn lossy_sniffed_decode_is_rejected_with_the_guessed_name() {
    // A lone 0xFD, then repeated hiragana in Shift_JIS. The sniffer treats
    // 0xFD as a tolerable vendor extension and still guesses Shift_JIS, but
    // the decoder substitutes a replacement character for it, so the decode
    // must fail and name the guess.
    let mut bytes: Vec<u8> = vec![0xFD];
    for _ in 0..40 {
        bytes.extend_from_slice(b"\x82\xC9\x82\xD9\x82\xF1\x82\xB2");
    }
    let err = detect_and_decode(&bytes).unwrap_err();
    assert_eq!(err.encoding, "Shift_JIS");
}

#[test]
fn bad_syntax_in_good_bytes_is_a_parse_error_not_a_decode_error() {
    let bytes: &[u8] = b"{not json";
    let text = detect_and_decode(bytes).unwrap();
    assert_eq!(text, "{not json");
    assert!(create_df(&text).is_err());
}
