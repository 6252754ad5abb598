use wstp::{Utf16Str, Utf32Str, Utf8Str};

#[test]
fn test_utf8_str_display() {
    assert_eq!(
        Utf8Str::from_str("hello ðŸ‘‹").to_string(),
        String::from("hello ðŸ‘‹")
    );
}

#[test]
fn test_utf16_str_display() {
    let utf16: Vec<u16> = "hello ðŸ‘‹".encode_utf16().collect();
    let utf16: Utf16Str = Utf16Str::from_utf16(&utf16).unwrap();

    assert_eq!(utf16.to_string(), String::from("hello ðŸ‘‹"));
}

#[test]
fn test_utf32_str_display() {
    let utf32: Vec<u32> = "hello ðŸ‘‹"
        .chars()
        .map(|char: char| u32::from(char))
        .collect();
    let utf32: Utf32Str = Utf32Str::from_utf32(&utf32).unwrap();

    assert_eq!(utf32.to_string(), String::from("hello ðŸ‘‹"));
}

#[test]
fn utf8_is_checked() {
    let text = Utf8Str::from_utf8("gr\u{fc}n \u{1F44B}".as_bytes()).unwrap();
    assert_eq!(text.as_str(), "gr\u{fc}n \u{1F44B}");
    assert_eq!(text.as_slice(), "gr\u{fc}n \u{1F44B}".as_bytes());

    // A continuation byte without a leading byte, and a sequence cut short.
    assert_eq!(Utf8Str::from_utf8(&[0x80]), Err(()));
    assert_eq!(Utf8Str::from_utf8(&[b'a', 0xE2, 0x82]), Err(()));
    assert!(Utf8Str::from_utf8(&[]).is_ok());
}

#[test]
fn utf16_surrogates_need_partners() {
    // U+1F44B is the pair D83D DC4B.
    let wave = Utf16Str::from_utf16(&[0x68, 0xD83D, 0xDC4B]).unwrap();
    assert_eq!(wave.as_slice(), &[0x68, 0xD83D, 0xDC4B]);
    assert_eq!(wave.to_string(), "h\u{1F44B}");

    // The lowest and the highest pair.
    assert_eq!(Utf16Str::from_utf16(&[0xD800, 0xDC00]).unwrap().to_string(), "\u{10000}");
    assert_eq!(Utf16Str::from_utf16(&[0xDBFF, 0xDFFF]).unwrap().to_string(), "\u{10FFFF}");

    // A high surrogate at the end, one before a plain unit, and a low one alone.
    assert_eq!(Utf16Str::from_utf16(&[0x68, 0xD83D]).unwrap_err().unpaired_surrogate(), 0xD83D);
    assert_eq!(Utf16Str::from_utf16(&[0xD83D, 0x68]).unwrap_err().unpaired_surrogate(), 0xD83D);
    assert_eq!(Utf16Str::from_utf16(&[0xDC4B, 0xD83D]).unwrap_err().unpaired_surrogate(), 0xDC4B);
}

#[test]
fn utf32_units_are_scalar_values() {
    let text = Utf32Str::from_utf32(&[0x68, 0x1F44B, 0x10FFFF]).unwrap();
    assert_eq!(text.as_slice(), &[0x68, 0x1F44B, 0x10FFFF]);
    assert_eq!(text.to_string(), "h\u{1F44B}\u{10FFFF}");

    assert_eq!(Utf32Str::from_utf32(&[0x68, 0xD800, 0x110000]), Err(0xD800));
    assert_eq!(Utf32Str::from_utf32(&[0x110000]), Err(0x110000));
}

#[test]
fn utf8_that_is_refused_is_described() {
    assert_eq!(Utf8Str::decode(b"fine").unwrap().as_str(), "fine");
    assert_eq!(
        Utf8Str::decode(&[b'a', 0xff, b'b']).unwrap_err(),
        "invalid utf-8 sequence of 1 bytes from index 1"
    );
    assert_eq!(
        Utf8Str::decode(&[b'a', 0xe2, 0x82]).unwrap_err(),
        "incomplete utf-8 byte sequence from index 1"
    );

    assert_eq!(Utf8Str::from_utf8_lossy(b"fine").as_str(), "fine");
    assert_eq!(Utf8Str::from_utf8_lossy(&[b'a', 0xff, b'b']).as_str(), "a\u{fffd}b");
}
