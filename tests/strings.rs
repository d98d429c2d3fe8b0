use font::encoding::Encoding;
use font::strings::{roman_code_point, AppleRoman, Ucs2, Utf8};
use font::text::parse_string;

#[test]
fn utf8_from_roman() {
    let roman = AppleRoman::from_bytes(&[66, 108, 97, 99, 107, 115, 119, 111, 114, 100]);
    let utf8 = Utf8::from_apple_roman(&roman);

    let string = String::from_utf8(utf8.to_bytes().to_vec())
        .expect("Failed to get UTF8 string from bytes.");

    assert_eq!(string, "Blacksword");
}

#[test]
fn ucs2_width_boundaries() {
    let one = Utf8::from_ucs2(&Ucs2::from_bytes(&[0x00, 0x7F]));
    assert_eq!(one.to_bytes(), &[0x7F]);
    let two = Utf8::from_ucs2(&Ucs2::from_bytes(&[0x00, 0x80]));
    assert_eq!(two.to_bytes(), &[0xC2, 0x80]);
    let two_top = Utf8::from_ucs2(&Ucs2::from_bytes(&[0x07, 0xFF]));
    assert_eq!(two_top.to_bytes(), &[0xDF, 0xBF]);
    let three = Utf8::from_ucs2(&Ucs2::from_bytes(&[0x08, 0x00]));
    assert_eq!(three.to_bytes(), &[0xE0, 0xA0, 0x80]);
    let euro = Utf8::from_ucs2(&Ucs2::from_bytes(&[0x20, 0xAC]));
    assert_eq!(euro.to_bytes(), "\u{20AC}".as_bytes());
}

#[test]
fn ucs2_odd_trailing_byte_is_ignored() {
    let text = Utf8::from_ucs2(&Ucs2::from_bytes(&[0x00, 0x41, 0x00]));
    assert_eq!(text.to_bytes(), b"A");
}

#[test]
fn roman_high_half() {
    assert_eq!(roman_code_point(0x41), 0x41);
    assert_eq!(roman_code_point(0x80), 0x00C4);
    assert_eq!(roman_code_point(0xA5), 0x2022);
    assert_eq!(roman_code_point(0xDB), 0x20AC);
    assert_eq!(roman_code_point(0xF0), 0xF8FF);
    assert_eq!(roman_code_point(0xFF), 0x02C7);
    let ucs2 = Ucs2::from_apple_roman(&AppleRoman::from_bytes(&[0x8A, 0x41]));
    assert_eq!(ucs2.to_bytes(), &[0x00, 0xE4, 0x00, 0x41]);
    let text = Utf8::from_apple_roman(&AppleRoman::from_bytes(&[0x43, 0x61, 0x66, 0x8E]));
    assert_eq!(String::from_utf8(text.to_bytes().to_vec()).unwrap(), "Caf\u{e9}");
}

#[test]
fn parse_string_by_encoding() {
    assert_eq!(
        parse_string(Some(Encoding::MacintoshRoman), b"a\rb"),
        Some("a\nb".to_string())
    );
    assert_eq!(
        parse_string(Some(Encoding::WindowsUnicodeBMP), &[0, 0x48, 0, 0x69]),
        Some("Hi".to_string())
    );
    assert_eq!(
        parse_string(Some(Encoding::Unicode11), &[0, 0x48]),
        Some("H".to_string())
    );
    assert_eq!(
        parse_string(Some(Encoding::UnicodeFull), "\u{e9}t\u{e9}".as_bytes()),
        Some("\u{e9}t\u{e9}".to_string())
    );
    assert_eq!(parse_string(Some(Encoding::Unicode2Full), &[0xFF]), None);
    assert_eq!(parse_string(Some(Encoding::WindowsShiftJIS), b"abc"), None);
    assert_eq!(parse_string(None, b"abc"), None);
    // a lone surrogate code unit does not make valid UTF-8
    assert_eq!(parse_string(Some(Encoding::Unicode2BMP), &[0xD8, 0x00]), None);
}
