use token_gate::text::{command_text, presented_token};

fn is_unicode_white_space(n: u32) -> bool {
    (0x09..=0x0D).contains(&n)
        || n == 0x20
        || n == 0x85
        || n == 0xA0
        || n == 0x1680
        || (0x2000..=0x200A).contains(&n)
        || n == 0x2028
        || n == 0x2029
        || n == 0x202F
        || n == 0x205F
        || n == 0x3000
}

#[test]
fn token_is_trimmed_on_both_sides() {
    assert_eq!(presented_token(b"TOKEN\n"), "TOKEN");
    assert_eq!(presented_token(b"  \tTOKEN\r\n"), "TOKEN");
    assert_eq!(presented_token(b"TOKEN"), "TOKEN");
}

#[test]
fn token_keeps_inner_white_space() {
    assert_eq!(presented_token(b" my token \n"), "my token");
}

#[test]
fn token_of_nothing_is_empty() {
    assert_eq!(presented_token(b""), "");
    assert_eq!(presented_token(b" \n\t "), "");
}

#[test]
fn token_of_malformed_bytes_is_empty() {
    assert_eq!(presented_token(b"TOKEN\xff"), "");
    assert_eq!(presented_token(b"\xc0\x80"), "");
    assert_eq!(presented_token(b"\xed\xa0\x80"), "");
    assert_eq!(presented_token(b"TOK\xe2\x82"), "");
}

#[test]
fn token_may_hold_any_scalar() {
    assert_eq!(presented_token("  Schlüssel→鍵 \n".as_bytes()), "Schlüssel→鍵");
}

#[test]
fn command_is_trimmed_on_both_sides() {
    assert_eq!(command_text(b"ping\n"), "ping");
    assert_eq!(command_text(b"\r\n ping \t"), "ping");
}

#[test]
fn command_of_malformed_bytes_is_repaired() {
    assert_eq!(command_text(b"pi\xffng\n"), "pi\u{FFFD}ng");
    assert_eq!(command_text(b"\xff ping"), "\u{FFFD} ping");
}

#[test]
fn unicode_white_space_is_trimmed() {
    let wrapped = "\u{85}\u{A0}\u{1680}\u{2000}\u{200A}\u{2028}\u{2029}\u{202F}\u{205F}\u{3000}x\u{3000}\u{0B}\u{0C}";
    assert_eq!(presented_token(wrapped.as_bytes()), "x");
    assert_eq!(command_text(wrapped.as_bytes()), "x");
}

#[test]
fn near_white_space_is_kept() {
    for c in ['\u{1C}', '\u{1F}', '\u{08}', '\u{0E}', '\u{180E}', '\u{200B}', '\u{200C}', '\u{2060}', '\u{FEFF}', '\u{0}'] {
        let text = format!("{}x{}", c, c);
        assert_eq!(presented_token(text.as_bytes()), text);
        assert_eq!(command_text(text.as_bytes()), text);
    }
}

#[test]
fn every_character_is_trimmed_or_kept_by_its_class() {
    for n in 0u32..=0x10FFFF {
        if let Some(c) = char::from_u32(n) {
            let mut buf = [0u8; 4];
            let alone = c.encode_utf8(&mut buf).as_bytes().to_vec();
            let left = presented_token(&alone);
            if is_unicode_white_space(n) {
                assert_eq!(left, "", "U+{:04X} should be trimmed", n);
            } else {
                assert_eq!(left.as_bytes(), &alone[..], "U+{:04X} should be kept", n);
            }
        }
    }
}
