use deb_installer::text::{
    fill_placeholders, format_decimal, format_hex, join, join3, parse_u32, same_text, split_once,
    strip_prefix, to_chars, trim,
};

#[test]
fn characters_and_joins() {
    assert_eq!(to_chars("a\u{e9}\u{1f600}"), vec!['a', '\u{e9}', '\u{1f600}']);
    assert_eq!(join("ab", "cd"), "abcd");
    assert_eq!(join3("a", "", "c"), "ac");
    assert!(same_text("abc", "abc"));
    assert!(!same_text("abc", "abC"));
}

#[test]
fn split_at_first_space() {
    assert_eq!(split_once("a b c", ' '), Some(("a", "b c")));
    assert_eq!(split_once(" b", ' '), Some(("", "b")));
    assert_eq!(split_once("b ", ' '), Some(("b", "")));
    assert_eq!(split_once("b", ' '), None);
    assert_eq!(split_once("", ' '), None);
    assert_eq!(split_once("\u{e9}\u{1f600} x", ' '), Some(("\u{e9}\u{1f600}", "x")));
}

#[test]
fn prefixes() {
    assert_eq!(strip_prefix("progress 5", "progress "), Some("5"));
    assert_eq!(strip_prefix("progress", "progress "), None);
    assert_eq!(strip_prefix("Progress 5", "progress "), None);
    assert_eq!(strip_prefix("", ""), Some(""));
}

#[test]
fn trim_agrees_with_std_on_every_character() {
    for code in 0..0x110000u32 {
        if let Some(c) = char::from_u32(code) {
            let mut s = String::new();
            s.push(c);
            s.push('x');
            s.push(c);
            assert_eq!(trim(&s), s.trim());
        }
    }
    assert_eq!(trim(" \t\r\n "), "");
    assert_eq!(trim(" a b "), "a b");
}

#[test]
fn white_space_is_what_is_trimmed() {
    let white = [
        '\u{9}', '\u{a}', '\u{b}', '\u{c}', '\u{d}', ' ', '\u{85}', '\u{a0}', '\u{1680}',
        '\u{2000}', '\u{2001}', '\u{2002}', '\u{2003}', '\u{2004}', '\u{2005}', '\u{2006}',
        '\u{2007}', '\u{2008}', '\u{2009}', '\u{200a}', '\u{2028}', '\u{2029}', '\u{202f}',
        '\u{205f}', '\u{3000}',
    ];
    for code in 0..0x110000u32 {
        if let Some(c) = char::from_u32(code) {
            let mut s = String::new();
            s.push(c);
            assert_eq!(trim(&s).is_empty(), white.contains(&c));
        }
    }
}

#[test]
fn numbers() {
    assert_eq!(parse_u32("0"), Some(0));
    assert_eq!(parse_u32("+7"), Some(7));
    assert_eq!(parse_u32("007"), Some(7));
    assert_eq!(parse_u32("4294967295"), Some(4294967295));
    assert_eq!(parse_u32("00000000000000000000000000004294967295"), Some(4294967295));
    assert_eq!(parse_u32("4294967296"), None);
    assert_eq!(parse_u32("99999999999999999999999999999999"), None);
    for bad in ["", "+", "-0", "-1", "++1", "1 ", " 1", "1a", "\u{661}"] {
        assert_eq!(parse_u32(bad), None);
        assert!(bad.parse::<u32>().is_err());
    }
}

#[test]
fn decimal_and_back() {
    assert_eq!(format_decimal(0), "0");
    assert_eq!(format_decimal(10), "10");
    assert_eq!(format_decimal(18446744073709551615), "18446744073709551615");
    for n in [0u32, 9, 10, 99, 100, 4294967295] {
        assert_eq!(parse_u32(&format_decimal(n as u64)), Some(n));
    }
}

#[test]
fn hexadecimal() {
    assert_eq!(format_hex(&[]), "");
    assert_eq!(format_hex(&[0x00, 0x0f, 0xa0, 0xbe, 0xff]), "000fa0beff");
}

#[test]
fn placeholders() {
    assert_eq!(fill_placeholders("Install {}", "foo"), "Install foo");
    assert_eq!(fill_placeholders("{}{} {", "{}"), "{}{} {");
    assert_eq!(fill_placeholders("{{}}", "x"), "{x}");
    assert_eq!(fill_placeholders("", "x"), "");
    assert_eq!(fill_placeholders("}{", "x"), "}{");
    for s in ["{}", "a{}b{}", "{{}", "{}}", "{ }", "{"] {
        assert_eq!(fill_placeholders(s, "arg"), s.replace("{}", "arg"));
    }
}
