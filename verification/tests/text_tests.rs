use ranitask::text::{chars_of, is_whitespace, push_decimal, str_eq, str_le, trim_chars};
use ranitask::win32_helpers::{remote_vk_name, vk_name, wide};

#[test]
fn decimal_text() {
    let mut s = String::from("n=");
    push_decimal(&mut s, 0);
    push_decimal(&mut s, 1234567890);
    assert_eq!(s, "n=01234567890");
    let mut m = String::new();
    push_decimal(&mut m, u64::MAX);
    assert_eq!(m, u64::MAX.to_string());
}

#[test]
fn trimming_matches_std() {
    for s in ["  a b  ", "\t\n", "", "x", "\u{3000}y\u{2029}", " \u{a0}z"] {
        let t: String = trim_chars(&chars_of(s)).into_iter().collect();
        assert_eq!(t, s.trim());
    }
    for c in [' ', '\t', '\u{85}', '\u{a0}', '\u{1680}', '\u{200a}', '\u{3000}', 'a', '\u{200b}'] {
        assert_eq!(is_whitespace(c), c.is_whitespace());
    }
}

#[test]
fn string_order_matches_std() {
    let words = ["", "a", "ab", "b", "B", "é", "z", "aa", "a\u{10000}", "a\u{ffff}"];
    for a in words {
        for b in words {
            assert_eq!(str_le(a, b), a <= b, "{:?} <= {:?}", a, b);
            assert_eq!(str_eq(a, b), a == b);
        }
    }
}

#[test]
fn key_names() {
    assert_eq!(vk_name(0x70), "F1");
    assert_eq!(vk_name(0x91), "ScrollLock");
    assert_eq!(vk_name(0x41), "?");
    assert_eq!(remote_vk_name(0x41), "A");
    assert_eq!(remote_vk_name(0x39), "9");
    assert_eq!(remote_vk_name(0x7B), "F12");
    assert_eq!(remote_vk_name(0x24), "?");
}

#[test]
fn wide_strings_end_in_nul() {
    assert_eq!(wide("Ab"), vec![0x41, 0x62, 0]);
    assert_eq!(wide(""), vec![0]);
    assert_eq!(wide("\u{1F600}"), vec![0xD83D, 0xDE00, 0]);
}

use ranitask::text::{parse_i32, parse_u16};

#[test]
fn integer_parsing_matches_std() {
    let cases = [
        "", "+", "-", "0", "-0", "+7", "42", "-42", "2147483647", "2147483648", "-2147483648",
        "-2147483649", "99999999999999999999", "1a", " 1", "1 ", "00012", "65535", "65536", "+65535",
        "\u{0661}",
    ];
    for c in cases {
        assert_eq!(parse_i32(c), c.parse::<i32>().ok(), "i32 {:?}", c);
        assert_eq!(parse_u16(c), c.parse::<u16>().ok(), "u16 {:?}", c);
    }
}

use ranitask::win32_helpers::{KEY_OPTIONS, REMOTE_KEY_OPTIONS};

#[test]
fn paired_key_tables() {
    assert_eq!(KEY_OPTIONS.len(), 17);
    assert_eq!(KEY_OPTIONS[10], (0x7A, "F11"));
    assert_eq!(REMOTE_KEY_OPTIONS[26], (0x30, "0"));
    for (vk, name) in KEY_OPTIONS.iter() {
        assert_eq!(vk_name(*vk), *name);
    }
    for (vk, name) in REMOTE_KEY_OPTIONS.iter() {
        assert_eq!(remote_vk_name(*vk), *name);
    }
}
