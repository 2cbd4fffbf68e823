use computer_use_linux::bytes::{from_utf8_lossy, split_bytes};
use computer_use_linux::number::{
    parse_hex_u64, parse_i32, parse_u32, to_decimal, to_hexadecimal,
};
use computer_use_linux::order::text_precedes;
use computer_use_linux::scan::{
    contains, find, is_blank, join, lines, split_on, split_whitespace, starts_with, strip_prefix,
    strip_suffix, trim,
};
use computer_use_linux::text::{is_alphanumeric, is_whitespace, same_text, to_ascii_lowercase};
use computer_use_linux::text_map::TextMap;

const TEXTS: [&str; 14] = [
    "",
    " ",
    "a",
    " a b\t\nc ",
    "one\r\ntwo\n\nthree",
    "\n",
    "\r\n",
    "end\r",
    "\u{2003}wide\u{3000}space\u{a0}",
    "ÄÖÜ äöü",
    "a:b::c:",
    "日本語 テキスト",
    "\u{85}x\u{85}",
    "MiXeD CaSe ß",
];

#[test]
fn scanning_agrees_with_std() {
    for text in TEXTS {
        assert_eq!(trim(text), text.trim());
        assert_eq!(is_blank(text), text.trim().is_empty());
        assert_eq!(lines(text), text.lines().collect::<Vec<_>>());
        assert_eq!(
            split_whitespace(text),
            text.split_whitespace().collect::<Vec<_>>()
        );
        assert_eq!(split_on(text, ':'), text.split(':').collect::<Vec<_>>());
        assert_eq!(to_ascii_lowercase(text), text.to_ascii_lowercase());
        for part in ["", "a", "b", "two", "ß", "語", " "] {
            assert_eq!(contains(text, part), text.contains(part));
            assert_eq!(starts_with(text, part), text.starts_with(part));
            assert_eq!(strip_prefix(text, part), text.strip_prefix(part));
            assert_eq!(strip_suffix(text, part), text.strip_suffix(part));
            assert_eq!(
                find(text, part),
                text.find(part).map(|i| text[..i].chars().count())
            );
        }
        for other in TEXTS {
            assert_eq!(same_text(text, other), text == other);
            assert_eq!(text_precedes(text, other), text < other);
        }
    }
    assert_eq!(join(&["a", "", "b"], ", "), "a, , b");
    assert_eq!(join(&[], ", "), "");
}

#[test]
fn characters_agree_with_std() {
    for u in (0..0x3100).chain(0x1f600..0x1f610) {
        if let Some(c) = char::from_u32(u) {
            assert_eq!(is_whitespace(c), c.is_whitespace(), "{u:x}");
            assert_eq!(is_alphanumeric(c), c.is_alphanumeric(), "{u:x}");
        }
    }
}

#[test]
fn numbers_are_read_as_std_reads_them() {
    let numerals = [
        "", "0", "7", "+7", "-7", "-0", "--7", "+", "-", "007", "4294967295", "4294967296",
        "2147483647", "2147483648", "-2147483648", "-2147483649", " 7", "7 ", "7a", "ff", "FF",
        "+ff", "-ff", "fg", "ffffffffffffffff", "10000000000000000", "٣",
    ];
    for text in numerals {
        assert_eq!(parse_u32(text), text.parse::<u32>().ok(), "{text}");
        assert_eq!(parse_i32(text), text.parse::<i32>().ok(), "{text}");
        assert_eq!(
            parse_hex_u64(text),
            u64::from_str_radix(text, 16).ok(),
            "{text}"
        );
    }
}

#[test]
fn numbers_are_written_and_read_back() {
    for n in [0, 1, 9, 10, 15, 16, 255, 4096, 0x7800020, u64::MAX] {
        assert_eq!(to_decimal(n as u128), n.to_string());
        assert_eq!(to_hexadecimal(n), format!("{n:x}"));
        assert_eq!(parse_hex_u64(&to_hexadecimal(n)), Some(n));
    }
    assert_eq!(to_decimal(u128::MAX), u128::MAX.to_string());
}

#[test]
fn order_is_strict_total_and_transitive() {
    assert!(text_precedes("", "a"));
    assert!(text_precedes("a", "aa"));
    assert!(text_precedes("Z", "a"));
    assert!(text_precedes("z", "é"));
    assert!(!text_precedes("a", "a"));
}

#[test]
fn map_keeps_its_keys_in_order() {
    let mut map: TextMap<u32> = TextMap::new();
    for (i, key) in ["m", "b", "z", "", "b"].iter().enumerate() {
        map.insert(key.to_string(), i as u32);
    }
    assert_eq!(map.len(), 4);
    let keys: Vec<&str> = (0..map.len()).map(|i| map.entry(i).key.as_str()).collect();
    assert_eq!(keys, vec!["", "b", "m", "z"]);
    assert_eq!(map.get("b"), Some(&4));
    assert_eq!(map.get("c"), None);
    assert!(map.contains_key(""));
    assert_eq!(map.clone().get("z"), Some(&2));
}

#[test]
fn bytes_become_text_as_std_has_it() {
    for bytes in [
        &b"plain"[..],
        b"",
        b"\xc3\xa9",
        b"a\xffb",
        b"\xf0\x9f\x98",
        b"\xed\xa0\x80x",
    ] {
        assert_eq!(from_utf8_lossy(bytes), String::from_utf8_lossy(bytes));
    }
    assert_eq!(
        split_bytes(b"a::b", b':'),
        vec![b"a".to_vec(), b"".to_vec(), b"b".to_vec()]
    );
}
