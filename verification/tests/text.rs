use fluxora_provenance::sorting::is_before;
use fluxora_provenance::text::{
    char_count, chars_of, contains_text, decimal_text, find, is_white_space, join, lines,
    parse_u64, push_padded, same_text, signed_decimal_text, split_once, string_of, strip_prefix,
    trim, two, up_to,
};

#[test]
fn white_space_is_that_of_unicode() {
    for n in 0..=0x10ffff_u32 {
        if let Some(c) = char::from_u32(n) {
            assert_eq!(is_white_space(c), c.is_whitespace(), "{n:x}");
        }
    }
}

#[test]
fn texts_are_taken_apart() {
    let samples = [
        "",
        " ",
        "a",
        " a b ",
        "\u{3000}x\u{a0}",
        "a\nb",
        "a\nb\n",
        "a\r\nb\r",
        "\n\n",
        "\r\n\r\n",
        "a\r\r\nb",
        "é=ü=",
        "=",
        "key=value=more",
    ];
    for s in samples {
        assert_eq!(trim(s), s.trim(), "{s:?}");
        let expected: Vec<String> = s.lines().map(|l| l.to_string()).collect();
        assert_eq!(lines(s), expected, "{s:?}");
        assert_eq!(char_count(s), s.chars().count());
        assert_eq!(string_of(&chars_of(s)), s);
        assert_eq!(up_to(s, '='), s.split('=').next().unwrap());
        let parts = s.split_once('=').map(|(a, b)| (a.to_string(), b.to_string()));
        assert_eq!(split_once(s, '='), parts);
        for part in samples {
            assert_eq!(contains_text(s, part), s.contains(part));
            assert_eq!(same_text(s, part), s == part);
            assert_eq!(strip_prefix(s, part), s.strip_prefix(part).map(|r| r.to_string()));
            assert_eq!(is_before(&chars_of(s), &chars_of(part)), s < part);
            assert_eq!(two(s, part), format!("{s}{part}"));
        }
    }
    let chars = chars_of("abcabc");
    assert_eq!(find(&chars, 0, &chars_of("ca")), Some(2));
    assert_eq!(find(&chars, 1, &chars_of("abc")), Some(2));
    assert_eq!(find(&chars, 4, &chars_of("abc")), None);
}

#[test]
fn numbers_are_written_and_read() {
    for n in [0u128, 7, 10, 99, 100, u64::MAX as u128, u128::MAX] {
        assert_eq!(decimal_text(n), n.to_string());
    }
    for n in [0i128, -1, 5, -10, i128::MIN, i128::MAX] {
        assert_eq!(signed_decimal_text(n), n.to_string());
    }
    let mut out = String::from("x");
    push_padded(&mut out, 5, 3);
    push_padded(&mut out, 12345, 3);
    push_padded(&mut out, 0, 0);
    assert_eq!(out, "x005123450");
    for s in [
        "", "0", "+", "-", "+1", "-1", "++1", "007", "18446744073709551615",
        "18446744073709551616", "99999999999999999999999999999999999999999x", "1 ", " 1", "1_0",
        "１", "000000000000000000000000000000000000000000000000005",
    ] {
        assert_eq!(parse_u64(s), s.parse::<u64>().ok(), "{s:?}");
    }
}

#[test]
fn parts_are_joined() {
    let parts = |list: &[&str]| -> Vec<String> { list.iter().map(|s| s.to_string()).collect() };
    assert_eq!(join(&parts(&[]), ", "), "");
    assert_eq!(join(&parts(&["a"]), ", "), "a");
    assert_eq!(join(&parts(&["a", "", "c"]), ", "), "a, , c");
}

#[test]
fn bytes_are_ordered() {
    assert!(is_before(b"a".as_slice(), b"ab".as_slice()));
    assert!(is_before(b"Z".as_slice(), b"a".as_slice()));
    assert!(!is_before(b"a".as_slice(), b"a".as_slice()));
    assert!(is_before(&[0x7f_u8], &[0x80_u8]));
}
