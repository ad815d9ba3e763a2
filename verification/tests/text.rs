use spinnrd::text::{
    chars_of, decimal_string, digit_of, parse_unsigned, same_chars, same_text, same_trimmed, scan_digits,
    push_decimal, trim_bounds, whitespace,
};

fn chars(s: &str) -> Vec<char> {
    s.chars().collect()
}

#[test]
fn characters_of_a_text() {
    assert_eq!(chars_of("a1 é"), vec!['a', '1', ' ', 'é']);
    assert_eq!(chars_of(""), Vec::<char>::new());
}

#[test]
fn digits_and_their_values() {
    assert_eq!(digit_of('0'), Some(0));
    assert_eq!(digit_of('7'), Some(7));
    assert_eq!(digit_of('9'), Some(9));
    assert_eq!(digit_of('/'), None);
    assert_eq!(digit_of(':'), None);
    assert_eq!(digit_of('a'), None);
    assert_eq!(digit_of('\u{663}'), None);
}

#[test]
fn white_space_is_what_the_standard_library_takes_for_it() {
    for code in 0u32..0x3100 {
        if let Some(c) = char::from_u32(code) {
            assert_eq!(whitespace(c), c.is_whitespace(), "U+{:04X}", code);
        }
    }
    assert!(!whitespace('\u{200B}'));
    assert!(!whitespace('\u{FEFF}'));
}

#[test]
fn a_run_of_digits_is_read_to_its_end() {
    let text = chars("ab123cd");
    assert_eq!(scan_digits(&text, 2, 255), (5, Some(123)));
    assert_eq!(scan_digits(&text, 3, 255), (5, Some(23)));
    assert_eq!(scan_digits(&text, 0, 255), (0, Some(0)));
    assert_eq!(scan_digits(&text, 5, 255), (5, Some(0)));
    assert_eq!(scan_digits(&text, 7, 255), (7, Some(0)));
    let text = chars("256");
    assert_eq!(scan_digits(&text, 0, 255), (3, None));
    assert_eq!(scan_digits(&text, 0, 256), (3, Some(256)));
    let text = chars("255x");
    assert_eq!(scan_digits(&text, 0, 255), (3, Some(255)));
    let text = chars("00000000000000000000000000000000000007!");
    assert_eq!(scan_digits(&text, 0, 7), (38, Some(7)));
}

#[test]
fn numbers_up_to_a_limit() {
    assert_eq!(parse_unsigned(&chars("0"), u64::MAX), Some(0));
    assert_eq!(parse_unsigned(&chars("18446744073709551615"), u64::MAX), Some(u64::MAX));
    assert_eq!(parse_unsigned(&chars("18446744073709551616"), u64::MAX), None);
    assert_eq!(parse_unsigned(&chars("+42"), u64::MAX), Some(42));
    assert_eq!(parse_unsigned(&chars("42"), 41), None);
    assert_eq!(parse_unsigned(&chars("42"), 42), Some(42));
    assert_eq!(parse_unsigned(&chars(""), u64::MAX), None);
    assert_eq!(parse_unsigned(&chars("+"), u64::MAX), None);
    assert_eq!(parse_unsigned(&chars("-42"), u64::MAX), None);
    assert_eq!(parse_unsigned(&chars("4 2"), u64::MAX), None);
    assert_eq!(parse_unsigned(&chars("42 "), u64::MAX), None);
    assert_eq!(parse_unsigned(&chars("4+2"), u64::MAX), None);
}

#[test]
fn numbers_agree_with_the_standard_library() {
    for text in ["0", "7", "+7", "007", "65535", "4294967295", "4294967296", "", "+", "-", "-0",
        "1e3", "12a", "a12", "18446744073709551615", "18446744073709551616", " 1", "1 "] {
        assert_eq!(parse_unsigned(&chars(text), u64::MAX), text.parse::<u64>().ok(), "{:?}", text);
        assert_eq!(
            parse_unsigned(&chars(text), u32::MAX as u64),
            text.parse::<u32>().ok().map(|n| n as u64),
            "{:?}",
            text
        );
    }
}

#[test]
fn white_space_at_the_ends_is_cut_off() {
    for text in ["", " ", "\n", "17", " 17", "17\n", "\t 17 \r\n", "1 7", "  a b  ", "\u{3000}x\u{a0}"] {
        let all = chars(text);
        let (from, to) = trim_bounds(&all);
        let kept: String = all[from..to].iter().collect();
        assert_eq!(kept, text.trim(), "{:?}", text);
    }
}

#[test]
fn same_and_different_texts() {
    assert!(same_text("", ""));
    assert!(same_text("file", "file"));
    assert!(!same_text("file", "files"));
    assert!(!same_text("file", "fine"));
    assert!(!same_text("file", ""));
    assert!(same_text("é", "é"));
}

#[test]
fn same_and_different_runs_of_characters() {
    assert!(same_chars(&chars("abc"), &chars("abc")));
    assert!(same_chars(&chars(""), &chars("")));
    assert!(!same_chars(&chars("abc"), &chars("abd")));
    assert!(!same_chars(&chars("abc"), &chars("ab")));
}

#[test]
fn the_same_but_for_white_space_at_the_ends() {
    assert!(same_trimmed(" a b\n", "a b"));
    assert!(same_trimmed("a b", "a b"));
    assert!(same_trimmed("  ", ""));
    assert!(!same_trimmed(" a b\n", "ab"));
    assert!(!same_trimmed("a b", " a b"));
}

#[test]
fn numbers_are_written_in_base_ten() {
    for n in [0u64, 1, 9, 10, 11, 99, 100, 255, 256, 1000, 65535, 4294967296, u64::MAX] {
        assert_eq!(decimal_string(n), n.to_string());
    }
    let mut text = "in_accel_".to_owned();
    push_decimal(&mut text, 42);
    assert_eq!(text, "in_accel_42");
}

#[test]
fn what_is_written_is_read_back() {
    for n in [0u64, 7, 10, 1234567890, u64::MAX] {
        assert_eq!(parse_unsigned(&chars(&decimal_string(n)), u64::MAX), Some(n));
    }
}
