use onu_admin::text::{
    chars_of, decimal_of, find, parse_signed, parse_unsigned, replace_all, same_text,
    signed_decimal_of, string_of, take_before_char, take_last_piece, take_quoted,
    take_second_piece, to_lowercase, trim,
};

fn chars(s: &str) -> Vec<char> {
    s.chars().collect()
}

fn text(chars: &[char]) -> String {
    chars.iter().collect()
}

#[test]
fn characters_and_strings_convert_both_ways() {
    assert_eq!(chars_of("a模b"), vec!['a', '模', 'b']);
    assert_eq!(string_of(&['a', '模', 'b']), "a模b");
    assert_eq!(string_of(&[]), "");
}

#[test]
fn find_gives_the_first_match_from_a_position() {
    let s = chars("abcabc");
    assert_eq!(find(&s, &chars("bc"), 0), Some(1));
    assert_eq!(find(&s, &chars("bc"), 1), Some(1));
    assert_eq!(find(&s, &chars("bc"), 2), Some(4));
    assert_eq!(find(&s, &chars("bc"), 5), None);
    assert_eq!(find(&s, &chars("abcabcd"), 0), None);
    assert_eq!(find(&s, &chars("x"), 0), None);
}

#[test]
fn second_piece_lies_between_the_first_two_matches() {
    let s = chars("a--b--c");
    assert_eq!(take_second_piece(&s, &chars("--")).map(text), Some("b".to_string()));
    let s = chars("a--b");
    assert_eq!(take_second_piece(&s, &chars("--")).map(text), Some("b".to_string()));
    assert_eq!(take_second_piece(&s, &chars("++")), None);
}

#[test]
fn last_piece_follows_the_last_match() {
    let s = chars("a--b--c");
    assert_eq!(take_last_piece(&s, &chars("--")).map(text), Some("c".to_string()));
    assert_eq!(take_last_piece(&s, &chars("++")), None);
    let s = chars("aaa");
    assert_eq!(take_last_piece(&s, &chars("aa")).map(text), Some("a".to_string()));
    let s = chars("x--");
    assert_eq!(take_last_piece(&s, &chars("--")).map(text), Some(String::new()));
}

#[test]
fn quoted_text_is_taken_between_quotation_marks() {
    assert_eq!(take_quoted(&chars("x = \"abc\"; y = \"d\"")).map(text), Some("abc".to_string()));
    assert_eq!(take_quoted(&chars("\"open")).map(text), Some("open".to_string()));
    assert_eq!(take_quoted(&chars("none")), None);
    assert_eq!(text(take_before_char(&chars("a)b)c"), ')')), "a");
    assert_eq!(text(take_before_char(&chars("abc"), ')')), "abc");
}

#[test]
fn trim_takes_white_space_from_both_ends() {
    assert_eq!(text(trim(&chars("  a b\t\r\n"))), "a b");
    assert_eq!(text(trim(&chars("\u{3000}\u{a0}x\u{2028}"))), "x");
    assert_eq!(text(trim(&chars(" \n "))), "");
    assert_eq!(text(trim(&chars("\u{200b}x"))), "\u{200b}x");
    assert_eq!(text(trim(&chars("  a b\t\r\n"))), "  a b\t\r\n".trim());
}

#[test]
fn replace_all_goes_from_left_to_right() {
    assert_eq!(text(&replace_all(&chars("aaa"), &chars("aa"), &chars("b"))), "ba");
    assert_eq!(text(&replace_all(&chars("abcabc"), &chars("bc"), &chars(""))), "aa");
    assert_eq!(text(&replace_all(&chars("abc"), &chars("x"), &chars("y"))), "abc");
    assert_eq!(text(&replace_all(&chars("abc"), &chars(""), &chars("y"))), "abc");
}

#[test]
fn numbers_are_written_in_decimal() {
    assert_eq!(text(&decimal_of(0)), "0");
    assert_eq!(text(&decimal_of(7)), "7");
    assert_eq!(text(&decimal_of(1050)), "1050");
    assert_eq!(text(&decimal_of(u64::MAX)), "18446744073709551615");
    assert_eq!(text(&signed_decimal_of(-1)), "-1");
    assert_eq!(text(&signed_decimal_of(0)), "0");
    assert_eq!(text(&signed_decimal_of(i64::MIN)), "-9223372036854775808");
    assert_eq!(text(&signed_decimal_of(i64::MAX)), "9223372036854775807");
}

#[test]
fn unsigned_numbers_are_read_as_the_standard_library_reads_them() {
    for s in ["0", "7", "0080", "+5", "4294967295", "4294967296", "", "+", "-1", " 1", "1 ", "1_0", "٣", "12a"] {
        assert_eq!(
            parse_unsigned(&chars(s), u32::MAX as u64),
            s.parse::<u32>().ok().map(|n| n as u64),
            "{:?}",
            s
        );
    }
    assert_eq!(parse_unsigned(&chars("18446744073709551615"), u64::MAX), Some(u64::MAX));
    assert_eq!(parse_unsigned(&chars("18446744073709551616"), u64::MAX), None);
    assert_eq!(parse_unsigned(&chars("99999999999999999999999999"), u64::MAX), None);
}

#[test]
fn signed_numbers_are_read_as_the_standard_library_reads_them() {
    for s in ["0", "-0", "-1", "+1", "3", "-", "+", "", "--1", "+-1", "2147483647", "2147483648", "-2147483648", "-2147483649", "1-"] {
        assert_eq!(
            parse_signed(&chars(s), i32::MIN as i64, i32::MAX as i64),
            s.parse::<i32>().ok().map(|n| n as i64),
            "{:?}",
            s
        );
    }
    assert_eq!(parse_signed(&chars("-9223372036854775808"), i64::MIN, i64::MAX), Some(i64::MIN));
    assert_eq!(parse_signed(&chars("-9223372036854775809"), i64::MIN, i64::MAX), None);
    assert_eq!(parse_signed(&chars("9223372036854775807"), i64::MIN, i64::MAX), Some(i64::MAX));
    assert_eq!(parse_signed(&chars("9223372036854775808"), i64::MIN, i64::MAX), None);
}

#[test]
fn signed_numbers_are_held_to_any_range() {
    assert_eq!(parse_signed(&chars("5"), 3, 7), Some(5));
    assert_eq!(parse_signed(&chars("3"), 3, 7), Some(3));
    assert_eq!(parse_signed(&chars("2"), 3, 7), None);
    assert_eq!(parse_signed(&chars("0"), 3, 7), None);
    assert_eq!(parse_signed(&chars("-5"), 3, 7), None);
    assert_eq!(parse_signed(&chars("-5"), -7, -3), Some(-5));
    assert_eq!(parse_signed(&chars("-0"), -7, -3), None);
    assert_eq!(parse_signed(&chars("-8"), -7, -3), None);
    assert_eq!(parse_signed(&chars("5"), -7, -3), None);
    assert_eq!(parse_signed(&chars("5"), 7, 3), None);
    assert_eq!(parse_signed(&chars("-0"), 0, 0), Some(0));
}

#[test]
fn small_letters_and_comparison() {
    assert_eq!(text(&to_lowercase(&chars("TCP/Udp-É"))), "tcp/udp-É");
    assert!(same_text("abc", "abc"));
    assert!(!same_text("abc", "abd"));
    assert!(!same_text("abc", "ab"));
    assert!(same_text("", ""));
}
