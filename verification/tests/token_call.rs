use onu_admin::onu::parse_transfer_meaning;
use onu_admin::onu::token_call::{extract, unescape};

fn text(chars: Vec<char>) -> String {
    chars.into_iter().collect()
}

fn chars(s: &str) -> Vec<char> {
    s.chars().collect()
}

#[test]
fn reads_the_value_of_a_call() {
    let body = "<script>Transfer_meaning('Name0','web');</script>";
    assert_eq!(parse_transfer_meaning(body, "Name0"), Some("web".to_string()));
}

#[test]
fn reads_a_call_written_with_a_space() {
    let body = "x Transfer_meaning('F', 'V') y";
    assert_eq!(parse_transfer_meaning(body, "F"), Some("V".to_string()));
}

#[test]
fn reads_a_call_with_white_space_around_the_value() {
    let body = "Transfer_meaning('F',\t 'a b' \n);";
    assert_eq!(parse_transfer_meaning(body, "F"), Some("a b".to_string()));
}

#[test]
fn absent_field_gives_nothing() {
    let body = "Transfer_meaning('Name0','web');";
    assert_eq!(parse_transfer_meaning(body, "Name1"), None);
    assert_eq!(parse_transfer_meaning("", "Name0"), None);
}

#[test]
fn empty_value_is_not_absent() {
    let body = "Transfer_meaning('Name0','');";
    assert_eq!(parse_transfer_meaning(body, "Name0"), Some(String::new()));
}

#[test]
fn the_last_call_counts() {
    let body = "Transfer_meaning('IF_INSTNUM','1');\nTransfer_meaning('IF_INSTNUM','3');";
    assert_eq!(parse_transfer_meaning(body, "IF_INSTNUM"), Some("3".to_string()));
}

#[test]
fn the_field_name_is_matched_whole() {
    let body = "Transfer_meaning('Name10','ten');Transfer_meaning('Name1','one');";
    assert_eq!(parse_transfer_meaning(body, "Name1"), Some("one".to_string()));
    assert_eq!(parse_transfer_meaning(body, "Name10"), Some("ten".to_string()));
    assert_eq!(parse_transfer_meaning(body, "Name"), None);
}

#[test]
fn value_without_apostrophes_gives_nothing() {
    assert_eq!(parse_transfer_meaning("Transfer_meaning('F',V);", "F"), None);
    assert_eq!(parse_transfer_meaning("Transfer_meaning('F','V);", "F"), None);
    assert_eq!(parse_transfer_meaning("Transfer_meaning('F',');", "F"), None);
    assert_eq!(parse_transfer_meaning("Transfer_meaning('F',);", "F"), None);
}

#[test]
fn value_ends_at_the_first_closing_bracket() {
    assert_eq!(parse_transfer_meaning("Transfer_meaning('F','a)b');", "F"), None);
    assert_eq!(
        parse_transfer_meaning("Transfer_meaning('F','a'b') rest", "F"),
        Some("a'b".to_string())
    );
}

#[test]
fn call_without_closing_bracket_runs_to_the_end() {
    assert_eq!(parse_transfer_meaning("Transfer_meaning('F','open'  ", "F"), Some("open".to_string()));
}

#[test]
fn the_four_codes_are_undone() {
    let body = r"Transfer_meaning('IPAddr0','192\x2e168\x2e1\x2e2');";
    assert_eq!(parse_transfer_meaning(body, "IPAddr0"), Some("192.168.1.2".to_string()));
    let body = r"Transfer_meaning('M','aa\x3abb\x2dcc\x5fdd');";
    assert_eq!(parse_transfer_meaning(body, "M"), Some("aa:bb-cc_dd".to_string()));
}

#[test]
fn no_other_code_is_undone() {
    let body = r"Transfer_meaning('M','a\x2fb\x2Dc\x3A\\x5');";
    assert_eq!(parse_transfer_meaning(body, "M"), Some(r"a\x2fb\x2Dc\x3A\\x5".to_string()));
}

#[test]
fn unescape_takes_each_code_once() {
    assert_eq!(text(unescape(&chars(r"\x2d\x2e\x3a\x5f"))), "-.:_");
    assert_eq!(text(unescape(&chars(r"\x\x2d2d"))), r"\x-2d");
    assert_eq!(text(unescape(&chars(r"\x2"))), r"\x2");
    assert_eq!(text(unescape(&chars(""))), "");
}

#[test]
fn extract_works_on_characters() {
    let body = chars("Transfer_meaning('名','值\\x2d1');");
    assert_eq!(extract(&body, &chars("名")).map(text), Some("值-1".to_string()));
    assert_eq!(extract(&body, &chars("值")), None);
}
