use genetic_framework::problem_factory::instance_text::{
    is_blank_byte, next_token, parse_number, read_clause, read_clauses, read_number,
};
use genetic_framework::problem_factory::sat_3::load_instance;

#[test]
fn load_instance_reads_a_clause_from_each_line() {
    let text = b"1 -2 3\n-4 5 -6\n7 8 9\n";
    assert_eq!(load_instance(text), Some(vec![(1, -2, 3), (-4, 5, -6), (7, 8, 9)]));
}

#[test]
fn load_instance_takes_a_last_line_without_line_feed() {
    assert_eq!(load_instance(b"1 2 3\n4 5 6"), Some(vec![(1, 2, 3), (4, 5, 6)]));
    assert_eq!(load_instance(b"1 2 3"), Some(vec![(1, 2, 3)]));
}

#[test]
fn load_instance_of_an_empty_text_has_no_clauses() {
    assert_eq!(load_instance(b""), Some(vec![]));
}

#[test]
fn load_instance_accepts_any_blanks_and_ignores_what_follows_the_third_number() {
    let text = b"  1\t2   3 0 trailing\r\n+4 -0 0007\r\n";
    assert_eq!(load_instance(text), Some(vec![(1, 2, 3), (4, 0, 7)]));
}

#[test]
fn load_instance_rejects_lines_that_spell_no_clause() {
    assert_eq!(load_instance(b"1 2 3\n\n"), None);
    assert_eq!(load_instance(b"\n"), None);
    assert_eq!(load_instance(b"1 2\n"), None);
    assert_eq!(load_instance(b"1 2 x\n"), None);
    assert_eq!(load_instance(b"1 2 3\n4 5\n6 7 8\n"), None);
    assert_eq!(load_instance(b"1 2 3.0\n"), None);
    assert_eq!(load_instance(b"1 2 -\n"), None);
    assert_eq!(load_instance(b"1 2 +-3\n"), None);
}

#[test]
fn read_clauses_is_what_load_instance_gives() {
    assert_eq!(read_clauses(b"3 2 1"), Some(vec![(3, 2, 1)]));
}

#[test]
fn parse_number_knows_the_limits_of_32_bits() {
    let parse = |token: &[u8]| parse_number(token, 0, token.len());
    assert_eq!(parse(b"2147483647"), Some(i32::MAX));
    assert_eq!(parse(b"2147483648"), None);
    assert_eq!(parse(b"-2147483648"), Some(i32::MIN));
    assert_eq!(parse(b"-2147483649"), None);
    assert_eq!(parse(b"+2147483647"), Some(i32::MAX));
    assert_eq!(parse(b"99999999999999999999999999"), None);
    assert_eq!(parse(b"-99999999999999999999999999"), None);
    assert_eq!(parse(b"000000000000000000000000012"), Some(12));
    assert_eq!(parse(b"0"), Some(0));
    assert_eq!(parse(b"-0"), Some(0));
    assert_eq!(parse(b"-17"), Some(-17));
}

#[test]
fn parse_number_rejects_what_is_no_number() {
    let parse = |token: &[u8]| parse_number(token, 0, token.len());
    assert_eq!(parse(b""), None);
    assert_eq!(parse(b"+"), None);
    assert_eq!(parse(b"-"), None);
    assert_eq!(parse(b"1-"), None);
    assert_eq!(parse(b"--1"), None);
    assert_eq!(parse(b"1a"), None);
    assert_eq!(parse(b"a1"), None);
    assert_eq!(parse(b"1 "), None);
    assert_eq!(parse(b"0x10"), None);
}

#[test]
fn parse_number_reads_the_named_range_only() {
    assert_eq!(parse_number(b"ab123cd", 2, 5), Some(123));
    assert_eq!(parse_number(b"ab-123cd", 2, 4), Some(-1));
    assert_eq!(parse_number(b"123", 1, 1), None);
}

#[test]
fn next_token_finds_the_first_run_that_is_not_blank() {
    assert_eq!(next_token(b"  ab  cd", 0, 8), Some((2, 4)));
    assert_eq!(next_token(b"  ab  cd", 4, 8), Some((6, 8)));
    assert_eq!(next_token(b"  ab  cd", 3, 8), Some((3, 4)));
    assert_eq!(next_token(b"  ab  cd", 0, 3), Some((2, 3)));
    assert_eq!(next_token(b"  ab  cd", 0, 2), None);
    assert_eq!(next_token(b"  ab  cd", 8, 8), None);
    assert_eq!(next_token(b" \t\r\n\x0b\x0c", 0, 6), None);
    assert_eq!(next_token(b"x", 0, 1), Some((0, 1)));
}

#[test]
fn blanks_are_the_six_white_bytes() {
    for byte in 0..=255u8 {
        let white = matches!(byte, b' ' | b'\t' | b'\n' | b'\r' | 0x0b | 0x0c);
        assert_eq!(is_blank_byte(byte), white);
    }
}

#[test]
fn read_number_and_read_clause_stay_on_their_line() {
    assert_eq!(read_number(b" 12 34", 0, 6), Some((12, 3)));
    assert_eq!(read_number(b" 12 34", 3, 6), Some((34, 6)));
    assert_eq!(read_number(b" 12 34", 6, 6), None);
    assert_eq!(read_number(b" 12 3x", 3, 6), None);
    assert_eq!(read_clause(b"1 2 3 4", 0, 7), Some((1, 2, 3)));
    assert_eq!(read_clause(b"1 2 3 4", 2, 7), Some((2, 3, 4)));
    assert_eq!(read_clause(b"1 2 3 4", 0, 4), None);
}
