use monad_monitor::fmt::u64_to_string;
use monad_monitor::num::parse_scaled_chars;
use monad_monitor::ui::{format_number, get_snowflake, is_snowflake};

fn parse_scaled(s: &str, scale: u32) -> Option<u64> {
    let chars: Vec<char> = s.chars().collect();
    parse_scaled_chars(&chars, scale)
}

#[test]
fn numbers_group_by_thousands() {
    assert_eq!(format_number(0), "0");
    assert_eq!(format_number(999), "999");
    assert_eq!(format_number(1000), "1,000");
    assert_eq!(format_number(1234567), "1,234,567");
    assert_eq!(format_number(1000000007), "1,000,000,007");
}

#[test]
fn decimal_rendering_is_plain() {
    assert_eq!(u64_to_string(0), "0");
    assert_eq!(u64_to_string(18446744073709551615), "18446744073709551615");
}

#[test]
fn scaled_parse_reads_plain_and_exponential_numbers() {
    assert_eq!(parse_scaled("4.1929095e+07", 0), Some(41929095));
    assert_eq!(parse_scaled("1e3", 0), Some(1000));
    assert_eq!(parse_scaled("1.75", 2), Some(175));
    assert_eq!(parse_scaled("109.30", 2), Some(10930));
    assert_eq!(parse_scaled("6.11", 2), Some(611));
    assert_eq!(parse_scaled("0.5", 0), Some(0));
    assert_eq!(parse_scaled("2.5e-1", 0), Some(0));
    assert_eq!(parse_scaled("12.", 0), Some(12));
    assert_eq!(parse_scaled(".5", 1), Some(5));
    assert_eq!(parse_scaled("+7", 0), Some(7));
}

#[test]
fn scaled_parse_clamps_extremes() {
    assert_eq!(parse_scaled("-5", 0), Some(0));
    assert_eq!(parse_scaled("inf", 0), Some(u64::MAX));
    assert_eq!(parse_scaled("-Infinity", 0), Some(0));
    assert_eq!(parse_scaled("NaN", 0), Some(0));
    assert_eq!(parse_scaled("1e999", 0), Some(u64::MAX));
    assert_eq!(parse_scaled("1e-999", 0), Some(0));
    assert_eq!(parse_scaled("99999999999999999999999", 0), Some(u64::MAX));
}

#[test]
fn scaled_parse_rejects_non_numbers() {
    assert_eq!(parse_scaled("", 0), None);
    assert_eq!(parse_scaled(".", 0), None);
    assert_eq!(parse_scaled("1e", 0), None);
    assert_eq!(parse_scaled("abc", 0), None);
    assert_eq!(parse_scaled("1.2.3", 0), None);
    assert_eq!(parse_scaled("1 2", 0), None);
}

#[test]
fn snowflake_cells_are_deterministic() {
    assert!(!is_snowflake(0, 0, 0, 0));
    for row in 0..20 {
        for col in 0..20 {
            let a = is_snowflake(row, col, 7, 12);
            let b = is_snowflake(row, col, 7, 12);
            assert_eq!(a, b);
        }
    }
    // column 6 belongs to the first stream: its flake sits one row
    // below the wrap point at this tick
    assert!(is_snowflake(1, 6, 7, 12));
}

#[test]
fn snowflake_glyphs_cycle() {
    assert_eq!(get_snowflake(0, 0, 0), "*");
    assert_eq!(get_snowflake(1, 0, 0), ".");
    assert_eq!(get_snowflake(2, 0, 0), "+");
    assert_eq!(get_snowflake(3, 0, 0), "`");
    assert_eq!(get_snowflake(4, 0, 0), ".");
    assert_eq!(get_snowflake(5, 0, 0), "*");
    assert_eq!(get_snowflake(6, 0, 0), "*");
}
