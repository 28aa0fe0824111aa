use solana_monitor::expression::evaluate;
use solana_monitor::monitor::SolanaMatchParamEntry;
use solana_monitor::number::{parse_i64, parse_u64, render_i64, render_u64, to_unsigned};

fn entry(name: &str, value: &str, kind: &str) -> SolanaMatchParamEntry {
    SolanaMatchParamEntry {
        name: name.to_string(),
        value: value.to_string(),
        kind: kind.to_string(),
        indexed: false,
    }
}

fn chars(s: &str) -> Vec<char> {
    s.chars().collect()
}

#[test]
fn or_group_is_true_when_one_group_holds() {
    let args = vec![entry("a", "0", "u64"), entry("b", "1", "u64")];
    assert!(evaluate("a > 0 OR b > 0", &args));
}

#[test]
fn and_group_is_false_when_one_atom_fails() {
    let args = vec![entry("a", "0", "u64"), entry("b", "1", "u64")];
    assert!(!evaluate("a > 0 AND b > 0", &args));
}

#[test]
fn absent_name_makes_atom_false() {
    let args = vec![entry("a", "5", "u64")];
    assert!(!evaluate("missing > 0", &args));
    assert!(!evaluate("missing == 0 AND a > 0", &args));
    assert!(!evaluate("missing == 0 OR other < 3", &args));
    assert!(!evaluate("x > 1", &vec![]));
}

#[test]
fn numeric_operators() {
    let args = vec![entry("n", "10", "u64")];
    assert!(evaluate("n >= 10", &args));
    assert!(!evaluate("n > 10", &args));
    assert!(evaluate("n < 11", &args));
    assert!(evaluate("n <= 10", &args));
    assert!(evaluate("n == 10", &args));
    assert!(evaluate("n != 9", &args));
    assert!(!evaluate("n ~ 9", &args));
}

#[test]
fn numeric_kinds_and_unparsable_values() {
    assert!(evaluate("v == 7", &vec![entry("v", "7", "u8")]));
    assert!(evaluate("v == 7", &vec![entry("v", "7", "u16")]));
    assert!(evaluate("v == 7", &vec![entry("v", "7", "usize")]));
    assert!(evaluate("v == 0", &vec![entry("v", "seven", "u32")]));
    assert!(evaluate("v == 0", &vec![entry("v", "18446744073709551616", "u128")]));
    assert!(!evaluate("v == 7", &vec![entry("v", "7", "bool")]));
}

#[test]
fn signed_values_compare_through_unsigned_form() {
    let args = vec![entry("t", "-1", "i64")];
    assert!(evaluate("t > 0", &args));
    assert!(evaluate("t == -1", &args));
    assert!(evaluate("t == 18446744073709551615", &args));
    let pos = vec![entry("t", "1678901234", "i64")];
    assert!(evaluate("t > 0", &pos));
    assert!(!evaluate("t < 0", &pos));
}

#[test]
fn text_operators() {
    let args = vec![entry("s", "OpenDca", "string"), entry("k", "DCA265Vj", "pubkey")];
    assert!(evaluate("s == OpenDca", &args));
    assert!(evaluate("s != CloseDca", &args));
    assert!(evaluate("s starts_with Open", &args));
    assert!(evaluate("s ends_with Dca", &args));
    assert!(evaluate("s contains enD", &args));
    assert!(!evaluate("s contains xyz", &args));
    assert!(evaluate("k starts_with DCA", &args));
    assert!(!evaluate("s > 1", &args));
}

#[test]
fn malformed_atoms_are_false() {
    let args = vec![entry("a", "1", "u64")];
    assert!(!evaluate("", &args));
    assert!(!evaluate("a >", &args));
    assert!(!evaluate("a > 0 extra", &args));
    assert!(evaluate("(a > 0)", &args));
    assert!(evaluate("  (a == 1)  AND (a < 2) ", &args));
}

#[test]
fn parses_like_std() {
    assert_eq!(parse_u64(&chars("42")), Some(42));
    assert_eq!(parse_u64(&chars("+42")), Some(42));
    assert_eq!(parse_u64(&chars("")), None);
    assert_eq!(parse_u64(&chars("+")), None);
    assert_eq!(parse_u64(&chars("-1")), None);
    assert_eq!(parse_u64(&chars("18446744073709551615")), Some(u64::MAX));
    assert_eq!(parse_u64(&chars("18446744073709551616")), None);
    assert_eq!(parse_i64(&chars("-9223372036854775808")), Some(i64::MIN));
    assert_eq!(parse_i64(&chars("9223372036854775808")), None);
    assert_eq!(parse_i64(&chars("-")), None);
    assert_eq!(parse_i64(&chars("-12")), Some(-12));
}

#[test]
fn renders_like_to_string() {
    assert_eq!(render_u64(0), "0");
    assert_eq!(render_u64(5000000), "5000000");
    assert_eq!(render_u64(u64::MAX), u64::MAX.to_string());
    assert_eq!(render_i64(-60), "-60");
    assert_eq!(render_i64(i64::MIN), i64::MIN.to_string());
    assert_eq!(to_unsigned(-1), u64::MAX);
    assert_eq!(to_unsigned(7), 7);
}
