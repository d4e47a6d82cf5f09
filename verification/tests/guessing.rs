use mini_demos::guessing::{compare_guess, outcome_message, pick_secret, Comparison};
use mini_demos::numeral::parse_u32;

#[test]
fn comparator_reports_exactly_one_outcome() {
    for secret in 1..=100u32 {
        for guess in 1..=100u32 {
            let c = compare_guess(guess, secret);
            if guess < secret {
                assert_eq!(c, Comparison::Less);
            } else if guess > secret {
                assert_eq!(c, Comparison::Greater);
            } else {
                assert_eq!(c, Comparison::Equal);
            }
        }
    }
}

#[test]
fn outcome_messages_match_the_game() {
    assert_eq!(outcome_message(Comparison::Less), "Too small!");
    assert_eq!(outcome_message(Comparison::Greater), "Too big!");
    assert_eq!(outcome_message(Comparison::Equal), "You win!");
}

#[test]
fn secret_is_between_one_and_hundred() {
    for _ in 0..1000 {
        let s = pick_secret();
        assert!((1..=100).contains(&s));
    }
}

#[test]
fn parse_accepts_plain_numerals() {
    assert_eq!(parse_u32("42"), Some(42));
    assert_eq!(parse_u32("0"), Some(0));
    assert_eq!(parse_u32("100"), Some(100));
    assert_eq!(parse_u32("4294967295"), Some(u32::MAX));
}

#[test]
fn parse_trims_whitespace() {
    assert_eq!(parse_u32("  42\n"), Some(42));
    assert_eq!(parse_u32("\t7\r\n"), Some(7));
    assert_eq!(parse_u32(" 100 "), Some(100));
}

#[test]
fn parse_accepts_leading_plus() {
    assert_eq!(parse_u32("+7"), Some(7));
    assert_eq!(parse_u32(" +0\n"), Some(0));
}

#[test]
fn parse_rejects_malformed_input() {
    assert_eq!(parse_u32("abc"), None);
    assert_eq!(parse_u32(""), None);
    assert_eq!(parse_u32("\n"), None);
    assert_eq!(parse_u32("   "), None);
    assert_eq!(parse_u32("-5"), None);
    assert_eq!(parse_u32("12a"), None);
    assert_eq!(parse_u32("1 2"), None);
    assert_eq!(parse_u32("+"), None);
    assert_eq!(parse_u32("++1"), None);
}

#[test]
fn parse_rejects_values_past_u32() {
    assert_eq!(parse_u32("4294967296"), None);
    assert_eq!(parse_u32("99999999999999999999"), None);
}
