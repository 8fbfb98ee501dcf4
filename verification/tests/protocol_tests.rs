use babblewitz::conformance::applicable_games;
use babblewitz::game::Game;
use babblewitz::protocol::{decode_worker_reply, parse_u128_str, parse_u64_str, ExecutionResult};

#[test]
fn test_parse_u64_grammar() {
    assert_eq!(parse_u64_str("1500000"), Some(1500000));
    assert_eq!(parse_u64_str("+123"), Some(123));
    assert_eq!(parse_u64_str("0"), Some(0));
    assert_eq!(parse_u64_str(""), None);
    assert_eq!(parse_u64_str("+"), None);
    assert_eq!(parse_u64_str("12a"), None);
    assert_eq!(parse_u64_str(" 12"), None);
    assert_eq!(parse_u64_str("-1"), None);
    assert_eq!(parse_u64_str("18446744073709551615"), Some(u64::MAX));
    assert_eq!(parse_u64_str("18446744073709551616"), None);
}

#[test]
fn test_parse_u128_overflow() {
    assert_eq!(
        parse_u128_str("18446744073709551616"),
        Some(18446744073709551616u128)
    );
    assert_eq!(
        parse_u128_str("340282366920938463463374607431768211455"),
        Some(u128::MAX)
    );
    assert_eq!(parse_u128_str("340282366920938463463374607431768211456"), None);
}

#[test]
fn test_decode_first_line_too_large_for_success() {
    // A first line that overflows 64 bits is no success even on a clean
    // exit, but it still counts as numeric for the error-message rule: the
    // second line is the message.
    let r = decode_worker_reply(true, Some(0), "20000000000000000000\nmsg", "");
    match r {
        ExecutionResult::Error { error } => assert_eq!(error, "msg"),
        ExecutionResult::Success { .. } => panic!("expected error"),
    }
}

#[test]
fn test_applicable_games_order_and_filter() {
    let tested = vec![Game::Vic3, Game::Eu4, Game::Ck3];
    let declared = vec![Game::Ck3, Game::Eu4, Game::Hoi4];
    // order follows the tested list, membership follows the declared list
    assert_eq!(
        applicable_games(&tested, &declared),
        vec![Game::Eu4, Game::Ck3]
    );
    assert_eq!(applicable_games(&tested, &vec![]), vec![]);
}
