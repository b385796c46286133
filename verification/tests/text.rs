use rpc_gateway::text::{
    decimal_text, parse_u64, ratio_text, same_ignoring_case, truncate_text, truncate_text_lossy,
};

#[test]
fn short_text_is_not_truncated() {
    assert_eq!(truncate_text("abc", 3), "abc");
    assert_eq!(truncate_text("", 0), "");
}

#[test]
fn long_text_is_cut_by_characters() {
    assert_eq!(truncate_text("äöüß", 3), "äöü...");
    assert_eq!(truncate_text("abc", 0), "...");
    assert_eq!(truncate_text_lossy("äöüß".as_bytes(), 2), "äö...");
}

#[test]
fn bytes_that_are_no_text_are_replaced() {
    assert_eq!(truncate_text_lossy(b"a\xffb", 10), "a\u{fffd}b");
    assert_eq!(truncate_text_lossy(b"a\xffb", 2), "a\u{fffd}...");
}

#[test]
fn numbers_as_text() {
    assert_eq!(decimal_text(0), "0");
    assert_eq!(decimal_text(10), "10");
    assert_eq!(decimal_text(1_234_567_890), "1234567890");
    assert_eq!(decimal_text(u128::MAX), "340282366920938463463374607431768211455");
    assert_eq!(ratio_text(2, 3), "2/3");
}

#[test]
fn text_as_numbers() {
    assert_eq!(parse_u64("007", 10), Some(7));
    assert_eq!(parse_u64("+7", 10), Some(7));
    assert_eq!(parse_u64("++7", 10), None);
    assert_eq!(parse_u64("+", 10), None);
    assert_eq!(parse_u64(" 7", 10), None);
    assert_eq!(parse_u64("fF", 16), Some(255));
    assert_eq!(parse_u64("fg", 16), None);
    assert_eq!(parse_u64("18446744073709551615", 10), Some(u64::MAX));
    assert_eq!(parse_u64("18446744073709551616", 10), None);
}

#[test]
fn letter_case_is_that_of_ascii() {
    assert!(same_ignoring_case("getSlot", "GETSLOT"));
    assert!(!same_ignoring_case("getSlot", "getSlots"));
    assert!(!same_ignoring_case("ä", "Ä"));
}
