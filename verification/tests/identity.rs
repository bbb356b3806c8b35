use chamber::acceptor::Acceptor;
use chamber::identity::identity_to_string;
use chamber::identity::parse_identity;

#[test]
fn digits_are_an_identity() {
    assert_eq!(parse_identity("0"), Some(0));
    assert_eq!(parse_identity("1"), Some(1));
    assert_eq!(parse_identity("42"), Some(42));
    assert_eq!(parse_identity("1234567890"), Some(1234567890));
}

#[test]
fn a_plus_sign_and_leading_zeros_are_accepted() {
    assert_eq!(parse_identity("+7"), Some(7));
    assert_eq!(parse_identity("007"), Some(7));
    assert_eq!(parse_identity("+000"), Some(0));
    assert_eq!(parse_identity("00000000000000000001"), Some(1));
}

#[test]
fn the_largest_identity_is_the_limit() {
    assert_eq!(parse_identity("4294967295"), Some(u32::MAX));
    assert_eq!(parse_identity("4294967296"), None);
    assert_eq!(parse_identity("4294967300"), None);
    assert_eq!(parse_identity("99999999999999999999"), None);
}

#[test]
fn other_texts_are_no_identity() {
    for text in ["", "+", "-1", "-0", "1a", "a1", " 1", "1 ", "1,2", "++1", "1+", "0x10", "１"] {
        assert_eq!(parse_identity(text), None, "{:?}", text);
    }
}

#[test]
fn parsing_agrees_with_the_standard_parser() {
    let texts = [
        "", "0", "+0", "-0", "+", "12", "012", "+12", "4294967295", "4294967296", "42949672950",
        "12x", "x12", "1 2", "९", "1.0", "+-1",
    ];
    for text in texts {
        assert_eq!(parse_identity(text), text.parse::<u32>().ok(), "{:?}", text);
    }
}

#[test]
fn identities_render_in_decimal() {
    assert_eq!(identity_to_string(0), "0");
    assert_eq!(identity_to_string(7), "7");
    assert_eq!(identity_to_string(10), "10");
    assert_eq!(identity_to_string(1234567890), "1234567890");
    assert_eq!(identity_to_string(u32::MAX), "4294967295");
}

#[test]
fn an_identity_is_what_its_text_stands_for() {
    for id in [0u32, 1, 9, 10, 99, 100, 65535, 65536, 4294967294, u32::MAX] {
        assert_eq!(parse_identity(&identity_to_string(id)), Some(id));
        assert_eq!(identity_to_string(id), id.to_string());
    }
}

#[test]
fn identities_are_assigned_in_order_from_zero() {
    let mut acceptor = Acceptor::new();
    assert_eq!(acceptor.assign(), 0);
    assert_eq!(acceptor.assign(), 1);
    assert_eq!(acceptor.assign(), 2);
    for expected in 3u32..1000 {
        assert_eq!(acceptor.assign(), expected);
    }
}
