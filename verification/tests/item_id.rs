use gmsv_workshop::item_id::{item_id_string, parse_item_id};

#[test]
fn parses_plain_decimal() {
    assert_eq!(parse_item_id("104533079"), Some(104533079));
}

#[test]
fn parses_with_leading_plus_and_zeros() {
    assert_eq!(parse_item_id("+42"), Some(42));
    assert_eq!(parse_item_id("0042"), Some(42));
}

#[test]
fn rejects_what_is_no_positive_number() {
    assert_eq!(parse_item_id(""), None);
    assert_eq!(parse_item_id("+"), None);
    assert_eq!(parse_item_id("0"), None);
    assert_eq!(parse_item_id("-5"), None);
    assert_eq!(parse_item_id("12a"), None);
    assert_eq!(parse_item_id(" 12"), None);
    assert_eq!(parse_item_id("1+2"), None);
    assert_eq!(parse_item_id("١٢"), None);
}

#[test]
fn accepts_the_largest_identifier_and_no_more() {
    assert_eq!(parse_item_id("18446744073709551615"), Some(u64::MAX));
    assert_eq!(parse_item_id("18446744073709551616"), None);
    assert_eq!(parse_item_id("99999999999999999999999"), None);
}

#[test]
fn writes_decimal() {
    assert_eq!(item_id_string(0), "0");
    assert_eq!(item_id_string(7), "7");
    assert_eq!(item_id_string(104533079), "104533079");
    assert_eq!(item_id_string(u64::MAX), "18446744073709551615");
}

#[test]
fn written_identifier_reads_back() {
    for id in [1u64, 9, 10, 99, 100, 104533079, u64::MAX] {
        assert_eq!(parse_item_id(&item_id_string(id)), Some(id));
    }
}
