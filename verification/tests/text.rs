use epoch_services::text::{decimal_of, join, one_place_of, parse_at_most, same};

#[test]
fn numbers_are_read_as_an_unsigned_parse_reads_them() {
    assert_eq!(parse_at_most("42", u64::MAX), Some(42));
    assert_eq!(parse_at_most("+42", u64::MAX), Some(42));
    assert_eq!(parse_at_most("", u64::MAX), None);
    assert_eq!(parse_at_most("+", u64::MAX), None);
    assert_eq!(parse_at_most("-1", u64::MAX), None);
    assert_eq!(parse_at_most("4 2", u64::MAX), None);
    assert_eq!(parse_at_most("18446744073709551615", u64::MAX), Some(u64::MAX));
    assert_eq!(parse_at_most("18446744073709551616", u64::MAX), None);
    assert_eq!(parse_at_most("4294967296", u32::MAX as u64), None);
    assert_eq!(parse_at_most("4294967295", u32::MAX as u64), Some(u32::MAX as u64));
}

#[test]
fn the_small_pieces_of_every_page() {
    assert_eq!(decimal_of(0), "0");
    assert_eq!(decimal_of(1_234_567), "1234567");
    assert_eq!(one_place_of(337), "33.7");
    assert_eq!(one_place_of(5), "0.5");
    assert_eq!(join(&vec!["a".to_owned(), "b".to_owned()], " · "), "a · b");
    assert_eq!(join(&Vec::new(), ", "), "");
    assert!(same("abc", "abc"));
    assert!(!same("abc", "abd"));
    assert_eq!(epoch_services::here::name_from("  a b \n"), Some("a b".to_owned()));
}
