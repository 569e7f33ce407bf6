use epoch_services::form::{read_form, unescape};

#[test]
fn a_typed_form_survives_the_wire() {
    let form = read_form("code=K7M2QX&host=http%3A%2F%2F192.168.1.10%3A11500");
    assert_eq!(form.get("code"), Some("K7M2QX"));
    assert_eq!(form.get("host"), Some("http://192.168.1.10:11500"));
}

#[test]
fn a_plus_is_a_space_and_not_a_plus() {
    assert_eq!(unescape("Studio+Mac"), "Studio Mac");
}

#[test]
fn an_escape_stands_for_its_byte_and_a_broken_one_for_itself() {
    assert_eq!(unescape("%41%62"), "Ab");
    assert_eq!(unescape("100%"), "100%");
    assert_eq!(unescape("%4"), "%4");
    assert_eq!(unescape("%zz"), "%zz");
    assert_eq!(unescape("%2B"), "+");
    // Two escapes that spell one character in UTF-8.
    assert_eq!(unescape("caf%C3%A9"), "café");
    // Bytes that spell no text are replaced rather than refused.
    assert_eq!(unescape("%FF"), "\u{fffd}");
}

#[test]
fn a_name_sent_twice_keeps_the_last_value() {
    let form = read_form("a=1&b=2&a=3");
    assert_eq!(form.get("a"), Some("3"));
    assert_eq!(form.get("b"), Some("2"));
    assert_eq!(form.get("c"), None);
}

#[test]
fn a_piece_without_an_equals_is_no_field_and_an_empty_value_is_one() {
    let form = read_form("adult&kind=&query=cats%20and+dogs&=x");
    assert!(!form.has("adult"));
    assert!(form.has("kind"));
    assert_eq!(form.value("kind"), "");
    assert_eq!(form.value("query"), "cats and dogs");
    assert_eq!(form.get(""), Some("x"));
    assert_eq!(form.value("missing"), "");
    assert_eq!(form.fields.len(), 3);
}

#[test]
fn a_value_may_hold_an_equals_of_its_own() {
    let form = read_form("cursor=a=b");
    assert_eq!(form.get("cursor"), Some("a=b"));
    assert!(read_form("").fields.is_empty());
}
