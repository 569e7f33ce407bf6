use epoch_services::keep::Bond;

#[test]
fn an_unpaired_machine_is_a_valid_machine_that_lends_nothing() {
    let empty = Bond::default();
    assert!(!empty.paired());
}

#[test]
fn a_machine_holding_a_secret_is_paired() {
    let bond = Bond { id: "h".to_owned(), secret: "s".to_owned(), host: "https://h:11501".to_owned() };
    assert!(bond.paired());
}
