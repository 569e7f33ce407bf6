use epoch_services::invite::{as_typed, spell, Code, LENGTH, LIFE_SECONDS, TRIES};

const READABLE: &str = "ABCDEFGHJKMNPQRSTUVWXYZ23456789";

fn fresh() -> Code {
    Code::fresh().expect("this machine has randomness")
}

#[test]
fn a_code_is_six_characters_a_person_can_read_aloud() {
    let code = fresh();
    assert_eq!(code.as_str().len(), 6);
    assert_eq!(LENGTH, 6);
    for c in code.as_str().chars() {
        assert!(READABLE.contains(c), "{c} is easy to mistype");
        assert!(!"01ILO".contains(c), "{c} is easy to misread");
    }
}

#[test]
fn it_is_not_case_sensitive_because_a_person_is_typing_it() {
    let code = fresh();
    assert!(code.matches(&code.as_str().to_lowercase()));
    assert!(code.matches(&format!("  {}  ", code.as_str())));
}

#[test]
fn a_wrong_code_is_refused_and_so_is_a_short_one() {
    let code = fresh();
    assert!(!code.matches(""));
    assert!(!code.matches("ABC"));
    assert!(!code.matches(&format!("{}X", code.as_str())));
}

#[test]
fn an_expired_code_matches_nothing_including_itself() {
    // Five minutes and one second after it was made.
    let code = fresh();
    let late = LIFE_SECONDS + 1;
    assert!(code.expired_after(late));
    assert!(!code.matches_after(code.as_str().to_owned().as_str(), late));
    assert_eq!(Code::left_after(late, 0), 0);
}

#[test]
fn a_code_that_is_being_guessed_at_stops_being_one() {
    let mut code = fresh();
    for _ in 0..TRIES {
        assert!(!code.attempt("ZZZZZZ"));
    }
    assert!(code.expired(), "ten wrong answers burn it");
    assert!(!code.attempt(code.as_str().to_owned().as_str()));
}

#[test]
fn a_right_answer_costs_nothing() {
    let mut code = fresh();
    for _ in 0..(TRIES * 3) {
        assert!(code.attempt(code.as_str().to_owned().as_str()));
    }
    assert!(!code.expired());
}

#[test]
fn a_fresh_code_has_its_whole_life_left() {
    assert!(fresh().left() > LIFE_SECONDS - 5);
}

#[test]
fn random_bytes_spell_letters_a_person_can_read() {
    // Each byte picks one of the 31 letters by its remainder.
    assert_eq!(spell(&[0, 1, 30, 31, 62, 255]), "AB9AAH");
    assert_eq!(spell(&[]), "");
}

#[test]
fn time_left_counts_down_in_whole_seconds() {
    assert_eq!(Code::left_after(0, 0), 300);
    assert_eq!(Code::left_after(0, 1), 299);
    assert_eq!(Code::left_after(115, 0), 185);
    assert_eq!(Code::left_after(299, 999_999_999), 0);
    assert_eq!(Code::left_after(300, 0), 0);
}

#[test]
fn a_code_lasts_five_minutes_by_the_clock() {
    let code = fresh();
    assert!(!code.expired_after(0));
    assert!(!code.expired_after(LIFE_SECONDS - 1));
    assert!(code.expired_after(LIFE_SECONDS));
    let right = code.as_str().to_owned();
    assert!(code.matches_after(&right, LIFE_SECONDS - 1));
    assert!(!code.matches_after(&right, LIFE_SECONDS));
}

#[test]
fn a_typed_code_is_sent_as_the_host_shows_it() {
    assert_eq!(as_typed("  k7m2qx \n"), "K7M2QX");
}
