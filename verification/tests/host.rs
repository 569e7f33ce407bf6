use epoch_services::host::{enrol, refusal, route, take, take_after, Enrol, Route};
use epoch_services::invite::{Code, LIFE_SECONDS, TRIES};

#[test]
fn the_page_is_not_on_this_door_at_all() {
    // Not "refused when it comes from the network" — absent. The right secret opens none of
    // the person's pages on the Host's door.
    for path in ["/", "/models", "/settings", "/install", "/start"] {
        assert_eq!(route("GET", path, true), Route::Refused, "{path} must not be on the Host's door");
    }
}

#[test]
fn every_route_but_one_needs_the_secret() {
    for (method, path) in [
        ("GET", "/have"),
        ("POST", "/ask"),
        ("POST", "/release"),
        ("POST", "/show"),
        ("GET", "/easel/schema"),
        ("POST", "/easel/draw"),
    ] {
        assert_eq!(route(method, path, false), Route::Refused, "{path} answered without a bearer");
    }
    assert_eq!(route("POST", "/enrol", false), Route::Enrol);
}

#[test]
fn the_secret_opens_what_the_host_asks_for() {
    assert_eq!(route("GET", "/have", true), Route::Have);
    assert_eq!(route("POST", "/ask", true), Route::Ask);
    assert_eq!(route("POST", "/release", true), Route::Release);
    assert_eq!(route("POST", "/show", true), Route::Show);
    assert_eq!(route("GET", "/easel/schema", true), Route::EaselSchema);
    assert_eq!(route("POST", "/easel/draw", true), Route::EaselDraw);
    // The method is part of the route.
    assert_eq!(route("GET", "/ask", true), Route::Refused);
}

#[test]
fn one_invitation_admits_one_machine() {
    // The check and the taking are one act, done while the caller holds the one lock: however
    // many machines arrive with the right code, the first admitted takes it away from the rest.
    const HANDS: usize = 8;
    for round in 0..300 {
        let code = Code::fresh().expect("randomness");
        let right = code.as_str().to_owned();
        let showing = std::sync::Mutex::new(Some(code));
        let admitted: usize = (0..HANDS)
            .map(|_| {
                let mut held = showing.lock().expect("the code");
                usize::from(take(&mut held, &right))
            })
            .sum();
        assert_eq!(admitted, 1, "one code, one machine (round {round})");
        assert!(showing.lock().expect("the code").is_none(), "and it is gone afterwards (round {round})");
    }
}

#[test]
fn a_wrong_code_does_not_burn_the_invitation() {
    let mut showing = Some(Code::fresh().expect("randomness"));
    assert!(!take(&mut showing, "ZZZZZZ"));
    assert!(showing.is_some(), "a wrong answer must leave the code on screen");
}

#[test]
fn enrolling_needs_the_code_that_is_on_screen() {
    let mut showing = Some(Code::fresh().expect("randomness"));
    let wrong = Enrol { code: "ZZZZZZ".into(), secret: "s".into(), host: "h".into() };
    assert!(enrol(&mut showing, Some(wrong)).is_none());
    // And it is still showing, because a wrong answer must not spend somebody else's code.
    assert!(showing.is_some());
    assert!(!take(&mut showing, "ZZZZZZ"));
    assert!(showing.is_some());
    let mut nothing: Option<Code> = None;
    assert!(!take(&mut nothing, "ZZZZZZ"));
}

#[test]
fn ten_wrong_answers_burn_it_and_the_right_one_then_admits_nobody() {
    let code = Code::fresh().expect("randomness");
    let right = code.as_str().to_owned();
    let mut showing = Some(code);
    for _ in 0..TRIES {
        assert!(!take_after(&mut showing, "ZZZZZZ", 0));
    }
    assert!(!take_after(&mut showing, &right, 0));
    assert!(showing.is_some());
}

#[test]
fn a_late_answer_admits_nobody() {
    let code = Code::fresh().expect("randomness");
    let right = code.as_str().to_owned();
    let mut showing = Some(code);
    assert!(!take_after(&mut showing, &right, LIFE_SECONDS));
    assert!(take_after(&mut showing, &right.to_lowercase(), LIFE_SECONDS - 1));
    assert!(showing.is_none());
}

#[test]
fn the_right_code_enrols_the_host_under_its_own_address() {
    let code = Code::fresh().expect("randomness");
    let right = code.as_str().to_owned();
    let mut showing = Some(code);
    assert!(enrol(&mut showing, None).is_none());
    assert!(showing.is_some(), "an unreadable body spends nothing");
    let said = Enrol { code: right, secret: "s3cret".into(), host: "https://10.0.0.9:11501".into() };
    let bond = enrol(&mut showing, Some(said)).expect("admitted");
    assert_eq!(bond.id, "https://10.0.0.9:11501");
    assert_eq!(bond.host, "https://10.0.0.9:11501");
    assert_eq!(bond.secret, "s3cret");
    assert!(showing.is_none(), "and the code is gone");
}

#[test]
fn a_refusal_is_one_object_with_the_studio_words_in_it() {
    assert_eq!(refusal("no checkpoint"), r#"{"problem":"no checkpoint"}"#);
    assert_eq!(refusal("a \"b\""), r#"{"problem":"a \"b\""}"#);
}

#[test]
fn an_unpaired_machine_opens_nothing_whatever_it_is_offered() {
    let unpaired = epoch_services::keep::Bond::default();
    for offered in [None, Some(""), Some("anything")] {
        let admitted = epoch_services::door::bearer_matches(&unpaired, offered);
        assert_eq!(route("GET", "/have", admitted), Route::Refused);
        assert_eq!(route("POST", "/enrol", admitted), Route::Enrol);
    }
}

#[test]
fn a_refusal_escapes_what_json_cannot_hold_raw() {
    assert_eq!(
        refusal("a\\b\n\t\u{1}\u{1f}é"),
        "{\"problem\":\"a\\\\b\\n\\t\\u0001\\u001fé\"}"
    );
}
