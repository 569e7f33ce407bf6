use epoch_services::window::{
    ceiling, html, page_for, path, preview_token, read_at_most, refused, refused_as_declared,
    refused_as_read, room_for_another, see_other, Page, ASK_LIMIT, FORM_LIMIT, IN_FLIGHT,
};

#[test]
fn nothing_from_elsewhere_reaches_the_persons_pages() {
    for (method, p) in [("GET", "/"), ("POST", "/pair"), ("GET", "/preview/abc"), ("POST", "/models/remove")] {
        assert_eq!(page_for(method, p, false), Page::Refused, "{method} {p}");
    }
}

#[test]
fn every_page_and_action_is_found_by_its_method_and_path() {
    let all = [
        ("GET", "/", Page::Connect),
        ("POST", "/pair", Page::Pair),
        ("POST", "/invite", Page::Invite),
        ("POST", "/uninvite", Page::Uninvite),
        ("POST", "/unpair", Page::Unpair),
        ("GET", "/workshop", Page::Workshop),
        ("GET", "/models", Page::Models),
        ("POST", "/models/ask", Page::ModelsAsk),
        ("POST", "/models/measure", Page::ModelsMeasure),
        ("POST", "/models/keep", Page::ModelsKeep),
        ("POST", "/models/remove", Page::ModelsRemove),
        ("POST", "/models/recipe", Page::ModelsRecipe),
        ("POST", "/models/time", Page::ModelsTime),
        ("GET", "/creations", Page::Creations),
        ("POST", "/creations/search", Page::CreationsSearch),
        ("POST", "/creations/more", Page::CreationsMore),
        ("POST", "/creations/shelved", Page::CreationsShelved),
        ("POST", "/creations/import", Page::CreationsImport),
        ("POST", "/creations/install", Page::CreationsInstall),
        ("POST", "/fits", Page::Fits),
        ("POST", "/weigh", Page::Weigh),
        ("POST", "/search", Page::Search),
        ("GET", "/services", Page::Services),
        ("GET", "/settings", Page::Settings),
        ("POST", "/settings/key", Page::SettingsKey),
        ("POST", "/start", Page::Start),
        ("POST", "/shelf", Page::Shelf),
        ("POST", "/install", Page::Install),
        ("POST", "/studio-install", Page::StudioInstall),
        ("POST", "/studio-stop", Page::StudioStop),
        ("POST", "/studio-start", Page::StudioStart),
        ("POST", "/page", Page::Paging),
        ("POST", "/open", Page::Open),
        ("POST", "/file", Page::File),
        ("POST", "/pull", Page::Pull),
        ("GET", "/preview/abc123", Page::Preview),
    ];
    for (method, p, page) in all {
        assert_eq!(page_for(method, p, true), page, "{method} {p}");
    }
}

#[test]
fn a_get_of_an_action_is_not_a_route() {
    // The defect POST/Redirect/GET fixed: a reload of `/pull` used to be answered `no`.
    assert_eq!(page_for("GET", "/pull", true), Page::Refused);
    assert_eq!(page_for("POST", "/", true), Page::Refused);
    assert_eq!(page_for("PUT", "/", true), Page::Refused);
    assert_eq!(page_for("GET", "/nowhere", true), Page::Refused);
}

#[test]
fn the_query_is_not_part_of_the_path() {
    assert_eq!(path("/models?x=1"), "/models");
    assert_eq!(path("/"), "/");
    assert_eq!(path("/a?b?c"), "/a");
    assert_eq!(path(""), "");
}

#[test]
fn a_preview_is_named_by_its_token() {
    assert_eq!(preview_token("/preview/abc123"), "abc123");
    // As `trim_start_matches` reads it: every leading prefix goes.
    assert_eq!(preview_token("/preview//preview/x"), "x");
}

#[test]
fn a_turn_may_be_large_and_a_form_may_not() {
    assert_eq!(FORM_LIMIT, 1024 * 1024);
    assert_eq!(ASK_LIMIT, 64 * 1024 * 1024);
    for p in ["/ask", "/easel/draw", "/show"] {
        assert_eq!(ceiling(p), ASK_LIMIT, "{p}");
    }
    for p in ["/", "/pair", "/askx", "/enrol"] {
        assert_eq!(ceiling(p), FORM_LIMIT, "{p}");
    }
}

#[test]
fn a_body_is_refused_by_what_it_claims_and_by_what_arrives() {
    assert!(refused_as_declared(Some(FORM_LIMIT + 1), FORM_LIMIT));
    assert!(!refused_as_declared(Some(FORM_LIMIT), FORM_LIMIT));
    assert!(!refused_as_declared(None, FORM_LIMIT));
    assert_eq!(read_at_most(FORM_LIMIT), FORM_LIMIT as u64 + 1);
    assert!(refused_as_read(FORM_LIMIT as u64 + 1, FORM_LIMIT));
    assert!(!refused_as_read(FORM_LIMIT as u64, FORM_LIMIT));
}

#[test]
fn the_door_is_busy_past_its_limit() {
    assert_eq!(IN_FLIGHT, 32);
    assert!(room_for_another(31));
    assert!(!room_for_another(32));
}

#[test]
fn a_form_is_answered_with_somewhere_to_reload() {
    let going = see_other("/models");
    assert_eq!(going.status, 303);
    assert_eq!(going.kind, "text/plain");
    assert_eq!(going.body, "");
    assert_eq!(going.going.as_deref(), Some("/models"));
    let no = refused();
    assert_eq!((no.status, no.kind.as_str(), no.body.as_str()), (403, "text/plain", "no"));
    assert!(no.going.is_none());
    let page = html("<p>x</p>".to_owned());
    assert_eq!((page.status, page.kind.as_str(), page.body.as_str()), (200, "text/html; charset=utf-8", "<p>x</p>"));
}

#[test]
fn a_page_elsewhere_cannot_press_a_button_here() {
    let here = format!("127.0.0.1:{}", epoch_services::door::WINDOW_PORT);
    let mine = epoch_services::door::ours_to_answer(true, Some(&here), Some("http://evil.example"));
    assert_eq!(page_for("POST", "/unpair", mine), Page::Refused);
    let from_afar = epoch_services::door::ours_to_answer(false, Some(&here), None);
    assert_eq!(page_for("GET", "/", from_afar), Page::Refused);
}

#[test]
fn every_ceiling_is_between_a_form_and_a_turn() {
    assert_eq!(ceiling("/ask"), ASK_LIMIT);
    assert_eq!(ceiling("/pair"), FORM_LIMIT);
}
