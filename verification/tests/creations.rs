use epoch_services::creations::{
    already_in_library, asked, catalogue_named, identified, import_path, kind_named, kinds,
    most_downloaded_first, needs_an_account, newest_first, no_longer_has, not_copied,
    nothing_to_fetch, options, preview_drawn, refusal_line, render, shelves, unreadable, weigh,
    Asset, Held, Kind, Shelf, Source, Version,
};
use epoch_services::form::read_form;

const ROOT: &str = "/somewhere";

fn page(shelf: &Shelf) -> String {
    render(shelf, ROOT, "", &Vec::new(), &Vec::new())
}

fn asset(needs_key: bool, versions: Vec<Version>) -> Asset {
    Asset {
        id: "civitai:1".to_owned(),
        name: "Something".to_owned(),
        source: Source::Civitai,
        kind: "LoRA".to_owned(),
        family: None,
        said_base: "SDXL 1.0".to_owned(),
        by: None,
        downloads: 3,
        adult: false,
        triggers: Vec::new(),
        preview: None,
        makes: None,
        bytes: 1,
        fits: None,
        needs_key,
        key_held: false,
        versions,
        page: "https://civitai.com/models/1".to_owned(),
    }
}

#[test]
fn a_shelf_nobody_has_searched_shows_a_form_and_no_verdict() {
    let out = page(&Shelf::default());
    assert!(out.contains("FIND SOMETHING THAT DRAWS"), "{out}");
    assert!(!out.contains("Nothing matched"), "{out}");
}

#[test]
fn a_source_that_refused_is_named_beside_the_results() {
    let shelf = Shelf {
        found: Some(Vec::new()),
        refused: vec!["Civitai: overloaded right now".to_owned()],
        ..Shelf::default()
    };
    let out = page(&shelf);
    assert!(out.contains("overloaded right now"), "{out}");
    assert!(!out.contains("Nothing matched"), "{out}");
}

#[test]
fn a_file_that_needs_an_account_says_so_before_it_is_pressed() {
    let out = page(&Shelf { found: Some(vec![asset(true, Vec::new())]), ..Shelf::default() });
    assert!(out.contains("NEEDS AN ACCOUNT"), "{out}");
    assert!(!out.contains(">INSTALL<"), "{out}");

    // A machine holding a key for that site is not told it cannot.
    let mut held = asset(true, Vec::new());
    held.key_held = true;
    let out = page(&Shelf { found: Some(vec![held]), ..Shelf::default() });
    assert!(out.contains(">INSTALL<"), "{out}");
}

#[test]
fn a_model_published_twice_offers_both_and_a_model_published_once_offers_nothing() {
    let versions = vec![
        Version {
            id: "civitai:1#10".to_owned(),
            name: "ZImageTurbo".to_owned(),
            said_base: "ZImageTurbo".to_owned(),
            bytes: 170_000_000,
        },
        Version {
            id: "civitai:1#11".to_owned(),
            name: "Flux".to_owned(),
            said_base: "Flux.1 D".to_owned(),
            bytes: 18_000_000,
        },
    ];
    let mut one = asset(false, versions);
    one.said_base = "ZImageTurbo".to_owned();
    let out = page(&Shelf { found: Some(vec![one]), ..Shelf::default() });
    assert!(out.contains(r#"<select name="id">"#), "{out}");
    assert!(out.contains("civitai:1#11"), "{out}");
    assert!(out.contains("Flux · Flux.1 D · 18 MB"), "{out}");

    let mut single = asset(false, vec![Version {
        id: "civitai:1#10".to_owned(),
        name: "ZImageTurbo".to_owned(),
        said_base: "ZImageTurbo".to_owned(),
        bytes: 170_000_000,
    }]);
    single.said_base = "ZImageTurbo".to_owned();
    let out = page(&Shelf { found: Some(vec![single]), ..Shelf::default() });
    assert!(!out.contains("<select name=\"id\">"), "{out}");
    assert!(out.contains(r#"name="id" value="civitai:1""#), "{out}");
}

fn held(file: &str, medium: Option<&str>) -> Held {
    Held {
        shelf: "vae".to_owned(),
        file: file.to_owned(),
        kind: "VAE".to_owned(),
        base: "unknown".to_owned(),
        bytes: 160,
        medium: medium.map(str::to_owned),
    }
}

#[test]
fn the_shelves_are_grouped_by_what_each_file_makes() {
    // A picture autoencoder, a sound one, and one nothing could place.
    let all = vec![
        held("an_image_ae.safetensors", Some("picture")),
        held("a_sound_ae.safetensors", Some("sound")),
        held("who_knows.safetensors", None),
    ];
    let out = shelves(&all, ROOT, "");
    assert!(out.contains("MAKES A PICTURE"), "{out}");
    assert!(out.contains("MAKES A SOUND"), "{out}");
    assert!(out.contains("EPOCH COULD NOT TELL WHAT THESE MAKE"), "{out}");
    for file in ["an_image_ae.safetensors", "a_sound_ae.safetensors", "who_knows.safetensors"] {
        assert!(out.contains(file), "{file} was dropped: {out}");
    }
    assert!(!out.contains("MAKES A VIDEO"), "{out}");

    let only_sound = shelves(&all, ROOT, "sound");
    assert!(only_sound.contains("a_sound_ae.safetensors"), "{only_sound}");
    assert!(!only_sound.contains("an_image_ae.safetensors"), "{only_sound}");
    assert!(!only_sound.contains("MAKES A PICTURE"), "{only_sound}");
    assert!(only_sound.contains(r#"<option value="sound" selected>"#), "{only_sound}");
}

#[test]
fn empty_shelves_say_where_things_land() {
    let out = shelves(&Vec::new(), "/Users/someone/Library", "");
    assert!(out.contains("Nothing here yet"), "{out}");
    assert!(out.contains("/Users/someone/Library"), "{out}");
}

#[test]
fn a_download_shows_a_fraction_only_where_there_is_one() {
    let known = page(&Shelf {
        fetching: Some(("Illustrious-XL".to_owned(), 3_450_000_000, Some(6_900_000_000))),
        ..Shelf::default()
    });
    assert!(known.contains("Illustrious-XL"), "{known}");
    assert!(known.contains("50%"), "half of 6.9 GB is a real fraction: {known}");
    assert!(known.contains(r#"<progress max="6900000000" value="3450000000">"#), "{known}");

    let unknown = page(&Shelf {
        fetching: Some(("Something".to_owned(), 3_450_000_000, None)),
        ..Shelf::default()
    });
    assert!(unknown.contains("did not say how big it is"), "{unknown}");
    assert!(!unknown.contains('%'), "and never a percentage: {unknown}");
    assert!(unknown.contains("<progress></progress>"), "{unknown}");

    let quiet = page(&Shelf::default());
    assert!(!quiet.contains("<progress"), "{quiet}");

    let starting = page(&Shelf { fetching: Some((String::new(), 0, None)), ..Shelf::default() });
    assert!(starting.contains("<b>Starting</b>"), "{starting}");
}

#[test]
fn a_narrowed_list_keeps_what_a_site_did_not_place_and_says_why() {
    let mut picture = asset(false, Vec::new());
    picture.makes = Some("picture".to_owned());
    let unplaced = asset(false, Vec::new());
    let mut sound = asset(false, Vec::new());
    sound.makes = Some("sound".to_owned());
    sound.name = "A Sound".to_owned();

    let shelf = Shelf {
        makes: " picture ".to_owned(),
        found: Some(vec![picture, unplaced, sound]),
        ..Shelf::default()
    };
    let out = page(&shelf);
    assert_eq!(out.matches(r#"<div class="row between">"#).count(), 2, "{out}");
    assert!(!out.contains("A Sound"), "{out}");
    assert!(out.contains("Civitai did not say what this makes"), "{out}");

    let nothing = Shelf {
        makes: "video".to_owned(),
        found: Some(vec![{
            let mut s = asset(false, Vec::new());
            s.makes = Some("sound".to_owned());
            s
        }]),
        ..Shelf::default()
    };
    assert!(page(&nothing).contains("Nothing that came back makes that."));
    let empty = Shelf { found: Some(Vec::new()), ..Shelf::default() };
    assert!(page(&empty).contains("Nothing matched. Both sites answered."));
}

#[test]
fn a_card_says_what_the_site_said_and_what_this_machine_measured() {
    let mut one = asset(false, Vec::new());
    one.bytes = 6_900_000_000;
    one.fits = Some(false);
    one.family = Some("SDXL".to_owned());
    one.by = Some("<someone>".to_owned());
    one.triggers = vec!["ink".to_owned(), "wash".to_owned()];
    one.preview = Some("abc".to_owned());
    let out = page(&Shelf { found: Some(vec![one]), ..Shelf::default() });
    assert!(out.contains("LoRA · SDXL 1.0 (SDXL) · 6.9 GB · larger than the free memory · 3 downloads · by &lt;someone&gt;"), "{out}");
    assert!(out.contains("Needs in a prompt: ink, wash"), "{out}");
    assert!(out.contains(r#"src="/preview/abc""#), "{out}");

    let mut adult = asset(false, Vec::new());
    adult.adult = true;
    adult.preview = Some("abc".to_owned());
    assert!(!page(&Shelf { found: Some(vec![adult]), ..Shelf::default() }).contains("/preview/"));
    assert!(preview_drawn(true, false));
    assert!(!preview_drawn(true, true));
}

#[test]
fn the_pages_show_only_where_there_is_somewhere_to_go() {
    let one = asset(false, Vec::new());
    let first = Shelf { found: Some(vec![one]), page: 1, ..Shelf::default() };
    assert!(!page(&first).contains("class=\"pages\""));
    let mut more = Shelf { found: Some(vec![asset(false, Vec::new())]), page: 1, ..Shelf::default() };
    more.more = vec![epoch_services::creations::MoreRow { source: "civitai".into(), cursor: "c".into() }];
    let out = page(&more);
    assert!(out.contains("PAGE 1"), "{out}");
    assert!(out.contains("/creations/more"), "{out}");
}

#[test]
fn sizes_are_said_the_way_download_pages_say_them() {
    assert_eq!(weigh(6_900_000_000), "6.9 GB");
    assert_eq!(weigh(170_000_000), "170 MB");
    assert_eq!(weigh(0), "size not stated");
    assert_eq!(weigh(5_500), "5 KB");
    assert_eq!(weigh(999), "0 KB");
}

#[test]
fn menus_mark_what_was_chosen() {
    assert!(kinds("vae").contains(r#"<option value="vae" selected>VAEs</option>"#));
    assert!(kinds("").contains(r#"<option value="" selected>Everything</option>"#));
    let all = vec![("a".to_owned(), "A".to_owned()), ("b".to_owned(), "B".to_owned())];
    assert_eq!(options(&all, "b"), r#"<option value="a">A</option><option value="b" selected>B</option>"#);
}

#[test]
fn names_from_a_form_are_looked_up_not_trusted() {
    assert_eq!(kind_named("lora"), Some(Kind::Lora));
    assert_eq!(kind_named("LoRA"), None);
    assert_eq!(catalogue_named("Hugging Face"), Some(Source::HuggingFace));
    assert_eq!(catalogue_named("civitai"), Some(Source::Civitai));
    assert_eq!(catalogue_named("elsewhere"), None);
    assert_eq!(Source::HuggingFace.id(), "huggingface");
}

#[test]
fn only_the_sources_that_can_answer_are_asked() {
    assert!(asked("", false, false, false));
    assert!(!asked("SDXL 1.0", false, false, false), "a site with no base models cannot narrow by one");
    assert!(asked("SDXL 1.0", true, false, false));
    assert!(!asked("", true, true, false), "a finished site is not asked for its first page again");
    assert!(asked("", true, true, true));
    assert!(newest_first("newest"));
    assert!(!newest_first("most_downloaded"));
}

#[test]
fn most_downloaded_first_and_ties_in_the_order_they_came() {
    assert_eq!(most_downloaded_first(&vec![5, 9, 5, 12, 0]), vec![3, 1, 0, 2, 4]);
    assert_eq!(most_downloaded_first(&Vec::new()), Vec::<usize>::new());
}

#[test]
fn every_sentence_a_fetch_or_an_import_leaves() {
    assert_eq!(refusal_line("Civitai", "overloaded"), "Civitai: overloaded");
    assert_eq!(no_longer_has("civitai", "civitai:1"), "civitai no longer has civitai:1.");
    assert_eq!(nothing_to_fetch(), "That has no file to download — it may have been withdrawn.");
    assert!(needs_an_account("Civitai").starts_with("Civitai hands files over only to an account"));
    assert_eq!(identified("a.safetensors", "LoRA", "SDXL"), "a.safetensors — LoRA, SDXL");
    assert_eq!(unreadable("a", "short"), "a arrived, and its own bytes could not be read: short");
    assert_eq!(import_path("  "), Err("Nothing was typed.".to_owned()));
    assert_eq!(import_path(" /m/a.safetensors "), Ok("/m/a.safetensors".to_owned()));
    assert_eq!(already_in_library("a"), "a is already in the library.");
    assert_eq!(not_copied("denied"), "it could not be copied in: denied");
}

#[test]
fn a_search_keeps_every_control_and_starts_at_its_first_page() {
    let mut shelf = Shelf { page: 3, said: Some("old".into()), ..Shelf::default() };
    shelf.searched(&read_form("query=ink+wash&kind=lora&order=newest&base=SDXL+1.0&makes=picture&adult=on"));
    assert_eq!(shelf.query, "ink wash");
    assert_eq!(shelf.kind, "lora");
    assert!(shelf.adult);
    assert_eq!(shelf.order, "newest");
    assert_eq!(shelf.base, "SDXL 1.0");
    assert_eq!(shelf.makes, "picture");
    assert_eq!(shelf.page, 1);
    assert_eq!(shelf.said, None);
    shelf.searched(&read_form("query=x"));
    assert!(!shelf.adult);
    assert_eq!(shelf.kind, "");

    shelf.shelve(&read_form("shelved=sound"));
    assert_eq!(shelf.shelved, "sound");
    shelf.more = vec![epoch_services::creations::MoreRow { source: "civitai".into(), cursor: "c".into() }];
    let rows = shelf.turn_page();
    assert_eq!(rows.len(), 1);
    assert!(shelf.more.is_empty());
    assert_eq!(shelf.page, 2);
}

#[test]
fn one_fetch_at_a_time_with_a_bar_from_the_press() {
    let mut shelf = Shelf::default();
    assert!(shelf.begin_fetching());
    assert_eq!(shelf.fetching, Some((String::new(), 0, None)));
    assert!(!shelf.begin_fetching());
    shelf.arriving("Illustrious-XL", 10, Some(100));
    assert_eq!(shelf.fetching, Some(("Illustrious-XL".to_owned(), 10, Some(100))));
    shelf.fetched("done".to_owned());
    assert_eq!(shelf.fetching, None);
    assert_eq!(shelf.said.as_deref(), Some("done"));
}

#[test]
fn the_creations_tab_redraws_only_while_something_arrives() {
    let mut shelf = Shelf::default();
    assert_eq!(shelf.refresh(), None);
    assert!(shelf.begin_fetching());
    assert_eq!(shelf.refresh(), Some(2));
    shelf.fetched("done".into());
    assert_eq!(shelf.refresh(), None);
}

#[test]
fn ties_keep_the_order_the_sites_gave_them() {
    assert_eq!(most_downloaded_first(&vec![5, 9, 5, 1, 9]), vec![1, 4, 0, 2, 3]);
    assert_eq!(most_downloaded_first(&Vec::new()), Vec::<usize>::new());
}
