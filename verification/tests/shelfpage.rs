use epoch_services::shelfpage::{
    describe, pager_block, render, shortly, split, Chip, Cli, Group, Offer, Suited, Variant, Workbench,
};
use epoch_services::workshop::Machine;

fn apple() -> Machine {
    Machine { unified: false, gpu: None, vram_total: None, vram_free: None, ram_total: Some(17_179_869_184) }
}

fn apple_silicon() -> Machine {
    Machine {
        unified: true,
        gpu: Some("Apple M2".to_owned()),
        vram_total: Some(17_179_869_184),
        vram_free: Some(7_100_000_000),
        ram_total: Some(17_179_869_184),
    }
}

fn carded(free: u64) -> Machine {
    Machine {
        unified: false,
        gpu: Some("NVIDIA GeForce RTX 4070 SUPER".into()),
        vram_total: Some(12_900_000_000),
        vram_free: Some(free),
        ram_total: Some(34_000_000_000),
    }
}

fn no_hf() -> Cli {
    Cli { installed: false, version: None, found_at: None, user: None }
}

fn plain(machine: Machine, hf: Cli) -> Workbench {
    Workbench {
        installed: Vec::new(),
        machine,
        weighed: None,
        asked: String::new(),
        pulling: None,
        said: None,
        query: String::new(),
        chips: Vec::new(),
        found: Vec::new(),
        page: 0,
        opened: None,
        variants: None,
        more: None,
        shelf: Vec::new(),
        hf,
        filing: None,
        fits: None,
        filed: None,
    }
}

fn offer(name: &str, bytes: u64) -> Offer {
    Offer {
        pullable: true,
        name: name.into(),
        pull: name.into(),
        installed: false,
        bytes: Some(bytes),
        card: None,
        facets: Vec::new(),
    }
}

/// One quantisation, with what this machine's card says of its size.
fn variant(quant: &str, bytes: u64, files: u64, card: Option<bool>) -> Variant {
    Variant {
        pullable: true,
        quant: quant.into(),
        bytes,
        files,
        pull: format!("hf.co/unsloth/Qwen3-8B-GGUF:{quant}"),
        tag: None,
        card,
    }
}

fn suited(rank: u64, repo: &str, here: Option<&str>) -> Suited {
    Suited {
        rank,
        repo: repo.into(),
        quant: "Q4_K_M".into(),
        bytes: 7_400_000_000,
        pull: format!("hf.co/{repo}:Q4_K_M"),
        here: here.map(str::to_owned),
        tenths: None,
        measured_on: None,
    }
}

#[test]
fn what_fits_says_nothing_until_it_is_asked() {
    let page = render(&plain(apple_silicon(), no_hf()));
    assert!(page.contains("WHAT FITS"), "the button is always there: {page}");
    assert!(!page.contains("Nothing on that list fits"), "unasked is not empty: {page}");
    assert!(!page.contains("fits__box"), "{page}");
}

#[test]
fn an_empty_answer_says_it_was_asked_and_nothing_fits() {
    let mut w = plain(apple_silicon(), no_hf());
    w.fits = Some(Ok(Vec::new()));
    let page = render(&w);
    assert!(page.contains("Nothing on that list fits"), "{page}");
}

#[test]
fn a_model_already_here_is_marked_rather_than_offered_for_download() {
    let mut w = plain(apple_silicon(), no_hf());
    w.fits = Some(Ok(vec![
        suited(1, "unsloth/Qwen3.8-27B-GGUF", Some("Ollama")),
        suited(2, "bartowski/gemma-4-12b-GGUF", None),
    ]));
    let page = render(&w);
    assert!(page.contains("already here &middot; Ollama"), "{page}");
    assert_eq!(page.matches("DOWNLOAD").count(), 1, "{page}");
    assert!(page.contains("Qwen3.8-27B-GGUF"), "{page}");
    assert!(page.contains("no speed measured here yet"), "{page}");
}

#[test]
fn a_model_that_does_not_fit_can_still_be_pulled_but_never_quietly() {
    let mut w = plain(apple(), no_hf());
    w.weighed = Some(Ok(offer("qwen3.8:27b", 17_700_000_000)));
    w.asked = "qwen3.8:27b".into();
    let page = render(&w);
    assert!(page.contains("TOO BIG"), "the verdict is a word");
    assert!(page.contains("PULL ANYWAY"), "and it is still possible");
    assert!(page.contains("will not fit"), "and it says why");
}

#[test]
fn a_model_that_fits_gets_an_ordinary_button() {
    let mut w = plain(apple(), no_hf());
    w.weighed = Some(Ok(offer("qwen3.8:9b", 5_000_000_000)));
    w.asked = "qwen3.8:9b".into();
    let page = render(&w);
    assert!(page.contains("RUNS HERE"));
    assert!(!page.contains("PULL ANYWAY"));
}

#[test]
fn a_download_in_progress_outranks_a_verdict() {
    let mut w = plain(apple(), no_hf());
    w.weighed = Some(Ok(offer("qwen3.8:9b", 5_000_000_000)));
    w.asked = "qwen3.8:9b".into();
    w.pulling = Some("qwen3.8:9b".into());
    let page = render(&w);
    assert!(page.contains("Downloading"));
    assert!(!page.contains("RUNS HERE"), "the old verdict is not the news");
}

#[test]
fn the_page_says_where_it_measured() {
    let page = render(&plain(apple(), no_hf()));
    assert!(page.contains("measured <b>here</b>"));
    assert!(page.contains("17.2 GB memory"));
}

#[test]
fn a_name_on_a_list_can_only_be_weighed_never_pulled() {
    let mut w = plain(apple(), no_hf());
    w.query = "qwen".into();
    w.found = vec![offer("unsloth/Qwen3-8B-GGUF", 0), offer("bartowski/x", 0)];
    w.more = Some("https://huggingface.co/api/models?cursor=abc".into());
    let page = render(&w);
    assert!(page.contains("unsloth/Qwen3-8B-GGUF"), "the result is listed");
    assert!(page.contains(r#"action="/open""#), "and it can be opened");
    assert!(!page.contains(r#"action="/pull""#), "nothing unweighed may offer a download");
    assert!(page.contains("MORE RESULTS"), "and there is a next page");
    assert!(page.contains("qwen"), "the query survives the answer");
}

#[test]
fn the_last_page_offers_nothing_to_press() {
    let mut w = plain(apple(), no_hf());
    w.query = "qwen".into();
    w.found = vec![offer("a/b", 0)];
    let page = render(&w);
    assert!(!page.contains("MORE RESULTS"));
    assert!(page.contains("1 fetched so far · that is the end of the results"), "{page}");
}

#[test]
fn both_lists_are_there_and_an_empty_one_says_which_it_is() {
    let page = render(&plain(apple(), no_hf()));
    assert!(page.contains("Search Hugging Face"));
    assert!(page.contains("Featured by Ollama"));
    assert!(page.contains("Nothing searched yet."));
    assert!(page.contains("Ollama&#39;s list could not be read."));
}

#[test]
fn a_repository_opens_into_its_quantisations_with_a_verdict_on_each() {
    let mut w = plain(carded(9_100_000_000), no_hf());
    w.query = "qwen".into();
    w.found = vec![offer("unsloth/Qwen3-8B-GGUF", 0)];
    w.opened = Some("unsloth/Qwen3-8B-GGUF".into());
    // What the card says against its 9.1 GB free: 5 GB fits, 17.6 GB does not.
    w.variants = Some(Ok(vec![Group {
        bits: 4,
        variants: vec![
            variant("Q4_K_M", 5_000_000_000, 1, Some(true)),
            variant("UD-Q4_K_XL", 17_600_000_000, 2, Some(false)),
        ],
    }]));
    let page = render(&w);
    assert!(page.contains("4-bit"), "laid out by width");
    assert!(page.contains("Q4_K_M"));
    assert!(page.contains("quant--yes"), "5 GB fits in 9.1 GB free");
    assert!(page.contains("quant--no"), "17.6 GB does not");
    assert!(page.contains("2 files"));
    assert!(page.contains("hf.co/unsloth/Qwen3-8B-GGUF:UD-Q4_K_XL"));
}

#[test]
fn a_sharded_variant_keeps_its_reason_and_loses_the_button() {
    let mut w = plain(apple(), no_hf());
    let mut sharded = offer("hf.co/unsloth/Qwen3.8-27B-GGUF:BF16", 55_600_000_000);
    sharded.pullable = false;
    w.weighed = Some(Ok(sharded));
    let page = render(&w);
    assert!(!page.contains(r#"action="/pull""#), "no button to press");
    assert!(page.contains("sharded"), "and it says whose refusal it is");

    let mut w = plain(apple(), no_hf());
    w.weighed = Some(Ok(offer("hf.co/unsloth/Qwen3.8-27B-GGUF:UD-IQ1_S", 6_190_000_000)));
    let page = render(&w);
    assert!(page.contains(r#"action="/pull""#));
}

#[test]
fn an_apple_machine_answers_from_the_memory_it_actually_has() {
    let mut w = plain(apple(), no_hf());
    w.query = "qwen".into();
    w.found = vec![offer("unsloth/Qwen3-8B-GGUF", 0)];
    w.opened = Some("unsloth/Qwen3-8B-GGUF".into());
    w.variants = Some(Ok(vec![Group { bits: 4, variants: vec![variant("Q4_K_M", 5_000_000_000, 1, None)] }]));
    let page = render(&w);
    assert!(page.contains("quant--yes"), "{page}");
    assert!(page.contains("fits in this machine&#39;s memory"), "and says which memory");
    assert!(!page.contains("video memory"), "which this machine does not have");
}

#[test]
fn an_apple_silicon_machine_is_described_as_the_machine_it_is() {
    let mut w = plain(apple_silicon(), no_hf());
    w.query = "qwen".into();
    w.found = vec![offer("unsloth/Qwen3-8B-GGUF", 0)];
    w.opened = Some("unsloth/Qwen3-8B-GGUF".into());
    // Larger than the 7.1 GB free, as the card says.
    w.variants = Some(Ok(vec![Group { bits: 4, variants: vec![variant("Q8_0", 12_000_000_000, 1, Some(false))] }]));
    let page = render(&w);
    assert!(page.contains("Apple M2"), "{page}");
    assert!(page.contains("unified memory"), "{page}");
    assert!(!page.contains("video memory"), "this machine has none: {page}");
    assert!(!page.contains("17.2 GB memory"), "the total above is the system memory: {page}");
    assert!(!page.contains("spill into system"), "{page}");
}

#[test]
fn a_machine_that_could_not_be_read_at_all_still_says_nothing_rather_than_no() {
    let blind = Machine { unified: false, gpu: None, vram_total: None, vram_free: None, ram_total: None };
    let mut w = plain(blind, no_hf());
    w.query = "qwen".into();
    w.found = vec![offer("unsloth/Qwen3-8B-GGUF", 0)];
    w.opened = Some("unsloth/Qwen3-8B-GGUF".into());
    w.variants = Some(Ok(vec![Group { bits: 4, variants: vec![variant("Q4_K_M", 5_000_000_000, 1, None)] }]));
    let page = render(&w);
    assert!(page.contains("quant--unknown"));
    assert!(!page.contains("quant--no"));
}

#[test]
fn the_chips_stay_pressed_after_an_answer() {
    let mut w = plain(apple(), no_hf());
    w.query = "qwen".into();
    w.chips = vec![
        Chip { id: "vision".into(), wanted: true },
        Chip { id: "tools".into(), wanted: false },
        Chip { id: "thinking".into(), wanted: false },
    ];
    let page = render(&w);
    assert!(page.contains(r#"name="facet_vision" checked"#), "{page}");
    assert!(page.contains(r#"name="facet_thinking""#));
    assert!(!page.contains(r#"name="facet_thinking" checked"#));
}

#[test]
fn a_second_page_appears_only_when_there_is_one() {
    let mut w = plain(apple(), no_hf());
    w.query = "q".into();
    w.found = (0..10).map(|n| offer(&format!("a/{n}"), 0)).collect();
    let page = render(&w);
    assert!(!page.contains("class=\"pager\""));

    let mut w = plain(apple(), no_hf());
    w.query = "q".into();
    w.found = (0..60).map(|n| offer(&format!("a/{n}"), 0)).collect();
    w.page = 1;
    let page = render(&w);
    assert!(page.contains("class=\"pager\""));
    assert!(page.contains("a/24"), "the second page starts where the first ended");
    assert!(!page.contains(">a/0<"), "and the first page is not on it");
}

#[test]
fn a_page_number_past_the_end_shows_the_end() {
    let mut w = plain(apple(), no_hf());
    w.query = "q".into();
    w.found = (0..30).map(|n| offer(&format!("a/{n}"), 0)).collect();
    w.page = 99;
    let page = render(&w);
    assert!(page.contains("a/29"));
    assert!(!page.contains(">a/23<"), "the last page only");
}

#[test]
fn the_file_is_offered_only_where_there_is_one_to_save() {
    let mut w = plain(apple(), no_hf());
    w.weighed = Some(Ok(offer("hf.co/unsloth/Qwen3-8B-GGUF:Q4_K_M", 5_000_000_000)));
    let page = render(&w);
    assert!(!page.contains("SAVE THE FILE"));
    assert!(page.contains("not on this"), "and it says why");

    let with = Cli {
        installed: true,
        version: Some("1.28.0".into()),
        found_at: Some("/Users/someone/.local/bin/hf".into()),
        user: Some("KislokX".into()),
    };
    let mut w = plain(apple(), with);
    w.weighed = Some(Ok(offer("hf.co/unsloth/Qwen3-8B-GGUF:Q4_K_M", 5_000_000_000)));
    let page = render(&w);
    assert!(page.contains("SAVE THE FILE"));
    assert!(page.contains("KislokX"), "who it would download as");
    assert!(page.contains(r#"name="quant" value="Q4_K_M""#));

    let with = Cli {
        installed: true,
        version: Some("1.28.0".into()),
        found_at: Some("/Users/someone/.local/bin/hf".into()),
        user: Some("KislokX".into()),
    };
    let mut w = plain(apple(), with);
    w.weighed = Some(Ok(offer("gemma4:12b", 8_000_000_000)));
    let page = render(&w);
    assert!(!page.contains("SAVE THE FILE"));
}

#[test]
fn a_file_download_is_news_the_same_way_a_pull_is() {
    let mut w = plain(apple(), no_hf());
    w.weighed = Some(Ok(offer("hf.co/unsloth/Qwen3-8B-GGUF:Q4_K_M", 5_000_000_000)));
    w.filing = Some("unsloth/Qwen3-8B-GGUF · Qwen3-8B-Q4_K_M.gguf (5.0G)".into());
    let page = render(&w);
    assert!(page.contains("Saving"));
    assert!(page.contains("5.0G"));
    assert!(!page.contains('%'));
    assert!(!page.contains("RUNS HERE"), "the old verdict is not the news");
}

#[test]
fn a_model_name_cannot_write_into_the_page() {
    let mut w = plain(apple(), no_hf());
    w.installed = vec!["<script>x</script>".to_owned()];
    let page = render(&w);
    assert!(!page.contains("<script>x"));
    assert!(page.contains("&lt;script&gt;"));
}

#[test]
fn a_pull_string_splits_at_its_last_colon() {
    assert_eq!(
        split("hf.co/unsloth/x:Q4_K_M"),
        Some(("unsloth/x".to_owned(), Some("Q4_K_M".to_owned())))
    );
    assert_eq!(split("huggingface.co/unsloth/x"), Some(("unsloth/x".to_owned(), None)));
    assert_eq!(split("gemma4:12b"), None);
    assert_eq!(shortly("unsloth/Qwen3-8B-GGUF"), "Qwen3-8B-GGUF");
    assert_eq!(shortly("plain"), "plain");
}

#[test]
fn the_pager_lights_the_page_being_read_and_nothing_to_press_beyond_either_end() {
    assert_eq!(pager_block(0, 1), "");
    let first = pager_block(0, 3);
    assert!(first.contains(r#"<span class="pg pg--dead">&#8249;</span>"#), "{first}");
    assert!(first.contains(r#"<span class="pg pg--dead">1</span>"#), "{first}");
    assert!(first.contains(r#"value="2">"#), "{first}");
    let last = pager_block(2, 3);
    assert!(last.contains(r#"<span class="pg pg--dead">&#8250;</span>"#), "{last}");
    assert!(last.contains(r#"<span class="pg pg--dead">3</span>"#), "{last}");
}

#[test]
fn hardware_is_said_in_the_words_of_the_machine() {
    assert_eq!(describe(&apple()), "17.2 GB memory");
    assert_eq!(describe(&apple_silicon()), "Apple M2 · 7.1 GB of 17.2 GB unified memory free");
    assert_eq!(
        describe(&carded(9_100_000_000)),
        "NVIDIA GeForce RTX 4070 SUPER · 9.1 GB of 12.9 GB video memory free · 34.0 GB memory"
    );
    let blind = Machine { unified: false, gpu: None, vram_total: None, vram_free: None, ram_total: None };
    assert_eq!(describe(&blind), "Hardware could not be read on this machine.");
}
