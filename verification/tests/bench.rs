use epoch_services::bench::{
    context_size, disconnected, either_way, fitted, installing, key_name, key_said, measuring_line,
    nothing_matches, nothing_named, nothing_to_open, nothing_to_start, plan_line, pull_line,
    runtime_asked, started, stocking, studio_opened, timed, Bench, Stocking,
};
use epoch_services::here::Runtime;

#[test]
fn a_notice_belongs_to_the_action_that_produced_it() {
    let mut bench = Bench::default();
    bench.say(Ok("A terminal opened.".to_owned()));
    assert_eq!(bench.take_notice().as_deref(), Some("A terminal opened."));
    assert_eq!(bench.take_notice(), None, "taken, not read");
    bench.say(Err("it did not".to_owned()));
    assert_eq!(bench.connect.as_deref(), Some("it did not"));
}

#[test]
fn one_pull_at_a_time() {
    let mut bench = Bench::default();
    bench.said = Some("an old sentence".to_owned());
    assert!(bench.begin_pulling("qwen3:14b"));
    assert_eq!(bench.pulling.as_deref(), Some("qwen3:14b"));
    assert_eq!(bench.said, None);
    assert!(!bench.begin_pulling("gemma4:12b"), "a second pull waits");
    assert_eq!(bench.pulling.as_deref(), Some("qwen3:14b"));
    bench.shelf_read = true;
    bench.pulled("qwen3:14b", Ok(()));
    assert_eq!(bench.pulling, None);
    assert_eq!(bench.said.as_deref(), Some("qwen3:14b is on this machine now, and lent to the Host."));
    assert!(!bench.shelf_read, "what is already here changed");
    bench.pulled("x", Err("pull model manifest: file does not exist".to_owned()));
    assert_eq!(bench.said.as_deref(), Some("pull model manifest: file does not exist"));
}

#[test]
fn a_pull_reports_the_runtimes_own_words() {
    assert_eq!(pull_line("qwen3:14b", "pulling manifest", None, None), "qwen3:14b · pulling manifest");
    assert_eq!(
        pull_line("qwen3:14b", "downloading", Some(200), Some(50)),
        "qwen3:14b · downloading · 25%"
    );
    assert_eq!(pull_line("m", "s", Some(0), Some(50)), "m · s");
    assert_eq!(pull_line("m", "s", Some(u64::MAX), Some(u64::MAX)), "m · s · 1%");
}

#[test]
fn one_file_at_a_time_and_it_says_where_it_went() {
    let mut bench = Bench::default();
    assert!(bench.begin_filing("unsloth/x-GGUF", "Q4_K_M"));
    assert_eq!(bench.filing.as_deref(), Some("unsloth/x-GGUF · Q4_K_M"));
    assert!(!bench.begin_filing("other", "Q8_0"));
    bench.filed(Ok("/m/x.gguf".to_owned()));
    assert_eq!(bench.filing, None);
    assert_eq!(bench.filed.as_deref(), Some("Saved to /m/x.gguf. Point llama.cpp or LM Studio at it."));
    assert_eq!(
        plan_line("u/x", &vec![("a.gguf".to_owned(), "4.1 GB".to_owned()), ("b.gguf".to_owned(), "1 GB".to_owned())]),
        "u/x · a.gguf (4.1 GB), b.gguf (1 GB)"
    );
    assert_eq!(nothing_matches("u/x", "Q9"), "Nothing in u/x matches 'Q9'.");
}

#[test]
fn one_curve_at_a_time() {
    let mut bench = Bench::default();
    assert!(bench.begin_measuring("qwen3:14b"));
    assert_eq!(bench.measuring.as_deref(), Some("qwen3:14b: starting\u{2026}"));
    assert!(!bench.begin_measuring("other"));
    assert_eq!(
        measuring_line("qwen3:14b", 2, 12, "24,576 tokens on the f16 cache"),
        "qwen3:14b: 3 of 12 \u{2014} 24,576 tokens on the f16 cache"
    );
    bench.measured(Err("nothing that loaded can hold a real turn".to_owned()));
    assert_eq!(bench.measuring, None);
    assert_eq!(bench.models_said.as_deref(), Some("nothing that loaded can hold a real turn"));
}

#[test]
fn remove_is_armed_for_one_model_and_disarmed_by_any_outcome() {
    let mut bench = Bench::default();
    bench.models_said = Some("old".into());
    bench.arm_removal(Some("/m/a.gguf".into()));
    assert_eq!(bench.removing.as_deref(), Some("/m/a.gguf"));
    assert_eq!(bench.models_said, None);
    bench.disarm();
    assert_eq!(bench.removing, None);
    bench.arm_removal(Some("/m/a.gguf".into()));
    bench.removed(Err("that is not a model this machine reported holding".into()));
    assert_eq!(bench.removing, None);
    assert_eq!(bench.models_said.as_deref(), Some("that is not a model this machine reported holding"));
}

#[test]
fn a_page_is_turned_to_what_was_asked_or_the_first() {
    let mut bench = Bench::default();
    bench.opened = Some("unsloth/x".into());
    bench.turn_to(Some(" 3 "));
    assert_eq!(bench.page, 3);
    assert_eq!(bench.opened, None, "an open repository belongs to the page it was opened on");
    bench.turn_to(Some("three"));
    assert_eq!(bench.page, 0);
    bench.turn_to(Some("+2"));
    assert_eq!(bench.page, 2);
    bench.turn_to(None);
    assert_eq!(bench.page, 0);
}

#[test]
fn pressing_the_open_one_closes_it() {
    let mut bench = Bench::default();
    assert!(!bench.closes("unsloth/x"));
    assert!(bench.closes(""));
    bench.open("unsloth/x".into());
    assert!(bench.closes("unsloth/x"));
    assert!(!bench.closes("unsloth/y"));
    bench.close();
    assert_eq!(bench.opened, None);
}

#[test]
fn weighing_keeps_what_was_typed_and_weighs_only_something() {
    let mut bench = Bench::default();
    bench.said = Some("old".into());
    assert!(!bench.weighing("   ".into()));
    assert_eq!(bench.asked, "   ");
    assert_eq!(bench.said, None);
    assert!(bench.weighing(" qwen3:14b ".into()));
}

#[test]
fn a_new_search_starts_at_its_first_page() {
    let mut bench = Bench::default();
    bench.page = 4;
    bench.opened = Some("x".into());
    bench.new_search("qwen".into());
    assert_eq!((bench.query.as_str(), bench.page, bench.opened.clone()), ("qwen", 0, None));
    bench.found(Some("cursor-2".into()));
    assert_eq!(bench.more.as_deref(), Some("cursor-2"));
    bench.not_found("Hugging Face said 503".into());
    assert_eq!(bench.more, None);
    assert_eq!(bench.said.as_deref(), Some("Hugging Face said 503"));
}

#[test]
fn a_form_names_a_runtime_by_id() {
    assert_eq!(runtime_asked(" ollama "), Ok(Runtime::Ollama));
    assert_eq!(runtime_asked("lm_studio"), Ok(Runtime::LmStudio));
    assert_eq!(runtime_asked("vllm"), Err("'vllm' is not a runtime this build knows".to_owned()));
    assert_eq!(stocking(" llama_cpp "), Ok(Stocking::Serve));
    assert_eq!(stocking("lm_studio"), Ok(Stocking::Lend));
    assert_eq!(stocking(" ollama "), Err("'ollama' has no shelf to stock".to_owned()));
}

#[test]
fn every_button_on_the_services_tab_says_what_it_did() {
    assert_eq!(started("Ollama"), "A terminal opened on Ollama. Once it says it is listening, open this tab again.");
    assert_eq!(nothing_to_start("llama.cpp"), "llama.cpp is not on this machine, so there is nothing to start.");
    assert_eq!(nothing_to_open("ComfyUI"), "ComfyUI is not on this machine, so there is nothing to open.");
    assert_eq!(installing("brew install ollama"), "A terminal opened on `brew install ollama`. When it finishes, open this tab again.");
    assert_eq!(
        studio_opened("ComfyUI", "The first start takes a minute.", true),
        "A terminal opened on ComfyUI's own server. The first start takes a minute. Once it says it is listening, open this tab again."
    );
    assert_eq!(
        studio_opened("ComfyUI", "The first start takes a minute.", false),
        "ComfyUI is opening. The first start takes a minute. Then open this tab again."
    );
    assert_eq!(disconnected(), "Disconnected. This machine lends nothing until it is paired again.");
    assert_eq!(nothing_named(), "nothing was named");
    assert_eq!(either_way(Err("x".into())), "x");
}

#[test]
fn a_key_is_kept_under_its_sources_name_and_never_said_back() {
    assert_eq!(key_name(" civitai "), "catalogue:civitai");
    assert_eq!(key_said("civitai", true, "", Ok(())), "civitai's key was removed.");
    assert_eq!(key_said("civitai", false, " \n", Ok(())), "Nothing was typed.");
    assert_eq!(
        key_said("civitai", false, "abc123\n", Ok(())),
        "civitai's key is kept by this machine's own credential store."
    );
    assert_eq!(key_said("civitai", false, "abc", Err("locked".into())), "locked");
}

#[test]
fn a_timing_counts_only_where_the_card_had_room() {
    assert!(fitted(5_000_000_000, Some(7_000_000_000)));
    assert!(!fitted(5_000_000_001, Some(6_500_000_000)));
    assert!(fitted(5_000_000_000, Some(6_500_000_000)));
    assert!(!fitted(0, Some(7_000_000_000)), "a model with no size did not fit anything");
    assert!(!fitted(1, Some(1_000_000_000)));
    assert!(!fitted(1, None));
    assert_eq!(timed(106), "10.6 tokens per second, measured here.");
    assert_eq!(timed(0), "0.0 tokens per second, measured here.");
}

#[test]
fn a_tab_redraws_itself_only_while_something_is_happening() {
    let mut bench = Bench::default();
    assert_eq!(bench.models_refresh(), None);
    assert_eq!(bench.workshop_refresh(), None);
    bench.measuring = Some("m".into());
    assert_eq!(bench.models_refresh(), Some(3));
    bench.filing = Some("f".into());
    assert_eq!(bench.workshop_refresh(), Some(2));
    bench.filing = None;
    bench.pulling = Some("p".into());
    assert_eq!(bench.workshop_refresh(), Some(2));
}

#[test]
fn a_context_size_is_a_number_that_fits() {
    assert_eq!(context_size("8192"), Ok(8192));
    assert_eq!(context_size("+16"), Ok(16));
    assert_eq!(context_size("4294967296"), Err("that is not a context size".to_owned()));
    assert_eq!(context_size(" 8192"), Err("that is not a context size".to_owned()));
    assert_eq!(context_size(""), Err("that is not a context size".to_owned()));
}
