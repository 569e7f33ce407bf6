use epoch_services::curve::{
    ceiling, curve_said, explored, measure_through, model_held, not_served, ollama_answering, thousands,
};
use epoch_services::here::Runtime;

#[test]
fn a_context_size_is_grouped_in_thousands() {
    assert_eq!(thousands(0), "0");
    assert_eq!(thousands(999), "999");
    assert_eq!(thousands(1_000), "1,000");
    assert_eq!(thousands(24_576), "24,576");
    assert_eq!(thousands(131_072), "131,072");
    assert_eq!(thousands(1_048_576), "1,048,576");
    assert_eq!(thousands(u32::MAX), "4,294,967,295");
}

#[test]
fn lm_studio_is_refused_by_name_and_says_why() {
    assert_eq!(measure_through("llama_cpp"), Ok(Runtime::LlamaCpp));
    assert_eq!(measure_through("ollama"), Ok(Runtime::Ollama));
    let why = measure_through("lm_studio").expect_err("no curve there");
    assert!(why.contains("LM Studio"), "{why}");
    assert!(why.contains("Measure on llama.cpp or Ollama."), "{why}");
}

#[test]
fn a_curve_through_ollama_needs_ollama_answering() {
    assert_eq!(ollama_answering(true), Ok(()));
    assert!(ollama_answering(false).expect_err("not answering").contains("START SERVICES"));
}

#[test]
fn the_ladder_stops_at_what_the_model_was_trained_for() {
    assert_eq!(ceiling(Some(32_768), 262_144), 32_768);
    assert_eq!(ceiling(None, 262_144), 262_144);
    assert_eq!(ceiling(Some(u64::MAX), 262_144), 262_144);
}

#[test]
fn a_finished_curve_says_where_and_how_fast() {
    assert_eq!(
        curve_said(Some("NVIDIA GeForce RTX 4070 SUPER"), 24_576, 185),
        "Measured on NVIDIA GeForce RTX 4070 SUPER \u{2014} 24,576 at 18.5 tokens per second."
    );
    assert_eq!(
        curve_said(None, 8_192, 420),
        "Measured on this machine \u{2014} 8,192 at 42 tokens per second."
    );
}

#[test]
fn a_curve_is_asked_only_for_a_model_this_machine_holds() {
    let held: Vec<String> = vec!["gemma3-12b".into(), "qwen3-14b".into()];
    assert_eq!(model_held("qwen3-14b", &held), Ok(1));
    assert_eq!(
        model_held("llama", &held),
        Err("llama is not a model this machine reported holding.".to_owned())
    );
    assert_eq!(not_served("qwen3-14b"), "Ollama is not serving 'qwen3-14b'.");
}

#[test]
fn a_search_that_settled_nowhere_says_why() {
    assert_eq!(
        explored("m", false, Some(8192u32)),
        Err("m did not load at any setting on this machine.".to_owned())
    );
    assert_eq!(
        explored::<u32>("m", true, None),
        Err("nothing that loaded can hold a real turn".to_owned())
    );
    assert_eq!(explored("m", true, Some(8192u32)), Ok(8192));
}

#[test]
fn a_context_size_read_without_its_commas_is_the_number() {
    for n in [0u32, 7, 999, 1000, 24_576, 1_048_576, u32::MAX] {
        let said = thousands(n);
        assert_eq!(said.replace(',', ""), n.to_string());
        let groups: Vec<&str> = said.split(',').collect();
        assert!((1..=3).contains(&groups[0].len()), "{said}");
        assert!(groups[1..].iter().all(|g| g.len() == 3), "{said}");
    }
}
