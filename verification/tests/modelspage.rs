use epoch_services::modelspage::{plainly, render, Inventory, Loadout, ModelHere, Probed, Serving, Tried};

fn nothing_probed() -> Probed {
    Probed { llama_cpp: false, ollama: false, ollama_serving: false }
}

fn conservative() -> Loadout {
    Loadout { context: 8192, cache: "f16 cache".to_owned() }
}

fn one(name: &str, from: &str, bytes: u64) -> ModelHere {
    ModelHere {
        name: name.into(),
        from: from.into(),
        path: format!(r"C:\models\{name}.gguf"),
        bytes,
        sees: false,
        loadout: conservative(),
        readings: Vec::new(),
        recommended: None,
        tenths: None,
        measured_on: None,
        same_weights_as: Vec::new(),
    }
}

fn view(held: Vec<ModelHere>) -> Inventory {
    Inventory { held, timeable: Vec::new(), said: None, asking: None, measuring: None, probed: nothing_probed() }
}

fn serving(id: &str, name: &str, models: &[&str]) -> Serving {
    Serving { id: id.to_owned(), name: name.to_owned(), models: models.iter().map(|m| m.to_string()).collect() }
}

#[test]
fn time_it_names_the_runtime_it_would_use() {
    let cold = render(&view(vec![one("gemma4:12b", "Ollama", 7_400_000_000)]));
    assert!(cold.contains("NOTHING IS SERVING IT"), "{cold}");

    let mut alone = view(vec![one("gemma4:12b", "Ollama", 7_400_000_000)]);
    alone.timeable = vec![serving("ollama", "Ollama", &["gemma4:12b"])];
    let alone = render(&alone);
    assert!(alone.contains("TIME IT ON OLLAMA"), "{alone}");
    assert!(alone.contains(r#"name="on" value="ollama""#), "{alone}");
    assert!(!alone.contains("<select name=\"on\">"), "nothing to choose");

    let mut both = view(vec![one("gemma4:12b", "Ollama", 7_400_000_000)]);
    both.timeable = vec![
        serving("ollama", "Ollama", &["gemma4:12b"]),
        serving("llama_cpp", "llama.cpp", &["gemma4:12b"]),
    ];
    let both = render(&both);
    assert!(both.contains(r#"<select name="on">"#), "{both}");
    assert!(both.contains(r#"<option value="llama_cpp">llama.cpp</option>"#), "{both}");
}

#[test]
fn an_unmeasured_model_offers_to_be_measured_on_this_machine() {
    let page = render(&view(vec![one("qwen3:14b", "Saved here", 9_300_000_000)]));
    assert!(
        page.contains(r#"action="/models/measure""#) || page.contains("nothing to measure"),
        "an unmeasured model must either offer the search or say why it cannot: {page}"
    );
    assert!(!page.contains("Epoch's own Workshop can map the curve"), "{page}");
    assert!(page.contains("a different machine"), "{page}");
}

#[test]
fn a_running_search_is_announced_over_everything_it_holds_up() {
    let mut v = view(vec![one("qwen3:14b", "Saved here", 9_300_000_000)]);
    v.measuring = Some("qwen3:14b: 3 of 12 — 24,576 tokens on the f16 cache".to_owned());
    let page = render(&v);
    assert!(page.contains("MAPPING A CURVE"), "{page}");
    assert!(page.contains("3 of 12"), "{page}");
    assert!(page.contains("holds this graphics card"), "{page}");
}

#[test]
fn an_empty_machine_says_where_models_come_from_rather_than_nothing() {
    let page = render(&view(Vec::new()));
    assert!(page.contains("Nothing here yet"), "{page}");
    assert!(page.contains("Models Workshop"), "{page}");
    assert!(page.contains("0 models, 0.0 GB in all."), "{page}");
}

#[test]
fn removing_needs_a_second_press_and_the_first_one_names_the_model() {
    let cold = render(&view(vec![one("qwen3:14b", "Ollama", 9_300_000_000)]));
    assert!(cold.contains("/models/ask"), "{cold}");
    assert!(!cold.contains("/models/remove"), "nothing deletes on the first press: {cold}");

    let mut asked = view(vec![one("qwen3:14b", "Ollama", 9_300_000_000)]);
    asked.asking = Some(asked.held[0].path.clone());
    let asked = render(&asked);
    assert!(asked.contains("/models/remove"), "{asked}");
    assert!(asked.contains("DELETE qwen3:14b"), "it says what it will delete: {asked}");
    assert!(asked.contains("KEEP IT"), "and how to back out: {asked}");
}

#[test]
fn arming_one_row_does_not_arm_the_others() {
    let mut v = view(vec![one("qwen3:14b", "Ollama", 9_300_000_000), one("gemma4:12b", "Ollama", 7_400_000_000)]);
    v.asking = Some(v.held[0].path.clone());
    let page = render(&v);
    assert_eq!(page.matches("/models/remove").count(), 1, "{page}");
    assert!(page.contains("DELETE qwen3:14b"), "{page}");
    assert!(!page.contains("DELETE gemma4:12b"), "{page}");
}

#[test]
fn a_measured_model_shows_its_curve_and_offers_the_other_rows() {
    let q8 = |context| Loadout { context, cache: "q8_0 cache".to_owned() };
    let f16 = |context| Loadout { context, cache: "f16 cache".to_owned() };
    let curve = vec![
        Tried { loadout: q8(16_384), tenths: Some(352) },
        Tried { loadout: f16(16_384), tenths: Some(203) },
        Tried { loadout: q8(24_576), tenths: Some(185) },
    ];
    let mut model = one("Qwen3.8-27B", "Saved here", 10_624_771_968);
    model.loadout = q8(16_384);
    model.readings = curve;
    model.tenths = Some(337);
    model.measured_on = Some("llama.cpp".into());
    let page = render(&view(vec![model]));

    assert!(page.contains("35.2 tok/s") || page.contains("35.1 tok/s"), "{page}");
    assert!(page.contains("in use"), "{page}");
    assert_eq!(page.matches("USE THIS").count(), 2, "{page}");
    assert!(page.contains("/models/recipe"), "{page}");
    assert!(page.contains("33.7 tok/s on llama.cpp"), "{page}");
    // Roomiest first, and rungs with the same room in the order they were measured.
    let wide = page.find("<td>24576</td>").expect("the widest rung");
    let first = page.find("<td>16384</td>").expect("a narrower rung");
    assert!(wide < first, "{page}");
    assert!(page.find("18.5 tok/s").unwrap() < page.find("35.2 tok/s").unwrap());
    assert!(page.find("35.2 tok/s").unwrap() < page.find("20.3 tok/s").unwrap());
    assert!(page.contains("3 measured settings"), "{page}");
}

#[test]
fn an_unmeasured_model_says_it_is_a_default_rather_than_a_reading() {
    let page = render(&view(vec![one("gemma4:12b", "Ollama", 7_400_000_000)]));
    assert!(page.contains("conservative default"), "{page}");
    assert!(!page.contains("USE THIS"), "nothing to choose from: {page}");
    assert!(!page.contains("tok/s"), "{page}");
}

#[test]
fn the_same_weights_twice_are_named_and_both_rows_stay() {
    let mut a = one("qwen-ollama", "Ollama", 10_624_771_968);
    let mut b = one("qwen-saved", "Saved here", 10_624_771_968);
    a.same_weights_as = vec![b.name.clone()];
    b.same_weights_as = vec![a.name.clone()];
    let page = render(&view(vec![a, b]));
    assert_eq!(page.matches("one copy can go").count(), 2, "{page}");
    assert!(page.contains("the same weights as qwen-saved"), "{page}");
    assert!(page.contains("the same weights as qwen-ollama"), "{page}");
    assert!(page.contains("21.2 GB in all"), "{page}");
}

#[test]
fn each_row_says_which_shelf_it_is_on_and_what_it_weighs() {
    let page = render(&view(vec![
        one("qwen3:14b", "Ollama", 9_300_000_000),
        one("Qwen3.8-27B-Uncensored-IQ2_M", "Saved here", 10_624_771_968),
    ]));
    assert!(page.contains("Ollama"), "{page}");
    assert!(page.contains("Saved here"), "{page}");
    assert!(page.contains("9.3 GB"), "{page}");
    assert!(page.contains("10.6 GB"), "{page}");
    assert!(page.contains("19.9 GB in all"), "{page}");
}

#[test]
fn measuring_is_offered_only_through_what_can_take_a_curve() {
    let mut v = view(vec![one("qwen3:14b", "Saved here", 9_300_000_000)]);
    let page = render(&v);
    assert!(page.contains("nothing to measure through yet"), "{page}");
    assert!(!page.contains("MEASURE ON"), "{page}");

    v.probed = Probed { llama_cpp: true, ollama: true, ollama_serving: false };
    let page = render(&v);
    assert!(page.contains(r#"<button name="on" value="llama_cpp">MEASURE ON LLAMA.CPP</button>"#), "{page}");
    assert!(!page.contains("MEASURE ON OLLAMA"), "an Ollama that is not answering cannot be measured through");

    v.probed = Probed { llama_cpp: false, ollama: true, ollama_serving: true };
    let page = render(&v);
    assert!(page.contains("MEASURE ON OLLAMA"), "{page}");
    assert!(!page.contains("MEASURE ON LLAMA.CPP"), "{page}");
}

#[test]
fn a_setting_is_said_in_words() {
    assert_eq!(plainly(&Loadout { context: 24_576, cache: "f16 cache".into() }), "24576 tokens on the f16 cache");
}

#[test]
fn one_model_is_one_model() {
    let page = render(&view(vec![one("qwen3:14b", "Ollama", 9_300_000_000)]));
    assert!(page.contains("1 model, 9.3 GB in all."), "{page}");
}
