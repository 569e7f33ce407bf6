use epoch_services::keep::Bond;
use epoch_services::page::{
    easel, escape, frame, gb, hardware, install_button, measured_devices, render, services,
    services_row, settings, shelf_button, start_button, which_graphics, Available, Easel, Engine,
    Engines, Have, Tab,
};
use epoch_services::shelfpage::Cli;
use epoch_services::window::studio_named;

#[test]
fn every_tab_is_reachable_from_every_tab() {
    for tab in [Tab::Connect, Tab::Workshop, Tab::Creations, Tab::Settings] {
        let page = frame(tab, "", None);
        assert!(page.contains(r#"href="/""#), "{tab:?}");
        assert!(page.contains(r#"href="/workshop""#), "{tab:?}");
        assert!(page.contains(r#"href="/settings""#), "{tab:?}");
    }
    assert_eq!(frame(Tab::Settings, "", None).matches("class=\"on\"").count(), 1);
}

#[test]
fn a_machine_name_cannot_write_into_the_page() {
    assert_eq!(escape("<script>x</script>"), "&lt;script&gt;x&lt;/script&gt;");
    assert_eq!(escape("a & \"b\""), "a &amp; &quot;b&quot;");
}

#[test]
fn unpaired_shows_the_one_thing_to_do_next() {
    let page = render(&Bond::default(), &Have::default(), "studio", "http://127.0.0.1:11500", None, None);
    assert!(page.contains("Let the Host reach out"));
    assert!(page.contains("SHOW A CODE"));
    assert!(!page.contains("name=\"code\""));
    assert!(!page.contains("DISCONNECT"));
}

#[test]
fn paired_says_what_it_lends_and_what_it_does_not_keep() {
    let bond = Bond { id: "bridge-1".into(), secret: "s".into(), host: "http://10.0.0.2:11500".into() };
    let have = Have { models: vec!["qwen3:14b".into(), "qwen3:8b".into()], ..Have::default() };
    let page = render(&bond, &have, "studio", "http://10.0.0.9:11500", None, None);
    assert!(page.contains("Lending 2 models"));
    assert!(page.contains("DISCONNECT"));
    assert!(page.contains("Nothing about its Worlds"), "the page says what this machine does not hold");
}

#[test]
fn one_door_is_offered_and_it_is_the_one_that_works_here() {
    let page = render(&Bond::default(), &Have::default(), "studio", "http://127.0.0.1:11500", None, None);
    assert!(page.contains("Let the Host reach out"));
    assert!(page.contains("SHOW A CODE"));
    assert!(!page.contains("Or connect to a Host from here"));
    assert!(!page.contains("action=\"/pair\""), "no second form to choose between");
    assert!(!page.contains("STOP SHOWING"));
}

#[test]
fn a_shown_code_says_how_long_it_has_left() {
    let page = render(
        &Bond::default(),
        &Have::default(),
        "studio",
        "http://127.0.0.1:11500",
        None,
        Some(("K7M2QX", 185)),
    );
    assert!(page.contains("K7M2QX"));
    assert!(page.contains("3:05"), "minutes and seconds, not 185");
    assert!(page.contains("STOP SHOWING"));
    assert!(!page.contains("SHOW A CODE"), "one state at a time");
    assert!(
        page.contains(r#"http-equiv="refresh" content="1""#),
        "a countdown has to reload every second to be a countdown"
    );
    assert!(!page.contains(r#"action="/pair""#), "no form beside a ticking code");
}

#[test]
fn nothing_is_fetched_from_anywhere() {
    let page = render(&Bond::default(), &Have::default(), "studio", "http://127.0.0.1:11500", None, None);
    for reaching in ["http://fonts", "https://", "cdn", "<script"] {
        assert!(!page.contains(reaching), "{reaching} must not appear");
    }
}

#[test]
fn unified_memory_is_not_split_into_a_video_share() {
    let mac = Have { ram_total: Some(17_179_869_184), ..Have::default() };
    assert_eq!(hardware(&mac), "17 GB memory");
}

#[test]
fn a_refresh_is_offered_only_when_asked_for() {
    assert!(!frame(Tab::Workshop, "", None).contains("http-equiv=\"refresh\""));
    assert!(frame(Tab::Workshop, "", Some(2)).contains(r#"http-equiv="refresh" content="2""#));
}

#[test]
fn whole_gigabytes_round_to_the_nearest() {
    assert_eq!(gb(17_179_869_184), "17 GB");
    assert_eq!(gb(500_000_000), "0 GB");
    assert_eq!(gb(1_500_000_000), "2 GB");
    assert_eq!(gb(1_500_000_001), "2 GB");
}

#[test]
fn a_notice_and_the_machine_are_said_on_the_connect_tab() {
    let page = render(
        &Bond::default(),
        &Have::default(),
        "Studio <Mac>",
        "https://10.0.0.9:11500",
        Some("Disconnected."),
        None,
    );
    assert!(page.contains("Studio &lt;Mac&gt;"));
    assert!(page.contains("https://10.0.0.9:11500"));
    assert!(page.contains(r#"<p class="notice">Disconnected.</p>"#));
    assert!(page.contains("None. Weigh one in the Workshop and pull it from there."));
}

fn no_cli() -> Cli {
    Cli { installed: false, version: None, found_at: None, user: None }
}

#[test]
fn settings_keeps_installed_and_signed_in_as_separate_facts() {
    let ready = settings(
        &Cli {
            installed: true,
            version: Some("1.28.0".into()),
            found_at: Some("/Users/someone/.local/bin/hf".into()),
            user: Some("KislokX".into()),
        },
        "/Users/someone/EpochServices/models",
        &[("civitai", "Civitai", false)],
        None,
    );
    assert!(ready.contains("READY"));
    assert!(ready.contains("Signed in as KislokX"));
    assert!(ready.contains(".local/bin/hf"));

    let out = settings(
        &Cli {
            installed: true,
            version: Some("1.28.0".into()),
            found_at: Some("/usr/local/bin/hf".into()),
            user: None,
        },
        "/models",
        &[("civitai", "Civitai", false)],
        None,
    );
    assert!(out.contains("SIGNED OUT"));
    assert!(out.contains("hf auth login"));
    assert!(!out.contains("install.sh"), "it is already installed");

    let none = settings(&no_cli(), "/models", &[("civitai", "Civitai", false)], None);
    assert!(none.contains("NOT INSTALLED"));
    assert!(none.contains("install.sh"));
    assert!(none.contains("not on this machine"));
}

fn llama_absent() -> Available {
    Available {
        id: "llama_cpp".into(),
        name: "llama.cpp".into(),
        installed: false,
        found_at: None,
        serving: false,
        endpoint: "http://127.0.0.1:8080".into(),
        models: Vec::new(),
        resident: Vec::new(),
        devices: Vec::new(),
        handicap: None,
        install: "brew install llama.cpp".into(),
        start: None,
    }
}

#[test]
fn an_install_is_offered_only_for_what_is_missing() {
    let absent = llama_absent();
    let offered = install_button(&absent);
    assert!(offered.contains(r#"action="/install""#), "{offered}");
    assert!(offered.contains(r#"value="llama_cpp""#), "{offered}");

    let mut here = llama_absent();
    here.installed = true;
    here.found_at = Some("/opt/homebrew/bin/llama".into());
    here.start = Some("\"/opt/homebrew/bin/llama-server\"".into());
    assert!(install_button(&here).is_empty());

    let offered = start_button(&here);
    assert!(offered.contains(r#"action="/start""#), "{offered}");
    assert!(offered.contains("llama-server"), "the exact command: {offered}");

    here.serving = true;
    assert!(start_button(&here).is_empty());
}

#[test]
fn settings_carries_the_answer_to_what_was_just_pressed() {
    let page = settings(
        &no_cli(),
        "/models",
        &[("civitai", "Civitai", false)],
        Some("A terminal opened on `brew install llama.cpp`."),
    );
    assert!(page.contains("A terminal opened"));
}

fn easel_here(installed: bool, serving: bool, models: &[&str]) -> Easel {
    Easel {
        id: "comfyui".into(),
        name: "ComfyUI".into(),
        installed,
        found_at: if installed { Some("/Applications/Comfy Desktop.app".to_owned()) } else { None },
        serving,
        endpoint: "http://127.0.0.1:8188".to_owned(),
        models: models.iter().map(|m| (*m).to_owned()).collect(),
        install: "brew install --cask comfyui".into(),
        start: if installed { Some("\"/Applications/Comfy Desktop.app\"".to_owned()) } else { None },
        first_run: "It asks where to keep its models.".into(),
    }
}

#[test]
fn a_machine_without_it_is_told_how_to_get_it_and_offered_nothing_else() {
    let drawn = easel(&easel_here(false, false, &[]));
    assert!(drawn.contains("NOT INSTALLED"));
    assert!(drawn.contains("brew install --cask comfyui"));
    assert!(drawn.contains("/studio-install"));
    assert!(!drawn.contains("/studio-start"));
}

#[test]
fn installed_and_quiet_says_open_an_instance_rather_than_reinstall() {
    let drawn = easel(&easel_here(true, false, &[]));
    assert!(drawn.contains("INSTALLED"));
    assert!(drawn.contains("NOT SERVING"));
    assert!(drawn.contains("/studio-start"));
    assert!(!drawn.contains("/studio-install"));
    assert!(drawn.contains("open an instance"));
}

#[test]
fn serving_with_no_checkpoint_is_running_and_cannot_draw() {
    let drawn = easel(&easel_here(true, true, &[]));
    assert!(drawn.contains("SERVING"));
    assert!(drawn.contains("cannot yet make a picture"));
    assert!(!drawn.contains("/studio-start"));
    assert!(!drawn.contains("/studio-install"));
}

#[test]
fn serving_with_checkpoints_names_them() {
    let drawn = easel(&easel_here(true, true, &["sdxl.safetensors"]));
    assert!(drawn.contains("Holding sdxl.safetensors"));
    assert!(!drawn.contains("cannot yet make a picture"));
}

#[test]
fn only_an_id_this_build_knows_opens_either_door() {
    let known = ["comfyui"];
    assert!(studio_named(Some(&"comfyui".to_owned()), &known).is_ok());
    assert!(studio_named(Some(&"http://evil.example".to_owned()), &known).is_err());
    assert!(studio_named(Some(&String::new()), &known).is_err());
    assert!(studio_named(None, &known).is_err());
}

fn runtime_here(installed: bool, serving: bool) -> Available {
    Available {
        id: "llama_cpp".into(),
        name: "llama.cpp".into(),
        installed,
        found_at: if installed { Some(r"C:\Users\me\.llama\bin".to_owned()) } else { None },
        serving,
        endpoint: "http://127.0.0.1:8080".to_owned(),
        models: Vec::new(),
        resident: Vec::new(),
        devices: Vec::new(),
        handicap: None,
        install: "winget install llama.cpp".into(),
        start: None,
    }
}

#[test]
fn a_lent_machine_offers_the_same_shelf_the_host_does() {
    let here = |id: &str, installed: bool| Available {
        id: id.into(),
        name: "whatever".into(),
        installed,
        found_at: None,
        serving: false,
        endpoint: String::new(),
        models: Vec::new(),
        resident: Vec::new(),
        devices: Vec::new(),
        handicap: None,
        install: String::new(),
        start: None,
    };
    assert!(shelf_button(&here("llama_cpp", true)).contains("START WITH EVERYTHING"));
    assert!(shelf_button(&here("lm_studio", true)).contains("LEND IT EVERYTHING"));
    assert!(shelf_button(&here("ollama", true)).is_empty());
    assert!(shelf_button(&here("llama_cpp", false)).is_empty());
}

#[test]
fn a_serving_runtime_says_what_it_offers_and_what_is_on_the_card() {
    let mut one = runtime_here(true, true);
    one.models = vec!["gemma4-12b".into(), "qwen3-14b".into()];
    one.resident = vec!["gemma4-12b".into()];
    let said = services_row(&one, &Engines::Unknown);
    assert!(said.contains("Offers gemma4-12b, qwen3-14b"), "{said}");
    assert!(said.contains("In memory: gemma4-12b"), "{said}");

    one.resident.clear();
    let empty = services_row(&one, &Engines::Unknown);
    assert!(empty.contains("In memory: nothing"), "{empty}");
}

#[test]
fn the_separator_is_not_escaped_into_visible_junk() {
    let said = which_graphics(&Engines::Choice(vec![
        Engine { name: "Metal 3".into(), chosen: false },
        Engine { name: "Metal 4".into(), chosen: true },
    ]));
    assert!(said.contains("Metal 3 &middot; Metal 4"), "{said}");
    assert!(!said.contains("&amp;middot;"), "{said}");
    assert!(said.contains("Metal 4 (in use)"), "{said}");
}

#[test]
fn nothing_read_says_nothing_rather_than_cpu_only() {
    assert_eq!(which_graphics(&Engines::Unknown), "");
    assert!(which_graphics(&Engines::Fixed("CUDA".into())).contains("this build is CUDA"));
}

#[test]
fn a_measured_device_is_named_and_an_unnameable_one_is_not() {
    let mut one = runtime_here(true, true);
    one.devices = vec!["Vulkan0: NVIDIA GeForce RTX 4070 SUPER".into()];
    one.handicap = Some("This build has no CUDA backend.".into());
    let said = measured_devices(&one);
    assert!(said.contains("RTX 4070 SUPER"), "{said}");
    assert!(said.contains("no CUDA backend"), "{said}");

    assert_eq!(measured_devices(&runtime_here(true, true)), "");
}

#[test]
fn a_studio_can_be_stopped_only_while_it_is_serving() {
    let serving = easel(&easel_here(true, true, &["sd_xl_base_1.0.safetensors"]));
    assert!(serving.contains("/studio-stop"), "{serving}");
    assert!(serving.contains("STOP ComfyUI"), "{serving}");

    let idle = easel(&easel_here(true, false, &[]));
    assert!(!idle.contains("/studio-stop"), "{idle}");
    assert!(idle.contains("OPEN ComfyUI"), "{idle}");
}

/// What a survey of a machine with nothing installed reads: each of the three runtimes, absent.
fn surveyed_nothing() -> Vec<(Available, Engines)> {
    [("ollama", "Ollama"), ("llama_cpp", "llama.cpp"), ("lm_studio", "LM Studio")]
        .iter()
        .map(|(id, name)| {
            let mut one = runtime_here(false, false);
            one.id = (*id).into();
            one.name = (*name).into();
            (one, Engines::Unknown)
        })
        .collect()
}

#[test]
fn services_is_its_own_page_and_settings_is_not_about_runtimes() {
    let page = services(None, &surveyed_nothing(), &vec![easel_here(false, false, &[])]);
    assert!(page.contains("Services on this machine"));
    for one in ["Ollama", "llama.cpp", "LM Studio"] {
        assert!(page.contains(one), "{one} is missing from START SERVICES");
    }

    let settings = settings(&no_cli(), "/models", &[("civitai", "Civitai", false)], None);
    assert!(!settings.contains("Services on this machine"));
    assert!(settings.contains("Hugging Face CLI"), "settings keeps its own question");
}

#[test]
fn the_services_page_carries_the_answer_to_what_was_just_pressed() {
    let page = services(Some("A terminal opened on ollama serve."), &surveyed_nothing(), &Vec::new());
    assert!(page.contains("A terminal opened on ollama serve."));
}

#[test]
fn settings_says_where_a_saved_model_lands() {
    let page = settings(
        &no_cli(),
        "/Users/someone/EpochServices/models",
        &[("civitai", "Civitai", false)],
        None,
    );
    assert!(page.contains("/Users/someone/EpochServices/models"));
}

#[test]
fn a_key_that_is_stored_offers_no_field_to_read_it_back_from() {
    let held = settings(&no_cli(), "/models", &[("civitai", "Civitai", true)], None);
    assert!(held.contains("a key is stored"), "{held}");
    assert!(held.contains("FORGET"), "{held}");
    assert!(!held.contains("paste your key"), "{held}");

    let empty = settings(&no_cli(), "/models", &[("civitai", "Civitai", false)], None);
    assert!(empty.contains("paste your key"), "{empty}");
    assert!(empty.contains(r#"type="password""#), "{empty}");
    assert!(empty.contains("account token"), "{empty}");
}

#[test]
fn a_studio_outside_the_known_set_is_refused_by_name() {
    let known = ["comfyui", "other"];
    assert_eq!(studio_named(Some(&"  other ".to_owned()), &known), Ok(1));
    assert_eq!(
        studio_named(Some(&"paint".to_owned()), &known),
        Err("'paint' is not an image studio this build knows".to_owned())
    );
}

#[test]
fn the_settings_page_is_exactly_its_parts_for_a_ready_cli() {
    let page = settings(
        &Cli { installed: true, version: Some("<1>".into()), found_at: None, user: Some("a&b".into()) },
        "/m",
        &[],
        None,
    );
    assert!(page.contains("hf &lt;1&gt;"), "{page}");
    assert!(page.contains("Signed in as a&amp;b."), "{page}");
    assert!(page.starts_with("  \n  <section class=\"card\">"), "{page}");
}

#[test]
fn escaping_goes_character_by_character_and_reads_back() {
    let raw = "Tom & Jerry's <b>\"best\"</b> &amp; more";
    let shown = escape(raw);
    let back = shown
        .replace("&lt;", "<")
        .replace("&gt;", ">")
        .replace("&quot;", "\"")
        .replace("&#39;", "'")
        .replace("&amp;", "&");
    assert_eq!(back, raw);
    assert_eq!(escape("a<b") + &escape("c&d"), escape("a<bc&d"));
    assert_eq!(escape("plain text 42"), "plain text 42");
}

#[test]
fn the_frame_lights_its_own_tab_and_refreshes_only_when_asked() {
    let page = frame(Tab::Models, "<p>the body</p>", Some(3));
    assert!(page.contains("<p>the body</p>"));
    assert!(page.contains(r#"href="/models" class="on""#), "{page}");
    assert_eq!(page.matches(r#"class="on""#).count(), 1);
    assert!(page.contains(r#"<meta http-equiv="refresh" content="3">"#));
    assert!(!frame(Tab::Models, "", None).contains("http-equiv"));
}

#[test]
fn a_whole_gigabyte_is_printed_as_the_float_is() {
    assert_eq!(gb(1_000_000_001_499_999_999), "1000000002 GB");
    let mut samples: Vec<u64> = Vec::new();
    for t in 0..2_000u64 {
        samples.push(t * 500_000_000);
        samples.push(t * 500_000_000 + 1);
        samples.push((t * 500_000_000).saturating_sub(1));
    }
    let mut x: u64 = 0x2545_F491_4F6C_DD1D;
    for _ in 0..20_000 {
        x ^= x << 13;
        x ^= x >> 7;
        x ^= x << 17;
        samples.push(x);
        samples.push(x >> 16);
        samples.push((x >> 4) / 500_000_000 * 500_000_000 + 499_999_999);
    }
    for b in samples {
        assert_eq!(gb(b), format!("{:.0} GB", b as f64 / 1_000_000_000.0), "{b}");
    }
}
