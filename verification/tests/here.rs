use epoch_services::here::{address_at, easel_reached, name_from, ollama, runner_at, Dialect, Runtime};

#[test]
fn the_local_runtime_is_loopback_and_a_request_cannot_move_it() {
    assert!(ollama().starts_with("http://127.0.0.1"));
}

#[test]
fn a_turn_names_which_runtime_and_never_where_it_is() {
    for id in [None, Some("ollama"), Some("llama_cpp"), Some("lm_studio")] {
        if let Some((_, endpoint)) = runner_at(id) {
            assert!(
                endpoint.starts_with("http://127.0.0.1"),
                "{id:?} resolved off loopback: {endpoint}"
            );
        }
    }
}

#[test]
fn an_unknown_runtime_is_refused_rather_than_quietly_becoming_the_default() {
    assert!(runner_at(Some("http://evil.example")).is_none());
    assert!(runner_at(Some("vllm")).is_none());
    assert!(runner_at(Some("")).is_none());
}

#[test]
fn the_default_is_what_every_older_host_meant() {
    assert_eq!(runner_at(None), Some((Dialect::Ollama, ollama().to_owned())));
}

#[test]
fn each_runtime_is_found_on_its_own_port() {
    assert_eq!(
        runner_at(Some("llama_cpp")),
        Some((Dialect::OpenAi, "http://127.0.0.1:8080".to_owned()))
    );
    assert_eq!(
        runner_at(Some("lm_studio")),
        Some((Dialect::OpenAi, "http://127.0.0.1:1234".to_owned()))
    );
    assert_eq!(ollama(), "http://127.0.0.1:11434");
    assert_eq!(Runtime::LlamaCpp.id(), "llama_cpp");
    assert_eq!(Runtime::LmStudio.usual_port(), 1234);
}

#[test]
fn this_machine_reports_an_https_address_on_its_port() {
    assert_eq!(address_at("192.168.1.20", 11500), "https://192.168.1.20:11500");
}

#[test]
fn a_blank_name_is_no_name() {
    assert_eq!(name_from("  desk-pc \n"), Some("desk-pc".to_owned()));
    assert_eq!(name_from("   "), None);
}

#[test]
fn a_studio_is_reached_only_while_it_serves() {
    assert_eq!(
        easel_reached("ComfyUI", true, true, "http://127.0.0.1:8188".into()),
        Ok("http://127.0.0.1:8188".to_owned())
    );
    assert_eq!(
        easel_reached("ComfyUI", true, false, String::new()),
        Err("ComfyUI is installed on this machine and is not running.".to_owned())
    );
    assert_eq!(
        easel_reached("ComfyUI", false, false, String::new()),
        Err("ComfyUI is not on this machine.".to_owned())
    );
}
