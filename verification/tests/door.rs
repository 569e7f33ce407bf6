use epoch_services::door::{
    chat_at, context_key, declared_in, door_at, letting_go, not_answering, ours_to_answer, pairing_door, pairing_refused,
    plainly, runner_for, window_of, REACH, WINDOW_PORT,
};
use epoch_services::here::Dialect;
use epoch_services::keep::Bond;

#[test]
fn reaching_a_runtime_is_not_worth_ten_minutes() {
    assert!(REACH < 10);
}

#[test]
fn a_runtime_that_is_not_running_says_so_and_says_which() {
    // A real refusal from a real socket: nothing listens on port 1.
    let refused = ureq::builder()
        .timeout_connect(std::time::Duration::from_secs(REACH))
        .build()
        .get("http://127.0.0.1:1/v1/models")
        .call()
        .expect_err("nothing listens there");
    let said = not_answering("lm_studio", "http://127.0.0.1:1234", &refused.to_string());
    assert!(said.contains("LM Studio"), "{said}");
    assert!(said.contains("127.0.0.1:1234"), "{said}");
    assert!(said.contains("reachable"), "{said}");
}

#[test]
fn an_unknown_runner_is_named_as_itself() {
    assert_eq!(plainly("vllm"), "vllm");
    assert_eq!(plainly("llama_cpp"), "llama.cpp");
}

#[test]
fn a_page_cannot_act_as_the_person_at_this_machine() {
    let ok = format!("http://127.0.0.1:{}", WINDOW_PORT);
    let host = format!("127.0.0.1:{}", WINDOW_PORT);

    assert!(ours_to_answer(true, Some(&host), Some(&ok)));
    assert!(ours_to_answer(true, None, None));

    assert!(!ours_to_answer(true, Some(&host), Some("http://evil.example")));
    assert!(!ours_to_answer(true, Some(&host), Some("http://localhost:3000")));

    assert!(!ours_to_answer(true, Some("evil.example"), None));
    assert!(!ours_to_answer(true, Some("evil.example:11499"), Some(&ok)));

    assert!(!ours_to_answer(false, Some(&host), Some(&ok)));
}

#[test]
fn an_ipv6_loopback_keeps_its_colons() {
    assert!(ours_to_answer(true, Some("[::1]"), None));
    assert!(ours_to_answer(true, Some(&format!("[::1]:{}", WINDOW_PORT)), None));
    assert!(!ours_to_answer(true, Some("[::1]:3000"), None));
}

#[test]
fn letting_go_asks_the_program_that_is_actually_holding_it() {
    // Neither of the other two unloads on request, so the honest answer is to do nothing and
    // say so — never to post at Ollama on their behalf.
    assert_eq!(letting_go(Some("lm_studio")), Ok(false));
    assert_eq!(letting_go(Some("llama_cpp")), Ok(false));
    assert_eq!(letting_go(Some("ollama")), Ok(true));
    assert_eq!(letting_go(None), Ok(true));
    // And a runtime this machine does not have is refused rather than quietly becoming the
    // default, exactly as an `Ask` is.
    assert!(letting_go(Some("vllm")).is_err());
}

#[test]
fn an_unpaired_machine_admits_nobody() {
    let bond = Bond::default();
    assert!(!bond.paired());
    assert_eq!(bond.secret, "");
    assert!(!epoch_services::door::bearer_matches(&bond, Some("")));
    assert!(!epoch_services::door::bearer_matches(&bond, None));
}

#[test]
fn a_person_types_an_address_and_the_rest_is_filled_in() {
    assert_eq!(door_at("192.168.1.10"), "https://192.168.1.10:11501");
    assert_eq!(door_at("192.168.1.10/"), "https://192.168.1.10:11501");
    assert_eq!(door_at("http://10.0.0.2:9000"), "http://10.0.0.2:9000");
    assert_eq!(door_at("https://desk.local"), "https://desk.local:11501");
}

#[test]
fn a_colon_in_an_address_is_not_always_a_port() {
    assert_eq!(door_at("[fe80::1]"), "https://[fe80::1]:11501");
}

#[test]
fn a_host_that_was_never_named_is_refused_before_the_network_is_touched() {
    assert!(pairing_door("").is_err());
    assert!(pairing_door("   ").is_err());
    assert_eq!(pairing_door(" 10.0.0.2 "), Ok("https://10.0.0.2:11501".to_owned()));
}

#[test]
fn the_right_secret_is_admitted_and_nothing_else_is() {
    let bond = Bond {
        id: "host".to_owned(),
        secret: "a-long-secret-nobody-guesses".to_owned(),
        host: "https://10.0.0.9:11501".to_owned(),
    };
    assert!(epoch_services::door::bearer_matches(&bond, Some("a-long-secret-nobody-guesses")));
    assert!(!epoch_services::door::bearer_matches(&bond, Some("a-long-secret-nobody-guessed")));
    assert!(!epoch_services::door::bearer_matches(&bond, Some("")));
    assert!(!epoch_services::door::bearer_matches(&bond, None));
}

#[test]
fn a_turn_is_posted_where_its_runtime_listens() {
    let (dialect, endpoint) = runner_for(Some("lm_studio")).expect("a runner this machine has");
    assert_eq!(dialect, Dialect::OpenAi);
    assert_eq!(chat_at(&endpoint, dialect), "http://127.0.0.1:1234/v1/chat/completions");
    let (dialect, endpoint) = runner_for(None).expect("the default");
    assert_eq!(chat_at(&endpoint, dialect), "http://127.0.0.1:11434/api/chat");
    assert_eq!(runner_for(Some("vllm")), Err("this machine does not run 'vllm'".to_owned()));
    assert_eq!(runner_for(None).map(|(d, _)| d), Ok(Dialect::Ollama));
}

#[test]
fn a_refused_pairing_says_which_of_two_things_went_wrong() {
    assert_eq!(
        pairing_refused(Some(403), "status 403", "https://10.0.0.2:11501"),
        "that code is wrong or has expired. Show a new one on the Host."
    );
    assert_eq!(
        pairing_refused(None, "connection refused", "https://10.0.0.2:11501"),
        "could not reach Epoch at https://10.0.0.2:11501: connection refused"
    );
}

#[test]
fn a_window_larger_than_any_context_is_the_largest_one() {
    assert_eq!(window_of(131_072), 131_072);
    assert_eq!(window_of(u64::MAX), u32::MAX);
}

#[test]
fn the_window_answers_only_its_own_origins() {
    let all = epoch_services::door::ours();
    assert!(all.contains(&format!("http://127.0.0.1:{}", WINDOW_PORT)));
    assert!(all.iter().all(|o| o.ends_with(&format!(":{}", WINDOW_PORT))));
}

#[test]
fn a_context_length_is_found_by_its_suffix() {
    let keys: Vec<String> =
        vec!["general.architecture".into(), "gemma3.context_length".into(), "x.context_length".into()];
    assert_eq!(context_key(&keys), Some(1));
    assert_eq!(context_key(&vec!["context_length".to_owned()]), None);
    assert_eq!(context_key(&Vec::new()), None);
}

#[test]
fn what_a_model_publishes_is_read_name_by_name() {
    let said = declared_in(&vec!["completion".into(), "vision".into(), "tools".into()]);
    assert!(said.sees);
    assert!(!said.hears);
    assert_eq!(said.uses_tools, Some(true));
    assert!(!said.thinks);
    assert_eq!(declared_in(&Vec::new()).uses_tools, Some(false));
}

#[test]
fn a_door_read_again_is_the_same_door() {
    for typed in ["192.168.1.10", " http://10.0.0.2:9000/ ", "[fe80::1]", "desk.local:", "://x", ""] {
        let once = door_at(typed);
        assert_eq!(door_at(&once), once, "{typed:?}");
        let port = once.rsplit(':').next().unwrap_or_default();
        assert!(!port.is_empty() && port.chars().all(|c| c.is_ascii_digit()), "{once}");
    }
}
