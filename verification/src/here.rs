//! What this machine has to lend, and where each program that runs a model listens.
//!
//! Every runtime stays on loopback. A turn may say *which* program should run it, by an id from
//! a closed set this file knows; it may never say *where*. Resolution happens here, on the
//! machine that owns the ports.

use vstd::prelude::*;
use vstd::string::*;

use crate::text::{decimal, decimal_of, same, trim, trimmed};

verus! {

/// How a runtime is spoken to, which is not the same question as where it is.
///
/// Ollama has its own `/api/chat`; llama.cpp and LM Studio both serve the OpenAI-compatible
/// `/v1/chat/completions`.
#[derive(Debug, Clone, Copy, PartialEq, Eq, Structural)]
pub enum Dialect {
    Ollama,
    OpenAi,
}

/// The programs on this machine that can run a model.
#[derive(Debug, Clone, Copy, PartialEq, Eq, Structural)]
pub enum Runtime {
    Ollama,
    LlamaCpp,
    LmStudio,
}

/// The id a turn names a runtime by.
pub open spec fn runtime_id(r: Runtime) -> Seq<char> {
    match r {
        Runtime::Ollama => "ollama"@,
        Runtime::LlamaCpp => "llama_cpp"@,
        Runtime::LmStudio => "lm_studio"@,
    }
}

/// The port a runtime usually listens on.
pub open spec fn usual_port(r: Runtime) -> u16 {
    match r {
        Runtime::Ollama => 11434,
        Runtime::LlamaCpp => 8080,
        Runtime::LmStudio => 1234,
    }
}

/// How a runtime is spoken to.
pub open spec fn dialect_of(r: Runtime) -> Dialect {
    match r {
        Runtime::Ollama => Dialect::Ollama,
        _ => Dialect::OpenAi,
    }
}

/// The runtime an id names, if it names one.
pub open spec fn runtime_named(id: Seq<char>) -> Option<Runtime> {
    if id == runtime_id(Runtime::Ollama) {
        Some(Runtime::Ollama)
    } else if id == runtime_id(Runtime::LlamaCpp) {
        Some(Runtime::LlamaCpp)
    } else if id == runtime_id(Runtime::LmStudio) {
        Some(Runtime::LmStudio)
    } else {
        None
    }
}

/// An address on loopback.
pub open spec fn loopback_endpoint(port: u16) -> Seq<char> {
    "http://127.0.0.1:"@ + decimal(port as nat)
}

impl Runtime {
    /// The id a turn names this runtime by.
    pub fn id(&self) -> (r: &'static str)
        ensures
            r@ == runtime_id(*self),
    {
        match self {
            Runtime::Ollama => "ollama",
            Runtime::LlamaCpp => "llama_cpp",
            Runtime::LmStudio => "lm_studio",
        }
    }

    /// The port this runtime usually listens on.
    pub fn usual_port(&self) -> (r: u16)
        ensures
            r == usual_port(*self),
    {
        match self {
            Runtime::Ollama => 11434,
            Runtime::LlamaCpp => 8080,
            Runtime::LmStudio => 1234,
        }
    }
}

/// Where the local runtime listens. **Loopback, and not configurable by a request.**
pub fn ollama() -> (r: &'static str)
    ensures
        r@ == loopback_endpoint(usual_port(Runtime::Ollama)),
{
    proof {
        reveal_strlit("http://127.0.0.1:11434");
        reveal_strlit("http://127.0.0.1:");
        reveal_with_fuel(decimal, 6);
        assert("http://127.0.0.1:11434"@ =~= loopback_endpoint(11434));
    }
    "http://127.0.0.1:11434"
}

/// Where one runner is and how to speak to it — resolved here, from an id; no id means
/// Ollama, which is what every Host meant before a turn could say anything else.
pub open spec fn resolved(id: Option<Seq<char>>) -> Option<(Dialect, Seq<char>)> {
    let want = match id {
        Some(i) => i,
        None => "ollama"@,
    };
    match runtime_named(want) {
        Some(r) => Some((dialect_of(r), loopback_endpoint(usual_port(r)))),
        None => None,
    }
}

/// **A turn names which runner, never where.** The three ids this machine knows resolve to their
/// programs on loopback, spoken to the way each speaks — Ollama by default — and any other id
/// resolves to nothing.
pub proof fn a_runner_is_named_and_never_placed(id: Seq<char>)
    ensures
        resolved(None) == Some((Dialect::Ollama, "http://127.0.0.1:11434"@)),
        resolved(Some("ollama"@)) == Some((Dialect::Ollama, "http://127.0.0.1:11434"@)),
        resolved(Some("llama_cpp"@)) == Some((Dialect::OpenAi, "http://127.0.0.1:8080"@)),
        resolved(Some("lm_studio"@)) == Some((Dialect::OpenAi, "http://127.0.0.1:1234"@)),
        resolved(Some(id)) is Some ==> id == "ollama"@ || id == "llama_cpp"@ || id == "lm_studio"@,
{
    reveal_strlit("ollama");
    reveal_strlit("llama_cpp");
    reveal_strlit("lm_studio");
    reveal_strlit("http://127.0.0.1:");
    reveal_strlit("http://127.0.0.1:11434");
    reveal_strlit("http://127.0.0.1:8080");
    reveal_strlit("http://127.0.0.1:1234");
    reveal_with_fuel(decimal, 6);
    assert("ollama"@.len() != "llama_cpp"@.len());
    assert("ollama"@.len() != "lm_studio"@.len());
    assert("llama_cpp"@[1] != "lm_studio"@[1]);
    assert(loopback_endpoint(11434) =~= "http://127.0.0.1:11434"@);
    assert(loopback_endpoint(8080) =~= "http://127.0.0.1:8080"@);
    assert(loopback_endpoint(1234) =~= "http://127.0.0.1:1234"@);
}

/// Where one runner is and how to speak to it — resolved **here**, from an id.
///
/// `None` for an id this machine does not recognise. Refused rather than guessed at: routing a
/// turn to something other than what was asked for is worse than saying it could not be done.
/// Every address it can return is on loopback.
pub fn runner_at(id: Option<&str>) -> (r: Option<(Dialect, String)>)
    ensures
        match r {
            Some((d, e)) => resolved(crate::door::opt_view(id)) == Some((d, e@)),
            None => resolved(crate::door::opt_view(id)) is None,
        },
        r matches Some((_, e)) ==> exists|p: u16| e@ == loopback_endpoint(p),
{
    let want = match id {
        Some(i) => i,
        None => "ollama",
    };
    let runtime = if same(want, "ollama") {
        Runtime::Ollama
    } else if same(want, "llama_cpp") {
        Runtime::LlamaCpp
    } else if same(want, "lm_studio") {
        Runtime::LmStudio
    } else {
        return None;
    };
    let dialect = match runtime {
        Runtime::Ollama => Dialect::Ollama,
        _ => Dialect::OpenAi,
    };
    let mut endpoint = String::from_str("http://127.0.0.1:");
    let port = decimal_of(runtime.usual_port() as u64);
    endpoint.append(port.as_str());
    Some((dialect, endpoint))
}

/// The address this machine reports about itself: `https`, because that is what the Host will
/// find there, the address the routing table chose, and the port.
pub open spec fn address_of(ip: Seq<char>, port: u16) -> Seq<char> {
    "https://"@ + ip + ":"@ + decimal(port as nat)
}

/// The address this machine reports about itself, from the local address the kernel chose.
pub fn address_at(ip: &str, port: u16) -> (r: String)
    ensures
        r@ == address_of(ip@, port),
{
    let mut out = String::from_str("https://");
    out.append(ip);
    out.append(":");
    out.append(decimal_of(port as u64).as_str());
    out
}

/// What this machine calls itself, from one place it might be written: the name trimmed, or
/// nothing where only white space was there.
pub fn name_from(raw: &str) -> (r: Option<String>)
    ensures
        trimmed(raw@).len() == 0 <==> r is None,
        r matches Some(n) ==> n@ == trimmed(raw@),
{
    let name = trim(raw);
    if name.unicode_len() == 0 {
        None
    } else {
        Some(name.to_string())
    }
}

/// Where this machine's own image studio is listening, or why there is nothing to ask: serving
/// is an address on loopback; installed and quiet, or absent, is a sentence that says which.
pub open spec fn easel_reached_spec(name: Seq<char>, installed: bool, serving: bool, endpoint: Seq<char>) -> Result<
    Seq<char>,
    Seq<char>,
> {
    if serving {
        Ok(endpoint)
    } else if installed {
        Err(name + " is installed on this machine and is not running."@)
    } else {
        Err(name + " is not on this machine."@)
    }
}

/// **Only a studio that answers is asked.** One that is serving is reached at its address; one
/// installed and quiet, or absent, is a sentence naming it that says which.
pub proof fn only_a_serving_studio_is_reached(name: Seq<char>, installed: bool, endpoint: Seq<char>)
    ensures
        easel_reached_spec(name, installed, true, endpoint) == Ok::<Seq<char>, Seq<char>>(endpoint),
        easel_reached_spec(name, true, false, endpoint) == Err::<Seq<char>, Seq<char>>(
            name + " is installed on this machine and is not running."@,
        ),
        easel_reached_spec(name, false, false, endpoint) == Err::<Seq<char>, Seq<char>>(
            name + " is not on this machine."@,
        ),
{
}

/// **This machine reports itself on the encrypted door.** The address it gives the Host is
/// `https://`, the address that was chosen, a colon and the port.
pub proof fn this_machine_reports_an_encrypted_address(ip: Seq<char>, port: u16)
    ensures
        address_of(ip, port).take(8) == "https://"@,
        address_of(ip, port).skip(8) == ip + ":"@ + decimal(port as nat),
{
    reveal_strlit("https://");
    assert(address_of(ip, port) =~= "https://"@ + (ip + ":"@ + decimal(port as nat)));
}

/// Where this machine's own image studio is listening, from what a look at it found.
pub fn easel_reached(name: &str, installed: bool, serving: bool, endpoint: String) -> (r: Result<
    String,
    String,
>)
    ensures
        match r {
            Ok(e) => easel_reached_spec(name@, installed, serving, endpoint@) == Ok::<Seq<char>, Seq<char>>(e@),
            Err(why) => easel_reached_spec(name@, installed, serving, endpoint@) == Err::<Seq<char>, Seq<char>>(why@),
        },
{
    if serving {
        return Ok(endpoint);
    }
    let mut why = name.to_string();
    if installed {
        why.append(" is installed on this machine and is not running.");
    } else {
        why.append(" is not on this machine.");
    }
    Err(why)
}

} // verus!
