//! What this machine answers the Host, on the one door that is on the network.
//!
//! Everything here is behind the bearer, except the one thing that mints it: `/enrol` is how a
//! bond begins, so what it requires instead is the short code the person is looking at on this
//! machine's screen — checked here, spent the moment it works, and burnt after ten wrong answers.

use vstd::prelude::*;
use vstd::string::*;

use crate::invite::{Code, TRIES, lapsed, answers};
use crate::door::admits;
use crate::keep::Bond;
use crate::text::trimmed;
use crate::text::same;

verus! {

/// What one request on the Host's door is answered with.
#[derive(Debug, Clone, Copy, PartialEq, Eq, Structural)]
pub enum Route {
    /// The introduction, in the direction where the Host reaches out.
    Enrol,
    /// What this machine has to lend.
    Have,
    /// One composed turn.
    Ask,
    /// Let go of a model.
    Release,
    /// What one model says about itself.
    Show,
    /// What the image studio here can draw with.
    EaselSchema,
    /// A compiled graph in, a picture out.
    EaselDraw,
    /// The one refusal every other request gets.
    Refused,
}

/// Which answer a request gets, from its method, its path and whether its bearer was the
/// secret. Only `/enrol` answers without the secret; anything unknown is refused, whoever asks.
pub open spec fn route_for(method: Seq<char>, path: Seq<char>, admitted: bool) -> Route {
    if method == "POST"@ && path == "/enrol"@ {
        Route::Enrol
    } else if !admitted {
        Route::Refused
    } else if method == "GET"@ && path == "/have"@ {
        Route::Have
    } else if method == "POST"@ && path == "/ask"@ {
        Route::Ask
    } else if method == "POST"@ && path == "/release"@ {
        Route::Release
    } else if method == "POST"@ && path == "/show"@ {
        Route::Show
    } else if method == "GET"@ && path == "/easel/schema"@ {
        Route::EaselSchema
    } else if method == "POST"@ && path == "/easel/draw"@ {
        Route::EaselDraw
    } else {
        Route::Refused
    }
}

/// **Only the introduction is answered without the secret, and only at its own door.** A `POST`
/// to `/enrol` is the introduction whoever sends it; nothing else is, and nothing else is
/// answered at all without the secret.
pub proof fn only_the_introduction_needs_no_secret(method: Seq<char>, path: Seq<char>, admitted: bool)
    ensures
        route_for("POST"@, "/enrol"@, admitted) == Route::Enrol,
        route_for(method, path, admitted) == Route::Enrol ==> method == "POST"@ && path == "/enrol"@,
        !admitted ==> route_for(method, path, admitted) == Route::Refused || route_for(method, path, admitted)
            == Route::Enrol,
{
}

/// Which answer a request on the Host's door gets.
///
/// **One answer for every refusal.** A door that said "wrong secret" here and "no such route"
/// there would be a door that answers questions nobody asked it.
pub fn route(method: &str, path: &str, admitted: bool) -> (r: Route)
    ensures
        r == route_for(method@, path@, admitted),
        r != Route::Refused && r != Route::Enrol ==> admitted,
{
    let post = same(method, "POST");
    let get = same(method, "GET");
    if post && same(path, "/enrol") {
        Route::Enrol
    } else if !admitted {
        Route::Refused
    } else if get && same(path, "/have") {
        Route::Have
    } else if post && same(path, "/ask") {
        Route::Ask
    } else if post && same(path, "/release") {
        Route::Release
    } else if post && same(path, "/show") {
        Route::Show
    } else if get && same(path, "/easel/schema") {
        Route::EaselSchema
    } else if post && same(path, "/easel/draw") {
        Route::EaselDraw
    } else {
        Route::Refused
    }
}

/// What taking the code that is showing does, once `seconds` have gone by since it was made:
/// whether the offer is admitted, and what is showing afterwards. A right answer takes the
/// code away; a wrong one is counted against it and leaves it on screen.
pub open spec fn taken(showing: Option<Code>, offered: Seq<char>, seconds: u64) -> (bool, Option<Code>) {
    match showing {
        None => (false, None),
        Some(code) => {
            let (right, after) = code.attempted(offered, seconds);
            if right {
                (true, None)
            } else {
                (false, Some(after))
            }
        },
    }
}

/// Check the code that is on screen and **take it**, once `seconds` have gone by since it was
/// made.
pub fn take_after(showing: &mut Option<Code>, offered: &str, seconds: u64) -> (r: bool)
    ensures
        (r, *final(showing)) == taken(*old(showing), offered@, seconds),
{
    let admitted = match showing {
        Some(code) => code.attempt_after(offered, seconds),
        None => false,
    };
    if admitted {
        *showing = None;
    }
    admitted
}

/// Check the code that is on screen and **take it**, without letting go in between.
///
/// The answer to *may I* is also the act of taking it, so the caller holds one lock across the
/// whole of this and there is no instant in between for a second request to occupy. A wrong
/// answer is counted, never taken: the attempt limit is what governs guessing.
pub fn take(showing: &mut Option<Code>, offered: &str) -> (r: bool)
    ensures
        exists|seconds: u64| (r, *final(showing)) == #[trigger] taken(*old(showing), offered@, seconds),
{
    let ghost before = *showing;
    let admitted = match showing {
        Some(code) => code.attempt(offered),
        None => false,
    };
    let ghost seconds: u64 = match before {
        Some(c) => choose|s: u64| (admitted, showing->Some_0) == #[trigger] c.attempted(offered@, s),
        None => 0,
    };
    if admitted {
        *showing = None;
    }
    assert((admitted, *showing) == taken(before, offered@, seconds));
    admitted
}

/// **One invitation admits one machine.** Once an offer has been admitted nothing is showing,
/// so no later offer, right or wrong, is admitted by the same invitation.
pub proof fn one_invitation_admits_one_machine(
    showing: Option<Code>,
    first: Seq<char>,
    later: Seq<char>,
    s1: u64,
    s2: u64,
)
    requires
        taken(showing, first, s1).0,
    ensures
        taken(showing, first, s1).1 is None,
        !taken(taken(showing, first, s1).1, later, s2).0,
{
}

/// **A wrong code does not burn the invitation.** An offer that is not the code leaves the same
/// code on screen, one wrong answer heavier.
pub proof fn a_wrong_code_does_not_burn_the_invitation(code: Code, offered: Seq<char>, seconds: u64)
    requires
        !answers(code.said(), offered),
    ensures
        !taken(Some(code), offered, seconds).0,
        taken(Some(code), offered, seconds).1 == Some(code.with_miss()),
        code.with_miss().said() == code.said(),
{
    code.lemma_with_miss();
}

/// **A code that is being guessed at stops being one.** Once it has taken [`TRIES`] wrong
/// answers, nothing is admitted by it — including the right answer.
pub proof fn a_guessed_code_admits_nobody(code: Code, offered: Seq<char>, seconds: u64)
    requires
        code.misses() >= TRIES,
    ensures
        !taken(Some(code), offered, seconds).0,
{
}

/// **A right answer costs nothing.** Offered in time, the right code is admitted and nothing
/// about the code was counted against it.
pub proof fn a_right_answer_costs_nothing(code: Code, offered: Seq<char>, seconds: u64)
    requires
        !lapsed(seconds, code.misses()),
        answers(code.said(), offered),
    ensures
        code.attempted(offered, seconds) == (true, code),
        taken(Some(code), offered, seconds).0,
{
}

/// Every wrong answer counts one, so a code that has taken `TRIES` of them is burnt.
pub open spec fn after_misses(code: Code, n: nat) -> Code
    decreases n,
{
    if n == 0 {
        code
    } else {
        after_misses(code, (n - 1) as nat).with_miss()
    }
}

/// **Ten wrong answers burn it.** A code that has been offered `TRIES` wrong answers in a row
/// has stopped being an answer, whatever the clock says, and keeps its letters all the while.
pub proof fn ten_wrong_answers_burn_it(code: Code, n: nat, seconds: u64)
    requires
        code.misses() == 0,
        n >= TRIES,
    ensures
        lapsed(seconds, after_misses(code, n).misses()),
        after_misses(code, n).said() == code.said(),
    decreases n,
{
    lemma_misses_count(code, n);
}

proof fn lemma_misses_count(code: Code, n: nat)
    requires
        code.misses() == 0,
    ensures
        after_misses(code, n).misses() == if n >= u32::MAX as nat { u32::MAX as nat } else { n },
        after_misses(code, n).said() == code.said(),
    decreases n,
{
    if n > 0 {
        lemma_misses_count(code, (n - 1) as nat);
        after_misses(code, (n - 1) as nat).lemma_with_miss();
    }
}

/// What the Host sends to enrol: the code on this machine's screen, the secret it will present
/// from now on, and where it is.
pub struct Enrol {
    pub code: String,
    pub secret: String,
    pub host: String,
}

/// The bond an admitted enrolment leaves. The Host files this machine under an id of its own;
/// this side only needs to know it is spoken for, and the Host's address is the useful name to
/// keep, because that is what the Host will present a bearer to.
pub open spec fn bond_for(said: Enrol) -> Bond {
    Bond { id: said.host, secret: said.secret, host: said.host }
}

/// Enrol the Host that sent this, if it offered the code that is showing — and take the code
/// in the same act. A body that could not be read is refused exactly as a wrong code is, and
/// neither spends anything.
pub fn enrol(showing: &mut Option<Code>, said: Option<Enrol>) -> (r: Option<Bond>)
    ensures
        match said {
            None => r is None && *final(showing) == *old(showing),
            Some(e) => exists|seconds: u64|
                (r is Some, *final(showing)) == #[trigger] taken(*old(showing), e.code@, seconds),
        },
        r matches Some(b) ==> said matches Some(e) && b == bond_for(e),
{
    match said {
        None => None,
        Some(e) => {
            if take(showing, e.code.as_str()) {
                let host = e.host.clone();
                Some(Bond { id: e.host, secret: e.secret, host })
            } else {
                None
            }
        },
    }
}

/// A lower-case hexadecimal digit.
pub open spec fn hex_digit(d: nat) -> char {
    if d < 10 {
        (48 + d) as char
    } else {
        (87 + d) as char
    }
}

/// What one character becomes inside a JSON string as serde_json writes it: a quote and a
/// backslash behind a backslash; backspace, tab, line feed, form feed and carriage return by
/// their letters; every other character below U+0020 as `\u00` and two lower-case hex digits;
/// everything else as it is.
pub open spec fn json_char(c: char) -> Seq<char> {
    if c == '"' {
        seq!['\\', '"']
    } else if c == '\\' {
        seq!['\\', '\\']
    } else if c == '\u{8}' {
        seq!['\\', 'b']
    } else if c == '\t' {
        seq!['\\', 't']
    } else if c == '\n' {
        seq!['\\', 'n']
    } else if c == '\u{c}' {
        seq!['\\', 'f']
    } else if c == '\r' {
        seq!['\\', 'r']
    } else if (c as u32) < 0x20 {
        seq!['\\', 'u', '0', '0', hex_digit((c as u32 / 16) as nat), hex_digit((c as u32 % 16) as nat)]
    } else {
        seq![c]
    }
}

/// The characters of a string as they stand inside a JSON string.
pub open spec fn json_chars(s: Seq<char>) -> Seq<char>
    decreases s.len(),
{
    if s.len() == 0 {
        Seq::empty()
    } else {
        json_chars(s.drop_last()) + json_char(s.last())
    }
}

/// What serde_json writes for a string: the string as one JSON string literal, in quotes.
pub open spec fn json_string(s: Seq<char>) -> Seq<char> {
    seq!['"'] + json_chars(s) + seq!['"']
}

/// `serde_json::to_string` on a string slice: the string in quotes, each character written as
/// `format_escaped_str` writes it through its escape table. Serialising a string cannot fail
/// (there is no map in it, and the writer is memory), so the error arm is never taken.
#[verifier::external_body]
fn json_quoted(s: &str) -> (r: String)
    ensures
        r@ == json_string(s@),
{
    serde_json::to_string(s).unwrap_or_default()
}

/// One shape for every refusal on the easel door, so the Host never has to guess whether a
/// failure was the studio's words or this program's: an object with one field, `problem`.
pub fn refusal(why: &str) -> (r: String)
    ensures
        r@ == "{\"problem\":"@ + json_string(why@) + "}"@,
{
    let mut out = String::from_str("{\"problem\":");
    out.append(json_quoted(why).as_str());
    out.append("}");
    out
}

/// **An unpaired machine answers the Host nothing but the introduction.** Before pairing there
/// is no secret, so whatever bearer is offered, every request but `/enrol` is refused.
pub proof fn an_unpaired_machine_answers_nothing_but_enrol(
    bond: Bond,
    method: Seq<char>,
    path: Seq<char>,
    offered: Option<Seq<char>>,
)
    requires
        !bond.paired_spec(),
    ensures
        route_for(method, path, admits(bond, offered)) == Route::Refused || route_for(
            method,
            path,
            admits(bond, offered),
        ) == Route::Enrol,
{
}

/// **Only the secret opens a route.** A request that is answered anything but the refusal or
/// the introduction carried, without surrounding white space, the secret this machine was given.
pub proof fn only_the_secret_opens_a_route(
    bond: Bond,
    method: Seq<char>,
    path: Seq<char>,
    offered: Option<Seq<char>>,
)
    requires
        route_for(method, path, admits(bond, offered)) != Route::Refused,
        route_for(method, path, admits(bond, offered)) != Route::Enrol,
    ensures
        bond.paired_spec(),
        offered matches Some(o) && trimmed(o) == bond.secret@,
{
}

} // verus!
