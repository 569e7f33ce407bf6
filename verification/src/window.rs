//! What the window's own door decides: which page or action a request is, how much of its body
//! may be read, and what it is answered with.
//!
//! The window is served on loopback only, to the person at this machine. Every page and every
//! action here is theirs, and a request that did not come from that window gets the one refusal
//! this program gives, whatever it asked for.

use vstd::prelude::*;
use vstd::string::*;

use crate::door::{our_origins, our_window};
use crate::text::{chars_of, same, string_of, trim, trimmed};

verus! {

/// The most bytes a form from the page on this machine may carry.
///
/// Everything the person here posts is a handful of fields they typed. A megabyte is already
/// three orders of magnitude more than any of them and still nothing to hold.
pub const FORM_LIMIT: usize = 1024 * 1024;

/// The most bytes one turn may carry: the whole Chronicle, a system prompt, tool declarations
/// and base64 images. Generous, and finite.
pub const ASK_LIMIT: usize = 64 * 1024 * 1024;

/// How many requests may be in the building at once. Past this, the door says it is busy.
pub const IN_FLIGHT: usize = 32;

/// Where the first `?` stands in `url`, if anywhere.
pub open spec fn question_at(url: Seq<char>, i: int) -> Option<int>
    decreases url.len() - i,
{
    if i < 0 || i >= url.len() {
        None
    } else if url[i] == '?' {
        Some(i)
    } else {
        question_at(url, i + 1)
    }
}

/// The path a request asked for: its address up to the first `?`.
pub open spec fn path_part(url: Seq<char>) -> Seq<char> {
    match question_at(url, 0) {
        Some(k) => url.take(k),
        None => url,
    }
}

/// The path a request asked for, without its query.
pub fn path(url: &str) -> (r: String)
    ensures
        r@ == path_part(url@),
{
    let v = chars_of(url);
    let mut i: usize = 0;
    while i < v.len()
        invariant
            v@ == url@,
            0 <= i <= v@.len(),
            question_at(v@, 0) == question_at(v@, i as int),
        decreases v@.len() - i,
    {
        if v[i] == '?' {
            assert(v@.subrange(0, i as int) =~= v@.take(i as int));
            return string_of(&v, 0, i);
        }
        i = i + 1;
    }
    assert(v@.subrange(0, v@.len() as int) =~= v@);
    string_of(&v, 0, v.len())
}

/// How many bytes a body sent to `path` may have: a turn's worth where a route carries one,
/// a form's worth everywhere else.
pub open spec fn ceiling_for(path: Seq<char>) -> usize {
    if path == "/ask"@ || path == "/easel/draw"@ || path == "/show"@ {
        ASK_LIMIT
    } else {
        FORM_LIMIT
    }
}

/// How many bytes a body sent to `path` may have.
pub fn ceiling(path: &str) -> (r: usize)
    ensures
        r == ceiling_for(path@),
{
    if same(path, "/ask") || same(path, "/easel/draw") || same(path, "/show") {
        ASK_LIMIT
    } else {
        FORM_LIMIT
    }
}

/// Whether a body that announced `declared` bytes is refused before a byte of it is read.
pub fn refused_as_declared(declared: Option<usize>, ceiling: usize) -> (r: bool)
    ensures
        r == (declared matches Some(n) && n > ceiling),
{
    match declared {
        Some(n) => n > ceiling,
        None => false,
    }
}

/// How many bytes to read at most: one more than the ceiling, so that an overrun is seen
/// rather than cut off — a body cut in half and then parsed is worse than one refused.
pub fn read_at_most(ceiling: usize) -> (r: u64)
    requires
        ceiling < u64::MAX,
    ensures
        r == ceiling + 1,
{
    ceiling as u64 + 1
}

/// Whether a body of which `read` bytes arrived is refused: the declared length is a claim,
/// and a chunked body carries none.
pub fn refused_as_read(read: u64, ceiling: usize) -> (r: bool)
    ensures
        r == (read > ceiling),
{
    read > ceiling as u64
}

/// Whether another request may come in while `in_flight` are being answered.
pub fn room_for_another(in_flight: usize) -> (r: bool)
    ensures
        r == (in_flight < IN_FLIGHT),
{
    in_flight < IN_FLIGHT
}

/// Every page and every action of the window.
#[derive(Debug, Clone, Copy, PartialEq, Eq, Structural)]
pub enum Page {
    /// A catalogue preview, by its token.
    Preview,
    /// The Connect tab.
    Connect,
    /// Pair with a Host, from the address and the code that were typed.
    Pair,
    /// Show a code.
    Invite,
    /// Stop showing it.
    Uninvite,
    /// Forget the Host.
    Unpair,
    /// The Models Workshop.
    Workshop,
    /// What is on this machine.
    Models,
    /// Arm REMOVE on one model.
    ModelsAsk,
    /// Map one model's curve here.
    ModelsMeasure,
    /// Disarm REMOVE.
    ModelsKeep,
    /// Remove the armed model.
    ModelsRemove,
    /// Choose a setting from a measured curve.
    ModelsRecipe,
    /// Time one model on one runtime.
    ModelsTime,
    /// The Creations Workshop.
    Creations,
    /// Search the catalogues.
    CreationsSearch,
    /// The next page of that search.
    CreationsMore,
    /// Narrow the shelves to one medium.
    CreationsShelved,
    /// Bring in a file that is already on the disk.
    CreationsImport,
    /// Fetch one asset.
    CreationsInstall,
    /// What this machine can run.
    Fits,
    /// Weigh one model against this machine.
    Weigh,
    /// Search Hugging Face.
    Search,
    /// The Start Services tab.
    Services,
    /// The Settings tab.
    Settings,
    /// Keep or forget a catalogue key.
    SettingsKey,
    /// Start a runtime.
    Start,
    /// Stock a runtime's shelf with every model here.
    Shelf,
    /// Install a runtime.
    Install,
    /// Install the image studio.
    StudioInstall,
    /// Stop it.
    StudioStop,
    /// Start it.
    StudioStart,
    /// Turn to a page of results.
    Paging,
    /// Open or close one repository.
    Open,
    /// Save one quantisation to disk.
    File,
    /// Pull one model through Ollama.
    Pull,
    /// The one refusal.
    Refused,
}

/// Which page a `GET` names.
pub open spec fn got(path: Seq<char>) -> Page {
    if path == "/"@ {
        Page::Connect
    } else if path == "/workshop"@ {
        Page::Workshop
    } else if path == "/models"@ {
        Page::Models
    } else if path == "/creations"@ {
        Page::Creations
    } else if path == "/services"@ {
        Page::Services
    } else if path == "/settings"@ {
        Page::Settings
    } else {
        Page::Refused
    }
}

/// Which action a `POST` names.
pub open spec fn posted(path: Seq<char>) -> Page {
    if path == "/pair"@ {
        Page::Pair
    } else if path == "/invite"@ {
        Page::Invite
    } else if path == "/uninvite"@ {
        Page::Uninvite
    } else if path == "/unpair"@ {
        Page::Unpair
    } else if path == "/models/ask"@ {
        Page::ModelsAsk
    } else if path == "/models/measure"@ {
        Page::ModelsMeasure
    } else if path == "/models/keep"@ {
        Page::ModelsKeep
    } else if path == "/models/remove"@ {
        Page::ModelsRemove
    } else if path == "/models/recipe"@ {
        Page::ModelsRecipe
    } else if path == "/models/time"@ {
        Page::ModelsTime
    } else if path == "/creations/search"@ {
        Page::CreationsSearch
    } else if path == "/creations/more"@ {
        Page::CreationsMore
    } else if path == "/creations/shelved"@ {
        Page::CreationsShelved
    } else if path == "/creations/import"@ {
        Page::CreationsImport
    } else if path == "/creations/install"@ {
        Page::CreationsInstall
    } else if path == "/fits"@ {
        Page::Fits
    } else if path == "/weigh"@ {
        Page::Weigh
    } else if path == "/search"@ {
        Page::Search
    } else if path == "/settings/key"@ {
        Page::SettingsKey
    } else if path == "/start"@ {
        Page::Start
    } else if path == "/shelf"@ {
        Page::Shelf
    } else if path == "/install"@ {
        Page::Install
    } else if path == "/studio-install"@ {
        Page::StudioInstall
    } else if path == "/studio-stop"@ {
        Page::StudioStop
    } else if path == "/studio-start"@ {
        Page::StudioStart
    } else if path == "/page"@ {
        Page::Paging
    } else if path == "/open"@ {
        Page::Open
    } else if path == "/file"@ {
        Page::File
    } else if path == "/pull"@ {
        Page::Pull
    } else {
        Page::Refused
    }
}

/// Whether `path` begins with `/preview/`.
pub open spec fn is_preview(path: Seq<char>) -> bool {
    path.len() >= 9 && path.take(9) == "/preview/"@
}

/// Which page or action a request is, from its method, its path and whether it came from this
/// machine's own window. Anything else — and anything at all from elsewhere — is refused.
pub open spec fn page_of(method: Seq<char>, path: Seq<char>, mine: bool) -> Page {
    if !mine {
        Page::Refused
    } else if method == "GET"@ && is_preview(path) {
        Page::Preview
    } else if method == "GET"@ {
        got(path)
    } else if method == "POST"@ {
        posted(path)
    } else {
        Page::Refused
    }
}

fn get_page(path: &str) -> (r: Page)
    ensures
        r == got(path@),
{
    if same(path, "/") {
        Page::Connect
    } else if same(path, "/workshop") {
        Page::Workshop
    } else if same(path, "/models") {
        Page::Models
    } else if same(path, "/creations") {
        Page::Creations
    } else if same(path, "/services") {
        Page::Services
    } else if same(path, "/settings") {
        Page::Settings
    } else {
        Page::Refused
    }
}

fn post_page(path: &str) -> (r: Page)
    ensures
        r == posted(path@),
{
    if same(path, "/pair") {
        Page::Pair
    } else if same(path, "/invite") {
        Page::Invite
    } else if same(path, "/uninvite") {
        Page::Uninvite
    } else if same(path, "/unpair") {
        Page::Unpair
    } else if same(path, "/models/ask") {
        Page::ModelsAsk
    } else if same(path, "/models/measure") {
        Page::ModelsMeasure
    } else if same(path, "/models/keep") {
        Page::ModelsKeep
    } else if same(path, "/models/remove") {
        Page::ModelsRemove
    } else if same(path, "/models/recipe") {
        Page::ModelsRecipe
    } else if same(path, "/models/time") {
        Page::ModelsTime
    } else if same(path, "/creations/search") {
        Page::CreationsSearch
    } else if same(path, "/creations/more") {
        Page::CreationsMore
    } else if same(path, "/creations/shelved") {
        Page::CreationsShelved
    } else if same(path, "/creations/import") {
        Page::CreationsImport
    } else if same(path, "/creations/install") {
        Page::CreationsInstall
    } else if same(path, "/fits") {
        Page::Fits
    } else if same(path, "/weigh") {
        Page::Weigh
    } else if same(path, "/search") {
        Page::Search
    } else if same(path, "/settings/key") {
        Page::SettingsKey
    } else if same(path, "/start") {
        Page::Start
    } else if same(path, "/shelf") {
        Page::Shelf
    } else if same(path, "/install") {
        Page::Install
    } else if same(path, "/studio-install") {
        Page::StudioInstall
    } else if same(path, "/studio-stop") {
        Page::StudioStop
    } else if same(path, "/studio-start") {
        Page::StudioStart
    } else if same(path, "/page") {
        Page::Paging
    } else if same(path, "/open") {
        Page::Open
    } else if same(path, "/file") {
        Page::File
    } else if same(path, "/pull") {
        Page::Pull
    } else {
        Page::Refused
    }
}

/// Whether `path` begins with `/preview/`.
fn previewed(path: &str) -> (r: bool)
    ensures
        r == is_preview(path@),
{
    let v = chars_of(path);
    if v.len() < 9 {
        return false;
    }
    let head = string_of(&v, 0, 9);
    assert(v@.subrange(0, 9) =~= v@.take(9));
    same(head.as_str(), "/preview/")
}

/// Which page or action a request on the window's door is.
///
/// **The person's pages are not reachable from anywhere else.** A request that did not come
/// from this machine's own window is refused, whatever it named.
pub fn page_for(method: &str, path: &str, mine: bool) -> (r: Page)
    ensures
        r == page_of(method@, path@, mine),
        !mine ==> r == Page::Refused,
{
    if !mine {
        Page::Refused
    } else if same(method, "GET") && previewed(path) {
        Page::Preview
    } else if same(method, "GET") {
        get_page(path)
    } else if same(method, "POST") {
        post_page(path)
    } else {
        Page::Refused
    }
}

/// **Nothing is done by a look.** Whatever was asked, the answer is a page to look at — a
/// preview, a tab — or the one refusal, unless the request was a `POST` from this machine's own
/// window: no link, image or redirect elsewhere can make this program act.
pub proof fn nothing_is_done_by_a_look(method: Seq<char>, path: Seq<char>, mine: bool)
    ensures
        ({
            let p = page_of(method, path, mine);
            ||| p == Page::Refused
            ||| p == Page::Preview
            ||| p == Page::Connect
            ||| p == Page::Workshop
            ||| p == Page::Models
            ||| p == Page::Creations
            ||| p == Page::Services
            ||| p == Page::Settings
            ||| (mine && method == "POST"@)
        }),
        page_of("GET"@, path, mine) != Page::Refused ==> mine,
{
    reveal_strlit("GET");
    reveal_strlit("POST");
    assert("GET"@.len() != "POST"@.len());
}

/// What is left of `s` once every leading `/preview/` is taken off, as
/// `str::trim_start_matches` leaves it.
pub open spec fn without_previews(s: Seq<char>) -> Seq<char>
    decreases s.len(),
{
    if is_preview(s) {
        without_previews(s.skip(9))
    } else {
        s
    }
}

/// The token a preview's path names.
pub fn preview_token(path: &str) -> (r: String)
    ensures
        r@ == without_previews(path@),
{
    let v = chars_of(path);
    let mut i: usize = 0;
    assert(v@.skip(0) =~= v@);
    while v.len() - i >= 9 && same_at(&v, i)
        invariant
            v@ == path@,
            0 <= i <= v@.len(),
            without_previews(v@) == without_previews(v@.skip(i as int)),
        decreases v@.len() - i,
    {
        assert(v@.skip(i as int).skip(9) =~= v@.skip(i + 9));
        i = i + 9;
    }
    assert(v@.skip(i as int) =~= v@.subrange(i as int, v@.len() as int));
    string_of(&v, i, v.len())
}

/// Whether `/preview/` stands in `v` at `i`.
fn same_at(v: &Vec<char>, i: usize) -> (r: bool)
    requires
        i + 9 <= v@.len(),
    ensures
        r == is_preview(v@.skip(i as int)),
{
    assert(v@.len() == v.len());
    let head = string_of(v, i, i + 9);
    assert(v@.subrange(i as int, i + 9) =~= v@.skip(i as int).take(9));
    same(head.as_str(), "/preview/")
}

/// An answer: its status, what kind of text it is, the text, and where a redirect sends the
/// browser next.
pub struct Reply {
    pub status: u16,
    pub kind: String,
    pub body: String,
    pub going: Option<String>,
}

/// Answer a form by sending the browser somewhere it can safely reload.
///
/// **303 rather than 302**: it says *go and GET this instead*, and it is the one redirect a
/// browser will not turn back into a POST — so a reload does not repeat the action.
pub fn see_other(to: &str) -> (r: Reply)
    ensures
        r.status == 303,
        r.kind@ == "text/plain"@,
        r.body@.len() == 0,
        r.going matches Some(g) && g@ == to@,
{
    Reply {
        status: 303,
        kind: String::from_str("text/plain"),
        body: String::new(),
        going: Some(to.to_string()),
    }
}

/// The one refusal this program gives, whatever was asked and whoever asked it.
pub fn refused() -> (r: Reply)
    ensures
        r.status == 403,
        r.kind@ == "text/plain"@,
        r.body@ == "no"@,
        r.going is None,
{
    Reply {
        status: 403,
        kind: String::from_str("text/plain"),
        body: String::from_str("no"),
        going: None,
    }
}

/// A page.
pub fn html(body: String) -> (r: Reply)
    ensures
        r.status == 200,
        r.kind@ == "text/html; charset=utf-8"@,
        r.body == body,
        r.going is None,
{
    Reply { status: 200, kind: String::from_str("text/html; charset=utf-8"), body, going: None }
}

/// What a form asked for, as the lookup reads it: the field trimmed, or nothing where it was absent.
pub open spec fn asked_for(asked: Option<Seq<char>>) -> Seq<char> {
    match asked {
        Some(a) => trimmed(a),
        None => Seq::empty(),
    }
}

/// Whether `i` is the first studio of `known` with this id.
pub open spec fn first_named(known: Seq<&str>, wanted: Seq<char>, i: int) -> bool {
    &&& 0 <= i < known.len()
    &&& known[i]@ == wanted
    &&& forall|j: int| 0 <= j < i ==> known[j]@ != wanted
}

/// Which image studio a form names, looked up in the closed set this build knows — never
/// dialled. `Ok` is its place in `known`; a name this build does not know, an empty one, or none
/// at all is refused with the sentence that says so.
pub fn studio_named(asked: Option<&String>, known: &[&str]) -> (r: Result<usize, String>)
    ensures
        match r {
            Ok(i) => first_named(known@, asked_for(opt_string(asked)), i as int),
            Err(why) => (forall|j: int| 0 <= j < known@.len() ==> known@[j]@ != asked_for(opt_string(asked)))
                && why@ == "'"@ + asked_for(opt_string(asked)) + "' is not an image studio this build knows"@,
        },
{
    let wanted: &str = match asked {
        Some(a) => trim(a.as_str()),
        None => "",
    };
    proof {
        reveal_strlit("");
    }
    let mut i: usize = 0;
    while i < known.len()
        invariant
            0 <= i <= known@.len(),
            wanted@ == asked_for(opt_string(asked)),
            forall|j: int| 0 <= j < i ==> known@[j]@ != wanted@,
        decreases known@.len() - i,
    {
        if same(known[i], wanted) {
            return Ok(i);
        }
        i = i + 1;
    }
    let mut why = String::from_str("'");
    why.append(wanted);
    why.append("' is not an image studio this build knows");
    Err(why)
}

/// An optional field, by its characters.
pub open spec fn opt_string(s: Option<&String>) -> Option<Seq<char>> {
    match s {
        Some(v) => Some(v@),
        None => None,
    }
}

/// **A page elsewhere drives nothing here.** A request that carries an `Origin` this program
/// never gave a browser is answered the one refusal, whatever it asked for and however it came.
pub proof fn a_foreign_page_drives_nothing(
    loopback: bool,
    host: Option<Seq<char>>,
    origin: Seq<char>,
    method: Seq<char>,
    path: Seq<char>,
)
    requires
        !our_origins().contains(trimmed(origin)),
    ensures
        page_of(method, path, our_window(loopback, host, Some(origin))) == Page::Refused,
{
}

/// **Nothing from the network reaches the person's pages.** A request that did not arrive on
/// loopback is refused, whatever it names itself and wherever it says it came from.
pub proof fn the_network_reaches_no_page(
    host: Option<Seq<char>>,
    origin: Option<Seq<char>>,
    method: Seq<char>,
    path: Seq<char>,
)
    ensures
        page_of(method, path, our_window(false, host, origin)) == Page::Refused,
{
}

/// **No body is unbounded.** Whatever route a body is sent to, its ceiling is at most a turn's
/// worth and at least a form's.
pub proof fn no_body_is_unbounded(path: Seq<char>)
    ensures
        FORM_LIMIT <= ceiling_for(path) <= ASK_LIMIT,
{
}

} // verus!
