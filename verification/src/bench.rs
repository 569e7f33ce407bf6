//! What the window is holding between requests, and the sentences its buttons leave behind.
//!
//! A page with `script-src: 'none'` keeps nothing of its own, so the last thing weighed, the
//! download in progress and the line a long job reports live on this side. That is not a
//! workaround: it means a refresh shows what was already true rather than re-asking the network
//! every two seconds.
//!
//! **One long job of each kind at a time.** A second pull would fight the first for the same
//! disk and the same Ollama, a second search for the same graphics card, and the page has one
//! line to report each with.

use vstd::prelude::*;
use vstd::string::*;

use crate::here::{Runtime, runtime_named};
use crate::text::{decimal, decimal_of, one_place, one_place_of, parse_at_most, parsed, same, trim, trimmed};

verus! {

/// What the window holds between requests, in plain values.
pub struct Bench {
    /// What was typed into the weighing field, kept so the field is not emptied by an answer.
    pub asked: String,
    /// What is downloading right now.
    pub pulling: Option<String>,
    /// The curve being mapped right now, as a line to draw.
    pub measuring: Option<String>,
    /// How the last download or search ended.
    pub said: Option<String>,
    /// What was typed into the search field.
    pub query: String,
    /// The cursor for the next page of results, when there is one.
    pub more: Option<String>,
    /// Which page of the results is being read.
    pub page: usize,
    /// Which repository is open, if any. One at a time.
    pub opened: Option<String>,
    /// Which model REMOVE has been pressed once for. Never armed by default.
    pub removing: Option<String>,
    /// What the last button on the Models tab said.
    pub models_said: Option<String>,
    /// A file being fetched, and how the last one ended.
    pub filing: Option<String>,
    pub filed: Option<String>,
    /// Whether Ollama's featured list has been read.
    pub shelf_read: bool,
    /// What the Connect, Services and Settings tabs have to say about the last action there.
    pub connect: Option<String>,
}

impl Default for Bench {
    fn default() -> (r: Bench)
        ensures
            r.asked@.len() == 0,
            r.pulling is None,
            r.measuring is None,
            r.said is None,
            r.query@.len() == 0,
            r.more is None,
            r.page == 0,
            r.opened is None,
            r.removing is None,
            r.models_said is None,
            r.filing is None,
            r.filed is None,
            !r.shelf_read,
            r.connect is None,
    {
        Bench {
            asked: String::new(),
            pulling: None,
            measuring: None,
            said: None,
            query: String::new(),
            more: None,
            page: 0,
            opened: None,
            removing: None,
            models_said: None,
            filing: None,
            filed: None,
            shelf_read: false,
            connect: None,
        }
    }
}

/// One sentence, whichever way it went: a failure is as much a thing to say as a success.
pub open spec fn either(said: Result<String, String>) -> String {
    match said {
        Ok(good) => good,
        Err(why) => why,
    }
}

/// One sentence, whichever way it went.
pub fn either_way(said: Result<String, String>) -> (r: String)
    ensures
        r == either(said),
{
    match said {
        Ok(good) => good,
        Err(why) => why,
    }
}

/// What a finished pull says.
pub open spec fn pulled_said(model: Seq<char>, outcome: Result<(), Seq<char>>) -> Seq<char> {
    match outcome {
        Ok(()) => model + " is on this machine now, and lent to the Host."@,
        Err(why) => why,
    }
}

/// What a finished file download says.
pub open spec fn filed_said(outcome: Result<Seq<char>, Seq<char>>) -> Seq<char> {
    match outcome {
        Ok(at) => "Saved to "@ + at + ". Point llama.cpp or LM Studio at it."@,
        Err(why) => why,
    }
}

/// The view of a result of strings.
pub open spec fn result_view(r: Result<String, String>) -> Result<Seq<char>, Seq<char>> {
    match r {
        Ok(a) => Ok(a@),
        Err(b) => Err(b@),
    }
}

impl Bench {
    /// How often the Models tab redraws itself: every three seconds while a curve is being
    /// mapped, and never otherwise. A rung of the ladder takes tens of seconds, and a page that
    /// always refreshed would be one nobody could press a button on.
    pub fn models_refresh(&self) -> (r: Option<u32>)
        ensures
            r == (if self.measuring is Some { Some(3u32) } else { None::<u32> }),
    {
        if self.measuring.is_some() {
            Some(3)
        } else {
            None
        }
    }

    /// How often the Workshop redraws itself: every two seconds while a model is pulled or a
    /// file is fetched, and never otherwise, so a page full of results is one somebody can type
    /// into.
    pub fn workshop_refresh(&self) -> (r: Option<u32>)
        ensures
            r == (if self.pulling is Some || self.filing is Some { Some(2u32) } else { None::<u32> }),
    {
        if self.pulling.is_some() || self.filing.is_some() {
            Some(2)
        } else {
            None
        }
    }

    /// The notice the last action left, **taken** rather than read: it belongs to the action
    /// that produced it, not to every page after it.
    pub fn take_notice(&mut self) -> (r: Option<String>)
        ensures
            r == old(self).connect,
            *final(self) == (Bench { connect: None, ..*old(self) }),
    {
        let r = self.connect.take();
        r
    }

    /// Leave one sentence for the next page to show, whichever way it went.
    pub fn say(&mut self, said: Result<String, String>)
        ensures
            *final(self) == (Bench { connect: Some(either(said)), ..*old(self) }),
    {
        self.connect = Some(either_way(said));
    }

    /// Say what the Models tab's last button did.
    pub fn say_on_models(&mut self, said: Result<String, String>)
        ensures
            *final(self) == (Bench { models_said: Some(either(said)), ..*old(self) }),
    {
        self.models_said = Some(either_way(said));
    }

    /// REMOVE pressed once: that model, and only that one, is one press from going.
    pub fn arm_removal(&mut self, path: Option<String>)
        ensures
            *final(self) == (Bench { removing: path, models_said: None, ..*old(self) }),
    {
        self.removing = path;
        self.models_said = None;
    }

    /// KEEP IT: nothing is armed any more.
    pub fn disarm(&mut self)
        ensures
            *final(self) == (Bench { removing: None, ..*old(self) }),
    {
        self.removing = None;
    }

    /// A removal was tried: nothing is armed afterwards, whichever way it went.
    pub fn removed(&mut self, said: Result<String, String>)
        ensures
            *final(self) == (Bench {
                removing: None,
                models_said: Some(either(said)),
                ..*old(self)
            }),
    {
        self.removing = None;
        self.models_said = Some(either_way(said));
    }

    /// Start reporting a pull of `model`, unless one is already running.
    pub fn begin_pulling(&mut self, model: &str) -> (r: bool)
        ensures
            r == (old(self).pulling is None),
            r ==> (final(self).pulling matches Some(p) && p@ == model@),
            r ==> final(self).said is None,
            r ==> (Bench { pulling: None, said: None, ..*final(self) }) == (Bench {
                pulling: None,
                said: None,
                ..*old(self)
            }),
            !r ==> *final(self) == *old(self),
    {
        if self.pulling.is_some() {
            return false;
        }
        self.pulling = Some(model.to_string());
        self.said = None;
        true
    }

    /// A pull ended: nothing is downloading, it says how it went, and the featured list is
    /// read again because what is already here changed.
    pub fn pulled(&mut self, model: &str, outcome: Result<(), String>)
        ensures
            final(self).pulling is None,
            final(self).said matches Some(s) && s@ == pulled_said(
                model@,
                match outcome {
                    Ok(()) => Ok(()),
                    Err(why) => Err(why@),
                },
            ),
            !final(self).shelf_read,
            (Bench { pulling: None, said: None, shelf_read: false, ..*final(self) }) == (Bench {
                pulling: None,
                said: None,
                shelf_read: false,
                ..*old(self)
            }),
    {
        self.pulling = None;
        self.said = Some(
            match outcome {
                Ok(()) => {
                    let mut s = model.to_string();
                    s.append(" is on this machine now, and lent to the Host.");
                    s
                },
                Err(why) => why,
            },
        );
        self.shelf_read = false;
    }

    /// Start reporting a file download, unless one is already running.
    pub fn begin_filing(&mut self, repo: &str, quant: &str) -> (r: bool)
        ensures
            r == (old(self).filing is None),
            r ==> (final(self).filing matches Some(f) && f@ == repo@ + " · "@ + quant@),
            r ==> final(self).filed is None,
            r ==> (Bench { filing: None, filed: None, ..*final(self) }) == (Bench {
                filing: None,
                filed: None,
                ..*old(self)
            }),
            !r ==> *final(self) == *old(self),
    {
        if self.filing.is_some() {
            return false;
        }
        let mut line = repo.to_string();
        line.append(" · ");
        line.append(quant);
        self.filing = Some(line);
        self.filed = None;
        true
    }

    /// A file download ended.
    pub fn filed(&mut self, outcome: Result<String, String>)
        ensures
            final(self).filing is None,
            final(self).filed matches Some(f) && f@ == filed_said(result_view(outcome)),
            (Bench { filing: None, filed: None, ..*final(self) }) == (Bench {
                filing: None,
                filed: None,
                ..*old(self)
            }),
    {
        self.filing = None;
        self.filed = Some(
            match outcome {
                Ok(at) => {
                    let mut s = String::from_str("Saved to ");
                    s.append(at.as_str());
                    s.append(". Point llama.cpp or LM Studio at it.");
                    s
                },
                Err(why) => why,
            },
        );
    }

    /// Start reporting a curve being mapped, unless one already is.
    pub fn begin_measuring(&mut self, name: &str) -> (r: bool)
        ensures
            r == (old(self).measuring is None),
            r ==> (final(self).measuring matches Some(m) && m@ == name@ + ": starting\u{2026}"@),
            r ==> final(self).models_said is None,
            r ==> (Bench { measuring: None, models_said: None, ..*final(self) }) == (Bench {
                measuring: None,
                models_said: None,
                ..*old(self)
            }),
            !r ==> *final(self) == *old(self),
    {
        if self.measuring.is_some() {
            return false;
        }
        let mut line = name.to_string();
        line.append(": starting\u{2026}");
        self.measuring = Some(line);
        self.models_said = None;
        true
    }

    /// A curve was mapped, or was not.
    pub fn measured(&mut self, outcome: Result<String, String>)
        ensures
            *final(self) == (Bench {
                measuring: None,
                models_said: Some(either(outcome)),
                ..*old(self)
            }),
    {
        self.measuring = None;
        self.models_said = Some(either_way(outcome));
    }

    /// Turn to the page a form named, or the first where it named none: an open repository
    /// belongs to the page it was opened on.
    pub fn turn_to(&mut self, raw: Option<&str>)
        ensures
            final(self).page == page_asked(
                match raw {
                    Some(r) => Some(r@),
                    None => None,
                },
            ),
            *final(self) == (Bench {
                page: final(self).page,
                opened: None,
                ..*old(self)
            }),
    {
        let page = match raw {
            Some(r) => match parse_at_most(trim(r), usize::MAX as u64) {
                Some(n) => n as usize,
                None => 0,
            },
            None => 0,
        };
        self.page = page;
        self.opened = None;
    }

    /// Whether pressing OPEN on `repo` closes what is open instead: pressing the open one
    /// closes it, and an empty name opens nothing.
    pub fn closes(&self, repo: &str) -> (r: bool)
        ensures
            r == (repo@.len() == 0 || (self.opened matches Some(o) && o@ == repo@)),
    {
        match &self.opened {
            Some(o) => repo.is_empty() || crate::text::same(o.as_str(), repo),
            None => repo.is_empty(),
        }
    }

    /// Close the open repository.
    pub fn close(&mut self)
        ensures
            *final(self) == (Bench { opened: None, ..*old(self) }),
    {
        self.opened = None;
    }

    /// Open one repository.
    pub fn open(&mut self, repo: String)
        ensures
            *final(self) == (Bench { opened: Some(repo), ..*old(self) }),
    {
        self.opened = Some(repo);
    }

    /// A model was typed into the weighing field: it is kept, the last verdict's line is
    /// cleared, and whether anything is weighed at all is whether anything but spaces was typed.
    pub fn weighing(&mut self, asked: String) -> (r: bool)
        ensures
            r == (trimmed(asked@).len() > 0),
            *final(self) == (Bench { asked: asked, said: None, ..*old(self) }),
    {
        let r = !trim(asked.as_str()).is_empty();
        self.asked = asked;
        self.said = None;
        r
    }

    /// A new search: a new list starts at its first page, with nothing open.
    pub fn new_search(&mut self, query: String)
        ensures
            *final(self) == (Bench { query: query, page: 0, opened: None, ..*old(self) }),
    {
        self.query = query;
        self.page = 0;
        self.opened = None;
    }

    /// A search answered: the cursor for what comes next, and no complaint.
    pub fn found(&mut self, more: Option<String>)
        ensures
            *final(self) == (Bench { more: more, said: None, ..*old(self) }),
    {
        self.more = more;
        self.said = None;
    }

    /// A search failed: Hugging Face's own words, since a search that failed and said nothing
    /// would look exactly like one that found nothing.
    pub fn not_found(&mut self, why: String)
        ensures
            *final(self) == (Bench { more: None, said: Some(why), ..*old(self) }),
    {
        self.more = None;
        self.said = Some(why);
    }
}

/// The page a form asked for: the number it sent, trimmed, or the first where it sent none.
pub open spec fn page_asked(raw: Option<Seq<char>>) -> usize {
    match raw {
        Some(r) => match parsed(trimmed(r)) {
            Some(n) => if n <= usize::MAX {
                n as usize
            } else {
                0
            },
            None => 0,
        },
        None => 0,
    }
}

/// The line a pull reports as it goes: the runtime's own words, with the percentage when it is
/// moving bytes.
pub open spec fn pull_line_of(
    named: Seq<char>,
    status: Seq<char>,
    total: Option<u64>,
    done: Option<u64>,
) -> Seq<char> {
    match (total, done) {
        (Some(t), Some(d)) if t > 0 => named + " · "@ + status + " · "@ + decimal(
            (saturated(d as nat * 100) / t as nat),
        ) + "%"@,
        _ => named + " · "@ + status,
    }
}

/// A product as `u64::saturating_mul` gives it.
pub open spec fn saturated(n: nat) -> nat {
    if n > u64::MAX {
        u64::MAX as nat
    } else {
        n
    }
}

/// **A pull reports the share that has arrived.** Where the runtime said how big the download is,
/// the line ends in the whole percent of it that has arrived: nothing at the start, a hundred
/// when it is all here, never more.
pub proof fn a_pull_reports_what_has_arrived(named: Seq<char>, status: Seq<char>, t: u64, d: u64)
    requires
        0 < t,
        d * 100 <= u64::MAX,
    ensures
        pull_line_of(named, status, Some(t), Some(d)) == named + " · "@ + status + " · "@ + decimal(
            (d * 100 / (t as int)) as nat,
        ) + "%"@,
        d <= t ==> d * 100 / (t as int) <= 100,
        d == t ==> d * 100 / (t as int) == 100,
        pull_line_of(named, status, None, Some(d)) == named + " · "@ + status,
{
    assert(saturated(d as nat * 100) == d * 100);
    if d <= t {
        assert(d * 100 / (t as int) <= 100) by (nonlinear_arith)
            requires
                0 < t,
                d <= t,
        ;
    }
    if d == t {
        assert(d * 100 / (t as int) == 100) by (nonlinear_arith)
            requires
                0 < t,
                d == t,
        ;
    }
}

/// The line a pull reports as it goes.
pub fn pull_line(named: &str, status: &str, total: Option<u64>, done: Option<u64>) -> (r: String)
    ensures
        r@ == pull_line_of(named@, status@, total, done),
{
    let mut out = named.to_string();
    out.append(" · ");
    out.append(status);
    match (total, done) {
        (Some(t), Some(d)) if t > 0 => {
            out.append(" · ");
            let hundred: u64 = if d > u64::MAX / 100 {
                u64::MAX
            } else {
                d * 100
            };
            let p = hundred / t;
            let n = decimal_of(p);
            out.append(n.as_str());
            out.append("%");
        },
        _ => {},
    }
    out
}

/// The line a curve reports as it goes: which rung of how many, and the setting it is on.
pub fn measuring_line(named: &str, done: usize, total: usize, setting: &str) -> (r: String)
    requires
        done < usize::MAX,
    ensures
        r@ == named@ + ": "@ + decimal((done + 1) as nat) + " of "@ + decimal(total as nat)
            + " \u{2014} "@ + setting@,
{
    let mut out = named.to_string();
    out.append(": ");
    let n = decimal_of((done + 1) as u64);
    out.append(n.as_str());
    out.append(" of ");
    let t = decimal_of(total as u64);
    out.append(t.as_str());
    out.append(" \u{2014} ");
    out.append(setting);
    out
}

/// The line a file download reports once the plan is read: every file it will fetch, and how
/// big, named before seventeen gigabytes are committed to it.
pub open spec fn planned_line(repo: Seq<char>, planned: Seq<(Seq<char>, Seq<char>)>) -> Seq<char> {
    repo + " · "@ + crate::text::joined_by(
        planned.map_values(|p: (Seq<char>, Seq<char>)| p.0 + " ("@ + p.1 + ")"@),
        ", "@,
    )
}

/// The line a file download reports once the plan is read.
pub fn plan_line(repo: &str, files: &Vec<(String, String)>) -> (r: String)
    ensures
        r@ == planned_line(repo@, files@.map_values(|p: (String, String)| (p.0@, p.1@))),
{
    let mut parts: Vec<String> = Vec::new();
    let mut i: usize = 0;
    while i < files.len()
        invariant
            0 <= i <= files@.len(),
            crate::text::views(parts@) == files@.take(i as int).map_values(
                |p: (String, String)| p.0@ + " ("@ + p.1@ + ")"@,
            ),
        decreases files@.len() - i,
    {
        let mut one = files[i].0.clone();
        one.append(" (");
        one.append(files[i].1.as_str());
        one.append(")");
        assert(one@ == files@[i as int].0@ + " ("@ + files@[i as int].1@ + ")"@);
        let ghost before = parts@;
        parts.push(one);
        assert(files@.take(i + 1) =~= files@.take(i as int).push(files@[i as int]));
        assert(crate::text::views(parts@) =~= crate::text::views(before).push(one@));
        i = i + 1;
        assert(crate::text::views(parts@) =~= files@.take(i as int).map_values(
            |p: (String, String)| p.0@ + " ("@ + p.1@ + ")"@,
        ));
    }
    let joined = crate::text::join(&parts, ", ");
    assert(crate::text::views(parts@) =~= files@.map_values(
        |p: (String, String)| (p.0@, p.1@),
    ).map_values(|p: (Seq<char>, Seq<char>)| p.0 + " ("@ + p.1 + ")"@));
    let mut out = repo.to_string();
    out.append(" · ");
    out.append(joined.as_str());
    out
}

/// What a plan that matches nothing says, rather than starting a download that fetches
/// nothing while looking like success.
pub fn nothing_matches(repo: &str, quant: &str) -> (r: String)
    ensures
        r@ == "Nothing in "@ + repo@ + " matches '"@ + quant@ + "'."@,
{
    let mut out = String::from_str("Nothing in ");
    out.append(repo);
    out.append(" matches '");
    out.append(quant);
    out.append("'.");
    out
}

/// How much free graphics memory a model needs beyond its own size to count as having fitted.
pub const HEADROOM: u64 = 1_500_000_000;

/// Whether a timed model fitted on the card: it has a size, and there was room for it with
/// a gigabyte and a half to spare.
pub open spec fn fitted_in(bytes: u64, vram_free: Option<u64>) -> bool {
    match vram_free {
        Some(free) => bytes > 0 && bytes <= if free >= HEADROOM {
            free - HEADROOM
        } else {
            0
        },
        None => false,
    }
}

/// Whether a timed model fitted on the card.
pub fn fitted(bytes: u64, vram_free: Option<u64>) -> (r: bool)
    ensures
        r == fitted_in(bytes, vram_free),
{
    match vram_free {
        Some(free) => bytes > 0 && bytes <= free.saturating_sub(HEADROOM),
        None => false,
    }
}

/// What one timing says, from its rate in tenths of a token per second.
pub fn timed(tenths: u64) -> (r: String)
    ensures
        r@ == one_place(tenths as nat) + " tokens per second, measured here."@,
{
    let mut out = one_place_of(tenths);
    out.append(" tokens per second, measured here.");
    out
}

/// The notice the Connect tab shows once this machine has let go of its Host.
pub fn disconnected() -> (r: String)
    ensures
        r@ == "Disconnected. This machine lends nothing until it is paired again."@,
{
    String::from_str("Disconnected. This machine lends nothing until it is paired again.")
}

/// The notice a page shows when a form that always names something named nothing.
pub fn nothing_named() -> (r: String)
    ensures
        r@ == "nothing was named"@,
{
    String::from_str("nothing was named")
}

/// The runtime a form named, trimmed, or a sentence saying it named nothing this build knows.
/// What arrives from a form is an id to look up, never an address to dial.
pub open spec fn runtime_asked_of(wanted: Seq<char>) -> Result<Runtime, Seq<char>> {
    match runtime_named(trimmed(wanted)) {
        Some(r) => Ok(r),
        None => Err("'"@ + wanted + "' is not a runtime this build knows"@),
    }
}

/// The runtime a form named.
pub fn runtime_asked(wanted: &str) -> (r: Result<Runtime, String>)
    ensures
        match r {
            Ok(rt) => runtime_asked_of(wanted@) == Ok::<Runtime, Seq<char>>(rt),
            Err(why) => runtime_asked_of(wanted@) == Err::<Runtime, Seq<char>>(why@),
        },
{
    let id = trim(wanted);
    if same(id, "ollama") {
        Ok(Runtime::Ollama)
    } else if same(id, "llama_cpp") {
        Ok(Runtime::LlamaCpp)
    } else if same(id, "lm_studio") {
        Ok(Runtime::LmStudio)
    } else {
        let mut why = String::from_str("'");
        why.append(wanted);
        why.append("' is not a runtime this build knows");
        Err(why)
    }
}

/// What pressing START says once a terminal opened on a runtime's server.
pub fn started(name: &str) -> (r: String)
    ensures
        r@ == "A terminal opened on "@ + name@
            + ". Once it says it is listening, open this tab again."@,
{
    let mut out = String::from_str("A terminal opened on ");
    out.append(name);
    out.append(". Once it says it is listening, open this tab again.");
    out
}

/// What pressing START says about a program that is not on this machine.
pub fn nothing_to_start(name: &str) -> (r: String)
    ensures
        r@ == name@ + " is not on this machine, so there is nothing to start."@,
{
    let mut out = name.to_string();
    out.append(" is not on this machine, so there is nothing to start.");
    out
}

/// What pressing OPEN says about an image studio that is not on this machine.
pub fn nothing_to_open(name: &str) -> (r: String)
    ensures
        r@ == name@ + " is not on this machine, so there is nothing to open."@,
{
    let mut out = name.to_string();
    out.append(" is not on this machine, so there is nothing to open.");
    out
}

/// What pressing INSTALL says: it opened a terminal on the command and stepped back, and
/// surveying again is how anybody finds out how it went.
pub fn installing(command: &str) -> (r: String)
    ensures
        r@ == "A terminal opened on `"@ + command@ + "`. When it finishes, open this tab again."@,
{
    let mut out = String::from_str("A terminal opened on `");
    out.append(command);
    out.append("`. When it finishes, open this tab again.");
    out
}

/// What opening the image studio says. **Which of two things happened is measured, not
/// assumed**: whether this program started the studio's own server, or could only press the
/// desktop application's front door.
pub open spec fn studio_opened_of(name: Seq<char>, first_run: Seq<char>, starts_server: bool) -> Seq<char> {
    if starts_server {
        "A terminal opened on "@ + name + "'s own server. "@ + first_run
            + " Once it says it is listening, open this tab again."@
    } else {
        name + " is opening. "@ + first_run + " Then open this tab again."@
    }
}

/// What opening the image studio says.
pub fn studio_opened(name: &str, first_run: &str, starts_server: bool) -> (r: String)
    ensures
        r@ == studio_opened_of(name@, first_run@, starts_server),
{
    if starts_server {
        let mut out = String::from_str("A terminal opened on ");
        out.append(name);
        out.append("'s own server. ");
        out.append(first_run);
        out.append(" Once it says it is listening, open this tab again.");
        out
    } else {
        let mut out = name.to_string();
        out.append(" is opening. ");
        out.append(first_run);
        out.append(" Then open this tab again.");
        out
    }
}

/// How a runtime's shelf is stocked with every model this machine has.
#[derive(Debug, Clone, Copy, PartialEq, Eq, Structural)]
pub enum Stocking {
    /// llama.cpp serves a folder of links, with the conservative loadout and its own defaults.
    Serve,
    /// LM Studio is lent the files where they are.
    Lend,
}

/// Which way a runtime's shelf is stocked, from the id a form named.
pub open spec fn stocking_of(wanted: Seq<char>) -> Result<Stocking, Seq<char>> {
    let id = trimmed(wanted);
    if id == "llama_cpp"@ {
        Ok(Stocking::Serve)
    } else if id == "lm_studio"@ {
        Ok(Stocking::Lend)
    } else {
        Err("'"@ + id + "' has no shelf to stock"@)
    }
}

/// **Only a runtime that reads a folder has a shelf to stock.** llama.cpp is served every model
/// here, LM Studio is lent them where they are, and any other id — Ollama's included — is
/// refused.
pub proof fn only_a_runtime_with_a_shelf_is_stocked(wanted: Seq<char>)
    ensures
        stocking_of("llama_cpp"@) == Ok::<Stocking, Seq<char>>(Stocking::Serve),
        stocking_of("lm_studio"@) == Ok::<Stocking, Seq<char>>(Stocking::Lend),
        stocking_of("ollama"@) is Err,
        stocking_of(wanted) is Ok ==> trimmed(wanted) == "llama_cpp"@ || trimmed(wanted) == "lm_studio"@,
{
    reveal_strlit("llama_cpp");
    reveal_strlit("lm_studio");
    reveal_strlit("ollama");
    assert(trimmed("llama_cpp"@) == "llama_cpp"@);
    assert(trimmed("lm_studio"@) == "lm_studio"@);
    assert(trimmed("ollama"@) == "ollama"@);
    assert("llama_cpp"@[1] != "lm_studio"@[1]);
    assert("ollama"@.len() != "llama_cpp"@.len());
}

/// Which way a runtime's shelf is stocked.
pub fn stocking(wanted: &str) -> (r: Result<Stocking, String>)
    ensures
        match r {
            Ok(s) => stocking_of(wanted@) == Ok::<Stocking, Seq<char>>(s),
            Err(why) => stocking_of(wanted@) == Err::<Stocking, Seq<char>>(why@),
        },
{
    let id = trim(wanted);
    if same(id, "llama_cpp") {
        Ok(Stocking::Serve)
    } else if same(id, "lm_studio") {
        Ok(Stocking::Lend)
    } else {
        let mut why = String::from_str("'");
        why.append(id);
        why.append("' has no shelf to stock");
        Err(why)
    }
}

/// The name a catalogue's key is kept under in this machine's credential store.
pub fn key_name(source: &str) -> (r: String)
    ensures
        r@ == "catalogue:"@ + trimmed(source@),
{
    let mut out = String::from_str("catalogue:");
    out.append(trim(source));
    out
}

/// What keeping or forgetting a key says, from what the store answered. A key that was kept
/// empty says nothing was typed; the stored value itself is never repeated.
pub open spec fn key_said_of(
    source: Seq<char>,
    forget: bool,
    value: Seq<char>,
    outcome: Result<(), Seq<char>>,
) -> Seq<char> {
    match outcome {
        Err(why) => why,
        Ok(()) => if forget {
            source + "'s key was removed."@
        } else if trimmed(value).len() == 0 {
            "Nothing was typed."@
        } else {
            source + "'s key is kept by this machine's own credential store."@
        },
    }
}

/// **A stored key is never repeated.** What keeping a key says depends on the value typed only
/// as far as whether anything was typed: two keys that were both typed are answered the same
/// sentence, and neither value appears in it.
pub proof fn a_stored_key_is_never_repeated(source: Seq<char>, forget: bool, one: Seq<char>, other: Seq<char>)
    requires
        trimmed(one).len() > 0,
        trimmed(other).len() > 0,
    ensures
        key_said_of(source, forget, one, Ok(())) == key_said_of(source, forget, other, Ok(())),
        key_said_of(source, false, one, Ok(())) == source + "'s key is kept by this machine's own credential store."@,
        key_said_of(source, true, one, Ok(())) == source + "'s key was removed."@,
{
}

/// What keeping or forgetting a key says.
pub fn key_said(source: &str, forget: bool, value: &str, outcome: Result<(), String>) -> (r: String)
    ensures
        r@ == key_said_of(
            source@,
            forget,
            value@,
            match outcome {
                Ok(()) => Ok(()),
                Err(why) => Err(why@),
            },
        ),
{
    match outcome {
        Err(why) => why,
        Ok(()) => if forget {
            let mut out = source.to_string();
            out.append("'s key was removed.");
            out
        } else if trim(value).is_empty() {
            String::from_str("Nothing was typed.")
        } else {
            let mut out = source.to_string();
            out.append("'s key is kept by this machine's own credential store.");
            out
        },
    }
}

/// The context size a form asked a measured curve for, as `str::parse` reads a `u32`, or the
/// sentence that says it was not one.
pub fn context_size(raw: &str) -> (r: Result<u32, String>)
    ensures
        match r {
            Ok(n) => parsed(raw@) == Some(n as nat),
            Err(why) => (parsed(raw@) is None || parsed(raw@).unwrap() > u32::MAX) && why@
                == "that is not a context size"@,
        },
{
    match parse_at_most(raw, u32::MAX as u64) {
        Some(n) => Ok(n as u32),
        None => Err(String::from_str("that is not a context size")),
    }
}

} // verus!
