//! The window's pages: one frame, six tabs, and everything shown escaped.
//!
//! This program's CSP is `script-src: 'none'`, so the tabs are links, every action is a form,
//! and the one thing that changes over time uses `<meta http-equiv="refresh">`. Everything is
//! inline — no font from a CDN, no script from anywhere.

use vstd::prelude::*;
use vstd::string::*;

use crate::door::opt_view;
use crate::keep::Bond;
use crate::shelfpage::Cli;
use crate::text::{chars_of, decimal, decimal_of, digit, digit_char, join, joined_by, push_char, views};

verus! {

/// Which tab is showing.
#[derive(Debug, Clone, Copy, PartialEq, Eq, Structural)]
pub enum Tab {
    Connect,
    /// The programs on this machine that can run a model, and the one button each needs.
    Services,
    Workshop,
    /// What is *on* this machine, as opposed to what could be.
    Models,
    /// What this machine can draw with.
    Creations,
    /// What this machine has, as opposed to what it is lending.
    Settings,
}

/// The version this page says is answering, so a window opened onto an older copy still
/// holding the port can tell.
pub const VERSION: &'static str = "0.1.0";

pub const FRAME_OPENING: &'static str = r#"<!doctype html>
<html lang="en"><head>
<meta charset="utf-8">
<meta name="viewport" content="width=device-width,initial-scale=1">
"#;

pub const FRAME_TITLE: &'static str = r#"
<title>EpochServices</title>
<style>"#;

pub const FRAME_STYLE_END: &'static str = r#"</style>
</head><body class=""#;

pub const FRAME_NAV_CONNECT: &'static str = r#"">
<main>
  <header>
    <span class="mark"></span>
    <div>
      <h1>EpochServices</h1>
      <p class="quiet">Lends this machine's models to an Epoch Host.</p>
    </div>
  </header>

  <nav class="tabs">
    <a href="/" class=""#;

pub const FRAME_NAV_SERVICES: &'static str = r#"">CONNECT</a>
    <a href="/services" class=""#;

pub const FRAME_NAV_WORKSHOP: &'static str = r#"">START SERVICES</a>
    <a href="/workshop" class=""#;

pub const FRAME_NAV_MODELS: &'static str = r#"">MODELS WORKSHOP</a>
    <a href="/models" class=""#;

pub const FRAME_NAV_CREATIONS: &'static str = r#"">MODELS</a>
    <a href="/creations" class=""#;

pub const FRAME_NAV_SETTINGS: &'static str = r#"">CREATIONS WORKSHOP</a>
    <a href="/settings" class=""#;

pub const FRAME_NAV_END: &'static str = r#"">SETTINGS</a>
  </nav>

"#;

pub const FRAME_FOOTER: &'static str = r#"

  <footer class="quiet">
    Every runtime stays on 127.0.0.1. Nothing here is exposed to your network except this
    program, and this program answers nobody without the secret your Host gave it. A turn names
    which runtime should run it; it can never name where one is.
    <br>
    <!--
      **Which copy is answering.** A second copy cannot take the port, so a new window can open
      onto an older program still holding it — and an older program answers `no` to routes it
      does not have, which reads as a bug in the new one. The version is the cheapest way to
      tell those apart, and it belongs on the page rather than in an About box nobody opens.
    -->
    EpochServices v"#;

pub const FRAME_CLOSING: &'static str = r#"
  </footer>
</main>
</body></html>"#;

pub const STYLE: &'static str = r#"
:root{--void:#07060c;--panel:#171320;--sunk:rgba(6,5,11,.6);--edge:#322a44;
--gold:#e8b74a;--gold-lit:#ffd77a;--parchment:#f4e6c4;--ink:#efe8da;--quiet:rgba(239,232,218,.45);
--mono:"IBM Plex Mono",ui-monospace,SFMono-Regular,Menlo,Consolas,monospace}
*{box-sizing:border-box}
body{margin:0;background:var(--void);color:var(--ink);font:400 13px/1.6 var(--mono);
display:flex;justify-content:center;padding:36px 18px}
main{width:100%;max-width:560px;display:grid;gap:16px}
/*
  The Workshop needs the width and the Connect tab does not.

  Connect is four fields and a paragraph; 560 is a comfortable measure for reading and a silly
  one for a form. The Workshop is a list of repository names, and those are long — a narrow
  column meant the names had nowhere to go, so they overlapped each other and the panel.
*/
body.workshop main{max-width:1100px}
header{display:flex;gap:12px;align-items:center}
.mark{width:26px;height:26px;background:linear-gradient(180deg,var(--gold-lit),var(--gold));
box-shadow:0 0 0 2px var(--void),0 0 0 3px rgba(232,183,74,.3)}
h1{margin:0;font:400 15px var(--mono);letter-spacing:2px;color:var(--parchment)}
p{margin:0 0 6px}
.grid{display:grid;grid-template-columns:repeat(auto-fill,minmax(290px,1fr));gap:10px;margin-top:10px}
.row{display:flex;flex-wrap:wrap;align-items:center;gap:8px}
.row.between{justify-content:space-between}
.row > input[name=query]{flex:1;min-width:180px}
.pages{display:flex;align-items:center;justify-content:center;gap:12px;margin-top:14px}
a.btn{display:inline-flex;align-items:center;padding:10px 13px;text-decoration:none;
  color:var(--parchment);background:linear-gradient(180deg,#221b31,#15111f)}
a.btn:hover{box-shadow:0 0 0 2px #05040a,0 0 0 3px var(--gold)}
.warn{color:var(--gold-lit)}
.note{color:var(--parchment)}
.quiet{color:var(--quiet)}
/* The picture a catalogue leads with. Fixed height and cover, because twenty results are
   twenty aspect ratios and a grid that reflows around each one moves while it is read. */
.shot{display:block;width:100%;height:132px;object-fit:cover;margin:0 0 8px;
  border:1px solid rgba(255,255,255,.12);background:rgba(0,0,0,.35)}
.card{background:linear-gradient(180deg,var(--panel),#100d17);padding:16px 18px;display:grid;gap:7px;
box-shadow:0 0 0 2px #05040a,0 0 0 3px rgba(232,183,74,.22)}
.card.lit{box-shadow:0 0 0 2px #05040a,0 0 0 3px rgba(232,183,74,.6)}
.label{font:500 9px var(--mono);letter-spacing:1.6px;text-transform:uppercase;color:var(--quiet)}
form{display:grid;gap:8px;margin-top:4px}
input{background:var(--sunk);border:0;box-shadow:0 0 0 1px var(--edge);color:var(--ink);
padding:10px 11px;font:400 13px var(--mono)}
input:focus{outline:0;box-shadow:0 0 0 1px var(--gold)}
input[name=code]{letter-spacing:6px;text-transform:uppercase;font-size:18px;color:var(--gold-lit)}
button{padding:10px 13px;border:0;cursor:pointer;color:var(--parchment);background:linear-gradient(180deg,#221b31,#15111f);
font:400 11px var(--mono);letter-spacing:1.5px;
box-shadow:0 0 0 2px #05040a,0 0 0 3px rgba(232,183,74,.45)}
button:hover{box-shadow:0 0 0 2px #05040a,0 0 0 3px var(--gold)}
.quietbtn{box-shadow:0 0 0 2px #05040a,0 0 0 3px rgba(70,58,92,.7)}
.notice{background:var(--sunk);border-left:2px solid var(--gold);padding:9px 11px;color:var(--parchment)}
code{color:var(--parchment)}
.tabs{display:flex;gap:2px}
.tabs a{padding:8px 13px;text-decoration:none;color:var(--quiet);font:400 10px var(--mono);
letter-spacing:1.6px;background:linear-gradient(180deg,#15111f,#100d17);
box-shadow:0 0 0 1px #05040a}
.tabs a.on{color:var(--parchment);box-shadow:0 0 0 1px #05040a,inset 0 -2px 0 var(--gold)}
.tabs a:hover{color:var(--ink)}
.verdict{display:flex;align-items:center;gap:8px;flex-wrap:wrap;margin-top:4px}
.runs{padding:1px 5px;font-size:9px;letter-spacing:1.2px;box-shadow:0 0 0 1px currentColor}
.runs--yes{color:#7fd08a}
.runs--no{color:var(--gold)}
.runs--unknown{color:var(--parchment);opacity:.55}
.showing{font-size:26px;letter-spacing:9px;color:var(--gold-lit);margin:6px 0 2px}
.showing .left{font-size:12px;letter-spacing:1px;opacity:.55;margin-left:12px;vertical-align:middle}
.models{margin:2px 0 0;padding-left:16px}
.models li{margin:2px 0}
/*
  Model names across, not down.

  A single column turned forty results into forty screens of scrolling, in a window that is 640
  wide and has two other panels under it. `auto-fill` rather than a fixed count so the same page
  works in a narrow window and in a wide one — the desktop Workshop reads the same way.
*/
.offers{list-style:none;margin:6px 0 0;padding:0;
display:grid;grid-template-columns:repeat(auto-fill,minmax(260px,1fr));gap:3px 14px}
/*
  **`min-width:0` on everything that has to shrink**, and that is the whole fix.

  A grid item and a flex item both refuse to go narrower than their content unless told
  otherwise, so `text-overflow:ellipsis` never fired: the names ran out of their cells and drew
  on top of each other. It has to be said on the `li`, on the `form` between them, and on the
  button itself — a single one of the three left out and the chain still cannot shrink.
*/
.offers li{display:flex;align-items:baseline;gap:6px;min-width:0}
.offers form{display:flex;margin:0;min-width:0;flex:1}
/* A name is a link, because pressing it asks a question rather than performing an action. */
.offers button.link{background:none;box-shadow:none;padding:0;text-align:left;
color:var(--parchment);font:400 11px var(--mono);letter-spacing:0;
min-width:0;width:100%;
overflow:hidden;text-overflow:ellipsis;white-space:nowrap}
.offers button.link:hover{color:var(--gold-lit);box-shadow:none;text-decoration:underline}
.offers em{font-style:normal;font-size:9px;white-space:nowrap;flex:none}
footer{font-size:11px;line-height:1.7}
/*
  The facet chips, the pager, and a repository opened into its quantisations.

  All three exist on the desktop Workshop and none of them needed a line of script there either
  - a chip is a checkbox inside the search form, a page is a form with a number in it, and an
  open repository is a page the server drew that way. `script-src: 'none'` is not a limitation
  being worked around here; it is what makes a careful door trustworthy, and the two Workshops
  ended up the same shape regardless.
*/
.chips{display:flex;flex-wrap:wrap;gap:6px}
.chip{display:inline-flex;align-items:center;gap:5px;padding:5px 9px;cursor:pointer;
background:var(--sunk);box-shadow:0 0 0 1px var(--edge);
font:400 10px var(--mono);letter-spacing:1px;color:var(--quiet)}
.chip:hover{color:var(--parchment)}
.chip--on{color:var(--gold-lit);box-shadow:0 0 0 1px var(--gold)}
.chip input{width:11px;height:11px;padding:0;box-shadow:none;accent-color:var(--gold)}
/* An open result spans the whole grid: twenty-seven quantisations do not fit in a 260px cell. */
.offers li.open{grid-column:1/-1;display:block}
.offers li.open form{display:block}
.offers li.open button.link{color:var(--gold-lit);white-space:normal;overflow:visible}
/*
  The quantisation table, in the same measurements Epoch's Workshop uses.

  Copied rather than re-invented: two screens showing one repository had drifted into two
  layouts, and the one somebody compares against is the desktop. An `inset` shadow keeps a chip's
  box exactly its own size — an outer one spreads the row without adding anything to read.
*/
.quants{margin:6px 0 2px;padding:9px 10px;background:var(--sunk);
box-shadow:0 0 0 1px var(--edge);display:grid;gap:3px}
.qrow{display:grid;grid-template-columns:54px minmax(0,1fr);gap:8px;align-items:center}
.qbits{font:400 9px var(--mono);letter-spacing:1.2px;color:var(--gold);opacity:.75;text-align:right}
.qlist{display:flex;flex-wrap:wrap;gap:4px;min-width:0}
.qform{display:contents}
/*
  **Gold and weight, never a traffic light** - the same rule the verdict word follows. What runs
  here is ringed; what does not is dimmed rather than hidden, because it is still a real thing
  somebody may want.
*/
.quant{display:inline-flex;align-items:baseline;gap:5px;padding:2px 6px;border:0;cursor:pointer;
background:rgba(6,5,11,.5);color:var(--parchment);font:400 10px var(--mono);letter-spacing:0;
box-shadow:inset 0 0 0 1px rgba(120,105,150,.35)}
.quant:hover{box-shadow:inset 0 0 0 1px var(--gold)}
.quant b{font-weight:500}
.quant span{opacity:.55}
.quant--yes{box-shadow:inset 0 0 0 1px rgba(127,208,138,.55)}
.quant--no{opacity:.45}
.quant--unknown{box-shadow:inset 0 0 0 1px rgba(120,105,150,.35)}
.qtag{font-style:normal;color:var(--gold);opacity:.85}
.qparts{font-style:normal;opacity:.5}
.pager{display:flex;flex-wrap:wrap;gap:3px;align-items:center;margin-top:8px}
.pgf{display:inline;margin:0}
.pg{padding:4px 8px;font:400 10px var(--mono);background:none;box-shadow:0 0 0 1px var(--edge);
color:var(--quiet)}
.pg:hover{box-shadow:0 0 0 1px var(--gold);color:var(--parchment)}
.pg--on{color:var(--gold-lit);box-shadow:0 0 0 1px var(--gold)}
/* An end stop is not a button: it cannot do anything, so it does not look like it could. */
.pg--dead{display:inline-block;padding:4px 8px;font:400 10px var(--mono);
color:var(--quiet);opacity:.3;box-shadow:0 0 0 1px var(--edge)}
/* Two destinations side by side, because they are two answers to one question. */
.acts{display:flex;flex-wrap:wrap;gap:7px;margin-top:4px}
.acts form{margin:0}

/*
  What fits on this machine: twenty boxes, five across.

  A grid rather than a list because the question is a comparison — twenty rows read as a ranking
  and twenty boxes read as a shelf, and only one of those is what this is.
*/
.fits{display:grid;grid-template-columns:repeat(5,1fr);gap:8px;margin-top:12px}
.fits__box{position:relative;padding:10px 10px 12px;background:var(--sunk);
border:1px solid var(--edge);display:grid;gap:4px;align-content:start}
/* Already here is a fact about this machine, so it is marked rather than sorted away. */
.fits__box.on{border-color:var(--gold)}
.fits__rank{position:absolute;top:6px;right:8px;color:var(--quiet);font-size:11px}
.fits__name{margin:0;padding-right:18px;color:var(--parchment);word-break:break-word}
.fits p{margin:0;font-size:12px}
.fits button{margin-top:4px;width:100%}
@media (max-width:900px){.fits{grid-template-columns:repeat(2,1fr)}}

/* Models: one row per model, with its recipe folded underneath. */
.mdls{display:grid;gap:8px;margin-top:12px}
.mdls__row{padding:10px 12px;background:var(--sunk);border:1px solid var(--edge);
display:grid;grid-template-columns:1fr auto;gap:8px 12px;align-items:start}
.mdls__row p{margin:0}
.mdls__name{color:var(--parchment)}
.mdls__path{font-size:11px;word-break:break-all}
.mdls__doing{display:flex;gap:6px;align-items:start}
.mdls__recipe{grid-column:1 / -1;margin-top:4px;border-top:1px solid var(--edge);padding-top:8px}
.mdls__recipe summary{cursor:pointer;color:var(--quiet)}
.curve{width:100%;border-collapse:collapse;margin-top:8px;font-size:12px}
.curve th{text-align:left;color:var(--quiet);font-weight:400;padding:2px 8px 2px 0}
.curve td{padding:2px 8px 2px 0}
/* The row in use, marked by the same gold everything chosen is marked by. */
.curve tr.on td{color:var(--gold-lit)}

"#;

/// What one character becomes on a page.
pub open spec fn escaped_char(c: char) -> Seq<char> {
    if c == '&' {
        "&amp;"@
    } else if c == '<' {
        "&lt;"@
    } else if c == '>' {
        "&gt;"@
    } else if c == '"' {
        "&quot;"@
    } else if c == '\'' {
        "&#39;"@
    } else {
        seq![c]
    }
}

/// Text as it is put on a page: every character that could open a tag, an attribute or an
/// entity is written as an entity instead.
pub open spec fn escaped(s: Seq<char>) -> Seq<char>
    decreases s.len(),
{
    if s.len() == 0 {
        Seq::empty()
    } else {
        escaped(s.drop_last()) + escaped_char(s.last())
    }
}

/// Everything shown is escaped. A model name and a machine name both come from outside this
/// program, and a page that pasted them in raw would be a page somebody could write into.
pub fn escape(raw: &str) -> (r: String)
    ensures
        r@ == escaped(raw@),
{
    let v = chars_of(raw);
    let mut out = String::new();
    let mut i: usize = 0;
    while i < v.len()
        invariant
            v@ == raw@,
            0 <= i <= v@.len(),
            out@ == escaped(v@.take(i as int)),
        decreases v@.len() - i,
    {
        let c = v[i];
        assert(v@.take(i + 1).drop_last() =~= v@.take(i as int));
        if c == '&' {
            out.append("&amp;");
        } else if c == '<' {
            out.append("&lt;");
        } else if c == '>' {
            out.append("&gt;");
        } else if c == '"' {
            out.append("&quot;");
        } else if c == '\'' {
            out.append("&#39;");
        } else {
            crate::text::push_char(&mut out, c);
        }
        i = i + 1;
    }
    assert(v@.take(v@.len() as int) =~= v@);
    out
}

/// The class the body is drawn with: the Connect tab is a narrow column, every other tab the
/// wide one.
pub open spec fn tab_class(tab: Tab) -> Seq<char> {
    match tab {
        Tab::Connect => "connect"@,
        _ => "workshop"@,
    }
}

/// The mark on a tab's link: lit on the tab that is showing, nothing on every other.
pub open spec fn lit(tab: Tab, slot: Tab) -> Seq<char> {
    if tab == slot {
        "on"@
    } else {
        Seq::empty()
    }
}

/// The tag that makes a page reload itself every `seconds`, or nothing.
pub open spec fn refresh_tag(every: Option<u32>) -> Seq<char> {
    match every {
        Some(seconds) => "<meta http-equiv=\"refresh\" content=\""@ + decimal(seconds as nat) + "\">"@,
        None => Seq::empty(),
    }
}

/// One window, six tabs, one frame.
pub open spec fn framed(tab: Tab, body: Seq<char>, refresh_every: Option<u32>) -> Seq<char> {
    FRAME_OPENING@ + refresh_tag(refresh_every) + FRAME_TITLE@ + STYLE@ + FRAME_STYLE_END@
        + tab_class(tab) + FRAME_NAV_CONNECT@ + lit(tab, Tab::Connect) + FRAME_NAV_SERVICES@
        + lit(tab, Tab::Services) + FRAME_NAV_WORKSHOP@ + lit(tab, Tab::Workshop)
        + FRAME_NAV_MODELS@ + lit(tab, Tab::Models) + FRAME_NAV_CREATIONS@ + lit(
        tab,
        Tab::Creations,
    ) + FRAME_NAV_SETTINGS@ + lit(tab, Tab::Settings) + FRAME_NAV_END@ + body + FRAME_FOOTER@
        + VERSION@ + FRAME_CLOSING@
}

/// Appends the mark for one tab's link.
fn mark(out: &mut String, tab: Tab, slot: Tab)
    ensures
        final(out)@ == old(out)@ + lit(tab, slot),
{
    if tab == slot {
        out.append("on");
    } else {
        assert(old(out)@ + lit(tab, slot) =~= old(out)@);
    }
}

/// One window, six tabs, **one frame** — so the second page cannot drift into looking like a
/// different program.
///
/// `refresh_every` adds a meta refresh, which is how anything changes over time in a page with
/// no script: seconds rather than a flag, because a download and a countdown need different
/// ones. `None` the rest of the time, because a page that reloaded itself forever would be a
/// page nobody could type into.
pub fn frame(tab: Tab, body: &str, refresh_every: Option<u32>) -> (r: String)
    ensures
        r@ == framed(tab, body@, refresh_every),
{
    let mut out = String::from_str(FRAME_OPENING);
    match refresh_every {
        Some(seconds) => {
            out.append("<meta http-equiv=\"refresh\" content=\"");
            let n = decimal_of(seconds as u64);
            out.append(n.as_str());
            out.append("\">");
        },
        None => {},
    }
    out.append(FRAME_TITLE);
    out.append(STYLE);
    out.append(FRAME_STYLE_END);
    match tab {
        Tab::Connect => out.append("connect"),
        _ => out.append("workshop"),
    }
    out.append(FRAME_NAV_CONNECT);
    mark(&mut out, tab, Tab::Connect);
    out.append(FRAME_NAV_SERVICES);
    mark(&mut out, tab, Tab::Services);
    out.append(FRAME_NAV_WORKSHOP);
    mark(&mut out, tab, Tab::Workshop);
    out.append(FRAME_NAV_MODELS);
    mark(&mut out, tab, Tab::Models);
    out.append(FRAME_NAV_CREATIONS);
    mark(&mut out, tab, Tab::Creations);
    out.append(FRAME_NAV_SETTINGS);
    mark(&mut out, tab, Tab::Settings);
    out.append(FRAME_NAV_END);
    out.append(body);
    out.append(FRAME_FOOTER);
    out.append(VERSION);
    out.append(FRAME_CLOSING);
    assert(out@ =~= framed(tab, body@, refresh_every));
    out
}

/// How many of the six links are lit.
pub open spec fn lit_links(tab: Tab) -> nat {
    (if tab == Tab::Connect { 1nat } else { 0nat }) + (if tab == Tab::Services { 1nat } else { 0nat })
        + (if tab == Tab::Workshop { 1nat } else { 0nat }) + (if tab == Tab::Models { 1nat } else { 0nat })
        + (if tab == Tab::Creations { 1nat } else { 0nat }) + (if tab == Tab::Settings { 1nat } else { 0nat })
}

/// **Exactly one tab is lit**, whichever is showing, or the links say nothing about where you
/// are.
pub proof fn exactly_one_tab_is_lit(tab: Tab)
    ensures
        lit_links(tab) == 1,
        lit(tab, tab) == "on"@,
{
}

/// Whether `part` stands in `s` from position `i` on.
pub open spec fn stands_at(s: Seq<char>, part: Seq<char>, i: int) -> bool {
    0 <= i <= s.len() - part.len() && s.subrange(i, i + part.len()) == part
}

/// Whether `part` stands somewhere in `s`.
pub open spec fn holds_text(s: Seq<char>, part: Seq<char>) -> bool {
    exists|i: int| #[trigger] stands_at(s, part, i)
}

/// Where a tab's link goes.
pub open spec fn tab_path(slot: Tab) -> Seq<char> {
    match slot {
        Tab::Connect => "/"@,
        Tab::Services => "/services"@,
        Tab::Workshop => "/workshop"@,
        Tab::Models => "/models"@,
        Tab::Creations => "/creations"@,
        Tab::Settings => "/settings"@,
    }
}

/// A tab's link as the frame writes it, up to and including its class: lit on the tab that
/// is showing.
pub open spec fn tab_link(slot: Tab, tab: Tab) -> Seq<char> {
    "<a href=\""@ + tab_path(slot) + "\" class=\""@ + lit(tab, slot) + "\""@
}

proof fn lemma_holds_between(a: Seq<char>, x: Seq<char>, b: Seq<char>)
    ensures
        holds_text(a + x + b, x),
{
    assert((a + x + b).subrange(a.len() as int, (a.len() + x.len()) as int) =~= x);
    assert(stands_at(a + x + b, x, a.len() as int));
}

/// The start of a tab's link, before its mark.
pub open spec fn link_start(slot: Tab) -> Seq<char> {
    "<a href=\""@ + tab_path(slot) + "\" class=\""@
}

proof fn lemma_link_stands(a: Seq<char>, n: Seq<char>, l: Seq<char>, m: Seq<char>, b: Seq<char>, start: Seq<char>)
    requires
        n.len() >= start.len(),
        n.subrange(n.len() - start.len(), n.len() as int) == start,
        m.len() > 0,
        m[0] == '"',
    ensures
        holds_text(a + n + l + m + b, start + l + seq!['"']),
{
    let whole = a + n + l + m + b;
    let i = a.len() + n.len() - start.len();
    let part = start + l + seq!['"'];
    assert(whole.subrange(i, i + part.len()) =~= part) by {
        assert forall|j: int| 0 <= j < part.len() implies whole.subrange(i, i + part.len())[j]
            == part[j] by {
            if j < start.len() {
                assert(whole[i + j] == n[n.len() - start.len() + j]);
            } else if j < start.len() + l.len() {
                assert(whole[i + j] == l[j - start.len()]);
            } else {
                assert(whole[i + j] == m[0]);
            }
        }
    }
    assert(stands_at(whole, part, i));
}

proof fn lemma_nav_connect()
    ensures
        FRAME_NAV_CONNECT@.len() >= link_start(Tab::Connect).len(),
        FRAME_NAV_CONNECT@.subrange(
            FRAME_NAV_CONNECT@.len() - link_start(Tab::Connect).len(),
            FRAME_NAV_CONNECT@.len() as int,
        ) == link_start(Tab::Connect),
        FRAME_NAV_SERVICES@.len() > 0,
        FRAME_NAV_SERVICES@[0] == '"',
{
    reveal_strlit(r#"">
<main>
  <header>
    <span class="mark"></span>
    <div>
      <h1>EpochServices</h1>
      <p class="quiet">Lends this machine's models to an Epoch Host.</p>
    </div>
  </header>

  <nav class="tabs">
    <a href="/" class=""#);
    reveal_strlit(r#"">CONNECT</a>
    <a href="/services" class=""#);
    reveal_strlit("<a href=\"");
    reveal_strlit("\" class=\"");
    reveal_strlit("/");
    assert(FRAME_NAV_CONNECT@.subrange(
        FRAME_NAV_CONNECT@.len() - link_start(Tab::Connect).len(),
        FRAME_NAV_CONNECT@.len() as int,
    ) =~= link_start(Tab::Connect));
}

proof fn lemma_nav_services()
    ensures
        FRAME_NAV_SERVICES@.len() >= link_start(Tab::Services).len(),
        FRAME_NAV_SERVICES@.subrange(
            FRAME_NAV_SERVICES@.len() - link_start(Tab::Services).len(),
            FRAME_NAV_SERVICES@.len() as int,
        ) == link_start(Tab::Services),
        FRAME_NAV_WORKSHOP@.len() > 0,
        FRAME_NAV_WORKSHOP@[0] == '"',
{
    reveal_strlit(r#"">CONNECT</a>
    <a href="/services" class=""#);
    reveal_strlit(r#"">START SERVICES</a>
    <a href="/workshop" class=""#);
    reveal_strlit("<a href=\"");
    reveal_strlit("\" class=\"");
    reveal_strlit("/services");
    assert(FRAME_NAV_SERVICES@.subrange(
        FRAME_NAV_SERVICES@.len() - link_start(Tab::Services).len(),
        FRAME_NAV_SERVICES@.len() as int,
    ) =~= link_start(Tab::Services));
}

proof fn lemma_nav_workshop()
    ensures
        FRAME_NAV_WORKSHOP@.len() >= link_start(Tab::Workshop).len(),
        FRAME_NAV_WORKSHOP@.subrange(
            FRAME_NAV_WORKSHOP@.len() - link_start(Tab::Workshop).len(),
            FRAME_NAV_WORKSHOP@.len() as int,
        ) == link_start(Tab::Workshop),
        FRAME_NAV_MODELS@.len() > 0,
        FRAME_NAV_MODELS@[0] == '"',
{
    reveal_strlit(r#"">START SERVICES</a>
    <a href="/workshop" class=""#);
    reveal_strlit(r#"">MODELS WORKSHOP</a>
    <a href="/models" class=""#);
    reveal_strlit("<a href=\"");
    reveal_strlit("\" class=\"");
    reveal_strlit("/workshop");
    assert(FRAME_NAV_WORKSHOP@.subrange(
        FRAME_NAV_WORKSHOP@.len() - link_start(Tab::Workshop).len(),
        FRAME_NAV_WORKSHOP@.len() as int,
    ) =~= link_start(Tab::Workshop));
}

proof fn lemma_nav_models()
    ensures
        FRAME_NAV_MODELS@.len() >= link_start(Tab::Models).len(),
        FRAME_NAV_MODELS@.subrange(
            FRAME_NAV_MODELS@.len() - link_start(Tab::Models).len(),
            FRAME_NAV_MODELS@.len() as int,
        ) == link_start(Tab::Models),
        FRAME_NAV_CREATIONS@.len() > 0,
        FRAME_NAV_CREATIONS@[0] == '"',
{
    reveal_strlit(r#"">MODELS WORKSHOP</a>
    <a href="/models" class=""#);
    reveal_strlit(r#"">MODELS</a>
    <a href="/creations" class=""#);
    reveal_strlit("<a href=\"");
    reveal_strlit("\" class=\"");
    reveal_strlit("/models");
    assert(FRAME_NAV_MODELS@.subrange(
        FRAME_NAV_MODELS@.len() - link_start(Tab::Models).len(),
        FRAME_NAV_MODELS@.len() as int,
    ) =~= link_start(Tab::Models));
}

proof fn lemma_nav_creations()
    ensures
        FRAME_NAV_CREATIONS@.len() >= link_start(Tab::Creations).len(),
        FRAME_NAV_CREATIONS@.subrange(
            FRAME_NAV_CREATIONS@.len() - link_start(Tab::Creations).len(),
            FRAME_NAV_CREATIONS@.len() as int,
        ) == link_start(Tab::Creations),
        FRAME_NAV_SETTINGS@.len() > 0,
        FRAME_NAV_SETTINGS@[0] == '"',
{
    reveal_strlit(r#"">MODELS</a>
    <a href="/creations" class=""#);
    reveal_strlit(r#"">CREATIONS WORKSHOP</a>
    <a href="/settings" class=""#);
    reveal_strlit("<a href=\"");
    reveal_strlit("\" class=\"");
    reveal_strlit("/creations");
    assert(FRAME_NAV_CREATIONS@.subrange(
        FRAME_NAV_CREATIONS@.len() - link_start(Tab::Creations).len(),
        FRAME_NAV_CREATIONS@.len() as int,
    ) =~= link_start(Tab::Creations));
}

proof fn lemma_nav_settings()
    ensures
        FRAME_NAV_SETTINGS@.len() >= link_start(Tab::Settings).len(),
        FRAME_NAV_SETTINGS@.subrange(
            FRAME_NAV_SETTINGS@.len() - link_start(Tab::Settings).len(),
            FRAME_NAV_SETTINGS@.len() as int,
        ) == link_start(Tab::Settings),
        FRAME_NAV_END@.len() > 0,
        FRAME_NAV_END@[0] == '"',
{
    reveal_strlit(r#"">CREATIONS WORKSHOP</a>
    <a href="/settings" class=""#);
    reveal_strlit(r#"">SETTINGS</a>
  </nav>

"#);
    reveal_strlit("<a href=\"");
    reveal_strlit("\" class=\"");
    reveal_strlit("/settings");
    assert(FRAME_NAV_SETTINGS@.subrange(
        FRAME_NAV_SETTINGS@.len() - link_start(Tab::Settings).len(),
        FRAME_NAV_SETTINGS@.len() as int,
    ) =~= link_start(Tab::Settings));
}

proof fn lemma_frame_links_connect(tab: Tab, body: Seq<char>, every: Option<u32>)
    ensures
        holds_text(framed(tab, body, every), tab_link(Tab::Connect, tab)),
{
    lemma_nav_connect();
    let a = FRAME_OPENING@ + refresh_tag(every) + FRAME_TITLE@ + STYLE@ + FRAME_STYLE_END@ + tab_class(tab);
    let b = lit(tab, Tab::Services) + FRAME_NAV_WORKSHOP@ + lit(tab, Tab::Workshop) + FRAME_NAV_MODELS@ + lit(tab, Tab::Models) + FRAME_NAV_CREATIONS@ + lit(tab, Tab::Creations) + FRAME_NAV_SETTINGS@ + lit(tab, Tab::Settings) + FRAME_NAV_END@ + body + FRAME_FOOTER@ + VERSION@ + FRAME_CLOSING@;
    assert(framed(tab, body, every) =~= a + FRAME_NAV_CONNECT@ + lit(tab, Tab::Connect) + FRAME_NAV_SERVICES@ + b);
    lemma_link_stands(a, FRAME_NAV_CONNECT@, lit(tab, Tab::Connect), FRAME_NAV_SERVICES@, b, link_start(Tab::Connect));
    assert(tab_link(Tab::Connect, tab) =~= link_start(Tab::Connect) + lit(tab, Tab::Connect) + seq!['"']) by {
        reveal_strlit("\"");
    }
}

proof fn lemma_frame_links_services(tab: Tab, body: Seq<char>, every: Option<u32>)
    ensures
        holds_text(framed(tab, body, every), tab_link(Tab::Services, tab)),
{
    lemma_nav_services();
    let a = FRAME_OPENING@ + refresh_tag(every) + FRAME_TITLE@ + STYLE@ + FRAME_STYLE_END@ + tab_class(tab) + FRAME_NAV_CONNECT@ + lit(tab, Tab::Connect);
    let b = lit(tab, Tab::Workshop) + FRAME_NAV_MODELS@ + lit(tab, Tab::Models) + FRAME_NAV_CREATIONS@ + lit(tab, Tab::Creations) + FRAME_NAV_SETTINGS@ + lit(tab, Tab::Settings) + FRAME_NAV_END@ + body + FRAME_FOOTER@ + VERSION@ + FRAME_CLOSING@;
    assert(framed(tab, body, every) =~= a + FRAME_NAV_SERVICES@ + lit(tab, Tab::Services) + FRAME_NAV_WORKSHOP@ + b);
    lemma_link_stands(a, FRAME_NAV_SERVICES@, lit(tab, Tab::Services), FRAME_NAV_WORKSHOP@, b, link_start(Tab::Services));
    assert(tab_link(Tab::Services, tab) =~= link_start(Tab::Services) + lit(tab, Tab::Services) + seq!['"']) by {
        reveal_strlit("\"");
    }
}

proof fn lemma_frame_links_workshop(tab: Tab, body: Seq<char>, every: Option<u32>)
    ensures
        holds_text(framed(tab, body, every), tab_link(Tab::Workshop, tab)),
{
    lemma_nav_workshop();
    let a = FRAME_OPENING@ + refresh_tag(every) + FRAME_TITLE@ + STYLE@ + FRAME_STYLE_END@ + tab_class(tab) + FRAME_NAV_CONNECT@ + lit(tab, Tab::Connect) + FRAME_NAV_SERVICES@ + lit(tab, Tab::Services);
    let b = lit(tab, Tab::Models) + FRAME_NAV_CREATIONS@ + lit(tab, Tab::Creations) + FRAME_NAV_SETTINGS@ + lit(tab, Tab::Settings) + FRAME_NAV_END@ + body + FRAME_FOOTER@ + VERSION@ + FRAME_CLOSING@;
    assert(framed(tab, body, every) =~= a + FRAME_NAV_WORKSHOP@ + lit(tab, Tab::Workshop) + FRAME_NAV_MODELS@ + b);
    lemma_link_stands(a, FRAME_NAV_WORKSHOP@, lit(tab, Tab::Workshop), FRAME_NAV_MODELS@, b, link_start(Tab::Workshop));
    assert(tab_link(Tab::Workshop, tab) =~= link_start(Tab::Workshop) + lit(tab, Tab::Workshop) + seq!['"']) by {
        reveal_strlit("\"");
    }
}

proof fn lemma_frame_links_models(tab: Tab, body: Seq<char>, every: Option<u32>)
    ensures
        holds_text(framed(tab, body, every), tab_link(Tab::Models, tab)),
{
    lemma_nav_models();
    let a = FRAME_OPENING@ + refresh_tag(every) + FRAME_TITLE@ + STYLE@ + FRAME_STYLE_END@ + tab_class(tab) + FRAME_NAV_CONNECT@ + lit(tab, Tab::Connect) + FRAME_NAV_SERVICES@ + lit(tab, Tab::Services) + FRAME_NAV_WORKSHOP@ + lit(tab, Tab::Workshop);
    let b = lit(tab, Tab::Creations) + FRAME_NAV_SETTINGS@ + lit(tab, Tab::Settings) + FRAME_NAV_END@ + body + FRAME_FOOTER@ + VERSION@ + FRAME_CLOSING@;
    assert(framed(tab, body, every) =~= a + FRAME_NAV_MODELS@ + lit(tab, Tab::Models) + FRAME_NAV_CREATIONS@ + b);
    lemma_link_stands(a, FRAME_NAV_MODELS@, lit(tab, Tab::Models), FRAME_NAV_CREATIONS@, b, link_start(Tab::Models));
    assert(tab_link(Tab::Models, tab) =~= link_start(Tab::Models) + lit(tab, Tab::Models) + seq!['"']) by {
        reveal_strlit("\"");
    }
}

proof fn lemma_frame_links_creations(tab: Tab, body: Seq<char>, every: Option<u32>)
    ensures
        holds_text(framed(tab, body, every), tab_link(Tab::Creations, tab)),
{
    lemma_nav_creations();
    let a = FRAME_OPENING@ + refresh_tag(every) + FRAME_TITLE@ + STYLE@ + FRAME_STYLE_END@ + tab_class(tab) + FRAME_NAV_CONNECT@ + lit(tab, Tab::Connect) + FRAME_NAV_SERVICES@ + lit(tab, Tab::Services) + FRAME_NAV_WORKSHOP@ + lit(tab, Tab::Workshop) + FRAME_NAV_MODELS@ + lit(tab, Tab::Models);
    let b = lit(tab, Tab::Settings) + FRAME_NAV_END@ + body + FRAME_FOOTER@ + VERSION@ + FRAME_CLOSING@;
    assert(framed(tab, body, every) =~= a + FRAME_NAV_CREATIONS@ + lit(tab, Tab::Creations) + FRAME_NAV_SETTINGS@ + b);
    lemma_link_stands(a, FRAME_NAV_CREATIONS@, lit(tab, Tab::Creations), FRAME_NAV_SETTINGS@, b, link_start(Tab::Creations));
    assert(tab_link(Tab::Creations, tab) =~= link_start(Tab::Creations) + lit(tab, Tab::Creations) + seq!['"']) by {
        reveal_strlit("\"");
    }
}

proof fn lemma_frame_links_settings(tab: Tab, body: Seq<char>, every: Option<u32>)
    ensures
        holds_text(framed(tab, body, every), tab_link(Tab::Settings, tab)),
{
    lemma_nav_settings();
    let a = FRAME_OPENING@ + refresh_tag(every) + FRAME_TITLE@ + STYLE@ + FRAME_STYLE_END@ + tab_class(tab) + FRAME_NAV_CONNECT@ + lit(tab, Tab::Connect) + FRAME_NAV_SERVICES@ + lit(tab, Tab::Services) + FRAME_NAV_WORKSHOP@ + lit(tab, Tab::Workshop) + FRAME_NAV_MODELS@ + lit(tab, Tab::Models) + FRAME_NAV_CREATIONS@ + lit(tab, Tab::Creations);
    let b = body + FRAME_FOOTER@ + VERSION@ + FRAME_CLOSING@;
    assert(framed(tab, body, every) =~= a + FRAME_NAV_SETTINGS@ + lit(tab, Tab::Settings) + FRAME_NAV_END@ + b);
    lemma_link_stands(a, FRAME_NAV_SETTINGS@, lit(tab, Tab::Settings), FRAME_NAV_END@, b, link_start(Tab::Settings));
    assert(tab_link(Tab::Settings, tab) =~= link_start(Tab::Settings) + lit(tab, Tab::Settings) + seq!['"']) by {
        reveal_strlit("\"");
    }
}

proof fn lemma_frame_holds_body(tab: Tab, body: Seq<char>, every: Option<u32>)
    ensures
        holds_text(framed(tab, body, every), body),
{
    let tail = FRAME_FOOTER@ + VERSION@ + FRAME_CLOSING@;
    let head = FRAME_OPENING@ + refresh_tag(every) + FRAME_TITLE@ + STYLE@ + FRAME_STYLE_END@ + tab_class(tab) + FRAME_NAV_CONNECT@ + lit(tab, Tab::Connect) + FRAME_NAV_SERVICES@ + lit(tab, Tab::Services) + FRAME_NAV_WORKSHOP@ + lit(tab, Tab::Workshop) + FRAME_NAV_MODELS@ + lit(tab, Tab::Models) + FRAME_NAV_CREATIONS@ + lit(tab, Tab::Creations) + FRAME_NAV_SETTINGS@ + lit(tab, Tab::Settings) + FRAME_NAV_END@;
    assert(framed(tab, body, every) =~= head + body + tail);
    lemma_holds_between(head, body, tail);
}

#[verifier::spinoff_prover]
#[verifier::rlimit(40)]
proof fn lemma_frame_refreshes(tab: Tab, body: Seq<char>, every: Option<u32>)
    ensures
        every is Some ==> holds_text(framed(tab, body, every), refresh_tag(every)),
{
    if every is Some {
        let rest = FRAME_TITLE@ + STYLE@ + FRAME_STYLE_END@ + tab_class(tab) + FRAME_NAV_CONNECT@ + lit(tab, Tab::Connect) + FRAME_NAV_SERVICES@ + lit(tab, Tab::Services) + FRAME_NAV_WORKSHOP@ + lit(tab, Tab::Workshop) + FRAME_NAV_MODELS@ + lit(tab, Tab::Models) + FRAME_NAV_CREATIONS@ + lit(tab, Tab::Creations) + FRAME_NAV_SETTINGS@ + lit(tab, Tab::Settings) + FRAME_NAV_END@ + body + FRAME_FOOTER@ + VERSION@ + FRAME_CLOSING@;
        assert(framed(tab, body, every) =~= FRAME_OPENING@ + refresh_tag(every) + rest);
        lemma_holds_between(FRAME_OPENING@, refresh_tag(every), rest);
    }
}

proof fn lemma_own_link_lit(tab: Tab)
    ensures
        tab_link(tab, tab) == "<a href=\""@ + tab_path(tab) + "\" class=\"on\""@,
{
    reveal_strlit("\"");
    reveal_strlit("on");
    reveal_strlit("\" class=\"");
    reveal_strlit("\" class=\"on\"");
    assert("\" class=\""@ + "on"@ + "\""@ =~= "\" class=\"on\""@);
    assert(tab_link(tab, tab) =~= "<a href=\""@ + tab_path(tab) + "\" class=\"on\""@);
}

/// **Every page is the same frame around its own body.** Whatever tab is showing, the body is
/// on the page as it was given, every tab's link is there with only the showing tab's lit, and
/// a page asked to reload itself carries the tag that does it.
pub proof fn the_frame_holds_the_body_and_every_tab(tab: Tab, body: Seq<char>, every: Option<u32>)
    ensures
        holds_text(framed(tab, body, every), body),
        holds_text(framed(tab, body, every), tab_link(Tab::Connect, tab)),
        holds_text(framed(tab, body, every), tab_link(Tab::Services, tab)),
        holds_text(framed(tab, body, every), tab_link(Tab::Workshop, tab)),
        holds_text(framed(tab, body, every), tab_link(Tab::Models, tab)),
        holds_text(framed(tab, body, every), tab_link(Tab::Creations, tab)),
        holds_text(framed(tab, body, every), tab_link(Tab::Settings, tab)),
        tab_link(tab, tab) == "<a href=\""@ + tab_path(tab) + "\" class=\"on\""@,
        every is None ==> refresh_tag(every) == Seq::<char>::empty(),
        every matches Some(n) ==> holds_text(
            framed(tab, body, every),
            "<meta http-equiv=\"refresh\" content=\""@ + decimal(n as nat) + "\">"@,
        ),
{
    lemma_frame_holds_body(tab, body, every);
    lemma_frame_refreshes(tab, body, every);
    lemma_own_link_lit(tab);
    lemma_frame_links_connect(tab, body, every);
    lemma_frame_links_services(tab, body, every);
    lemma_frame_links_workshop(tab, body, every);
    lemma_frame_links_models(tab, body, every);
    lemma_frame_links_creations(tab, body, every);
    lemma_frame_links_settings(tab, body, every);
}

/// **Nothing escaped can open a tag.** No `<`, `>` or quote survives escaping, so a name from
/// outside this program can only ever be text on the page.
pub proof fn escaped_text_opens_nothing(s: Seq<char>)
    ensures
        forall|i: int| 0 <= i < escaped(s).len() ==> {
            let c = #[trigger] escaped(s)[i];
            c != '<' && c != '>' && c != '"' && c != '\''
        },
    decreases s.len(),
{
    if s.len() > 0 {
        escaped_text_opens_nothing(s.drop_last());
        reveal_strlit("&amp;");
        reveal_strlit("&lt;");
        reveal_strlit("&gt;");
        reveal_strlit("&quot;");
        reveal_strlit("&#39;");
        let c = s.last();
        let head = escaped(s.drop_last());
        let tail = escaped_char(c);
        assert forall|i: int| 0 <= i < escaped(s).len() implies {
            let d = #[trigger] escaped(s)[i];
            d != '<' && d != '>' && d != '"' && d != '\''
        } by {
            if i >= head.len() {
                assert(escaped(s)[i] == tail[i - head.len()]);
            } else {
                assert(escaped(s)[i] == head[i]);
            }
        }
    }
}


/// **Escaping goes character by character**: the escape of two texts one after the other is
/// the two escapes one after the other.
pub proof fn escaping_distributes(a: Seq<char>, b: Seq<char>)
    ensures
        escaped(a + b) == escaped(a) + escaped(b),
    decreases b.len(),
{
    if b.len() == 0 {
        assert(a + b =~= a);
        assert(escaped(a) + escaped(b) =~= escaped(a));
    } else {
        assert((a + b).drop_last() =~= a + b.drop_last());
        assert((a + b).last() == b.last());
        escaping_distributes(a, b.drop_last());
        assert(escaped(a) + escaped(b) =~= escaped(a) + escaped(b.drop_last()) + escaped_char(b.last()));
    }
}

/// Whether a character is one escaping writes as an entity.
pub open spec fn needs_entity(c: char) -> bool {
    c == '&' || c == '<' || c == '>' || c == '"' || c == '\''
}

/// **Plain text is left as it is.** Text with nothing that could open a tag, an attribute or
/// an entity is put on the page unchanged.
pub proof fn plain_text_is_unchanged(s: Seq<char>)
    requires
        forall|i: int| 0 <= i < s.len() ==> !needs_entity(#[trigger] s[i]),
    ensures
        escaped(s) == s,
    decreases s.len(),
{
    if s.len() > 0 {
        plain_text_is_unchanged(s.drop_last());
        assert(!needs_entity(s.last()));
        assert(s.drop_last() + seq![s.last()] =~= s);
    }
}

/// Text as a browser reads it back from what escaping wrote: each of the five entities escaping
/// writes is the character it stands for, read from the front.
pub open spec fn read_back(t: Seq<char>) -> Seq<char>
    decreases t.len(),
{
    if t.len() == 0 {
        Seq::empty()
    } else if t.len() >= 5 && t.take(5) == "&amp;"@ {
        seq!['&'] + read_back(t.skip(5))
    } else if t.len() >= 4 && t.take(4) == "&lt;"@ {
        seq!['<'] + read_back(t.skip(4))
    } else if t.len() >= 4 && t.take(4) == "&gt;"@ {
        seq!['>'] + read_back(t.skip(4))
    } else if t.len() >= 6 && t.take(6) == "&quot;"@ {
        seq!['"'] + read_back(t.skip(6))
    } else if t.len() >= 5 && t.take(5) == "&#39;"@ {
        seq!['\''] + read_back(t.skip(5))
    } else {
        seq![t[0]] + read_back(t.skip(1))
    }
}

proof fn lemma_read_back_one(c: char, r: Seq<char>)
    ensures
        read_back(escaped_char(c) + r) == seq![c] + read_back(r),
{
    reveal_strlit("&amp;");
    reveal_strlit("&lt;");
    reveal_strlit("&gt;");
    reveal_strlit("&quot;");
    reveal_strlit("&#39;");
    let t = escaped_char(c) + r;
    let e = escaped_char(c);
    let n = e.len();
    assert(t.take(n as int) =~= e);
    assert(t.skip(n as int) =~= r);
    assert(t[0] == e[0]);
    if t.len() >= 4 {
        assert(t.take(4)[0] == t[0] && t.take(4)[1] == t[1]);
    }
    if t.len() >= 5 {
        assert(t.take(5)[0] == t[0] && t.take(5)[1] == t[1]);
    }
    if t.len() >= 6 {
        assert(t.take(6)[0] == t[0] && t.take(6)[1] == t[1]);
    }
    if needs_entity(c) {
        assert(t[1] == e[1]);
    } else {
        assert(t[0] == c);
        assert(t.skip(1) =~= r);
    }
}

/// **What escaping writes reads back as the text it was given.** Nothing is lost and nothing
/// is added: a browser shows exactly the name that came from outside.
pub proof fn escaping_reads_back(s: Seq<char>)
    ensures
        read_back(escaped(s)) == s,
    decreases s.len(),
{
    if s.len() > 0 {
        let rest = s.drop_first();
        assert(seq![s[0]] + rest =~= s);
        escaping_distributes(seq![s[0]], rest);
        assert(seq![s[0]].drop_last() =~= Seq::<char>::empty());
        assert(seq![s[0]].last() == s[0]);
        assert(escaped(Seq::<char>::empty()) =~= Seq::<char>::empty());
        assert(escaped(seq![s[0]]) =~= escaped_char(s[0]));
        lemma_read_back_one(s[0], escaped(rest));
        escaping_reads_back(rest);
    }
}
} // verus!

verus! {

pub const CONNECT_TO_BODY: &'static str = r#"
  "#;

pub const CONNECT_TO_NAME: &'static str = r#"

  <section class="card">
    <span class="label">This machine</span>
    <p>"#;

pub const CONNECT_TO_ADDRESS: &'static str = r#"</p>
    <p class="quiet">"#;

pub const CONNECT_TO_HARDWARE: &'static str = r#"</p>
    <p class="quiet">"#;

pub const CONNECT_TO_MODELS: &'static str = r#"</p>
    <span class="label">Models here</span>
    <p class="quiet">"#;

pub const CONNECT_END: &'static str = r#"</p>
  </section>"#;

pub const WAITING_TO_CODE: &'static str = r#"<section class="card lit">
    <span class="label">Waiting for the Host</span>
    <p class="showing">"#;

pub const WAITING_TO_CLOCK: &'static str = r#"<b class="left">"#;

pub const WAITING_END: &'static str = r#"</b></p>
    <p class="quiet">
      In Epoch on the Host: <b>Machines</b>, then type this code and this machine's address,
      shown below. It is spent the moment it works.
    </p>
    <form method="post" action="/uninvite">
      <button type="submit" class="quietbtn">STOP SHOWING</button>
    </form>
  </section>"#;

pub const INVITE_FORM: &'static str = r#"<section class="card">
    <span class="label">Let the Host reach out</span>
    <p class="quiet">
      Show a code here and type it into Epoch, under <b>Machines</b>, with this machine's
      address below. It is spent the moment it works.
    </p>
    <form method="post" action="/invite">
      <button type="submit">SHOW A CODE</button>
    </form>
  </section>"#;

pub const PAIRED_TO_COUNT: &'static str = r#"<section class="card lit">
    <span class="label">Connected</span>
    <p>Lending "#;

pub const PAIRED_TO_WORD: &'static str = r#" "#;

pub const PAIRED_TO_HOST: &'static str = r#" to the Host at "#;

pub const PAIRED_END: &'static str = r#".</p>
    <p class="quiet">
      Turns arrive from that Host and are answered here. Nothing about its Worlds, its
      conversations or its decisions is kept on this machine.
    </p>
    <form method="post" action="/unpair">
      <button type="submit" class="quietbtn">DISCONNECT</button>
    </form>
  </section>"#;


/// What this machine has to lend, as far as the Connect tab reads it.
#[derive(Debug, Clone)]
pub struct Have {
    /// What the local runtime says it has.
    pub models: Vec<String>,
    pub gpu: Option<String>,
    pub vram_total: Option<u64>,
    pub ram_total: Option<u64>,
    /// One pool that the graphics and the system share.
    pub unified: bool,
}

impl Default for Have {
    /// A machine nothing could be read from: no models, no card, no memory figures.
    fn default() -> (r: Have)
        ensures
            r.models@.len() == 0,
            r.gpu is None,
            r.vram_total is None,
            r.ram_total is None,
            !r.unified,
    {
        Have { models: Vec::new(), gpu: None, vram_total: None, ram_total: None, unified: false }
    }
}

/// A size in whole gigabytes as `{:.0}` prints `bytes as f64 / 1e9`: the nearest whole number
/// to the float quotient, an exact tie going to the even one.
pub open spec fn whole_gigabytes(bytes: nat) -> nat {
    crate::workshop::float_gigabytes(bytes, 1)
}

/// A size in whole gigabytes, as this tab writes one.
pub open spec fn gigabytes_whole(bytes: nat) -> Seq<char> {
    decimal(whole_gigabytes(bytes)) + " GB"@
}

/// A size in whole gigabytes.
pub fn gb(bytes: u64) -> (r: String)
    ensures
        r@ == gigabytes_whole(bytes as nat),
{
    let whole = crate::workshop::float_gigabytes_of(bytes, 1);
    let mut out = decimal_of(whole);
    out.append(" GB");
    out
}

/// The words for the memory a card has: one pool on a unified machine, video memory otherwise.
pub open spec fn memory_words(unified: bool) -> Seq<char> {
    if unified {
        "unified memory"@
    } else {
        "video memory"@
    }
}

/// The pieces of the hardware line: the card and its memory, then the system memory unless a
/// unified machine has already said it.
pub open spec fn hardware_parts(have: Have) -> Seq<Seq<char>> {
    let card = match have.gpu {
        Some(gpu) => match have.vram_total {
            Some(total) => seq![gpu@ + " \u{b7} "@ + gigabytes_whole(total as nat) + " "@ + memory_words(have.unified)],
            None => seq![gpu@],
        },
        None => Seq::empty(),
    };
    let ram = match have.ram_total {
        Some(ram) => if !(have.unified && have.vram_total is Some) {
            seq![gigabytes_whole(ram as nat) + " memory"@]
        } else {
            Seq::empty()
        },
        None => Seq::empty(),
    };
    card + ram
}

/// What the hardware is, or honestly that it could not be asked.
pub open spec fn hardware_line(have: Have) -> Seq<char> {
    if hardware_parts(have).len() == 0 {
        "Hardware could not be read on this machine."@
    } else {
        joined_by(hardware_parts(have), " \u{b7} "@)
    }
}

/// What the hardware is, or honestly that it could not be asked.
pub fn hardware(have: &Have) -> (r: String)
    ensures
        r@ == hardware_line(*have),
{
    let mut parts: Vec<String> = Vec::new();
    match &have.gpu {
        Some(gpu) => match have.vram_total {
            Some(total) => {
                let mut one = gpu.clone();
                one.append(" \u{b7} ");
                one.append(gb(total).as_str());
                one.append(" ");
                one.append(if have.unified { "unified memory" } else { "video memory" });
                parts.push(one);
            },
            None => parts.push(gpu.clone()),
        },
        None => {},
    }
    match have.ram_total {
        Some(ram) => if !(have.unified && have.vram_total.is_some()) {
            let mut one = gb(ram);
            one.append(" memory");
            parts.push(one);
        },
        None => {},
    }
    assert(views(parts@) =~= hardware_parts(*have));
    if parts.len() == 0 {
        return String::from_str("Hardware could not be read on this machine.");
    }
    join(&parts, " \u{b7} ")
}

/// **A card is said to have the memory it has.** Where the card and its memory were read, the
/// hardware line starts with the card's name, its memory in whole gigabytes and the words
/// "unified memory" on a unified machine and "video memory" on any other. One pool is said once:
/// a unified machine's line ends there, and any other goes on to its system memory.
pub proof fn a_card_names_its_own_memory(have: Have)
    requires
        have.gpu is Some,
        have.vram_total is Some,
    ensures
        (have.gpu->0@ + " \u{b7} "@ + gigabytes_whole(have.vram_total->0 as nat) + " "@ + if have.unified {
            "unified memory"@
        } else {
            "video memory"@
        }).is_prefix_of(hardware_line(have)),
        have.unified ==> hardware_line(have) == have.gpu->0@ + " \u{b7} "@ + gigabytes_whole(
            have.vram_total->0 as nat,
        ) + " "@ + "unified memory"@,
        !have.unified && have.ram_total is Some ==> hardware_line(have) == have.gpu->0@ + " \u{b7} "@
            + gigabytes_whole(have.vram_total->0 as nat) + " "@ + "video memory"@ + " \u{b7} "@
            + gigabytes_whole(have.ram_total->0 as nat) + " memory"@,
        !have.unified && have.ram_total is None ==> hardware_line(have) == have.gpu->0@ + " \u{b7} "@
            + gigabytes_whole(have.vram_total->0 as nat) + " "@ + "video memory"@,
{
    let card = have.gpu->0@ + " \u{b7} "@ + gigabytes_whole(have.vram_total->0 as nat) + " "@ + if have.unified {
        "unified memory"@
    } else {
        "video memory"@
    };
    let parts = hardware_parts(have);
    assert(parts[0] == card);
    assert(1 <= parts.len() <= 2);
    if parts.len() == 1 {
        assert(hardware_line(have) == card);
    } else {
        assert(parts.drop_last().len() == 1);
        assert(joined_by(parts.drop_last(), " \u{b7} "@) == card);
        assert(hardware_line(have) == card + " \u{b7} "@ + parts.last());
    }
    assert(card =~= hardware_line(have).subrange(0, card.len() as int));
}

/// A notice at the top of a tab: what the last action said, escaped, or nothing.
pub open spec fn notice_of(said: Option<Seq<char>>) -> Seq<char> {
    match said {
        Some(text) => "<p class=\"notice\">"@ + escaped(text) + "</p>"@,
        None => Seq::empty(),
    }
}

/// A notice at the top of a tab.
pub fn notice(said: Option<&str>) -> (r: String)
    ensures
        r@ == notice_of(opt_view(said)),
{
    match said {
        Some(text) => {
            let mut out = String::from_str("<p class=\"notice\">");
            out.append(escape(text).as_str());
            out.append("</p>");
            out
        },
        None => String::new(),
    }
}

/// Seconds as two digits, as a clock shows them.
pub open spec fn two_digits(n: nat) -> Seq<char> {
    if n < 10 {
        seq!['0', digit(n)]
    } else {
        decimal(n)
    }
}

/// The code that is showing and how long it has left, as its text and seconds.
pub open spec fn showing_view(showing: Option<(&str, u64)>) -> Option<(Seq<char>, u64)> {
    match showing {
        Some((code, left)) => Some((code@, left)),
        None => None,
    }
}

/// Before anybody has paired: the code while one is showing, and it alone — a countdown reloads
/// every second and a form beside it could never be finished — or the one button that shows a
/// code.
pub open spec fn waiting_card(showing: Option<(Seq<char>, u64)>) -> Seq<char> {
    match showing {
        Some((code, left)) => WAITING_TO_CODE@ + escaped(code) + WAITING_TO_CLOCK@ + decimal(
            (left / 60) as nat,
        ) + ":"@ + two_digits((left % 60) as nat) + WAITING_END@,
        None => INVITE_FORM@,
    }
}

/// **The countdown reads as a clock.** While a code is showing, the card shows the whole
/// minutes left, a colon and the seconds as two digits, `0` first below ten.
pub proof fn the_countdown_reads_as_a_clock(code: Seq<char>, left: u64)
    ensures
        holds_text(
            waiting_card(Some((code, left))),
            decimal((left / 60) as nat) + seq![':', digit(((left % 60) / 10) as nat), digit(((left % 60) % 10) as nat)],
        ),
{
    let s = (left % 60) as nat;
    let clock = decimal((left / 60) as nat) + ":"@ + two_digits(s);
    reveal_strlit(":");
    if s >= 10 {
        reveal_with_fuel(decimal, 2);
        assert(s / 10 < 10);
        assert(two_digits(s) =~= seq![digit(s / 10), digit(s % 10)]);
    } else {
        assert(s / 10 == 0 && s % 10 == s);
        assert(two_digits(s) =~= seq![digit(s / 10), digit(s % 10)]);
    }
    assert(clock =~= decimal((left / 60) as nat) + seq![':', digit(((left % 60) / 10) as nat), digit(((left % 60) % 10) as nat)]);
    let before = WAITING_TO_CODE@ + escaped(code) + WAITING_TO_CLOCK@;
    let card = waiting_card(Some((code, left)));
    assert(card =~= before + clock + WAITING_END@);
    assert((before + clock + WAITING_END@).subrange(before.len() as int, (before.len() + clock.len()) as int) =~= clock);
    assert(stands_at(card, clock, before.len() as int));
}

/// **One model, several models.** The count of models lent is followed by "model" for one and
/// "models" for any other number, none included.
pub proof fn one_model_several_models(bond: Bond, have: Have)
    ensures
        holds_text(
            paired_card(bond, have),
            decimal(have.models@.len()) + PAIRED_TO_WORD@ + if have.models@.len() == 1 {
                "model"@
            } else {
                "models"@
            },
        ),
{
    let word = if have.models@.len() == 1 {
        "model"@
    } else {
        "models"@
    };
    let part = decimal(have.models@.len()) + PAIRED_TO_WORD@ + word;
    let card = paired_card(bond, have);
    let after = PAIRED_TO_HOST@ + escaped(bond.host@) + PAIRED_END@;
    assert(card =~= PAIRED_TO_COUNT@ + part + after);
    assert((PAIRED_TO_COUNT@ + part + after).subrange(PAIRED_TO_COUNT@.len() as int, (PAIRED_TO_COUNT@.len() + part.len()) as int) =~= part);
    assert(stands_at(card, part, PAIRED_TO_COUNT@.len() as int));
}

/// Before anybody has paired: one way round, and while a code is up, only the code.
pub fn waiting(showing: Option<(&str, u64)>) -> (r: String)
    ensures
        r@ == waiting_card(showing_view(showing)),
{
    match showing {
        Some((code, left)) => {
            let mut out = String::from_str(WAITING_TO_CODE);
            out.append(escape(code).as_str());
            out.append(WAITING_TO_CLOCK);
            out.append(decimal_of(left / 60).as_str());
            out.append(":");
            let seconds = left % 60;
            if seconds < 10 {
                push_char(&mut out, '0');
                push_char(&mut out, digit_char(seconds));
            } else {
                out.append(decimal_of(seconds).as_str());
            }
            out.append(WAITING_END);
            out
        },
        None => String::from_str(INVITE_FORM),
    }
}

/// After pairing: what it is lending, and how to stop.
pub open spec fn paired_card(bond: Bond, have: Have) -> Seq<char> {
    PAIRED_TO_COUNT@ + decimal(have.models@.len()) + PAIRED_TO_WORD@ + (if have.models@.len() == 1 {
        "model"@
    } else {
        "models"@
    }) + PAIRED_TO_HOST@ + escaped(bond.host@) + PAIRED_END@
}

/// After pairing: what it is lending, and how to stop.
pub fn paired(bond: &Bond, have: &Have) -> (r: String)
    ensures
        r@ == paired_card(*bond, *have),
{
    let mut out = String::from_str(PAIRED_TO_COUNT);
    out.append(decimal_of(have.models.len() as u64).as_str());
    out.append(PAIRED_TO_WORD);
    out.append(if have.models.len() == 1 { "model" } else { "models" });
    out.append(PAIRED_TO_HOST);
    out.append(escape(bond.host.as_str()).as_str());
    out.append(PAIRED_END);
    out
}

/// The models line: what is here, or how to get something.
pub open spec fn models_line(have: Have) -> Seq<char> {
    if have.models@.len() == 0 {
        "None. Weigh one in the Workshop and pull it from there."@
    } else {
        escaped(joined_by(views(have.models@), " \u{b7} "@))
    }
}

/// The Connect tab's body.
pub open spec fn connect_body(
    bond: Bond,
    have: Have,
    name: Seq<char>,
    address: Seq<char>,
    said: Option<Seq<char>>,
    showing: Option<(Seq<char>, u64)>,
) -> Seq<char> {
    notice_of(said) + CONNECT_TO_BODY@ + (if bond.paired_spec() {
        paired_card(bond, have)
    } else {
        waiting_card(showing)
    }) + CONNECT_TO_NAME@ + escaped(name) + CONNECT_TO_ADDRESS@ + escaped(address)
        + CONNECT_TO_HARDWARE@ + escaped(hardware_line(have)) + CONNECT_TO_MODELS@ + models_line(
        have,
    ) + CONNECT_END@
}

/// The Connect tab, wrapped in the window.
///
/// `name` is what this machine calls itself and `address` where the Host will find it;
/// `showing` is the code on screen and the seconds it has left. The page reloads every second
/// while a code is counting down, and never otherwise.
pub fn render(
    bond: &Bond,
    have: &Have,
    name: &str,
    address: &str,
    said: Option<&str>,
    showing: Option<(&str, u64)>,
) -> (r: String)
    ensures
        r@ == framed(
            Tab::Connect,
            connect_body(*bond, *have, name@, address@, opt_view(said), showing_view(showing)),
            if showing is Some { Some(1u32) } else { None },
        ),
{
    let mut body = notice(said);
    body.append(CONNECT_TO_BODY);
    if bond.paired() {
        body.append(paired(bond, have).as_str());
    } else {
        body.append(waiting(showing).as_str());
    }
    body.append(CONNECT_TO_NAME);
    body.append(escape(name).as_str());
    body.append(CONNECT_TO_ADDRESS);
    body.append(escape(address).as_str());
    body.append(CONNECT_TO_HARDWARE);
    body.append(escape(hardware(have).as_str()).as_str());
    body.append(CONNECT_TO_MODELS);
    if have.models.len() == 0 {
        body.append("None. Weigh one in the Workshop and pull it from there.");
    } else {
        let all = join(&have.models, " \u{b7} ");
        body.append(escape(all.as_str()).as_str());
    }
    body.append(CONNECT_END);
    let every = match showing {
        Some(_) => Some(1u32),
        None => None,
    };
    frame(Tab::Connect, body.as_str(), every)
}

} // verus!

verus! {

pub const SHELF_TO_ID: &'static str = r#"<form method="post" action="/shelf">
      <input type="hidden" name="runtime" value=""#;

pub const SHELF_TO_LABEL: &'static str = r#"">
      <button type="submit">"#;

pub const SHELF_TO_WHY: &'static str = r#"</button>
    </form>
    <p class="quiet">"#;

pub const SHELF_END: &'static str = r#"</p>"#;

pub const START_TO_ID: &'static str = r#"<form method="post" action="/start">
      <input type="hidden" name="runtime" value=""#;

pub const START_TO_NAME: &'static str = r#"">
      <button type="submit">START "#;

pub const START_TO_COMMAND: &'static str = r#"</button>
    </form>
    <p class="quiet">"#;

pub const START_END: &'static str = r#"</p>"#;

pub const INSTALL_TO_ID: &'static str = r#"<form method="post" action="/install">
      <input type="hidden" name="runtime" value=""#;

pub const INSTALL_TO_NAME: &'static str = r#"">
      <button type="submit">INSTALL "#;

pub const INSTALL_END: &'static str = r#"</button>
    </form>"#;

pub const OPEN_TO_ID: &'static str = r#"<form method="post" action="/studio-start">
      <input type="hidden" name="studio" value=""#;

pub const OPEN_TO_NAME: &'static str = r#"">
      <button type="submit">OPEN "#;

pub const OPEN_TO_COMMAND: &'static str = r#"</button>
    </form>
    <p class="quiet">"#;

pub const OPEN_TO_FIRST_RUN: &'static str = r#"</p>
    <p class="quiet">"#;

pub const OPEN_END: &'static str = r#"</p>"#;

pub const STOP_TO_ID: &'static str = r#"<form method="post" action="/studio-stop">
      <input type="hidden" name="studio" value=""#;

pub const STOP_TO_NAME: &'static str = r#"">
      <button type="submit" class="danger">STOP "#;

pub const STOP_END: &'static str = r#"</button>
    </form>
    <p class="quiet">
      Measured on this kind of machine: an idle ComfyUI holds about 2.6 GB of system memory and
      <code>POST /free</code> returns none of it — what stays is the interpreter, torch's CUDA
      context and the node modules, and none of that goes while the process lives.
    </p>"#;

pub const STUDIO_INSTALL_TO_ID: &'static str = r#"<form method="post" action="/studio-install">
      <input type="hidden" name="studio" value=""#;

pub const STUDIO_INSTALL_TO_NAME: &'static str = r#"">
      <button type="submit">INSTALL "#;

pub const STUDIO_INSTALL_END: &'static str = r#"</button>
    </form>"#;

pub const EASEL_TO_TONE: &'static str = r#"<p class="verdict">
      <b class="runs runs--"#;

pub const EASEL_TO_WORD: &'static str = r#"">"#;

pub const EASEL_TO_NAME: &'static str = r#"</b>
      "#;

pub const EASEL_TO_DETAIL: &'static str = r#"
    </p>
    <p class="quiet">"#;

pub const EASEL_END: &'static str = r#"</p>"#;

pub const SETTINGS_TO_NOTICE: &'static str = r#"  "#;

pub const SETTINGS_TO_TONE: &'static str = r#"
  <section class="card">
    <span class="label">Hugging Face CLI</span>
    <p class="verdict">
      <b class="runs runs--"#;

pub const SETTINGS_TO_WORD: &'static str = r#"">"#;

pub const SETTINGS_TO_VERSION: &'static str = r#"</b>
      "#;

pub const SETTINGS_TO_SAID: &'static str = r#"
    </p>
    <p class="quiet">"#;

pub const SETTINGS_TO_FOUND: &'static str = r#"</p>
    "#;

pub const SETTINGS_TO_KEYS: &'static str = r#"
  </section>

  <section class="card">
    <span class="label">Catalogue keys</span>
    <p class="quiet">
      Some sites hand a file over only to an account. Searching never needs one, so the shelf
      works before you sign in anywhere.
    </p>
    <p class="quiet">
      Kept by this operating system's own store &#8212; DPAPI on Windows, the Keychain on macOS,
      the Secret Service on Linux. Never in a file this program writes, and never shown back.
    </p>
    "#;

pub const SETTINGS_TO_MODELS_DIR: &'static str = r#"
  </section>

  <section class="card">
    <span class="label">Where a saved model goes</span>
    <p class="quiet">"#;

pub const SETTINGS_END: &'static str = r#"</p>
    <p class="quiet">
      SAVE THE FILE in the Workshop writes here. The path is chosen by this program and never
      by a request &#8212; a remote naming it would be a remote choosing where this machine
      writes.
    </p>
  </section>

  <section class="card">
    <span class="label">What this tab is not</span>
    <p class="quiet">
      Ollama needs none of this. It fetches its own models and files them where it will find
      them, and that is what is lent to the paired Host. The Hugging Face CLI is the other
      destination: a GGUF on disk, for llama.cpp or LM Studio, which have no endpoint that can
      be told to fetch one.
    </p>
  </section>"#;

pub const KEY_TO_ID: &'static str = r#"<form method="post" action="/settings/key" class="row">
      <input type="hidden" name="source" value=""#;

pub const KEY_TO_NAME: &'static str = r#"">
      <span>"#;

pub const KEY_TO_FIELD: &'static str = r#"</span>
      "#;

pub const KEY_TO_CAUTION: &'static str = r#"
    </form>
    <p class="quiet">"#;

pub const KEY_END: &'static str = r#"</p>"#;

pub const KEY_STORED: &'static str = r#"<span class="quiet">a key is stored</span>
      <button type="submit" name="forget" value="yes">FORGET</button>"#;

pub const KEY_FIELD: &'static str = r#"<input type="password" name="value" placeholder="paste your key" autocomplete="off">
      <button type="submit">KEEP IT</button>"#;

pub const BUILD_TO_NAME: &'static str = r#"<p class="quiet">this build is "#;

pub const BUILD_END: &'static str = r#"</p>"#;

pub const GRAPHICS_TO_NAMES: &'static str = r#"<p class="quiet">graphics installed here: "#;

pub const GRAPHICS_END: &'static str = r#" &mdash; chosen on the machine itself</p>"#;

pub const ROW_TO_TONE: &'static str = r#"<p class="verdict">
  <b class="runs runs--"#;

pub const ROW_TO_WORD: &'static str = r#"">"#;

pub const ROW_TO_NAME: &'static str = r#"</b>
  "#;

pub const ROW_TO_DETAIL: &'static str = r#"
</p>
<p class="quiet">"#;

pub const ROW_END: &'static str = r#"</p>"#;

pub const SERVICES_TO_NOTICE: &'static str = r#"  "#;

pub const SERVICES_TO_RUNTIMES: &'static str = r#"
  <section class="card">
    <span class="label">Services on this machine</span>
    "#;

pub const SERVICES_TO_EASELS: &'static str = r#"
  </section>

  <section class="card">
    <span class="label">What the Host can use</span>
    <p class="quiet">
      All three speak an API Epoch already speaks, so none of them needs anything added to it
      &#8212; only to be running. A turn arriving from the Host names which one should answer
      it, and this program resolves that to one of its own loopback ports. It never carries an
      address.
    </p>
    <p class="quiet">
      llama.cpp and LM Studio take a GGUF from disk; Ollama fetches its own and keeps it under a
      name with no extension, which is why neither of the other two could see it. The button
      beside each of them puts every model this machine has &#8212; Ollama's included, and
      whatever SAVE THE FILE saved &#8212; where that runtime looks, linked rather than copied,
      so nothing is downloaded twice and Ollama keeps its own.
    </p>
  </section>

  <section class="card">
    <span class="label">Making pictures on this machine</span>
    "#;

pub const SERVICES_END: &'static str = r#"
    <p class="quiet">
      A World asks for a picture by naming a style &#8212; <em>pixel art</em>, <em>realistic</em>
      &#8212; and never a workflow or a file. This is the program that answers. It is not a
      Brain and never appears as one: a character does not think in pictures, it asks for one.
    </p>
  </section>"#;


/// The caution beside every key field.
pub const CAUTION: &'static str = "A key like this is an account token, not a download-scoped one.                            EpochServices uses it only to fetch a file. Treat it like a password.";

/// One program on this machine that can run a model, as surveyed.
pub struct Available {
    pub id: String,
    pub name: String,
    pub installed: bool,
    pub found_at: Option<String>,
    pub serving: bool,
    pub endpoint: String,
    /// What its server offers: a shelf.
    pub models: Vec<String>,
    /// What is actually on the card.
    pub resident: Vec<String>,
    /// What it says it will run a model on, in its own words.
    pub devices: Vec<String>,
    /// What that costs, where a native path can be named.
    pub handicap: Option<String>,
    /// The command that installs it.
    pub install: String,
    /// The command that starts its server, where it is here.
    pub start: Option<String>,
}

/// One graphics backend installed for a runtime.
pub struct Engine {
    pub name: String,
    pub chosen: bool,
}

/// Which graphics backends a runtime has here, as read from what is installed.
pub enum Engines {
    /// Nobody could read it — never "only the processor".
    Unknown,
    /// A build with one backend.
    Fixed(String),
    /// Several installed, one chosen on the machine itself.
    Choice(Vec<Engine>),
}

/// One image studio, as surveyed.
pub struct Easel {
    pub id: String,
    pub name: String,
    pub installed: bool,
    pub found_at: Option<String>,
    pub serving: bool,
    pub endpoint: String,
    /// The checkpoints it reports.
    pub models: Vec<String>,
    pub install: String,
    pub start: Option<String>,
    /// What its first start asks of the person.
    pub first_run: String,
}

/// A program's state in one word and its colour: serving, installed and quiet, or absent.
pub open spec fn state_of(installed: bool, serving: bool) -> (Seq<char>, Seq<char>) {
    if serving {
        ("SERVING"@, "yes"@)
    } else if installed {
        ("INSTALLED &#183; NOT SERVING"@, "unknown"@)
    } else {
        ("NOT INSTALLED"@, "no"@)
    }
}

/// **A program that answers is serving, whatever else was read.** One that does not answer is
/// installed and quiet where it was found, and absent where it was not.
pub proof fn serving_is_what_answers(installed: bool)
    ensures
        state_of(installed, true) == ("SERVING"@, "yes"@),
        state_of(true, false) == ("INSTALLED &#183; NOT SERVING"@, "unknown"@),
        state_of(false, false) == ("NOT INSTALLED"@, "no"@),
{
}

fn state(installed: bool, serving: bool) -> (r: (&'static str, &'static str))
    ensures
        (r.0@, r.1@) == state_of(installed, serving),
{
    if serving {
        ("SERVING", "yes")
    } else if installed {
        ("INSTALLED &#183; NOT SERVING", "unknown")
    } else {
        ("NOT INSTALLED", "no")
    }
}

/// The one press that puts every model this machine has where a runtime looks: llama.cpp
/// serves them, LM Studio is lent them. Nothing for Ollama, which imports rather than reads a
/// folder, and nothing for a program that is not here.
pub open spec fn shelf_button_html(one: Available) -> Seq<char> {
    let said: Option<(Seq<char>, Seq<char>)> = if one.id@ == "llama_cpp"@ {
        Some(
            (
                "START WITH EVERYTHING"@,
                "Serves every model this machine has, loading one when a turn asks for it."@,
            ),
        )
    } else if one.id@ == "lm_studio"@ {
        Some(
            (
                "LEND IT EVERYTHING"@,
                "Puts every model this machine has on LM Studio's shelf, linked rather than copied."@,
            ),
        )
    } else {
        None
    };
    match said {
        Some((label, why)) => if one.installed {
            SHELF_TO_ID@ + escaped(one.id@) + SHELF_TO_LABEL@ + label + SHELF_TO_WHY@ + why + SHELF_END@
        } else {
            Seq::empty()
        },
        None => Seq::empty(),
    }
}

/// The stocking button.
pub fn shelf_button(one: &Available) -> (r: String)
    ensures
        r@ == shelf_button_html(*one),
{
    let (label, why) = if crate::text::same(one.id.as_str(), "llama_cpp") {
        ("START WITH EVERYTHING", "Serves every model this machine has, loading one when a turn asks for it.")
    } else if crate::text::same(one.id.as_str(), "lm_studio") {
        (
            "LEND IT EVERYTHING",
            "Puts every model this machine has on LM Studio's shelf, linked rather than copied.",
        )
    } else {
        return String::new();
    };
    if !one.installed {
        return String::new();
    }
    let mut out = String::from_str(SHELF_TO_ID);
    out.append(escape(one.id.as_str()).as_str());
    out.append(SHELF_TO_LABEL);
    out.append(label);
    out.append(SHELF_TO_WHY);
    out.append(why);
    out.append(SHELF_END);
    out
}

/// START, when the program is here and its server is not answering; the exact command is shown,
/// and nothing beside something already serving.
pub open spec fn start_button_html(one: Available) -> Seq<char> {
    if one.serving {
        Seq::empty()
    } else {
        match one.start {
            None => Seq::empty(),
            Some(command) => START_TO_ID@ + escaped(one.id@) + START_TO_NAME@ + escaped(one.name@)
                + START_TO_COMMAND@ + escaped(command@) + START_END@,
        }
    }
}

/// The start button.
pub fn start_button(one: &Available) -> (r: String)
    ensures
        r@ == start_button_html(*one),
{
    if one.serving {
        return String::new();
    }
    match &one.start {
        None => String::new(),
        Some(command) => {
            let mut out = String::from_str(START_TO_ID);
            out.append(escape(one.id.as_str()).as_str());
            out.append(START_TO_NAME);
            out.append(escape(one.name.as_str()).as_str());
            out.append(START_TO_COMMAND);
            out.append(escape(command.as_str()).as_str());
            out.append(START_END);
            out
        },
    }
}

/// INSTALL, when there is something to install.
pub open spec fn install_button_html(one: Available) -> Seq<char> {
    if one.installed {
        Seq::empty()
    } else {
        INSTALL_TO_ID@ + escaped(one.id@) + INSTALL_TO_NAME@ + escaped(one.name@) + INSTALL_END@
    }
}

/// The install button.
pub fn install_button(one: &Available) -> (r: String)
    ensures
        r@ == install_button_html(*one),
{
    if one.installed {
        return String::new();
    }
    let mut out = String::from_str(INSTALL_TO_ID);
    out.append(escape(one.id.as_str()).as_str());
    out.append(INSTALL_TO_NAME);
    out.append(escape(one.name.as_str()).as_str());
    out.append(INSTALL_END);
    out
}

/// Parts that are already escaped, joined with the separator this page uses. **Escaped, then
/// joined**: escaping after joining would put `&amp;middot;` on the page.
pub open spec fn escaped_all(parts: Seq<String>) -> Seq<Seq<char>> {
    parts.map_values(|p: String| escaped(p@))
}

/// Parts that are already escaped, joined with the separator this page uses.
fn joined(parts: &Vec<String>) -> (r: String)
    ensures
        r@ == joined_by(views(parts@), " &middot; "@),
{
    join(parts, " &middot; ")
}

fn escape_all(parts: &Vec<String>) -> (r: Vec<String>)
    ensures
        views(r@) == escaped_all(parts@),
{
    let mut out: Vec<String> = Vec::new();
    let mut i: usize = 0;
    while i < parts.len()
        invariant
            0 <= i <= parts@.len(),
            views(out@) == escaped_all(parts@.take(i as int)),
        decreases parts@.len() - i,
    {
        let ghost before = out@;
        out.push(escape(parts[i].as_str()));
        assert(views(out@) =~= views(before).push(escaped(parts@[i as int]@)));
        i = i + 1;
        assert(escaped_all(parts@.take(i as int)) =~= escaped_all(parts@.take(i - 1)).push(
            escaped(parts@[i - 1]@),
        ));
    }
    assert(parts@.take(parts@.len() as int) =~= parts@);
    out
}

/// What a runtime says it will run a model on, and what that costs: both said where there is
/// something to say, and nothing invented where there is not.
pub open spec fn devices_html(one: Available) -> Seq<char> {
    (if one.devices@.len() == 0 {
        Seq::empty()
    } else {
        "<p class=\"quiet\">"@ + joined_by(escaped_all(one.devices@), " &middot; "@) + "</p>"@
    }) + match one.handicap {
        Some(h) => "<p class=\"notice\">"@ + escaped(h@) + "</p>"@,
        None => Seq::empty(),
    }
}

/// What a runtime says it will run a model on.
pub fn measured_devices(one: &Available) -> (r: String)
    ensures
        r@ == devices_html(*one),
{
    let mut out = String::new();
    if one.devices.len() > 0 {
        out.append("<p class=\"quiet\">");
        let parts = escape_all(&one.devices);
        out.append(joined(&parts).as_str());
        out.append("</p>");
    }
    match &one.handicap {
        Some(h) => {
            out.append("<p class=\"notice\">");
            out.append(escape(h.as_str()).as_str());
            out.append("</p>");
        },
        None => {},
    }
    out
}

/// An engine's name, marked where it is the one in use.
pub open spec fn engine_words(e: Engine) -> Seq<char> {
    if e.chosen {
        e.name@ + " (in use)"@
    } else {
        e.name@
    }
}

/// Each engine's name, marked and escaped.
pub open spec fn engines_words(es: Seq<Engine>) -> Seq<Seq<char>> {
    es.map_values(|e: Engine| escaped(engine_words(e)))
}

/// Which graphics backends a runtime has here. `Unknown` says nothing — it is a reading nobody
/// could take, never "only the processor".
pub open spec fn graphics_html(found: Engines) -> Seq<char> {
    match found {
        Engines::Unknown => Seq::empty(),
        Engines::Fixed(named) => BUILD_TO_NAME@ + escaped(named@) + BUILD_END@,
        Engines::Choice(all) => GRAPHICS_TO_NAMES@ + joined_by(engines_words(all@), " &middot; "@)
            + GRAPHICS_END@,
    }
}

/// Which graphics backends a runtime has here.
pub fn which_graphics(found: &Engines) -> (r: String)
    ensures
        r@ == graphics_html(*found),
{
    match found {
        Engines::Unknown => String::new(),
        Engines::Fixed(named) => {
            let mut out = String::from_str(BUILD_TO_NAME);
            out.append(escape(named.as_str()).as_str());
            out.append(BUILD_END);
            out
        },
        Engines::Choice(all) => {
            let mut names: Vec<String> = Vec::new();
            let mut i: usize = 0;
            while i < all.len()
                invariant
                    0 <= i <= all@.len(),
                    views(names@) == engines_words(all@.take(i as int)),
                decreases all@.len() - i,
            {
                let e = &all[i];
                let mut words = e.name.clone();
                if e.chosen {
                    words.append(" (in use)");
                }
                let ghost before = names@;
                names.push(escape(words.as_str()));
                assert(views(names@) =~= views(before).push(escaped(engine_words(all@[i as int]))));
                i = i + 1;
                assert(engines_words(all@.take(i as int)) =~= engines_words(all@.take(i - 1)).push(
                    escaped(engine_words(all@[i - 1])),
                ));
            }
            assert(all@.take(all@.len() as int) =~= all@);
            let mut out = String::from_str(GRAPHICS_TO_NAMES);
            out.append(joined(&names).as_str());
            out.append(GRAPHICS_END);
            out
        },
    }
}

/// A list said in words, or what its emptiness means.
pub open spec fn listed_or(items: Seq<String>, none: Seq<char>) -> Seq<char> {
    if items.len() == 0 {
        none
    } else {
        joined_by(views(items), ", "@)
    }
}

fn list_or(items: &Vec<String>, none: &str) -> (r: String)
    ensures
        r@ == listed_or(items@, none@),
{
    if items.len() == 0 {
        none.to_string()
    } else {
        join(items, ", ")
    }
}

/// What one runtime's row says: **two readings, because they are two facts** — what its server
/// offers and what is actually in memory, both said out loud even when empty.
pub open spec fn runtime_detail(one: Available) -> Seq<char> {
    if one.serving {
        "Answering at "@ + one.endpoint@
            + ". The Host can use it as an OpenAI-compatible Service.                          Offers "@
            + listed_or(one.models@, "nothing on its shelf"@) + ". In memory: "@ + listed_or(
            one.resident@,
            "nothing"@,
        ) + "."@
    } else if one.installed {
        "Found at "@ + match one.found_at {
            Some(at) => at@,
            None => "this machine"@,
        } + ". Start its server and it becomes usable."@
    } else {
        "Install it with: "@ + one.install@
    }
}

fn detail_of(one: &Available) -> (r: String)
    ensures
        r@ == runtime_detail(*one),
{
    if one.serving {
        let mut out = String::from_str("Answering at ");
        out.append(one.endpoint.as_str());
        out.append(
            ". The Host can use it as an OpenAI-compatible Service.                          Offers ",
        );
        out.append(list_or(&one.models, "nothing on its shelf").as_str());
        out.append(". In memory: ");
        out.append(list_or(&one.resident, "nothing").as_str());
        out.append(".");
        out
    } else if one.installed {
        let mut out = String::from_str("Found at ");
        match &one.found_at {
            Some(at) => out.append(at.as_str()),
            None => out.append("this machine"),
        }
        out.append(". Start its server and it becomes usable.");
        out
    } else {
        let mut out = String::from_str("Install it with: ");
        out.append(one.install.as_str());
        out
    }
}

/// One runtime, as the Services page draws it: its state, the two readings, what it runs on,
/// and the one thing it needs next.
pub open spec fn services_row_html(one: Available, graphics: Engines) -> Seq<char> {
    let (word, tone) = state_of(one.installed, one.serving);
    ROW_TO_TONE@ + tone + ROW_TO_WORD@ + word + ROW_TO_NAME@ + escaped(one.name@) + ROW_TO_DETAIL@
        + escaped(runtime_detail(one)) + ROW_END@ + devices_html(one) + graphics_html(graphics)
        + shelf_button_html(one) + start_button_html(one) + install_button_html(one)
}

/// One runtime, as the Services page draws it.
pub fn services_row(one: &Available, graphics: &Engines) -> (r: String)
    ensures
        r@ == services_row_html(*one, *graphics),
{
    let (word, tone) = state(one.installed, one.serving);
    let mut out = String::from_str(ROW_TO_TONE);
    out.append(tone);
    out.append(ROW_TO_WORD);
    out.append(word);
    out.append(ROW_TO_NAME);
    out.append(escape(one.name.as_str()).as_str());
    out.append(ROW_TO_DETAIL);
    out.append(escape(detail_of(one).as_str()).as_str());
    out.append(ROW_END);
    out.append(measured_devices(one).as_str());
    out.append(which_graphics(graphics).as_str());
    out.append(shelf_button(one).as_str());
    out.append(start_button(one).as_str());
    out.append(install_button(one).as_str());
    out
}


/// What one studio's row says in its sentence: answering and what it holds, found and quiet, or
/// the command that installs it. A studio answering with no checkpoint is said plainly: it runs
/// and cannot yet make a picture.
pub open spec fn easel_detail(one: Easel) -> Seq<char> {
    if one.serving {
        "Answering at "@ + one.endpoint@ + ". "@ + if one.models@.len() == 0 {
            "It reports no checkpoint, so it is running and cannot yet make a picture."@
        } else {
            "Holding "@ + joined_by(views(one.models@), ", "@) + "."@
        }
    } else if one.installed {
        "Found at "@ + match one.found_at {
            Some(at) => at@,
            None => "this machine"@,
        } + ". Its server starts when you open an instance, not when the application opens."@
    } else {
        "Install it with: "@ + one.install@
    }
}

fn easel_detail_of(one: &Easel) -> (r: String)
    ensures
        r@ == easel_detail(*one),
{
    if one.serving {
        let mut out = String::from_str("Answering at ");
        out.append(one.endpoint.as_str());
        out.append(". ");
        if one.models.len() == 0 {
            out.append("It reports no checkpoint, so it is running and cannot yet make a picture.");
        } else {
            out.append("Holding ");
            out.append(join(&one.models, ", ").as_str());
            out.append(".");
        }
        out
    } else if one.installed {
        let mut out = String::from_str("Found at ");
        match &one.found_at {
            Some(at) => out.append(at.as_str()),
            None => out.append("this machine"),
        }
        out.append(". Its server starts when you open an instance, not when the application opens.");
        out
    } else {
        let mut out = String::from_str("Install it with: ");
        out.append(one.install.as_str());
        out
    }
}

/// OPEN, when the studio is here, quiet, and has a command that starts it; STOP while it answers
/// (only what this program started is ever served, so STOP never offers to end a stranger's
/// process); nothing otherwise.
pub open spec fn easel_start_html(one: Easel) -> Seq<char> {
    if one.serving {
        STOP_TO_ID@ + escaped(one.id@) + STOP_TO_NAME@ + escaped(one.name@) + STOP_END@
    } else {
        match one.start {
            Some(command) => OPEN_TO_ID@ + escaped(one.id@) + OPEN_TO_NAME@ + escaped(one.name@)
                + OPEN_TO_COMMAND@ + escaped(command@) + OPEN_TO_FIRST_RUN@ + escaped(
                one.first_run@,
            ) + OPEN_END@,
            None => Seq::empty(),
        }
    }
}

fn easel_start(one: &Easel) -> (r: String)
    ensures
        r@ == easel_start_html(*one),
{
    if one.serving {
        let mut out = String::from_str(STOP_TO_ID);
        out.append(escape(one.id.as_str()).as_str());
        out.append(STOP_TO_NAME);
        out.append(escape(one.name.as_str()).as_str());
        out.append(STOP_END);
        return out;
    }
    match &one.start {
        Some(command) => {
            let mut out = String::from_str(OPEN_TO_ID);
            out.append(escape(one.id.as_str()).as_str());
            out.append(OPEN_TO_NAME);
            out.append(escape(one.name.as_str()).as_str());
            out.append(OPEN_TO_COMMAND);
            out.append(escape(command.as_str()).as_str());
            out.append(OPEN_TO_FIRST_RUN);
            out.append(escape(one.first_run.as_str()).as_str());
            out.append(OPEN_END);
            out
        },
        None => String::new(),
    }
}

/// INSTALL, when the studio is not here.
pub open spec fn easel_install_html(one: Easel) -> Seq<char> {
    if one.installed {
        Seq::empty()
    } else {
        STUDIO_INSTALL_TO_ID@ + escaped(one.id@) + STUDIO_INSTALL_TO_NAME@ + escaped(one.name@)
            + STUDIO_INSTALL_END@
    }
}

/// One image studio, as the Services page draws it: its state, its sentence, and its buttons.
pub open spec fn easel_html(one: Easel) -> Seq<char> {
    let (word, tone) = state_of(one.installed, one.serving);
    EASEL_TO_TONE@ + tone + EASEL_TO_WORD@ + word + EASEL_TO_NAME@ + escaped(one.name@)
        + EASEL_TO_DETAIL@ + escaped(easel_detail(one)) + EASEL_END@ + easel_start_html(one)
        + easel_install_html(one)
}

/// One image studio, as the Services page draws it.
pub fn easel(one: &Easel) -> (r: String)
    ensures
        r@ == easel_html(*one),
{
    let (word, tone) = state(one.installed, one.serving);
    let mut out = String::from_str(EASEL_TO_TONE);
    out.append(tone);
    out.append(EASEL_TO_WORD);
    out.append(word);
    out.append(EASEL_TO_NAME);
    out.append(escape(one.name.as_str()).as_str());
    out.append(EASEL_TO_DETAIL);
    out.append(escape(easel_detail_of(one).as_str()).as_str());
    out.append(EASEL_END);
    out.append(easel_start(one).as_str());
    if !one.installed {
        out.append(STUDIO_INSTALL_TO_ID);
        out.append(escape(one.id.as_str()).as_str());
        out.append(STUDIO_INSTALL_TO_NAME);
        out.append(escape(one.name.as_str()).as_str());
        out.append(STUDIO_INSTALL_END);
    }
    out
}

/// The Hugging Face CLI's state in one word and its colour. Installed and signed out is a real,
/// working state (it downloads anything ungated), said plainly rather than as a fault.
pub open spec fn cli_state(hf: Cli) -> (Seq<char>, Seq<char>) {
    if !hf.installed {
        ("NOT INSTALLED"@, "no"@)
    } else if hf.user is None {
        ("SIGNED OUT"@, "unknown"@)
    } else {
        ("READY"@, "yes"@)
    }
}

/// What the CLI's version line says.
pub open spec fn cli_version(hf: Cli) -> Seq<char> {
    match hf.version {
        Some(v) => "hf "@ + escaped(v@),
        None => "not on this machine"@,
    }
}

/// The one sentence that says what to do next: install it, sign in for a gated repository, or
/// nothing at all.
pub open spec fn cli_said(hf: Cli) -> Seq<char> {
    if !hf.installed {
        "Install it with: curl -LsSf https://hf.co/cli/install.sh | bash -s"@
    } else {
        match hf.user {
            None => "Signed out. It still downloads anything ungated; sign in with `hf auth login` for a gated repository."@,
            Some(who) => "Signed in as "@ + who@ + "."@,
        }
    }
}

/// Where the CLI was found, so "not installed" is something somebody can go and check.
pub open spec fn cli_found(hf: Cli) -> Seq<char> {
    match hf.found_at {
        Some(at) => "<p class=\"quiet\">"@ + escaped(at@) + "</p>"@,
        None => Seq::empty(),
    }
}

/// One catalogue key's row. **Write-only**: a stored key is said to be stored and offered to be
/// forgotten, and there is no field a stored value could come back through.
pub open spec fn key_html(id: Seq<char>, name: Seq<char>, held: bool) -> Seq<char> {
    KEY_TO_ID@ + escaped(id) + KEY_TO_NAME@ + escaped(name) + KEY_TO_FIELD@ + (if held {
        KEY_STORED@
    } else {
        KEY_FIELD@
    }) + KEY_TO_CAUTION@ + CAUTION@ + KEY_END@
}

/// Every key's row, in the order given.
pub open spec fn keys_html(keys: Seq<(&str, &str, bool)>) -> Seq<char>
    decreases keys.len(),
{
    if keys.len() == 0 {
        Seq::empty()
    } else {
        let last = keys.last();
        keys_html(keys.drop_last()) + key_html(last.0@, last.1@, last.2)
    }
}

fn keys_of(keys: &[(&str, &str, bool)]) -> (r: String)
    ensures
        r@ == keys_html(keys@),
{
    let mut out = String::new();
    let mut i: usize = 0;
    while i < keys.len()
        invariant
            0 <= i <= keys@.len(),
            out@ == keys_html(keys@.take(i as int)),
        decreases keys@.len() - i,
    {
        let (id, name, held) = keys[i];
        out.append(KEY_TO_ID);
        out.append(escape(id).as_str());
        out.append(KEY_TO_NAME);
        out.append(escape(name).as_str());
        out.append(KEY_TO_FIELD);
        if held {
            out.append(KEY_STORED);
        } else {
            out.append(KEY_FIELD);
        }
        out.append(KEY_TO_CAUTION);
        out.append(CAUTION);
        out.append(KEY_END);
        assert(keys@.take(i + 1).drop_last() =~= keys@.take(i as int));
        i = i + 1;
    }
    assert(keys@.take(keys@.len() as int) =~= keys@);
    out
}

/// The Settings tab: three facts about the Hugging Face CLI kept apart (installed, signed in,
/// where it is), the catalogue keys, and where a saved model goes. Nothing here is invented.
pub open spec fn settings_html(
    hf: Cli,
    models_dir: Seq<char>,
    keys: Seq<(&str, &str, bool)>,
    said: Option<Seq<char>>,
) -> Seq<char> {
    let (word, tone) = cli_state(hf);
    SETTINGS_TO_NOTICE@ + notice_of(said) + SETTINGS_TO_TONE@ + tone + SETTINGS_TO_WORD@ + word
        + SETTINGS_TO_VERSION@ + cli_version(hf) + SETTINGS_TO_SAID@ + escaped(cli_said(hf))
        + SETTINGS_TO_FOUND@ + cli_found(hf) + SETTINGS_TO_KEYS@ + keys_html(keys)
        + SETTINGS_TO_MODELS_DIR@ + escaped(models_dir) + SETTINGS_END@
}

fn cli_said_of(hf: &Cli) -> (r: String)
    ensures
        r@ == cli_said(*hf),
{
    if !hf.installed {
        return String::from_str("Install it with: curl -LsSf https://hf.co/cli/install.sh | bash -s");
    }
    match &hf.user {
        None => String::from_str(
            "Signed out. It still downloads anything ungated; sign in with `hf auth login` for a gated repository.",
        ),
        Some(who) => {
            let mut out = String::from_str("Signed in as ");
            out.append(who.as_str());
            out.append(".");
            out
        },
    }
}

/// The Settings tab.
pub fn settings(hf: &Cli, models_dir: &str, keys: &[(&str, &str, bool)], said: Option<&str>) -> (r:
    String)
    ensures
        r@ == settings_html(*hf, models_dir@, keys@, opt_view(said)),
{
    let (word, tone) = if !hf.installed {
        ("NOT INSTALLED", "no")
    } else if hf.user.is_none() {
        ("SIGNED OUT", "unknown")
    } else {
        ("READY", "yes")
    };
    let mut out = String::from_str(SETTINGS_TO_NOTICE);
    out.append(notice(said).as_str());
    out.append(SETTINGS_TO_TONE);
    out.append(tone);
    out.append(SETTINGS_TO_WORD);
    out.append(word);
    out.append(SETTINGS_TO_VERSION);
    match &hf.version {
        Some(v) => {
            out.append("hf ");
            out.append(escape(v.as_str()).as_str());
        },
        None => out.append("not on this machine"),
    }
    out.append(SETTINGS_TO_SAID);
    out.append(escape(cli_said_of(hf).as_str()).as_str());
    out.append(SETTINGS_TO_FOUND);
    match &hf.found_at {
        Some(at) => {
            out.append("<p class=\"quiet\">");
            out.append(escape(at.as_str()).as_str());
            out.append("</p>");
        },
        None => {},
    }
    out.append(SETTINGS_TO_KEYS);
    out.append(keys_of(keys).as_str());
    out.append(SETTINGS_TO_MODELS_DIR);
    out.append(escape(models_dir).as_str());
    out.append(SETTINGS_END);
    out
}

/// Every runtime's row, in the order surveyed.
pub open spec fn rows_html(rows: Seq<(Available, Engines)>) -> Seq<char>
    decreases rows.len(),
{
    if rows.len() == 0 {
        Seq::empty()
    } else {
        rows_html(rows.drop_last()) + services_row_html(rows.last().0, rows.last().1)
    }
}

/// Every studio's row, in the order surveyed.
pub open spec fn easels_html(easels: Seq<Easel>) -> Seq<char>
    decreases easels.len(),
{
    if easels.len() == 0 {
        Seq::empty()
    } else {
        easels_html(easels.drop_last()) + easel_html(easels.last())
    }
}

/// The Services tab: every program here that can run a model with the one thing each needs
/// next, what the Host can use, and every program here that can make a picture.
pub open spec fn services_html(
    said: Option<Seq<char>>,
    rows: Seq<(Available, Engines)>,
    easels: Seq<Easel>,
) -> Seq<char> {
    SERVICES_TO_NOTICE@ + notice_of(said) + SERVICES_TO_RUNTIMES@ + rows_html(rows)
        + SERVICES_TO_EASELS@ + easels_html(easels) + SERVICES_END@
}

/// The Services tab, drawn from a survey of this machine: each runtime with the graphics read for
/// it, and each studio.
pub fn services(said: Option<&str>, rows: &Vec<(Available, Engines)>, easels: &Vec<Easel>) -> (r:
    String)
    ensures
        r@ == services_html(opt_view(said), rows@, easels@),
{
    let mut out = String::from_str(SERVICES_TO_NOTICE);
    out.append(notice(said).as_str());
    out.append(SERVICES_TO_RUNTIMES);
    let mut i: usize = 0;
    while i < rows.len()
        invariant
            0 <= i <= rows@.len(),
            out@ == SERVICES_TO_NOTICE@ + notice_of(opt_view(said)) + SERVICES_TO_RUNTIMES@
                + rows_html(rows@.take(i as int)),
        decreases rows@.len() - i,
    {
        let row = &rows[i];
        out.append(services_row(&row.0, &row.1).as_str());
        assert(rows@.take(i + 1).drop_last() =~= rows@.take(i as int));
        i = i + 1;
    }
    assert(rows@.take(rows@.len() as int) =~= rows@);
    out.append(SERVICES_TO_EASELS);
    let ghost head = out@;
    let mut j: usize = 0;
    while j < easels.len()
        invariant
            0 <= j <= easels@.len(),
            out@ == head + easels_html(easels@.take(j as int)),
        decreases easels@.len() - j,
    {
        out.append(easel(&easels[j]).as_str());
        assert(easels@.take(j + 1).drop_last() =~= easels@.take(j as int));
        j = j + 1;
    }
    assert(easels@.take(easels@.len() as int) =~= easels@);
    out.append(SERVICES_END);
    out
}

} // verus!
