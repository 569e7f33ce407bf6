//! What is actually on this machine, and the one destructive button either surface has.
//!
//! On a lent machine **this** is the computer holding the weights, and the person standing at
//! it needs to see them and be able to take one off. It does not search for a loadout — that
//! costs minutes of somebody else's graphics card — but it does offer to map a curve here, on
//! the card the curve is about, and to choose from one that was already measured.

use vstd::prelude::*;
use vstd::string::*;

use crate::invite::{to_upper, upper_case};
use crate::page::{escape, escaped, holds_text, stands_at};
use crate::text::{decimal, decimal_of, joined_by, one_place, one_place_of, same, views};
use crate::workshop::{gb, gigabytes};

verus! {

pub const RUNNING_TO_LINE: &'static str = r#"<div class="mdls__running"><p><b>MAPPING A CURVE</b> "#;

pub const RUNNING_END: &'static str = r#"</p>
    <p class="quiet">It holds this graphics card until it finishes. Nothing else here can be
       measured meanwhile.</p></div>"#;

pub const EMPTY: &'static str = r#"<p class="quiet">Nothing here yet. The Models Workshop is where models are found and
           fetched onto this machine.</p>"#;

pub const PANEL_TO_COUNT: &'static str = r#"<section class="panel">
  <h2>Models on this machine</h2>
  <p class="quiet">"#;

pub const PANEL_TO_WORD: &'static str = r#" "#;

pub const PANEL_TO_TOTAL: &'static str = r#", "#;

pub const PANEL_TO_RUNNING: &'static str = r#" in all.</p>
  "#;

pub const PANEL_TO_SAID: &'static str = r#"
  "#;

pub const PANEL_TO_BODY: &'static str = r#"
  <div class="mdls">"#;

pub const PANEL_END: &'static str = r#"</div>
  <p class="quiet">
    Removing takes the shelf's hard link with it. Without that the bytes would stay on the disk
    and llama.cpp would keep offering a model Ollama no longer has. An Ollama model is unfiled by
    <code>ollama rm</code> rather than by deleting a blob several tags may share.
  </p>
</section>"#;

pub const VERDICT_TO_SAID: &'static str = r#"<p class="verdict">"#;

pub const VERDICT_END: &'static str = r#"</p>"#;

pub const ROW_TO_NAME: &'static str = r#"<div class="mdls__row">
  <div>
    <p class="mdls__name">"#;

pub const ROW_TO_FROM: &'static str = r#"</p>
    <p class="quiet">"#;

pub const ROW_TO_SIZE: &'static str = r#" &middot; "#;

pub const ROW_TO_EYES: &'static str = r#""#;

pub const ROW_TO_SPEED: &'static str = r#""#;

pub const ROW_TO_TWIN: &'static str = r#"</p>
    "#;

pub const ROW_TO_PATH: &'static str = r#"
    <p class="quiet mdls__path">"#;

pub const ROW_TO_FORM_NAME: &'static str = r#"</p>
  </div>
  <div class="mdls__doing">
    <form method="post" action="/models/time">
      <input type="hidden" name="name" value=""#;

pub const ROW_TO_ON: &'static str = r#"">
      "#;

pub const ROW_TO_REMOVAL: &'static str = r#"
    </form>
    "#;

pub const ROW_TO_RECIPE: &'static str = r#"
  </div>
  "#;

pub const ROW_END: &'static str = r#"
</div>"#;

pub const NOTHING_SERVING: &'static str = r#"<button type="submit" disabled>NOTHING IS SERVING IT</button>"#;

pub const ONE_TO_ID: &'static str = r#"<input type="hidden" name="on" value=""#;

pub const ONE_TO_NAME: &'static str = r#""><button type="submit">TIME IT ON "#;

pub const ONE_END: &'static str = r#"</button>"#;

pub const CHOICE_TO_OPTIONS: &'static str = r#"<select name="on">"#;

pub const CHOICE_END: &'static str = r#"</select><button type="submit">TIME IT</button>"#;

pub const OPTION_TO_ID: &'static str = r#"<option value=""#;

pub const OPTION_TO_NAME: &'static str = r#"">"#;

pub const OPTION_END: &'static str = r#"</option>"#;

pub const TWIN_TO_NAMES: &'static str = r#"<p class="notice">the same weights as "#;

pub const TWIN_END: &'static str = r#" &mdash; one copy can go</p>"#;

pub const DELETE_TO_PATH: &'static str = r#"<form method="post" action="/models/remove">
      <input type="hidden" name="path" value=""#;

pub const DELETE_TO_NAME: &'static str = r#"">
      <button type="submit" class="danger">DELETE "#;

pub const DELETE_END: &'static str = r#"</button>
    </form>
    <form method="post" action="/models/keep"><button type="submit">KEEP IT</button></form>"#;

pub const REMOVE_TO_PATH: &'static str = r#"<form method="post" action="/models/ask">
      <input type="hidden" name="path" value=""#;

pub const REMOVE_END: &'static str = r#"">
      <button type="submit">REMOVE</button>
    </form>"#;

pub const NOTHING_TO_MEASURE: &'static str = r#"<p class="quiet">Neither llama.cpp nor a running Ollama is here, so there is
               nothing to measure through yet.</p>"#;

pub const MEASURE_TO_NAME: &'static str = r#"<form method="post" action="/models/measure" class="mdls__measure">
      <input type="hidden" name="name" value=""#;

pub const MEASURE_TO_BUTTONS: &'static str = r#"">
      "#;

pub const MEASURE_END: &'static str = r#"
    </form>"#;

pub const COLD_TO_NOW: &'static str = r#"<div class="mdls__recipe">
    <p class="quiet">Loads with "#;

pub const COLD_TO_ACT: &'static str = r#". Nothing has been measured for this model on this card,
       so that is the conservative default rather than a reading. Mapping the curve takes
       several minutes of <b>this</b> graphics card — and it has to happen here, because a
       curve measured anywhere else is an answer about a different machine.</p>
    "#;

pub const COLD_END: &'static str = r#"
  </div>"#;

pub const CURVE_ROW_TO_CLASS: &'static str = r#"<tr class=""#;

pub const CURVE_ROW_TO_CONTEXT: &'static str = r#"">
      <td>"#;

pub const CURVE_ROW_TO_CACHE: &'static str = r#"</td>
      <td>"#;

pub const CURVE_ROW_TO_RATE: &'static str = r#"</td>
      <td>"#;

pub const CURVE_ROW_TO_NOTE: &'static str = r#"</td>
      <td>"#;

pub const CURVE_ROW_TO_ACTION: &'static str = r#"</td>
      <td>"#;

pub const CURVE_ROW_END: &'static str = r#"</td>
    </tr>"#;

pub const USE_TO_PATH: &'static str = r#"<form method="post" action="/models/recipe">
        <input type="hidden" name="path" value=""#;

pub const USE_TO_CONTEXT: &'static str = r#"">
        <input type="hidden" name="context" value=""#;

pub const USE_END: &'static str = r#"">
        <button type="submit">USE THIS</button>
      </form>"#;

pub const CURVE_TO_NOW: &'static str = r#"<details class="mdls__recipe">
    <summary>Loads with "#;

pub const CURVE_TO_COUNT: &'static str = r#" &mdash; "#;

pub const CURVE_TO_ROWS: &'static str = r#" measured settings</summary>
    <table class="curve">
      <tr><th>context</th><th>cache</th><th>speed</th><th></th><th></th></tr>
      "#;

pub const CURVE_END: &'static str = r#"
    </table>
    <p class="quiet">A change takes effect the next time llama.cpp starts.</p>
  </details>"#;

pub const MEASURE_ON_LLAMA: &'static str = r#"<button name="on" value="llama_cpp">MEASURE ON LLAMA.CPP</button>"#;

pub const MEASURE_ON_OLLAMA: &'static str = r#"<button name="on" value="ollama">MEASURE ON OLLAMA</button>"#;



/// One setting a model loads with: how much context, and the cache type in words.
pub struct Loadout {
    pub context: u32,
    /// The cache type, as a person reads it (`f16 cache`, `q8_0 cache`).
    pub cache: String,
}

impl Clone for Loadout {
    fn clone(&self) -> (r: Self)
        ensures
            r == *self,
    {
        Loadout { context: self.context, cache: self.cache.clone() }
    }
}

/// One rung of a measured curve: the setting, and how fast it ran there in tenths of a token
/// per second — nothing where the probe could not complete it.
pub struct Tried {
    pub loadout: Loadout,
    pub tenths: Option<u64>,
}

impl Clone for Tried {
    fn clone(&self) -> (r: Self)
        ensures
            r == *self,
    {
        Tried { loadout: self.loadout.clone(), tenths: self.tenths }
    }
}

/// One model on this machine, as the page reads it.
pub struct ModelHere {
    pub name: String,
    /// Which shelf it is on (`Ollama`, `Saved here`).
    pub from: String,
    pub path: String,
    pub bytes: u64,
    /// Whether it can see.
    pub sees: bool,
    /// How it loads now.
    pub loadout: Loadout,
    /// The curve measured for it on this card, if any.
    pub readings: Vec<Tried>,
    /// The setting the curve recommends.
    pub recommended: Option<Loadout>,
    /// Its measured speed in tenths of a token per second, and which runtime measured it.
    pub tenths: Option<u64>,
    pub measured_on: Option<String>,
    /// Other rows holding the same weights.
    pub same_weights_as: Vec<String>,
}

/// A runtime answering on this machine, and which of these models it holds.
pub struct Serving {
    pub id: String,
    pub name: String,
    pub models: Vec<String>,
}

/// Which runtimes a curve could be taken through here, as surveyed.
#[derive(Debug, Clone, Copy)]
pub struct Probed {
    /// llama.cpp is installed.
    pub llama_cpp: bool,
    /// Ollama is installed, and whether it is answering.
    pub ollama: bool,
    pub ollama_serving: bool,
}

/// Everything the Models tab draws.
pub struct Inventory {
    pub held: Vec<ModelHere>,
    /// The runtimes answering on this machine, and what each holds: TIME IT has to name one.
    pub timeable: Vec<Serving>,
    /// What the last button said.
    pub said: Option<String>,
    /// Which model is one press from being removed.
    pub asking: Option<String>,
    /// The curve being mapped right now, as a line.
    pub measuring: Option<String>,
    pub probed: Probed,
}

/// Whether two settings are the same setting.
pub open spec fn same_setting(a: Loadout, b: Loadout) -> bool {
    a.context == b.context && a.cache@ == b.cache@
}

fn same_loadout(a: &Loadout, b: &Loadout) -> (r: bool)
    ensures
        r == same_setting(*a, *b),
{
    a.context == b.context && same(a.cache.as_str(), b.cache.as_str())
}

/// One setting, in words. The line a running curve draws names the same setting the finished
/// table names, so there is one spelling of it.
pub open spec fn plainly_of(l: Loadout) -> Seq<char> {
    decimal(l.context as nat) + " tokens on the "@ + l.cache@
}

/// One setting, in words.
pub fn plainly(l: &Loadout) -> (r: String)
    ensures
        r@ == plainly_of(*l),
{
    let mut out = decimal_of(l.context as u64);
    out.append(" tokens on the ");
    out.append(l.cache.as_str());
    out
}

/// Where `x` goes in a curve ordered roomiest first: before the first rung with no more room
/// than it, so rungs with the same room keep their order.
pub open spec fn placed(x: Tried, sorted: Seq<Tried>) -> Seq<Tried>
    decreases sorted.len(),
{
    if sorted.len() == 0 {
        seq![x]
    } else if x.loadout.context >= sorted[0].loadout.context {
        seq![x] + sorted
    } else {
        seq![sorted[0]] + placed(x, sorted.drop_first())
    }
}

/// A curve ordered by what a person compares: the roomiest first, since that is the axis they
/// are trading speed away for; rungs with the same room in the order they were measured.
pub open spec fn roomiest_first(s: Seq<Tried>) -> Seq<Tried>
    decreases s.len(),
{
    if s.len() == 0 {
        Seq::empty()
    } else {
        placed(s[0], roomiest_first(s.drop_first()))
    }
}

proof fn lemma_placed_at(x: Tried, s: Seq<Tried>, k: int)
    requires
        0 <= k <= s.len(),
        forall|j: int| 0 <= j < k ==> s[j].loadout.context > x.loadout.context,
        k < s.len() ==> s[k].loadout.context <= x.loadout.context,
    ensures
        placed(x, s) == s.insert(k, x),
    decreases k,
{
    if k == 0 {
        if s.len() == 0 {
            assert(s.insert(0, x) =~= seq![x]);
        } else {
            assert(s.insert(0, x) =~= seq![x] + s);
        }
    } else {
        let t = s.drop_first();
        assert forall|j: int| 0 <= j < k - 1 implies t[j].loadout.context > x.loadout.context by {
            assert(t[j] == s[j + 1]);
        }
        lemma_placed_at(x, t, k - 1);
        assert(s.insert(k, x) =~= seq![s[0]] + t.insert(k - 1, x));
    }
}

/// Whether a curve is ordered roomiest first.
pub open spec fn roomy(s: Seq<Tried>) -> bool {
    forall|a: int, b: int|
        #![trigger s[a], s[b]]
        0 <= a < b < s.len() ==> s[a].loadout.context >= s[b].loadout.context
}

proof fn lemma_placed_roomy(x: Tried, s: Seq<Tried>)
    requires
        roomy(s),
    ensures
        roomy(placed(x, s)),
        placed(x, s).to_multiset() =~= s.to_multiset().insert(x),
    decreases s.len(),
{
    broadcast use vstd::seq_lib::group_to_multiset_ensures;

    let p = placed(x, s);
    if s.len() == 0 {
        assert(p =~= s.insert(0, x));
    } else if x.loadout.context >= s[0].loadout.context {
        assert(p =~= s.insert(0, x));
        assert forall|a: int, b: int| 0 <= a < b < p.len() implies p[a].loadout.context
            >= p[b].loadout.context by {
            if a == 0 {
                assert(p[b] == s[b - 1]);
                if b - 1 > 0 {
                    assert(s[0].loadout.context >= s[b - 1].loadout.context);
                }
            } else {
                assert(p[a] == s[a - 1] && p[b] == s[b - 1]);
            }
        }
    } else {
        let t = s.drop_first();
        assert forall|a: int, b: int| 0 <= a < b < t.len() implies t[a].loadout.context
            >= t[b].loadout.context by {
            assert(t[a] == s[a + 1] && t[b] == s[b + 1]);
        }
        lemma_placed_roomy(x, t);
        let q = placed(x, t);
        assert(p =~= q.insert(0, s[0]));
        assert(s =~= t.insert(0, s[0]));
        assert(p.to_multiset() =~= q.to_multiset().insert(s[0]));
        assert(s.to_multiset() =~= t.to_multiset().insert(s[0]));
        assert forall|a: int, b: int| 0 <= a < b < p.len() implies p[a].loadout.context
            >= p[b].loadout.context by {
            if a == 0 {
                assert(p[b] == q[b - 1]);
                assert(q.to_multiset().count(q[b - 1]) > 0) by {
                    assert(q.contains(q[b - 1]));
                }
                if q[b - 1] != x {
                    assert(t.to_multiset().count(q[b - 1]) > 0);
                    assert(t.contains(q[b - 1]));
                    let j = choose|j: int| 0 <= j < t.len() && t[j] == q[b - 1];
                    assert(t[j] == s[j + 1]);
                    assert(s[0].loadout.context >= s[j + 1].loadout.context);
                }
            } else {
                assert(p[a] == q[a - 1] && p[b] == q[b - 1]);
            }
        }
    }
}

proof fn lemma_roomiest_first(s: Seq<Tried>)
    ensures
        roomy(roomiest_first(s)),
        roomiest_first(s).to_multiset() =~= s.to_multiset(),
    decreases s.len(),
{
    broadcast use vstd::seq_lib::group_to_multiset_ensures;

    if s.len() == 0 {
        assert(s.to_multiset() =~= vstd::multiset::Multiset::empty());
        assert(roomiest_first(s) =~= Seq::<Tried>::empty());
        assert(roomiest_first(s).to_multiset() =~= vstd::multiset::Multiset::empty());
    } else {
        let t = s.drop_first();
        lemma_roomiest_first(t);
        lemma_placed_roomy(s[0], roomiest_first(t));
        assert(s =~= t.insert(0, s[0]));
    }
}

/// **A curve is read roomiest first, every rung of it.** Ordering a curve loses no rung and
/// repeats none, and no rung comes before one with more room.
pub proof fn the_roomiest_rung_comes_first(curve: Seq<Tried>)
    ensures
        roomy(roomiest_first(curve)),
        roomiest_first(curve).to_multiset() =~= curve.to_multiset(),
{
    lemma_roomiest_first(curve);
}

/// A curve, roomiest first.
fn by_room(readings: &Vec<Tried>) -> (r: Vec<Tried>)
    ensures
        r@ == roomiest_first(readings@),
{
    let mut sorted: Vec<Tried> = Vec::new();
    let mut i = readings.len();
    assert(readings@.skip(i as int) =~= Seq::<Tried>::empty());
    while i > 0
        invariant
            0 <= i <= readings@.len(),
            sorted@ == roomiest_first(readings@.skip(i as int)),
        decreases i,
    {
        let x = readings[i - 1].clone();
        let mut k: usize = 0;
        while k < sorted.len() && sorted[k].loadout.context > x.loadout.context
            invariant
                0 <= k <= sorted@.len(),
                forall|j: int| 0 <= j < k ==> sorted@[j].loadout.context > x.loadout.context,
            decreases sorted@.len() - k,
        {
            k = k + 1;
        }
        proof {
            lemma_placed_at(x, sorted@, k as int);
            assert(readings@.skip(i - 1).drop_first() =~= readings@.skip(i as int));
            assert(readings@.skip(i - 1)[0] == readings@[i - 1]);
        }
        sorted.insert(k, x);
        i = i - 1;
    }
    assert(readings@.skip(0) =~= readings@);
    sorted
}


/// Whether a runtime holds the model called `name`.
pub open spec fn holds(s: Serving, name: Seq<char>) -> bool {
    views(s.models@).contains(name)
}

/// The runtimes that hold the model called `name`, in the order they were surveyed.
pub open spec fn holders(ts: Seq<Serving>, name: Seq<char>) -> Seq<Serving>
    decreases ts.len(),
{
    if ts.len() == 0 {
        Seq::empty()
    } else if holds(ts.last(), name) {
        holders(ts.drop_last(), name).push(ts.last())
    } else {
        holders(ts.drop_last(), name)
    }
}

/// **A model is timed only on a runtime that holds it, and on every one that does.** The
/// runtimes offered for a model are exactly those, among the ones surveyed, whose models include
/// it, in the order they were surveyed.
pub proof fn a_model_is_timed_where_it_is_held(ts: Seq<Serving>, name: Seq<char>)
    ensures
        forall|i: int|
            0 <= i < holders(ts, name).len() ==> views((#[trigger] holders(ts, name)[i]).models@).contains(name),
        forall|i: int|
            0 <= i < holders(ts, name).len() ==> ts.contains(#[trigger] holders(ts, name)[i]),
        (forall|i: int| 0 <= i < ts.len() ==> views((#[trigger] ts[i]).models@).contains(name)) ==> holders(
            ts,
            name,
        ) == ts,
        (forall|i: int| 0 <= i < ts.len() ==> !views((#[trigger] ts[i]).models@).contains(name)) ==> holders(
            ts,
            name,
        ).len() == 0,
    decreases ts.len(),
{
    if ts.len() > 0 {
        let rest = ts.drop_last();
        a_model_is_timed_where_it_is_held(rest, name);
        assert forall|i: int| 0 <= i < holders(ts, name).len() implies ts.contains(#[trigger] holders(ts, name)[i]) by {
            if i < holders(rest, name).len() {
                let x = holders(rest, name)[i];
                assert(holders(ts, name)[i] == x);
                assert(rest.contains(x));
                let j = choose|j: int| 0 <= j < rest.len() && rest[j] == x;
                assert(ts[j] == x);
            } else {
                assert(holders(ts, name)[i] == ts.last());
                assert(ts[ts.len() - 1] == ts.last());
            }
        }
        if forall|i: int| 0 <= i < ts.len() ==> views((#[trigger] ts[i]).models@).contains(name) {
            assert forall|i: int| 0 <= i < rest.len() implies views((#[trigger] rest[i]).models@).contains(name) by {
                assert(rest[i] == ts[i]);
            }
            assert(ts[ts.len() - 1] == ts.last());
            assert(holders(ts, name) =~= rest.push(ts.last()));
        }
        if forall|i: int| 0 <= i < ts.len() ==> !views((#[trigger] ts[i]).models@).contains(name) {
            assert forall|i: int| 0 <= i < rest.len() implies !views((#[trigger] rest[i]).models@).contains(name) by {
                assert(rest[i] == ts[i]);
            }
            assert(ts[ts.len() - 1] == ts.last());
        }
    }
}

fn holds_model(s: &Serving, name: &str) -> (r: bool)
    ensures
        r == holds(*s, name@),
{
    let mut i: usize = 0;
    while i < s.models.len()
        invariant
            0 <= i <= s.models@.len(),
            forall|j: int| 0 <= j < i ==> s.models@[j]@ != name@,
        decreases s.models@.len() - i,
    {
        if same(s.models[i].as_str(), name) {
            assert(views(s.models@)[i as int] == name@);
            return true;
        }
        i = i + 1;
    }
    assert(!views(s.models@).contains(name@)) by {
        if views(s.models@).contains(name@) {
            let j = choose|j: int| 0 <= j < views(s.models@).len() && views(s.models@)[j] == name@;
            assert(s.models@[j]@ == name@);
        }
    }
    false
}

/// The runtimes holding one model: indexes into the survey.
fn holding(ts: &Vec<Serving>, name: &str) -> (r: Vec<usize>)
    ensures
        r@.len() == holders(ts@, name@).len(),
        forall|k: int| #![trigger r@[k]] 0 <= k < r@.len() ==> r@[k] < ts@.len(),
        forall|k: int|
            #![trigger r@[k]]
            0 <= k < r@.len() ==> holders(ts@, name@)[k] == ts@[r@[k] as int],
{
    let mut r: Vec<usize> = Vec::new();
    let mut i: usize = 0;
    while i < ts.len()
        invariant
            0 <= i <= ts@.len(),
            r@.len() == holders(ts@.take(i as int), name@).len(),
            forall|k: int| #![trigger r@[k]] 0 <= k < r@.len() ==> r@[k] < i,
            forall|k: int|
                #![trigger r@[k]]
                0 <= k < r@.len() ==> holders(ts@.take(i as int), name@)[k] == ts@[r@[k] as int],
        decreases ts@.len() - i,
    {
        assert(ts@.take(i + 1).drop_last() =~= ts@.take(i as int));
        assert(ts@.take(i + 1).last() == ts@[i as int]);
        if holds_model(&ts[i], name) {
            r.push(i);
        }
        i = i + 1;
    }
    assert(ts@.take(ts@.len() as int) =~= ts@);
    r
}

/// One runtime as a choice in the TIME IT list.
pub open spec fn option_html(s: Serving) -> Seq<char> {
    OPTION_TO_ID@ + escaped(s.id@) + OPTION_TO_NAME@ + escaped(s.name@) + OPTION_END@
}

/// Several runtimes as the choices of the TIME IT list.
pub open spec fn options_html(ts: Seq<Serving>) -> Seq<char>
    decreases ts.len(),
{
    if ts.len() == 0 {
        Seq::empty()
    } else {
        options_html(ts.drop_last()) + option_html(ts.last())
    }
}

/// TIME IT for one model. Which runtimes hold it decides the control: none is an honest dead
/// end and says so, one needs no choice and names itself on the button, and several is where a
/// choice belongs.
pub open spec fn time_it_html(ts: Seq<Serving>, name: Seq<char>) -> Seq<char> {
    let h = holders(ts, name);
    if h.len() == 0 {
        NOTHING_SERVING@
    } else if h.len() == 1 {
        ONE_TO_ID@ + escaped(h[0].id@) + ONE_TO_NAME@ + escaped(upper_case(h[0].name@)) + ONE_END@
    } else {
        CHOICE_TO_OPTIONS@ + options_html(h) + CHOICE_END@
    }
}

fn time_it(ts: &Vec<Serving>, name: &str) -> (r: String)
    ensures
        r@ == time_it_html(ts@, name@),
{
    let at = holding(ts, name);
    let ghost h = holders(ts@, name@);
    if at.len() == 0 {
        String::from_str(NOTHING_SERVING)
    } else if at.len() == 1 {
        let one = &ts[at[0]];
        assert(h[0] == ts@[at@[0] as int]);
        let mut out = String::from_str(ONE_TO_ID);
        out.append(escape(one.id.as_str()).as_str());
        out.append(ONE_TO_NAME);
        let upper = to_upper(one.name.as_str());
        out.append(escape(upper.as_str()).as_str());
        out.append(ONE_END);
        out
    } else {
        let mut options = String::new();
        let mut k: usize = 0;
        while k < at.len()
            invariant
                0 <= k <= at@.len(),
                at@.len() == h.len(),
                h == holders(ts@, name@),
                forall|j: int| #![trigger at@[j]] 0 <= j < at@.len() ==> at@[j] < ts@.len(),
                forall|j: int|
                    #![trigger at@[j]]
                    0 <= j < at@.len() ==> h[j] == ts@[at@[j] as int],
                options@ == options_html(h.take(k as int)),
            decreases at@.len() - k,
        {
            let one = &ts[at[k]];
            assert(h[k as int] == ts@[at@[k as int] as int]);
            assert(h.take(k + 1).drop_last() =~= h.take(k as int));
            options.append(OPTION_TO_ID);
            options.append(escape(one.id.as_str()).as_str());
            options.append(OPTION_TO_NAME);
            options.append(escape(one.name.as_str()).as_str());
            options.append(OPTION_END);
            k = k + 1;
        }
        assert(h.take(h.len() as int) =~= h);
        let mut out = String::from_str(CHOICE_TO_OPTIONS);
        out.append(options.as_str());
        out.append(CHOICE_END);
        out
    }
}

/// The same weights stored twice: said, never folded, since both files are on the disk and
/// removing one row must not remove the other.
pub open spec fn twin_html(names: Seq<String>) -> Seq<char> {
    if names.len() == 0 {
        Seq::empty()
    } else {
        TWIN_TO_NAMES@ + escaped(joined_by(views(names), ", "@)) + TWIN_END@
    }
}

fn twin(names: &Vec<String>) -> (r: String)
    ensures
        r@ == twin_html(names@),
{
    if names.len() == 0 {
        String::new()
    } else {
        let mut out = String::from_str(TWIN_TO_NAMES);
        let joined = crate::text::join(names, ", ");
        out.append(escape(joined.as_str()).as_str());
        out.append(TWIN_END);
        out
    }
}

/// Whether a model can see, beside its size.
pub open spec fn eyes_html(sees: bool) -> Seq<char> {
    if sees {
        " &middot; can see"@
    } else {
        Seq::empty()
    }
}

/// A speed is only ever a measurement: a row nobody timed says nothing rather than an estimate.
pub open spec fn speed_html(tenths: Option<u64>, on: Option<String>) -> Seq<char> {
    match (tenths, on) {
        (Some(t), Some(r)) => " &middot; "@ + one_place(t as nat) + " tok/s on "@ + escaped(r@),
        (Some(t), None) => " &middot; "@ + one_place(t as nat) + " tok/s"@,
        _ => Seq::empty(),
    }
}

fn speed(tenths: Option<u64>, on: &Option<String>) -> (r: String)
    ensures
        r@ == speed_html(tenths, *on),
{
    match tenths {
        Some(t) => {
            let mut out = String::from_str(" &middot; ");
            out.append(one_place_of(t).as_str());
            match on {
                Some(runtime) => {
                    out.append(" tok/s on ");
                    out.append(escape(runtime.as_str()).as_str());
                },
                None => {
                    out.append(" tok/s");
                },
            }
            out
        },
        None => String::new(),
    }
}

/// REMOVE, or — **never on the first click** — the second press that says what it is about to
/// delete, by name, beside the way back out.
pub open spec fn removal_html(one: ModelHere, armed: bool) -> Seq<char> {
    if armed {
        DELETE_TO_PATH@ + escaped(one.path@) + DELETE_TO_NAME@ + escaped(one.name@) + DELETE_END@
    } else {
        REMOVE_TO_PATH@ + escaped(one.path@) + REMOVE_END@
    }
}

fn removal(one: &ModelHere, armed: bool) -> (r: String)
    ensures
        r@ == removal_html(*one, armed),
{
    if armed {
        let mut out = String::from_str(DELETE_TO_PATH);
        out.append(escape(one.path.as_str()).as_str());
        out.append(DELETE_TO_NAME);
        out.append(escape(one.name.as_str()).as_str());
        out.append(DELETE_END);
        out
    } else {
        let mut out = String::from_str(REMOVE_TO_PATH);
        out.append(escape(one.path.as_str()).as_str());
        out.append(REMOVE_END);
        out
    }
}


/// Whether a rung is the setting the curve recommends.
pub open spec fn recommended_is(one: ModelHere, l: Loadout) -> bool {
    match one.recommended {
        Some(r) => same_setting(r, l),
        None => false,
    }
}

/// What the note column says of a rung: whether it is in use, recommended, both, or neither.
pub open spec fn note_html(chosen: bool, marked: bool) -> Seq<char> {
    if chosen && marked {
        "in use &middot; recommended"@
    } else if chosen {
        "in use"@
    } else if marked {
        "recommended"@
    } else {
        Seq::empty()
    }
}

/// One rung of the curve table. The rung in use offers no button — pressing it would do
/// nothing — and neither does one the probe could not complete, which would fail on press.
pub open spec fn rung_html(t: Tried, one: ModelHere) -> Seq<char> {
    let chosen = same_setting(t.loadout, one.loadout);
    CURVE_ROW_TO_CLASS@ + (if chosen {
        "on"@
    } else {
        Seq::empty()
    }) + CURVE_ROW_TO_CONTEXT@ + decimal(t.loadout.context as nat) + CURVE_ROW_TO_CACHE@ + escaped(
        t.loadout.cache@,
    ) + CURVE_ROW_TO_RATE@ + match t.tenths {
        Some(r) => one_place(r as nat) + " tok/s"@,
        None => "\u{2014}"@,
    } + CURVE_ROW_TO_NOTE@ + note_html(chosen, recommended_is(one, t.loadout)) + CURVE_ROW_TO_ACTION@
        + if chosen || t.tenths is None {
        Seq::empty()
    } else {
        USE_TO_PATH@ + escaped(one.path@) + USE_TO_CONTEXT@ + decimal(t.loadout.context as nat)
            + USE_END@
    } + CURVE_ROW_END@
}

/// The rungs of a curve, in the order given.
pub open spec fn rungs_html(ts: Seq<Tried>, one: ModelHere) -> Seq<char>
    decreases ts.len(),
{
    if ts.len() == 0 {
        Seq::empty()
    } else {
        rungs_html(ts.drop_last(), one) + rung_html(ts.last(), one)
    }
}

fn rung(t: &Tried, one: &ModelHere) -> (r: String)
    ensures
        r@ == rung_html(*t, *one),
{
    let chosen = same_loadout(&t.loadout, &one.loadout);
    let marked = match &one.recommended {
        Some(rec) => same_loadout(rec, &t.loadout),
        None => false,
    };
    let mut out = String::from_str(CURVE_ROW_TO_CLASS);
    if chosen {
        out.append("on");
    }
    out.append(CURVE_ROW_TO_CONTEXT);
    out.append(decimal_of(t.loadout.context as u64).as_str());
    out.append(CURVE_ROW_TO_CACHE);
    out.append(escape(t.loadout.cache.as_str()).as_str());
    out.append(CURVE_ROW_TO_RATE);
    match t.tenths {
        Some(r) => {
            out.append(one_place_of(r).as_str());
            out.append(" tok/s");
        },
        None => {
            out.append("\u{2014}");
        },
    }
    out.append(CURVE_ROW_TO_NOTE);
    if chosen && marked {
        out.append("in use &middot; recommended");
    } else if chosen {
        out.append("in use");
    } else if marked {
        out.append("recommended");
    }
    out.append(CURVE_ROW_TO_ACTION);
    if !(chosen || t.tenths.is_none()) {
        out.append(USE_TO_PATH);
        out.append(escape(one.path.as_str()).as_str());
        out.append(USE_TO_CONTEXT);
        out.append(decimal_of(t.loadout.context as u64).as_str());
        out.append(USE_END);
    }
    out.append(CURVE_ROW_END);
    out
}

/// The buttons that offer to map a curve here: through llama.cpp where it is installed, and
/// through Ollama where it is installed and answering. LM Studio is absent on purpose — a curve
/// there would end in a setting nothing applies.
pub open spec fn measure_buttons(p: Probed) -> Seq<char> {
    (if p.llama_cpp {
        MEASURE_ON_LLAMA@
    } else {
        Seq::empty()
    }) + (if p.ollama && p.ollama_serving {
        MEASURE_ON_OLLAMA@
    } else {
        Seq::empty()
    })
}

/// How this model loads, and the measured curve it was chosen from. **Unmeasured is not
/// blank**: the model still loads, with the safe half of every trade, and the page says that
/// this is the default rather than a reading, and offers to measure it here — or says why it
/// cannot.
pub open spec fn recipe_html(one: ModelHere, p: Probed) -> Seq<char> {
    if one.readings@.len() == 0 {
        let can = measure_buttons(p);
        COLD_TO_NOW@ + plainly_of(one.loadout) + COLD_TO_ACT@ + (if can.len() == 0 {
            NOTHING_TO_MEASURE@
        } else {
            MEASURE_TO_NAME@ + escaped(one.name@) + MEASURE_TO_BUTTONS@ + can + MEASURE_END@
        }) + COLD_END@
    } else {
        CURVE_TO_NOW@ + plainly_of(one.loadout) + CURVE_TO_COUNT@ + decimal(one.readings@.len())
            + CURVE_TO_ROWS@ + rungs_html(roomiest_first(one.readings@), one) + CURVE_END@
    }
}

fn recipe(one: &ModelHere, p: Probed) -> (r: String)
    ensures
        r@ == recipe_html(*one, p),
{
    if one.readings.len() == 0 {
        let mut can = String::new();
        if p.llama_cpp {
            can.append(MEASURE_ON_LLAMA);
        }
        if p.ollama && p.ollama_serving {
            can.append(MEASURE_ON_OLLAMA);
        }
        let mut out = String::from_str(COLD_TO_NOW);
        out.append(plainly(&one.loadout).as_str());
        out.append(COLD_TO_ACT);
        if can.as_str().is_empty() {
            out.append(NOTHING_TO_MEASURE);
        } else {
            out.append(MEASURE_TO_NAME);
            out.append(escape(one.name.as_str()).as_str());
            out.append(MEASURE_TO_BUTTONS);
            out.append(can.as_str());
            out.append(MEASURE_END);
        }
        out.append(COLD_END);
        out
    } else {
        let curve = by_room(&one.readings);
        let mut rows = String::new();
        let mut i: usize = 0;
        while i < curve.len()
            invariant
                0 <= i <= curve@.len(),
                rows@ == rungs_html(curve@.take(i as int), *one),
            decreases curve@.len() - i,
        {
            assert(curve@.take(i + 1).drop_last() =~= curve@.take(i as int));
            rows.append(rung(&curve[i], one).as_str());
            i = i + 1;
        }
        assert(curve@.take(curve@.len() as int) =~= curve@);
        let mut out = String::from_str(CURVE_TO_NOW);
        out.append(plainly(&one.loadout).as_str());
        out.append(CURVE_TO_COUNT);
        out.append(decimal_of(curve.len() as u64).as_str());
        out.append(CURVE_TO_ROWS);
        out.append(rows.as_str());
        out.append(CURVE_END);
        proof {
            lemma_room_keeps_length(one.readings@);
        }
        out
    }
}

proof fn lemma_placed_length(x: Tried, s: Seq<Tried>)
    ensures
        placed(x, s).len() == s.len() + 1,
    decreases s.len(),
{
    if s.len() > 0 && x.loadout.context < s[0].loadout.context {
        lemma_placed_length(x, s.drop_first());
    }
}

/// Ordering a curve keeps every rung.
proof fn lemma_room_keeps_length(s: Seq<Tried>)
    ensures
        roomiest_first(s).len() == s.len(),
    decreases s.len(),
{
    if s.len() > 0 {
        lemma_room_keeps_length(s.drop_first());
        lemma_placed_length(s[0], roomiest_first(s.drop_first()));
    }
}


/// Whether REMOVE has been pressed once for this row — for this row alone.
pub open spec fn armed_for(asking: Option<String>, one: ModelHere) -> bool {
    asking matches Some(a) && a@ == one.path@
}

/// One model's row: what it is, where it lives, what it weighs, TIME IT, REMOVE, and how it
/// loads.
pub open spec fn row_html(one: ModelHere, view: Inventory) -> Seq<char> {
    ROW_TO_NAME@ + escaped(one.name@) + ROW_TO_FROM@ + escaped(one.from@) + ROW_TO_SIZE@ + gigabytes(
        one.bytes as nat,
    ) + ROW_TO_EYES@ + eyes_html(one.sees) + ROW_TO_SPEED@ + speed_html(one.tenths, one.measured_on)
        + ROW_TO_TWIN@ + twin_html(one.same_weights_as@) + ROW_TO_PATH@ + escaped(one.path@)
        + ROW_TO_FORM_NAME@ + escaped(one.name@) + ROW_TO_ON@ + time_it_html(
        view.timeable@,
        one.name@,
    ) + ROW_TO_REMOVAL@ + removal_html(one, armed_for(view.asking, one)) + ROW_TO_RECIPE@
        + recipe_html(one, view.probed) + ROW_END@
}

fn row(one: &ModelHere, view: &Inventory) -> (r: String)
    ensures
        r@ == row_html(*one, *view),
{
    let armed = match &view.asking {
        Some(a) => same(a.as_str(), one.path.as_str()),
        None => false,
    };
    let mut out = String::from_str(ROW_TO_NAME);
    out.append(escape(one.name.as_str()).as_str());
    out.append(ROW_TO_FROM);
    out.append(escape(one.from.as_str()).as_str());
    out.append(ROW_TO_SIZE);
    out.append(gb(one.bytes).as_str());
    out.append(ROW_TO_EYES);
    if one.sees {
        out.append(" &middot; can see");
    }
    out.append(ROW_TO_SPEED);
    out.append(speed(one.tenths, &one.measured_on).as_str());
    out.append(ROW_TO_TWIN);
    out.append(twin(&one.same_weights_as).as_str());
    out.append(ROW_TO_PATH);
    out.append(escape(one.path.as_str()).as_str());
    out.append(ROW_TO_FORM_NAME);
    out.append(escape(one.name.as_str()).as_str());
    out.append(ROW_TO_ON);
    out.append(time_it(&view.timeable, one.name.as_str()).as_str());
    out.append(ROW_TO_REMOVAL);
    out.append(removal(one, armed).as_str());
    out.append(ROW_TO_RECIPE);
    out.append(recipe(one, view.probed).as_str());
    out.append(ROW_END);
    out
}

/// The rungs of a curve read nothing of a model but its setting, its recommendation and its
/// path.
proof fn lemma_rungs_read_no_sight(ts: Seq<Tried>, a: ModelHere, b: ModelHere)
    requires
        a.loadout == b.loadout,
        a.recommended == b.recommended,
        a.path == b.path,
    ensures
        rungs_html(ts, a) == rungs_html(ts, b),
    decreases ts.len(),
{
    if ts.len() > 0 {
        lemma_rungs_read_no_sight(ts.drop_last(), a, b);
        assert(rung_html(ts.last(), a) == rung_html(ts.last(), b));
    }
}

/// **A row says "can see" of a model that sees, and only of one.** Two models that differ in
/// nothing but whether they see have the same row, except that the row of the one that sees
/// holds ` &middot; can see` beside its size, where the other holds nothing.
#[verifier::spinoff_prover]
#[verifier::rlimit(40)]
pub proof fn only_a_model_that_sees_is_said_to_see(seeing: ModelHere, blind: ModelHere, view: Inventory)
    requires
        seeing.sees,
        !blind.sees,
        blind.name == seeing.name,
        blind.from == seeing.from,
        blind.path == seeing.path,
        blind.bytes == seeing.bytes,
        blind.loadout == seeing.loadout,
        blind.readings == seeing.readings,
        blind.recommended == seeing.recommended,
        blind.tenths == seeing.tenths,
        blind.measured_on == seeing.measured_on,
        blind.same_weights_as == seeing.same_weights_as,
    ensures
        exists|k: int|
            0 <= k <= row_html(blind, view).len() && row_html(seeing, view) == #[trigger] row_html(blind, view).take(k)
                + " &middot; can see"@ + row_html(blind, view).skip(k),
{
    let one = blind;
    let before = ROW_TO_NAME@ + escaped(one.name@) + ROW_TO_FROM@ + escaped(one.from@) + ROW_TO_SIZE@ + gigabytes(
        one.bytes as nat,
    ) + ROW_TO_EYES@;
    let after = ROW_TO_SPEED@ + speed_html(one.tenths, one.measured_on) + ROW_TO_TWIN@ + twin_html(
        one.same_weights_as@,
    ) + ROW_TO_PATH@ + escaped(one.path@) + ROW_TO_FORM_NAME@ + escaped(one.name@) + ROW_TO_ON@ + time_it_html(
        view.timeable@,
        one.name@,
    ) + ROW_TO_REMOVAL@ + removal_html(one, armed_for(view.asking, one)) + ROW_TO_RECIPE@ + recipe_html(
        one,
        view.probed,
    ) + ROW_END@;
    assert(removal_html(seeing, armed_for(view.asking, seeing)) == removal_html(one, armed_for(view.asking, one)));
    lemma_rungs_read_no_sight(roomiest_first(one.readings@), seeing, one);
    assert(recipe_html(seeing, view.probed) == recipe_html(one, view.probed));
    let b = row_html(blind, view);
    assert(b =~= before + after);
    assert(row_html(seeing, view) =~= before + " &middot; can see"@ + after);
    let k = before.len() as int;
    assert(b.take(k) =~= before);
    assert(b.skip(k) =~= after);
}

/// **Nothing is deleted on the first press.** A row offers REMOVE, which only asks, unless REMOVE
/// was already pressed for this very file; only then does it offer DELETE, naming the model it is
/// about to delete, beside KEEP IT.
#[verifier::spinoff_prover]
#[verifier::rlimit(40)]
pub proof fn nothing_is_deleted_on_the_first_press(one: ModelHere, view: Inventory)
    ensures
        !(view.asking matches Some(a) && a@ == one.path@) ==> holds_text(
            row_html(one, view),
            REMOVE_TO_PATH@ + escaped(one.path@) + REMOVE_END@,
        ),
        (view.asking matches Some(a) && a@ == one.path@) ==> holds_text(
            row_html(one, view),
            DELETE_TO_PATH@ + escaped(one.path@) + DELETE_TO_NAME@ + escaped(one.name@) + DELETE_END@,
        ),
{
    let before = ROW_TO_NAME@ + escaped(one.name@) + ROW_TO_FROM@ + escaped(one.from@) + ROW_TO_SIZE@ + gigabytes(
        one.bytes as nat,
    ) + ROW_TO_EYES@ + eyes_html(one.sees) + ROW_TO_SPEED@ + speed_html(one.tenths, one.measured_on)
        + ROW_TO_TWIN@ + twin_html(one.same_weights_as@) + ROW_TO_PATH@ + escaped(one.path@)
        + ROW_TO_FORM_NAME@ + escaped(one.name@) + ROW_TO_ON@ + time_it_html(view.timeable@, one.name@)
        + ROW_TO_REMOVAL@;
    let button = removal_html(one, armed_for(view.asking, one));
    let after = ROW_TO_RECIPE@ + recipe_html(one, view.probed) + ROW_END@;
    let row = row_html(one, view);
    assert(row =~= before + button + after);
    assert((before + button + after).subrange(before.len() as int, (before.len() + button.len()) as int) =~= button);
    assert(stands_at(row, button, before.len() as int));
}

/// Every row, in the order the models were listed.
pub open spec fn rows_html(held: Seq<ModelHere>, view: Inventory) -> Seq<char>
    decreases held.len(),
{
    if held.len() == 0 {
        Seq::empty()
    } else {
        rows_html(held.drop_last(), view) + row_html(held.last(), view)
    }
}

/// How many bytes the models here take together.
pub open spec fn total_bytes(held: Seq<ModelHere>) -> nat
    decreases held.len(),
{
    if held.len() == 0 {
        0
    } else {
        total_bytes(held.drop_last()) + held.last().bytes as nat
    }
}

proof fn lemma_total_grows(held: Seq<ModelHere>, i: int)
    requires
        0 <= i <= held.len(),
    ensures
        total_bytes(held.take(i)) <= total_bytes(held),
    decreases held.len() - i,
{
    if i < held.len() {
        lemma_total_grows(held, i + 1);
        assert(held.take(i + 1).drop_last() =~= held.take(i));
    } else {
        assert(held.take(i) =~= held);
    }
}

/// The Models tab: how many models are here and what they weigh together, the curve being
/// mapped above everything it holds up, what the last button said, and a row for each — or,
/// on an empty machine, where models come from.
pub open spec fn render_html(view: Inventory) -> Seq<char> {
    let n = view.held@.len();
    PANEL_TO_COUNT@ + decimal(n) + PANEL_TO_WORD@ + (if n == 1 {
        "model"@
    } else {
        "models"@
    }) + PANEL_TO_TOTAL@ + gigabytes(total_bytes(view.held@)) + PANEL_TO_RUNNING@ + match view.measuring {
        Some(line) => RUNNING_TO_LINE@ + escaped(line@) + RUNNING_END@,
        None => Seq::empty(),
    } + PANEL_TO_SAID@ + match view.said {
        Some(said) => VERDICT_TO_SAID@ + escaped(said@) + VERDICT_END@,
        None => Seq::empty(),
    } + PANEL_TO_BODY@ + (if n == 0 {
        EMPTY@
    } else {
        rows_html(view.held@, view)
    }) + PANEL_END@
}

/// **The tab counts what is here and adds up what it weighs.** It opens with the number of
/// models, "model" for one and "models" for any other number, and their sizes added together;
/// one more model adds its own size to that total and nothing else.
pub proof fn the_tab_counts_and_weighs_what_is_here(view: Inventory, more: ModelHere)
    ensures
        (PANEL_TO_COUNT@ + decimal(view.held@.len()) + PANEL_TO_WORD@ + (if view.held@.len() == 1 {
            "model"@
        } else {
            "models"@
        }) + PANEL_TO_TOTAL@ + gigabytes(total_bytes(view.held@))).is_prefix_of(render_html(view)),
        total_bytes(view.held@.push(more)) == total_bytes(view.held@) + more.bytes,
        total_bytes(Seq::<ModelHere>::empty()) == 0,
{
    let head = PANEL_TO_COUNT@ + decimal(view.held@.len()) + PANEL_TO_WORD@ + (if view.held@.len() == 1 {
        "model"@
    } else {
        "models"@
    }) + PANEL_TO_TOTAL@ + gigabytes(total_bytes(view.held@));
    let r = render_html(view);
    assert(r =~= head + (PANEL_TO_RUNNING@ + match view.measuring {
        Some(line) => RUNNING_TO_LINE@ + escaped(line@) + RUNNING_END@,
        None => Seq::empty(),
    } + PANEL_TO_SAID@ + match view.said {
        Some(said) => VERDICT_TO_SAID@ + escaped(said@) + VERDICT_END@,
        None => Seq::empty(),
    } + PANEL_TO_BODY@ + (if view.held@.len() == 0 {
        EMPTY@
    } else {
        rows_html(view.held@, view)
    }) + PANEL_END@));
    assert(head =~= r.subrange(0, head.len() as int));
    assert(view.held@.push(more).drop_last() =~= view.held@);
}

/// Every row, and the models' sizes added up.
fn all_rows(view: &Inventory) -> (r: (String, u64))
    requires
        total_bytes(view.held@) <= u64::MAX,
    ensures
        r.0@ == rows_html(view.held@, *view),
        r.1 as nat == total_bytes(view.held@),
{
    let mut rows = String::new();
    let mut total: u64 = 0;
    let mut i: usize = 0;
    while i < view.held.len()
        invariant
            0 <= i <= view.held@.len(),
            total_bytes(view.held@) <= u64::MAX,
            rows@ == rows_html(view.held@.take(i as int), *view),
            total as nat == total_bytes(view.held@.take(i as int)),
        decreases view.held@.len() - i,
    {
        assert(view.held@.take(i + 1).drop_last() =~= view.held@.take(i as int));
        proof {
            lemma_total_grows(view.held@, i + 1);
        }
        rows.append(row(&view.held[i], view).as_str());
        total = total + view.held[i].bytes;
        i = i + 1;
    }
    assert(view.held@.take(view.held@.len() as int) =~= view.held@);
    (rows, total)
}

fn said_line(said: &Option<String>) -> (r: String)
    ensures
        r@ == match *said {
            Some(s) => VERDICT_TO_SAID@ + escaped(s@) + VERDICT_END@,
            None => Seq::empty(),
        },
{
    match said {
        Some(s) => {
            let mut out = String::from_str(VERDICT_TO_SAID);
            out.append(escape(s.as_str()).as_str());
            out.append(VERDICT_END);
            out
        },
        None => String::new(),
    }
}

fn running_line(measuring: &Option<String>) -> (r: String)
    ensures
        r@ == match *measuring {
            Some(line) => RUNNING_TO_LINE@ + escaped(line@) + RUNNING_END@,
            None => Seq::empty(),
        },
{
    match measuring {
        Some(line) => {
            let mut out = String::from_str(RUNNING_TO_LINE);
            out.append(escape(line.as_str()).as_str());
            out.append(RUNNING_END);
            out
        },
        None => String::new(),
    }
}

/// The Models tab. The models' sizes must add up to a number of bytes that fits in 64 bits.
pub fn render(view: &Inventory) -> (r: String)
    requires
        total_bytes(view.held@) <= u64::MAX,
    ensures
        r@ == render_html(*view),
{
    let (rows, total) = all_rows(view);
    let n = view.held.len();
    let mut out = String::from_str(PANEL_TO_COUNT);
    out.append(decimal_of(n as u64).as_str());
    out.append(PANEL_TO_WORD);
    out.append(if n == 1 { "model" } else { "models" });
    out.append(PANEL_TO_TOTAL);
    out.append(gb(total).as_str());
    out.append(PANEL_TO_RUNNING);
    out.append(running_line(&view.measuring).as_str());
    out.append(PANEL_TO_SAID);
    out.append(said_line(&view.said).as_str());
    out.append(PANEL_TO_BODY);
    if n == 0 {
        out.append(EMPTY);
    } else {
        out.append(rows.as_str());
    }
    out.append(PANEL_END);
    out
}

} // verus!
