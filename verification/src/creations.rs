//! The Creations Workshop, on a machine that is lending its card.
//!
//! A lent machine is the machine an asset would be installed onto: a picture drawn here loads
//! **this** computer's checkpoints and LoRAs. So the shelf that finds and fetches them is here
//! too — what is on the disk first, then what the catalogues offer, each with what it weighs,
//! whether it fits, and what it needs before it can be fetched.

use vstd::prelude::*;
use vstd::string::*;

use crate::page::{escape, escaped, holds_text, stands_at};
use crate::text::{decimal, decimal_of, join, joined_by, same, trim, trimmed, views};
use crate::workshop::{gb, gigabytes};

verus! {

pub const EMPTY_TO_ROOT: &'static str = r#"<section class="card">
  <h2>ON THE SHELVES</h2>
  <p class="quiet">Nothing here yet. What you install lands in <code>"#;

pub const EMPTY_END: &'static str = r#"</code>.</p>
</section>"#;

pub const SHELVES_TO_CHOICES: &'static str = r#"<section class="card">
  <h2>ON THE SHELVES</h2>
  <p class="quiet">
    What is on <b>this</b> machine, read from each file's own bytes and never from its name.
  </p>
  <form method="post" action="/creations/shelved" class="row">
    <select name="shelved">"#;

pub const SHELVES_END: &'static str = r#"</select>
    <button type="submit">SHOW</button>
  </form>"#;

pub const HELD_TO_FILE: &'static str = r#"<li><b>"#;

pub const HELD_TO_KIND: &'static str = r#"</b> <span class="quiet">"#;

pub const HELD_TO_BASE: &'static str = r#" · "#;

pub const HELD_TO_SIZE: &'static str = r#" · "#;

pub const HELD_TO_SHELF: &'static str = r#" · "#;

pub const HELD_END: &'static str = r#"</span></li>"#;

pub const GROUP_TO_HEADING: &'static str = r#"<h3>"#;

pub const GROUP_TO_ROWS: &'static str = r#"</h3><ul class="plain">"#;

pub const GROUP_END: &'static str = r#"</ul>"#;

pub const SEARCH_TO_NARROWED: &'static str = r#"<section class="card">
  <h2>FIND SOMETHING THAT DRAWS</h2>
  <p class="quiet">
    Civitai and Hugging Face, asked together and ranked as one list. What lands here is on
    <b>this</b> machine — the one whose card draws the picture.
  </p>
  "#;

pub const SEARCH_TO_QUERY: &'static str = r#"
  <form method="post" action="/creations/search" class="row">
    <input name="query" value=""#;

pub const SEARCH_TO_KINDS: &'static str = r#"" placeholder="watercolour, pixel art, a name…" autofocus>
    <select name="kind">"#;

pub const SEARCH_TO_ORDERS: &'static str = r#"</select>
    <select name="order">"#;

pub const SEARCH_TO_BASES: &'static str = r#"</select>
    <select name="base">"#;

pub const SEARCH_TO_MEDIA: &'static str = r#"</select>
    <select name="makes">"#;

pub const SEARCH_TO_ADULT: &'static str = r#"</select>
    <label class="chip"><input type="checkbox" name="adult" "#;

pub const SEARCH_TO_ROOT: &'static str = r#"> adult</label>
    <button type="submit">SEARCH</button>
  </form>
  <form method="post" action="/creations/import" class="row">
    <input name="path" placeholder="… or the full path to a file you already have">
    <button type="submit">IMPORT</button>
  </form>
  <p class="quiet">Library: <code>"#;

pub const SEARCH_TO_CARD: &'static str = r#"</code></p>
  "#;

pub const SEARCH_END: &'static str = r#"
</section>"#;

pub const NARROWED: &'static str = r#"<p class="warn">Only Civitai publishes a base model, so while one is chosen it is
    the only site asked.</p>"#;

pub const CARD_TO_TEXT: &'static str = r#"<p class="quiet">This machine: "#;

pub const CARD_END: &'static str = r#"</p>"#;

pub const WARN_TO_TEXT: &'static str = r#"<p class="warn">"#;

pub const WARN_END: &'static str = r#"</p>"#;

pub const NOTE_TO_TEXT: &'static str = r#"<p class="note">"#;

pub const NOTE_END: &'static str = r#"</p>"#;

pub const FETCH_TO_NAMED: &'static str = r#"<section class="card">
  <p><b>"#;

pub const FETCH_TO_ARRIVED: &'static str = r#"</b> — "#;

pub const FETCH_TO_OF: &'static str = r#""#;

pub const FETCH_TO_BAR: &'static str = r#"</p>
  "#;

pub const FETCH_END: &'static str = r#"
</section>"#;

pub const BAR_TO_TOTAL: &'static str = r#"<progress max=""#;

pub const BAR_TO_DONE: &'static str = r#"" value=""#;

pub const BAR_END: &'static str = r#""></progress>"#;

pub const NO_BAR: &'static str = r#"<progress></progress>"#;

pub const NOTHING_MATCHED: &'static str = r#"<p class="quiet">Nothing matched. Both sites answered.</p>"#;

pub const NOTHING_MAKES_THAT: &'static str = r#"<p class="quiet">Nothing that came back makes that. What a site did not place is
            still shown, so this is what both of them said.</p>"#;

pub const GRID: &'static str = r#"<div class="grid">"#;

pub const ASSET_TO_SHOT: &'static str = r#"<div class="card">
  "#;

pub const ASSET_TO_NAME: &'static str = r#"
  <div class="row between"><b>"#;

pub const ASSET_TO_FROM: &'static str = r#"</b><span class="quiet">"#;

pub const ASSET_TO_KIND: &'static str = r#"</span></div>
  <p class="quiet">"#;

pub const ASSET_TO_BASE: &'static str = r#" · "#;

pub const ASSET_TO_FAMILY: &'static str = r#""#;

pub const ASSET_TO_SIZE: &'static str = r#" · "#;

pub const ASSET_TO_FITS: &'static str = r#""#;

pub const ASSET_TO_DOWNLOADS: &'static str = r#" · "#;

pub const ASSET_TO_BY: &'static str = r#" downloads"#;

pub const ASSET_TO_UNPLACED: &'static str = r#"</p>
  "#;

pub const ASSET_TO_TRIGGERS: &'static str = r#"
  "#;

pub const ASSET_TO_PAGE: &'static str = r#"
  <div class="row">
    <a class="btn" href=""#;

pub const ASSET_TO_SOURCE: &'static str = r#"" target="_blank" rel="noreferrer">SOURCE</a>
    <form method="post" action="/creations/install" class="row">
      <input type="hidden" name="source" value=""#;

pub const ASSET_TO_VERSIONS: &'static str = r#"">
      "#;

pub const ASSET_TO_ACTION: &'static str = r#"
      <button type="submit">"#;

pub const ASSET_END: &'static str = r#"</button>
    </form>
  </div>
</div>"#;

pub const SHOT_TO_TOKEN: &'static str = r#"<img class="shot" loading="lazy" alt="" src="/preview/"#;

pub const SHOT_END: &'static str = r#"">"#;

pub const UNPLACED_TO_SOURCE: &'static str = r#"<p class="warn">"#;

pub const UNPLACED_END: &'static str = r#" did not say what this makes — shown under every medium
                    rather than hidden from the right one.</p>"#;

pub const TRIGGERS_TO_WORDS: &'static str = r#"<p class="quiet">Needs in a prompt: "#;

pub const TRIGGERS_END: &'static str = r#"</p>"#;

pub const VERSIONS_TO_OPTIONS: &'static str = r#"<select name="id">"#;

pub const VERSIONS_END: &'static str = r#"</select>"#;

pub const VERSION_TO_ID: &'static str = r#"<option value=""#;

pub const VERSION_TO_NAME: &'static str = r#"">"#;

pub const VERSION_TO_BASE: &'static str = r#" · "#;

pub const VERSION_TO_SIZE: &'static str = r#" · "#;

pub const VERSION_END: &'static str = r#"</option>"#;

pub const ONE_VERSION_TO_ID: &'static str = r#"<input type="hidden" name="id" value=""#;

pub const ONE_VERSION_END: &'static str = r#"">"#;

pub const PAGES_TO_PAGE: &'static str = r#"<div class="pages">
  <span class="quiet">PAGE "#;

pub const PAGES_TO_NEXT: &'static str = r#"</span>
  "#;

pub const PAGES_END: &'static str = r#"
</div>"#;

pub const NEXT_PAGE: &'static str = r#"<form method="post" action="/creations/more"><button type="submit">NEXT →</button></form>"#;

pub const OPTION_TO_VALUE: &'static str = r#"<option value=""#;

pub const OPTION_TO_ON: &'static str = r#"""#;

pub const OPTION_TO_LABEL: &'static str = r#">"#;

pub const OPTION_END: &'static str = r#"</option>"#;



/// The two catalogues.
#[derive(Debug, Clone, Copy, PartialEq, Eq, Structural)]
pub enum Source {
    Civitai,
    HuggingFace,
}

/// A catalogue's id, as a form names it.
pub open spec fn source_id_of(s: Source) -> Seq<char> {
    match s {
        Source::Civitai => "civitai"@,
        Source::HuggingFace => "huggingface"@,
    }
}

/// A catalogue's name, as a person reads it.
pub open spec fn source_name_of(s: Source) -> Seq<char> {
    match s {
        Source::Civitai => "Civitai"@,
        Source::HuggingFace => "Hugging Face"@,
    }
}

impl Source {
    /// The id a form names this catalogue by.
    pub fn id(&self) -> (r: &'static str)
        ensures
            r@ == source_id_of(*self),
    {
        match self {
            Source::Civitai => "civitai",
            Source::HuggingFace => "huggingface",
        }
    }

    /// What a person calls this catalogue.
    pub fn name(&self) -> (r: &'static str)
        ensures
            r@ == source_name_of(*self),
    {
        match self {
            Source::Civitai => "Civitai",
            Source::HuggingFace => "Hugging Face",
        }
    }
}

/// Which catalogue a form named, in either spelling; nothing for a name that is neither.
pub open spec fn catalogue_named_of(said: Seq<char>) -> Option<Source> {
    if said == "civitai"@ || said == "Civitai"@ {
        Some(Source::Civitai)
    } else if said == "huggingface"@ || said == "Hugging Face"@ {
        Some(Source::HuggingFace)
    } else {
        None
    }
}

/// Which catalogue a form named.
pub fn catalogue_named(said: &str) -> (r: Option<Source>)
    ensures
        r == catalogue_named_of(said@),
{
    if same(said, "civitai") || same(said, "Civitai") {
        Some(Source::Civitai)
    } else if same(said, "huggingface") || same(said, "Hugging Face") {
        Some(Source::HuggingFace)
    } else {
        None
    }
}

/// What kind of asset a search asks for.
#[derive(Debug, Clone, Copy, PartialEq, Eq, Structural)]
pub enum Kind {
    Checkpoint,
    Lora,
    Vae,
    ControlNet,
    Embedding,
}

/// The kind a form's value names; anything else asks for every kind.
pub open spec fn kind_named_of(said: Seq<char>) -> Option<Kind> {
    if said == "checkpoint"@ {
        Some(Kind::Checkpoint)
    } else if said == "lora"@ {
        Some(Kind::Lora)
    } else if said == "vae"@ {
        Some(Kind::Vae)
    } else if said == "controlnet"@ {
        Some(Kind::ControlNet)
    } else if said == "embedding"@ {
        Some(Kind::Embedding)
    } else {
        None
    }
}

/// The kind a form's value names.
pub fn kind_named(said: &str) -> (r: Option<Kind>)
    ensures
        r == kind_named_of(said@),
{
    if same(said, "checkpoint") {
        Some(Kind::Checkpoint)
    } else if same(said, "lora") {
        Some(Kind::Lora)
    } else if same(said, "vae") {
        Some(Kind::Vae)
    } else if same(said, "controlnet") {
        Some(Kind::ControlNet)
    } else if same(said, "embedding") {
        Some(Kind::Embedding)
    } else {
        None
    }
}

/// Pairs of strings, as text.
pub open spec fn pair_views(v: Seq<(String, String)>) -> Seq<(Seq<char>, Seq<char>)> {
    v.map_values(|p: (String, String)| (p.0@, p.1@))
}

/// One `<select>`'s worth of options, with the chosen one marked.
pub open spec fn options_html(all: Seq<(Seq<char>, Seq<char>)>, chosen: Seq<char>) -> Seq<char>
    decreases all.len(),
{
    if all.len() == 0 {
        Seq::empty()
    } else {
        let (value, label) = all.last();
        options_html(all.drop_last(), chosen) + OPTION_TO_VALUE@ + value + OPTION_TO_ON@ + (if value
            == chosen {
            " selected"@
        } else {
            Seq::empty()
        }) + OPTION_TO_LABEL@ + label + OPTION_END@
    }
}

/// One `<select>`'s worth of options, with the chosen one marked.
pub fn options(all: &Vec<(String, String)>, chosen: &str) -> (r: String)
    ensures
        r@ == options_html(pair_views(all@), chosen@),
{
    let mut out = String::new();
    let mut i: usize = 0;
    while i < all.len()
        invariant
            0 <= i <= all@.len(),
            out@ == options_html(pair_views(all@.take(i as int)), chosen@),
        decreases all@.len() - i,
    {
        assert(pair_views(all@.take(i + 1)).drop_last() =~= pair_views(all@.take(i as int)));
        assert(pair_views(all@.take(i + 1)).last() == (all@[i as int].0@, all@[i as int].1@));
        out.append(OPTION_TO_VALUE);
        out.append(all[i].0.as_str());
        out.append(OPTION_TO_ON);
        if same(all[i].0.as_str(), chosen) {
            out.append(" selected");
        }
        out.append(OPTION_TO_LABEL);
        out.append(all[i].1.as_str());
        out.append(OPTION_END);
        i = i + 1;
    }
    assert(all@.take(all@.len() as int) =~= all@);
    out
}

fn pair(value: &str, label: &str) -> (r: (String, String))
    ensures
        r.0@ == value@,
        r.1@ == label@,
{
    (value.to_string(), label.to_string())
}

/// What a search can ask for, as the kind menu offers it.
pub open spec fn kind_choices() -> Seq<(Seq<char>, Seq<char>)> {
    seq![
        ("lora"@, "LoRAs"@),
        ("checkpoint"@, "Models"@),
        ("vae"@, "VAEs"@),
        ("controlnet"@, "ControlNets"@),
        ("embedding"@, "Embeddings"@),
        (""@, "Everything"@),
    ]
}

/// The kind menu, with the chosen kind marked.
pub fn kinds(chosen: &str) -> (r: String)
    ensures
        r@ == options_html(kind_choices(), chosen@),
{
    let all = vec![
        pair("lora", "LoRAs"),
        pair("checkpoint", "Models"),
        pair("vae", "VAEs"),
        pair("controlnet", "ControlNets"),
        pair("embedding", "Embeddings"),
        pair("", "Everything"),
    ];
    assert(pair_views(all@) =~= kind_choices());
    options(&all, chosen)
}

/// A file's size, the way a download page says it: gigabytes to one place, whole megabytes,
/// whole kilobytes — and a size nobody stated is said to be unstated rather than zero.
pub open spec fn weighed_as(bytes: u64) -> Seq<char> {
    if bytes >= 1_000_000_000 {
        gigabytes(bytes as nat)
    } else if bytes >= 1_000_000 {
        decimal((bytes / 1_000_000) as nat) + " MB"@
    } else if bytes == 0 {
        "size not stated"@
    } else {
        decimal((bytes / 1_000) as nat) + " KB"@
    }
}

/// **A size nobody stated is not zero.** A file of no stated size says so; any other is said in
/// kilobytes below a megabyte, whole megabytes below a gigabyte, and gigabytes from there.
pub proof fn an_unstated_size_is_not_zero(bytes: u64)
    ensures
        weighed_as(0) == "size not stated"@,
        0 < bytes < 1_000_000 ==> weighed_as(bytes) == decimal((bytes / 1_000) as nat) + " KB"@,
        1_000_000 <= bytes < 1_000_000_000 ==> weighed_as(bytes) == decimal((bytes / 1_000_000) as nat) + " MB"@,
        1_000_000_000 <= bytes ==> weighed_as(bytes) == gigabytes(bytes as nat),
{
}

/// A file's size, the way somebody reads one.
pub fn weigh(bytes: u64) -> (r: String)
    ensures
        r@ == weighed_as(bytes),
{
    if bytes >= 1_000_000_000 {
        gb(bytes)
    } else if bytes >= 1_000_000 {
        let mut out = decimal_of(bytes / 1_000_000);
        out.append(" MB");
        out
    } else if bytes == 0 {
        String::from_str("size not stated")
    } else {
        let mut out = decimal_of(bytes / 1_000);
        out.append(" KB");
        out
    }
}


/// One file on the shelves: which shelf, its name, what kind of thing it is, its base model,
/// its size, and what it makes where its own bytes said.
pub struct Held {
    pub shelf: String,
    pub file: String,
    pub kind: String,
    pub base: String,
    pub bytes: u64,
    /// `picture`, `video`, `sound`, `model` or `any`; nothing where the bytes could not say.
    pub medium: Option<String>,
}

/// Whether a file belongs under a medium's heading: its own medium, or — for the last heading —
/// no medium at all. A file nothing could place is still the user's, and is never dropped.
pub open spec fn belongs(h: Held, medium: Seq<char>) -> bool {
    match h.medium {
        Some(it) => it@ == medium,
        None => medium.len() == 0,
    }
}

/// One file on the shelves, as a list item.
pub open spec fn held_html(h: Held) -> Seq<char> {
    HELD_TO_FILE@ + escaped(h.file@) + HELD_TO_KIND@ + escaped(h.kind@) + HELD_TO_BASE@ + escaped(
        h.base@,
    ) + HELD_TO_SIZE@ + gigabytes(h.bytes as nat) + HELD_TO_SHELF@ + escaped(h.shelf@) + HELD_END@
}

/// The files under one medium's heading, in shelf order.
pub open spec fn rows_for(held: Seq<Held>, medium: Seq<char>) -> Seq<char>
    decreases held.len(),
{
    if held.len() == 0 {
        Seq::empty()
    } else {
        rows_for(held.drop_last(), medium) + if belongs(held.last(), medium) {
            held_html(held.last())
        } else {
            Seq::empty()
        }
    }
}

/// One medium's heading and its files; nothing at all where it has none, so no heading nobody
/// can fill is drawn.
pub open spec fn group_html(held: Seq<Held>, medium: Seq<char>, heading: Seq<char>) -> Seq<char> {
    let rows = rows_for(held, medium);
    if rows.len() == 0 {
        Seq::empty()
    } else {
        GROUP_TO_HEADING@ + heading + GROUP_TO_ROWS@ + rows + GROUP_END@
    }
}

/// Whether a medium's heading is drawn when `wanted` was chosen: every one when nothing was.
pub open spec fn shown_for(wanted: Seq<char>, medium: Seq<char>) -> bool {
    wanted.len() == 0 || medium == wanted
}

/// One medium's part of the shelves, as `wanted` narrows them.
pub open spec fn medium_html(held: Seq<Held>, wanted: Seq<char>, medium: Seq<char>, heading: Seq<char>) -> Seq<char> {
    if shown_for(wanted, medium) {
        group_html(held, medium, heading)
    } else {
        Seq::empty()
    }
}

/// What the shelves can be narrowed to.
pub open spec fn shelf_choices() -> Seq<(Seq<char>, Seq<char>)> {
    seq![
        (""@, "Everything"@),
        ("picture"@, "Makes a picture"@),
        ("video"@, "Makes a video"@),
        ("sound"@, "Makes a sound"@),
        ("model"@, "Makes a 3D model"@),
        ("any"@, "Used with any medium"@),
    ]
}

/// What is already on this machine, under a heading for each thing it makes, in the order
/// somebody thinks about them, and narrowed to one medium when one is chosen. The last heading
/// holds what nothing could place.
pub open spec fn shelves_html(held: Seq<Held>, root: Seq<char>, wanted: Seq<char>) -> Seq<char> {
    if held.len() == 0 {
        EMPTY_TO_ROOT@ + escaped(root) + EMPTY_END@
    } else {
        SHELVES_TO_CHOICES@ + options_html(shelf_choices(), wanted) + SHELVES_END@ + medium_html(
            held,
            wanted,
            "picture"@,
            "MAKES A PICTURE"@,
        ) + medium_html(held, wanted, "video"@, "MAKES A VIDEO"@) + medium_html(
            held,
            wanted,
            "sound"@,
            "MAKES A SOUND"@,
        ) + medium_html(held, wanted, "model"@, "MAKES A 3D MODEL"@) + medium_html(
            held,
            wanted,
            "any"@,
            "USED WITH ANY MEDIUM"@,
        ) + medium_html(held, wanted, ""@, "EPOCH COULD NOT TELL WHAT THESE MAKE"@)
            + "</section>"@
    }
}

fn group(held: &Vec<Held>, wanted: &str, medium: &str, heading: &str) -> (r: String)
    ensures
        r@ == medium_html(held@, wanted@, medium@, heading@),
{
    if !(wanted.is_empty() || same(medium, wanted)) {
        return String::new();
    }
    let mut rows = String::new();
    let mut i: usize = 0;
    while i < held.len()
        invariant
            0 <= i <= held@.len(),
            rows@ == rows_for(held@.take(i as int), medium@),
        decreases held@.len() - i,
    {
        assert(held@.take(i + 1).drop_last() =~= held@.take(i as int));
        let h = &held[i];
        let mine = match &h.medium {
            Some(it) => same(it.as_str(), medium),
            None => medium.is_empty(),
        };
        if mine {
            rows.append(HELD_TO_FILE);
            rows.append(escape(h.file.as_str()).as_str());
            rows.append(HELD_TO_KIND);
            rows.append(escape(h.kind.as_str()).as_str());
            rows.append(HELD_TO_BASE);
            rows.append(escape(h.base.as_str()).as_str());
            rows.append(HELD_TO_SIZE);
            rows.append(gb(h.bytes).as_str());
            rows.append(HELD_TO_SHELF);
            rows.append(escape(h.shelf.as_str()).as_str());
            rows.append(HELD_END);
        }
        i = i + 1;
    }
    assert(held@.take(held@.len() as int) =~= held@);
    if rows.as_str().is_empty() {
        return String::new();
    }
    let mut out = String::from_str(GROUP_TO_HEADING);
    out.append(heading);
    out.append(GROUP_TO_ROWS);
    out.append(rows.as_str());
    out.append(GROUP_END);
    out
}

/// What is already on this machine, grouped by what it makes. **Grouped rather than filtered**
/// while nothing is chosen — headings hide nothing — and one list once a medium is chosen.
pub fn shelves(held: &Vec<Held>, root: &str, wanted: &str) -> (r: String)
    ensures
        r@ == shelves_html(held@, root@, wanted@),
{
    if held.len() == 0 {
        let mut out = String::from_str(EMPTY_TO_ROOT);
        out.append(escape(root).as_str());
        out.append(EMPTY_END);
        return out;
    }
    let choices = vec![
        pair("", "Everything"),
        pair("picture", "Makes a picture"),
        pair("video", "Makes a video"),
        pair("sound", "Makes a sound"),
        pair("model", "Makes a 3D model"),
        pair("any", "Used with any medium"),
    ];
    assert(pair_views(choices@) =~= shelf_choices());
    let mut out = String::from_str(SHELVES_TO_CHOICES);
    out.append(options(&choices, wanted).as_str());
    out.append(SHELVES_END);
    out.append(group(held, wanted, "picture", "MAKES A PICTURE").as_str());
    out.append(group(held, wanted, "video", "MAKES A VIDEO").as_str());
    out.append(group(held, wanted, "sound", "MAKES A SOUND").as_str());
    out.append(group(held, wanted, "model", "MAKES A 3D MODEL").as_str());
    out.append(group(held, wanted, "any", "USED WITH ANY MEDIUM").as_str());
    out.append(group(held, wanted, "", "EPOCH COULD NOT TELL WHAT THESE MAKE").as_str());
    out.append("</section>");
    out
}


/// Where one catalogue got to, when it has more.
pub struct MoreRow {
    pub source: String,
    pub cursor: String,
}

/// One version of an asset a catalogue publishes.
pub struct Version {
    pub id: String,
    pub name: String,
    pub said_base: String,
    pub bytes: u64,
}

/// One asset a catalogue offers, as the page reads it.
pub struct Asset {
    pub id: String,
    pub name: String,
    pub source: Source,
    /// What kind of thing it is, in words.
    pub kind: String,
    /// The family its base model belongs to, in words, where it is known.
    pub family: Option<String>,
    /// The base model in the site's own words.
    pub said_base: String,
    pub by: Option<String>,
    pub downloads: u64,
    pub adult: bool,
    /// Words it needs in a prompt.
    pub triggers: Vec<String>,
    /// The token this program serves its preview under, where it has one.
    pub preview: Option<String>,
    /// What the site said it makes, where it said.
    pub makes: Option<String>,
    /// The size of its principal file; zero where it has none.
    pub bytes: u64,
    /// What this machine's card says of that size.
    pub fits: Option<bool>,
    /// Whether any of its files is handed over only to an account, and whether this machine
    /// holds a key for its catalogue.
    pub needs_key: bool,
    pub key_held: bool,
    pub versions: Vec<Version>,
    /// Its page on the site.
    pub page: String,
}

/// What the Creations tab is showing right now.
pub struct Shelf {
    /// What was typed, kept so an answer does not empty the field.
    pub query: String,
    /// Which kind was asked for, as the form spells it.
    pub kind: String,
    pub adult: bool,
    /// `most_downloaded` or `newest`.
    pub order: String,
    /// A base model to narrow to, in the site's own words, or nothing.
    pub base: String,
    /// Which medium to narrow the results to, or nothing.
    pub makes: String,
    /// Which medium the shelves list is narrowed to, or nothing.
    pub shelved: String,
    /// The last page of results; nothing before anybody has searched.
    pub found: Option<Vec<Asset>>,
    /// What is downloading: its name, the bytes that have arrived, and the total when the source
    /// stated one.
    pub fetching: Option<(String, u64, Option<u64>)>,
    /// Sources that did not answer, in their own words.
    pub refused: Vec<String>,
    /// Where each source that has more got to.
    pub more: Vec<MoreRow>,
    /// Which page of results is on screen, counting from one.
    pub page: usize,
    /// How the last download ended.
    pub said: Option<String>,
}

impl Default for Shelf {
    /// A tab nobody has used: nothing typed, nothing found, nothing arriving.
    fn default() -> (r: Shelf)
        ensures
            r.query@.len() == 0,
            r.kind@.len() == 0,
            !r.adult,
            r.order@.len() == 0,
            r.base@.len() == 0,
            r.makes@.len() == 0,
            r.shelved@.len() == 0,
            r.found is None,
            r.fetching is None,
            r.refused@.len() == 0,
            r.more@.len() == 0,
            r.page == 0,
            r.said is None,
    {
        Shelf {
            query: String::new(),
            kind: String::new(),
            adult: false,
            order: String::new(),
            base: String::new(),
            makes: String::new(),
            shelved: String::new(),
            found: None,
            fetching: None,
            refused: Vec::new(),
            more: Vec::new(),
            page: 0,
            said: None,
        }
    }
}

/// Whether an asset's preview is drawn: only where it has one and the source did not mark it
/// adult — a picture is a stronger thing to put on screen than a name.
pub open spec fn draws_preview(a: Asset) -> bool {
    a.preview is Some && !a.adult
}

/// Whether an asset's preview is drawn.
pub fn preview_drawn(has_preview: bool, adult: bool) -> (r: bool)
    ensures
        r == (has_preview && !adult),
{
    has_preview && !adult
}

/// A base model in the site's words, or that it stated none.
pub open spec fn base_words(said: Seq<char>) -> Seq<char> {
    if said.len() == 0 {
        "base not stated"@
    } else {
        said
    }
}

/// What fitting says beside a size: nothing where nobody measured, and one that does not fit is
/// still offered — it is their disk and their decision.
pub open spec fn fits_words(bytes: u64, fits: Option<bool>) -> Seq<char> {
    if bytes > 0 {
        match fits {
            Some(true) => " · fits"@,
            Some(false) => " · larger than the free memory"@,
            None => Seq::empty(),
        }
    } else {
        Seq::empty()
    }
}

/// The versions of an asset as options, in order.
pub open spec fn versions_options(vs: Seq<Version>) -> Seq<char>
    decreases vs.len(),
{
    if vs.len() == 0 {
        Seq::empty()
    } else {
        let v = vs.last();
        versions_options(vs.drop_last()) + VERSION_TO_ID@ + escaped(v.id@) + VERSION_TO_NAME@
            + escaped(v.name@) + VERSION_TO_BASE@ + escaped(base_words(v.said_base@))
            + VERSION_TO_SIZE@ + weighed_as(v.bytes) + VERSION_END@
    }
}

/// Which version is fetched: a choice only where there is one to make; one version travels
/// hidden, since a menu with a single entry changes nothing.
pub open spec fn versions_html(a: Asset) -> Seq<char> {
    if a.versions@.len() > 1 {
        VERSIONS_TO_OPTIONS@ + versions_options(a.versions@) + VERSIONS_END@
    } else {
        ONE_VERSION_TO_ID@ + escaped(a.id@) + ONE_VERSION_END@
    }
}

fn versions_block(a: &Asset) -> (r: String)
    ensures
        r@ == versions_html(*a),
{
    if a.versions.len() > 1 {
        let mut all = String::new();
        let mut i: usize = 0;
        while i < a.versions.len()
            invariant
                0 <= i <= a.versions@.len(),
                all@ == versions_options(a.versions@.take(i as int)),
            decreases a.versions@.len() - i,
        {
            assert(a.versions@.take(i + 1).drop_last() =~= a.versions@.take(i as int));
            let v = &a.versions[i];
            all.append(VERSION_TO_ID);
            all.append(escape(v.id.as_str()).as_str());
            all.append(VERSION_TO_NAME);
            all.append(escape(v.name.as_str()).as_str());
            all.append(VERSION_TO_BASE);
            if v.said_base.as_str().is_empty() {
                all.append(escape("base not stated").as_str());
            } else {
                all.append(escape(v.said_base.as_str()).as_str());
            }
            all.append(VERSION_TO_SIZE);
            all.append(weigh(v.bytes).as_str());
            all.append(VERSION_END);
            i = i + 1;
        }
        assert(a.versions@.take(a.versions@.len() as int) =~= a.versions@);
        let mut out = String::from_str(VERSIONS_TO_OPTIONS);
        out.append(all.as_str());
        out.append(VERSIONS_END);
        out
    } else {
        let mut out = String::from_str(ONE_VERSION_TO_ID);
        out.append(escape(a.id.as_str()).as_str());
        out.append(ONE_VERSION_END);
        out
    }
}

/// The top of an asset's card: its picture, name, source, kind, base and family.
pub open spec fn card_name(a: Asset) -> Seq<char> {
    ASSET_TO_SHOT@ + (if draws_preview(a) {
        SHOT_TO_TOKEN@ + a.preview.unwrap()@ + SHOT_END@
    } else {
        Seq::empty()
    }) + ASSET_TO_NAME@ + escaped(a.name@) + ASSET_TO_FROM@ + source_name_of(a.source)
        + ASSET_TO_KIND@ + a.kind@ + ASSET_TO_BASE@ + escaped(base_words(a.said_base@))
        + ASSET_TO_FAMILY@ + match a.family {
        Some(f) => " ("@ + f@ + ")"@,
        None => Seq::empty(),
    }
}

/// Then its size, whether it fits, and how often it was downloaded, by whom.
pub open spec fn card_size(a: Asset) -> Seq<char> {
    ASSET_TO_SIZE@ + weighed_as(a.bytes) + ASSET_TO_FITS@ + fits_words(a.bytes, a.fits)
        + ASSET_TO_DOWNLOADS@ + decimal(a.downloads as nat) + ASSET_TO_BY@ + match a.by {
        Some(who) => " · by "@ + escaped(who@),
        None => Seq::empty(),
    }
}

/// The first half of an asset's card.
pub open spec fn card_head(a: Asset) -> Seq<char> {
    card_name(a) + card_size(a)
}

/// The second half: why an unplaced result is in a narrowed list, what it needs in a prompt,
/// its page, and INSTALL — or, said before it is pressed, that it needs an account this
/// machine does not hold a key for.
pub open spec fn card_tail(a: Asset, wanted: Seq<char>) -> Seq<char> {
    ASSET_TO_UNPLACED@ + (if wanted.len() > 0 && a.makes is None {
        UNPLACED_TO_SOURCE@ + source_name_of(a.source) + UNPLACED_END@
    } else {
        Seq::empty()
    }) + ASSET_TO_TRIGGERS@ + (if a.triggers@.len() == 0 {
        Seq::empty()
    } else {
        TRIGGERS_TO_WORDS@ + escaped(joined_by(views(a.triggers@), ", "@)) + TRIGGERS_END@
    }) + ASSET_TO_PAGE@ + escaped(a.page@) + ASSET_TO_SOURCE@ + source_id_of(a.source)
        + ASSET_TO_VERSIONS@ + versions_html(a) + ASSET_TO_ACTION@ + (if a.needs_key && !a.key_held {
        "NEEDS AN ACCOUNT"@
    } else {
        "INSTALL"@
    }) + ASSET_END@
}

/// **No picture is put on screen for an asset its source marked adult.** Such a card is exactly
/// the card of the same asset with no preview at all; any other asset with a preview shows it.
pub proof fn an_adult_asset_shows_no_picture(a: Asset, wanted: Seq<char>)
    ensures
        a.adult ==> card_name(a) == card_name((Asset { preview: None, ..a })),
        !a.adult && a.preview is Some ==> holds_text(
            card_name(a),
            SHOT_TO_TOKEN@ + a.preview->0@ + SHOT_END@,
        ),
{
    if !a.adult && a.preview is Some {
        let shot = SHOT_TO_TOKEN@ + a.preview->0@ + SHOT_END@;
        let after = ASSET_TO_NAME@ + escaped(a.name@) + ASSET_TO_FROM@ + source_name_of(a.source)
            + ASSET_TO_KIND@ + a.kind@ + ASSET_TO_BASE@ + escaped(base_words(a.said_base@))
            + ASSET_TO_FAMILY@ + match a.family {
            Some(f) => " ("@ + f@ + ")"@,
            None => Seq::empty(),
        };
        assert(card_name(a) =~= ASSET_TO_SHOT@ + shot + after);
        assert((ASSET_TO_SHOT@ + shot + after).subrange(ASSET_TO_SHOT@.len() as int, (ASSET_TO_SHOT@.len() + shot.len()) as int) =~= shot);
        assert(stands_at(card_name(a), shot, ASSET_TO_SHOT@.len() as int));
    }
}

/// **What needs an account says so before it is pressed, and nothing else is kept from the
/// person.** A card offers INSTALL unless its source needs an account whose key this machine
/// does not hold; whether it fits changes nothing about that, since it is their disk and their
/// decision.
pub proof fn an_account_is_said_before_the_press(a: Asset, wanted: Seq<char>, fits: Option<bool>)
    ensures
        holds_text(
            card_tail(a, wanted),
            if a.needs_key && !a.key_held {
                "NEEDS AN ACCOUNT"@
            } else {
                "INSTALL"@
            },
        ),
        card_tail((Asset { fits: fits, ..a }), wanted) == card_tail(a, wanted),
{
    let word = if a.needs_key && !a.key_held {
        "NEEDS AN ACCOUNT"@
    } else {
        "INSTALL"@
    };
    let before = ASSET_TO_UNPLACED@ + (if wanted.len() > 0 && a.makes is None {
        UNPLACED_TO_SOURCE@ + source_name_of(a.source) + UNPLACED_END@
    } else {
        Seq::empty()
    }) + ASSET_TO_TRIGGERS@ + (if a.triggers@.len() == 0 {
        Seq::empty()
    } else {
        TRIGGERS_TO_WORDS@ + escaped(joined_by(views(a.triggers@), ", "@)) + TRIGGERS_END@
    }) + ASSET_TO_PAGE@ + escaped(a.page@) + ASSET_TO_SOURCE@ + source_id_of(a.source)
        + ASSET_TO_VERSIONS@ + versions_html(a) + ASSET_TO_ACTION@;
    let t = card_tail(a, wanted);
    assert(t =~= before + word + ASSET_END@);
    assert((before + word + ASSET_END@).subrange(before.len() as int, (before.len() + word.len()) as int) =~= word);
    assert(stands_at(t, word, before.len() as int));
    let b = Asset { fits: fits, ..a };
    assert(versions_html(b) == versions_html(a));
}

/// One asset's card.
pub open spec fn asset_html(a: Asset, wanted: Seq<char>) -> Seq<char> {
    card_head(a) + card_tail(a, wanted)
}

fn name_of(a: &Asset) -> (r: String)
    ensures
        r@ == card_name(*a),
{
    let mut out = String::from_str(ASSET_TO_SHOT);
    match &a.preview {
        Some(token) => if !a.adult {
            out.append(SHOT_TO_TOKEN);
            out.append(token.as_str());
            out.append(SHOT_END);
        },
        None => {},
    }
    out.append(ASSET_TO_NAME);
    out.append(escape(a.name.as_str()).as_str());
    out.append(ASSET_TO_FROM);
    out.append(a.source.name());
    out.append(ASSET_TO_KIND);
    out.append(a.kind.as_str());
    out.append(ASSET_TO_BASE);
    if a.said_base.as_str().is_empty() {
        out.append(escape("base not stated").as_str());
    } else {
        out.append(escape(a.said_base.as_str()).as_str());
    }
    out.append(ASSET_TO_FAMILY);
    match &a.family {
        Some(f) => {
            out.append(" (");
            out.append(f.as_str());
            out.append(")");
        },
        None => {},
    }
    out
}

fn size_of(a: &Asset) -> (r: String)
    ensures
        r@ == card_size(*a),
{
    let mut out = String::from_str(ASSET_TO_SIZE);
    out.append(weigh(a.bytes).as_str());
    out.append(ASSET_TO_FITS);
    if a.bytes > 0 {
        match a.fits {
            Some(true) => out.append(" · fits"),
            Some(false) => out.append(" · larger than the free memory"),
            None => {},
        }
    }
    out.append(ASSET_TO_DOWNLOADS);
    out.append(decimal_of(a.downloads).as_str());
    out.append(ASSET_TO_BY);
    match &a.by {
        Some(who) => {
            out.append(" · by ");
            out.append(escape(who.as_str()).as_str());
        },
        None => {},
    }
    out
}

fn head_of(a: &Asset) -> (r: String)
    ensures
        r@ == card_head(*a),
{
    let mut out = name_of(a);
    out.append(size_of(a).as_str());
    out
}

fn tail_of(a: &Asset, wanted: &str) -> (r: String)
    ensures
        r@ == card_tail(*a, wanted@),
{
    let mut out = String::from_str(ASSET_TO_UNPLACED);
    if !wanted.is_empty() && a.makes.is_none() {
        out.append(UNPLACED_TO_SOURCE);
        out.append(a.source.name());
        out.append(UNPLACED_END);
    }
    out.append(ASSET_TO_TRIGGERS);
    if a.triggers.len() > 0 {
        out.append(TRIGGERS_TO_WORDS);
        out.append(escape(join(&a.triggers, ", ").as_str()).as_str());
        out.append(TRIGGERS_END);
    }
    out.append(ASSET_TO_PAGE);
    out.append(escape(a.page.as_str()).as_str());
    out.append(ASSET_TO_SOURCE);
    out.append(a.source.id());
    out.append(ASSET_TO_VERSIONS);
    out.append(versions_block(a).as_str());
    out.append(ASSET_TO_ACTION);
    out.append(if a.needs_key && !a.key_held { "NEEDS AN ACCOUNT" } else { "INSTALL" });
    out.append(ASSET_END);
    out
}

fn asset_card(a: &Asset, wanted: &str) -> (r: String)
    ensures
        r@ == asset_html(*a, wanted@),
{
    let mut out = head_of(a);
    out.append(tail_of(a, wanted).as_str());
    out
}


/// A number of bytes as `u64::saturating_mul(100)` leaves it.
pub open spec fn hundredfold(n: u64) -> nat {
    if n as nat * 100 > u64::MAX {
        u64::MAX as nat
    } else {
        n as nat * 100
    }
}

/// What has arrived, and a bar only where there is a total. No total is not zero: it is a
/// source that said nothing about the size, and the honest reading is what has arrived.
pub open spec fn fetching_html(fetching: Option<(String, u64, Option<u64>)>) -> Seq<char> {
    match fetching {
        None => Seq::empty(),
        Some((name, done, total)) => FETCH_TO_NAMED@ + (if trimmed(name@).len() == 0 {
            "Starting"@
        } else {
            escaped(name@)
        }) + FETCH_TO_ARRIVED@ + gigabytes(done as nat) + FETCH_TO_OF@ + match total {
            Some(t) if t > 0 => " of "@ + gigabytes(t as nat) + " · "@ + decimal(hundredfold(done) / t as nat) + "%"@,
            _ => " so far \u{2014} this source did not say how big it is"@,
        } + FETCH_TO_BAR@ + match total {
            Some(t) if t > 0 => BAR_TO_TOTAL@ + decimal(t as nat) + BAR_TO_DONE@ + decimal(done as nat) + BAR_END@,
            _ => NO_BAR@,
        } + FETCH_END@,
    }
}

/// What is arriving right now.
pub fn fetching_block(fetching: &Option<(String, u64, Option<u64>)>) -> (r: String)
    ensures
        r@ == fetching_html(*fetching),
{
    match fetching {
        None => String::new(),
        Some((name, done, total)) => {
            let mut out = String::from_str(FETCH_TO_NAMED);
            if trim(name.as_str()).is_empty() {
                out.append("Starting");
            } else {
                out.append(escape(name.as_str()).as_str());
            }
            out.append(FETCH_TO_ARRIVED);
            out.append(gb(*done).as_str());
            out.append(FETCH_TO_OF);
            match total {
                Some(t) if *t > 0 => {
                    out.append(" of ");
                    out.append(gb(*t).as_str());
                    out.append(" · ");
                    let hundred: u64 = if *done > u64::MAX / 100 {
                        u64::MAX
                    } else {
                        *done * 100
                    };
                    out.append(decimal_of(hundred / *t).as_str());
                    out.append("%");
                },
                _ => out.append(" so far \u{2014} this source did not say how big it is"),
            }
            out.append(FETCH_TO_BAR);
            match total {
                Some(t) if *t > 0 => {
                    out.append(BAR_TO_TOTAL);
                    out.append(decimal_of(*t).as_str());
                    out.append(BAR_TO_DONE);
                    out.append(decimal_of(*done).as_str());
                    out.append(BAR_END);
                },
                _ => out.append(NO_BAR),
            }
            out.append(FETCH_END);
            out
        },
    }
}

/// **The share shown is the share that has arrived.** Where the source said how big the file
/// is, the download in flight reads `· N%` with `N` the whole percent of it that has arrived:
/// never more than a hundred, nothing at the start, a hundred once it is all here, and never
/// less for more having arrived.
pub proof fn the_share_shown_is_what_has_arrived(name: String, done: u64, t: u64, earlier: u64)
    requires
        0 < t,
        done * 100 <= u64::MAX,
    ensures
        earlier <= done ==> earlier * 100 / (t as int) <= done * 100 / (t as int),
        holds_text(fetching_html(Some((name, done, Some(t)))), " · "@ + decimal((done * 100 / (t as int)) as nat) + "%"@),
        done <= t ==> done * 100 / (t as int) <= 100,
        done == 0 ==> holds_text(fetching_html(Some((name, done, Some(t)))), " · 0%"@),
        done == t ==> holds_text(fetching_html(Some((name, done, Some(t)))), " · 100%"@),
{
    let html = fetching_html(Some((name, done, Some(t))));
    let share = " · "@ + decimal((done * 100 / (t as int)) as nat) + "%"@;
    assert(hundredfold(done) == done * 100);
    let before = FETCH_TO_NAMED@ + (if trimmed(name@).len() == 0 {
        "Starting"@
    } else {
        escaped(name@)
    }) + FETCH_TO_ARRIVED@ + gigabytes(done as nat) + FETCH_TO_OF@ + " of "@ + gigabytes(t as nat);
    let after = FETCH_TO_BAR@ + BAR_TO_TOTAL@ + decimal(t as nat) + BAR_TO_DONE@ + decimal(done as nat) + BAR_END@
        + FETCH_END@;
    assert(html =~= before + share + after);
    assert((before + share + after).subrange(before.len() as int, (before.len() + share.len()) as int) =~= share);
    assert(stands_at(html, share, before.len() as int));
    if earlier <= done {
        assert(earlier * 100 / (t as int) <= done * 100 / (t as int)) by (nonlinear_arith)
            requires
                0 < t,
                earlier <= done,
        ;
    }
    if done <= t {
        assert(done * 100 <= t * 100);
        assert(done * 100 / (t as int) <= 100) by (nonlinear_arith)
            requires
                0 < t,
                done <= t,
        ;
    }
    reveal_strlit(" · ");
    reveal_strlit("%");
    if done == 0 {
        reveal_strlit(" · 0%");
        assert(decimal(0) == seq!['0']);
        assert(share =~= " · 0%"@);
    }
    if done == t {
        reveal_strlit(" · 100%");
        assert(done * 100 / (t as int) == 100) by (nonlinear_arith)
            requires
                0 < t,
                done == t,
        ;
        reveal_with_fuel(decimal, 3);
        assert(decimal(100) =~= seq!['1', '0', '0']);
        assert(share =~= " · 100%"@);
    }
}

/// Whether a result stays in a list narrowed to `wanted`: a site that did not say what a thing
/// makes has not said it is not this one, so an unplaced result stays.
pub open spec fn kept_for(a: Asset, wanted: Seq<char>) -> bool {
    wanted.len() == 0 || match a.makes {
        Some(m) => m@ == wanted,
        None => true,
    }
}

/// The cards of the results that stay, in order.
pub open spec fn cards_html(found: Seq<Asset>, wanted: Seq<char>) -> Seq<char>
    decreases found.len(),
{
    if found.len() == 0 {
        Seq::empty()
    } else {
        cards_html(found.drop_last(), wanted) + if kept_for(found.last(), wanted) {
            asset_html(found.last(), wanted)
        } else {
            Seq::empty()
        }
    }
}

/// How many of the results stay.
pub open spec fn kept_count(found: Seq<Asset>, wanted: Seq<char>) -> nat
    decreases found.len(),
{
    if found.len() == 0 {
        0
    } else {
        kept_count(found.drop_last(), wanted) + if kept_for(found.last(), wanted) {
            1nat
        } else {
            0nat
        }
    }
}

/// **Narrowing drops only what it can rule out.** With nothing chosen every result stays; a result
/// whose site did not say what it makes always stays; and one that says it makes something else
/// is the only kind that goes.
pub proof fn narrowing_drops_only_what_it_rules_out(found: Seq<Asset>, wanted: Seq<char>)
    ensures
        wanted.len() == 0 ==> kept_count(found, wanted) == found.len(),
        (forall|i: int| 0 <= i < found.len() ==> (#[trigger] found[i]).makes is None) ==> kept_count(found, wanted)
            == found.len(),
        wanted.len() > 0 && (forall|i: int|
            0 <= i < found.len() ==> ((#[trigger] found[i]).makes matches Some(m) && m@ != wanted)) ==> kept_count(
            found,
            wanted,
        ) == 0,
    decreases found.len(),
{
    if found.len() > 0 {
        narrowing_drops_only_what_it_rules_out(found.drop_last(), wanted);
        let last = found.len() - 1;
        assert(found.last() == found[last]);
        if forall|i: int| 0 <= i < found.len() ==> (#[trigger] found[i]).makes is None {
            assert forall|i: int| 0 <= i < found.drop_last().len() implies (#[trigger] found.drop_last()[i]).makes is None by {
                assert(found.drop_last()[i] == found[i]);
            }
        }
        if wanted.len() > 0 && (forall|i: int|
            0 <= i < found.len() ==> ((#[trigger] found[i]).makes matches Some(m) && m@ != wanted)) {
            assert forall|i: int| 0 <= i < found.drop_last().len() implies ((#[trigger] found.drop_last()[i]).makes matches Some(m) && m@ != wanted) by {
                assert(found.drop_last()[i] == found[i]);
            }
        }
    }
}

/// **A catalogue is asked only what it can answer, and only while it has more.** Before anyone
/// pages, a site is asked whenever no base model was named, and otherwise only if it narrows by
/// base; once paging has started, a site with nowhere left to go is not asked again.
pub proof fn a_catalogue_is_asked_what_it_can_answer(base: Seq<char>, narrows_by_base: bool, has_cursor: bool)
    ensures
        trimmed(base).len() == 0 ==> asked_spec(base, narrows_by_base, false, has_cursor),
        trimmed(base).len() > 0 ==> (asked_spec(base, narrows_by_base, false, has_cursor) == narrows_by_base),
        !asked_spec(base, narrows_by_base, true, false),
        asked_spec(base, narrows_by_base, true, true) == asked_spec(base, narrows_by_base, false, has_cursor),
{
}

/// Which page is on screen and a way to the next; absent, not disabled-looking, when there is
/// nowhere to go.
pub open spec fn pages_html(shelf: Shelf) -> Seq<char> {
    if shelf.page > 1 || shelf.more@.len() > 0 {
        PAGES_TO_PAGE@ + decimal(shelf.page as nat) + PAGES_TO_NEXT@ + (if shelf.more@.len() == 0 {
            Seq::empty()
        } else {
            NEXT_PAGE@
        }) + PAGES_END@
    } else {
        Seq::empty()
    }
}

/// The results. Nothing before anybody searched; *nothing matched* only when both sites
/// answered; and a narrowed list that kept nothing says so rather than looking empty.
pub open spec fn found_html(shelf: Shelf) -> Seq<char> {
    match shelf.found {
        None => Seq::empty(),
        Some(found) => if found@.len() == 0 && shelf.refused@.len() == 0 {
            NOTHING_MATCHED@
        } else if kept_count(found@, trimmed(shelf.makes@)) == 0 {
            NOTHING_MAKES_THAT@
        } else {
            GRID@ + cards_html(found@, trimmed(shelf.makes@)) + "</div>"@ + pages_html(shelf)
        },
    }
}

fn found_block(shelf: &Shelf) -> (r: String)
    ensures
        r@ == found_html(*shelf),
{
    match &shelf.found {
        None => String::new(),
        Some(found) => {
            if found.len() == 0 && shelf.refused.len() == 0 {
                return String::from_str(NOTHING_MATCHED);
            }
            let wanted = trim(shelf.makes.as_str());
            let mut cards = String::new();
            let mut kept: usize = 0;
            let mut i: usize = 0;
            while i < found.len()
                invariant
                    0 <= i <= found@.len(),
                    wanted@ == trimmed(shelf.makes@),
                    cards@ == cards_html(found@.take(i as int), wanted@),
                    kept as nat == kept_count(found@.take(i as int), wanted@),
                    kept <= i,
                decreases found@.len() - i,
            {
                assert(found@.take(i + 1).drop_last() =~= found@.take(i as int));
                let a = &found[i];
                let keep = wanted.is_empty() || match &a.makes {
                    Some(m) => same(m.as_str(), wanted),
                    None => true,
                };
                if keep {
                    cards.append(asset_card(a, wanted).as_str());
                    kept = kept + 1;
                }
                i = i + 1;
            }
            assert(found@.take(found@.len() as int) =~= found@);
            if kept == 0 {
                return String::from_str(NOTHING_MAKES_THAT);
            }
            let mut out = String::from_str(GRID);
            out.append(cards.as_str());
            out.append("</div>");
            if shelf.page > 1 || shelf.more.len() > 0 {
                out.append(PAGES_TO_PAGE);
                out.append(decimal_of(shelf.page as u64).as_str());
                out.append(PAGES_TO_NEXT);
                if shelf.more.len() > 0 {
                    out.append(NEXT_PAGE);
                }
                out.append(PAGES_END);
            }
            out
        },
    }
}


/// The orders both sites genuinely support.
pub open spec fn order_choices() -> Seq<(Seq<char>, Seq<char>)> {
    seq![("most_downloaded"@, "Most downloaded"@), ("newest"@, "Newest"@)]
}

/// What a result can be narrowed to, in what each site said.
pub open spec fn media_choices() -> Seq<(Seq<char>, Seq<char>)> {
    seq![
        (""@, "Anything it makes"@),
        ("picture"@, "Makes a picture"@),
        ("video"@, "Makes a video"@),
        ("sound"@, "Makes a sound"@),
        ("model"@, "Makes a 3D model"@),
    ]
}

/// Any base model, then each one the site publishes, in its own words.
pub open spec fn base_choices(bases: Seq<String>) -> Seq<(Seq<char>, Seq<char>)> {
    seq![(""@, "Any base model"@)] + bases.map_values(|b: String| (b@, b@))
}

/// The search form: what was typed and chosen stays chosen, a base model narrows the search
/// to the one site that publishes one and says so while it does, and this machine's card is
/// named only where it was measured.
pub open spec fn search_html(shelf: Shelf, root: Seq<char>, card: Seq<char>, bases: Seq<String>) -> Seq<char> {
    SEARCH_TO_NARROWED@ + (if trimmed(shelf.base@).len() == 0 {
        Seq::empty()
    } else {
        NARROWED@
    }) + SEARCH_TO_QUERY@ + escaped(shelf.query@) + SEARCH_TO_KINDS@ + options_html(
        kind_choices(),
        shelf.kind@,
    ) + SEARCH_TO_ORDERS@ + options_html(order_choices(), shelf.order@) + SEARCH_TO_BASES@
        + options_html(base_choices(bases), shelf.base@) + SEARCH_TO_MEDIA@ + options_html(
        media_choices(),
        shelf.makes@,
    ) + SEARCH_TO_ADULT@ + (if shelf.adult {
        "checked"@
    } else {
        Seq::empty()
    }) + SEARCH_TO_ROOT@ + escaped(root) + SEARCH_TO_CARD@ + (if card.len() == 0 {
        Seq::empty()
    } else {
        CARD_TO_TEXT@ + escaped(card) + CARD_END@
    }) + SEARCH_END@
}

fn menus(shelf: &Shelf, bases: &Vec<String>) -> (r: (String, String, String))
    ensures
        r.0@ == options_html(order_choices(), shelf.order@),
        r.1@ == options_html(base_choices(bases@), shelf.base@),
        r.2@ == options_html(media_choices(), shelf.makes@),
{
    let orders = vec![pair("most_downloaded", "Most downloaded"), pair("newest", "Newest")];
    assert(pair_views(orders@) =~= order_choices());
    let mut all_bases = vec![pair("", "Any base model")];
    let mut i: usize = 0;
    while i < bases.len()
        invariant
            0 <= i <= bases@.len(),
            pair_views(all_bases@) == seq![(""@, "Any base model"@)] + bases@.take(i as int).map_values(
                |b: String| (b@, b@),
            ),
        decreases bases@.len() - i,
    {
        let b = &bases[i];
        let ghost before = all_bases@;
        all_bases.push((b.clone(), b.clone()));
        assert(pair_views(all_bases@) =~= pair_views(before).push((bases@[i as int]@, bases@[i as int]@)));
        assert(bases@.take(i + 1).map_values(|b: String| (b@, b@)) =~= bases@.take(i as int).map_values(
            |b: String| (b@, b@),
        ).push((bases@[i as int]@, bases@[i as int]@)));
        i = i + 1;
        assert(pair_views(all_bases@) =~= seq![(""@, "Any base model"@)] + bases@.take(
            i as int,
        ).map_values(|b: String| (b@, b@)));
    }
    assert(bases@.take(bases@.len() as int) =~= bases@);
    let media = vec![
        pair("", "Anything it makes"),
        pair("picture", "Makes a picture"),
        pair("video", "Makes a video"),
        pair("sound", "Makes a sound"),
        pair("model", "Makes a 3D model"),
    ];
    assert(pair_views(media@) =~= media_choices());
    (
        options(&orders, shelf.order.as_str()),
        options(&all_bases, shelf.base.as_str()),
        options(&media, shelf.makes.as_str()),
    )
}

fn search_form(shelf: &Shelf, root: &str, card: &str, bases: &Vec<String>) -> (r: String)
    ensures
        r@ == search_html(*shelf, root@, card@, bases@),
{
    let (orders, all_bases, media) = menus(shelf, bases);
    let mut out = String::from_str(SEARCH_TO_NARROWED);
    if !trim(shelf.base.as_str()).is_empty() {
        out.append(NARROWED);
    }
    out.append(SEARCH_TO_QUERY);
    out.append(escape(shelf.query.as_str()).as_str());
    out.append(SEARCH_TO_KINDS);
    out.append(kinds(shelf.kind.as_str()).as_str());
    out.append(SEARCH_TO_ORDERS);
    out.append(orders.as_str());
    out.append(SEARCH_TO_BASES);
    out.append(all_bases.as_str());
    out.append(SEARCH_TO_MEDIA);
    out.append(media.as_str());
    out.append(SEARCH_TO_ADULT);
    if shelf.adult {
        out.append("checked");
    }
    out.append(SEARCH_TO_ROOT);
    out.append(escape(root).as_str());
    out.append(SEARCH_TO_CARD);
    if !card.is_empty() {
        out.append(CARD_TO_TEXT);
        out.append(escape(card).as_str());
        out.append(CARD_END);
    }
    out.append(SEARCH_END);
    out
}

/// The sources that did not answer, in their own words — beside the results, never folded into
/// an empty one — and how the last download ended.
pub open spec fn warnings_html(refused: Seq<String>) -> Seq<char>
    decreases refused.len(),
{
    if refused.len() == 0 {
        Seq::empty()
    } else {
        warnings_html(refused.drop_last()) + WARN_TO_TEXT@ + escaped(refused.last()@) + WARN_END@
    }
}

/// How the last download ended.
pub open spec fn said_html(said: Option<String>) -> Seq<char> {
    match said {
        Some(s) => NOTE_TO_TEXT@ + escaped(s@) + NOTE_END@,
        None => Seq::empty(),
    }
}

fn notes(shelf: &Shelf) -> (r: String)
    ensures
        r@ == warnings_html(shelf.refused@) + said_html(shelf.said),
{
    let mut out = String::new();
    let mut i: usize = 0;
    while i < shelf.refused.len()
        invariant
            0 <= i <= shelf.refused@.len(),
            out@ == warnings_html(shelf.refused@.take(i as int)),
        decreases shelf.refused@.len() - i,
    {
        assert(shelf.refused@.take(i + 1).drop_last() =~= shelf.refused@.take(i as int));
        out.append(WARN_TO_TEXT);
        out.append(escape(shelf.refused[i].as_str()).as_str());
        out.append(WARN_END);
        i = i + 1;
    }
    assert(shelf.refused@.take(shelf.refused@.len() as int) =~= shelf.refused@);
    match &shelf.said {
        Some(said) => {
            out.append(NOTE_TO_TEXT);
            out.append(escape(said.as_str()).as_str());
            out.append(NOTE_END);
        },
        None => {},
    }
    out
}

/// The Creations tab: the search, what is already on the shelves, what the sources said, what
/// is arriving, and the results.
pub open spec fn render_html(
    shelf: Shelf,
    root: Seq<char>,
    card: Seq<char>,
    bases: Seq<String>,
    held: Seq<Held>,
) -> Seq<char> {
    search_html(shelf, root, card, bases) + shelves_html(held, root, trimmed(shelf.shelved@))
        + warnings_html(shelf.refused@) + said_html(shelf.said) + fetching_html(shelf.fetching)
        + found_html(shelf)
}

/// The Creations tab. `root` is where the library is, `card` this machine's card in words (empty
/// where none was measured), `bases` the base models the site publishes, and `held` every file
/// already on the shelves.
pub fn render(
    shelf: &Shelf,
    root: &str,
    card: &str,
    bases: &Vec<String>,
    held: &Vec<Held>,
) -> (r: String)
    ensures
        r@ == render_html(*shelf, root@, card@, bases@, held@),
{
    let mut out = search_form(shelf, root, card, bases);
    out.append(shelves(held, root, trim(shelf.shelved.as_str())).as_str());
    out.append(notes(shelf).as_str());
    out.append(fetching_block(&shelf.fetching).as_str());
    out.append(found_block(shelf).as_str());
    out
}


/// Whether a catalogue is asked this time: only one that can answer the question put — a base
/// model narrows to the site that publishes one — and, once paging has started, only one that
/// still has somewhere to go, so a finished site does not put its first page back on screen.
pub open spec fn asked_spec(base: Seq<char>, narrows_by_base: bool, paging: bool, has_cursor: bool) -> bool {
    (trimmed(base).len() == 0 || narrows_by_base) && (!paging || has_cursor)
}

/// Whether a catalogue is asked this time.
pub fn asked(base: &str, narrows_by_base: bool, paging: bool, has_cursor: bool) -> (r: bool)
    ensures
        r == asked_spec(base@, narrows_by_base, paging, has_cursor),
{
    (trim(base).is_empty() || narrows_by_base) && (!paging || has_cursor)
}

/// Whether the order asked for is the sites' own newest-first; anything else is most
/// downloaded first.
pub fn newest_first(order: &str) -> (r: bool)
    ensures
        r == (order@ == "newest"@),
{
    same(order, "newest")
}

/// Where index `x` goes in a list ordered most downloaded first: before the first entry with no
/// more downloads than it, so entries with equal counts keep the order they arrived in.
pub open spec fn placed_by(x: int, sorted: Seq<int>, ds: Seq<u64>) -> Seq<int>
    decreases sorted.len(),
{
    if sorted.len() == 0 {
        seq![x]
    } else if ds[x] >= ds[sorted[0]] {
        seq![x] + sorted
    } else {
        seq![sorted[0]] + placed_by(x, sorted.drop_first(), ds)
    }
}

/// The indices from `i` on, most downloaded first, ties in arrival order.
pub open spec fn ranked_from(ds: Seq<u64>, i: int) -> Seq<int>
    decreases ds.len() - i,
{
    if i < 0 || i >= ds.len() {
        Seq::empty()
    } else {
        placed_by(i, ranked_from(ds, i + 1), ds)
    }
}

proof fn lemma_placed_by_at(x: int, s: Seq<int>, ds: Seq<u64>, k: int)
    requires
        0 <= k <= s.len(),
        forall|j: int| 0 <= j < k ==> ds[s[j]] > ds[x],
        k < s.len() ==> ds[s[k]] <= ds[x],
    ensures
        placed_by(x, s, ds) == s.insert(k, x),
    decreases k,
{
    if k == 0 {
        if s.len() == 0 {
            assert(s.insert(0, x) =~= seq![x]);
        } else {
            assert(s.insert(0, x) =~= seq![x] + s);
        }
    } else {
        let t = s.drop_first();
        assert forall|j: int| 0 <= j < k - 1 implies ds[t[j]] > ds[x] by {
            assert(t[j] == s[j + 1]);
        }
        lemma_placed_by_at(x, t, ds, k - 1);
        assert(s.insert(k, x) =~= seq![s[0]] + t.insert(k - 1, x));
    }
}

proof fn lemma_placed_by_within(x: int, s: Seq<int>, ds: Seq<u64>, n: int)
    requires
        0 <= x < n,
        forall|j: int| 0 <= j < s.len() ==> 0 <= #[trigger] s[j] < n,
    ensures
        forall|j: int| 0 <= j < placed_by(x, s, ds).len() ==> 0 <= #[trigger] placed_by(x, s, ds)[j] < n,
        placed_by(x, s, ds).len() == s.len() + 1,
    decreases s.len(),
{
    if s.len() > 0 && ds[x] < ds[s[0]] {
        let t = s.drop_first();
        assert forall|j: int| 0 <= j < t.len() implies 0 <= #[trigger] t[j] < n by {
            assert(t[j] == s[j + 1]);
        }
        lemma_placed_by_within(x, t, ds, n);
    }
}

/// Whether indices are ranked by downloads: each one has more downloads than every index after
/// it, or as many and arrived earlier.
pub open spec fn ranked(r: Seq<int>, ds: Seq<u64>) -> bool {
    forall|a: int, b: int|
        #![trigger r[a], r[b]]
        0 <= a < b < r.len() ==> ds[r[a]] > ds[r[b]] || (ds[r[a]] == ds[r[b]] && r[a] < r[b])
}

/// Whether indices name each of `lo..hi` exactly once.
pub open spec fn each_once(r: Seq<int>, lo: int, hi: int) -> bool {
    &&& r.len() == hi - lo
    &&& forall|a: int| 0 <= a < r.len() ==> lo <= #[trigger] r[a] < hi
    &&& forall|a: int, b: int| #![trigger r[a], r[b]] 0 <= a < b < r.len() ==> r[a] != r[b]
}

proof fn lemma_placed_by_ranks(x: int, s: Seq<int>, ds: Seq<u64>)
    requires
        0 <= x < ds.len(),
        ranked(s, ds),
        forall|a: int| 0 <= a < s.len() ==> x < #[trigger] s[a] < ds.len(),
        forall|a: int, b: int| #![trigger s[a], s[b]] 0 <= a < b < s.len() ==> s[a] != s[b],
    ensures
        ranked(placed_by(x, s, ds), ds),
        placed_by(x, s, ds).len() == s.len() + 1,
        forall|a: int|
            0 <= a < placed_by(x, s, ds).len() ==> #[trigger] placed_by(x, s, ds)[a] == x || s.contains(
                placed_by(x, s, ds)[a],
            ),
        placed_by(x, s, ds).contains(x),
        forall|a: int| 0 <= a < s.len() ==> placed_by(x, s, ds).contains(#[trigger] s[a]),
        forall|a: int, b: int|
            #![trigger placed_by(x, s, ds)[a], placed_by(x, s, ds)[b]]
            0 <= a < b < placed_by(x, s, ds).len() ==> placed_by(x, s, ds)[a] != placed_by(x, s, ds)[b],
    decreases s.len(),
{
    let p = placed_by(x, s, ds);
    if s.len() == 0 {
        assert(p =~= seq![x]);
        assert(p[0] == x);
    } else if ds[x] >= ds[s[0]] {
        assert(p =~= seq![x] + s);
        assert forall|a: int, b: int| 0 <= a < b < p.len() implies ds[p[a]] > ds[p[b]] || (ds[p[a]]
            == ds[p[b]] && p[a] < p[b]) by {
            if a == 0 {
                assert(p[b] == s[b - 1]);
                if b - 1 > 0 {
                    assert(ds[s[0]] > ds[s[b - 1]] || (ds[s[0]] == ds[s[b - 1]] && s[0] < s[b - 1]));
                }
            } else {
                assert(p[a] == s[a - 1] && p[b] == s[b - 1]);
            }
        }
        assert forall|a: int| 0 <= a < s.len() implies p.contains(#[trigger] s[a]) by {
            assert(p[a + 1] == s[a]);
        }
        assert(p[0] == x);
        assert forall|a: int| 0 <= a < p.len() implies #[trigger] p[a] == x || s.contains(p[a]) by {
            if a > 0 {
                assert(p[a] == s[a - 1]);
            }
        }
        assert forall|a: int, b: int| 0 <= a < b < p.len() implies p[a] != p[b] by {
            if a == 0 {
                assert(p[b] == s[b - 1]);
            } else {
                assert(p[a] == s[a - 1] && p[b] == s[b - 1]);
            }
        }
    } else {
        let t = s.drop_first();
        assert forall|a: int, b: int| 0 <= a < b < t.len() implies ds[t[a]] > ds[t[b]] || (ds[t[a]]
            == ds[t[b]] && t[a] < t[b]) by {
            assert(t[a] == s[a + 1] && t[b] == s[b + 1]);
        }
        assert forall|a: int| 0 <= a < t.len() implies x < #[trigger] t[a] < ds.len() by {
            assert(t[a] == s[a + 1]);
        }
        assert forall|a: int, b: int| 0 <= a < b < t.len() implies t[a] != t[b] by {
            assert(t[a] == s[a + 1] && t[b] == s[b + 1]);
        }
        lemma_placed_by_ranks(x, t, ds);
        let q = placed_by(x, t, ds);
        assert(p =~= seq![s[0]] + q);
        assert forall|a: int| 1 <= a < p.len() implies #[trigger] p[a] == x || t.contains(p[a]) by {
            assert(p[a] == q[a - 1]);
        }
        assert forall|a: int, b: int| 0 <= a < b < p.len() implies ds[p[a]] > ds[p[b]] || (ds[p[a]]
            == ds[p[b]] && p[a] < p[b]) by {
            if a == 0 {
                assert(p[b] == q[b - 1]);
                if q[b - 1] != x {
                    assert(t.contains(q[b - 1]));
                    let j = choose|j: int| 0 <= j < t.len() && t[j] == q[b - 1];
                    assert(t[j] == s[j + 1]);
                    assert(ds[s[0]] > ds[s[j + 1]] || (ds[s[0]] == ds[s[j + 1]] && s[0] < s[j + 1]));
                }
            } else {
                assert(p[a] == q[a - 1] && p[b] == q[b - 1]);
            }
        }
        assert forall|a: int| 0 <= a < p.len() implies #[trigger] p[a] == x || s.contains(p[a]) by {
            if a == 0 {
                assert(s[0] == p[0]);
            } else {
                assert(p[a] == q[a - 1]);
                if p[a] != x {
                    let j = choose|j: int| 0 <= j < t.len() && t[j] == p[a];
                    assert(s[j + 1] == p[a]);
                }
            }
        }
        assert(q.contains(x));
        let jx = choose|j: int| 0 <= j < q.len() && q[j] == x;
        assert(p[jx + 1] == x);
        assert forall|a: int| 0 <= a < s.len() implies p.contains(#[trigger] s[a]) by {
            if a == 0 {
                assert(p[0] == s[0]);
            } else {
                assert(t[a - 1] == s[a]);
                assert(q.contains(t[a - 1]));
                let j = choose|j: int| 0 <= j < q.len() && q[j] == t[a - 1];
                assert(p[j + 1] == s[a]);
            }
        }
        assert forall|a: int, b: int| 0 <= a < b < p.len() implies p[a] != p[b] by {
            if a == 0 {
                assert(p[b] == q[b - 1]);
                if q[b - 1] != x {
                    let j = choose|j: int| 0 <= j < t.len() && t[j] == q[b - 1];
                    assert(t[j] == s[j + 1]);
                }
            } else {
                assert(p[a] == q[a - 1] && p[b] == q[b - 1]);
            }
        }
    }
}

proof fn lemma_ranked_from(ds: Seq<u64>, i: int)
    requires
        0 <= i <= ds.len(),
    ensures
        ranked(ranked_from(ds, i), ds),
        each_once(ranked_from(ds, i), i, ds.len() as int),
    decreases ds.len() - i,
{
    if i < ds.len() {
        lemma_ranked_from(ds, i + 1);
        let s = ranked_from(ds, i + 1);
        lemma_placed_by_ranks(i, s, ds);
        let p = placed_by(i, s, ds);
        assert forall|a: int| 0 <= a < p.len() implies i <= #[trigger] p[a] < ds.len() by {
            if p[a] != i {
                let j = choose|j: int| 0 <= j < s.len() && s[j] == p[a];
            }
        }
    } else {
        assert(ranked_from(ds, i) =~= Seq::<int>::empty());
    }
}

/// **Most downloaded first, and every result once.** The ranking names each result exactly
/// once, puts more downloads before fewer, and keeps results with the same count in the order
/// the sites gave them.
pub proof fn most_downloaded_comes_first(ds: Seq<u64>)
    ensures
        ranked(ranked_from(ds, 0), ds),
        each_once(ranked_from(ds, 0), 0, ds.len() as int),
{
    lemma_ranked_from(ds, 0);
}

/// The order results are shown in when most downloaded comes first: every index once, the most
/// downloaded first, and results with the same count in the order the sites gave them.
pub fn most_downloaded_first(downloads: &Vec<u64>) -> (r: Vec<usize>)
    ensures
        r@.map_values(|i: usize| i as int) == ranked_from(downloads@, 0),
        ranked(r@.map_values(|i: usize| i as int), downloads@),
        each_once(r@.map_values(|i: usize| i as int), 0, downloads@.len() as int),
{
    proof {
        lemma_ranked_from(downloads@, 0);
    }
    let mut sorted: Vec<usize> = Vec::new();
    let mut i = downloads.len();
    while i > 0
        invariant
            0 <= i <= downloads@.len(),
            sorted@.map_values(|j: usize| j as int) == ranked_from(downloads@, i as int),
            forall|j: int| 0 <= j < sorted@.len() ==> #[trigger] sorted@[j] < downloads@.len(),
        decreases i,
    {
        let x = i - 1;
        let mut k: usize = 0;
        while k < sorted.len() && downloads[sorted[k]] > downloads[x]
            invariant
                0 <= k <= sorted@.len(),
                x < downloads@.len(),
                forall|j: int| 0 <= j < sorted@.len() ==> #[trigger] sorted@[j] < downloads@.len(),
                forall|j: int| 0 <= j < k ==> downloads@[sorted@[j] as int] > downloads@[x as int],
            decreases sorted@.len() - k,
        {
            k = k + 1;
        }
        let ghost before = sorted@.map_values(|j: usize| j as int);
        proof {
            lemma_placed_by_at(x as int, before, downloads@, k as int);
        }
        sorted.insert(k, x);
        assert(sorted@.map_values(|j: usize| j as int) =~= before.insert(k as int, x as int));
        assert forall|j: int| 0 <= j < sorted@.len() implies #[trigger] sorted@[j] < downloads@.len() by {
            if j < k {
            } else if j == k {
            } else {
            }
        }
        i = i - 1;
    }
    sorted
}

/// How a source that did not answer is named beside the results.
pub fn refusal_line(source: &str, why: &str) -> (r: String)
    ensures
        r@ == source@ + ": "@ + why@,
{
    let mut out = source.to_string();
    out.append(": ");
    out.append(why);
    out
}

/// What fetching says once the source no longer lists what was asked for.
pub fn no_longer_has(source: &str, id: &str) -> (r: String)
    ensures
        r@ == source@ + " no longer has "@ + id@ + "."@,
{
    let mut out = source.to_string();
    out.append(" no longer has ");
    out.append(id);
    out.append(".");
    out
}

/// What fetching says of an asset with no file to download.
pub fn nothing_to_fetch() -> (r: String)
    ensures
        r@ == "That has no file to download \u{2014} it may have been withdrawn."@,
{
    String::from_str("That has no file to download \u{2014} it may have been withdrawn.")
}

/// What fetching says, before anything is fetched, of a file the source hands over only to an
/// account.
pub fn needs_an_account(source: &str) -> (r: String)
    ensures
        r@ == source@
            + " hands files over only to an account, and this program has nowhere to keep a credential. Install it from the Host, or fetch it there and copy it across."@,
{
    let mut out = source.to_string();
    out.append(
        " hands files over only to an account, and this program has nowhere to keep a credential. Install it from the Host, or fetch it there and copy it across.",
    );
    out
}

/// What a file that arrived is, read from its own bytes.
pub fn identified(name: &str, kind: &str, family: &str) -> (r: String)
    ensures
        r@ == name@ + " \u{2014} "@ + kind@ + ", "@ + family@,
{
    let mut out = name.to_string();
    out.append(" \u{2014} ");
    out.append(kind);
    out.append(", ");
    out.append(family);
    out
}

/// What a file that arrived and could not be read says.
pub fn unreadable(name: &str, why: &str) -> (r: String)
    ensures
        r@ == name@ + " arrived, and its own bytes could not be read: "@ + why@,
{
    let mut out = name.to_string();
    out.append(" arrived, and its own bytes could not be read: ");
    out.append(why);
    out
}

/// The path a person typed to import a file they already have, trimmed, or that nothing was.
pub fn import_path(typed: &str) -> (r: Result<String, String>)
    ensures
        trimmed(typed@).len() == 0 <==> r is Err,
        r matches Ok(p) ==> p@ == trimmed(typed@),
        r matches Err(why) ==> why@ == "Nothing was typed."@,
{
    let path = trim(typed);
    if path.is_empty() {
        Err(String::from_str("Nothing was typed."))
    } else {
        Ok(path.to_string())
    }
}

/// What an import says of a name already in the library: the file is theirs, and nothing is
/// overwritten.
pub fn already_in_library(name: &str) -> (r: String)
    ensures
        r@ == name@ + " is already in the library."@,
{
    let mut out = name.to_string();
    out.append(" is already in the library.");
    out
}

/// What an import says when the copy failed.
pub fn not_copied(why: &str) -> (r: String)
    ensures
        r@ == "it could not be copied in: "@ + why@,
{
    let mut out = String::from_str("it could not be copied in: ");
    out.append(why);
    out
}

impl Shelf {
    /// A new search, from the form: every control keeps what was chosen, the results start at
    /// their first page, and the last download's sentence is cleared.
    pub fn searched(&mut self, form: &crate::form::Form)
        ensures
            final(self).query@ == crate::form::lookup(form@, "query"@).unwrap_or(Seq::empty()),
            final(self).kind@ == crate::form::lookup(form@, "kind"@).unwrap_or(Seq::empty()),
            final(self).adult == (crate::form::lookup(form@, "adult"@) is Some),
            final(self).order@ == crate::form::lookup(form@, "order"@).unwrap_or(Seq::empty()),
            final(self).base@ == crate::form::lookup(form@, "base"@).unwrap_or(Seq::empty()),
            final(self).makes@ == crate::form::lookup(form@, "makes"@).unwrap_or(Seq::empty()),
            final(self).page == 1,
            final(self).said is None,
            final(self).shelved == old(self).shelved,
            final(self).found == old(self).found,
            final(self).fetching == old(self).fetching,
            final(self).refused == old(self).refused,
            final(self).more == old(self).more,
    {
        proof {
            reveal_strlit("query");
        }
        self.query = form.value("query");
        self.kind = form.value("kind");
        self.adult = form.has("adult");
        self.order = form.value("order");
        self.base = form.value("base");
        self.makes = form.value("makes");
        self.page = 1;
        self.said = None;
    }

    /// Which medium the shelves list is narrowed to, from the form.
    pub fn shelve(&mut self, form: &crate::form::Form)
        ensures
            final(self).shelved@ == crate::form::lookup(form@, "shelved"@).unwrap_or(Seq::empty()),
            *final(self) == (Shelf { shelved: final(self).shelved, ..*old(self) }),
    {
        self.shelved = form.value("shelved");
    }

    /// The next page: what each source still had is taken to be asked, and the page counts on.
    pub fn turn_page(&mut self) -> (r: Vec<MoreRow>)
        requires
            old(self).page < usize::MAX,
        ensures
            r@ == old(self).more@,
            final(self).more@.len() == 0,
            final(self).page == old(self).page + 1,
            *final(self) == (Shelf { more: final(self).more, page: final(self).page, ..*old(self) }),
    {
        let mut more: Vec<MoreRow> = Vec::new();
        std::mem::swap(&mut more, &mut self.more);
        self.page = self.page + 1;
        more
    }

    /// Start reporting a fetch, unless one is already running: two downloads would fight for
    /// one disk and the page has one bar. The bar exists from the press, before a byte arrives.
    pub fn begin_fetching(&mut self) -> (r: bool)
        ensures
            r == (old(self).fetching is None),
            r ==> (final(self).fetching matches Some((name, done, total)) && name@.len() == 0
                && done == 0 && total is None),
            r ==> final(self).said is None,
            !r ==> *final(self) == *old(self),
    {
        if self.fetching.is_some() {
            return false;
        }
        self.fetching = Some((String::new(), 0, None));
        self.said = None;
        true
    }

    /// How far a fetch has got.
    pub fn arriving(&mut self, name: &str, done: u64, total: Option<u64>)
        ensures
            final(self).fetching matches Some((n, d, t)) && n@ == name@ && d == done && t == total,
            *final(self) == (Shelf { fetching: final(self).fetching, ..*old(self) }),
    {
        self.fetching = Some((name.to_string(), done, total));
    }

    /// How often the Creations tab redraws itself: every two seconds while something is
    /// arriving, and never otherwise. The page runs no script, so being drawn again is the only
    /// way it can say a number that changes.
    pub fn refresh(&self) -> (r: Option<u32>)
        ensures
            r == (if self.fetching is Some { Some(2u32) } else { None::<u32> }),
    {
        if self.fetching.is_some() {
            Some(2)
        } else {
            None
        }
    }

    /// A fetch ended, and says how.
    pub fn fetched(&mut self, said: String)
        ensures
            *final(self) == (Shelf { fetching: None, said: Some(said), ..*old(self) }),
    {
        self.fetching = None;
        self.said = Some(said);
    }
}

} // verus!
