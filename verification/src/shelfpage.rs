//! The Models Workshop, as a page.
//!
//! No script: the tabs are links, every action is a form, and the one thing that changes over
//! time — a download in progress — uses `<meta http-equiv="refresh">`. A model larger than this
//! machine's memory can still be pulled: the button says **PULL ANYWAY** and the sentence beside
//! it says what will happen, because the decision belongs to whoever made it. What it will not
//! do is let that happen silently.

use vstd::prelude::*;
use vstd::string::*;

use crate::page::{escape, escaped};
use crate::text::{decimal, decimal_of, join, joined_by, last_index, last_index_of, one_place, one_place_of, same, views};
use crate::workshop::{gb, gigabytes, runs_here, verdict, verdict_said, Machine};

verus! {

pub const PAGE_TO_NOTICE: &'static str = r#"  "#;

pub const PAGE_TO_HARDWARE: &'static str = r#"

  <section class="card">
    <span class="label">This machine</span>
    <p class="quiet">"#;

pub const PAGE_TO_ASKED: &'static str = r#"</p>
    <p class="quiet">
      Every verdict below is measured <b>here</b>. The Host's Workshop measures the Host —
      which is a different computer, and a confident answer about somewhere else is worse
      than none.
    </p>
  </section>

  <section class="card">
    <span class="label">Will it run here?</span>
    <form method="post" action="/weigh">
      <input name="model" value=""#;

pub const PAGE_TO_WEIGHED: &'static str = r#"" placeholder="qwen3.8:9b" autocomplete="off"
             spellcheck="false">
      <button type="submit">WEIGH</button>
    </form>
    <p class="quiet">
      An Ollama name, or <code>hf.co/user/repo</code>. The size comes from the manifest —
      what a pull actually downloads.
    </p>
    "#;

pub const PAGE_TO_FITS: &'static str = r#"
  </section>

  <section class="card">
    <span class="label">What fits on this machine</span>
    <p class="quiet">
      Ordered by downloads, which is Hugging Face's own count — Epoch has no way to measure
      whether a model is <i>good</i>, and a list ordered by something it invented would be a
      gauge nobody can explain with a download button under it. What Epoch measures is whether
      it <b>fits</b>: this card's memory against the real byte count of each quantisation.
    </p>
    <form method="post" action="/fits"><button type="submit">WHAT FITS</button></form>
    "#;

pub const PAGE_TO_QUERY: &'static str = r#"
  </section>

  <section class="card">
    <span class="label">Search Hugging Face</span>
    <form method="post" action="/search">
      <input name="query" value=""#;

pub const PAGE_TO_CHIPS: &'static str = r#"" placeholder="qwen, llama, gemma…" autocomplete="off"
             spellcheck="false">
      "#;

pub const PAGE_TO_FOUND: &'static str = r#"
      <button type="submit">SEARCH</button>
    </form>
    <p class="quiet">
      GGUF only — what Ollama can actually pull. Open a repository to see every quantisation
      it publishes and what each costs <b>here</b>: a repository holds a different size for
      every one of them, and only some of them run on this machine.
    </p>
    "#;

pub const PAGE_TO_SHELF: &'static str = r#"
  </section>

  <section class="card">
    <span class="label">Featured by Ollama</span>
    <p class="quiet">
      A short list Ollama is promoting, not the whole library — and it names models Ollama
      runs in its own cloud, which have nothing to download.
    </p>
    "#;

pub const PAGE_TO_INSTALLED: &'static str = r#"
  </section>

  <section class="card">
    <span class="label">Models here</span>
    "#;

pub const PAGE_END: &'static str = r#"
  </section>
"#;

pub const NOTICE_TO_TEXT: &'static str = r#"<p class="notice">"#;

pub const NOTICE_END: &'static str = r#"</p>"#;

pub const NOTHING_FITS: &'static str = r#"<p class="quiet">Nothing on that list fits this machine's card once room
               for the conversation is kept back.</p>"#;

pub const BOX_TO_HERE: &'static str = r#"<div class="fits__box"#;

pub const BOX_TO_RANK: &'static str = r#"">
      <span class="fits__rank">"#;

pub const BOX_TO_NAME: &'static str = r#"</span>
      <p class="fits__name">"#;

pub const BOX_TO_QUANT: &'static str = r#"</p>
      <p class="quiet">"#;

pub const BOX_TO_SIZE: &'static str = r#""#;

pub const BOX_TO_SPEED: &'static str = r#"</p>
      <p class="quiet">"#;

pub const BOX_TO_ACTION: &'static str = r#"</p>
      "#;

pub const BOX_END: &'static str = r#"
    </div>"#;

pub const ALREADY_TO_WHERE: &'static str = r#"<p class="quiet">already here &middot; "#;

pub const ALREADY_END: &'static str = r#"</p>"#;

pub const DOWNLOAD_TO_PULL: &'static str = r#"<form method="post" action="/pull">
        <input type="hidden" name="model" value=""#;

pub const DOWNLOAD_END: &'static str = r#"">
        <button type="submit">DOWNLOAD</button>
      </form>"#;

pub const BOXES_TO_BOXES: &'static str = r#"<div class="fits">"#;

pub const BOXES_END: &'static str = r#"</div>"#;

pub const CHIP_TO_ON: &'static str = r#"<label class="chip"#;

pub const CHIP_TO_ID: &'static str = r#"">
        <input type="checkbox" name="facet_"#;

pub const CHIP_TO_CHECKED: &'static str = r#"""#;

pub const CHIP_TO_LABEL: &'static str = r#"> "#;

pub const CHIP_END: &'static str = r#"
      </label>"#;

pub const CHIPS_TO_CHIPS: &'static str = r#"<div class="chips">"#;

pub const CHIPS_END: &'static str = r#"</div>"#;

pub const NOTHING_SEARCHED: &'static str = r#"<p class="quiet">Nothing searched yet.</p>"#;

pub const MORE_TO_CURSOR: &'static str = r#"<form method="post" action="/search">
      <input type="hidden" name="cursor" value=""#;

pub const MORE_END: &'static str = r#"">
      <button type="submit">MORE RESULTS</button>
    </form>"#;

pub const RESULTS_TO_ROWS: &'static str = r#"<ul class="offers">"#;

pub const RESULTS_TO_PAGER: &'static str = r#"</ul>
    "#;

pub const RESULTS_TO_COUNT: &'static str = r#"
    <p class="quiet">"#;

pub const RESULTS_TO_ENDING: &'static str = r#" fetched so far"#;

pub const RESULTS_TO_MORE: &'static str = r#"</p>"#;

pub const RESULTS_END: &'static str = r#""#;

pub const RESULT_TO_CLASS: &'static str = r#"<li class=""#;

pub const RESULT_TO_NAME: &'static str = r#"">
      <form method="post" action="/open">
        <input type="hidden" name="repo" value=""#;

pub const RESULT_TO_TITLE: &'static str = r#"">
        <button type="submit" class="link" title=""#;

pub const RESULT_TO_ARROW: &'static str = r#"">"#;

pub const RESULT_TO_LABEL: &'static str = r#""#;

pub const RESULT_TO_FACETS: &'static str = r#"</button>
      </form>
      "#;

pub const RESULT_TO_MARK: &'static str = r#""#;

pub const RESULT_TO_TABLE: &'static str = r#"
      "#;

pub const RESULT_END: &'static str = r#"
    </li>"#;

pub const FACETS_TO_IDS: &'static str = r#"<em class="quiet">"#;

pub const FACETS_END: &'static str = r#"</em>"#;

pub const ALREADY_HERE: &'static str = r#"<em class="quiet">already here</em>"#;

pub const READING: &'static str = r#"<p class="quiet">Reading what it publishes&#8230;</p>"#;

pub const NO_GGUF: &'static str = r#"<p class="quiet">It publishes no GGUF files.</p>"#;

pub const QUANT_TO_PULL: &'static str = r#"<form method="post" action="/weigh" class="qform">
            <input type="hidden" name="model" value=""#;

pub const QUANT_TO_TONE: &'static str = r#"">
            <button type="submit" class="quant quant--"#;

pub const QUANT_TO_WHY: &'static str = r#"" title=""#;

pub const QUANT_TO_TAG: &'static str = r#"">
              "#;

pub const QUANT_TO_QUANT: &'static str = r#"<b>"#;

pub const QUANT_TO_SIZE: &'static str = r#"</b> <span>"#;

pub const QUANT_TO_PARTS: &'static str = r#"</span>"#;

pub const QUANT_END: &'static str = r#"
            </button>
          </form>"#;

pub const TAG_TO_TEXT: &'static str = r#"<i class="qtag">"#;

pub const TAG_END: &'static str = r#"</i>"#;

pub const PARTS_TO_COUNT: &'static str = r#"<em class="qparts">"#;

pub const PARTS_TO_ROUTE: &'static str = r#" files"#;

pub const PARTS_END: &'static str = r#"</em>"#;

pub const QROW_TO_BITS: &'static str = r#"<div class="qrow">
          <span class="qbits">"#;

pub const QROW_TO_QUANTS: &'static str = r#"</span>
          <div class="qlist">"#;

pub const QROW_END: &'static str = r#"</div>
        </div>"#;

pub const QUANTS_TO_ROWS: &'static str = r#"<div class="quants">"#;

pub const QUANTS_TO_FILING: &'static str = r#"<p class="quiet">
      Press one to weigh it. Nothing downloads until then &#8212; the whole point of this tab
      is that a size is measured against <b>this</b> machine first."#;

pub const QUANTS_END: &'static str = r#"
    </p></div>"#;

pub const DEAD_TO_LABEL: &'static str = r#"<span class="pg pg--dead">"#;

pub const DEAD_END: &'static str = r#"</span>"#;

pub const STEP_TO_PAGE: &'static str = r#"<form method="post" action="/page" class="pgf">
        <input type="hidden" name="page" value=""#;

pub const STEP_TO_ON: &'static str = r#"">
        <button type="submit" class="pg"#;

pub const STEP_TO_LABEL: &'static str = r#"">"#;

pub const STEP_END: &'static str = r#"</button>
      </form>"#;

pub const PAGER_TO_BACK: &'static str = r#"<div class="pager">"#;

pub const PAGER_TO_NUMBERS: &'static str = r#""#;

pub const PAGER_TO_NEXT: &'static str = r#""#;

pub const PAGER_END: &'static str = r#"</div>"#;

pub const QUIET_TO_TEXT: &'static str = r#"<p class="quiet">"#;

pub const QUIET_END: &'static str = r#"</p>"#;

pub const OFFER_TO_PULL: &'static str = r#"<li>
      <form method="post" action="/weigh">
        <input type="hidden" name="model" value=""#;

pub const OFFER_TO_TITLE: &'static str = r#"">
        <button type="submit" class="link" title=""#;

pub const OFFER_TO_NAME: &'static str = r#"">"#;

pub const OFFER_TO_MARK: &'static str = r#"</button>
      </form>
      "#;

pub const OFFER_END: &'static str = r#"
    </li>"#;

pub const OFFERS_TO_ROWS: &'static str = r#"<ul class="offers">"#;

pub const OFFERS_END: &'static str = r#"</ul>"#;

pub const DOWNLOADING_TO_MODEL: &'static str = r#"<p class="notice">Downloading <b>"#;

pub const DOWNLOADING_END: &'static str = r#"</b>… this page refreshes itself.</p>"#;

pub const SAVING_TO_WHAT: &'static str = r#"<p class="notice">Saving <b>"#;

pub const SAVING_END: &'static str = r#"</b>… this page refreshes itself.</p>"#;

pub const VERDICT_TO_TONE: &'static str = r#"<p class="verdict">
      <b class="runs runs--"#;

pub const VERDICT_TO_WORD: &'static str = r#"">"#;

pub const VERDICT_TO_NAME: &'static str = r#"</b>
      "#;

pub const VERDICT_TO_SIZE: &'static str = r#" · "#;

pub const VERDICT_TO_EXPLAINED: &'static str = r#"
    </p>
    <p class="quiet">"#;

pub const VERDICT_TO_OLLAMA: &'static str = r#"</p>
    <div class="acts">
      "#;

pub const VERDICT_TO_FILE: &'static str = r#"
      "#;

pub const VERDICT_TO_DESTINATIONS: &'static str = r#"
    </div>
    <p class="quiet">"#;

pub const VERDICT_END: &'static str = r#"</p>"#;

pub const PULL_TO_PULL: &'static str = r#"<form method="post" action="/pull">
        <input type="hidden" name="model" value=""#;

pub const PULL_TO_ACTION: &'static str = r#"">
        <button type="submit">"#;

pub const PULL_END: &'static str = r#"</button>
      </form>"#;

pub const SHARDED: &'static str = r#"<p class="quiet">Ollama will not fetch a sharded GGUF through its registry &#8212; that is its own refusal, not a guess. Save the file instead.</p>"#;

pub const FILE_TO_REPO: &'static str = r#"<form method="post" action="/file">
        <input type="hidden" name="repo" value=""#;

pub const FILE_TO_QUANT: &'static str = r#"">
        <input type="hidden" name="quant" value=""#;

pub const FILE_END: &'static str = r#"">
        <button type="submit" class="quietbtn">SAVE THE FILE</button>
      </form>"#;

pub const NOTHING_INSTALLED: &'static str = r#"<p class="quiet">
      None. Ollama is not running, or nothing has been pulled — weigh something above and
      pull it from here.
    </p>"#;

pub const ITEM_TO_NAME: &'static str = r#"<li>"#;

pub const ITEM_END: &'static str = r#"</li>"#;

pub const INSTALLED_TO_ROWS: &'static str = r#"<ul class="models">"#;

pub const INSTALLED_END: &'static str = r#"</ul>
    <p class="quiet">Everything here is lent to the paired Host.</p>"#;



/// How many results one page shows: a window onto everything fetched, since Hugging Face pages
/// by cursor and there is no way back to an earlier page.
pub const PER_PAGE: usize = 24;

/// One model on offer, as far as this page reads it.
pub struct Offer {
    /// Whether Ollama can fetch it; a sharded GGUF is refused by Ollama's registry.
    pub pullable: bool,
    pub name: String,
    /// What a pull asks for.
    pub pull: String,
    /// Whether Ollama on this machine already has it.
    pub installed: bool,
    /// Its size, once weighed.
    pub bytes: Option<u64>,
    /// What this machine's card says of that size, where there is a card that can be asked.
    pub card: Option<bool>,
    /// What the source says it can do, by facet id.
    pub facets: Vec<String>,
}

/// One quantisation a repository publishes.
pub struct Variant {
    pub pullable: bool,
    pub quant: String,
    pub bytes: u64,
    /// How many files it arrives in.
    pub files: u64,
    pub pull: String,
    /// A label beside it, such as `MTP` for a module published beside the model.
    pub tag: Option<String>,
    /// What this machine's card says of its size.
    pub card: Option<bool>,
}

/// The quantisations of one width.
pub struct Group {
    /// Bits per weight; zero where the name said nothing about width.
    pub bits: u64,
    pub variants: Vec<Variant>,
}

/// One model on the list of what fits here.
pub struct Suited {
    pub rank: u64,
    pub repo: String,
    pub quant: String,
    pub bytes: u64,
    pub pull: String,
    /// Where it already is on this machine, if it is.
    pub here: Option<String>,
    /// Its speed in tenths of a token per second, and where it was measured; an estimate where
    /// nothing measured it.
    pub tenths: Option<u64>,
    pub measured_on: Option<String>,
}

/// Whether this machine can put a GGUF on disk, and who it is signed in as.
pub struct Cli {
    pub installed: bool,
    /// Its version, where it answered.
    pub version: Option<String>,
    /// Where it was found, so its absence elsewhere is something somebody can check.
    pub found_at: Option<String>,
    pub user: Option<String>,
}

/// One facet chip: its id, and whether it is pressed.
pub struct Chip {
    pub id: String,
    pub wanted: bool,
}

/// Everything the Workshop tab shows.
pub struct Workbench {
    /// What Ollama on this machine reports having.
    pub installed: Vec<String>,
    pub machine: Machine,
    /// The last verdict, or the reason there is none.
    pub weighed: Option<Result<Offer, String>>,
    /// What was typed into the weighing field.
    pub asked: String,
    /// What is downloading right now, in the runtime's own words.
    pub pulling: Option<String>,
    /// How the last download ended.
    pub said: Option<String>,
    /// What was typed into the search field.
    pub query: String,
    /// Every facet, and which are pressed.
    pub chips: Vec<Chip>,
    pub found: Vec<Offer>,
    /// Which page of the results is being read.
    pub page: usize,
    /// Which repository is open into its quantisations.
    pub opened: Option<String>,
    /// What that repository publishes, or why it could not be read.
    pub variants: Option<Result<Vec<Group>, String>>,
    /// The cursor for the next page, when there is one.
    pub more: Option<String>,
    /// Ollama's featured list.
    pub shelf: Vec<Offer>,
    pub hf: Cli,
    /// A file being fetched right now.
    pub filing: Option<String>,
    /// What this machine can run, when somebody has asked. `None` is *nobody pressed it*.
    pub fits: Option<Result<Vec<Suited>, String>>,
    /// How the last file download ended.
    pub filed: Option<String>,
}

/// A repository name without its owner: twenty rows of `unsloth/` distinguish nothing.
pub open spec fn shortly_of(repo: Seq<char>) -> Seq<char> {
    match last_index_of(repo, '/') {
        Some(i) => repo.skip(i + 1),
        None => repo,
    }
}

/// A repository name without its owner.
pub fn shortly(repo: &str) -> (r: String)
    ensures
        r@ == shortly_of(repo@),
{
    let v = crate::text::chars_of(repo);
    match last_index(&v, '/') {
        Some(i) => {
            assert(i < v.len());
            assert(v@.subrange(i + 1, v@.len() as int) =~= v@.skip(i + 1));
            crate::text::string_of(&v, i + 1, v.len())
        },
        None => {
            assert(v@.subrange(0, v@.len() as int) =~= v@);
            crate::text::string_of(&v, 0, v.len())
        },
    }
}

/// Whether `s` begins with `p`.
pub open spec fn starts(s: Seq<char>, p: Seq<char>) -> bool {
    s.len() >= p.len() && s.take(p.len() as int) == p
}

fn begins(v: &Vec<char>, p: &str) -> (r: bool)
    ensures
        r == starts(v@, p@),
{
    let w = crate::text::chars_of(p);
    if w.len() > v.len() {
        return false;
    }
    let head = crate::text::string_of(v, 0, w.len());
    assert(v@.subrange(0, w@.len() as int) =~= v@.take(w@.len() as int));
    same(head.as_str(), p)
}

/// A pull string as a repository and a quantisation: `hf.co/unsloth/x:Q4_K_M` is Ollama's
/// spelling, and `hf` takes the two halves apart. A repository path has no colon, so the last one
/// is the one that matters. Nothing for a name that is not on Hugging Face.
pub open spec fn split_of(pull: Seq<char>) -> Option<(Seq<char>, Option<Seq<char>>)> {
    let rest = if starts(pull, "hf.co/"@) {
        Some(pull.skip(6))
    } else if starts(pull, "huggingface.co/"@) {
        Some(pull.skip(15))
    } else {
        None
    };
    match rest {
        None => None,
        Some(r) => match last_index_of(r, ':') {
            Some(i) => Some((r.take(i), Some(r.skip(i + 1)))),
            None => Some((r, None)),
        },
    }
}

/// Where `c` does not occur, it has no last place.
proof fn lemma_nowhere(s: Seq<char>, c: char)
    requires
        forall|i: int| 0 <= i < s.len() ==> s[i] != c,
    ensures
        last_index_of(s, c) is None,
    decreases s.len(),
{
    if s.len() > 0 {
        lemma_nowhere(s.drop_last(), c);
    }
}

/// The last `c` of `x + c + tail`, where `tail` holds none, is the one between them.
proof fn lemma_last_between(x: Seq<char>, c: char, tail: Seq<char>)
    requires
        forall|i: int| 0 <= i < tail.len() ==> tail[i] != c,
    ensures
        last_index_of(x + seq![c] + tail, c) == Some(x.len() as int),
    decreases tail.len(),
{
    let whole = x + seq![c] + tail;
    if tail.len() == 0 {
        assert(whole.last() == c);
    } else {
        assert(whole.last() == tail.last());
        assert(whole.drop_last() =~= x + seq![c] + tail.drop_last());
        lemma_last_between(x, c, tail.drop_last());
    }
}

/// **A pull string comes apart as it was put together.** Ollama's spelling of a Hugging Face
/// repository and a quantisation, under either host name, is read back as that repository and
/// that quantisation; without a quantisation, as the repository alone.
#[verifier::spinoff_prover]
pub proof fn a_pull_string_comes_apart_as_it_was_made(repo: Seq<char>, quant: Seq<char>)
    requires
        forall|i: int| 0 <= i < repo.len() ==> repo[i] != ':',
        forall|i: int| 0 <= i < quant.len() ==> quant[i] != ':',
    ensures
        split_of("hf.co/"@ + repo + ":"@ + quant) == Some((repo, Some(quant))),
        split_of("huggingface.co/"@ + repo + ":"@ + quant) == Some((repo, Some(quant))),
        split_of("hf.co/"@ + repo) == Some((repo, None::<Seq<char>>)),
{
    reveal_strlit("hf.co/");
    reveal_strlit("huggingface.co/");
    reveal_strlit(":");
    let joined = repo + ":"@ + quant;
    assert(last_index_of(joined, ':') == Some(repo.len() as int)) by {
        assert(joined =~= repo + seq![':'] + quant);
        lemma_last_between(repo, ':', quant);
    }
    assert(joined.take(repo.len() as int) =~= repo);
    assert(joined.skip(repo.len() as int + 1) =~= quant);
    assert(split_of("hf.co/"@ + repo + ":"@ + quant) == Some((repo, Some(quant)))) by {
        let a = "hf.co/"@ + repo + ":"@ + quant;
        assert(a =~= "hf.co/"@ + joined);
        assert(a.take(6) =~= "hf.co/"@);
        assert(a.skip(6) =~= joined);
    }
    assert(split_of("huggingface.co/"@ + repo + ":"@ + quant) == Some((repo, Some(quant)))) by {
        let b = "huggingface.co/"@ + repo + ":"@ + quant;
        assert(b =~= "huggingface.co/"@ + joined);
        assert(b[1] != "hf.co/"@[1]);
        assert(!starts(b, "hf.co/"@));
        assert(b.take(15) =~= "huggingface.co/"@);
        assert(b.skip(15) =~= joined);
    }
    assert(split_of("hf.co/"@ + repo) == Some((repo, None::<Seq<char>>))) by {
        let c = "hf.co/"@ + repo;
        assert(c.take(6) =~= "hf.co/"@);
        assert(c.skip(6) =~= repo);
        lemma_nowhere(repo, ':');
    }
}

/// A pull string as a repository and a quantisation.
pub fn split(pull: &str) -> (r: Option<(String, Option<String>)>)
    ensures
        match r {
            None => split_of(pull@) is None,
            Some((repo, quant)) => split_of(pull@) == Some(
                (
                    repo@,
                    match quant {
                        Some(q) => Some(q@),
                        None => None,
                    },
                ),
            ),
        },
{
    let v = crate::text::chars_of(pull);
    proof {
        reveal_strlit("hf.co/");
        reveal_strlit("huggingface.co/");
    }
    let from: usize = if begins(&v, "hf.co/") {
        6
    } else if begins(&v, "huggingface.co/") {
        15
    } else {
        return None;
    };
    let rest = crate::text::slice_of(&v, from, v.len());
    assert(rest@ == pull@.skip(from as int));
    match last_index(&rest, ':') {
        Some(i) => {
            assert(rest@.subrange(0, i as int) =~= rest@.take(i as int));
            assert(rest@.subrange(i + 1, rest@.len() as int) =~= rest@.skip(i + 1));
            Some(
                (
                    crate::text::string_of(&rest, 0, i),
                    Some(crate::text::string_of(&rest, i + 1, rest.len())),
                ),
            )
        },
        None => {
            assert(rest@.subrange(0, rest@.len() as int) =~= rest@);
            Some((crate::text::string_of(&rest, 0, rest.len()), None))
        },
    }
}

/// The memory a card's figures are about, in the words that are true of this machine.
pub open spec fn pool_words(machine: Machine) -> Seq<char> {
    if machine.unified {
        "unified memory"@
    } else {
        "video memory"@
    }
}

/// The parts of the hardware line: the card and what is free of it, or only its name; then the
/// system memory, unless one pool was already said.
pub open spec fn described_parts(m: Machine) -> Seq<Seq<char>> {
    let card: Seq<Seq<char>> = match (m.gpu, m.vram_free, m.vram_total) {
        (Some(gpu), Some(free), Some(total)) => seq![
            gpu@ + " · "@ + gigabytes(free as nat) + " of "@ + gigabytes(total as nat) + " "@
                + pool_words(m) + " free"@,
        ],
        (Some(gpu), _, _) => seq![gpu@],
        (None, _, _) => Seq::empty(),
    };
    let said_already = m.unified && m.vram_total is Some;
    match m.ram_total {
        Some(ram) => if !said_already {
            card.push(gigabytes(ram as nat) + " memory"@)
        } else {
            card
        },
        None => card,
    }
}

/// The hardware in one line, with every absent number simply absent.
pub open spec fn described(m: Machine) -> Seq<char> {
    let parts = described_parts(m);
    if parts.len() == 0 {
        "Hardware could not be read on this machine."@
    } else {
        joined_by(parts, " · "@)
    }
}

/// The hardware in one line. **The words follow the architecture**: one pool is called unified
/// memory and said once, and a machine with no card gets no made-up video share.
pub fn describe(m: &Machine) -> (r: String)
    ensures
        r@ == described(*m),
{
    let mut parts: Vec<String> = Vec::new();
    let pool = if m.unified { "unified memory" } else { "video memory" };
    match (&m.gpu, m.vram_free, m.vram_total) {
        (Some(gpu), Some(free), Some(total)) => {
            let mut line = gpu.clone();
            line.append(" · ");
            line.append(gb(free).as_str());
            line.append(" of ");
            line.append(gb(total).as_str());
            line.append(" ");
            line.append(pool);
            line.append(" free");
            parts.push(line);
        },
        (Some(gpu), _, _) => {
            parts.push(gpu.clone());
        },
        (None, _, _) => {},
    }
    let said_already = m.unified && m.vram_total.is_some();
    match m.ram_total {
        Some(ram) => if !said_already {
            let mut line = gb(ram);
            line.append(" memory");
            parts.push(line);
        },
        None => {},
    }
    assert(views(parts@) =~= described_parts(*m));
    if parts.len() == 0 {
        String::from_str("Hardware could not be read on this machine.")
    } else {
        join(&parts, " · ")
    }
}


/// **The words follow the architecture.** Where a card and both its figures were read, the line
/// starts with the card, what is free of how much, and "unified memory" on a unified machine or
/// "video memory" on any other; one pool is said once, so a unified machine's line ends there.
pub proof fn the_words_follow_the_architecture(m: Machine)
    requires
        m.gpu is Some,
        m.vram_free is Some,
        m.vram_total is Some,
    ensures
        (m.gpu->0@ + " · "@ + gigabytes(m.vram_free->0 as nat) + " of "@ + gigabytes(m.vram_total->0 as nat)
            + " "@ + (if m.unified {
            "unified memory"@
        } else {
            "video memory"@
        }) + " free"@).is_prefix_of(described(m)),
        m.unified ==> described(m) == m.gpu->0@ + " · "@ + gigabytes(m.vram_free->0 as nat) + " of "@
            + gigabytes(m.vram_total->0 as nat) + " "@ + "unified memory"@ + " free"@,
        !m.unified && m.ram_total is Some ==> described(m) == m.gpu->0@ + " · "@ + gigabytes(
            m.vram_free->0 as nat,
        ) + " of "@ + gigabytes(m.vram_total->0 as nat) + " "@ + "video memory"@ + " free"@ + " · "@
            + gigabytes(m.ram_total->0 as nat) + " memory"@,
{
    let card = m.gpu->0@ + " · "@ + gigabytes(m.vram_free->0 as nat) + " of "@ + gigabytes(
        m.vram_total->0 as nat,
    ) + " "@ + (if m.unified {
        "unified memory"@
    } else {
        "video memory"@
    }) + " free"@;
    let parts = described_parts(m);
    assert(parts[0] == card);
    assert(1 <= parts.len() <= 2);
    if parts.len() == 1 {
        assert(described(m) == card);
    } else {
        assert(parts.drop_last().len() == 1);
        assert(joined_by(parts.drop_last(), " · "@) == card);
        assert(described(m) == card + " · "@ + parts.last());
    }
    assert(card =~= described(m).subrange(0, card.len() as int));
}

/// The start of the sentence about one quantisation: its name, and what an `MTP` module is,
/// since the cheapest-looking entry in the row is the one that is not the model at all.
pub open spec fn why_head(v: Variant) -> Seq<char> {
    match v.tag {
        Some(t) => if t@ == "MTP"@ {
            v.quant@ + " - the MTP module, published beside the model rather than a version of it. "@
        } else {
            v.quant@ + " - "@
        },
        None => v.quant@ + " - "@,
    }
}

/// Why one quantisation runs here or does not, in a sentence a tooltip can carry. On one pool
/// nothing spills: what does not fit does not run slowly, it does not load.
pub open spec fn why_of_spec(v: Variant, fits: Option<bool>, m: Machine) -> Seq<char> {
    why_head(v) + match fits {
        None => "this machine's memory could not be read, so nobody can say whether it runs here."@,
        Some(true) => match m.vram_free {
            Some(_) => if m.unified {
                "fits in this machine's free unified memory."@
            } else {
                "fits in this machine's free video memory."@
            },
            None => "fits in this machine's memory."@,
        },
        Some(false) => match (m.vram_free, m.ram_total) {
            (Some(free), _) => if m.unified {
                "larger than the "@ + gigabytes(free as nat)
                    + " of unified memory free - this machine shares one pool with the system, so there is nowhere for the rest to go."@
            } else {
                "larger than the "@ + gigabytes(free as nat)
                    + " of video memory free - it will spill into system memory and run slowly."@
            },
            (None, Some(ram)) => "needs more than this machine's "@ + gigabytes(ram as nat)
                + " of memory."@,
            (None, None) => "larger than this machine can hold."@,
        },
    }
}

/// **Whether a quantisation fits is said of the memory this machine has.** Where the free memory
/// was read, a fit is a fit in free unified memory on a unified machine and in free video memory
/// on any other; and what does not fit has nowhere to go on one pool, where on a card it spills
/// into system memory and runs slowly.
pub proof fn a_fit_is_said_of_this_machines_memory(v: Variant, m: Machine)
    requires
        m.vram_free is Some,
    ensures
        why_of_spec(v, Some(true), m) == why_head(v) + if m.unified {
            "fits in this machine's free unified memory."@
        } else {
            "fits in this machine's free video memory."@
        },
        why_of_spec(v, Some(false), m) == why_head(v) + "larger than the "@ + gigabytes(m.vram_free->0 as nat)
            + if m.unified {
            " of unified memory free - this machine shares one pool with the system, so there is nowhere for the rest to go."@
        } else {
            " of video memory free - it will spill into system memory and run slowly."@
        },
{
    let s = why_of_spec(v, Some(false), m);
    if m.unified {
        assert(s =~= why_head(v) + "larger than the "@ + gigabytes(m.vram_free->0 as nat)
            + " of unified memory free - this machine shares one pool with the system, so there is nowhere for the rest to go."@);
    } else {
        assert(s =~= why_head(v) + "larger than the "@ + gigabytes(m.vram_free->0 as nat)
            + " of video memory free - it will spill into system memory and run slowly."@);
    }
}

/// Why one quantisation runs here or does not.
pub fn why_of(v: &Variant, fits: Option<bool>, m: &Machine) -> (r: String)
    ensures
        r@ == why_of_spec(*v, fits, *m),
{
    let mut out = v.quant.clone();
    let mtp = match &v.tag {
        Some(t) => same(t.as_str(), "MTP"),
        None => false,
    };
    if mtp {
        out.append(" - the MTP module, published beside the model rather than a version of it. ");
    } else {
        out.append(" - ");
    }
    match fits {
        None => out.append(
            "this machine's memory could not be read, so nobody can say whether it runs here.",
        ),
        Some(true) => match m.vram_free {
            Some(_) => if m.unified {
                out.append("fits in this machine's free unified memory.");
            } else {
                out.append("fits in this machine's free video memory.");
            },
            None => out.append("fits in this machine's memory."),
        },
        Some(false) => match (m.vram_free, m.ram_total) {
            (Some(free), _) => {
                out.append("larger than the ");
                out.append(gb(free).as_str());
                if m.unified {
                    out.append(
                        " of unified memory free - this machine shares one pool with the system, so there is nowhere for the rest to go.",
                    );
                } else {
                    out.append(
                        " of video memory free - it will spill into system memory and run slowly.",
                    );
                }
            },
            (None, Some(ram)) => {
                out.append("needs more than this machine's ");
                out.append(gb(ram).as_str());
                out.append(" of memory.");
            },
            (None, None) => out.append("larger than this machine can hold."),
        },
    }
    out
}

/// One step of the pager: a dead label where pressing it could do nothing, or a form that turns
/// to page `to`.
pub open spec fn step_html(to: nat, label: Seq<char>, on: bool, live: bool) -> Seq<char> {
    if !live {
        DEAD_TO_LABEL@ + label + DEAD_END@
    } else {
        STEP_TO_PAGE@ + decimal(to) + STEP_TO_ON@ + (if on {
            " pg--on"@
        } else {
            Seq::empty()
        }) + STEP_TO_LABEL@ + label + STEP_END@
    }
}

fn step(to: usize, label: &str, on: bool, live: bool) -> (r: String)
    ensures
        r@ == step_html(to as nat, label@, on, live),
{
    if !live {
        let mut out = String::from_str(DEAD_TO_LABEL);
        out.append(label);
        out.append(DEAD_END);
        out
    } else {
        let mut out = String::from_str(STEP_TO_PAGE);
        out.append(decimal_of(to as u64).as_str());
        out.append(STEP_TO_ON);
        if on {
            out.append(" pg--on");
        }
        out.append(STEP_TO_LABEL);
        out.append(label);
        out.append(STEP_END);
        out
    }
}

/// The numbered steps of the pager, `1` to `pages`, with the one being read lit and dead.
pub open spec fn numbers_html(page: nat, count: nat) -> Seq<char>
    decreases count,
{
    if count == 0 {
        Seq::empty()
    } else {
        let n = (count - 1) as nat;
        numbers_html(page, n) + step_html(n, decimal(n + 1), n == page, n != page)
    }
}

/// The numbered pager, as forms. Nothing to press when there is one page: a pager over a single
/// page is a control that cannot do anything.
pub open spec fn pager_html(page: nat, pages: nat) -> Seq<char> {
    if pages < 2 {
        Seq::empty()
    } else {
        PAGER_TO_BACK@ + step_html(if page > 0 { (page - 1) as nat } else { 0 }, "&#8249;"@, false, page > 0)
            + PAGER_TO_NUMBERS@ + numbers_html(page, pages) + PAGER_TO_NEXT@ + step_html(
            page + 1,
            "&#8250;"@,
            false,
            page + 1 < pages,
        ) + PAGER_END@
    }
}

/// A step of the pager that nothing can press: a label in an inert span.
pub open spec fn dead_step(label: Seq<char>) -> Seq<char> {
    DEAD_TO_LABEL@ + label + DEAD_END@
}

/// A step of the pager that turns to page `to`: a form posting `page = to`, labelled.
pub open spec fn live_step(to: nat, label: Seq<char>) -> Seq<char> {
    STEP_TO_PAGE@ + decimal(to) + STEP_TO_ON@ + STEP_TO_LABEL@ + label + STEP_END@
}

/// The numbered step for page `n`, counting from zero, while `page` is being read: inert for
/// the page being read, a form for every other; labelled counting from one.
pub open spec fn numbered_step(n: nat, page: nat) -> Seq<char> {
    if n == page {
        dead_step(decimal(n + 1))
    } else {
        live_step(n, decimal(n + 1))
    }
}

/// **The pager offers every other page and nothing past either end.** Nothing at all for one
/// page; otherwise back, then every page in order, then next — where the page being read is
/// inert, back turns to the page before it only when there is one, and next to the page after
/// it only when there is one.
pub proof fn the_pager_offers_only_what_can_be_pressed(page: nat, pages: nat)
    ensures
        pages < 2 ==> pager_html(page, pages) == Seq::<char>::empty(),
        pages >= 2 ==> pager_html(page, pages) == PAGER_TO_BACK@ + (if page > 0 {
            live_step((page - 1) as nat, "&#8249;"@)
        } else {
            dead_step("&#8249;"@)
        }) + PAGER_TO_NUMBERS@ + numbers_html(page, pages) + PAGER_TO_NEXT@ + (if page + 1
            < pages {
            live_step(page + 1, "&#8250;"@)
        } else {
            dead_step("&#8250;"@)
        }) + PAGER_END@,
        forall|count: nat|
            count > 0 ==> #[trigger] numbers_html(page, count) == numbers_html(page, (count - 1) as nat)
                + numbered_step((count - 1) as nat, page),
{
    reveal_strlit("");
    assert(STEP_TO_ON@ + Seq::<char>::empty() =~= STEP_TO_ON@);
}

/// The numbered pager.
pub fn pager_block(page: usize, pages: usize) -> (r: String)
    requires
        page < usize::MAX,
    ensures
        r@ == pager_html(page as nat, pages as nat),
{
    if pages < 2 {
        return String::new();
    }
    let mut numbers = String::new();
    let mut n: usize = 0;
    while n < pages
        invariant
            0 <= n <= pages,
            numbers@ == numbers_html(page as nat, n as nat),
        decreases pages - n,
    {
        let label = decimal_of((n + 1) as u64);
        numbers.append(step(n, label.as_str(), n == page, n != page).as_str());
        n = n + 1;
    }
    let mut out = String::from_str(PAGER_TO_BACK);
    let back = if page > 0 { page - 1 } else { 0 };
    out.append(step(back, "&#8249;", false, page > 0).as_str());
    out.append(PAGER_TO_NUMBERS);
    out.append(numbers.as_str());
    out.append(PAGER_TO_NEXT);
    out.append(step(page + 1, "&#8250;", false, page + 1 < pages).as_str());
    out.append(PAGER_END);
    out
}


/// The colour a verdict is drawn in.
pub open spec fn tone_of(fits: Option<bool>) -> Seq<char> {
    match fits {
        Some(true) => "yes"@,
        Some(false) => "no"@,
        None => "unknown"@,
    }
}

/// One quantisation as a chip: pressing it weighs that exact file. The same rule the verdict
/// panel uses decides its colour, and the sentence why rides on it. Several files is a shard set,
/// which Ollama refuses by name, and that is said on the chip where somebody is choosing.
pub open spec fn quant_html(v: Variant, m: Machine) -> Seq<char> {
    let fits = runs_here(v.bytes, m, v.card);
    QUANT_TO_PULL@ + escaped(v.pull@) + QUANT_TO_TONE@ + tone_of(fits) + QUANT_TO_WHY@ + escaped(
        why_of_spec(v, fits, m),
    ) + QUANT_TO_TAG@ + match v.tag {
        Some(t) => TAG_TO_TEXT@ + escaped(t@) + TAG_END@,
        None => Seq::empty(),
    } + QUANT_TO_QUANT@ + escaped(v.quant@) + QUANT_TO_SIZE@ + gigabytes(v.bytes as nat)
        + QUANT_TO_PARTS@ + (if v.files > 1 {
        PARTS_TO_COUNT@ + decimal(v.files as nat) + PARTS_TO_ROUTE@ + (if v.pullable {
            Seq::empty()
        } else {
            " &#183; not via Ollama"@
        }) + PARTS_END@
    } else {
        Seq::empty()
    }) + QUANT_END@
}

fn quant(v: &Variant, m: &Machine) -> (r: String)
    ensures
        r@ == quant_html(*v, *m),
{
    let fits = crate::workshop::fits(v.bytes, m, v.card);
    let mut out = String::from_str(QUANT_TO_PULL);
    out.append(escape(v.pull.as_str()).as_str());
    out.append(QUANT_TO_TONE);
    match fits {
        Some(true) => out.append("yes"),
        Some(false) => out.append("no"),
        None => out.append("unknown"),
    }
    out.append(QUANT_TO_WHY);
    out.append(escape(why_of(v, fits, m).as_str()).as_str());
    out.append(QUANT_TO_TAG);
    match &v.tag {
        Some(t) => {
            out.append(TAG_TO_TEXT);
            out.append(escape(t.as_str()).as_str());
            out.append(TAG_END);
        },
        None => {},
    }
    out.append(QUANT_TO_QUANT);
    out.append(escape(v.quant.as_str()).as_str());
    out.append(QUANT_TO_SIZE);
    out.append(gb(v.bytes).as_str());
    out.append(QUANT_TO_PARTS);
    if v.files > 1 {
        out.append(PARTS_TO_COUNT);
        out.append(decimal_of(v.files).as_str());
        out.append(PARTS_TO_ROUTE);
        if !v.pullable {
            out.append(" &#183; not via Ollama");
        }
        out.append(PARTS_END);
    }
    out.append(QUANT_END);
    out
}

/// The chips of some quantisations, in order.
pub open spec fn quants_html(vs: Seq<Variant>, m: Machine) -> Seq<char>
    decreases vs.len(),
{
    if vs.len() == 0 {
        Seq::empty()
    } else {
        quants_html(vs.drop_last(), m) + quant_html(vs.last(), m)
    }
}

/// One width's row: `4-bit`, or `other` where the name said nothing about width.
pub open spec fn qrow_html(g: Group, m: Machine) -> Seq<char> {
    QROW_TO_BITS@ + (if g.bits > 0 {
        decimal(g.bits as nat) + "-bit"@
    } else {
        "other"@
    }) + QROW_TO_QUANTS@ + quants_html(g.variants@, m) + QROW_END@
}

fn qrow(g: &Group, m: &Machine) -> (r: String)
    ensures
        r@ == qrow_html(*g, *m),
{
    let mut chips = String::new();
    let mut i: usize = 0;
    while i < g.variants.len()
        invariant
            0 <= i <= g.variants@.len(),
            chips@ == quants_html(g.variants@.take(i as int), *m),
        decreases g.variants@.len() - i,
    {
        assert(g.variants@.take(i + 1).drop_last() =~= g.variants@.take(i as int));
        chips.append(quant(&g.variants[i], m).as_str());
        i = i + 1;
    }
    assert(g.variants@.take(g.variants@.len() as int) =~= g.variants@);
    let mut out = String::from_str(QROW_TO_BITS);
    if g.bits > 0 {
        out.append(decimal_of(g.bits).as_str());
        out.append("-bit");
    } else {
        out.append("other");
    }
    out.append(QROW_TO_QUANTS);
    out.append(chips.as_str());
    out.append(QROW_END);
    out
}

/// The rows of several widths, in order.
pub open spec fn qrows_html(gs: Seq<Group>, m: Machine) -> Seq<char>
    decreases gs.len(),
{
    if gs.len() == 0 {
        Seq::empty()
    } else {
        qrows_html(gs.drop_last(), m) + qrow_html(gs.last(), m)
    }
}

/// Every quantisation a repository publishes, laid out the way its own page lays them out — and
/// beside each the one thing that page cannot say: whether it runs on **this** machine.
pub open spec fn variants_html(read: Option<Result<Vec<Group>, String>>, m: Machine, hf: bool) -> Seq<char> {
    match read {
        None => READING@,
        Some(Err(why)) => NOTICE_TO_TEXT@ + escaped(why@) + NOTICE_END@,
        Some(Ok(groups)) => if groups@.len() == 0 {
            NO_GGUF@
        } else {
            QUANTS_TO_ROWS@ + qrows_html(groups@, m) + QUANTS_TO_FILING@ + (if hf {
                " A weighed one can also be saved as a file, for llama.cpp or LM Studio."@
            } else {
                Seq::empty()
            }) + QUANTS_END@
        },
    }
}

/// Every quantisation a repository publishes, with a verdict on each.
pub fn variants_block(read: &Option<Result<Vec<Group>, String>>, m: &Machine, hf: bool) -> (r: String)
    ensures
        r@ == variants_html(*read, *m, hf),
{
    match read {
        None => String::from_str(READING),
        Some(Err(why)) => {
            let mut out = String::from_str(NOTICE_TO_TEXT);
            out.append(escape(why.as_str()).as_str());
            out.append(NOTICE_END);
            out
        },
        Some(Ok(groups)) => {
            if groups.len() == 0 {
                return String::from_str(NO_GGUF);
            }
            let mut rows = String::new();
            let mut i: usize = 0;
            while i < groups.len()
                invariant
                    0 <= i <= groups@.len(),
                    rows@ == qrows_html(groups@.take(i as int), *m),
                decreases groups@.len() - i,
            {
                assert(groups@.take(i + 1).drop_last() =~= groups@.take(i as int));
                rows.append(qrow(&groups[i], m).as_str());
                i = i + 1;
            }
            assert(groups@.take(groups@.len() as int) =~= groups@);
            let mut out = String::from_str(QUANTS_TO_ROWS);
            out.append(rows.as_str());
            out.append(QUANTS_TO_FILING);
            if hf {
                out.append(" A weighed one can also be saved as a file, for llama.cpp or LM Studio.");
            }
            out.append(QUANTS_END);
            out
        },
    }
}


/// A notice: what something said, escaped.
pub open spec fn notice_html(text: Seq<char>) -> Seq<char> {
    NOTICE_TO_TEXT@ + escaped(text) + NOTICE_END@
}

fn notice(text: &str) -> (r: String)
    ensures
        r@ == notice_html(text@),
{
    let mut out = String::from_str(NOTICE_TO_TEXT);
    out.append(escape(text).as_str());
    out.append(NOTICE_END);
    out
}

/// How fast one model on the list runs here: measured says where, an estimate says so, and a
/// machine that has timed nothing claims no speed for anything.
pub open spec fn suited_speed(one: Suited) -> Seq<char> {
    match (one.tenths, one.measured_on) {
        (Some(t), Some(rt)) => one_place(t as nat) + " tok/s, measured on "@ + escaped(rt@),
        (Some(t), None) => "about "@ + one_place(t as nat) + " tok/s, estimated"@,
        _ => "no speed measured here yet"@,
    }
}

/// One model on the list of what fits. One already on this machine is marked rather than
/// offered for download again.
pub open spec fn box_html(one: Suited) -> Seq<char> {
    BOX_TO_HERE@ + (if one.here is Some {
        " on"@
    } else {
        Seq::empty()
    }) + BOX_TO_RANK@ + decimal(one.rank as nat) + BOX_TO_NAME@ + escaped(shortly_of(one.repo@))
        + BOX_TO_QUANT@ + (if one.quant@.len() == 0 {
        Seq::empty()
    } else {
        escaped(one.quant@) + " &middot; "@
    }) + BOX_TO_SIZE@ + escaped(gigabytes(one.bytes as nat)) + BOX_TO_SPEED@ + suited_speed(one)
        + BOX_TO_ACTION@ + box_action(one) + BOX_END@
}

fn speed_of(one: &Suited) -> (r: String)
    ensures
        r@ == suited_speed(*one),
{
    let mut out = String::new();
    match (one.tenths, &one.measured_on) {
        (Some(t), Some(rt)) => {
            out.append(one_place_of(t).as_str());
            out.append(" tok/s, measured on ");
            out.append(escape(rt.as_str()).as_str());
        },
        (Some(t), None) => {
            out.append("about ");
            out.append(one_place_of(t).as_str());
            out.append(" tok/s, estimated");
        },
        _ => out.append("no speed measured here yet"),
    }
    out
}

/// What a box offers: where it already is, or a download.
pub open spec fn box_action(one: Suited) -> Seq<char> {
    match one.here {
        Some(w) => ALREADY_TO_WHERE@ + escaped(w@) + ALREADY_END@,
        None => if one.pull@.len() == 0 {
            Seq::empty()
        } else {
            DOWNLOAD_TO_PULL@ + escaped(one.pull@) + DOWNLOAD_END@
        },
    }
}

fn action_of(one: &Suited) -> (r: String)
    ensures
        r@ == box_action(*one),
{
    let mut out = String::new();
    match &one.here {
        Some(w) => {
            out.append(ALREADY_TO_WHERE);
            out.append(escape(w.as_str()).as_str());
            out.append(ALREADY_END);
        },
        None => if !one.pull.as_str().is_empty() {
            out.append(DOWNLOAD_TO_PULL);
            out.append(escape(one.pull.as_str()).as_str());
            out.append(DOWNLOAD_END);
        },
    }
    out
}

fn one_box(one: &Suited) -> (r: String)
    ensures
        r@ == box_html(*one),
{
    let mut out = String::from_str(BOX_TO_HERE);
    if one.here.is_some() {
        out.append(" on");
    }
    out.append(BOX_TO_RANK);
    out.append(decimal_of(one.rank).as_str());
    out.append(BOX_TO_NAME);
    out.append(escape(shortly(one.repo.as_str()).as_str()).as_str());
    out.append(BOX_TO_QUANT);
    if !one.quant.as_str().is_empty() {
        out.append(escape(one.quant.as_str()).as_str());
        out.append(" &middot; ");
    }
    out.append(BOX_TO_SIZE);
    out.append(escape(gb(one.bytes).as_str()).as_str());
    out.append(BOX_TO_SPEED);
    out.append(speed_of(one).as_str());
    out.append(BOX_TO_ACTION);
    out.append(action_of(one).as_str());
    out.append(BOX_END);
    out
}

/// The boxes of several models on the list, in order.
pub open spec fn boxes_html(all: Seq<Suited>) -> Seq<char>
    decreases all.len(),
{
    if all.len() == 0 {
        Seq::empty()
    } else {
        boxes_html(all.drop_last()) + box_html(all.last())
    }
}

/// What this machine can run. **Nothing until it is asked**: an empty area means nobody pressed
/// the button, which is a different sentence from *nothing fits*, and both are said.
pub open spec fn fits_html(fits: Option<Result<Vec<Suited>, String>>) -> Seq<char> {
    match fits {
        None => Seq::empty(),
        Some(Err(why)) => notice_html(why@),
        Some(Ok(found)) => if found@.len() == 0 {
            NOTHING_FITS@
        } else {
            BOXES_TO_BOXES@ + boxes_html(found@) + BOXES_END@
        },
    }
}

fn fits_block(fits: &Option<Result<Vec<Suited>, String>>) -> (r: String)
    ensures
        r@ == fits_html(*fits),
{
    match fits {
        None => String::new(),
        Some(Err(why)) => notice(why.as_str()),
        Some(Ok(found)) => {
            if found.len() == 0 {
                return String::from_str(NOTHING_FITS);
            }
            let mut boxes = String::new();
            let mut i: usize = 0;
            while i < found.len()
                invariant
                    0 <= i <= found@.len(),
                    boxes@ == boxes_html(found@.take(i as int)),
                decreases found@.len() - i,
            {
                assert(found@.take(i + 1).drop_last() =~= found@.take(i as int));
                boxes.append(one_box(&found[i]).as_str());
                i = i + 1;
            }
            assert(found@.take(found@.len() as int) =~= found@);
            let mut out = String::from_str(BOXES_TO_BOXES);
            out.append(boxes.as_str());
            out.append(BOXES_END);
            out
        },
    }
}

/// One facet chip, as a checkbox named for itself so that a form read into a map keeps every
/// one of them.
pub open spec fn chip_html(c: Chip) -> Seq<char> {
    CHIP_TO_ON@ + (if c.wanted {
        " chip--on"@
    } else {
        Seq::empty()
    }) + CHIP_TO_ID@ + c.id@ + CHIP_TO_CHECKED@ + (if c.wanted {
        " checked"@
    } else {
        Seq::empty()
    }) + CHIP_TO_LABEL@ + c.id@ + CHIP_END@
}

/// The chips of several facets, in order.
pub open spec fn chip_list_html(cs: Seq<Chip>) -> Seq<char>
    decreases cs.len(),
{
    if cs.len() == 0 {
        Seq::empty()
    } else {
        chip_list_html(cs.drop_last()) + chip_html(cs.last())
    }
}

/// Every facet chip, pressed where it was wanted, so a chip survives the answer it produced.
pub open spec fn chips_html(cs: Seq<Chip>) -> Seq<char> {
    CHIPS_TO_CHIPS@ + chip_list_html(cs) + CHIPS_END@
}

fn chips_block(cs: &Vec<Chip>) -> (r: String)
    ensures
        r@ == chips_html(cs@),
{
    let mut all = String::new();
    let mut i: usize = 0;
    while i < cs.len()
        invariant
            0 <= i <= cs@.len(),
            all@ == chip_list_html(cs@.take(i as int)),
        decreases cs@.len() - i,
    {
        assert(cs@.take(i + 1).drop_last() =~= cs@.take(i as int));
        let c = &cs[i];
        all.append(CHIP_TO_ON);
        if c.wanted {
            all.append(" chip--on");
        }
        all.append(CHIP_TO_ID);
        all.append(c.id.as_str());
        all.append(CHIP_TO_CHECKED);
        if c.wanted {
            all.append(" checked");
        }
        all.append(CHIP_TO_LABEL);
        all.append(c.id.as_str());
        all.append(CHIP_END);
        i = i + 1;
    }
    assert(cs@.take(cs@.len() as int) =~= cs@);
    let mut out = String::from_str(CHIPS_TO_CHIPS);
    out.append(all.as_str());
    out.append(CHIPS_END);
    out
}

/// One offer on a plain list: its name weighs it, and nothing on a list can be pulled unweighed.
pub open spec fn offer_row_html(o: Offer) -> Seq<char> {
    OFFER_TO_PULL@ + escaped(o.pull@) + OFFER_TO_TITLE@ + escaped(o.name@) + OFFER_TO_NAME@ + escaped(
        o.name@,
    ) + OFFER_TO_MARK@ + (if o.installed {
        ALREADY_HERE@
    } else {
        Seq::empty()
    }) + OFFER_END@
}

/// Several offers on a plain list, in order.
pub open spec fn offer_rows_html(os: Seq<Offer>) -> Seq<char>
    decreases os.len(),
{
    if os.len() == 0 {
        Seq::empty()
    } else {
        offer_rows_html(os.drop_last()) + offer_row_html(os.last())
    }
}

/// A short fixed list of offers, or what its silence means.
pub open spec fn offers_html(os: Seq<Offer>, empty: Seq<char>) -> Seq<char> {
    if os.len() == 0 {
        QUIET_TO_TEXT@ + escaped(empty) + QUIET_END@
    } else {
        OFFERS_TO_ROWS@ + offer_rows_html(os) + OFFERS_END@
    }
}

fn offers_block(os: &Vec<Offer>, empty: &str) -> (r: String)
    ensures
        r@ == offers_html(os@, empty@),
{
    if os.len() == 0 {
        let mut out = String::from_str(QUIET_TO_TEXT);
        out.append(escape(empty).as_str());
        out.append(QUIET_END);
        return out;
    }
    let mut rows = String::new();
    let mut i: usize = 0;
    while i < os.len()
        invariant
            0 <= i <= os@.len(),
            rows@ == offer_rows_html(os@.take(i as int)),
        decreases os@.len() - i,
    {
        assert(os@.take(i + 1).drop_last() =~= os@.take(i as int));
        let o = &os[i];
        rows.append(OFFER_TO_PULL);
        rows.append(escape(o.pull.as_str()).as_str());
        rows.append(OFFER_TO_TITLE);
        rows.append(escape(o.name.as_str()).as_str());
        rows.append(OFFER_TO_NAME);
        rows.append(escape(o.name.as_str()).as_str());
        rows.append(OFFER_TO_MARK);
        if o.installed {
            rows.append(ALREADY_HERE);
        }
        rows.append(OFFER_END);
        i = i + 1;
    }
    assert(os@.take(os@.len() as int) =~= os@);
    let mut out = String::from_str(OFFERS_TO_ROWS);
    out.append(rows.as_str());
    out.append(OFFERS_END);
    out
}

/// What this machine has, or how to get something.
pub open spec fn installed_html(names: Seq<String>) -> Seq<char> {
    if names.len() == 0 {
        NOTHING_INSTALLED@
    } else {
        INSTALLED_TO_ROWS@ + items_html(names) + INSTALLED_END@
    }
}

/// Names as list items, in order.
pub open spec fn items_html(names: Seq<String>) -> Seq<char>
    decreases names.len(),
{
    if names.len() == 0 {
        Seq::empty()
    } else {
        items_html(names.drop_last()) + ITEM_TO_NAME@ + escaped(names.last()@) + ITEM_END@
    }
}

fn installed_block(names: &Vec<String>) -> (r: String)
    ensures
        r@ == installed_html(names@),
{
    if names.len() == 0 {
        return String::from_str(NOTHING_INSTALLED);
    }
    let mut rows = String::new();
    let mut i: usize = 0;
    while i < names.len()
        invariant
            0 <= i <= names@.len(),
            rows@ == items_html(names@.take(i as int)),
        decreases names@.len() - i,
    {
        assert(names@.take(i + 1).drop_last() =~= names@.take(i as int));
        rows.append(ITEM_TO_NAME);
        rows.append(escape(names[i].as_str()).as_str());
        rows.append(ITEM_END);
        i = i + 1;
    }
    assert(names@.take(names@.len() as int) =~= names@);
    let mut out = String::from_str(INSTALLED_TO_ROWS);
    out.append(rows.as_str());
    out.append(INSTALLED_END);
    out
}


/// Whether a result is the repository that is open.
pub open spec fn is_open(opened: Option<String>, o: Offer) -> bool {
    opened matches Some(name) && name@ == o.name@
}

/// One search result, and its quantisations when it is the open one. Its name opens it — a
/// repository is not one size — and pressing the open one closes it.
pub open spec fn result_html(o: Offer, w: Workbench) -> Seq<char> {
    let open = is_open(w.opened, o);
    RESULT_TO_CLASS@ + (if open {
        "open"@
    } else {
        Seq::empty()
    }) + RESULT_TO_NAME@ + escaped(o.name@) + RESULT_TO_TITLE@ + escaped(o.name@) + RESULT_TO_ARROW@
        + (if open {
        "&#9662; "@
    } else {
        "&#9656; "@
    }) + RESULT_TO_LABEL@ + escaped(o.name@) + RESULT_TO_FACETS@ + (if o.facets@.len() == 0 {
        Seq::empty()
    } else {
        FACETS_TO_IDS@ + joined_by(views(o.facets@), " &#183; "@) + FACETS_END@
    }) + RESULT_TO_MARK@ + (if o.installed {
        ALREADY_HERE@
    } else {
        Seq::empty()
    }) + RESULT_TO_TABLE@ + (if open {
        variants_html(w.variants, w.machine, w.hf.installed)
    } else {
        Seq::empty()
    }) + RESULT_END@
}

fn one_result(o: &Offer, w: &Workbench) -> (r: String)
    ensures
        r@ == result_html(*o, *w),
{
    let open = match &w.opened {
        Some(name) => same(name.as_str(), o.name.as_str()),
        None => false,
    };
    let mut out = String::from_str(RESULT_TO_CLASS);
    if open {
        out.append("open");
    }
    out.append(RESULT_TO_NAME);
    let name = escape(o.name.as_str());
    out.append(name.as_str());
    out.append(RESULT_TO_TITLE);
    out.append(name.as_str());
    out.append(RESULT_TO_ARROW);
    out.append(if open { "&#9662; " } else { "&#9656; " });
    out.append(RESULT_TO_LABEL);
    out.append(name.as_str());
    out.append(RESULT_TO_FACETS);
    if o.facets.len() > 0 {
        out.append(FACETS_TO_IDS);
        out.append(join(&o.facets, " &#183; ").as_str());
        out.append(FACETS_END);
    }
    out.append(RESULT_TO_MARK);
    if o.installed {
        out.append(ALREADY_HERE);
    }
    out.append(RESULT_TO_TABLE);
    if open {
        out.append(variants_block(&w.variants, &w.machine, w.hf.installed).as_str());
    }
    out.append(RESULT_END);
    out
}

/// Several results, in order.
pub open spec fn results_rows(os: Seq<Offer>, w: Workbench) -> Seq<char>
    decreases os.len(),
{
    if os.len() == 0 {
        Seq::empty()
    } else {
        results_rows(os.drop_last(), w) + result_html(os.last(), w)
    }
}

/// How many pages the results fill: at least one.
pub open spec fn pages_of(n: nat) -> nat {
    if n == 0 {
        1
    } else {
        ((n + 23) / 24) as nat
    }
}

/// The page on screen: the one asked for, or the last there is — a window past the end of what
/// exists shows the end of what exists.
pub open spec fn page_shown(asked: nat, n: nat) -> nat {
    if asked < pages_of(n) {
        asked
    } else {
        (pages_of(n) - 1) as nat
    }
}

/// **Results come twenty-four to a page, and the page shown exists.** There are just enough pages
/// to hold every result — one even for none — and a page asked past the end shows the last.
pub proof fn twenty_four_to_a_page(asked: nat, n: nat)
    ensures
        pages_of(n) >= 1,
        n <= pages_of(n) * 24,
        n > 0 ==> (pages_of(n) - 1) * 24 < n,
        page_shown(asked, n) < pages_of(n),
        asked < pages_of(n) ==> page_shown(asked, n) == asked,
{
    if n > 0 {
        assert(n <= ((n + 23) / 24) * 24 && (((n + 23) / 24) - 1) * 24 < n) by (nonlinear_arith)
            requires
                n > 0,
        ;
    }
}

/// The search results: one page of them, each openable, a pager under them, how many arrived
/// so far — never how many exist, which Hugging Face never says — and MORE RESULTS while there
/// is a cursor to follow.
pub open spec fn results_html(w: Workbench) -> Seq<char> {
    let n = w.found@.len();
    if n == 0 {
        NOTHING_SEARCHED@
    } else {
        let pages = pages_of(n);
        let page = page_shown(w.page as nat, n);
        let from = page * PER_PAGE;
        let to: int = if from + PER_PAGE < n {
            from + PER_PAGE
        } else {
            n as int
        };
        RESULTS_TO_ROWS@ + results_rows(w.found@.subrange(from as int, to as int), w)
            + results_tail(w, page, pages)
    }
}

proof fn lemma_pages(n: nat)
    requires
        n > 0,
    ensures
        pages_of(n) >= 1,
        (pages_of(n) - 1) * PER_PAGE < n,
        n <= pages_of(n) * PER_PAGE,
{
    assert(((n + 23) / 24) * 24 <= n + 23) by (nonlinear_arith)
        requires
            n > 0,
    ;
    assert(((n + 23) / 24) * 24 >= n) by (nonlinear_arith)
        requires
            n > 0,
    ;
}

fn result_rows(w: &Workbench, from: usize, to: usize) -> (r: String)
    requires
        from <= to <= w.found@.len(),
    ensures
        r@ == results_rows(w.found@.subrange(from as int, to as int), *w),
{
    let mut rows = String::new();
    let mut k = from;
    while k < to
        invariant
            from <= k <= to <= w.found@.len(),
            rows@ == results_rows(w.found@.subrange(from as int, k as int), *w),
        decreases to - k,
    {
        assert(w.found@.subrange(from as int, k + 1).drop_last() =~= w.found@.subrange(
            from as int,
            k as int,
        ));
        rows.append(one_result(&w.found[k], w).as_str());
        k = k + 1;
    }
    rows
}

/// Under the results: the pager, how many arrived, and MORE RESULTS while there is more.
pub open spec fn results_tail(w: Workbench, page: nat, pages: nat) -> Seq<char> {
    RESULTS_TO_PAGER@ + pager_html(page, pages) + RESULTS_TO_COUNT@ + decimal(w.found@.len())
        + RESULTS_TO_ENDING@ + (if w.more is None {
        " · that is the end of the results"@
    } else {
        Seq::empty()
    }) + RESULTS_TO_MORE@ + match w.more {
        Some(c) => MORE_TO_CURSOR@ + escaped(c@) + MORE_END@,
        None => Seq::empty(),
    } + RESULTS_END@
}

fn tail(w: &Workbench, page: usize, pages: usize) -> (r: String)
    requires
        page < pages,
    ensures
        r@ == results_tail(*w, page as nat, pages as nat),
{
    let mut out = String::from_str(RESULTS_TO_PAGER);
    out.append(pager_block(page, pages).as_str());
    out.append(RESULTS_TO_COUNT);
    out.append(decimal_of(w.found.len() as u64).as_str());
    out.append(RESULTS_TO_ENDING);
    if w.more.is_none() {
        out.append(" · that is the end of the results");
    }
    out.append(RESULTS_TO_MORE);
    match &w.more {
        Some(c) => {
            out.append(MORE_TO_CURSOR);
            out.append(escape(c.as_str()).as_str());
            out.append(MORE_END);
        },
        None => {},
    }
    out.append(RESULTS_END);
    out
}

fn results_block(w: &Workbench) -> (r: String)
    ensures
        r@ == results_html(*w),
{
    let n = w.found.len();
    if n == 0 {
        return String::from_str(NOTHING_SEARCHED);
    }
    proof {
        lemma_pages(n as nat);
    }
    let pages = n / PER_PAGE + if n % PER_PAGE == 0 { 0 } else { 1 };
    assert(pages == pages_of(n as nat)) by (nonlinear_arith)
        requires
            n > 0,
            pages == n / 24 + if n % 24 == 0 { 0int } else { 1int },
    ;
    let page = if w.page < pages { w.page } else { pages - 1 };
    assert(page * PER_PAGE < n) by (nonlinear_arith)
        requires
            page <= pages - 1,
            (pages - 1) * 24 < n,
    ;
    let from = page * PER_PAGE;
    let to = if n - from > PER_PAGE { from + PER_PAGE } else { n };
    let rows = result_rows(w, from, to);
    let mut out = String::from_str(RESULTS_TO_ROWS);
    out.append(rows.as_str());
    out.append(tail(w, page, pages).as_str());
    out
}


/// SAVE THE FILE, when there is something it could save: only for a Hugging Face name with a
/// quantisation, and only where `hf` is here. Ollama's own registry has no file to hand over.
pub open spec fn file_html(o: Offer, hf: Cli) -> Seq<char> {
    if !hf.installed {
        Seq::empty()
    } else {
        match split_of(o.pull@) {
            Some((repo, Some(quant))) => FILE_TO_REPO@ + escaped(repo) + FILE_TO_QUANT@ + escaped(quant)
                + FILE_END@,
            _ => Seq::empty(),
        }
    }
}

fn file_button(o: &Offer, hf: &Cli) -> (r: String)
    ensures
        r@ == file_html(*o, *hf),
{
    if !hf.installed {
        return String::new();
    }
    match split(o.pull.as_str()) {
        Some((repo, Some(quant))) => {
            let mut out = String::from_str(FILE_TO_REPO);
            out.append(escape(repo.as_str()).as_str());
            out.append(FILE_TO_QUANT);
            out.append(escape(quant.as_str()).as_str());
            out.append(FILE_END);
            out
        },
        _ => String::new(),
    }
}

/// What each destination is for, said once beside both — and, on a machine without the Hugging
/// Face CLI, why one of them is missing rather than a button nobody can explain.
pub open spec fn destinations_of(o: Offer, hf: Cli) -> Seq<char> {
    if starts(o.pull@, "hf.co/"@) {
        if hf.installed {
            "Ollama runs it; SAVE THE FILE puts the GGUF on disk for llama.cpp or LM Studio"@
                + match hf.user {
                Some(who) => " (hf, signed in as "@ + who@ + ")"@,
                None => Seq::empty(),
            } + "."@
        } else {
            "Into Ollama on this machine. For llama.cpp or LM Studio the file has to be copied instead; the Hugging Face CLI would do it here, and it is not on this machine."@
        }
    } else {
        "Into Ollama on this machine, which is what is lent to the paired Host."@
    }
}

fn destinations(o: &Offer, hf: &Cli) -> (r: String)
    ensures
        r@ == destinations_of(*o, *hf),
{
    let v = crate::text::chars_of(o.pull.as_str());
    if begins(&v, "hf.co/") {
        if hf.installed {
            let mut out = String::from_str(
                "Ollama runs it; SAVE THE FILE puts the GGUF on disk for llama.cpp or LM Studio",
            );
            match &hf.user {
                Some(who) => {
                    out.append(" (hf, signed in as ");
                    out.append(who.as_str());
                    out.append(")");
                },
                None => {},
            }
            out.append(".");
            out
        } else {
            String::from_str(
                "Into Ollama on this machine. For llama.cpp or LM Studio the file has to be copied instead; the Hugging Face CLI would do it here, and it is not on this machine.",
            )
        }
    } else {
        String::from_str("Into Ollama on this machine, which is what is lent to the paired Host.")
    }
}

/// The answer in one word, and its colour.
pub open spec fn verdict_word(runs: Option<bool>) -> (Seq<char>, Seq<char>) {
    match runs {
        Some(true) => ("RUNS HERE"@, "yes"@),
        Some(false) => ("TOO BIG"@, "no"@),
        None => ("CANNOT SAY"@, "unknown"@),
    }
}

/// Whether a weighed offer runs here.
pub open spec fn offer_runs(o: Offer, m: Machine) -> Option<bool> {
    match o.bytes {
        Some(b) => runs_here(b, m, o.card),
        None => None,
    }
}

/// Pulling through Ollama. **Not disabled for being too big** — somebody may be about to add
/// memory — but then it says PULL ANYWAY. A sharded one is different: Ollama refuses it by name,
/// so it loses the button and keeps the reason.
pub open spec fn ollama_html(o: Offer, m: Machine) -> Seq<char> {
    if o.pullable {
        PULL_TO_PULL@ + escaped(o.pull@) + PULL_TO_ACTION@ + (if offer_runs(o, m) == Some(false) {
            "PULL ANYWAY"@
        } else {
            "PULL"@
        }) + PULL_END@
    } else {
        SHARDED@
    }
}

/// **Too big is said, never enforced.** An offer that can be pulled keeps its button whatever
/// the verdict — it reads PULL ANYWAY where it was weighed too big, PULL otherwise — and only a
/// sharded one, which Ollama refuses by name, loses it.
pub proof fn too_big_is_said_not_enforced(o: Offer, m: Machine)
    ensures
        o.pullable ==> ollama_html(o, m) == PULL_TO_PULL@ + escaped(o.pull@) + PULL_TO_ACTION@ + (if offer_runs(o, m)
            == Some(false) {
            "PULL ANYWAY"@
        } else {
            "PULL"@
        }) + PULL_END@,
        !o.pullable ==> ollama_html(o, m) == SHARDED@,
        verdict_word(Some(true)) == ("RUNS HERE"@, "yes"@),
        verdict_word(Some(false)) == ("TOO BIG"@, "no"@),
        verdict_word(None) == ("CANNOT SAY"@, "unknown"@),
{
}

/// What was weighed, what it means here, and what can be done about it.
pub open spec fn weighed_html(o: Offer, m: Machine, hf: Cli) -> Seq<char> {
    let (word, tone) = verdict_word(offer_runs(o, m));
    VERDICT_TO_TONE@ + tone + VERDICT_TO_WORD@ + word + VERDICT_TO_NAME@ + escaped(o.name@)
        + VERDICT_TO_SIZE@ + match o.bytes {
        Some(b) => gigabytes(b as nat),
        None => "size unknown"@,
    } + VERDICT_TO_EXPLAINED@ + escaped(verdict_said(o.bytes, m, o.card)) + VERDICT_TO_OLLAMA@
        + ollama_html(o, m) + VERDICT_TO_FILE@ + file_html(o, hf) + VERDICT_TO_DESTINATIONS@
        + destinations_of(o, hf) + VERDICT_END@
}

fn weighed(o: &Offer, m: &Machine, hf: &Cli) -> (r: String)
    ensures
        r@ == weighed_html(*o, *m, *hf),
{
    let said = verdict(o.bytes, m, o.card);
    let mut out = String::from_str(VERDICT_TO_TONE);
    match said.runs {
        Some(true) => out.append("yes"),
        Some(false) => out.append("no"),
        None => out.append("unknown"),
    }
    out.append(VERDICT_TO_WORD);
    match said.runs {
        Some(true) => out.append("RUNS HERE"),
        Some(false) => out.append("TOO BIG"),
        None => out.append("CANNOT SAY"),
    }
    out.append(VERDICT_TO_NAME);
    out.append(escape(o.name.as_str()).as_str());
    out.append(VERDICT_TO_SIZE);
    match o.bytes {
        Some(b) => out.append(gb(b).as_str()),
        None => out.append("size unknown"),
    }
    out.append(VERDICT_TO_EXPLAINED);
    out.append(escape(said.said.as_str()).as_str());
    out.append(VERDICT_TO_OLLAMA);
    if o.pullable {
        out.append(PULL_TO_PULL);
        out.append(escape(o.pull.as_str()).as_str());
        out.append(PULL_TO_ACTION);
        out.append(if said.runs == Some(false) { "PULL ANYWAY" } else { "PULL" });
        out.append(PULL_END);
    } else {
        out.append(SHARDED);
    }
    out.append(VERDICT_TO_FILE);
    out.append(file_button(o, hf).as_str());
    out.append(VERDICT_TO_DESTINATIONS);
    out.append(destinations(o, hf).as_str());
    out.append(VERDICT_END);
    out
}

/// The weighing panel. A download in progress outranks a weighed answer — it is the thing
/// happening now — and so does a file being saved, of which no percentage is invented.
pub open spec fn verdict_html(w: Workbench) -> Seq<char> {
    match w.pulling {
        Some(model) => DOWNLOADING_TO_MODEL@ + escaped(model@) + DOWNLOADING_END@,
        None => match w.filing {
            Some(what) => SAVING_TO_WHAT@ + escaped(what@) + SAVING_END@,
            None => match w.weighed {
                None => Seq::empty(),
                Some(Err(why)) => notice_html(why@),
                Some(Ok(o)) => weighed_html(o, w.machine, w.hf),
            },
        },
    }
}

fn verdict_block(w: &Workbench) -> (r: String)
    ensures
        r@ == verdict_html(*w),
{
    match &w.pulling {
        Some(model) => {
            let mut out = String::from_str(DOWNLOADING_TO_MODEL);
            out.append(escape(model.as_str()).as_str());
            out.append(DOWNLOADING_END);
            out
        },
        None => match &w.filing {
            Some(what) => {
                let mut out = String::from_str(SAVING_TO_WHAT);
                out.append(escape(what.as_str()).as_str());
                out.append(SAVING_END);
                out
            },
            None => match &w.weighed {
                None => String::new(),
                Some(Err(why)) => notice(why.as_str()),
                Some(Ok(o)) => weighed(o, &w.machine, &w.hf),
            },
        },
    }
}

/// The notices at the top: how the last download ended, then how the last file download ended.
pub open spec fn notices_html(w: Workbench) -> Seq<char> {
    let said = match w.said {
        Some(s) => notice_html(s@),
        None => Seq::empty(),
    };
    let filed = match w.filed {
        Some(f) => notice_html(f@),
        None => Seq::empty(),
    };
    said + filed
}

/// The top of the Workshop tab: what was said, this machine, the weighing panel and what fits.
pub open spec fn top_html(w: Workbench) -> Seq<char> {
    PAGE_TO_NOTICE@ + notices_html(w) + PAGE_TO_HARDWARE@ + escaped(described(w.machine))
        + PAGE_TO_ASKED@ + escaped(w.asked@) + PAGE_TO_WEIGHED@ + verdict_html(w) + PAGE_TO_FITS@
        + fits_html(w.fits)
}

/// The rest of it: the search, Ollama's featured list and what is here.
pub open spec fn bottom_html(w: Workbench) -> Seq<char> {
    PAGE_TO_QUERY@ + escaped(w.query@) + PAGE_TO_CHIPS@ + chips_html(w.chips@) + PAGE_TO_FOUND@
        + results_html(w) + PAGE_TO_SHELF@ + offers_html(
        w.shelf@,
        "Ollama's list could not be read."@,
    ) + PAGE_TO_INSTALLED@ + installed_html(w.installed@) + PAGE_END@
}

/// The Workshop tab, whole.
pub open spec fn render_html(w: Workbench) -> Seq<char> {
    top_html(w) + bottom_html(w)
}

fn top(w: &Workbench) -> (r: String)
    ensures
        r@ == top_html(*w),
{
    let mut out = String::from_str(PAGE_TO_NOTICE);
    match &w.said {
        Some(s) => out.append(notice(s.as_str()).as_str()),
        None => {},
    }
    match &w.filed {
        Some(f) => out.append(notice(f.as_str()).as_str()),
        None => {},
    }
    out.append(PAGE_TO_HARDWARE);
    out.append(escape(describe(&w.machine).as_str()).as_str());
    out.append(PAGE_TO_ASKED);
    out.append(escape(w.asked.as_str()).as_str());
    out.append(PAGE_TO_WEIGHED);
    out.append(verdict_block(w).as_str());
    out.append(PAGE_TO_FITS);
    out.append(fits_block(&w.fits).as_str());
    out
}

fn bottom(w: &Workbench) -> (r: String)
    ensures
        r@ == bottom_html(*w),
{
    let mut out = String::from_str(PAGE_TO_QUERY);
    out.append(escape(w.query.as_str()).as_str());
    out.append(PAGE_TO_CHIPS);
    out.append(chips_block(&w.chips).as_str());
    out.append(PAGE_TO_FOUND);
    out.append(results_block(w).as_str());
    out.append(PAGE_TO_SHELF);
    out.append(offers_block(&w.shelf, "Ollama's list could not be read.").as_str());
    out.append(PAGE_TO_INSTALLED);
    out.append(installed_block(&w.installed).as_str());
    out.append(PAGE_END);
    out
}

/// The Workshop tab, whole: what was said, this machine, the weighing panel, what fits, the
/// search, Ollama's featured list and what is here.
pub fn render(w: &Workbench) -> (r: String)
    ensures
        r@ == render_html(*w),
{
    let mut out = top(w);
    out.append(bottom(w).as_str());
    out
}

} // verus!
