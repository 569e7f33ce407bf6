//! Mapping a model's curve **on this machine's card**.
//!
//! A curve is kept against *model + card + build*, so it is a fact about one graphics card and
//! one build of the runtime. What decides here: which runtime a curve can be taken through, how
//! far up the ladder it may climb, and the sentence a finished one leaves behind.

use vstd::prelude::*;
use vstd::string::*;

use crate::here::Runtime;
use crate::text::{decimal, decimal_of, digit, digit_char, push_char, same};

verus! {

/// Digits grouped in threes from the right, with commas between the groups.
pub open spec fn grouped(s: Seq<char>) -> Seq<char>
    decreases s.len(),
{
    if s.len() <= 3 {
        s
    } else {
        grouped(s.take(s.len() - 3)) + seq![','] + s.skip(s.len() - 3)
    }
}

/// Text with its commas taken out.
pub open spec fn without_commas(t: Seq<char>) -> Seq<char>
    decreases t.len(),
{
    if t.len() == 0 {
        Seq::empty()
    } else {
        without_commas(t.drop_last()) + if t.last() == ',' {
            Seq::empty()
        } else {
            seq![t.last()]
        }
    }
}

proof fn lemma_without_commas_joins(a: Seq<char>, b: Seq<char>)
    ensures
        without_commas(a + b) == without_commas(a) + without_commas(b),
    decreases b.len(),
{
    if b.len() == 0 {
        assert(a + b =~= a);
        assert(without_commas(a) + without_commas(b) =~= without_commas(a));
    } else {
        assert((a + b).drop_last() =~= a + b.drop_last());
        assert((a + b).last() == b.last());
        lemma_without_commas_joins(a, b.drop_last());
        assert(without_commas(a) + without_commas(b) =~= without_commas(a) + without_commas(
            b.drop_last(),
        ) + (if b.last() == ',' {
            Seq::empty()
        } else {
            seq![b.last()]
        }));
    }
}

proof fn lemma_no_commas_kept(s: Seq<char>)
    requires
        !s.contains(','),
    ensures
        without_commas(s) == s,
    decreases s.len(),
{
    if s.len() > 0 {
        assert(s.last() == s[s.len() - 1]);
        assert(!s.drop_last().contains(',')) by {
            if s.drop_last().contains(',') {
                let j = choose|j: int| 0 <= j < s.drop_last().len() && s.drop_last()[j] == ',';
                assert(s[j] == ',');
            }
        }
        lemma_no_commas_kept(s.drop_last());
        assert(s.drop_last() + seq![s.last()] =~= s);
    }
}

/// **Grouping adds commas and nothing else, one before every three digits from the right.**
/// Taking the commas out gives the digits back, and a comma stands exactly where a multiple of
/// four characters remains to the end — so the first group has one to three digits and every
/// later group three.
pub proof fn grouping_only_adds_commas(s: Seq<char>)
    requires
        s.len() > 0,
        !s.contains(','),
    ensures
        without_commas(grouped(s)) == s,
        grouped(s).len() % 4 != 0,
        forall|i: int|
            0 <= i < grouped(s).len() ==> (#[trigger] grouped(s)[i] == ',' <==> (grouped(s).len() - i)
                % 4 == 0),
    decreases s.len(),
{
    if s.len() <= 3 {
        lemma_no_commas_kept(s);
        assert forall|i: int| 0 <= i < s.len() implies s[i] != ',' by {
            if s[i] == ',' {
                assert(s.contains(','));
            }
        }
    } else {
        let head = s.take(s.len() - 3);
        let tail = s.skip(s.len() - 3);
        assert(!head.contains(',')) by {
            if head.contains(',') {
                let j = choose|j: int| 0 <= j < head.len() && head[j] == ',';
                assert(s[j] == ',');
            }
        }
        assert(!tail.contains(',')) by {
            if tail.contains(',') {
                let j = choose|j: int| 0 <= j < tail.len() && tail[j] == ',';
                assert(s[s.len() - 3 + j] == ',');
            }
        }
        grouping_only_adds_commas(head);
        let g = grouped(head);
        let all = g + seq![','] + tail;
        assert(grouped(s) == all);
        lemma_without_commas_joins(g + seq![','], tail);
        lemma_without_commas_joins(g, seq![',']);
        assert(without_commas(seq![',']) =~= Seq::<char>::empty()) by {
            assert(seq![','].drop_last() =~= Seq::<char>::empty());
            assert(seq![','].last() == ',');
            assert(without_commas(Seq::<char>::empty()) =~= Seq::<char>::empty());
        }
        lemma_no_commas_kept(tail);
        assert(head + tail =~= s);
        assert(g + Seq::<char>::empty() =~= g);
        assert forall|i: int| 0 <= i < all.len() implies (#[trigger] all[i] == ',' <==> (all.len() - i)
            % 4 == 0) by {
            if i < g.len() {
                assert(all[i] == g[i]);
                assert((all.len() - i) % 4 == (g.len() - i) % 4);
            } else if i == g.len() {
                assert(all[i] == ',');
            } else {
                assert(all[i] == tail[i - g.len() - 1]);
                assert(tail[i - g.len() - 1] != ',') by {
                    if tail[i - g.len() - 1] == ',' {
                        assert(tail.contains(','));
                    }
                }
            }
        }
    }
}

/// A number's decimal digits hold no comma.
pub proof fn decimal_has_no_comma(n: nat)
    ensures
        !decimal(n).contains(','),
        decimal(n).len() > 0,
    decreases n,
{
    if n >= 10 {
        decimal_has_no_comma(n / 10);
        let d = decimal(n);
        assert(d == decimal(n / 10).push(digit(n % 10)));
        if d.contains(',') {
            let j = choose|j: int| 0 <= j < d.len() && d[j] == ',';
            if j < d.len() - 1 {
                assert(decimal(n / 10)[j] == ',');
            }
        }
    }
}

/// **A context size read with commas is the number itself.** The commas in `thousands` come
/// out to give the number's digits back, and group them in threes from the right.
pub proof fn thousands_reads_back(n: nat)
    ensures
        without_commas(grouped(decimal(n))) == decimal(n),
        forall|i: int|
            0 <= i < grouped(decimal(n)).len() ==> (#[trigger] grouped(decimal(n))[i] == ',' <==> (
            grouped(decimal(n)).len() - i) % 4 == 0),
{
    decimal_has_no_comma(n);
    grouping_only_adds_commas(decimal(n));
}

fn group(v: &Vec<char>, end: usize) -> (r: String)
    requires
        end <= v@.len(),
    ensures
        r@ == grouped(v@.take(end as int)),
    decreases end,
{
    if end <= 3 {
        crate::text::string_of(v, 0, end)
    } else {
        let mut out = group(v, end - 3);
        assert(v@.take(end as int).take(end - 3) =~= v@.take(end - 3));
        push_char(&mut out, ',');
        let tail = crate::text::string_of(v, end - 3, end);
        out.append(tail.as_str());
        assert(v@.take(end as int).skip(end - 3) =~= v@.subrange(end - 3, end as int));
        out
    }
}

/// A number as a person reads a context size: `24,576`.
pub fn thousands(n: u32) -> (r: String)
    ensures
        r@ == grouped(decimal(n as nat)),
{
    let raw = decimal_of(n as u64);
    let v = crate::text::chars_of(raw.as_str());
    assert(v@.take(v@.len() as int) =~= v@);
    group(&v, v.len())
}

/// Which runtime a curve is taken through, from its id. LM Studio is refused by name and says
/// why, rather than offering a button whose answer nothing could apply.
pub open spec fn measured_through(on: Seq<char>) -> Result<Runtime, Seq<char>> {
    if on == "llama_cpp"@ {
        Ok(Runtime::LlamaCpp)
    } else if on == "ollama"@ {
        Ok(Runtime::Ollama)
    } else {
        Err(
            "LM Studio takes a context only when a model is loaded, through its own CLI, so a curve there would end in a setting nothing applies. Measure on llama.cpp or Ollama."@,
        )
    }
}

/// Which runtime a curve is taken through.
pub fn measure_through(on: &str) -> (r: Result<Runtime, String>)
    ensures
        match r {
            Ok(rt) => measured_through(on@) == Ok::<Runtime, Seq<char>>(rt),
            Err(why) => measured_through(on@) == Err::<Runtime, Seq<char>>(why@),
        },
{
    if same(on, "llama_cpp") {
        Ok(Runtime::LlamaCpp)
    } else if same(on, "ollama") {
        Ok(Runtime::Ollama)
    } else {
        Err(
            String::from_str(
                "LM Studio takes a context only when a model is loaded, through its own CLI, so a curve there would end in a setting nothing applies. Measure on llama.cpp or Ollama.",
            ),
        )
    }
}

/// What stops a curve through Ollama before it starts: it runs through the server that is
/// already up, so a server that is not answering is a sentence rather than a wait.
pub fn ollama_answering(serving: bool) -> (r: Result<(), String>)
    ensures
        r is Ok <==> serving,
        r matches Err(why) ==> why@
            == "Ollama is not answering, and this curve runs through the server that is already up. Start it under START SERVICES and measure again."@,
{
    if serving {
        Ok(())
    } else {
        Err(
            String::from_str(
                "Ollama is not answering, and this curve runs through the server that is already up. Start it under START SERVICES and measure again.",
            ),
        )
    }
}

/// How far up the ladder a curve may climb: what the model was trained for, where its header
/// says and the number fits, and the ladder's top rung where it does not. A ladder that ran
/// past the trained context would be measuring settings the model cannot use.
pub open spec fn ceiling_of(trained: Option<u64>, top: u32) -> u32 {
    match trained {
        Some(t) => if t <= u32::MAX {
            t as u32
        } else {
            top
        },
        None => top,
    }
}

/// How far up the ladder a curve may climb.
pub fn ceiling(trained: Option<u64>, top: u32) -> (r: u32)
    ensures
        r == ceiling_of(trained, top),
{
    match trained {
        Some(t) => if t <= u32::MAX as u64 {
            t as u32
        } else {
            top
        },
        None => top,
    }
}

/// A rate to the nearest tenth, as a number prints: no decimals when it is whole.
pub open spec fn tenths_plainly(tenths: nat) -> Seq<char> {
    if tenths % 10 == 0 {
        decimal(tenths / 10)
    } else {
        decimal(tenths / 10) + seq!['.', digit(tenths % 10)]
    }
}

/// The sentence a finished curve leaves: which card it was measured on, the context chosen,
/// and how fast it ran there.
pub open spec fn curve_said_of(card: Option<Seq<char>>, context: u32, tenths: u64) -> Seq<char> {
    "Measured on "@ + match card {
        Some(c) => c,
        None => "this machine"@,
    } + " \u{2014} "@ + grouped(decimal(context as nat)) + " at "@ + tenths_plainly(tenths as nat)
        + " tokens per second."@
}

/// The sentence a finished curve leaves, from the card's name, the context chosen and the rate
/// in tenths of a token per second.
pub fn curve_said(card: Option<&str>, context: u32, tenths: u64) -> (r: String)
    ensures
        r@ == curve_said_of(
            match card {
                Some(c) => Some(c@),
                None => None,
            },
            context,
            tenths,
        ),
{
    let mut out = String::from_str("Measured on ");
    match card {
        Some(c) => out.append(c),
        None => out.append("this machine"),
    }
    out.append(" \u{2014} ");
    let grouped = thousands(context);
    out.append(grouped.as_str());
    out.append(" at ");
    let whole = decimal_of(tenths / 10);
    out.append(whole.as_str());
    if tenths % 10 != 0 {
        push_char(&mut out, '.');
        push_char(&mut out, digit_char(tenths % 10));
    }
    out.append(" tokens per second.");
    out
}

/// Which of the models this machine reported holding a curve is asked for: the first with that
/// name, or the sentence that says this machine never reported it.
pub fn model_held(name: &str, held: &Vec<String>) -> (r: Result<usize, String>)
    ensures
        match r {
            Ok(i) => i < held@.len() && held@[i as int]@ == name@ && forall|j: int|
                0 <= j < i ==> #[trigger] held@[j]@ != name@,
            Err(why) => (forall|j: int| 0 <= j < held@.len() ==> #[trigger] held@[j]@ != name@)
                && why@ == name@ + " is not a model this machine reported holding."@,
        },
{
    let mut i: usize = 0;
    while i < held.len()
        invariant
            0 <= i <= held@.len(),
            forall|j: int| 0 <= j < i ==> #[trigger] held@[j]@ != name@,
        decreases held@.len() - i,
    {
        if same(held[i].as_str(), name) {
            return Ok(i);
        }
        i = i + 1;
    }
    let mut why = name.to_string();
    why.append(" is not a model this machine reported holding.");
    Err(why)
}

/// The sentence for a model Ollama is not serving under any name it offers.
pub fn not_served(name: &str) -> (r: String)
    ensures
        r@ == "Ollama is not serving '"@ + name@ + "'."@,
{
    let mut out = String::from_str("Ollama is not serving '");
    out.append(name);
    out.append("'.");
    out
}

/// What a finished search settles on: the setting it recommends, or why there is none — the
/// model loaded nowhere, or nothing that loaded can hold a real turn.
pub fn explored<T>(name: &str, loaded: bool, recommended: Option<T>) -> (r: Result<T, String>)
    ensures
        !loaded ==> (r matches Err(why) && why@ == name@ + " did not load at any setting on this machine."@),
        loaded && recommended is None ==> (r matches Err(why) && why@
            == "nothing that loaded can hold a real turn"@),
        loaded && recommended is Some ==> r == Ok::<T, String>(recommended->0),
{
    if !loaded {
        let mut why = name.to_string();
        why.append(" did not load at any setting on this machine.");
        return Err(why);
    }
    match recommended {
        Some(chose) => Ok(chose),
        None => Err(String::from_str("nothing that loaded can hold a real turn")),
    }
}

} // verus!
