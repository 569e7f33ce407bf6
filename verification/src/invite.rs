//! The code this machine shows, when the Host has to be the one to reach out.
//!
//! In that direction the listener is on the network by design, so the code is the whole of the
//! defence: it is checked here, it lasts five minutes, it is spent the moment it works, and it
//! is burnt after ten wrong answers.

use std::time::Instant;

use vstd::prelude::*;
use vstd::string::*;
use vstd::utf8::*;

use crate::text::{is_white, trim, trim_end, trim_start, trimmed};

verus! {

/// How long a shown code lasts, in seconds.
pub const LIFE_SECONDS: u64 = 300;

/// How many wrong guesses a code survives.
pub const TRIES: u32 = 10;

/// The letters a code is made of: no `0`, `O`, `1`, `I` or `L`, because somebody reads it off
/// one screen and types it into another.
pub open spec fn alphabet() -> Seq<char> {
    "ABCDEFGHJKMNPQRSTUVWXYZ23456789"@
}

/// How many characters a code has.
pub const LENGTH: usize = 6;

#[verifier::external_type_specification]
#[verifier::external_body]
pub struct ExInstant(std::time::Instant);

/// `Instant::now`: the moment of the call. Nothing is promised about its value.
#[verifier::external_body]
fn instant_now() -> Instant {
    Instant::now()
}

/// `Instant::elapsed`: the time since `made`, as whole seconds and the nanoseconds beyond them.
/// Only the range of the nanoseconds is promised; the value depends on the clock.
#[verifier::external_body]
fn seconds_since(made: &Instant) -> (r: (u64, u32))
    ensures
        r.1 < 1_000_000_000,
{
    let elapsed = made.elapsed();
    (elapsed.as_secs(), elapsed.subsec_nanos())
}

/// `getrandom::getrandom` on a buffer of `n` bytes: the operating system's randomness, or its
/// error. On success the buffer has exactly `n` bytes; nothing is promised about them.
#[verifier::external_body]
fn os_random(n: usize) -> (r: Result<Vec<u8>, getrandom::Error>)
    ensures
        r matches Ok(bytes) ==> bytes@.len() == n,
{
    let mut bytes = vec![0u8; n];
    getrandom::getrandom(&mut bytes)?;
    Ok(bytes)
}

#[verifier::external_type_specification]
#[verifier::external_body]
pub struct ExRandomError(getrandom::Error);

/// What the to-uppercase mapping of the standard library makes of a string.
pub uninterp spec fn upper_case(s: Seq<char>) -> Seq<char>;

/// One ASCII letter made upper case; every other character unchanged.
pub open spec fn ascii_upper_char(c: char) -> char {
    if 'a' <= c <= 'z' {
        ((c as u32) - 32) as char
    } else {
        c
    }
}

/// `str::to_uppercase`: the Unicode upper-case mapping of `s`, which on ASCII text is the ASCII
/// one, as its documentation and examples show. Beyond ASCII the mapping is only named.
#[verifier::external_body]
pub(crate) fn to_upper(s: &str) -> (r: String)
    ensures
        r@ == upper_case(s@),
        is_ascii_chars(s@) ==> r@ == s@.map_values(|c: char| ascii_upper_char(c)),
{
    s.to_uppercase()
}

/// What a typed code is read as: without surrounding white space, and upper case — letter by
/// letter where what was typed is ASCII, as a code always is.
pub open spec fn typed_as(offered: Seq<char>) -> Seq<char> {
    let t = trimmed(offered);
    if is_ascii_chars(t) {
        t.map_values(|c: char| ascii_upper_char(c))
    } else {
        upper_case(t)
    }
}

/// Whether `offered` is `code` as a person would type it: surrounding white space ignored,
/// and case ignored.
pub open spec fn answers(code: Seq<char>, offered: Seq<char>) -> bool {
    typed_as(offered) == code
}

/// A code as it is sent to the Host: trimmed and upper-cased, so what somebody typed in lower
/// case, with a space, is still the code that is on the Host's screen.
pub fn as_typed(typed: &str) -> (r: String)
    ensures
        r@ == typed_as(typed@),
{
    to_upper(trim(typed))
}

/// Whether a code this old, with this many wrong answers, has stopped being an answer.
pub open spec fn lapsed(seconds: u64, wrong: u32) -> bool {
    seconds >= LIFE_SECONDS || wrong >= TRIES
}

/// Seconds left of a code's life, after `seconds` and `nanos` have gone by.
pub open spec fn remaining(seconds: u64, nanos: u32) -> u64 {
    if seconds >= LIFE_SECONDS {
        0
    } else if nanos == 0 {
        (LIFE_SECONDS - seconds) as u64
    } else {
        (LIFE_SECONDS - seconds - 1) as u64
    }
}

/// **A code lives five minutes and ten wrong answers.** It answers until three hundred whole
/// seconds have gone by and while fewer than ten wrong answers were offered, and not a moment
/// or an answer longer; what is left of its life counts down in whole seconds, a second begun
/// counted as gone.
pub proof fn a_code_lives_five_minutes_and_ten_answers(seconds: u64, wrong: u32, nanos: u32)
    ensures
        lapsed(seconds, wrong) <==> (seconds >= 300 || wrong >= 10),
        seconds < 300 && nanos == 0 ==> remaining(seconds, nanos) == 300 - seconds,
        seconds < 300 && nanos > 0 ==> remaining(seconds, nanos) == 299 - seconds,
        seconds >= 300 ==> remaining(seconds, nanos) == 0,
{
}

/// The code spelled by random bytes: each byte picks a letter of the alphabet.
pub open spec fn spelled(bytes: Seq<u8>) -> Seq<char> {
    Seq::new(bytes.len(), |i: int| alphabet()[bytes[i] as int % 31])
}

/// A short code, alive for [`LIFE_SECONDS`].
#[derive(Debug)]
pub struct Code {
    code: String,
    made: Instant,
    wrong: u32,
}

/// One letter of the alphabet, chosen by a byte.
fn letter(b: u8) -> (c: char)
    ensures
        c == alphabet()[b as int % 31],
{
    let letters = "ABCDEFGHJKMNPQRSTUVWXYZ23456789";
    proof {
        reveal_strlit("ABCDEFGHJKMNPQRSTUVWXYZ23456789");
    }
    letters.get_char((b % 31) as usize)
}

/// The code that random bytes spell.
pub fn spell(bytes: &[u8]) -> (s: String)
    ensures
        s@ == spelled(bytes@),
{
    let mut s = String::new();
    let mut i: usize = 0;
    while i < bytes.len()
        invariant
            0 <= i <= bytes@.len(),
            s@ == spelled(bytes@).take(i as int),
        decreases bytes@.len() - i,
    {
        crate::text::push_char(&mut s, letter(bytes[i]));
        i = i + 1;
        assert(s@ =~= spelled(bytes@).take(i as int));
    }
    assert(s@ =~= spelled(bytes@));
    s
}

impl Clone for Code {
    fn clone(&self) -> (r: Self)
        ensures
            r == *self,
    {
        Code { code: self.code.clone(), made: self.made, wrong: self.wrong }
    }
}

impl Code {
    /// What the code says.
    pub closed spec fn said(&self) -> Seq<char> {
        self.code@
    }

    /// When it was made.
    pub closed spec fn born(&self) -> Instant {
        self.made
    }

    /// How many wrong answers it has taken.
    pub closed spec fn misses(&self) -> u32 {
        self.wrong
    }

    /// A code keeps its letters and its birth whatever is offered.
    pub proof fn lemma_with_miss(self)
        ensures
            self.with_miss().said() == self.said(),
            self.with_miss().born() == self.born(),
            self.with_miss().well_formed() == self.well_formed(),
            self.misses() < u32::MAX ==> self.with_miss().misses() == self.misses() + 1,
            self.misses() == u32::MAX ==> self.with_miss().misses() == u32::MAX,
    {
    }

    /// The same code with one more wrong answer counted, stopping at the largest count.
    pub closed spec fn with_miss(self) -> Code {
        Code {
            wrong: if self.wrong == u32::MAX {
                u32::MAX
            } else {
                (self.wrong + 1) as u32
            },
            ..self
        }
    }

    /// What offering `offered` after `seconds` does: whether it was right, and the code after.
    /// A right answer leaves the code as it was; a wrong one is counted.
    pub open spec fn attempted(self, offered: Seq<char>, seconds: u64) -> (bool, Code) {
        if !lapsed(seconds, self.misses()) && answers(self.said(), offered) {
            (true, self)
        } else {
            (false, self.with_miss())
        }
    }

    /// Six letters of the alphabet.
    pub closed spec fn well_formed(&self) -> bool {
        &&& self.code@.len() == LENGTH
        &&& forall|i: int| 0 <= i < self.code@.len() ==> alphabet().contains(#[trigger] self.code@[i])
    }

    /// A fresh code from the operating system's randomness, or the reason there is none.
    pub fn fresh() -> (r: Result<Code, String>)
        ensures
            r matches Ok(code) ==> code.well_formed() && code.misses() == 0,
            r matches Ok(code) ==> code.said().len() == LENGTH && forall|i: int|
                0 <= i < LENGTH ==> alphabet().contains(#[trigger] code.said()[i]),
            r matches Err(why) ==> why@ == "the operating system must provide randomness"@,
    {
        match os_random(LENGTH) {
            Ok(bytes) => {
                let code = spell(bytes.as_slice());
                let made = instant_now();
                let fresh = Code { code, made, wrong: 0 };
                assert forall|i: int| 0 <= i < fresh.code@.len() implies alphabet().contains(
                    #[trigger] fresh.code@[i],
                ) by {
                    let k = bytes@[i] as int % 31;
                    assert(alphabet().len() == 31) by {
                        reveal_strlit("ABCDEFGHJKMNPQRSTUVWXYZ23456789");
                    }
                    assert(alphabet()[k] == fresh.code@[i]);
                }
                Ok(fresh)
            },
            Err(_) => Err(String::from_str("the operating system must provide randomness")),
        }
    }

    pub fn as_str(&self) -> (r: &str)
        ensures
            r@ == self.said(),
    {
        self.code.as_str()
    }

    /// Whether this code is no longer an answer once `seconds` have gone by since it was made.
    pub fn expired_after(&self, seconds: u64) -> (r: bool)
        ensures
            r == lapsed(seconds, self.misses()),
    {
        seconds >= LIFE_SECONDS || self.wrong >= TRIES
    }

    /// Whether this code is no longer an answer — out of time, or out of attempts. Out of
    /// attempts is always expired; out of time depends on the clock.
    pub fn expired(&self) -> (r: bool)
        ensures
            self.misses() >= TRIES ==> r,
    {
        let (seconds, _) = seconds_since(&self.made);
        self.expired_after(seconds)
    }

    /// Seconds left once `seconds` and `nanos` have gone by. Zero once it has run out.
    pub fn left_after(seconds: u64, nanos: u32) -> (r: u64)
        ensures
            r == remaining(seconds, nanos),
    {
        if seconds >= LIFE_SECONDS {
            0
        } else if nanos == 0 {
            LIFE_SECONDS - seconds
        } else {
            LIFE_SECONDS - seconds - 1
        }
    }

    /// Seconds left, for a screen to count down with.
    pub fn left(&self) -> (r: u64)
        ensures
            r <= LIFE_SECONDS,
    {
        let (seconds, nanos) = seconds_since(&self.made);
        Self::left_after(seconds, nanos)
    }

    /// Whether an offered code is this one, once `seconds` have gone by.
    ///
    /// **Constant time**: every byte is compared whatever the earlier ones said, so a guesser
    /// learns nothing from how long a refusal took.
    pub fn matches_after(&self, offered: &str, seconds: u64) -> (r: bool)
        ensures
            r == (!lapsed(seconds, self.misses()) && answers(self.said(), offered@)),
    {
        if self.expired_after(seconds) {
            return false;
        }
        let theirs = to_upper(trim(offered));
        crate::text::same_secretly(self.code.as_str(), theirs.as_str())
    }

    /// Whether an offered code is this one. Never once it is out of attempts, and never
    /// unless it is this code as a person would type it; the clock decides the rest.
    pub fn matches(&self, offered: &str) -> (r: bool)
        ensures
            r ==> self.misses() < TRIES && answers(self.said(), offered@),
    {
        let (seconds, _) = seconds_since(&self.made);
        self.matches_after(offered, seconds)
    }

    /// Offer a code once `seconds` have gone by, and pay for being wrong.
    pub fn attempt_after(&mut self, offered: &str, seconds: u64) -> (r: bool)
        ensures
            (r, *final(self)) == old(self).attempted(offered@, seconds),
    {
        if self.matches_after(offered, seconds) {
            return true;
        }
        self.wrong = self.wrong.saturating_add(1);
        false
    }

    /// Offer a code, and pay for being wrong.
    ///
    /// The counting is the point: after [`TRIES`] wrong answers the code is burnt. A right
    /// answer costs nothing.
    pub fn attempt(&mut self, offered: &str) -> (r: bool)
        ensures
            exists|seconds: u64| (r, *final(self)) == #[trigger] old(self).attempted(offered@, seconds),
    {
        let (seconds, _) = seconds_since(&self.made);
        self.attempt_after(offered, seconds)
    }
}

/// Whether a character is one a person could read as another: `0` and `O`, `1`, `I` and `L`.
pub open spec fn ambiguous(c: char) -> bool {
    c == '0' || c == 'O' || c == '1' || c == 'I' || c == 'L'
}

/// **A code is something a person can read aloud.** Six characters of the alphabet, each an
/// ASCII capital or digit, none of which could be read as another, so what is typed on one
/// machine is what the other one showed.
pub proof fn a_code_is_read_aloud(code: Code)
    requires
        code.well_formed(),
    ensures
        code.said().len() == LENGTH,
        forall|i: int| 0 <= i < code.said().len() ==> alphabet().contains(#[trigger] code.said()[i]),
        forall|i: int| 0 <= i < code.said().len() ==> !ambiguous(#[trigger] code.said()[i]),
        forall|i: int|
            0 <= i < code.said().len() ==> ('A' <= #[trigger] code.said()[i] <= 'Z' || '2'
                <= code.said()[i] <= '9'),
        is_ascii_chars(code.said()),
{
    reveal_strlit("ABCDEFGHJKMNPQRSTUVWXYZ23456789");
    assert forall|i: int| 0 <= i < code.said().len() implies !ambiguous(#[trigger] code.said()[i])
        && ('A' <= code.said()[i] <= 'Z' || '2' <= code.said()[i] <= '9') by {
        assert(alphabet().contains(code.said()[i]));
        let j = choose|j: int| 0 <= j < alphabet().len() && alphabet()[j] == code.said()[i];
        assert(!ambiguous(alphabet()[j]));
        assert('A' <= alphabet()[j] <= 'Z' || '2' <= alphabet()[j] <= '9');
    }
}

/// One ASCII capital made lower case; every other character unchanged.
pub open spec fn ascii_lower_char(c: char) -> char {
    if 'A' <= c <= 'Z' {
        ((c as u32) + 32) as char
    } else {
        c
    }
}

/// Whether every character of `w` is white space.
pub open spec fn all_white(w: Seq<char>) -> bool {
    forall|i: int| 0 <= i < w.len() ==> is_white(#[trigger] w[i])
}

proof fn lemma_trim_start_past(w: Seq<char>, s: Seq<char>)
    requires
        all_white(w),
        s.len() > 0,
        !is_white(s[0]),
    ensures
        trim_start(w + s) == s,
    decreases w.len(),
{
    if w.len() == 0 {
        assert(w + s =~= s);
    } else {
        assert((w + s).drop_first() =~= w.drop_first() + s);
        lemma_trim_start_past(w.drop_first(), s);
    }
}

proof fn lemma_trim_end_past(s: Seq<char>, w: Seq<char>)
    requires
        all_white(w),
        s.len() > 0,
        !is_white(s.last()),
    ensures
        trim_end(s + w) == s,
    decreases w.len(),
{
    if w.len() == 0 {
        assert(s + w =~= s);
    } else {
        assert((s + w).drop_last() =~= s + w.drop_last());
        lemma_trim_end_past(s, w.drop_last());
    }
}

proof fn lemma_trimmed_between(before: Seq<char>, m: Seq<char>, after: Seq<char>)
    requires
        all_white(before),
        all_white(after),
        m.len() > 0,
        !is_white(m[0]),
        !is_white(m.last()),
    ensures
        trimmed(before + m + after) == m,
{
    assert(before + m + after =~= before + (m + after));
    assert((m + after)[0] == m[0]);
    lemma_trim_start_past(before, m + after);
    lemma_trim_end_past(m, after);
}

/// **A code answers however a person types it**: in capitals or in lower case, with white space
/// around it or without — and a code with anything more typed after it does not.
pub proof fn a_code_answers_as_a_person_types_it(
    code: Code,
    before: Seq<char>,
    after: Seq<char>,
    more: char,
)
    requires
        code.well_formed(),
        all_white(before),
        all_white(after),
        !is_white(more),
        more <= '\u{7f}',
    ensures
        answers(code.said(), before + code.said() + after),
        answers(code.said(), before + code.said().map_values(|c: char| ascii_lower_char(c)) + after),
        !answers(code.said(), code.said().push(more)),
{
    a_code_is_read_aloud(code);
    let said = code.said();
    let lower = said.map_values(|c: char| ascii_lower_char(c));
    assert forall|i: int| 0 <= i < said.len() implies !is_white(#[trigger] said[i]) && !is_white(
        lower[i],
    ) && '\0' <= lower[i] <= '\u{7f}' && ascii_upper_char(lower[i]) == said[i] && ascii_upper_char(
        said[i],
    ) == said[i] by {
        assert('A' <= said[i] <= 'Z' || '2' <= said[i] <= '9');
        if 'A' <= said[i] <= 'Z' {
            assert(lower[i] == ((said[i] as u32) + 32) as char);
            assert('a' <= lower[i] <= 'z');
        }
    }
    lemma_trimmed_between(before, said, after);
    lemma_trimmed_between(before, lower, after);
    assert(said.map_values(|c: char| ascii_upper_char(c)) =~= said);
    assert(lower.map_values(|c: char| ascii_upper_char(c)) =~= said);
    let longer = said.push(more);
    assert(longer.last() == more);
    assert(longer[0] == said[0]);
    assert(trimmed(longer) == longer) by {
        lemma_trimmed_between(Seq::empty(), longer, Seq::empty());
        assert(Seq::<char>::empty() + longer + Seq::<char>::empty() =~= longer);
    }
    assert(is_ascii_chars(longer)) by {
        assert forall|i: int| 0 <= i < longer.len() implies '\0' <= #[trigger] longer[i] <= '\u{7f}' by {
            if i < said.len() {
                assert(longer[i] == said[i]);
            }
        }
    }
    assert(typed_as(longer).len() == said.len() + 1);
}

} // verus!
