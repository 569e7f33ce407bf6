//! Text, as sequences of characters: the small pieces every page and every check here is
//! built from.

use vstd::prelude::*;
use vstd::string::*;

verus! {

/// Appends one character.
///
/// `String::push`: the string afterwards is the one before with `c` at its end.
#[verifier::external_body]
pub(crate) fn push_char(s: &mut String, c: char)
    ensures
        final(s)@ == old(s)@.push(c),
{
    s.push(c)
}

/// The characters of a string slice, in order.
pub fn chars_of(s: &str) -> (v: Vec<char>)
    ensures
        v@ == s@,
{
    let mut v: Vec<char> = Vec::new();
    for c in it: s.chars()
        invariant
            v@ == it.seq().take(it.index() as int),
            it.seq() == s@,
    {
        v.push(c);
    }
    v
}

} // verus!

verus! {

/// Whether a character is white space in the Unicode sense (the `White_Space` property),
/// which is the sense `str::trim` uses.
pub open spec fn is_white(c: char) -> bool {
    ||| '\u{9}' <= c <= '\u{d}'
    ||| c == ' '
    ||| c == '\u{85}'
    ||| c == '\u{a0}'
    ||| c == '\u{1680}'
    ||| '\u{2000}' <= c <= '\u{200a}'
    ||| c == '\u{2028}'
    ||| c == '\u{2029}'
    ||| c == '\u{202f}'
    ||| c == '\u{205f}'
    ||| c == '\u{3000}'
}

/// `s` without the white space at its start.
pub open spec fn trim_start(s: Seq<char>) -> Seq<char>
    decreases s.len(),
{
    if s.len() > 0 && is_white(s[0]) {
        trim_start(s.drop_first())
    } else {
        s
    }
}

/// `s` without the white space at its end.
pub open spec fn trim_end(s: Seq<char>) -> Seq<char>
    decreases s.len(),
{
    if s.len() > 0 && is_white(s.last()) {
        trim_end(s.drop_last())
    } else {
        s
    }
}

/// `s` without white space at either end.
pub open spec fn trimmed(s: Seq<char>) -> Seq<char> {
    trim_end(trim_start(s))
}

/// `str::trim`: the slice without its leading and trailing white space, where white space is
/// the Unicode `White_Space` property, as the standard library documents it.
#[verifier::external_body]
pub(crate) fn trim(s: &str) -> (r: &str)
    ensures
        r@ == trimmed(s@),
{
    s.trim()
}

/// The character for one decimal digit.
pub open spec fn digit(d: nat) -> char {
    (48 + d) as char
}

/// A number written in decimal, with no sign and no leading zero.
pub open spec fn decimal(n: nat) -> Seq<char>
    decreases n,
{
    if n < 10 {
        seq![digit(n)]
    } else {
        decimal(n / 10).push(digit(n % 10))
    }
}

/// The character for one decimal digit.
pub fn digit_char(d: u64) -> (c: char)
    requires
        d < 10,
    ensures
        c == digit(d as nat),
{
    let b: u8 = 48u8 + (d as u8);
    b as char
}

/// A number written in decimal.
pub fn decimal_of(n: u64) -> (s: String)
    ensures
        s@ == decimal(n as nat),
    decreases n,
{
    if n < 10 {
        let mut s = String::new();
        push_char(&mut s, digit_char(n));
        s
    } else {
        let mut s = decimal_of(n / 10);
        push_char(&mut s, digit_char(n % 10));
        s
    }
}

/// Whether two strings are the same characters.
pub fn same(a: &str, b: &str) -> (r: bool)
    ensures
        r == (a@ == b@),
{
    let x = chars_of(a);
    let y = chars_of(b);
    if x.len() != y.len() {
        return false;
    }
    let mut i: usize = 0;
    while i < x.len()
        invariant
            x@ == a@,
            y@ == b@,
            x.len() == y.len(),
            0 <= i <= x.len(),
            forall|j: int| 0 <= j < i ==> x@[j] == y@[j],
        decreases x.len() - i,
    {
        if x[i] != y[i] {
            return false;
        }
        i = i + 1;
    }
    assert(x@ =~= y@);
    true
}

} // verus!

verus! {

/// The characters of `v` from `from` up to `to`, as a string.
pub fn string_of(v: &Vec<char>, from: usize, to: usize) -> (s: String)
    requires
        from <= to <= v@.len(),
    ensures
        s@ == v@.subrange(from as int, to as int),
{
    let mut s = String::new();
    let mut i = from;
    while i < to
        invariant
            from <= i <= to <= v@.len(),
            s@ == v@.subrange(from as int, i as int),
        decreases to - i,
    {
        push_char(&mut s, v[i]);
        i = i + 1;
        assert(s@ =~= v@.subrange(from as int, i as int));
    }
    s
}

/// Whether two byte strings are equal, looking at every byte whatever the earlier ones said:
/// how long a refusal takes says nothing about how much of a secret was right.
pub fn same_bytes(a: &[u8], b: &[u8]) -> (r: bool)
    ensures
        r == (a@ == b@),
{
    if a.len() != b.len() {
        assert(a@.len() != b@.len());
        return false;
    }
    let mut wrong: u8 = 0;
    let mut i: usize = 0;
    while i < a.len()
        invariant
            a@.len() == b@.len(),
            0 <= i <= a@.len(),
            (wrong == 0) == (forall|j: int| 0 <= j < i ==> a@[j] == b@[j]),
        decreases a@.len() - i,
    {
        let x = a[i];
        let y = b[i];
        let next = wrong | (x ^ y);
        assert((next == 0) == (wrong == 0 && x == y)) by (bit_vector)
            requires
                next == wrong | (x ^ y),
        ;
        wrong = next;
        i = i + 1;
    }
    proof {
        if wrong == 0 {
            assert(a@ =~= b@);
        }
    }
    wrong == 0
}

/// Whether two strings are the same characters, compared byte by byte in constant time.
pub fn same_secretly(a: &str, b: &str) -> (r: bool)
    ensures
        r == (a@ == b@),
{
    proof {
        vstd::utf8::encode_utf8_decode_utf8(a@);
        vstd::utf8::encode_utf8_decode_utf8(b@);
    }
    same_bytes(a.as_bytes(), b.as_bytes())
}

/// Where `c` last occurs in `s`, if it does.
pub open spec fn last_index_of(s: Seq<char>, c: char) -> Option<int>
    decreases s.len(),
{
    if s.len() == 0 {
        None
    } else if s.last() == c {
        Some(s.len() - 1)
    } else {
        last_index_of(s.drop_last(), c)
    }
}

/// Where `c` last occurs in `v`, if it does.
pub fn last_index(v: &Vec<char>, c: char) -> (r: Option<usize>)
    ensures
        match r {
            Some(i) => last_index_of(v@, c) == Some(i as int) && i < v@.len(),
            None => last_index_of(v@, c) is None,
        },
{
    let mut n = v.len();
    assert(v@.take(n as int) =~= v@);
    while n > 0
        invariant
            0 <= n <= v@.len(),
            last_index_of(v@, c) == last_index_of(v@.take(n as int), c),
        decreases n,
    {
        assert(v@.take(n as int).drop_last() =~= v@.take(n - 1));
        if v[n - 1] == c {
            return Some(n - 1);
        }
        n = n - 1;
    }
    None
}

/// Whether every character of `s` is an ASCII digit.
pub open spec fn all_digits(s: Seq<char>) -> bool {
    forall|i: int| 0 <= i < s.len() ==> '0' <= #[trigger] s[i] <= '9'
}

/// Whether the characters of `v` from `from` on are all ASCII digits.
pub fn digits_from(v: &Vec<char>, from: usize) -> (r: bool)
    requires
        from <= v@.len(),
    ensures
        r == all_digits(v@.subrange(from as int, v@.len() as int)),
{
    let mut i = from;
    while i < v.len()
        invariant
            from <= i <= v@.len(),
            forall|j: int| from <= j < i ==> '0' <= #[trigger] v@[j] <= '9',
        decreases v@.len() - i,
    {
        if !('0' <= v[i] && v[i] <= '9') {
            assert(!('0' <= v@.subrange(from as int, v@.len() as int)[i - from] <= '9'));
            return false;
        }
        i = i + 1;
    }
    true
}

} // verus!

verus! {

/// The characters of `v` from `from` up to `to`.
pub fn slice_of(v: &Vec<char>, from: usize, to: usize) -> (r: Vec<char>)
    requires
        from <= to <= v@.len(),
    ensures
        r@ == v@.subrange(from as int, to as int),
{
    let mut r: Vec<char> = Vec::new();
    let mut i = from;
    while i < to
        invariant
            from <= i <= to <= v@.len(),
            r@ == v@.subrange(from as int, i as int),
        decreases to - i,
    {
        r.push(v[i]);
        i = i + 1;
        assert(r@ =~= v@.subrange(from as int, i as int));
    }
    r
}

} // verus!

verus! {

/// Parts joined by a separator.
pub open spec fn joined_by(parts: Seq<Seq<char>>, sep: Seq<char>) -> Seq<char>
    decreases parts.len(),
{
    if parts.len() == 0 {
        Seq::empty()
    } else if parts.len() == 1 {
        parts[0]
    } else {
        joined_by(parts.drop_last(), sep) + sep + parts.last()
    }
}

/// The text of each string.
pub open spec fn views(v: Seq<String>) -> Seq<Seq<char>> {
    v.map_values(|s: String| s@)
}

/// Strings joined by a separator.
pub fn join(parts: &Vec<String>, sep: &str) -> (r: String)
    ensures
        r@ == joined_by(views(parts@), sep@),
{
    let mut out = String::new();
    let mut i: usize = 0;
    while i < parts.len()
        invariant
            0 <= i <= parts@.len(),
            out@ == joined_by(views(parts@).take(i as int), sep@),
        decreases parts@.len() - i,
    {
        assert(views(parts@).take(i + 1).drop_last() =~= views(parts@).take(i as int));
        if i > 0 {
            out.append(sep);
        } else {
            assert(views(parts@).take(1) =~= seq![parts@[0]@]);
        }
        out.append(parts[i].as_str());
        i = i + 1;
    }
    assert(views(parts@).take(parts@.len() as int) =~= views(parts@));
    out
}

} // verus!

verus! {

/// The number some decimal digits spell.
pub open spec fn digits_value(s: Seq<char>) -> nat
    decreases s.len(),
{
    if s.len() == 0 {
        0
    } else {
        digits_value(s.drop_last()) * 10 + (s.last() as nat - 48) as nat
    }
}

/// The number `str::parse` reads from `s` for an unsigned type with room for anything: an
/// optional `+`, then at least one ASCII digit and nothing else.
pub open spec fn parsed(s: Seq<char>) -> Option<nat> {
    let d = if s.len() > 0 && s[0] == '+' {
        s.skip(1)
    } else {
        s
    };
    if d.len() > 0 && all_digits(d) {
        Some(digits_value(d))
    } else {
        None
    }
}

/// The number `s` spells, as `str::parse` reads an unsigned integer no greater than `most`:
/// nothing when it spells none, or one greater than that.
pub fn parse_at_most(s: &str, most: u64) -> (r: Option<u64>)
    ensures
        match r {
            Some(n) => parsed(s@) == Some(n as nat) && n <= most,
            None => parsed(s@) is None || parsed(s@).unwrap() > most,
        },
{
    let v = chars_of(s);
    let from: usize = if v.len() > 0 && v[0] == '+' {
        1
    } else {
        0
    };
    let ghost d = v@.subrange(from as int, v@.len() as int);
    assert(d =~= if s@.len() > 0 && s@[0] == '+' {
        s@.skip(1)
    } else {
        s@
    });
    if from >= v.len() || !digits_from(&v, from) {
        return None;
    }
    let mut n: u64 = 0;
    let mut i = from;
    while i < v.len()
        invariant
            from <= i <= v@.len(),
            v@ == s@,
            all_digits(d),
            d.len() > 0,
            d == v@.subrange(from as int, v@.len() as int),
            d == (if s@.len() > 0 && s@[0] == '+' {
                s@.skip(1)
            } else {
                s@
            }),
            n as nat == digits_value(v@.subrange(from as int, i as int)),
            n <= most,
        decreases v@.len() - i,
    {
        let ghost before = v@.subrange(from as int, i as int);
        assert(v@.subrange(from as int, i + 1).drop_last() =~= before);
        assert('0' <= d[i - from] <= '9');
        let digit = (v[i] as u32 - 48) as u64;
        assert(digit as nat == (v@[i as int] as nat - 48) as nat);
        assert(v@.subrange(from as int, i + 1) =~= d.take(i - from + 1));
        assert(digits_value(d.take(i - from + 1)) == n * 10 + digit);
        if digit > most || n > (most - digit) / 10 {
            proof {
                lemma_digits_grow(d, (i - from) as int);
                if digit <= most {
                    assert(n * 10 + digit > most) by (nonlinear_arith)
                        requires
                            n > (most - digit) / 10,
                            digit <= most,
                    ;
                }
                assert(parsed(s@) == Some(digits_value(d)));
            }
            return None;
        }
        assert(n * 10 + digit <= most) by (nonlinear_arith)
            requires
                n <= (most - digit) / 10,
                digit <= most,
        ;
        n = n * 10 + digit;
        i = i + 1;
    }
    assert(v@.subrange(from as int, i as int) =~= d);
    Some(n)
}

/// A prefix of digits spells no more than the whole of them.
proof fn lemma_digits_grow(d: Seq<char>, k: int)
    requires
        all_digits(d),
        0 <= k < d.len(),
    ensures
        digits_value(d) >= digits_value(d.take(k + 1)),
    decreases d.len(),
{
    if d.len() > k + 1 {
        assert(d.drop_last().take(k + 1) =~= d.take(k + 1));
        assert(all_digits(d.drop_last()));
        lemma_digits_grow(d.drop_last(), k);
    } else {
        assert(d.take(k + 1) =~= d);
    }
}

/// A number of tenths written with one decimal place.
pub open spec fn one_place(tenths: nat) -> Seq<char> {
    decimal(tenths / 10) + seq!['.', digit(tenths % 10)]
}

/// A number of tenths written with one decimal place.
pub fn one_place_of(tenths: u64) -> (r: String)
    ensures
        r@ == one_place(tenths as nat),
{
    let mut out = decimal_of(tenths / 10);
    push_char(&mut out, '.');
    push_char(&mut out, digit_char(tenths % 10));
    out
}

} // verus!
