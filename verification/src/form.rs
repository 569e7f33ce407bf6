//! What a form posted by the page on this machine says.
//!
//! Small on purpose: a few fields, typed by the person sitting here, in the form encoding a
//! browser sends — `&` between fields, `=` between a name and its value, `+` for a space and
//! `%` with two hex digits for any other byte.

use vstd::prelude::*;
use vstd::string::*;
use vstd::utf8::*;

use crate::text::{chars_of, string_of};

verus! {

/// Whether a byte is an ASCII hexadecimal digit.
pub open spec fn is_hex(b: u8) -> bool {
    (0x30 <= b <= 0x39) || (0x41 <= b <= 0x46) || (0x61 <= b <= 0x66)
}

/// The value of one hexadecimal digit.
pub open spec fn hex_value(b: u8) -> int {
    if b <= 0x39 {
        b - 0x30
    } else if b <= 0x46 {
        b - 0x41 + 10
    } else {
        b - 0x61 + 10
    }
}

/// In form encoding a plus is a space.
pub open spec fn spaced(b: u8) -> u8 {
    if b == 0x2b {
        0x20
    } else {
        b
    }
}

/// The bytes an encoded field stands for: `%` and two hex digits stand for the byte they name,
/// `+` for a space, and anything else for itself — a `%` that is not followed by two hex digits
/// included.
pub open spec fn unescaped(b: Seq<u8>) -> Seq<u8>
    decreases b.len(),
{
    if b.len() == 0 {
        Seq::empty()
    } else if b[0] == 0x25 && b.len() >= 3 && is_hex(b[1]) && is_hex(b[2]) {
        seq![(16 * hex_value(b[1]) + hex_value(b[2])) as u8] + unescaped(b.skip(3))
    } else {
        seq![spaced(b[0])] + unescaped(b.skip(1))
    }
}

/// The text `String::from_utf8_lossy` makes of some bytes.
pub uninterp spec fn lossy(bytes: Seq<u8>) -> Seq<char>;

/// `String::from_utf8_lossy`, owned: the text the bytes spell, each run that is not UTF-8
/// replaced by U+FFFD. Bytes that are UTF-8 come back as exactly the text they encode; what the
/// replacement makes of the others is left to the name.
#[verifier::external_body]
fn text_of(bytes: &[u8]) -> (r: String)
    ensures
        r@ == lossy(bytes@),
        valid_utf8(bytes@) ==> r@ == decode_utf8(bytes@),
{
    String::from_utf8_lossy(bytes).into_owned()
}

/// The text an encoded field stands for.
pub open spec fn unescape_text(raw: Seq<char>) -> Seq<char> {
    lossy(unescaped(encode_utf8(raw)))
}

/// One field of a form, decoded: `+` is a space, `%XY` is the byte `XY` names, and bytes that
/// do not spell UTF-8 afterwards are replaced rather than refused.
pub fn unescape(raw: &str) -> (r: String)
    ensures
        r@ == unescape_text(raw@),
        valid_utf8(unescaped(encode_utf8(raw@))) ==> r@ == decode_utf8(
            unescaped(encode_utf8(raw@)),
        ),
{
    let bytes = raw.as_bytes();
    let ghost b = bytes@;
    assert(b == encode_utf8(raw@));
    let mut out: Vec<u8> = Vec::new();
    let mut i: usize = 0;
    assert(b.skip(0) =~= b);
    while i < bytes.len()
        invariant
            bytes@ == b,
            0 <= i <= b.len(),
            out@ + unescaped(b.skip(i as int)) == unescaped(b),
        decreases b.len() - i,
    {
        let ghost rest = b.skip(i as int);
        if bytes[i] == 0x25u8 && bytes.len() - i >= 3 && is_hex_byte(bytes[i + 1]) && is_hex_byte(
            bytes[i + 2],
        ) {
            let byte = 16 * hex_of(bytes[i + 1]) + hex_of(bytes[i + 2]);
            out.push(byte);
            assert(rest.skip(3) =~= b.skip(i + 3));
            assert(out@ + unescaped(b.skip(i + 3)) =~= unescaped(b));
            i = i + 3;
        } else {
            let c = if bytes[i] == 0x2bu8 {
                0x20u8
            } else {
                bytes[i]
            };
            out.push(c);
            assert(rest.skip(1) =~= b.skip(i + 1));
            assert(out@ + unescaped(b.skip(i + 1)) =~= unescaped(b));
            i = i + 1;
        }
    }
    assert(b.skip(i as int) =~= Seq::<u8>::empty());
    assert(out@ =~= unescaped(b));
    text_of(out.as_slice())
}

fn is_hex_byte(b: u8) -> (r: bool)
    ensures
        r == is_hex(b),
{
    (0x30 <= b && b <= 0x39) || (0x41 <= b && b <= 0x46) || (0x61 <= b && b <= 0x66)
}

fn hex_of(b: u8) -> (r: u8)
    requires
        is_hex(b),
    ensures
        r == hex_value(b),
        r < 16,
{
    if b <= 0x39 {
        b - 0x30
    } else if b <= 0x46 {
        b - 0x41 + 10
    } else {
        b - 0x61 + 10
    }
}

/// With no `%` among them, the bytes stand for themselves, each `+` a space.
proof fn lemma_plain_bytes(b: Seq<u8>)
    requires
        forall|i: int| 0 <= i < b.len() ==> b[i] != 0x25,
    ensures
        unescaped(b) == b.map_values(|x: u8| spaced(x)),
    decreases b.len(),
{
    if b.len() > 0 {
        lemma_plain_bytes(b.skip(1));
        assert(unescaped(b) =~= b.map_values(|x: u8| spaced(x)));
    } else {
        assert(unescaped(b) =~= b.map_values(|x: u8| spaced(x)));
    }
}

/// A field of ASCII text with no `%` in it.
pub open spec fn plain_ascii(raw: Seq<char>) -> bool {
    is_ascii_chars(raw) && !raw.contains('%')
}

/// Each `+` a space.
pub open spec fn plus_as_space(raw: Seq<char>) -> Seq<char> {
    raw.map_values(|c: char| if c == '+' { ' ' } else { c })
}

/// **A plus is a space and not a plus.** A machine called "Studio Mac" arrives as `Studio+Mac`,
/// and a field of plain ASCII with no `%` in it stands for exactly its own text with each `+`
/// read as a space.
pub proof fn a_plus_is_a_space(raw: Seq<char>)
    requires
        plain_ascii(raw),
    ensures
        valid_utf8(unescaped(encode_utf8(raw))),
        decode_utf8(unescaped(encode_utf8(raw))) == plus_as_space(raw),
{
    let e = encode_utf8(raw);
    is_ascii_chars_encode_utf8(raw);
    assert forall|i: int| 0 <= i < e.len() implies e[i] != 0x25 by {
        assert(raw[i] as u8 == e[i]);
        if e[i] == 0x25 {
            assert(raw[i] == '%');
            assert(raw.contains('%'));
        }
    }
    lemma_plain_bytes(e);
    let p = plus_as_space(raw);
    assert(is_ascii_chars(p));
    is_ascii_chars_encode_utf8(p);
    assert(unescaped(e) =~= encode_utf8(p)) by {
        assert forall|i: int| 0 <= i < e.len() implies #[trigger] unescaped(e)[i] == encode_utf8(
            p,
        )[i] by {
            assert(raw[i] as u8 == e[i]);
            assert(p[i] as u8 == encode_utf8(p)[i]);
        }
    }
    encode_utf8_valid_utf8(p);
    encode_utf8_decode_utf8(p);
}

} // verus!

verus! {

/// The pieces of `s` between `&`s, the piece that began at `start` running through `i`.
pub open spec fn pieces_from(s: Seq<char>, start: int, i: int) -> Seq<Seq<char>>
    decreases s.len() - i,
{
    if i >= s.len() {
        seq![s.subrange(start, s.len() as int)]
    } else if s[i] == '&' {
        seq![s.subrange(start, i)] + pieces_from(s, i + 1, i + 1)
    } else {
        pieces_from(s, start, i + 1)
    }
}

/// What `str::split('&')` makes of `s`: every piece between two `&`s, empty ones included.
pub open spec fn pieces(s: Seq<char>) -> Seq<Seq<char>> {
    pieces_from(s, 0, 0)
}

/// The first `=` in `p` at or after `i`.
pub open spec fn equals_from(p: Seq<char>, i: int) -> Option<int>
    decreases p.len() - i,
{
    if i < 0 || i >= p.len() {
        None
    } else if p[i] == '=' {
        Some(i)
    } else {
        equals_from(p, i + 1)
    }
}

/// One piece as a name and a value, split at its first `=`; a piece without one is no field.
pub open spec fn field_of(p: Seq<char>) -> Option<(Seq<char>, Seq<char>)> {
    match equals_from(p, 0) {
        Some(k) => Some((unescape_text(p.take(k)), unescape_text(p.skip(k + 1)))),
        None => None,
    }
}

/// The fields of some pieces, in order.
pub open spec fn fields_of(ps: Seq<Seq<char>>) -> Seq<(Seq<char>, Seq<char>)>
    decreases ps.len(),
{
    if ps.len() == 0 {
        Seq::empty()
    } else {
        match field_of(ps.last()) {
            Some(f) => fields_of(ps.drop_last()).push(f),
            None => fields_of(ps.drop_last()),
        }
    }
}

/// The value a form gives a name: the last one it sent under that name, as a map that is filled
/// in order keeps it.
pub open spec fn lookup(fields: Seq<(Seq<char>, Seq<char>)>, name: Seq<char>) -> Option<Seq<char>>
    decreases fields.len(),
{
    if fields.len() == 0 {
        None
    } else if fields.last().0 == name {
        Some(fields.last().1)
    } else {
        lookup(fields.drop_last(), name)
    }
}

/// **The last value sent under a name is the one read.** A field sent after all the others
/// answers for its name, whatever was sent under it before, and leaves every other name's value
/// as it was.
pub proof fn the_last_value_sent_is_read(
    fields: Seq<(Seq<char>, Seq<char>)>,
    name: Seq<char>,
    value: Seq<char>,
    other: Seq<char>,
)
    requires
        other != name,
    ensures
        lookup(fields.push((name, value)), name) == Some(value),
        lookup(fields.push((name, value)), other) == lookup(fields, other),
        lookup(Seq::<(Seq<char>, Seq<char>)>::empty(), name) is None,
{
    assert(fields.push((name, value)).drop_last() =~= fields);
}

/// A posted form: its fields, decoded, in the order they were sent.
pub struct Form {
    pub fields: Vec<(String, String)>,
}

impl View for Form {
    type V = Seq<(Seq<char>, Seq<char>)>;

    open spec fn view(&self) -> Seq<(Seq<char>, Seq<char>)> {
        self.fields@.map_values(|f: (String, String)| (f.0@, f.1@))
    }
}

/// The first `=` in `p`.
fn find_equals(p: &Vec<char>) -> (r: Option<usize>)
    ensures
        match r {
            Some(k) => equals_from(p@, 0) == Some(k as int) && k < p@.len(),
            None => equals_from(p@, 0) is None,
        },
{
    let mut i: usize = 0;
    while i < p.len()
        invariant
            0 <= i <= p@.len(),
            equals_from(p@, 0) == equals_from(p@, i as int),
        decreases p@.len() - i,
    {
        if p[i] == '=' {
            return Some(i);
        }
        i = i + 1;
    }
    None
}

/// One piece of a form as a field, if it has an `=`.
fn field_at(v: &Vec<char>, from: usize, to: usize) -> (r: Option<(String, String)>)
    requires
        from <= to <= v@.len(),
    ensures
        match r {
            Some(f) => field_of(v@.subrange(from as int, to as int)) == Some((f.0@, f.1@)),
            None => field_of(v@.subrange(from as int, to as int)) is None,
        },
{
    let piece = crate::text::slice_of(v, from, to);
    match find_equals(&piece) {
        Some(k) => {
            let name = string_of(&piece, 0, k);
            let value = string_of(&piece, k + 1, piece.len());
            assert(piece@.subrange(0, k as int) =~= piece@.take(k as int));
            assert(piece@.subrange(k + 1, piece@.len() as int) =~= piece@.skip(k + 1));
            Some((unescape(name.as_str()), unescape(value.as_str())))
        },
        None => None,
    }
}

/// A posted form, decoded: every `name=value` between the `&`s, in the order it was sent.
pub fn read_form(sent: &str) -> (form: Form)
    ensures
        form@ == fields_of(pieces(sent@)),
{
    let v = chars_of(sent);
    let mut fields: Vec<(String, String)> = Vec::new();
    let ghost mut done: Seq<Seq<char>> = Seq::empty();
    let mut start: usize = 0;
    let mut i: usize = 0;
    while i < v.len()
        invariant
            v@ == sent@,
            0 <= start <= i <= v@.len(),
            done + pieces_from(v@, start as int, i as int) == pieces(v@),
            fields@.map_values(|f: (String, String)| (f.0@, f.1@)) == fields_of(done),
        decreases v@.len() - i,
    {
        if v[i] == '&' {
            let got = field_at(&v, start, i);
            let ghost piece = v@.subrange(start as int, i as int);
            proof {
                assert(done.push(piece).drop_last() =~= done);
                assert(done.push(piece) + pieces_from(v@, i + 1, i + 1) =~= done + pieces_from(
                    v@,
                    start as int,
                    i as int,
                ));
            }
            match got {
                Some(f) => {
                    fields.push(f);
                },
                None => {},
            }
            proof {
                done = done.push(piece);
            }
            assert(fields@.map_values(|f: (String, String)| (f.0@, f.1@)) =~= fields_of(done));
            start = i + 1;
        }
        i = i + 1;
    }
    let got = field_at(&v, start, v.len());
    let ghost piece = v@.subrange(start as int, v@.len() as int);
    proof {
        assert(done.push(piece).drop_last() =~= done);
        assert(done.push(piece) =~= pieces(v@));
    }
    match got {
        Some(f) => {
            fields.push(f);
        },
        None => {},
    }
    assert(fields@.map_values(|f: (String, String)| (f.0@, f.1@)) =~= fields_of(pieces(sent@)));
    Form { fields }
}

impl Form {
    /// The value sent under `name`: the last one, when a name was sent more than once.
    pub fn get(&self, name: &str) -> (r: Option<&str>)
        ensures
            match r {
                Some(v) => lookup(self@, name@) == Some(v@),
                None => lookup(self@, name@) is None,
            },
    {
        let mut i = self.fields.len();
        assert(self@.take(i as int) =~= self@);
        while i > 0
            invariant
                0 <= i <= self.fields@.len(),
                lookup(self@, name@) == lookup(self@.take(i as int), name@),
            decreases i,
        {
            assert(self@.take(i as int).drop_last() =~= self@.take(i - 1));
            if crate::text::same(self.fields[i - 1].0.as_str(), name) {
                return Some(self.fields[i - 1].1.as_str());
            }
            i = i - 1;
        }
        None
    }

    /// Whether anything at all was sent under `name` — a ticked checkbox sends its name.
    pub fn has(&self, name: &str) -> (r: bool)
        ensures
            r == (lookup(self@, name@) is Some),
    {
        self.get(name).is_some()
    }

    /// The value sent under `name`, or nothing at all where none was.
    pub fn value(&self, name: &str) -> (r: String)
        ensures
            r@ == match lookup(self@, name@) {
                Some(v) => v,
                None => Seq::empty(),
            },
    {
        match self.get(name) {
            Some(v) => v.to_string(),
            None => String::new(),
        }
    }
}

} // verus!
