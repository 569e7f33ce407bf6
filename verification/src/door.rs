//! The only way in.
//!
//! Two surfaces, and they are not the same audience. The person's surface accepts no bearer
//! and answers only what came from this program's own window on loopback; the Host's surface
//! accepts no substitute for the secret. Loopback is not authentication, and neither is a LAN.

use vstd::prelude::*;
use vstd::string::*;

use crate::here::{Dialect, resolved, runner_at};
use crate::keep::Bond;
use crate::text::{
    all_digits, chars_of, decimal, decimal_of, digit, digits_from, is_white, last_index,
    last_index_of, same, slice_of, same_secretly, string_of, trim, trim_end, trim_start, trimmed,
};

verus! {

/// Where this program listens for the Host, encrypted.
pub const PORT: u16 = 11500;

/// Where this program serves its own window, in clear text, on loopback and nowhere else.
pub const WINDOW_PORT: u16 = 11499;

/// Where an Epoch Host listens for a machine redeeming a code.
pub const HOST_PORT: u16 = 11501;

/// A host name split from the port after its last colon, when what follows that colon is a
/// port: digits, at least one. Otherwise the colon belongs to the name (an IPv6 address is
/// mostly colons) and there is no port.
pub open spec fn port_split(h: Seq<char>) -> (Seq<char>, Option<Seq<char>>) {
    match last_index_of(h, ':') {
        Some(i) => {
            let tail = h.subrange(i + 1, h.len() as int);
            if tail.len() > 0 && all_digits(tail) {
                (h.subrange(0, i), Some(tail))
            } else {
                (h, None)
            }
        },
        None => (h, None),
    }
}

/// The name and the port of `h`, as [`port_split`] says.
fn split_port(h: &Vec<char>) -> (r: (String, Option<String>))
    ensures
        r.0@ == port_split(h@).0,
        match r.1 {
            Some(p) => port_split(h@).1 == Some(p@),
            None => port_split(h@).1 is None,
        },
{
    assert(h@.subrange(0, h@.len() as int) =~= h@);
    match last_index(h, ':') {
        Some(i) => {
            if i < h.len() - 1 && digits_from(h, i + 1) {
                (string_of(h, 0, i), Some(string_of(h, i + 1, h.len())))
            } else {
                (string_of(h, 0, h.len()), None)
            }
        },
        None => (string_of(h, 0, h.len()), None),
    }
}

/// The names this machine answers to on loopback.
pub open spec fn loopback_name(n: Seq<char>) -> bool {
    n == "127.0.0.1"@ || n == "localhost"@ || n == "[::1]"@ || n == "::1"@
}

/// Whether a `Host` header names this program's window: a loopback name, on the window's port
/// or on none.
pub open spec fn names_us(host: Seq<char>) -> bool {
    let (name, port) = port_split(trimmed(host));
    loopback_name(name) && match port {
        Some(p) => p == decimal(WINDOW_PORT as nat),
        None => true,
    }
}

/// The addresses this program's own window uses, and the only origins a browser may name.
pub open spec fn our_origins() -> Seq<Seq<char>> {
    seq![
        "http://127.0.0.1:"@ + decimal(WINDOW_PORT as nat),
        "http://localhost:"@ + decimal(WINDOW_PORT as nat),
        "http://[::1]:"@ + decimal(WINDOW_PORT as nat),
    ]
}

/// The addresses this program's own window uses, and the only ones a browser may name.
pub fn ours() -> (r: Vec<String>)
    ensures
        r@.len() == 3,
        forall|i: int| 0 <= i < 3 ==> #[trigger] r@[i]@ == our_origins()[i],
{
    let port = decimal_of(WINDOW_PORT as u64);
    let mut a = String::from_str("http://127.0.0.1:");
    a.append(port.as_str());
    let mut b = String::from_str("http://localhost:");
    b.append(port.as_str());
    let mut c = String::from_str("http://[::1]:");
    c.append(port.as_str());
    let r = vec![a, b, c];
    r
}

/// Whether a request with these three facts could have come from the window this program
/// opened: it arrived on loopback, it named us the way we are addressable, and it carries no
/// `Origin` a browser did not get from us.
pub open spec fn our_window(loopback: bool, host: Option<Seq<char>>, origin: Option<Seq<char>>) -> bool {
    &&& loopback
    &&& match host {
        Some(h) => names_us(h),
        None => true,
    }
    &&& match origin {
        Some(o) => our_origins().contains(trimmed(o)),
        None => true,
    }
}

/// The view of an optional string slice.
pub open spec fn opt_view(s: Option<&str>) -> Option<Seq<char>> {
    match s {
        Some(s) => Some(s@),
        None => None,
    }
}

/// Whether a `Host` header names this program's window.
fn named_us(host: &str) -> (r: bool)
    ensures
        r == names_us(host@),
{
    let h = chars_of(trim(host));
    let (name, port) = split_port(&h);
    let n = name.as_str();
    let loopback = same(n, "127.0.0.1") || same(n, "localhost") || same(n, "[::1]") || same(n, "::1");
    let right_port = match port {
        Some(p) => {
            let ours = decimal_of(WINDOW_PORT as u64);
            same(p.as_str(), ours.as_str())
        },
        None => true,
    };
    loopback && right_port
}

/// The three conditions, decided from the three facts.
///
/// 1. **It arrived on loopback.** Nothing from the network reaches the person's surface.
/// 2. **It named us the way we are addressable.** `Host` must be a loopback name on this port,
///    which is the DNS-rebinding gate.
/// 3. **It carries no `Origin` a browser did not get from us**, so a page elsewhere cannot post
///    a form here and have it act as the person at this machine. A missing `Origin` is allowed:
///    a local program can already do anything this one can.
pub fn ours_to_answer(loopback: bool, host: Option<&str>, origin: Option<&str>) -> (r: bool)
    ensures
        r == our_window(loopback, opt_view(host), opt_view(origin)),
{
    if !loopback {
        return false;
    }
    let named = match host {
        None => true,
        Some(h) => named_us(h),
    };
    if !named {
        return false;
    }
    match origin {
        None => true,
        Some(o) => {
            let given = trim(o);
            let all = ours();
            let mut i: usize = 0;
            while i < 3
                invariant
                    0 <= i <= 3,
                    loopback,
                    given@ == trimmed(o@),
                    origin == Some(o),
                    match host {
                        Some(h) => names_us(h@),
                        None => true,
                    },
                    all@.len() == 3,
                    forall|k: int| 0 <= k < 3 ==> #[trigger] all@[k]@ == our_origins()[k],
                    forall|k: int| 0 <= k < i ==> our_origins()[k] != given@,
                decreases 3 - i,
            {
                if same(all[i].as_str(), given) {
                    assert(our_origins()[i as int] == given@);
                    assert(our_origins().contains(given@));
                    return true;
                }
                i = i + 1;
            }
            assert(!our_origins().contains(given@));
            false
        },
    }
}

/// Whether an offered bearer is the secret a bond holds: never for an unpaired machine, and
/// otherwise exactly when the offer, without surrounding white space, is the secret.
pub open spec fn admits(bond: Bond, offered: Option<Seq<char>>) -> bool {
    let given = match offered {
        Some(o) => trimmed(o),
        None => Seq::empty(),
    };
    bond.secret@.len() > 0 && given == bond.secret@
}

/// Whether an offered bearer is the secret this machine was given.
///
/// **Constant time**, and `false` for an unpaired machine — before pairing there is no secret,
/// so there is nothing that can be right.
pub fn bearer_matches(bond: &Bond, offered: Option<&str>) -> (r: bool)
    ensures
        r == admits(*bond, opt_view(offered)),
        !bond.paired_spec() ==> !r,
{
    if !bond.paired() {
        return false;
    }
    let given = match offered {
        Some(o) => trim(o),
        None => "",
    };
    proof {
        reveal_strlit("");
    }
    same_secretly(bond.secret.as_str(), given)
}

} // verus!

verus! {

/// `s` without the slashes at its end.
pub open spec fn trim_end_slashes(s: Seq<char>) -> Seq<char>
    decreases s.len(),
{
    if s.len() > 0 && s.last() == '/' {
        trim_end_slashes(s.drop_last())
    } else {
        s
    }
}

/// Whether `://` stands in `s` at `i`.
pub open spec fn separator_at(s: Seq<char>, i: int) -> bool {
    0 <= i && i + 3 <= s.len() && s[i] == ':' && s[i + 1] == '/' && s[i + 2] == '/'
}

/// The first place at or after `i` where `://` stands in `s`.
pub open spec fn separator_from(s: Seq<char>, i: int) -> Option<int>
    decreases s.len() - i,
{
    if i < 0 || i + 3 > s.len() {
        None
    } else if separator_at(s, i) {
        Some(i)
    } else {
        separator_from(s, i + 1)
    }
}

/// A typed address as its scheme and the rest: the scheme before the first `://`, or `https`
/// where none was typed — the Host's pairing door is encrypted, because what crosses it is the
/// long secret.
pub open spec fn door_parts(typed: Seq<char>) -> (Seq<char>, Seq<char>) {
    let t = trim_end_slashes(trimmed(typed));
    match separator_from(t, 0) {
        Some(i) => (t.take(i), t.skip(i + 3)),
        None => ("https"@, t),
    }
}

/// The Host's pairing door, from what a person typed: scheme and port filled in where they were
/// not typed, and kept where they were.
pub open spec fn door(typed: Seq<char>) -> Seq<char> {
    let (scheme, rest) = door_parts(typed);
    scheme + "://"@ + rest + if port_split(rest).1 is Some {
        Seq::empty()
    } else {
        ":"@ + decimal(HOST_PORT as nat)
    }
}

proof fn lemma_separator_found(s: Seq<char>, i: int, k: int)
    requires
        separator_from(s, i) == Some(k),
    ensures
        separator_at(s, k),
        i <= k,
        forall|j: int| i <= j < k ==> !separator_at(s, j),
    decreases s.len() - i,
{
    if !(i < 0 || i + 3 > s.len()) && !separator_at(s, i) {
        lemma_separator_found(s, i + 1, k);
    }
}

/// **Whoever typed the scheme and the port keeps what they typed.** An address that names
/// both is taken as it was typed, only without surrounding white space or trailing slashes.
pub proof fn a_full_address_is_kept_as_typed(typed: Seq<char>)
    requires
        separator_from(trim_end_slashes(trimmed(typed)), 0) is Some,
        port_split(door_parts(typed).1).1 is Some,
    ensures
        door(typed) == trim_end_slashes(trimmed(typed)),
{
    let t = trim_end_slashes(trimmed(typed));
    let k = separator_from(t, 0)->Some_0;
    lemma_separator_found(t, 0, k);
    assert(t.take(k) + "://"@ + t.skip(k + 3) =~= t) by {
        reveal_strlit("://");
    }
}

proof fn lemma_separator_is(s: Seq<char>, i: int, k: int)
    requires
        0 <= i <= k,
        separator_at(s, k),
        forall|j: int| i <= j < k ==> !separator_at(s, j),
    ensures
        separator_from(s, i) == Some(k),
    decreases k - i,
{
    if i < k {
        lemma_separator_is(s, i + 1, k);
    }
}

proof fn lemma_decimal_is_digits(n: nat)
    ensures
        all_digits(decimal(n)),
        decimal(n).len() > 0,
    decreases n,
{
    if n >= 10 {
        lemma_decimal_is_digits(n / 10);
        let d = decimal(n);
        assert forall|i: int| 0 <= i < d.len() implies '0' <= #[trigger] d[i] <= '9' by {
            if i < d.len() - 1 {
                assert(d[i] == decimal(n / 10)[i]);
            }
        }
    }
}

proof fn lemma_last_colon(x: Seq<char>, tail: Seq<char>)
    requires
        all_digits(tail),
    ensures
        last_index_of(x + seq![':'] + tail, ':') == Some(x.len() as int),
    decreases tail.len(),
{
    let whole = x + seq![':'] + tail;
    if tail.len() == 0 {
        assert(whole.last() == ':');
    } else {
        assert(whole.last() == tail.last());
        assert(whole.drop_last() =~= x + seq![':'] + tail.drop_last());
        lemma_last_colon(x, tail.drop_last());
    }
}

proof fn lemma_last_after(a: Seq<char>, b: Seq<char>, c: char)
    requires
        last_index_of(b, c) is Some,
    ensures
        last_index_of(a + b, c) == Some(a.len() + last_index_of(b, c)->Some_0),
    decreases b.len(),
{
    let whole = a + b;
    assert(whole.last() == b.last());
    if b.last() != c {
        assert(whole.drop_last() =~= a + b.drop_last());
        lemma_last_after(a, b.drop_last(), c);
    }
}

proof fn lemma_last_within(s: Seq<char>, c: char)
    requires
        last_index_of(s, c) is Some,
    ensures
        0 <= last_index_of(s, c)->Some_0 < s.len(),
        s[last_index_of(s, c)->Some_0] == c,
    decreases s.len(),
{
    if s.last() != c {
        lemma_last_within(s.drop_last(), c);
    }
}

/// Where an address has a port, it ends in an ASCII digit.
proof fn lemma_port_ends_in_digit(h: Seq<char>)
    requires
        port_split(h).1 is Some,
    ensures
        h.len() > 0,
        '0' <= h.last() <= '9',
{
    lemma_last_within(h, ':');
    let i = last_index_of(h, ':')->Some_0;
    let tail = h.subrange(i + 1, h.len() as int);
    assert(h.last() == tail[tail.len() - 1]);
}

proof fn lemma_port_appended(x: Seq<char>, tail: Seq<char>)
    requires
        all_digits(tail),
        tail.len() > 0,
    ensures
        port_split(x + seq![':'] + tail).1 == Some(tail),
{
    lemma_last_colon(x, tail);
    let whole = x + seq![':'] + tail;
    assert(whole.subrange(x.len() as int + 1, whole.len() as int) =~= tail);
}

proof fn lemma_trim_start_front(s: Seq<char>)
    ensures
        trim_start(s).len() > 0 ==> !is_white(trim_start(s)[0]),
    decreases s.len(),
{
    if s.len() > 0 && is_white(s[0]) {
        lemma_trim_start_front(s.drop_first());
    }
}

proof fn lemma_trim_end_prefix(s: Seq<char>)
    ensures
        trim_end(s).len() <= s.len(),
        trim_end(s) =~= s.take(trim_end(s).len() as int),
    decreases s.len(),
{
    if s.len() > 0 && is_white(s.last()) {
        lemma_trim_end_prefix(s.drop_last());
        assert(s.drop_last().take(trim_end(s).len() as int) =~= s.take(trim_end(s).len() as int));
    } else {
        assert(s.take(s.len() as int) =~= s);
    }
}

proof fn lemma_slashes_prefix(s: Seq<char>)
    ensures
        trim_end_slashes(s).len() <= s.len(),
        trim_end_slashes(s) =~= s.take(trim_end_slashes(s).len() as int),
    decreases s.len(),
{
    if s.len() > 0 && s.last() == '/' {
        lemma_slashes_prefix(s.drop_last());
        assert(s.drop_last().take(trim_end_slashes(s).len() as int) =~= s.take(
            trim_end_slashes(s).len() as int,
        ));
    } else {
        assert(s.take(s.len() as int) =~= s);
    }
}

/// What an address is cut to before it is read: if anything is left, it starts with something
/// other than white space.
proof fn lemma_cut_front(typed: Seq<char>)
    ensures
        trim_end_slashes(trimmed(typed)).len() > 0 ==> !is_white(trim_end_slashes(trimmed(typed))[0]),
{
    let a = trim_start(typed);
    let b = trim_end(a);
    let t = trim_end_slashes(b);
    lemma_trim_start_front(typed);
    lemma_trim_end_prefix(a);
    lemma_slashes_prefix(b);
    if t.len() > 0 {
        assert(t[0] == b[0]);
        assert(b[0] == a[0]);
    }
}

/// **The door this program reads from an address is read again as itself.** Reading what
/// `door_at` gave back changes nothing, and it always ends in a colon and the digits of a port.
pub proof fn a_door_is_read_as_itself(typed: Seq<char>)
    ensures
        door(door(typed)) == door(typed),
        port_split(door(typed)).1 is Some,
{
    reveal_strlit("https");
    reveal_strlit("://");
    reveal_strlit(":");
    let t = trim_end_slashes(trimmed(typed));
    let (scheme, rest) = door_parts(typed);
    let dp = decimal(HOST_PORT as nat);
    lemma_decimal_is_digits(HOST_PORT as nat);
    let pp = if port_split(rest).1 is Some {
        Seq::<char>::empty()
    } else {
        ":"@ + dp
    };
    let big = rest + pp;
    let d = door(typed);
    assert(d =~= scheme + "://"@ + big);
    // What follows the scheme has a port, so it ends in a digit.
    if port_split(rest).1 is Some {
        assert(big =~= rest);
    } else {
        assert(big =~= rest + seq![':'] + dp);
        lemma_port_appended(rest, dp);
    }
    assert(port_split(big).1 is Some);
    lemma_port_ends_in_digit(big);
    let n: int = scheme.len() as int;
    assert(d.last() == big.last());
    assert(d[n] == ':' && d[n + 1] == '/' && d[n + 2] == '/');
    // Its first character is not white space.
    lemma_cut_front(typed);
    match separator_from(t, 0) {
        Some(k) => {
            lemma_separator_found(t, 0, k);
            assert(scheme =~= t.take(k));
            assert(rest =~= t.skip(k + 3));
            if k > 0 {
                assert(d[0] == t[0]);
            }
            assert forall|j: int| 0 <= j < n implies !separator_at(d, j) by {
                if j + 2 < n {
                    assert(d[j] == t[j] && d[j + 1] == t[j + 1] && d[j + 2] == t[j + 2]);
                    assert(!separator_at(t, j));
                } else {
                    assert(d[n] != '/');
                }
            }
        },
        None => {
            assert(scheme == "https"@);
            assert forall|j: int| 0 <= j < n implies !separator_at(d, j) by {
                assert(d[j] == scheme[j]);
            }
        },
    }
    assert(!is_white(d[0]));
    assert(!is_white(d.last()));
    // So nothing is trimmed from it, and it is read back into the same parts.
    assert(trim_start(d) == d);
    assert(trim_end(d) == d);
    assert(trimmed(d) == d);
    assert(trim_end_slashes(d) == d);
    lemma_separator_is(d, 0, n);
    assert(d.take(n) =~= scheme);
    assert(d.skip(n + 3) =~= big);
    assert(door_parts(d) == (scheme, big));
    assert(door(d) =~= scheme + "://"@ + big);
    // And the port it ends in is the one after the last colon of the whole.
    lemma_last_within(big, ':');
    let i = last_index_of(big, ':')->Some_0;
    lemma_last_after(scheme + "://"@, big, ':');
    assert(d == scheme + "://"@ + big);
    assert(d.subrange(n + 3 + i + 1, d.len() as int) =~= big.subrange(i + 1, big.len() as int));
}

/// **Whoever typed neither is given the encrypted door on the Host's port.** An address with no
/// scheme gets `https`, and one with no port gets the port a Host listens on.
pub proof fn a_bare_address_is_filled_in(typed: Seq<char>)
    requires
        separator_from(trim_end_slashes(trimmed(typed)), 0) is None,
        port_split(trim_end_slashes(trimmed(typed))).1 is None,
    ensures
        door(typed) == "https://"@ + trim_end_slashes(trimmed(typed)) + ":"@ + decimal(
            HOST_PORT as nat,
        ),
{
    assert("https"@ + "://"@ =~= "https://"@) by {
        reveal_strlit("https");
        reveal_strlit("://");
        reveal_strlit("https://");
    }
}

/// **Whoever typed no scheme is given the encrypted door, port or no port.** Where no `://`
/// was typed, the door is `https://` followed by what was typed, and the Host's port only where
/// none was typed.
pub proof fn no_scheme_means_https(typed: Seq<char>)
    requires
        separator_from(trim_end_slashes(trimmed(typed)), 0) is None,
    ensures
        door(typed) == "https://"@ + trim_end_slashes(trimmed(typed)) + if port_split(
            trim_end_slashes(trimmed(typed)),
        ).1 is Some {
            Seq::empty()
        } else {
            ":"@ + decimal(HOST_PORT as nat)
        },
        door(typed).take(8) == "https://"@,
{
    reveal_strlit("https");
    reveal_strlit("://");
    reveal_strlit("https://");
    let t = trim_end_slashes(trimmed(typed));
    let tail = if port_split(t).1 is Some {
        Seq::<char>::empty()
    } else {
        ":"@ + decimal(HOST_PORT as nat)
    };
    assert(door(typed) =~= "https://"@ + t + tail);
    assert(("https://"@ + t + tail).take(8) =~= "https://"@);
}

/// A host name with a port after it is read back as that name and that port.
proof fn lemma_port_split_at(x: Seq<char>, tail: Seq<char>)
    requires
        all_digits(tail),
        tail.len() > 0,
    ensures
        port_split(x + seq![':'] + tail) == (x, Some(tail)),
{
    lemma_last_colon(x, tail);
    let whole = x + seq![':'] + tail;
    assert(whole.subrange(x.len() as int + 1, whole.len() as int) =~= tail);
    assert(whole.subrange(0, x.len() as int) =~= x);
}

/// Text that starts and ends with something other than white space is its own trimming.
proof fn lemma_nothing_to_trim(s: Seq<char>)
    requires
        s.len() > 0,
        !is_white(s[0]),
        !is_white(s.last()),
    ensures
        trimmed(s) == s,
{
}

/// The window's port, written out.
proof fn lemma_window_port_digits()
    ensures
        decimal(WINDOW_PORT as nat) == "11499"@,
{
    reveal_strlit("11499");
    reveal_with_fuel(decimal, 6);
    assert(decimal(WINDOW_PORT as nat) =~= "11499"@);
}

/// One address of the window, `scheme + name + ':' + port`, is answered on loopback when the
/// browser names that host and that origin.
proof fn lemma_window_address(name: Seq<char>, host: Seq<char>, origin: Seq<char>, i: int)
    requires
        name == "127.0.0.1"@ || name == "localhost"@ || name == "[::1]"@,
        host == name + ":11499"@,
        origin == "http://"@ + host,
        0 <= i < 3,
        our_origins()[i] == origin,
    ensures
        our_window(true, Some(host), Some(origin)),
{
    reveal_strlit("127.0.0.1");
    reveal_strlit("localhost");
    reveal_strlit("[::1]");
    reveal_strlit("::1");
    reveal_strlit(":11499");
    reveal_strlit("11499");
    reveal_strlit("http://");
    lemma_window_port_digits();
    assert(host =~= name + seq![':'] + "11499"@);
    assert(all_digits("11499"@));
    lemma_port_split_at(name, "11499"@);
    assert(host[0] == name[0]);
    assert(host.last() == '9');
    lemma_nothing_to_trim(host);
    assert(origin[0] == 'h');
    assert(origin.last() == '9');
    lemma_nothing_to_trim(origin);
    assert(names_us(host));
    assert(our_origins().contains(trimmed(origin)));
}

/// **The window this program opens is answered.** Each address its own window uses is
/// admitted from loopback together with the `Host` a browser sends for it: `127.0.0.1`,
/// `localhost` and `[::1]`, each on the window's port.
pub proof fn our_own_window_is_answered()
    ensures
        our_window(true, Some("127.0.0.1:11499"@), Some("http://127.0.0.1:11499"@)),
        our_window(true, Some("localhost:11499"@), Some("http://localhost:11499"@)),
        our_window(true, Some("[::1]:11499"@), Some("http://[::1]:11499"@)),
        names_us("localhost:11499"@),
        forall|i: int|
            0 <= i < 3 ==> our_window(true, Some(#[trigger] our_origins()[i].skip(7)), Some(our_origins()[i])),
{
    reveal_strlit("127.0.0.1:11499");
    reveal_strlit("localhost:11499");
    reveal_strlit("[::1]:11499");
    reveal_strlit("http://127.0.0.1:11499");
    reveal_strlit("http://localhost:11499");
    reveal_strlit("http://[::1]:11499");
    reveal_strlit("127.0.0.1");
    reveal_strlit("localhost");
    reveal_strlit("[::1]");
    reveal_strlit(":11499");
    reveal_strlit("http://");
    reveal_strlit("http://127.0.0.1:");
    reveal_strlit("http://localhost:");
    reveal_strlit("http://[::1]:");
    lemma_window_port_digits();
    reveal_strlit("11499");
    let a = "http://127.0.0.1:11499"@;
    let b = "http://localhost:11499"@;
    let c = "http://[::1]:11499"@;
    assert(our_origins()[0] =~= a);
    assert(our_origins()[1] =~= b);
    assert(our_origins()[2] =~= c);
    assert("127.0.0.1:11499"@ =~= "127.0.0.1"@ + ":11499"@);
    assert("localhost:11499"@ =~= "localhost"@ + ":11499"@);
    assert("[::1]:11499"@ =~= "[::1]"@ + ":11499"@);
    assert(a =~= "http://"@ + "127.0.0.1:11499"@);
    assert(b =~= "http://"@ + "localhost:11499"@);
    assert(c =~= "http://"@ + "[::1]:11499"@);
    lemma_window_address("127.0.0.1"@, "127.0.0.1:11499"@, a, 0);
    lemma_window_address("localhost"@, "localhost:11499"@, b, 1);
    lemma_window_address("[::1]"@, "[::1]:11499"@, c, 2);
    assert(a.skip(7) =~= "127.0.0.1:11499"@);
    assert(b.skip(7) =~= "localhost:11499"@);
    assert(c.skip(7) =~= "[::1]:11499"@);
}

/// A host name and the port after its last colon make up the whole of it again.
proof fn lemma_port_split_whole(h: Seq<char>)
    requires
        port_split(h).1 is Some,
    ensures
        h == port_split(h).0 + seq![':'] + port_split(h).1->0,
{
    lemma_last_within(h, ':');
    let i = last_index_of(h, ':')->Some_0;
    assert(h =~= h.subrange(0, i) + seq![':'] + h.subrange(i + 1, h.len() as int));
}

/// **Only this machine's own names, on the window's port or on none, are taken as us.** Any
/// other `Host` is refused, which is what keeps a page that rebinds a name of its own to
/// `127.0.0.1` out.
pub proof fn only_our_own_names_are_us(host: Seq<char>)
    requires
        names_us(host),
    ensures
        ({
            let t = trimmed(host);
            ||| t == "127.0.0.1"@
            ||| t == "localhost"@
            ||| t == "[::1]"@
            ||| t == "::1"@
            ||| t == "127.0.0.1:11499"@
            ||| t == "localhost:11499"@
            ||| t == "[::1]:11499"@
            ||| t == "::1:11499"@
        }),
{
    let t = trimmed(host);
    let (name, port) = port_split(t);
    match port {
        None => {
            assert(name == t);
        },
        Some(p) => {
            lemma_port_split_whole(t);
            lemma_window_port_digits();
            assert(t == name + seq![':'] + "11499"@);
            reveal_strlit("127.0.0.1");
            reveal_strlit("localhost");
            reveal_strlit("[::1]");
            reveal_strlit("::1");
            reveal_strlit("11499");
            reveal_strlit("127.0.0.1:11499");
            reveal_strlit("localhost:11499");
            reveal_strlit("[::1]:11499");
            reveal_strlit("::1:11499");
            if name == "127.0.0.1"@ {
                assert(t =~= "127.0.0.1:11499"@);
            } else if name == "localhost"@ {
                assert(t =~= "localhost:11499"@);
            } else if name == "[::1]"@ {
                assert(t =~= "[::1]:11499"@);
            } else {
                assert(t =~= "::1:11499"@);
            }
        },
    }
}

/// **Only the window's own three addresses are taken as where a request came from.**
pub proof fn only_our_own_origins_are_answered(origin: Seq<char>)
    requires
        our_origins().contains(trimmed(origin)),
    ensures
        ({
            let o = trimmed(origin);
            ||| o == "http://127.0.0.1:11499"@
            ||| o == "http://localhost:11499"@
            ||| o == "http://[::1]:11499"@
        }),
{
    lemma_window_port_digits();
    reveal_strlit("11499");
    reveal_strlit("http://127.0.0.1:");
    reveal_strlit("http://localhost:");
    reveal_strlit("http://[::1]:");
    reveal_strlit("http://127.0.0.1:11499");
    reveal_strlit("http://localhost:11499");
    reveal_strlit("http://[::1]:11499");
    assert(our_origins()[0] =~= "http://127.0.0.1:11499"@);
    assert(our_origins()[1] =~= "http://localhost:11499"@);
    assert(our_origins()[2] =~= "http://[::1]:11499"@);
}

/// The first place `://` stands in `t`.
fn find_separator(t: &Vec<char>) -> (r: Option<usize>)
    ensures
        match r {
            Some(k) => separator_from(t@, 0) == Some(k as int) && k + 3 <= t@.len(),
            None => separator_from(t@, 0) is None,
        },
{
    let mut i: usize = 0;
    while i < t.len() && t.len() - i >= 3
        invariant
            0 <= i <= t@.len(),
            separator_from(t@, 0) == separator_from(t@, i as int),
        decreases t@.len() - i,
    {
        if t[i] == ':' && t[i + 1] == '/' && t[i + 2] == '/' {
            return Some(i);
        }
        i = i + 1;
    }
    None
}

/// The Host's pairing door, from whatever the person typed.
///
/// A person reads `192.168.1.10` off the other screen. Requiring them to also know a scheme and
/// a port is three chances to be wrong for no information gained — so both are filled in, and a
/// person who *did* type them keeps what they typed.
pub fn door_at(typed: &str) -> (r: String)
    ensures
        r@ == door(typed@),
{
    let v = chars_of(trim(typed));
    let mut end = v.len();
    assert(v@.take(end as int) =~= v@);
    while end > 0 && v[end - 1] == '/'
        invariant
            0 <= end <= v@.len(),
            trim_end_slashes(v@) == trim_end_slashes(v@.take(end as int)),
        decreases end,
    {
        assert(v@.take(end as int).drop_last() =~= v@.take(end - 1));
        end = end - 1;
    }
    let t = slice_of(&v, 0, end);
    assert(t@ == v@.take(end as int));
    assert(trim_end_slashes(t@) == t@);
    let found = find_separator(&t);
    let (mut out, rest) = match found {
        Some(k) => (string_of(&t, 0, k), slice_of(&t, k + 3, t.len())),
        None => (String::from_str("https"), slice_of(&t, 0, t.len())),
    };
    proof {
        assert(t@.subrange(0, t@.len() as int) =~= t@);
    }
    assert(door_parts(typed@) == (out@, rest@));
    let (_, port) = split_port(&rest);
    out.append("://");
    let rest_text = string_of(&rest, 0, rest.len());
    assert(rest@.subrange(0, rest@.len() as int) =~= rest@);
    out.append(rest_text.as_str());
    if port.is_none() {
        out.append(":");
        let host_port = decimal_of(HOST_PORT as u64);
        out.append(host_port.as_str());
    }
    out
}

} // verus!

verus! {

/// What a person calls one of the programs, from its id; an id this program has never heard of
/// is named as itself.
pub open spec fn plain_name(id: Seq<char>) -> Seq<char> {
    if id == "ollama"@ {
        "Ollama"@
    } else if id == "llama_cpp"@ {
        "llama.cpp"@
    } else if id == "lm_studio"@ {
        "LM Studio"@
    } else {
        id
    }
}

/// What a person calls one of the programs, from its id.
pub fn plainly(id: &str) -> (r: &str)
    ensures
        r@ == plain_name(id@),
{
    if same(id, "ollama") {
        "Ollama"
    } else if same(id, "llama_cpp") {
        "llama.cpp"
    } else if same(id, "lm_studio") {
        "LM Studio"
    } else {
        id
    }
}

/// What the Host is told when a runtime here did not answer: this machine answered and the
/// program on it did not, with the transport's own words on the end.
pub open spec fn not_answering_text(runner: Seq<char>, endpoint: Seq<char>, err: Seq<char>) -> Seq<char> {
    plain_name(runner) + " is not answering on this machine ("@ + endpoint
        + "). This machine is reachable; that program is not running here, or is still starting. ("@
        + err + ")"@
}

/// What to tell the Host when a runtime here did not answer.
///
/// **Two facts, because they have two fixes.** This machine answered — the Host reached it, or
/// it would not be reading this — and the program on it did not.
pub fn not_answering(runner: &str, endpoint: &str, err: &str) -> (r: String)
    ensures
        r@ == not_answering_text(runner@, endpoint@, err@),
{
    let mut said = String::from_str(plainly(runner));
    said.append(" is not answering on this machine (");
    said.append(endpoint);
    said.append("). This machine is reachable; that program is not running here, or is still starting. (");
    said.append(err);
    said.append(")");
    said
}

} // verus!

verus! {

/// How long to wait for a runtime on this machine to accept a connection, in seconds.
///
/// Separate from the ten minutes allowed for an answer, because they are two questions: *is
/// that program running?* is decided in a moment on loopback, and *has the model finished
/// loading?* is what the ten minutes are for. Two rather than one, because a server mid-start
/// can be slow to accept without being absent.
pub const REACH: u64 = 2;

/// The runner a turn names, or Ollama — what every older Host meant by naming none.
pub open spec fn runner_named(runner: Option<Seq<char>>) -> Seq<char> {
    match runner {
        Some(r) => r,
        None => "ollama"@,
    }
}

/// Where the runner a turn names is and how to speak to it, or the sentence that refuses a
/// runner this machine does not have.
pub open spec fn runner_for_spec(runner: Option<Seq<char>>) -> Result<(Dialect, Seq<char>), Seq<char>> {
    match resolved(runner) {
        Some(found) => Ok(found),
        None => Err("this machine does not run '"@ + runner_named(runner) + "'"@),
    }
}

/// Where the runner a turn names is, resolved here from a closed set of ids; a runner this
/// machine does not run is refused rather than quietly becoming the default.
pub fn runner_for(runner: Option<&str>) -> (r: Result<(Dialect, String), String>)
    ensures
        match r {
            Ok((d, e)) => runner_for_spec(opt_view(runner)) == Ok::<(Dialect, Seq<char>), Seq<char>>((d, e@)),
            Err(why) => runner_for_spec(opt_view(runner)) == Err::<(Dialect, Seq<char>), Seq<char>>(why@),
        },
{
    match runner_at(runner) {
        Some(found) => Ok(found),
        None => {
            let mut why = String::from_str("this machine does not run '");
            match runner {
                Some(r) => why.append(r),
                None => why.append("ollama"),
            }
            why.append("'");
            Err(why)
        },
    }
}

/// Where a turn is posted on a runtime: Ollama's own chat route, or the OpenAI-compatible one
/// that llama.cpp and LM Studio both serve.
pub open spec fn chat_at_spec(endpoint: Seq<char>, dialect: Dialect) -> Seq<char> {
    endpoint + match dialect {
        Dialect::Ollama => "/api/chat"@,
        Dialect::OpenAi => "/v1/chat/completions"@,
    }
}

/// Where a turn is posted on a runtime.
pub fn chat_at(endpoint: &str, dialect: Dialect) -> (r: String)
    ensures
        r@ == chat_at_spec(endpoint@, dialect),
{
    let mut out = endpoint.to_string();
    match dialect {
        Dialect::Ollama => out.append("/api/chat"),
        Dialect::OpenAi => out.append("/v1/chat/completions"),
    }
    out
}

/// Whether letting go of a model means asking Ollama to drop it now: only Ollama has a timer
/// to beat. llama.cpp holds its model for the life of the process and LM Studio unloads on its
/// own idle setting, so for them the honest answer is to do nothing; a runner this machine does
/// not run is refused, exactly as a turn naming it is.
pub fn letting_go(runner: Option<&str>) -> (r: Result<bool, String>)
    ensures
        match r {
            Ok(ask_ollama) => runner_for_spec(opt_view(runner)) matches Ok((d, _)) && ask_ollama == (d
                == Dialect::Ollama),
            Err(why) => runner_for_spec(opt_view(runner)) == Err::<(Dialect, Seq<char>), Seq<char>>(why@),
        },
{
    match runner_for(runner) {
        Ok((d, _)) => Ok(d == Dialect::Ollama),
        Err(why) => Err(why),
    }
}

/// The Host's pairing door, from what was typed — or the sentence asking for one, before the
/// network is touched, when nothing but spaces was typed.
pub fn pairing_door(typed: &str) -> (r: Result<String, String>)
    ensures
        trimmed(typed@).len() == 0 <==> r is Err,
        r matches Ok(d) ==> d@ == door(typed@),
        r matches Err(why) ==> why@ == "say where Epoch is running"@,
{
    if trim(typed).is_empty() {
        Err(String::from_str("say where Epoch is running"))
    } else {
        Ok(door_at(typed))
    }
}

/// What a refused pairing says: the Host's one refusal means the code, and anything else means
/// the Host could not be reached, in the transport's own words.
pub open spec fn pairing_refused_spec(status: Option<u16>, err: Seq<char>, host: Seq<char>) -> Seq<char> {
    if status == Some(403u16) {
        "that code is wrong or has expired. Show a new one on the Host."@
    } else {
        "could not reach Epoch at "@ + host + ": "@ + err
    }
}

/// What a refused pairing says.
pub fn pairing_refused(status: Option<u16>, err: &str, host: &str) -> (r: String)
    ensures
        r@ == pairing_refused_spec(status, err@, host@),
{
    if status == Some(403u16) {
        String::from_str("that code is wrong or has expired. Show a new one on the Host.")
    } else {
        let mut out = String::from_str("could not reach Epoch at ");
        out.append(host);
        out.append(": ");
        out.append(err);
        out
    }
}

/// How much a model holds, as a window fits in 32 bits: a larger reading is the largest
/// window there is rather than a wrapped one.
pub fn window_of(n: u64) -> (r: u32)
    ensures
        r == if n > u32::MAX {
            u32::MAX
        } else {
            n as u32
        },
{
    if n > u32::MAX as u64 {
        u32::MAX
    } else {
        n as u32
    }
}

/// Whether a key of what `/api/show` reports under `model_info` names a context length.
/// Ollama writes it as `<family>.context_length`, and the family differs per model, so the key
/// is found by its suffix rather than by a table of families.
pub open spec fn names_context(key: Seq<char>) -> bool {
    key.len() >= ".context_length"@.len() && key.subrange(
        key.len() - ".context_length"@.len(),
        key.len() as int,
    ) == ".context_length"@
}

fn ends_in_context(key: &str) -> (r: bool)
    ensures
        r == names_context(key@),
{
    let k = chars_of(key);
    let tail = chars_of(".context_length");
    if k.len() < tail.len() {
        return false;
    }
    let start: usize = k.len() - tail.len();
    let mut i: usize = 0;
    while i < tail.len()
        invariant
            0 <= i <= tail@.len(),
            k@ == key@,
            tail@ == ".context_length"@,
            start + tail@.len() == k@.len(),
            k@.len() <= usize::MAX,
            forall|j: int| 0 <= j < i ==> k@[start + j] == tail@[j],
        decreases tail@.len() - i,
    {
        if k[start + i] != tail[i] {
            assert(key@.subrange(start as int, key@.len() as int)[i as int] != ".context_length"@[i as int]);
            return false;
        }
        i = i + 1;
    }
    assert(key@.subrange(start as int, key@.len() as int) =~= ".context_length"@);
    true
}

/// Which of a model's reported keys holds its context length: the first that names one, in
/// the order they are given.
pub fn context_key(keys: &Vec<String>) -> (r: Option<usize>)
    ensures
        match r {
            Some(i) => i < keys@.len() && names_context(keys@[i as int]@) && forall|j: int|
                0 <= j < i ==> !names_context(#[trigger] keys@[j]@),
            None => forall|j: int| 0 <= j < keys@.len() ==> !names_context(#[trigger] keys@[j]@),
        },
{
    let mut i: usize = 0;
    while i < keys.len()
        invariant
            0 <= i <= keys@.len(),
            forall|j: int| 0 <= j < i ==> !names_context(#[trigger] keys@[j]@),
        decreases keys@.len() - i,
    {
        if ends_in_context(keys[i].as_str()) {
            return Some(i);
        }
        i = i + 1;
    }
    None
}

/// What a model publishes about itself: whether it sees, hears, uses tools and thinks.
/// `uses_tools` is `Some` because Ollama really does publish it per model, so `false` there
/// means no rather than unasked.
pub struct Declared {
    pub sees: bool,
    pub hears: bool,
    pub uses_tools: Option<bool>,
    pub thinks: bool,
}

/// Whether a model's published capabilities list one by name.
pub open spec fn lists(listed: Seq<String>, what: Seq<char>) -> bool {
    exists|i: int| 0 <= i < listed.len() && #[trigger] listed[i]@ == what
}

fn has(listed: &Vec<String>, what: &str) -> (r: bool)
    ensures
        r == lists(listed@, what@),
{
    let mut i: usize = 0;
    while i < listed.len()
        invariant
            0 <= i <= listed@.len(),
            forall|j: int| 0 <= j < i ==> #[trigger] listed@[j]@ != what@,
        decreases listed@.len() - i,
    {
        if same(listed[i].as_str(), what) {
            return true;
        }
        i = i + 1;
    }
    false
}

/// What a model publishes about itself, from the capabilities `/api/show` lists.
pub fn declared_in(listed: &Vec<String>) -> (r: Declared)
    ensures
        r.sees == lists(listed@, "vision"@),
        r.hears == lists(listed@, "audio"@),
        r.uses_tools == Some(lists(listed@, "tools"@)),
        r.thinks == lists(listed@, "thinking"@),
{
    Declared {
        sees: has(listed, "vision"),
        hears: has(listed, "audio"),
        uses_tools: Some(has(listed, "tools")),
        thinks: has(listed, "thinking"),
    }
}

} // verus!
