//! The Models Workshop, on the machine that will actually run the model.
//!
//! A verdict measured on the Host is worse than no verdict, because it is confident and it is
//! about somewhere else. Every verdict here is about this machine.

use vstd::prelude::*;
use vstd::string::*;

use crate::text::{decimal, decimal_of, digit, digit_char, push_char};

verus! {

/// What this machine's memory is, as far as it could be read. Every absent number is absent,
/// never zero: *nobody could tell you* is a different answer from *nothing fits*.
#[derive(Debug, Clone)]
pub struct Machine {
    /// One pool that the graphics and the system share, as on Apple silicon.
    pub unified: bool,
    pub gpu: Option<String>,
    pub vram_total: Option<u64>,
    pub vram_free: Option<u64>,
    pub ram_total: Option<u64>,
}

/// Two to the power `n`.
pub open spec fn twice(n: nat) -> nat
    decreases n,
{
    if n == 0 {
        1
    } else {
        2 * twice((n - 1) as nat)
    }
}

/// `a / b` rounded to the nearest whole number, a tie going to the even one: how binary floating
/// point rounds, and how a number is rounded to the places it is printed with.
pub open spec fn nearest(a: nat, b: nat) -> nat {
    let q = a / b;
    let r = a % b;
    if 2 * r > b {
        q + 1
    } else if 2 * r < b {
        q
    } else if q % 2 == 1 {
        q + 1
    } else {
        q
    }
}

/// The least `k` from `k` on at which `b` has no more than 53 significant bits left.
pub open spec fn excess_bits(b: nat, k: nat) -> nat
    decreases b - k,
{
    if b < twice(53 + k) || k >= b {
        k
    } else {
        excess_bits(b, k + 1)
    }
}

/// A whole number as a 64-bit float holds it: itself while it has no more than 53 significant
/// bits, and otherwise the nearest number that has, a tie going to the even one.
pub open spec fn as_double(b: nat) -> nat {
    if b < twice(53) {
        b
    } else {
        let k = excess_bits(b, 0);
        nearest(b, twice(k)) * twice(k)
    }
}

/// How far a quotient `v / 10⁹` is shifted for its mantissa to have 53 bits: the least `s` from
/// `s` on at which `v · 2ˢ` reaches `2⁵² · 10⁹`.
pub open spec fn shift(v: nat, s: nat) -> nat
    decreases 200 - s,
{
    if s >= 200 || v * twice(s) >= twice(52) * 1_000_000_000 {
        s
    } else {
        shift(v, s + 1)
    }
}

/// A size in `1/per` gigabytes as the standard library prints `bytes as f64 / 1e9`: the bytes
/// become the nearest 64-bit float, the quotient is rounded to the nearest float, and that
/// float is rounded to whole `1/per` gigabytes, an exact tie going to the even one. Near a half
/// this follows the binary value rather than the decimal one.
#[verifier::opaque]
pub open spec fn float_gigabytes(bytes: nat, per: nat) -> nat {
    if bytes == 0 {
        0
    } else {
        let v = as_double(bytes);
        let s = shift(v, 0);
        nearest(per * nearest(v * twice(s), 1_000_000_000), twice(s))
    }
}

/// A size in tenths of a gigabyte as `{:.1}` prints `bytes as f64 / 1e9`: so 150 000 000
/// bytes are 0.1 and 450 000 000 are 0.5.
pub open spec fn tenths(bytes: nat) -> nat {
    float_gigabytes(bytes, 10)
}

/// A size in decimal gigabytes with one place, the units a person compares cards in.
pub open spec fn gigabytes(bytes: nat) -> Seq<char> {
    decimal(tenths(bytes) / 10) + seq!['.', digit(tenths(bytes) % 10)] + " GB"@
}

fn nearest_of(a: u128, b: u128) -> (r: u128)
    requires
        b > 0,
    ensures
        r == nearest(a as nat, b as nat),
        a as nat / b as nat <= r <= a as nat / b as nat + 1,
        r <= a || a == 0,
{
    let q = a / b;
    let r = a % b;
    proof {
        if b >= 2 && a >= 1 {
            assert(q <= a / 2) by (nonlinear_arith)
                requires
                    q == a / b,
                    b >= 2,
            ;
        }
    }
    if r > b - r {
        q + 1
    } else if r < b - r {
        q
    } else if q % 2 == 1 {
        q + 1
    } else {
        q
    }
}

/// The size in whole `1/per` gigabytes that the standard library prints for
/// `bytes as f64 / 1e9`: `per` is 10 for `{:.1}` and 1 for `{:.0}`.
pub(crate) fn float_gigabytes_of(bytes: u64, per: u64) -> (r: u64)
    requires
        per == 1 || per == 10,
    ensures
        r == float_gigabytes(bytes as nat, per as nat),
{
    reveal(float_gigabytes);
    if bytes == 0 {
        return 0;
    }
    let b = bytes as u128;
    let top: u128 = 9007199254740992;
    assert(twice(53) == 9007199254740992) by {
        reveal_with_fuel(twice, 54);
    }
    let v: u128 = if b < top {
        b
    } else {
        let mut k: u128 = 0;
        let mut p: u128 = top;
        let mut pk: u128 = 1;
        while b >= p && k < b
            invariant
                top == 9007199254740992,
                p == twice((53 + k) as nat),
                pk == twice(k as nat),
                p == pk * top,
                top <= p <= 2 * b,
                1 <= pk,
                k <= pk,
                b < 0x1_0000_0000_0000_0000u128,
                excess_bits(b as nat, 0) == excess_bits(b as nat, k as nat),
            decreases b - k,
        {
            assert(twice((53 + k + 1) as nat) == 2 * twice((53 + k) as nat));
            assert(twice((k + 1) as nat) == 2 * twice(k as nat));
            assert(pk < 2048) by (nonlinear_arith)
                requires
                    p == pk * top,
                    p <= b,
                    b < 0x1_0000_0000_0000_0000u128,
                    top == 9007199254740992,
            ;
            p = p * 2;
            pk = pk * 2;
            k = k + 1;
        }
        assert(k < b) by (nonlinear_arith)
            requires
                k <= pk,
                p == pk * top,
                p <= 2 * b,
                top == 9007199254740992,
                pk >= 1,
        ;
        assert(b < p);
        assert(excess_bits(b as nat, k as nat) == k);
        let m = nearest_of(b, pk);
        assert(m <= top) by {
            assert(b / pk < top) by (nonlinear_arith)
                requires
                    b < p,
                    p == pk * top,
                    pk >= 1,
                    b < 0x1_0000_0000_0000_0000u128,
                    top == 9007199254740992,
            ;
        }
        assert(m >= 1) by {
            assert(b / pk >= 1) by (nonlinear_arith)
                requires
                    b >= pk,
                    pk >= 1,
            ;
        }
        assert(m * pk <= p) by (nonlinear_arith)
            requires
                m <= top,
                p == pk * top,
        ;
        assert(m * pk >= 1) by (nonlinear_arith)
            requires
                m >= 1,
                pk >= 1,
        ;
        m * pk
    };
    assert(v == as_double(bytes as nat));
    assert(1 <= v <= 0x2_0000_0000_0000_0000u128);
    let target: u128 = 4503599627370496 * 1_000_000_000;
    assert(twice(52) == 4503599627370496) by {
        reveal_with_fuel(twice, 53);
    }
    let mut s: u128 = 0;
    let mut p: u128 = 1;
    let mut q: u128 = v;
    while s < 200 && q < target
        invariant
            p == twice(s as nat),
            q == v * p,
            1 <= v <= 0x2_0000_0000_0000_0000u128,
            1 <= p <= q,
            q < 2 * target,
            s <= 200,
            shift(v as nat, 0) == shift(v as nat, s as nat),
            target == 4503599627370496 * 1_000_000_000,
            twice(52) == 4503599627370496,
        decreases 200 - s,
    {
        assert(twice((s + 1) as nat) == 2 * twice(s as nat));
        assert(v * (p * 2) == q * 2) by (nonlinear_arith)
            requires
                q == v * p,
        ;
        p = p * 2;
        q = q * 2;
        s = s + 1;
    }
    assert(shift(v as nat, s as nat) == s);
    let m = nearest_of(q, 1_000_000_000);
    assert(m <= 9007199254740992) by {
        assert(q / 1_000_000_000 < 9007199254740992) by (nonlinear_arith)
            requires
                q < 2 * target,
                target == 4503599627370496 * 1_000_000_000,
        ;
    }
    assert(per as u128 * m <= 10 * m) by (nonlinear_arith)
        requires
            per <= 10,
    ;
    let t = nearest_of(per as u128 * m, p);
    (t as u64)
}

proof fn lemma_twice_positive(n: nat)
    ensures
        twice(n) >= 1,
    decreases n,
{
    if n > 0 {
        lemma_twice_positive((n - 1) as nat);
    }
}

/// A size, in gigabytes to one decimal place, as `{:.1}` prints it.
pub fn gb(bytes: u64) -> (r: String)
    ensures
        r@ == gigabytes(bytes as nat),
{
    let t = float_gigabytes_of(bytes, 10);
    let mut out = decimal_of(t / 10);
    push_char(&mut out, '.');
    push_char(&mut out, digit_char(t % 10));
    out.append(" GB");
    out
}

/// Whether a model of `bytes` has room in `memory`, with a tenth left over: a model that
/// exactly fills the memory it runs in does not run.
pub open spec fn room(bytes: u64, memory: u64) -> bool {
    let wanted = bytes + bytes / 10;
    (if wanted > u64::MAX { u64::MAX as int } else { wanted }) <= memory
}

/// Whether something of this size runs here: the card's answer when there is one, and this
/// machine's memory, a tenth kept back, when there is not. `None` when nothing could be read.
pub open spec fn runs_here(bytes: u64, machine: Machine, card: Option<bool>) -> Option<bool> {
    match card {
        Some(answer) => Some(answer),
        None => match machine.ram_total {
            Some(ram) => Some(room(bytes, ram)),
            None => None,
        },
    }
}

/// Whether something of this size runs on this machine.
///
/// **The card when there is one, and this machine's memory when there is not.** `card` is what
/// the graphics card says of `bytes` — its free memory measured against the size — or `None`
/// when there is no card that can be asked. `None` from here means nobody could measure
/// anything, which is a different answer from *no*.
pub fn fits(bytes: u64, machine: &Machine, card: Option<bool>) -> (r: Option<bool>)
    ensures
        r == runs_here(bytes, *machine, card),
{
    if let Some(answer) = card {
        return Some(answer);
    }
    match machine.ram_total {
        Some(ram) => Some(bytes.saturating_add(bytes / 10) <= ram),
        None => None,
    }
}

/// Whether something runs here, and the sentence beside that answer.
pub struct Verdict {
    /// `None` when the question could not be answered, which is never the same as *no*.
    pub runs: Option<bool>,
    pub said: String,
}

/// The memory a card's answer is about, in the words that are true of this machine.
pub open spec fn pool(machine: Machine) -> Seq<char> {
    if machine.unified {
        "unified memory"@
    } else {
        "video memory"@
    }
}

/// The sentence beside a verdict.
pub open spec fn verdict_said(bytes: Option<u64>, machine: Machine, card: Option<bool>) -> Seq<char> {
    match bytes {
        None => "This has not been weighed yet."@,
        Some(b) => match card {
            Some(true) => "Fits in free "@ + pool(machine) + "."@,
            Some(false) => if machine.unified {
                "Larger than this machine's free "@ + pool(machine)
                    + ". It shares one pool with the system,                      so there is nowhere for the rest to go."@
            } else {
                "Larger than free "@ + pool(machine) + ". It will spill into system memory and run slowly."@
            },
            None => match machine.ram_total {
                None => "This machine's memory could not be read, so nobody can say."@,
                Some(ram) => if room(b, ram) {
                    "Fits in this machine's "@ + gigabytes(ram as nat) + " of memory."@
                } else {
                    "Needs "@ + gigabytes(b as nat) + ", and this machine has "@ + gigabytes(ram as nat)
                        + " in total. It will not fit \u{2014} the system needs some of that too."@
                },
            },
        },
    }
}

/// Whether a model would fit in this machine's memory, in words.
///
/// `bytes` is the offer's size, `None` until it has been weighed; `card` is what the graphics
/// card says of that size, as for [`fits`]. On a unified machine there is no second pool, so
/// what does not fit does not run slowly — it does not load — and the sentence says so.
pub fn verdict(bytes: Option<u64>, machine: &Machine, card: Option<bool>) -> (r: Verdict)
    ensures
        r.runs == match bytes {
            Some(b) => runs_here(b, *machine, card),
            None => None,
        },
        r.said@ == verdict_said(bytes, *machine, card),
{
    let Some(b) = bytes else {
        return Verdict { runs: None, said: String::from_str("This has not been weighed yet.") };
    };
    if let Some(answer) = card {
        let pool_words = if machine.unified { "unified memory" } else { "video memory" };
        let said = if answer {
            let mut s = String::from_str("Fits in free ");
            s.append(pool_words);
            s.append(".");
            s
        } else if machine.unified {
            let mut s = String::from_str("Larger than this machine's free ");
            s.append(pool_words);
            s.append(". It shares one pool with the system,                      so there is nowhere for the rest to go.");
            s
        } else {
            let mut s = String::from_str("Larger than free ");
            s.append(pool_words);
            s.append(". It will spill into system memory and run slowly.");
            s
        };
        return Verdict { runs: Some(answer), said };
    }
    let Some(ram) = machine.ram_total else {
        return Verdict {
            runs: None,
            said: String::from_str("This machine's memory could not be read, so nobody can say."),
        };
    };
    let room_here = b.saturating_add(b / 10) <= ram;
    let said = if room_here {
        let mut s = String::from_str("Fits in this machine's ");
        s.append(gb(ram).as_str());
        s.append(" of memory.");
        s
    } else {
        let mut s = String::from_str("Needs ");
        s.append(gb(b).as_str());
        s.append(", and this machine has ");
        s.append(gb(ram).as_str());
        s.append(" in total. It will not fit \u{2014} the system needs some of that too.");
        s
    };
    Verdict { runs: Some(room_here), said }
}

/// **A verdict speaks of the memory this machine has.** A card's answer is said of free unified
/// memory on a unified machine and of free video memory on any other; and what does not fit
/// has nowhere to go on one pool, where on a card it spills into system memory and runs slowly.
pub proof fn a_verdict_names_this_machines_memory(b: u64, m: Machine)
    ensures
        verdict_said(Some(b), m, Some(true)) == "Fits in free "@ + (if m.unified {
            "unified memory"@
        } else {
            "video memory"@
        }) + "."@,
        m.unified ==> verdict_said(Some(b), m, Some(false)) == "Larger than this machine's free "@ + "unified memory"@
            + ". It shares one pool with the system,                      so there is nowhere for the rest to go."@,
        !m.unified ==> verdict_said(Some(b), m, Some(false)) == "Larger than free "@ + "video memory"@
            + ". It will spill into system memory and run slowly."@,
{
}

/// **A card is asked about before system memory**: plentiful system memory never overrules a
/// card that is full.
pub proof fn a_card_is_asked_about_first(bytes: u64, machine: Machine, answer: bool)
    ensures
        runs_here(bytes, machine, Some(answer)) == Some(answer),
{
}

/// **A machine that cannot be read says nothing rather than no**, and neither does an offer
/// nobody has weighed.
pub proof fn nothing_read_is_not_no(bytes: u64, machine: Machine)
    requires
        machine.ram_total is None,
    ensures
        runs_here(bytes, machine, None) is None,
{
}

/// **A tenth is left for the machine to keep running.** A model that exactly fills the memory
/// does not fit; one with a tenth to spare does.
pub proof fn a_tenth_is_left_over(bytes: u64)
    requires
        bytes >= 10,
        bytes <= 10_000_000_000_000_000_000,
    ensures
        !room(bytes, bytes),
        room(bytes, (bytes + bytes / 10) as u64),
{
}

} // verus!
