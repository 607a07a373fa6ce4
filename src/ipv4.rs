//! IPv4 addresses in dotted-decimal text: four decimal octets without
//! leading zeros, separated by dots.

use vstd::prelude::*;

use crate::wire::{be_u32_bytes, be_u32_value, lemma_be_u32_round_trip};

verus! {

/// The decimal digits of `n`, without leading zeros.
pub open spec fn dec_text(n: nat) -> Seq<u8>
    decreases n,
{
    if n < 10 {
        seq![(48 + n) as u8]
    } else {
        dec_text(n / 10).push((48 + n % 10) as u8)
    }
}

/// The dotted-decimal text of `ip` (octets most significant first).
pub open spec fn ipv4_text(ip: u32) -> Seq<u8> {
    let o = be_u32_bytes(ip);
    dec_text(o[0] as nat) + seq![46u8] + dec_text(o[1] as nat) + seq![46u8] + dec_text(
        o[2] as nat,
    ) + seq![46u8] + dec_text(o[3] as nat)
}

/// The number that a string of decimal digits spells.
spec fn digits_value(s: Seq<u8>) -> int
    decreases s.len(),
{
    if s.len() == 0 {
        0
    } else {
        digits_value(s.drop_last()) * 10 + (s.last() - 48)
    }
}

proof fn lemma_dec_text(n: nat)
    requires
        n < 1000,
    ensures
        1 <= dec_text(n).len() <= 3,
        n < 10 ==> dec_text(n).len() == 1,
        n < 100 ==> dec_text(n).len() <= 2,
        forall|i: int| 0 <= i < dec_text(n).len() ==> 48 <= #[trigger] dec_text(n)[i] <= 57,
        digits_value(dec_text(n)) == n,
    decreases n,
{
    if n >= 10 {
        lemma_dec_text(n / 10);
        let s = dec_text(n);
        assert(s.drop_last() =~= dec_text(n / 10));
        assert(s.last() == (48 + n % 10) as u8);
        assert(digits_value(s) == digits_value(dec_text(n / 10)) * 10 + n % 10);
        assert(n == (n / 10) * 10 + n % 10);
    } else {
        let s = dec_text(n);
        assert(s.drop_last() =~= Seq::<u8>::empty());
        assert(digits_value(s.drop_last()) == 0);
        assert(s.last() == (48 + n) as u8);
    }
}

/// Appends the decimal digits of `n`.
fn push_dec(out: &mut Vec<u8>, n: u8)
    ensures
        final(out)@ == old(out)@ + dec_text(n as nat),
{
    if n < 10 {
        out.push(48 + n);
        assert(out@ =~= old(out)@ + dec_text(n as nat));
    } else if n < 100 {
        out.push(48 + n / 10);
        out.push(48 + n % 10);
        assert(dec_text((n / 10) as nat) =~= seq![(48 + n / 10) as u8]);
        assert(out@ =~= old(out)@ + dec_text(n as nat));
    } else {
        out.push(48 + n / 100);
        out.push(48 + n / 10 % 10);
        out.push(48 + n % 10);
        assert(n / 10 / 10 == n / 100);
        assert(dec_text((n / 100) as nat) =~= seq![(48 + n / 100) as u8]);
        assert(dec_text((n / 10) as nat) =~= seq![(48 + n / 100) as u8, (48 + n / 10 % 10) as u8]);
        assert(out@ =~= old(out)@ + dec_text(n as nat));
    }
}

/// Where the dots of `ipv4_text(ip)` stand, and what lies between them.
proof fn lemma_ipv4_text_layout(ip: u32)
    ensures
        ({
            let t = ipv4_text(ip);
            let o = be_u32_bytes(ip);
            let l0 = dec_text(o[0] as nat).len() as int;
            let l1 = dec_text(o[1] as nat).len() as int;
            let l2 = dec_text(o[2] as nat).len() as int;
            let l3 = dec_text(o[3] as nat).len() as int;
            let p1 = l0;
            let p2 = p1 + 1 + l1;
            let p3 = p2 + 1 + l2;
            &&& 1 <= l0 <= 3 && 1 <= l1 <= 3 && 1 <= l2 <= 3 && 1 <= l3 <= 3
            &&& t.len() == p3 + 1 + l3
            &&& t[p1] == 46u8 && t[p2] == 46u8 && t[p3] == 46u8
            &&& forall|j: int| 0 <= j < p1 ==> #[trigger] t[j] != 46u8
            &&& forall|j: int| p1 < j < p2 ==> #[trigger] t[j] != 46u8
            &&& forall|j: int| p2 < j < p3 ==> #[trigger] t[j] != 46u8
            &&& t.subrange(0, p1) == dec_text(o[0] as nat)
            &&& t.subrange(p1 + 1, p2) == dec_text(o[1] as nat)
            &&& t.subrange(p2 + 1, p3) == dec_text(o[2] as nat)
            &&& t.subrange(p3 + 1, t.len() as int) == dec_text(o[3] as nat)
        }),
{
    let t = ipv4_text(ip);
    let o = be_u32_bytes(ip);
    let d0 = dec_text(o[0] as nat);
    let d1 = dec_text(o[1] as nat);
    let d2 = dec_text(o[2] as nat);
    let d3 = dec_text(o[3] as nat);
    lemma_dec_text(o[0] as nat);
    lemma_dec_text(o[1] as nat);
    lemma_dec_text(o[2] as nat);
    lemma_dec_text(o[3] as nat);
    let p1 = d0.len() as int;
    let p2 = p1 + 1 + d1.len();
    let p3 = p2 + 1 + d2.len();
    assert(t =~= d0 + seq![46u8] + d1 + seq![46u8] + d2 + seq![46u8] + d3);
    assert forall|j: int| 0 <= j < p1 implies #[trigger] t[j] != 46u8 by {
        assert(t[j] == d0[j]);
    }
    assert forall|j: int| p1 < j < p2 implies #[trigger] t[j] != 46u8 by {
        assert(t[j] == d1[j - p1 - 1]);
    }
    assert forall|j: int| p2 < j < p3 implies #[trigger] t[j] != 46u8 by {
        assert(t[j] == d2[j - p2 - 1]);
    }
    assert(t.subrange(0, p1) =~= d0);
    assert(t.subrange(p1 + 1, p2) =~= d1);
    assert(t.subrange(p2 + 1, p3) =~= d2);
    assert(t.subrange(p3 + 1, t.len() as int) =~= d3);
}

/// The first dot at or after `from`, or the length if there is none.
fn find_dot(text: &Vec<u8>, from: usize) -> (r: usize)
    requires
        from <= text@.len(),
    ensures
        from <= r <= text@.len(),
        r < text@.len() ==> text@[r as int] == 46u8,
        forall|j: int| from <= j < r ==> #[trigger] text@[j] != 46u8,
{
    let mut i = from;
    while i < text.len()
        invariant
            from <= i <= text@.len(),
            forall|j: int| from <= j < i ==> #[trigger] text@[j] != 46u8,
        decreases text@.len() - i,
    {
        if text[i] == 46u8 {
            return i;
        }
        i = i + 1;
    }
    i
}

/// The octet that `text[lo..hi]` spells, when it is the decimal text of one.
fn parse_octet(text: &Vec<u8>, lo: usize, hi: usize) -> (r: Option<u8>)
    requires
        lo <= hi <= text@.len(),
    ensures
        forall|n: u8| text@.subrange(lo as int, hi as int) == dec_text(n as nat) ==> r == Some(n),
{
    let ghost part = text@.subrange(lo as int, hi as int);
    if hi - lo == 0 || hi - lo > 3 {
        proof {
            assert forall|n: u8| part == dec_text(n as nat) implies false by {
                lemma_dec_text(n as nat);
            }
        }
        return None;
    }
    let mut value: u32 = 0;
    let mut i = lo;
    while i < hi
        invariant
            lo <= i <= hi <= text@.len(),
            hi - lo <= 3,
            part == text@.subrange(lo as int, hi as int),
            value as int == digits_value(text@.subrange(lo as int, i as int)),
            i - lo == 0 ==> value == 0,
            i - lo == 1 ==> value <= 9,
            i - lo == 2 ==> value <= 99,
            i - lo == 3 ==> value <= 999,
            forall|j: int| lo <= j < i ==> 48 <= #[trigger] text@[j] <= 57,
        decreases hi - i,
    {
        let b = text[i];
        if b < 48 || b > 57 {
            proof {
                assert forall|n: u8| part == dec_text(n as nat) implies false by {
                    lemma_dec_text(n as nat);
                    assert(part[i - lo] == text@[i as int]);
                }
            }
            return None;
        }
        let ghost before = text@.subrange(lo as int, i as int);
        assert(text@.subrange(lo as int, i + 1).drop_last() =~= before);
        value = value * 10 + (b - 48) as u32;
        i = i + 1;
    }
    assert(text@.subrange(lo as int, i as int) =~= part);
    if value > 255 {
        proof {
            assert forall|n: u8| part == dec_text(n as nat) implies false by {
                lemma_dec_text(n as nat);
            }
        }
        return None;
    }
    proof {
        assert forall|n: u8| part == dec_text(n as nat) implies Some(value as u8) == Some(n) by {
            lemma_dec_text(n as nat);
        }
    }
    Some(value as u8)
}

/// The octets of a dotted-decimal address, found at its three dots.
fn parse_octets(text: &Vec<u8>) -> (r: Option<(u8, u8, u8, u8)>)
    ensures
        forall|ip: u32| #[trigger] ipv4_text(ip) == text@ ==> {
            let o = be_u32_bytes(ip);
            r == Some((o[0], o[1], o[2], o[3]))
        },
{
    let len = text.len();
    let p1 = find_dot(text, 0);
    if p1 >= len {
        proof {
            assert forall|ip: u32| text@ == #[trigger] ipv4_text(ip) implies false by {
                lemma_ipv4_text_layout(ip);
            }
        }
        return None;
    }
    let p2 = find_dot(text, p1 + 1);
    if p2 >= len {
        proof {
            assert forall|ip: u32| text@ == #[trigger] ipv4_text(ip) implies false by {
                lemma_ipv4_text_layout(ip);
            }
        }
        return None;
    }
    let p3 = find_dot(text, p2 + 1);
    if p3 >= len {
        proof {
            assert forall|ip: u32| text@ == #[trigger] ipv4_text(ip) implies false by {
                lemma_ipv4_text_layout(ip);
            }
        }
        return None;
    }
    let a = parse_octet(text, 0, p1);
    let b = parse_octet(text, p1 + 1, p2);
    let c = parse_octet(text, p2 + 1, p3);
    let d = parse_octet(text, p3 + 1, len);
    proof {
        assert forall|ip: u32| #[trigger] ipv4_text(ip) == text@ implies {
            let o = be_u32_bytes(ip);
            &&& a == Some(o[0])
            &&& b == Some(o[1])
            &&& c == Some(o[2])
            &&& d == Some(o[3])
        } by {
            lemma_ipv4_text_layout(ip);
        }
    }
    match (a, b, c, d) {
        (Some(a), Some(b), Some(c), Some(d)) => Some((a, b, c, d)),
        _ => None,
    }
}

/// Whether two byte strings are equal.
fn same_bytes(x: &Vec<u8>, y: &Vec<u8>) -> (r: bool)
    ensures
        r == (x@ == y@),
{
    if x.len() != y.len() {
        return false;
    }
    let mut i: usize = 0;
    while i < x.len()
        invariant
            i <= x@.len() == y@.len(),
            forall|j: int| 0 <= j < i ==> x@[j] == y@[j],
        decreases x@.len() - i,
    {
        if x[i] != y[i] {
            return false;
        }
        i = i + 1;
    }
    assert(x@ =~= y@);
    true
}

/// The address that `text` spells in dotted-decimal form: `Some(ip)`
/// exactly when `text` is the text of `ip`, four decimal octets without
/// leading zeros, separated by dots.
pub fn parse_ipv4(text: &Vec<u8>) -> (r: Option<u32>)
    ensures
        r matches Some(ip) ==> text@ == ipv4_text(ip),
        forall|ip: u32| text@ == #[trigger] ipv4_text(ip) ==> r == Some(ip),
{
    let (a, b, c, d) = match parse_octets(text) {
        Some(o) => o,
        None => {
            return None;
        },
    };
    let ip = ((a as u32) << 24u32) | ((b as u32) << 16u32) | ((c as u32) << 8u32) | (d as u32);
    let ghost octets = seq![a, b, c, d];
    assert(ip == be_u32_value(octets));
    let mut rendered: Vec<u8> = Vec::new();
    push_dec(&mut rendered, ((ip >> 24u32) & 0xffu32) as u8);
    rendered.push(46u8);
    push_dec(&mut rendered, ((ip >> 16u32) & 0xffu32) as u8);
    rendered.push(46u8);
    push_dec(&mut rendered, ((ip >> 8u32) & 0xffu32) as u8);
    rendered.push(46u8);
    push_dec(&mut rendered, (ip & 0xffu32) as u8);
    assert(rendered@ =~= ipv4_text(ip));
    proof {
        assert forall|other: u32| text@ == #[trigger] ipv4_text(other) implies ip == other by {
            let o = be_u32_bytes(other);
            assert(octets =~= o);
            lemma_be_u32_round_trip(other);
        }
    }
    if same_bytes(&rendered, text) {
        Some(ip)
    } else {
        None
    }
}

} // verus!
