//! IP address literals, in the notations that a URL host may use.

use crate::escape::hex_value;
use crate::text::{copy_range, split, split_on, texts};
use vstd::prelude::*;

verus! {

/// The number that `t` spells in base `radix`; `None` where a character is no
/// digit of that base. The empty text spells zero.
pub open spec fn number(t: Seq<char>, radix: nat) -> Option<nat>
    decreases t.len(),
{
    if t.len() == 0 {
        Some(0)
    } else {
        match (number(t.drop_last(), radix), hex_value(t.last())) {
            (Some(n), Some(d)) => if d < radix {
                Some(n * radix + d)
            } else {
                None
            },
            _ => None,
        }
    }
}

/// One part of a dotted IPv4 address: up to three decimal digits without a
/// leading zero.
pub open spec fn octet(t: Seq<char>) -> Option<u8> {
    if 1 <= t.len() <= 3 && (t.len() == 1 || t[0] != '0') {
        match number(t, 10) {
            Some(n) => if n < 256 {
                Some(n as u8)
            } else {
                None
            },
            None => None,
        }
    } else {
        None
    }
}

/// One group of an IPv6 address: up to four hexadecimal digits.
pub open spec fn hex_group(t: Seq<char>) -> Option<u16> {
    if 1 <= t.len() <= 4 {
        match number(t, 16) {
            Some(n) => Some(n as u16),
            None => None,
        }
    } else {
        None
    }
}

/// The four octets of a dotted IPv4 address.
pub open spec fn ipv4(t: Seq<char>) -> Option<Seq<u8>> {
    let parts = split_on(t, '.');
    if parts.len() == 4 {
        match (octet(parts[0]), octet(parts[1]), octet(parts[2]), octet(parts[3])) {
            (Some(a), Some(b), Some(c), Some(d)) => Some(seq![a, b, c, d]),
            _ => None,
        }
    } else {
        None
    }
}

/// Two octets as one group.
pub open spec fn join_octets(hi: u8, lo: u8) -> u16 {
    (hi as int * 256 + lo as int) as u16
}

/// The groups that colon-separated parts spell. Where `v4_end` holds, the last
/// part may be a dotted IPv4 address, which stands for two groups.
pub open spec fn groups(parts: Seq<Seq<char>>, v4_end: bool) -> Option<Seq<u16>>
    decreases parts.len(),
{
    if parts.len() == 0 {
        Some(Seq::empty())
    } else {
        match hex_group(parts[0]) {
            Some(g) => match groups(parts.drop_first(), v4_end) {
                Some(rest) => Some(seq![g] + rest),
                None => None,
            },
            None => if v4_end && parts.len() == 1 {
                match ipv4(parts[0]) {
                    Some(o) => Some(seq![join_octets(o[0], o[1]), join_octets(o[2], o[3])]),
                    None => None,
                }
            } else {
                None
            },
        }
    }
}

/// The groups of a run of an IPv6 address; the empty text has none.
pub open spec fn group_run(t: Seq<char>, v4_end: bool) -> Option<Seq<u16>> {
    if t.len() == 0 {
        Some(Seq::empty())
    } else {
        groups(split_on(t, ':'), v4_end)
    }
}

/// The place of the first `::`; the length of `t` where there is none.
pub open spec fn double_colon(t: Seq<char>) -> int
    decreases t.len(),
{
    if t.len() < 2 {
        t.len() as int
    } else if t[0] == ':' && t[1] == ':' {
        0
    } else {
        1 + double_colon(t.drop_first())
    }
}

/// The eight groups of an IPv6 address: all written out, or with one `::` in
/// place of one or more zero groups.
pub open spec fn ipv6(t: Seq<char>) -> Option<Seq<u16>> {
    let i = double_colon(t);
    if i >= t.len() {
        match group_run(t, true) {
            Some(g) => if g.len() == 8 {
                Some(g)
            } else {
                None
            },
            None => None,
        }
    } else {
        match (group_run(t.subrange(0, i), false), group_run(
            t.subrange(i + 2, t.len() as int),
            true,
        )) {
            (Some(head), Some(tail)) => if head.len() + tail.len() <= 7 {
                Some(head + Seq::new((8 - head.len() - tail.len()) as nat, |k: int| 0u16) + tail)
            } else {
                None
            },
            _ => None,
        }
    }
}

/// Whether `t` is an IP address literal.
pub open spec fn is_ip(t: Seq<char>) -> bool {
    ipv4(t) is Some || ipv6(t) is Some
}

/// Whether `t` is a literal of a loopback address: `127.x.x.x` or any spelling
/// of `::1`.
pub open spec fn is_loopback_ip(t: Seq<char>) -> bool {
    match ipv4(t) {
        Some(o) => o[0] == 127,
        None => match ipv6(t) {
            Some(g) => g == seq![0u16, 0u16, 0u16, 0u16, 0u16, 0u16, 0u16, 1u16],
            None => false,
        },
    }
}

fn digit_value(c: char) -> (r: Option<u32>)
    ensures
        match r {
            Some(d) => hex_value(c) == Some(d as nat) && d < 16,
            None => hex_value(c) is None,
        },
{
    let v: u32 = c as u32;
    if '0' <= c && c <= '9' {
        Some(v - 48)
    } else if 'a' <= c && c <= 'f' {
        Some(v - 87)
    } else if 'A' <= c && c <= 'F' {
        Some(v - 55)
    } else {
        None
    }
}

fn parse_number(v: &[char], radix: u32) -> (r: Option<u32>)
    requires
        v@.len() <= 4,
        radix == 10 || radix == 16,
    ensures
        match r {
            Some(n) => number(v@, radix as nat) == Some(n as nat) && n < 0x10000,
            None => number(v@, radix as nat) is None,
        },
{
    let mut n: u32 = 0;
    let mut i: usize = 0;
    assert(v@.subrange(0, v@.len() as int) =~= v@);
    assert(v@.subrange(0, 0) =~= Seq::<char>::empty());
    while i < v.len()
        invariant
            i <= v@.len() <= 4,
            radix == 10 || radix == 16,
            number(v@.subrange(0, i as int), radix as nat) == Some(n as nat),
            i == 0 ==> n == 0,
            i == 1 ==> n < 0x10,
            i == 2 ==> n < 0x100,
            i == 3 ==> n < 0x1000,
            i == 4 ==> n < 0x10000,
        decreases v@.len() - i,
    {
        let ghost next = v@.subrange(0, i + 1);
        assert(next.drop_last() =~= v@.subrange(0, i as int));
        assert(next.last() == v@[i as int]);
        let good = match digit_value(v[i]) {
            Some(d) => if d < radix {
                assert(n * radix <= n * 16) by (nonlinear_arith)
                    requires
                        radix <= 16,
                ;
                n = n * radix + d;
                true
            } else {
                false
            },
            None => false,
        };
        if !good {
            assert(number(next, radix as nat) is None);
            proof {
                lemma_number_none(v@, i + 1, radix as nat);
            }
            return None;
        }
        i = i + 1;
    }
    Some(n)
}

/// A text with a prefix that is no number is no number.
proof fn lemma_number_none(t: Seq<char>, i: int, radix: nat)
    requires
        0 <= i <= t.len(),
        number(t.subrange(0, i), radix) is None,
    ensures
        number(t, radix) is None,
    decreases t.len(),
{
    if i < t.len() {
        assert(t.drop_last().subrange(0, i) =~= t.subrange(0, i));
        lemma_number_none(t.drop_last(), i, radix);
    } else {
        assert(t.subrange(0, i) =~= t);
    }
}

fn parse_octet(v: &[char]) -> (r: Option<u8>)
    ensures
        r == octet(v@),
{
    if v.len() == 0 || v.len() > 3 || (v.len() > 1 && v[0] == '0') {
        return None;
    }
    match parse_number(v, 10) {
        Some(n) => if n < 256 {
            Some(n as u8)
        } else {
            None
        },
        None => None,
    }
}

fn parse_group(v: &[char]) -> (r: Option<u16>)
    ensures
        r == hex_group(v@),
{
    if v.len() == 0 || v.len() > 4 {
        return None;
    }
    match parse_number(v, 16) {
        Some(n) => Some(n as u16),
        None => None,
    }
}

/// Reads a dotted IPv4 address.
pub fn parse_ipv4(v: &[char]) -> (r: Option<Vec<u8>>)
    ensures
        match r {
            Some(o) => ipv4(v@) == Some(o@) && o@.len() == 4,
            None => ipv4(v@) is None,
        },
{
    let parts = split(v, '.');
    assert(texts(parts@).len() == parts@.len());
    if parts.len() != 4 {
        return None;
    }
    assert forall|k: int| 0 <= k < 4 implies split_on(v@, '.')[k] == (#[trigger] parts@[k])@ by {
        assert(texts(parts@)[k] == parts@[k]@);
    }
    let a = parse_octet(parts[0].as_slice());
    let b = parse_octet(parts[1].as_slice());
    let c = parse_octet(parts[2].as_slice());
    let d = parse_octet(parts[3].as_slice());
    match (a, b, c, d) {
        (Some(a), Some(b), Some(c), Some(d)) => {
            let mut out: Vec<u8> = Vec::new();
            out.push(a);
            out.push(b);
            out.push(c);
            out.push(d);
            assert(out@ =~= seq![a, b, c, d]);
            Some(out)
        },
        _ => None,
    }
}

fn parse_group_run(v: &[char], v4_end: bool) -> (r: Option<Vec<u16>>)
    ensures
        match r {
            Some(g) => group_run(v@, v4_end) == Some(g@),
            None => group_run(v@, v4_end) is None,
        },
{
    let mut out: Vec<u16> = Vec::new();
    if v.len() == 0 {
        assert(out@ =~= Seq::<u16>::empty());
        return Some(out);
    }
    let parts = split(v, ':');
    let ghost all = split_on(v@, ':');
    assert(all.len() == parts@.len());
    assert forall|k: int| 0 <= k < parts@.len() implies all[k] == (#[trigger] parts@[k])@ by {
        assert(texts(parts@)[k] == parts@[k]@);
    }
    let mut i: usize = 0;
    assert(all.skip(0) =~= all);
    while i < parts.len()
        invariant
            i <= parts@.len(),
            all.len() == parts@.len(),
            all == split_on(v@, ':'),
            v@.len() > 0,
            forall|k: int| 0 <= k < parts@.len() ==> all[k] == (#[trigger] parts@[k])@,
            group_run(v@, v4_end) == prepend(out@, groups(all.skip(i as int), v4_end)),
        decreases parts@.len() - i,
    {
        let ghost rest = all.skip(i as int);
        assert(rest[0] == all[i as int]);
        assert(rest.drop_first() =~= all.skip(i + 1));
        let ghost done = out@;
        match parse_group(parts[i].as_slice()) {
            Some(g) => {
                out.push(g);
                i = i + 1;
                proof {
                    let tail = groups(all.skip(i as int), v4_end);
                    if tail is Some {
                        assert(done + (seq![g] + tail->0) =~= out@ + tail->0);
                    }
                }
            },
            None => {
                if v4_end && i + 1 == parts.len() {
                    match parse_ipv4(parts[i].as_slice()) {
                        Some(o) => {
                            let hi: u16 = (o[0] as u16) * 256 + o[1] as u16;
                            let lo: u16 = (o[2] as u16) * 256 + o[3] as u16;
                            out.push(hi);
                            out.push(lo);
                            assert(out@ =~= done + seq![hi, lo]);
                            return Some(out);
                        },
                        None => {
                            return None;
                        },
                    }
                }
                return None;
            },
        }
    }
    assert(all.skip(i as int) =~= Seq::<Seq<char>>::empty());
    assert(out@ + Seq::<u16>::empty() =~= out@);
    Some(out)
}

/// Groups already read, followed by the groups still to be read.
spec fn prepend(done: Seq<u16>, rest: Option<Seq<u16>>) -> Option<Seq<u16>> {
    match rest {
        Some(r) => Some(done + r),
        None => None,
    }
}

fn find_double_colon(v: &[char]) -> (r: usize)
    ensures
        r == double_colon(v@),
        r <= v@.len(),
        r < v@.len() ==> r + 2 <= v@.len(),
{
    let mut i: usize = 0;
    let n: usize = v.len();
    assert(v@.skip(0) =~= v@);
    while n - i >= 2
        invariant
            i <= n,
            n == v@.len(),
            double_colon(v@) == i + double_colon(v@.skip(i as int)),
        decreases n - i,
    {
        if v[i] == ':' && v[i + 1] == ':' {
            return i;
        }
        assert(v@.skip(i as int).drop_first() =~= v@.skip(i + 1));
        i = i + 1;
    }
    n
}

/// Reads an IPv6 address.
pub fn parse_ipv6(v: &[char]) -> (r: Option<Vec<u16>>)
    ensures
        match r {
            Some(g) => ipv6(v@) == Some(g@),
            None => ipv6(v@) is None,
        },
{
    let at = find_double_colon(v);
    if at == v.len() {
        return match parse_group_run(v, true) {
            Some(g) => if g.len() == 8 {
                Some(g)
            } else {
                None
            },
            None => None,
        };
    }
    let front = copy_range(v, 0, at);
    let back = copy_range(v, at + 2, v.len());
    match (parse_group_run(front.as_slice(), false), parse_group_run(back.as_slice(), true)) {
        (Some(head), Some(tail)) => {
            if head.len() > 7 || tail.len() > 7 - head.len() {
                return None;
            }
            let mut out = head;
            let zeros: usize = 8 - out.len() - tail.len();
            let ghost start = out@;
            let mut i: usize = 0;
            while i < zeros
                invariant
                    i <= zeros,
                    out@ == start + Seq::new(i as nat, |k: int| 0u16),
                decreases zeros - i,
            {
                out.push(0);
                i = i + 1;
                assert(out@ =~= start + Seq::new(i as nat, |k: int| 0u16));
            }
            let mut tail = tail;
            out.append(&mut tail);
            Some(out)
        },
        _ => None,
    }
}

/// Whether the text is an IP address literal.
pub fn is_ip_literal(v: &[char]) -> (r: bool)
    ensures
        r == is_ip(v@),
{
    parse_ipv4(v).is_some() || parse_ipv6(v).is_some()
}

/// Whether the text is a literal of a loopback address.
pub fn is_loopback_literal(v: &[char]) -> (r: bool)
    ensures
        r == is_loopback_ip(v@),
{
    match parse_ipv4(v) {
        Some(o) => o[0] == 127,
        None => match parse_ipv6(v) {
            Some(g) => {
                let ghost one = seq![0u16, 0u16, 0u16, 0u16, 0u16, 0u16, 0u16, 1u16];
                let r = g.len() == 8 && g[0] == 0 && g[1] == 0 && g[2] == 0 && g[3] == 0 && g[4]
                    == 0 && g[5] == 0 && g[6] == 0 && g[7] == 1;
                proof {
                    if r {
                        assert(g@ =~= one);
                    } else if g@ == one {
                        assert(g@.len() == 8 && g@[0] == 0 && g@[7] == 1);
                    }
                }
                r
            },
            None => false,
        },
    }
}

/// Every loopback literal is an IP literal.
pub proof fn loopback_literals_are_ip(t: Seq<char>)
    ensures
        is_loopback_ip(t) ==> is_ip(t),
{
}

} // verus!
