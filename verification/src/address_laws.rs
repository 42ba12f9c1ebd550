//! How addresses and lists are read from text: what is taken apart, and what is
//! refused.

use crate::config::lemma_decimal_number;
use crate::escape::{hex_lower, hex_upper};
use crate::ip::{
    double_colon, group_run, groups, hex_group, ipv4, ipv6, is_ip, is_loopback_ip, number, octet,
};
use crate::setting_laws::decimals_are_digits;
use crate::text::{decimal, lemma_index_of_unique, split_on, white_space};
use vstd::prelude::*;

verus! {

/// A text without the separator is one piece, and the separator ends a piece.
pub proof fn separators_end_a_piece(a: Seq<char>, sep: char, b: Seq<char>)
    requires
        forall|k: int| 0 <= k < a.len() ==> a[k] != sep,
    ensures
        split_on(a, sep) == seq![a],
        split_on(a + seq![sep] + b, sep) == seq![a] + split_on(b, sep),
{
    lemma_index_of_unique(a, sep, a.len() as int);
    let t = a + seq![sep] + b;
    let n = a.len() as int;
    assert(t[n] == sep);
    assert forall|k: int| 0 <= k < n implies t[k] != sep by {
        assert(t[k] == a[k]);
    }
    lemma_index_of_unique(t, sep, n);
    assert(t.subrange(0, n) =~= a);
    assert(t.subrange(n + 1, t.len() as int) =~= b);
}

/// A hexadecimal digit counts the same in either case, and the next digit counts
/// for a sixteenth of the one before.
pub proof fn digits_count_by_their_place(t: Seq<char>, n: nat, d: nat)
    requires
        d < 16,
        number(t, 16) == Some(n),
    ensures
        number(t.push(hex_lower(d)), 16) == Some(16 * n + d),
        number(t.push(hex_upper(d)), 16) == Some(16 * n + d),
        number(Seq::empty(), 16) == Some(0nat),
{
    assert(t.push(hex_lower(d)).drop_last() =~= t);
    assert(t.push(hex_upper(d)).drop_last() =~= t);
    assert(n * 16 == 16 * n);
}

/// A part of an IPv4 address is a number below two hundred and fifty-six, written
/// without a leading zero.
pub proof fn octets_are_numbers_of_eight_bits(n: nat, t: Seq<char>)
    ensures
        n < 256 ==> octet(decimal(n)) == Some(n as u8),
        n >= 256 ==> octet(decimal(n)) is None,
        t.len() > 0 ==> octet(seq!['0'] + t) is None,
        octet(Seq::empty()) is None,
        t.len() > 3 ==> octet(t) is None,
{
    lemma_decimal_number(n);
    decimals_are_digits(n, 0);
    assert((seq!['0'] + t)[0] == '0');
}

proof fn lemma_no_dot(n: nat)
    ensures
        forall|k: int| 0 <= k < decimal(n).len() ==> decimal(n)[k] != '.',
{
    assert forall|k: int| 0 <= k < decimal(n).len() implies decimal(n)[k] != '.' by {
        decimals_are_digits(n, k);
    }
}

/// Four numbers of eight bits with dots between them are the IPv4 address of just
/// these numbers; it is a loopback one where the first is 127.
pub proof fn dotted_numbers_are_addresses(a: u8, b: u8, c: u8, d: u8)
    ensures
        ({
            let t = decimal(a as nat) + seq!['.'] + (decimal(b as nat) + seq!['.'] + (decimal(
                c as nat,
            ) + seq!['.'] + decimal(d as nat)));
            &&& ipv4(t) == Some(seq![a, b, c, d])
            &&& is_ip(t)
            &&& is_loopback_ip(t) <==> a == 127
        }),
{
    let e = decimal(d as nat);
    let f = decimal(c as nat) + seq!['.'] + e;
    let g = decimal(b as nat) + seq!['.'] + f;
    lemma_no_dot(a as nat);
    lemma_no_dot(b as nat);
    lemma_no_dot(c as nat);
    lemma_no_dot(d as nat);
    separators_end_a_piece(e, '.', e);
    separators_end_a_piece(decimal(c as nat), '.', e);
    separators_end_a_piece(decimal(b as nat), '.', f);
    separators_end_a_piece(decimal(a as nat), '.', g);
    octets_are_numbers_of_eight_bits(a as nat, e);
    octets_are_numbers_of_eight_bits(b as nat, e);
    octets_are_numbers_of_eight_bits(c as nat, e);
    octets_are_numbers_of_eight_bits(d as nat, e);
    let t = decimal(a as nat) + seq!['.'] + g;
    assert(split_on(t, '.') =~= seq![
        decimal(a as nat),
        decimal(b as nat),
        decimal(c as nat),
        decimal(d as nat),
    ]);
    assert(ipv4(t) =~= Some(seq![a, b, c, d]));
}

/// A text without dots is no IPv4 address.
pub proof fn undotted_texts_are_no_ipv4(t: Seq<char>)
    requires
        forall|k: int| 0 <= k < t.len() ==> t[k] != '.',
    ensures
        ipv4(t) is None,
{
    separators_end_a_piece(t, '.', t);
}

/// A group of an IPv6 address has one to four hexadecimal digits.
pub proof fn groups_have_up_to_four_digits(t: Seq<char>, n: nat)
    ensures
        1 <= t.len() <= 4 && number(t, 16) == Some(n) ==> hex_group(t) == Some(n as u16),
        t.len() > 4 || t.len() == 0 ==> hex_group(t) is None,
        number(t, 16) is None ==> hex_group(t) is None,
{
}

/// An IPv6 address has eight groups. Where two colons stand in it, the groups
/// before them come first, those behind them last, and zeros between: at least one.
pub proof fn two_colons_stand_for_zeros(t: Seq<char>, k: int)
    requires
        ipv6(t) is Some,
    ensures
        (ipv6(t)->0).len() == 8,
        double_colon(t) < t.len() ==> {
            let all = ipv6(t)->0;
            let head = group_run(t.subrange(0, double_colon(t)), false);
            let tail = group_run(t.subrange(double_colon(t) + 2, t.len() as int), true);
            &&& head is Some && tail is Some
            &&& (head->0).len() + (tail->0).len() < 8
            &&& 0 <= k < (head->0).len() ==> all[k] == (head->0)[k]
            &&& (head->0).len() <= k < 8 - (tail->0).len() ==> all[k] == 0
            &&& 0 <= k < (tail->0).len() ==> all[8 - (tail->0).len() + k] == (tail->0)[k]
        },
{
}

/// Two colons alone are the address of zeros, and a one behind them makes it the
/// loopback address, with or without leading zeros.
pub proof fn the_short_loopback_address()
    ensures
        ipv6(seq![':', ':']) == Some(Seq::new(8, |k: int| 0u16)),
        is_loopback_ip(seq![':', ':', '1']),
        !is_loopback_ip(seq![':', ':']),
{
    let z = seq![':', ':'];
    assert(double_colon(z) == 0);
    assert(z.subrange(0, 0).len() == 0);
    assert(z.subrange(2, 2).len() == 0);
    assert(ipv6(z)->0 =~= Seq::new(8, |k: int| 0u16));
    undotted_texts_are_no_ipv4(z);
    assert(ipv6(z)->0[7] == 0);
    let one = seq![':', ':', '1'];
    undotted_texts_are_no_ipv4(one);
    assert(double_colon(one) == 0);
    assert(one.subrange(0, 0).len() == 0);
    let tail = one.subrange(2, 3);
    assert(tail =~= seq!['1']);
    separators_end_a_piece(tail, ':', tail);
    digits_count_by_their_place(Seq::empty(), 0, 1);
    assert(Seq::<char>::empty().push('1') =~= tail);
    assert(number(tail, 16) == Some(1nat));
    assert(hex_group(tail) == Some(1u16));
    let parts = seq![tail];
    assert(parts.drop_first().len() == 0);
    reveal_with_fuel(groups, 2);
    assert(groups(parts, true)->0 =~= seq![1u16]);
    assert(ipv6(one)->0 =~= seq![0u16, 0u16, 0u16, 0u16, 0u16, 0u16, 0u16, 1u16]);
}

/// Of the characters of ASCII, the space and the five controls from the tab to the
/// carriage return are white space; what can be seen is not.
pub proof fn visible_characters_are_no_white_space(c: char)
    ensures
        c == ' ' ==> white_space(c),
        0x9 <= c as u32 <= 0xd ==> white_space(c),
        (c as u32) < 0x9 || 0xd < c as u32 <= 0x1f || 0x21 <= c as u32 <= 0x7f ==> !white_space(c),
        c as u32 > 0x3000 ==> !white_space(c),
{
}

/// The last part of an IPv6 address may be dotted: it stands for two groups, each
/// of two of its numbers. Elsewhere, and where it may not be, it is refused.
pub proof fn dotted_ends_are_two_groups(t: Seq<char>, a: u8, b: u8, c: u8, d: u8, next: Seq<char>)
    requires
        hex_group(t) is None,
        ipv4(t) == Some(seq![a, b, c, d]),
    ensures
        groups(seq![t], true) == Some(seq![(256 * a + b) as u16, (256 * c + d) as u16]),
        groups(seq![t], false) is None,
        groups(seq![t, next], true) is None,
{
    assert(groups(seq![t], true)->0 =~= seq![(256 * a + b) as u16, (256 * c + d) as u16]);
}

/// Every part of an address that is not dotted gives one group, in its place.
pub proof fn parts_give_their_groups(part: Seq<char>, g: u16, rest: Seq<Seq<char>>, v4_end: bool)
    ensures
        hex_group(part) == Some(g) && groups(rest, v4_end) is Some ==> groups(
            seq![part] + rest,
            v4_end,
        ) == Some(seq![g] + groups(rest, v4_end)->0),
        hex_group(part) == Some(g) && groups(rest, v4_end) is None ==> groups(
            seq![part] + rest,
            v4_end,
        ) is None,
{
    assert((seq![part] + rest).drop_first() =~= rest);
}

} // verus!
