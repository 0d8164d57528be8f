//! An address that is written out is read back: `address_text` and
//! `socket_address_of` undo each other.

use crate::address::ipv6::{
    gap_at, groups_of, hex_digit_value, hex_group, hex_groups, hex_value, ipv6_address,
    ipv6_groups, is_hex_digit, lemma_gap_is_first_pair, only_hex_digits, packed,
};
use crate::address::{
    address_text, decimal_text, decimal_value, digit_char, digit_value, dotted_quad, group_at,
    ipv4_text, ipv6_pieces, ipv6_text, is_decimal_digit, joined,
    lemma_split_nonempty, octet, only_decimal_digits, port_number, scope_number, scope_text,
    scoped_ipv6, socket_address_of, socket_v4, socket_v6, split, SocketAddress,
};
use crate::text::{hex_digit_char, hex_text};
use vstd::prelude::*;

verus! {

/// The character occurs nowhere in the text.
pub open spec fn free_of(s: Seq<char>, c: char) -> bool {
    forall|i: int| 0 <= i < s.len() ==> #[trigger] s[i] != c
}

/// A text without the separator is one piece.
pub proof fn lemma_split_one_piece(s: Seq<char>, sep: char)
    requires
        free_of(s, sep),
    ensures
        split(s, sep) == seq![s],
    decreases s.len(),
{
    if s.len() == 0 {
        assert(s =~= Seq::empty());
    } else {
        let before = s.drop_last();
        assert forall|i: int| 0 <= i < before.len() implies #[trigger] before[i] != sep by {
            assert(before[i] == s[i]);
        }
        lemma_split_one_piece(before, sep);
        assert(s.last() == s[s.len() - 1]);
        assert(before.push(s.last()) =~= s);
        assert(seq![before].drop_last().push(before.push(s.last())) =~= seq![s]);
    }
}

/// The pieces of two texts that are joined by the separator are the pieces
/// of the first followed by the pieces of the second.
pub proof fn lemma_split_joined(a: Seq<char>, b: Seq<char>, sep: char)
    ensures
        split(a + seq![sep] + b, sep) == split(a, sep) + split(b, sep),
    decreases b.len(),
{
    let s = a + seq![sep] + b;
    lemma_split_nonempty(a, sep);
    if b.len() == 0 {
        assert(s.drop_last() =~= a);
        assert(s.last() == sep);
        assert(b =~= Seq::empty());
        assert(split(a, sep).push(Seq::empty()) =~= split(a, sep) + seq![Seq::<char>::empty()]);
    } else {
        let shorter = b.drop_last();
        lemma_split_joined(a, shorter, sep);
        lemma_split_nonempty(shorter, sep);
        assert(s.drop_last() =~= a + seq![sep] + shorter);
        assert(s.last() == b.last());
        let left = split(a, sep);
        let right = split(shorter, sep);
        if b.last() == sep {
            assert((left + right).push(Seq::empty()) =~= left + right.push(Seq::empty()));
        } else {
            assert((left + right).drop_last() =~= left + right.drop_last());
            assert((left + right).last() == right.last());
            assert((left + right.drop_last()).push(right.last().push(b.last())) =~= left
                + right.drop_last().push(right.last().push(b.last())));
        }
    }
}

/// The first piece of a text begins as the text does.
pub proof fn lemma_first_piece(s: Seq<char>, sep: char)
    requires
        s.len() > 0,
        s[0] != sep,
    ensures
        split(s, sep).len() >= 1,
        split(s, sep)[0].len() >= 1,
        split(s, sep)[0][0] == s[0],
    decreases s.len(),
{
    lemma_split_nonempty(s, sep);
    let before = s.drop_last();
    let pieces = split(before, sep);
    lemma_split_nonempty(before, sep);
    if s.len() == 1 {
        assert(before =~= Seq::empty());
        assert(pieces =~= seq![Seq::<char>::empty()]);
        assert(s.last() == s[0]);
        assert(split(s, sep) =~= seq![seq![s[0]]]);
    } else {
        assert(before[0] == s[0]);
        lemma_first_piece(before, sep);
        if s.last() == sep {
            assert(split(s, sep)[0] == pieces[0]);
        } else if pieces.len() == 1 {
            assert(split(s, sep)[0] == pieces[0].push(s.last()));
        } else {
            assert(split(s, sep)[0] == pieces[0]);
        }
    }
}

// ---------------------------------------------------------------------------
// Numbers
// ---------------------------------------------------------------------------

/// The decimal text of a number holds digits only, begins with a zero only
/// where the number is below ten, and denotes the number.
pub proof fn lemma_decimal_text(n: nat)
    ensures
        decimal_text(n).len() >= 1,
        only_decimal_digits(decimal_text(n)),
        decimal_value(decimal_text(n)) == n,
        decimal_text(n).len() > 1 ==> decimal_text(n)[0] != '0',
        n < 10 ==> decimal_text(n).len() == 1,
        n >= 10 ==> decimal_text(n).len() >= 2,
        n < 100 ==> decimal_text(n).len() <= 2,
        n < 1000 ==> decimal_text(n).len() <= 3,
    decreases n,
{
    let text = decimal_text(n);
    if n < 10 {
        assert(text.drop_last() =~= Seq::empty());
        assert(decimal_value(text.drop_last()) == 0);
        assert(text.last() == digit_char(n));
    } else {
        lemma_decimal_text(n / 10);
        let shorter = decimal_text(n / 10);
        assert(text.drop_last() =~= shorter);
        assert(text.last() == digit_char(n % 10));
        assert(digit_value(digit_char(n % 10)) == n % 10);
        assert forall|i: int| 0 <= i < text.len() implies is_decimal_digit(#[trigger] text[i]) by {
            if i < shorter.len() {
                assert(text[i] == shorter[i]);
            }
        }
        assert(text[0] == shorter[0]);
        if shorter.len() == 1 {
            assert(n / 10 < 10);
            assert(shorter[0] == digit_char(n / 10));
        }
    }
}

/// The text of a decimal number holds none of the characters that stand
/// between the parts of an address.
pub proof fn lemma_decimal_text_is_plain(n: nat)
    ensures
        free_of(decimal_text(n), '.'),
        free_of(decimal_text(n), ':'),
        free_of(decimal_text(n), '%'),
        free_of(decimal_text(n), ']'),
        decimal_text(n)[0] != '[',
{
    lemma_decimal_text(n);
    let text = decimal_text(n);
    assert forall|i: int| 0 <= i < text.len() implies #[trigger] text[i] != '.' && text[i] != ':'
        && text[i] != '%' && text[i] != ']' && text[i] != '[' by {
        assert(is_decimal_digit(text[i]));
    }
}

/// The hexadecimal text of a number below 65536 holds one to four digits and
/// denotes the number.
pub proof fn lemma_hex_text(n: nat)
    ensures
        hex_text(n).len() >= 1,
        only_hex_digits(hex_text(n)),
        hex_value(hex_text(n)) == n,
        n < 0x10 ==> hex_text(n).len() == 1,
        n < 0x100 ==> hex_text(n).len() <= 2,
        n < 0x1000 ==> hex_text(n).len() <= 3,
        n < 0x1_0000 ==> hex_text(n).len() <= 4,
    decreases n,
{
    let text = hex_text(n);
    if n < 16 {
        assert(text.drop_last() =~= Seq::empty());
        assert(hex_value(text.drop_last()) == 0);
        assert(text.last() == hex_digit_char(n));
    } else {
        lemma_hex_text(n / 16);
        let shorter = hex_text(n / 16);
        assert(text.drop_last() =~= shorter);
        assert(text.last() == hex_digit_char(n % 16));
        assert(hex_digit_value(hex_digit_char(n % 16)) == n % 16);
        assert forall|i: int| 0 <= i < text.len() implies is_hex_digit(#[trigger] text[i]) by {
            if i < shorter.len() {
                assert(text[i] == shorter[i]);
            }
        }
    }
}

/// The text of a group holds none of the characters that stand between the
/// parts of an address.
pub proof fn lemma_hex_text_is_plain(n: nat)
    ensures
        free_of(hex_text(n), '.'),
        free_of(hex_text(n), ':'),
        free_of(hex_text(n), '%'),
        free_of(hex_text(n), ']'),
{
    lemma_hex_text(n);
    let text = hex_text(n);
    assert forall|i: int| 0 <= i < text.len() implies #[trigger] text[i] != '.' && text[i] != ':'
        && text[i] != '%' && text[i] != ']' by {
        assert(is_hex_digit(text[i]));
    }
}

/// A text that is free of a character stays so when it is put together from
/// texts that are.
pub proof fn lemma_free_of_joined(a: Seq<char>, b: Seq<char>, c: char)
    requires
        free_of(a, c),
        free_of(b, c),
    ensures
        free_of(a + b, c),
{
    assert forall|i: int| 0 <= i < (a + b).len() implies #[trigger] (a + b)[i] != c by {
        if i < a.len() {
            assert((a + b)[i] == a[i]);
        } else {
            assert((a + b)[i] == b[i - a.len()]);
        }
    }
}

// ---------------------------------------------------------------------------
// IPv4
// ---------------------------------------------------------------------------

/// A part of a dotted quad is read back from its text.
pub proof fn lemma_octet_round_trip(n: nat)
    requires
        n <= 255,
    ensures
        octet(decimal_text(n)) == Some(n),
{
    lemma_decimal_text(n);
}

/// A dotted quad is read back from its text.
pub proof fn lemma_dotted_quad_round_trip(ip: u32)
    ensures
        dotted_quad(ipv4_text(ip)) == Some(ip),
        free_of(ipv4_text(ip), ':'),
        free_of(ipv4_text(ip), ']'),
        ipv4_text(ip).len() > 0,
        ipv4_text(ip)[0] != '[',
{
    let a = (ip / 0x100_0000) as nat;
    let b = (ip / 0x1_0000 % 0x100) as nat;
    let c = (ip / 0x100 % 0x100) as nat;
    let d = (ip % 0x100) as nat;
    let ta = decimal_text(a);
    let tb = decimal_text(b);
    let tc = decimal_text(c);
    let td = decimal_text(d);
    let dot = seq!['.'];
    lemma_decimal_text_is_plain(a);
    lemma_decimal_text_is_plain(b);
    lemma_decimal_text_is_plain(c);
    lemma_decimal_text_is_plain(d);
    lemma_octet_round_trip(a);
    lemma_octet_round_trip(b);
    lemma_octet_round_trip(c);
    lemma_octet_round_trip(d);
    lemma_split_one_piece(ta, '.');
    lemma_split_one_piece(tb, '.');
    lemma_split_one_piece(tc, '.');
    lemma_split_one_piece(td, '.');
    lemma_split_joined(ta, tb, '.');
    lemma_split_joined(ta + dot + tb, tc, '.');
    lemma_split_joined(ta + dot + tb + dot + tc, td, '.');
    let text = ipv4_text(ip);
    assert(text == ta + dot + tb + dot + tc + dot + td);
    let parts = split(text, '.');
    assert(parts =~= seq![ta, tb, tc, td]);
    assert(a * 0x100_0000 + b * 0x1_0000 + c * 0x100 + d == ip);
    assert(free_of(dot, ':') && free_of(dot, ']'));
    lemma_free_of_joined(ta, dot, ':');
    lemma_free_of_joined(ta + dot, tb, ':');
    lemma_free_of_joined(ta + dot + tb, dot, ':');
    lemma_free_of_joined(ta + dot + tb + dot, tc, ':');
    lemma_free_of_joined(ta + dot + tb + dot + tc, dot, ':');
    lemma_free_of_joined(ta + dot + tb + dot + tc + dot, td, ':');
    lemma_free_of_joined(ta, dot, ']');
    lemma_free_of_joined(ta + dot, tb, ']');
    lemma_free_of_joined(ta + dot + tb, dot, ']');
    lemma_free_of_joined(ta + dot + tb + dot, tc, ']');
    lemma_free_of_joined(ta + dot + tb + dot + tc, dot, ']');
    lemma_free_of_joined(ta + dot + tb + dot + tc + dot, td, ']');
    assert(text[0] == ta[0]);
}

/// A port is read back from its text.
pub proof fn lemma_port_round_trip(port: u16)
    ensures
        port_number(decimal_text(port as nat)) == Some(port),
{
    lemma_decimal_text(port as nat);
}

/// An IPv4 socket address is read back from its text.
pub proof fn lemma_socket_v4_round_trip(ip: u32, port: u16)
    ensures
        socket_address_of(address_text(SocketAddress::V4 { ip, port })) == Some(
            SocketAddress::V4 { ip, port },
        ),
{
    let quad = ipv4_text(ip);
    let tail = decimal_text(port as nat);
    lemma_dotted_quad_round_trip(ip);
    lemma_port_round_trip(port);
    lemma_decimal_text_is_plain(port as nat);
    lemma_split_one_piece(quad, ':');
    lemma_split_one_piece(tail, ':');
    lemma_split_joined(quad, tail, ':');
    let text = address_text(SocketAddress::V4 { ip, port });
    assert(text == quad + seq![':'] + tail);
    assert(split(text, ':') =~= seq![quad, tail]);
}

// ---------------------------------------------------------------------------
// IPv6
// ---------------------------------------------------------------------------

/// Texts that were put together with a separator that none of them holds
/// are the pieces of what they were put together to.
pub proof fn lemma_split_of_joined(pieces: Seq<Seq<char>>, sep: char)
    requires
        pieces.len() >= 1,
        forall|k: int| 0 <= k < pieces.len() ==> free_of(#[trigger] pieces[k], sep),
    ensures
        split(joined(pieces, sep), sep) == pieces,
    decreases pieces.len(),
{
    if pieces.len() == 1 {
        lemma_split_one_piece(pieces[0], sep);
        assert(seq![pieces[0]] =~= pieces);
    } else {
        let before = pieces.drop_last();
        assert forall|k: int| 0 <= k < before.len() implies free_of(#[trigger] before[k], sep) by {
            assert(before[k] == pieces[k]);
        }
        lemma_split_of_joined(before, sep);
        assert(pieces.last() == pieces[pieces.len() - 1]);
        lemma_split_one_piece(pieces.last(), sep);
        lemma_split_joined(joined(before, sep), pieces.last(), sep);
        assert(before + seq![pieces.last()] =~= pieces);
    }
}

/// What no piece holds, and is not the separator, the whole does not hold.
pub proof fn lemma_joined_is_free_of(pieces: Seq<Seq<char>>, sep: char, c: char)
    requires
        c != sep,
        forall|k: int| 0 <= k < pieces.len() ==> free_of(#[trigger] pieces[k], c),
    ensures
        free_of(joined(pieces, sep), c),
    decreases pieces.len(),
{
    if pieces.len() >= 2 {
        let before = pieces.drop_last();
        assert forall|k: int| 0 <= k < before.len() implies free_of(#[trigger] before[k], c) by {
            assert(before[k] == pieces[k]);
        }
        lemma_joined_is_free_of(before, sep, c);
        assert(pieces.last() == pieces[pieces.len() - 1]);
        assert(free_of(seq![sep], c));
        lemma_free_of_joined(joined(before, sep), seq![sep], c);
        lemma_free_of_joined(joined(before, sep) + seq![sep], pieces.last(), c);
    } else if pieces.len() == 1 {
        assert(free_of(pieces[0], c));
    }
}

/// No two colons stand side by side in the text.
pub open spec fn no_pair_of_colons(s: Seq<char>) -> bool {
    forall|j: int| 0 <= j && j + 1 < s.len() ==> !(#[trigger] s[j] == ':' && s[j + 1] == ':')
}

/// Texts without a colon, none of them empty, that are put together with
/// colons give a text that neither begins nor ends with a colon and holds no
/// two colons side by side.
pub proof fn lemma_joined_with_single_colons(pieces: Seq<Seq<char>>)
    requires
        pieces.len() >= 1,
        forall|k: int|
            0 <= k < pieces.len() ==> free_of(#[trigger] pieces[k], ':') && pieces[k].len() > 0,
    ensures
        joined(pieces, ':').len() > 0,
        joined(pieces, ':')[0] == pieces[0][0],
        joined(pieces, ':').last() != ':',
        no_pair_of_colons(joined(pieces, ':')),
    decreases pieces.len(),
{
    let whole = joined(pieces, ':');
    if pieces.len() == 1 {
        let only = pieces[0];
        assert(free_of(only, ':'));
        assert(only[only.len() - 1] != ':');
        assert forall|j: int| 0 <= j && j + 1 < only.len() implies !(#[trigger] only[j] == ':'
            && only[j + 1] == ':') by {
            assert(only[j] != ':');
        }
    } else {
        let before = pieces.drop_last();
        assert forall|k: int| 0 <= k < before.len() implies free_of(#[trigger] before[k], ':')
            && before[k].len() > 0 by {
            assert(before[k] == pieces[k]);
        }
        lemma_joined_with_single_colons(before);
        let head = joined(before, ':');
        let last = pieces.last();
        assert(last == pieces[pieces.len() - 1]);
        assert(free_of(last, ':') && last.len() > 0);
        assert(whole == head + seq![':'] + last);
        assert(whole[0] == head[0]);
        assert(before[0] == pieces[0]);
        assert(whole.last() == last[last.len() - 1]);
        assert(head[head.len() - 1] != ':');
        assert forall|j: int| 0 <= j && j + 1 < whole.len() implies !(#[trigger] whole[j] == ':'
            && whole[j + 1] == ':') by {
            if j + 1 < head.len() {
                assert(whole[j] == head[j] && whole[j + 1] == head[j + 1]);
            } else if j + 1 == head.len() {
                assert(whole[j] == head[j]);
            } else if j == head.len() {
                assert(whole[j + 1] == last[0]);
            } else {
                assert(whole[j] == last[j - head.len() - 1]);
            }
        }
    }
}

/// A text without two colons side by side has no gap.
pub proof fn lemma_no_gap(s: Seq<char>)
    requires
        no_pair_of_colons(s),
    ensures
        gap_at(s) == s.len(),
{
    lemma_gap_is_first_pair(s);
    if gap_at(s) < s.len() {
        let g = gap_at(s);
        assert(!(s[g] == ':' && s[g + 1] == ':'));
    }
}

/// A group is read back from its text.
pub proof fn lemma_group_round_trip(n: nat)
    requires
        n < 0x1_0000,
    ensures
        hex_group(hex_text(n)) == Some(n as u16),
{
    lemma_hex_text(n);
}

/// The groups of an address make up the address.
pub proof fn lemma_groups_make_the_address(ip: u128)
    ensures
        forall|k: int| 0 <= k < 8 ==> #[trigger] group_at(ip, k) < 0x1_0000,
        packed(Seq::new(8, |k: int| group_at(ip, k) as u16)) == ip,
{
    let q1 = ip / 0x1_0000;
    let q2 = ip / 0x1_0000_0000;
    let q3 = ip / 0x1_0000_0000_0000;
    let q4 = ip / 0x1_0000_0000_0000_0000;
    let q5 = ip / 0x1_0000_0000_0000_0000_0000;
    let q6 = ip / 0x1_0000_0000_0000_0000_0000_0000;
    let q7 = ip / 0x1_0000_0000_0000_0000_0000_0000_0000;
    assert(ip == q1 * 0x1_0000 + ip % 0x1_0000);
    assert(q2 == q1 / 0x1_0000);
    assert(q3 == q2 / 0x1_0000);
    assert(q4 == q3 / 0x1_0000);
    assert(q5 == q4 / 0x1_0000);
    assert(q6 == q5 / 0x1_0000);
    assert(q7 == q6 / 0x1_0000);
    assert(q1 == q2 * 0x1_0000 + q1 % 0x1_0000);
    assert(q2 == q3 * 0x1_0000 + q2 % 0x1_0000);
    assert(q3 == q4 * 0x1_0000 + q3 % 0x1_0000);
    assert(q4 == q5 * 0x1_0000 + q4 % 0x1_0000);
    assert(q5 == q6 * 0x1_0000 + q5 % 0x1_0000);
    assert(q6 == q7 * 0x1_0000 + q6 % 0x1_0000);
    assert(q7 < 0x1_0000);
    let groups = Seq::new(8, |k: int| group_at(ip, k) as u16);
    assert(groups[0] == q7);
    assert(groups[1] == q6 % 0x1_0000);
    assert(groups[2] == q5 % 0x1_0000);
    assert(groups[3] == q4 % 0x1_0000);
    assert(groups[4] == q3 % 0x1_0000);
    assert(groups[5] == q2 % 0x1_0000);
    assert(groups[6] == q1 % 0x1_0000);
    assert(groups[7] == ip % 0x1_0000);
}

/// What holds of the text of an IPv6 address: it is read back, and it holds
/// neither a percent sign nor a closing bracket.
pub proof fn lemma_ipv6_round_trip(ip: u128)
    ensures
        ipv6_address(ipv6_text(ip)) == Some(ip),
        free_of(ipv6_text(ip), '%'),
        free_of(ipv6_text(ip), ']'),
{
    let pieces = ipv6_pieces(ip);
    let text = ipv6_text(ip);
    lemma_groups_make_the_address(ip);
    assert forall|k: int| 0 <= k < pieces.len() implies free_of(#[trigger] pieces[k], ':')
        && free_of(pieces[k], '%') && free_of(pieces[k], ']') && pieces[k].len() > 0 && hex_group(
        pieces[k],
    ) == Some(group_at(ip, k) as u16) by {
        lemma_hex_text_is_plain(group_at(ip, k));
        lemma_hex_text(group_at(ip, k));
        lemma_group_round_trip(group_at(ip, k));
    }
    lemma_split_of_joined(pieces, ':');
    lemma_joined_is_free_of(pieces, ':', '%');
    lemma_joined_is_free_of(pieces, ':', ']');
    lemma_joined_with_single_colons(pieces);
    lemma_no_gap(text);
    let front = pieces.drop_last();
    assert forall|i: int| 0 <= i < front.len() implies hex_group(#[trigger] front[i]) is Some by {
        assert(front[i] == pieces[i]);
    }
    let groups = Seq::new(8, |k: int| group_at(ip, k) as u16);
    assert(pieces.last() == pieces[7]);
    assert(hex_groups(front)->0.push(hex_group(pieces.last())->0) =~= groups) by {
        assert forall|i: int| 0 <= i < 7 implies hex_groups(front)->0[i] == groups[i] by {
            assert(front[i] == pieces[i]);
        }
    }
    assert(groups_of(text, true) == Some(groups));
    assert(ipv6_groups(text) == Some(groups));
}

/// A scope is read back from its text.
pub proof fn lemma_scope_round_trip(scope_id: u32)
    ensures
        scope_number(decimal_text(scope_id as nat)) == Some(scope_id),
{
    lemma_decimal_text(scope_id as nat);
}

/// An IPv6 socket address without flow information is read back from its
/// text.
pub proof fn lemma_socket_v6_round_trip(ip: u128, port: u16, scope_id: u32)
    ensures
        socket_address_of(
            address_text(SocketAddress::V6 { ip, port, flowinfo: 0, scope_id }),
        ) == Some(SocketAddress::V6 { ip, port, flowinfo: 0, scope_id }),
{
    let addr = SocketAddress::V6 { ip, port, flowinfo: 0, scope_id };
    let text = address_text(addr);
    let v6 = ipv6_text(ip);
    let scope = scope_text(scope_id);
    let tail = decimal_text(port as nat);
    lemma_ipv6_round_trip(ip);
    lemma_port_round_trip(port);
    lemma_scope_round_trip(scope_id);
    lemma_decimal_text_is_plain(port as nat);
    lemma_decimal_text_is_plain(scope_id as nat);
    // Between the brackets.
    let inside = v6 + scope;
    if scope_id == 0 {
        assert(inside =~= v6);
        lemma_split_one_piece(v6, '%');
    } else {
        let digits = decimal_text(scope_id as nat);
        assert(inside =~= v6 + seq!['%'] + digits);
        lemma_split_one_piece(v6, '%');
        lemma_split_one_piece(digits, '%');
        lemma_split_joined(v6, digits, '%');
        assert(split(inside, '%') =~= seq![v6, digits]);
        assert(free_of(seq!['%'], ']'));
        lemma_free_of_joined(v6, seq!['%'], ']');
        lemma_free_of_joined(v6 + seq!['%'], digits, ']');
    }
    assert(scoped_ipv6(inside) == Some((ip, scope_id)));
    assert(free_of(inside, ']'));
    // Around them.
    let front = seq!['['] + inside;
    let back = seq![':'] + tail;
    assert(free_of(seq!['['], ']') && free_of(seq![':'], ']'));
    lemma_free_of_joined(seq!['['], inside, ']');
    lemma_free_of_joined(seq![':'], tail, ']');
    lemma_split_one_piece(front, ']');
    lemma_split_one_piece(back, ']');
    lemma_split_joined(front, back, ']');
    assert(text =~= front + seq![']'] + back);
    assert(split(text, ']') =~= seq![front, back]);
    assert(front.skip(1) =~= inside);
    assert(back.skip(1) =~= tail);
    assert(socket_v6(text) == Some(addr));
    // No dotted quad begins with a bracket.
    assert(text[0] == '[');
    lemma_first_piece(text, ':');
    let first = split(text, ':')[0];
    lemma_first_piece(first, '.');
    let part = split(first, '.')[0];
    assert(!is_decimal_digit(part[0]));
    assert(octet(part) is None);
    assert(socket_v4(text) is None);
}

/// Every socket address without flow information is read back from its
/// text.
pub proof fn lemma_address_round_trip(addr: SocketAddress)
    requires
        addr matches SocketAddress::V6 { flowinfo, .. } ==> flowinfo == 0,
    ensures
        socket_address_of(address_text(addr)) == Some(addr),
{
    match addr {
        SocketAddress::V4 { ip, port } => lemma_socket_v4_round_trip(ip, port),
        SocketAddress::V6 { ip, port, scope_id, .. } => lemma_socket_v6_round_trip(
            ip,
            port,
            scope_id,
        ),
    }
}

} // verus!
