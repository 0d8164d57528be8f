//! The textual form of IPv6 addresses.
//!
//! An address is written as eight groups of one to four hexadecimal digits
//! with colons between them (`2001:db8:0:0:0:0:0:1`). One run of groups that
//! are zero may be left out and is then marked by two colons (`2001:db8::1`,
//! `::`), and the last two groups may be written as a dotted quad
//! (`::ffff:10.0.0.7`).

use crate::address::{
    dotted_quad, lemma_split_nonempty, piece_texts, read_dotted_quad, split, split_chars,
};
use vstd::prelude::*;

verus! {

pub open spec fn is_hex_digit(c: char) -> bool {
    ('0' <= c && c <= '9') || ('a' <= c && c <= 'f') || ('A' <= c && c <= 'F')
}

/// What a hexadecimal digit stands for.
pub open spec fn hex_digit_value(c: char) -> nat {
    if '0' <= c && c <= '9' {
        (c as u32 - '0' as u32) as nat
    } else if 'a' <= c && c <= 'f' {
        (c as u32 - 'a' as u32 + 10) as nat
    } else {
        (c as u32 - 'A' as u32 + 10) as nat
    }
}

pub open spec fn only_hex_digits(s: Seq<char>) -> bool {
    forall|i: int| 0 <= i < s.len() ==> is_hex_digit(#[trigger] s[i])
}

/// The number that a run of hexadecimal digits denotes.
pub open spec fn hex_value(s: Seq<char>) -> nat
    decreases s.len(),
{
    if s.len() == 0 {
        0
    } else {
        hex_value(s.drop_last()) * 16 + hex_digit_value(s.last())
    }
}

/// One group of an address: one to four hexadecimal digits.
pub open spec fn hex_group(s: Seq<char>) -> Option<u16> {
    if 1 <= s.len() <= 4 && only_hex_digits(s) {
        Some(hex_value(s) as u16)
    } else {
        None
    }
}

/// The place of the first pair of colons in a text, or the length of the
/// text where it holds none.
pub open spec fn gap_at(s: Seq<char>) -> int
    decreases s.len(),
{
    if s.len() < 2 {
        s.len() as int
    } else if s[0] == ':' && s[1] == ':' {
        0
    } else {
        1 + gap_at(s.drop_first())
    }
}

/// The groups that each of these texts denotes, where each denotes one.
pub open spec fn hex_groups(pieces: Seq<Seq<char>>) -> Option<Seq<u16>> {
    if forall|i: int| 0 <= i < pieces.len() ==> hex_group(#[trigger] pieces[i]) is Some {
        Some(Seq::new(pieces.len(), |i: int| hex_group(pieces[i])->0))
    } else {
        None
    }
}

/// The two groups that an IPv4 address fills.
pub open spec fn quad_groups(quad: u32) -> Seq<u16> {
    seq![(quad / 0x1_0000) as u16, (quad % 0x1_0000) as u16]
}

/// The groups that a run of groups denotes: none for the empty text, and
/// otherwise one for each piece between the colons. Where a dotted quad is
/// allowed it may stand in the last place, for two groups.
pub open spec fn groups_of(s: Seq<char>, quad_allowed: bool) -> Option<Seq<u16>> {
    if s.len() == 0 {
        Some(Seq::empty())
    } else {
        let pieces = split(s, ':');
        match hex_groups(pieces.drop_last()) {
            Some(front) => if hex_group(pieces.last()) is Some {
                Some(front.push(hex_group(pieces.last())->0))
            } else if quad_allowed && dotted_quad(pieces.last()) is Some {
                Some(front + quad_groups(dotted_quad(pieces.last())->0))
            } else {
                None
            },
            None => None,
        }
    }
}

/// So many groups that are zero.
pub open spec fn zero_groups(count: int) -> Seq<u16> {
    Seq::new(count as nat, |i: int| 0u16)
}

/// The eight groups of the address that a text denotes.
///
/// Without a pair of colons the text denotes all eight. With one, the groups
/// before it and the groups behind it are at most seven, and groups that are
/// zero stand between them.
pub open spec fn ipv6_groups(s: Seq<char>) -> Option<Seq<u16>> {
    let gap = gap_at(s);
    if gap >= s.len() {
        match groups_of(s, true) {
            Some(groups) => if groups.len() == 8 {
                Some(groups)
            } else {
                None
            },
            None => None,
        }
    } else {
        match (groups_of(s.take(gap), false), groups_of(s.skip(gap + 2), true)) {
            (Some(head), Some(tail)) => if head.len() + tail.len() <= 7 {
                Some(head + zero_groups(8 - head.len() - tail.len()) + tail)
            } else {
                None
            },
            _ => None,
        }
    }
}

/// Eight groups as one number, the first group highest.
pub open spec fn packed(groups: Seq<u16>) -> u128 {
    (groups[0] * 0x1_0000_0000_0000_0000_0000_0000_0000 + groups[1]
        * 0x1_0000_0000_0000_0000_0000_0000 + groups[2] * 0x1_0000_0000_0000_0000_0000
        + groups[3] * 0x1_0000_0000_0000_0000 + groups[4] * 0x1_0000_0000_0000 + groups[5]
        * 0x1_0000_0000 + groups[6] * 0x1_0000 + groups[7]) as u128
}

/// The IPv6 address that a text denotes.
pub open spec fn ipv6_address(s: Seq<char>) -> Option<u128> {
    match ipv6_groups(s) {
        Some(groups) => Some(packed(groups)),
        None => None,
    }
}

// ---------------------------------------------------------------------------
// Lemmas
// ---------------------------------------------------------------------------

/// A run of `n` hexadecimal digits denotes a number below 16 to the `n`.
proof fn lemma_hex_value_bound(s: Seq<char>)
    requires
        only_hex_digits(s),
        s.len() <= 4,
    ensures
        s.len() == 0 ==> hex_value(s) == 0,
        s.len() == 1 ==> hex_value(s) < 0x10,
        s.len() == 2 ==> hex_value(s) < 0x100,
        s.len() == 3 ==> hex_value(s) < 0x1000,
        s.len() == 4 ==> hex_value(s) < 0x1_0000,
    decreases s.len(),
{
    if s.len() > 0 {
        assert(only_hex_digits(s.drop_last()));
        lemma_hex_value_bound(s.drop_last());
    }
}

/// What `gap_at` finds is a pair of colons, and the first one of the text.
pub proof fn lemma_gap_is_first_pair(s: Seq<char>)
    ensures
        0 <= gap_at(s) <= s.len(),
        gap_at(s) < s.len() ==> gap_at(s) + 1 < s.len() && s[gap_at(s)] == ':' && s[gap_at(s)
            + 1] == ':',
        forall|j: int|
            0 <= j < gap_at(s) && j + 1 < s.len() ==> !(#[trigger] s[j] == ':' && s[j + 1] == ':'),
    decreases s.len(),
{
    if s.len() >= 2 && !(s[0] == ':' && s[1] == ':') {
        let rest = s.drop_first();
        lemma_gap_is_first_pair(rest);
        assert forall|j: int| 0 <= j < gap_at(s) && j + 1 < s.len() implies !(#[trigger] s[j]
            == ':' && s[j + 1] == ':') by {
            if j > 0 {
                assert(rest[j - 1] == s[j]);
            }
        }
    }
}

// ---------------------------------------------------------------------------
// Reading
// ---------------------------------------------------------------------------

fn hex_digit_of(c: char) -> (d: Option<u32>)
    ensures
        d is Some == is_hex_digit(c),
        d matches Some(v) ==> v == hex_digit_value(c) && v <= 15,
{
    if c >= '0' && c <= '9' {
        Some(c as u32 - '0' as u32)
    } else if c >= 'a' && c <= 'f' {
        Some(c as u32 - 'a' as u32 + 10)
    } else if c >= 'A' && c <= 'F' {
        Some(c as u32 - 'A' as u32 + 10)
    } else {
        None
    }
}

/// Reads one group of an address.
pub fn read_hex_group(text: &Vec<char>) -> (group: Option<u16>)
    ensures
        group == hex_group(text@),
{
    if text.len() < 1 || text.len() > 4 {
        return None;
    }
    let mut acc: u32 = 0;
    let mut i: usize = 0;
    while i < text.len()
        invariant
            i <= text.len() <= 4,
            acc == hex_value(text@.take(i as int)),
            acc < 0x1_0000,
            only_hex_digits(text@.take(i as int)),
        decreases text.len() - i,
    {
        assert(text@.take(i + 1).drop_last() =~= text@.take(i as int));
        match hex_digit_of(text[i]) {
            None => {
                return None;
            },
            Some(d) => {
                proof {
                    lemma_hex_value_bound(text@.take(i as int));
                }
                acc = acc * 16 + d;
            },
        }
        i += 1;
    }
    assert(text@.take(text.len() as int) =~= text@);
    Some(acc as u16)
}

/// Finds the first pair of colons.
pub fn find_gap(text: &Vec<char>) -> (gap: usize)
    ensures
        gap == gap_at(text@),
{
    let mut i: usize = 0;
    while i < text.len()
        invariant
            i <= text.len(),
            forall|j: int|
                0 <= j < i && j + 1 < text@.len() ==> !(#[trigger] text@[j] == ':' && text@[j + 1]
                    == ':'),
        decreases text.len() - i,
    {
        if i + 1 < text.len() && text[i] == ':' && text[i + 1] == ':' {
            proof {
                lemma_gap_is_first_pair(text@);
            }
            return i;
        }
        i += 1;
    }
    proof {
        lemma_gap_is_first_pair(text@);
    }
    text.len()
}

/// The characters of a text from one place up to another.
pub(crate) fn slice_chars(text: &Vec<char>, from: usize, to: usize) -> (part: Vec<char>)
    requires
        from <= to <= text.len(),
    ensures
        part@ == text@.subrange(from as int, to as int),
{
    let mut part: Vec<char> = Vec::new();
    let mut i: usize = from;
    while i < to
        invariant
            from <= i <= to <= text.len(),
            part@ == text@.subrange(from as int, i as int),
        decreases to - i,
    {
        part.push(text[i]);
        i += 1;
    }
    part
}

/// Reads a run of groups.
pub fn read_groups(text: &Vec<char>, quad_allowed: bool) -> (groups: Option<Vec<u16>>)
    ensures
        match groups {
            Some(list) => groups_of(text@, quad_allowed) == Some(list@),
            None => groups_of(text@, quad_allowed) is None,
        },
{
    let mut list: Vec<u16> = Vec::new();
    if text.len() == 0 {
        return Some(list);
    }
    let pieces = split_chars(text, ':');
    let ghost texts = split(text@, ':');
    let ghost front = texts.drop_last();
    let count = pieces.len() - 1;
    let mut i: usize = 0;
    while i < count
        invariant
            i <= count,
            count + 1 == pieces.len(),
            text@.len() > 0,
            texts == split(text@, ':'),
            texts == piece_texts(pieces@),
            front == texts.drop_last(),
            list@.len() == i,
            forall|j: int| 0 <= j < i ==> hex_group(#[trigger] front[j]) == Some(list@[j]),
        decreases count - i,
    {
        assert(front[i as int] == pieces@[i as int]@);
        match read_hex_group(&pieces[i]) {
            Some(group) => {
                list.push(group);
            },
            None => {
                return None;
            },
        }
        i += 1;
    }
    assert(hex_groups(front) == Some(list@));
    match read_hex_group(&pieces[count]) {
        Some(group) => {
            list.push(group);
            Some(list)
        },
        None => {
            if !quad_allowed {
                return None;
            }
            match read_dotted_quad(&pieces[count]) {
                Some(quad) => {
                    let ghost before = list@;
                    list.push((quad / 0x1_0000) as u16);
                    list.push((quad % 0x1_0000) as u16);
                    Some(list)
                },
                None => None,
            }
        },
    }
}

/// Packs eight groups into one number.
fn pack_groups(groups: &Vec<u16>) -> (bits: u128)
    requires
        groups@.len() == 8,
    ensures
        bits == packed(groups@),
{
    groups[0] as u128 * 0x1_0000_0000_0000_0000_0000_0000_0000 + groups[1] as u128
        * 0x1_0000_0000_0000_0000_0000_0000 + groups[2] as u128 * 0x1_0000_0000_0000_0000_0000
        + groups[3] as u128 * 0x1_0000_0000_0000_0000 + groups[4] as u128 * 0x1_0000_0000_0000
        + groups[5] as u128 * 0x1_0000_0000 + groups[6] as u128 * 0x1_0000 + groups[7] as u128
}

/// Reads an IPv6 address.
pub fn read_ipv6(text: &Vec<char>) -> (ip: Option<u128>)
    ensures
        ip == ipv6_address(text@),
{
    let gap = find_gap(text);
    proof {
        lemma_gap_is_first_pair(text@);
    }
    if gap >= text.len() {
        return match read_groups(text, true) {
            Some(groups) => if groups.len() == 8 {
                Some(pack_groups(&groups))
            } else {
                None
            },
            None => None,
        };
    }
    let head_text = slice_chars(text, 0, gap);
    let tail_text = slice_chars(text, gap + 2, text.len());
    let head = match read_groups(&head_text, false) {
        Some(head) => head,
        None => {
            return None;
        },
    };
    let tail = match read_groups(&tail_text, true) {
        Some(tail) => tail,
        None => {
            return None;
        },
    };
    if head.len() > 7 || tail.len() > 7 - head.len() {
        return None;
    }
    let zeros = 8 - head.len() - tail.len();
    let mut groups = head;
    let mut i: usize = 0;
    while i < zeros
        invariant
            i <= zeros,
            groups@ == head@ + zero_groups(i as int),
        decreases zeros - i,
    {
        groups.push(0);
        i += 1;
    }
    let mut j: usize = 0;
    while j < tail.len()
        invariant
            j <= tail.len(),
            groups@ == head@ + zero_groups(zeros as int) + tail@.take(j as int),
        decreases tail.len() - j,
    {
        groups.push(tail[j]);
        j += 1;
    }
    Some(pack_groups(&groups))
}

} // verus!
