//! Socket addresses and their textual form.
//!
//! An address is written as a dotted quad, a colon and a port
//! (`10.0.0.7:2113`), or as an IPv6 address in square brackets, a colon and a
//! port (`[2001:db8::1]:2113`); inside the brackets a percent sign and the
//! number of a scope may follow the address. The grammar is stated over
//! sequences of characters by the spec functions of this module and of
//! `ipv6`; `parse_socket_addr` is proved to accept exactly the texts of that
//! grammar and to return the address they denote.

pub mod ipv6;
pub mod round_trip;

use crate::address::ipv6::{ipv6_address, read_ipv6, slice_chars};
use crate::text::{append_decimal, append_hex, hex_text};
use vstd::prelude::*;
use vstd::string::StringExecFns;

verus! {

/// An IP address together with a port.
#[derive(Clone, Copy, Debug, PartialEq, Eq, Hash, Structural)]
#[allow(inconsistent_fields)]
pub enum SocketAddress {
    /// An IPv4 address, its four octets packed with the first one highest.
    V4 { ip: u32, port: u16 },
    /// An IPv6 address, its eight groups packed with the first one highest.
    V6 { ip: u128, port: u16, flowinfo: u32, scope_id: u32 },
}

/// An IP address without a port.
#[derive(Clone, Copy, Debug, PartialEq, Eq, Hash, Structural)]
pub enum IpAddress {
    V4(u32),
    V6(u128),
}

/// The reason a text was refused: it is not the text of a socket address.
#[derive(Clone, Copy, Debug, PartialEq, Eq, Hash, Structural)]
pub struct AddressError {}

impl SocketAddress {
    /// The socket address of an IP address and a port. An IPv6 address gets no
    /// flow information and no scope.
    pub fn new(ip: IpAddress, port: u16) -> (addr: SocketAddress)
        ensures
            addr == socket_address(ip, port),
    {
        match ip {
            IpAddress::V4(ip) => SocketAddress::V4 { ip, port },
            IpAddress::V6(ip) => SocketAddress::V6 { ip, port, flowinfo: 0, scope_id: 0 },
        }
    }

    pub open spec fn spec_port(&self) -> u16 {
        match *self {
            SocketAddress::V4 { port, .. } => port,
            SocketAddress::V6 { port, .. } => port,
        }
    }

    #[verifier::when_used_as_spec(spec_port)]
    pub fn port(&self) -> (port: u16)
        ensures
            port == self.spec_port(),
    {
        match self {
            SocketAddress::V4 { port, .. } => *port,
            SocketAddress::V6 { port, .. } => *port,
        }
    }

    pub open spec fn spec_ip(&self) -> IpAddress {
        match *self {
            SocketAddress::V4 { ip, .. } => IpAddress::V4(ip),
            SocketAddress::V6 { ip, .. } => IpAddress::V6(ip),
        }
    }

    #[verifier::when_used_as_spec(spec_ip)]
    pub fn ip(&self) -> (ip: IpAddress)
        ensures
            ip == self.spec_ip(),
    {
        match self {
            SocketAddress::V4 { ip, .. } => IpAddress::V4(*ip),
            SocketAddress::V6 { ip, .. } => IpAddress::V6(*ip),
        }
    }
}

impl SocketAddress {
    /// The address as text: `10.0.0.7:2113`, `[2001:db8:0:0:0:0:0:1]:2113`.
    pub fn to_string(&self) -> (text: String)
        ensures
            text@ == address_text(*self),
    {
        proof {
            reveal_strlit(":");
            reveal_strlit("[");
            reveal_strlit("%");
            reveal_strlit("]");
        }
        let mut text = String::new();
        match *self {
            SocketAddress::V4 { ip, port } => {
                append_ipv4(&mut text, ip);
                text.append(":");
                append_decimal(&mut text, port as u64);
            },
            SocketAddress::V6 { ip, port, scope_id, .. } => {
                text.append("[");
                append_ipv6(&mut text, ip);
                if scope_id != 0 {
                    text.append("%");
                    append_decimal(&mut text, scope_id as u64);
                }
                text.append("]");
                text.append(":");
                append_decimal(&mut text, port as u64);
            },
        }
        text
    }
}

/// Writes an IPv4 address behind a text, as a dotted quad.
pub fn append_ipv4(text: &mut String, ip: u32)
    ensures
        final(text)@ == old(text)@ + ipv4_text(ip),
{
    proof {
        reveal_strlit(".");
    }
    append_decimal(text, (ip / 0x100_0000) as u64);
    text.append(".");
    append_decimal(text, (ip / 0x1_0000 % 0x100) as u64);
    text.append(".");
    append_decimal(text, (ip / 0x100 % 0x100) as u64);
    text.append(".");
    append_decimal(text, (ip % 0x100) as u64);
}

/// The group at place `k` of an IPv6 address.
fn group_of(ip: u128, k: usize) -> (group: u64)
    requires
        k < 8,
    ensures
        group == group_at(ip, k as int),
        group < 0x1_0000,
{
    if k == 0 {
        (ip / 0x1_0000_0000_0000_0000_0000_0000_0000) as u64
    } else if k == 1 {
        (ip / 0x1_0000_0000_0000_0000_0000_0000 % 0x1_0000) as u64
    } else if k == 2 {
        (ip / 0x1_0000_0000_0000_0000_0000 % 0x1_0000) as u64
    } else if k == 3 {
        (ip / 0x1_0000_0000_0000_0000 % 0x1_0000) as u64
    } else if k == 4 {
        (ip / 0x1_0000_0000_0000 % 0x1_0000) as u64
    } else if k == 5 {
        (ip / 0x1_0000_0000 % 0x1_0000) as u64
    } else if k == 6 {
        (ip / 0x1_0000 % 0x1_0000) as u64
    } else {
        (ip % 0x1_0000) as u64
    }
}

/// Writes an IPv6 address behind a text, as eight groups.
pub fn append_ipv6(text: &mut String, ip: u128)
    ensures
        final(text)@ == old(text)@ + ipv6_text(ip),
{
    proof {
        reveal_strlit(":");
    }
    let ghost pieces = ipv6_pieces(ip);
    let mut k: usize = 0;
    while k < 8
        invariant
            k <= 8,
            pieces == ipv6_pieces(ip),
            ":"@ == seq![':'],
            text@ == old(text)@ + joined(pieces.take(k as int), ':'),
        decreases 8 - k,
    {
        if k > 0 {
            text.append(":");
        }
        append_hex(text, group_of(ip, k));
        proof {
            assert(pieces.take(k + 1).drop_last() =~= pieces.take(k as int));
        }
        k += 1;
    }
    assert(pieces.take(8) =~= pieces);
}

/// The group at place `k` of an IPv6 address, counted from 0 at its
/// beginning.
pub open spec fn group_at(ip: u128, k: int) -> nat {
    if k == 0 {
        (ip / 0x1_0000_0000_0000_0000_0000_0000_0000) as nat
    } else if k == 1 {
        (ip / 0x1_0000_0000_0000_0000_0000_0000 % 0x1_0000) as nat
    } else if k == 2 {
        (ip / 0x1_0000_0000_0000_0000_0000 % 0x1_0000) as nat
    } else if k == 3 {
        (ip / 0x1_0000_0000_0000_0000 % 0x1_0000) as nat
    } else if k == 4 {
        (ip / 0x1_0000_0000_0000 % 0x1_0000) as nat
    } else if k == 5 {
        (ip / 0x1_0000_0000 % 0x1_0000) as nat
    } else if k == 6 {
        (ip / 0x1_0000 % 0x1_0000) as nat
    } else {
        (ip % 0x1_0000) as nat
    }
}

/// An IPv4 address as a dotted quad.
pub open spec fn ipv4_text(ip: u32) -> Seq<char> {
    decimal_text((ip / 0x100_0000) as nat) + seq!['.'] + decimal_text(
        (ip / 0x1_0000 % 0x100) as nat,
    ) + seq!['.'] + decimal_text((ip / 0x100 % 0x100) as nat) + seq!['.'] + decimal_text(
        (ip % 0x100) as nat,
    )
}

/// Texts put together with a separator between each two of them.
pub open spec fn joined(pieces: Seq<Seq<char>>, sep: char) -> Seq<char>
    decreases pieces.len(),
{
    if pieces.len() == 0 {
        Seq::empty()
    } else if pieces.len() == 1 {
        pieces[0]
    } else {
        joined(pieces.drop_last(), sep) + seq![sep] + pieces.last()
    }
}

/// The texts of the eight groups of an IPv6 address.
pub open spec fn ipv6_pieces(ip: u128) -> Seq<Seq<char>> {
    Seq::new(8, |k: int| hex_text(group_at(ip, k)))
}

/// An IPv6 address as eight groups, none left out.
pub open spec fn ipv6_text(ip: u128) -> Seq<char> {
    joined(ipv6_pieces(ip), ':')
}

/// The scope of an IPv6 socket address as it is written behind the address:
/// not at all where it is 0.
pub open spec fn scope_text(scope_id: u32) -> Seq<char> {
    if scope_id != 0 {
        seq!['%'] + decimal_text(scope_id as nat)
    } else {
        Seq::empty()
    }
}

/// A socket address as text.
pub open spec fn address_text(addr: SocketAddress) -> Seq<char> {
    match addr {
        SocketAddress::V4 { ip, port } => ipv4_text(ip) + seq![':'] + decimal_text(port as nat),
        SocketAddress::V6 { ip, port, scope_id, .. } => seq!['['] + ipv6_text(ip) + scope_text(
            scope_id,
        ) + seq![']'] + seq![':'] + decimal_text(port as nat),
    }
}

pub open spec fn socket_address(ip: IpAddress, port: u16) -> SocketAddress {
    match ip {
        IpAddress::V4(ip) => SocketAddress::V4 { ip, port },
        IpAddress::V6(ip) => SocketAddress::V6 { ip, port, flowinfo: 0, scope_id: 0 },
    }
}

// ---------------------------------------------------------------------------
// The grammar
// ---------------------------------------------------------------------------

pub open spec fn is_decimal_digit(c: char) -> bool {
    '0' <= c && c <= '9'
}

/// What a decimal digit stands for.
pub open spec fn digit_value(c: char) -> nat {
    (c as u32 - '0' as u32) as nat
}

pub open spec fn only_decimal_digits(s: Seq<char>) -> bool {
    forall|i: int| 0 <= i < s.len() ==> is_decimal_digit(#[trigger] s[i])
}

/// The number that a run of decimal digits denotes; the empty run denotes 0.
pub open spec fn decimal_value(s: Seq<char>) -> nat
    decreases s.len(),
{
    if s.len() == 0 {
        0
    } else {
        decimal_value(s.drop_last()) * 10 + digit_value(s.last())
    }
}

/// A decimal number of any length that is at most `max`: one digit or more,
/// leading zeros allowed.
pub open spec fn bounded_decimal(s: Seq<char>, max: nat) -> Option<nat> {
    if s.len() > 0 && only_decimal_digits(s) && decimal_value(s) <= max {
        Some(decimal_value(s))
    } else {
        None
    }
}

/// One part of a dotted quad: one to three digits, no leading zero before
/// another digit, at most 255.
pub open spec fn octet(s: Seq<char>) -> Option<nat> {
    if 1 <= s.len() <= 3 && (s.len() > 1 ==> s[0] != '0') {
        bounded_decimal(s, 255)
    } else {
        None
    }
}

/// The pieces of a text between the occurrences of a separator. A text
/// without the separator is one piece; a separator opens a new piece, which
/// is empty until another character joins it.
pub open spec fn split(s: Seq<char>, sep: char) -> Seq<Seq<char>>
    decreases s.len(),
{
    if s.len() == 0 {
        seq![Seq::empty()]
    } else {
        let before = split(s.drop_last(), sep);
        if s.last() == sep {
            before.push(Seq::empty())
        } else {
            before.drop_last().push(before.last().push(s.last()))
        }
    }
}

/// The IPv4 address that a dotted quad denotes.
pub open spec fn dotted_quad(s: Seq<char>) -> Option<u32> {
    let parts = split(s, '.');
    if parts.len() == 4 && octet(parts[0]) is Some && octet(parts[1]) is Some && octet(
        parts[2],
    ) is Some && octet(parts[3]) is Some {
        Some(
            (octet(parts[0])->0 * 0x100_0000 + octet(parts[1])->0 * 0x1_0000 + octet(parts[2])->0
                * 0x100 + octet(parts[3])->0) as u32,
        )
    } else {
        None
    }
}

/// The port of a socket address: a decimal number that is at most 65535.
pub open spec fn port_number(s: Seq<char>) -> Option<u16> {
    match bounded_decimal(s, 0xffff) {
        Some(port) => Some(port as u16),
        None => None,
    }
}

/// The IPv4 socket address that a text denotes: a dotted quad, a colon and
/// a port.
pub open spec fn socket_v4(s: Seq<char>) -> Option<SocketAddress> {
    let parts = split(s, ':');
    if parts.len() == 2 && dotted_quad(parts[0]) is Some && port_number(parts[1]) is Some {
        Some(SocketAddress::V4 { ip: dotted_quad(parts[0])->0, port: port_number(parts[1])->0 })
    } else {
        None
    }
}

/// The number of a scope: a decimal number that fits in 32 bits.
pub open spec fn scope_number(s: Seq<char>) -> Option<u32> {
    match bounded_decimal(s, 0xffff_ffff) {
        Some(scope) => Some(scope as u32),
        None => None,
    }
}

/// The address and the scope that stand between the brackets: an IPv6
/// address, and behind a percent sign the number of its scope, which is 0
/// where none is written.
pub open spec fn scoped_ipv6(s: Seq<char>) -> Option<(u128, u32)> {
    let parts = split(s, '%');
    if parts.len() == 1 {
        match ipv6_address(parts[0]) {
            Some(ip) => Some((ip, 0u32)),
            None => None,
        }
    } else if parts.len() == 2 {
        match (ipv6_address(parts[0]), scope_number(parts[1])) {
            (Some(ip), Some(scope_id)) => Some((ip, scope_id)),
            _ => None,
        }
    } else {
        None
    }
}

/// The IPv6 socket address that a text denotes: an address in square
/// brackets, a colon and a port.
pub open spec fn socket_v6(s: Seq<char>) -> Option<SocketAddress> {
    let parts = split(s, ']');
    if parts.len() == 2 && parts[0].len() >= 1 && parts[0][0] == '[' && parts[1].len() >= 1
        && parts[1][0] == ':' {
        match (scoped_ipv6(parts[0].skip(1)), port_number(parts[1].skip(1))) {
            (Some((ip, scope_id)), Some(port)) => Some(
                SocketAddress::V6 { ip, port, flowinfo: 0, scope_id },
            ),
            _ => None,
        }
    } else {
        None
    }
}

/// The socket address that a text denotes, if it denotes one.
pub open spec fn socket_address_of(s: Seq<char>) -> Option<SocketAddress> {
    match socket_v4(s) {
        Some(addr) => Some(addr),
        None => socket_v6(s),
    }
}

/// The decimal text of a number, without leading zeros.
pub open spec fn decimal_text(n: nat) -> Seq<char>
    decreases n,
{
    if n < 10 {
        seq![digit_char(n)]
    } else {
        decimal_text(n / 10).push(digit_char(n % 10))
    }
}

/// The character that stands for a number below ten.
pub open spec fn digit_char(d: nat) -> char {
    if d == 0 {
        '0'
    } else if d == 1 {
        '1'
    } else if d == 2 {
        '2'
    } else if d == 3 {
        '3'
    } else if d == 4 {
        '4'
    } else if d == 5 {
        '5'
    } else if d == 6 {
        '6'
    } else if d == 7 {
        '7'
    } else if d == 8 {
        '8'
    } else {
        '9'
    }
}

/// The text `ip:port` that is parsed to get the address of a node.
pub open spec fn host_port_text(host: Seq<char>, port: u16) -> Seq<char> {
    host + seq![':'] + decimal_text(port as nat)
}

// ---------------------------------------------------------------------------
// Lemmas
// ---------------------------------------------------------------------------

/// The number that a run of digits denotes is no smaller than the number that
/// any of its beginnings denotes.
proof fn lemma_decimal_value_grows(s: Seq<char>, k: int)
    requires
        0 <= k <= s.len(),
    ensures
        decimal_value(s.take(k)) <= decimal_value(s),
    decreases s.len() - k,
{
    if k == s.len() {
        assert(s.take(k) =~= s);
    } else {
        lemma_decimal_value_grows(s.drop_last(), k);
        assert(s.drop_last().take(k) =~= s.take(k));
    }
}

/// The pieces of a text are never none.
pub proof fn lemma_split_nonempty(s: Seq<char>, sep: char)
    ensures
        split(s, sep).len() >= 1,
    decreases s.len(),
{
}

// ---------------------------------------------------------------------------
// Reading
// ---------------------------------------------------------------------------

/// The characters of a text, in order.
pub fn chars_of(text: &str) -> (chars: Vec<char>)
    ensures
        chars@ == text@,
{
    let mut chars: Vec<char> = Vec::new();
    for c in it: text.chars()
        invariant
            chars@ == it.seq().take(it.index() as int),
            it.seq() == text@,
    {
        chars.push(c);
    }
    chars
}

/// The texts of a list of pieces.
pub open spec fn piece_texts(pieces: Seq<Vec<char>>) -> Seq<Seq<char>> {
    pieces.map_values(|piece: Vec<char>| piece@)
}

/// Cuts a text at each occurrence of a separator.
pub fn split_chars(text: &Vec<char>, sep: char) -> (pieces: Vec<Vec<char>>)
    ensures
        piece_texts(pieces@) == split(text@, sep),
{
    let mut done: Vec<Vec<char>> = Vec::new();
    let mut current: Vec<char> = Vec::new();
    let mut i: usize = 0;
    while i < text.len()
        invariant
            i <= text.len(),
            piece_texts(done@).push(current@) == split(text@.take(i as int), sep),
        decreases text.len() - i,
    {
        let c = text[i];
        let ghost before = split(text@.take(i as int), sep);
        assert(text@.take(i + 1).drop_last() =~= text@.take(i as int));
        if c == sep {
            let ghost old_done = done@;
            done.push(current);
            current = Vec::new();
        } else {
            let ghost old_current = current@;
            current.push(c);
        }
        i += 1;
    }
    assert(text@.take(text.len() as int) =~= text@);
    let ghost old_done = done@;
    done.push(current);
    done
}

fn decimal_digit_of(c: char) -> (d: Option<u32>)
    ensures
        d is Some == is_decimal_digit(c),
        d matches Some(v) ==> v == digit_value(c) && v <= 9,
{
    if c >= '0' && c <= '9' {
        Some(c as u32 - '0' as u32)
    } else {
        None
    }
}

/// Reads a decimal number that may not exceed `max`.
pub fn read_decimal(text: &Vec<char>, max: u32) -> (number: Option<u32>)
    ensures
        match number {
            Some(n) => bounded_decimal(text@, max as nat) == Some(n as nat),
            None => bounded_decimal(text@, max as nat) is None,
        },
{
    if text.len() == 0 {
        return None;
    }
    let mut acc: u32 = 0;
    let mut i: usize = 0;
    while i < text.len()
        invariant
            i <= text.len(),
            acc <= max,
            acc == decimal_value(text@.take(i as int)),
            only_decimal_digits(text@.take(i as int)),
        decreases text.len() - i,
    {
        assert(text@.take(i + 1).drop_last() =~= text@.take(i as int));
        match decimal_digit_of(text[i]) {
            None => {
                return None;
            },
            Some(d) => {
                let next: u64 = acc as u64 * 10 + d as u64;
                if next > max as u64 {
                    proof {
                        lemma_decimal_value_grows(text@, i + 1);
                    }
                    return None;
                }
                acc = next as u32;
            },
        }
        i += 1;
    }
    assert(text@.take(text.len() as int) =~= text@);
    Some(acc)
}

/// Reads one part of a dotted quad.
pub fn read_octet(text: &Vec<char>) -> (number: Option<u8>)
    ensures
        match number {
            Some(n) => octet(text@) == Some(n as nat),
            None => octet(text@) is None,
        },
{
    if text.len() < 1 || text.len() > 3 {
        return None;
    }
    if text.len() > 1 && text[0] == '0' {
        return None;
    }
    match read_decimal(text, 255) {
        Some(n) => Some(n as u8),
        None => None,
    }
}

/// Reads an IPv4 address written as a dotted quad.
pub fn read_dotted_quad(text: &Vec<char>) -> (ip: Option<u32>)
    ensures
        ip == dotted_quad(text@),
{
    let parts = split_chars(text, '.');
    if parts.len() != 4 {
        return None;
    }
    let a = match read_octet(&parts[0]) {
        Some(a) => a,
        None => {
            return None;
        },
    };
    let b = match read_octet(&parts[1]) {
        Some(b) => b,
        None => {
            return None;
        },
    };
    let c = match read_octet(&parts[2]) {
        Some(c) => c,
        None => {
            return None;
        },
    };
    let d = match read_octet(&parts[3]) {
        Some(d) => d,
        None => {
            return None;
        },
    };
    Some(a as u32 * 0x100_0000 + b as u32 * 0x1_0000 + c as u32 * 0x100 + d as u32)
}

/// Reads the port of a socket address.
pub fn read_port(text: &Vec<char>) -> (port: Option<u16>)
    ensures
        port == port_number(text@),
{
    match read_decimal(text, 0xffff) {
        Some(n) => Some(n as u16),
        None => None,
    }
}

/// Reads the address and the scope between the brackets of an IPv6 socket
/// address.
pub fn read_scoped_ipv6(text: &Vec<char>) -> (found: Option<(u128, u32)>)
    ensures
        found == scoped_ipv6(text@),
{
    let parts = split_chars(text, '%');
    if parts.len() == 1 {
        match read_ipv6(&parts[0]) {
            Some(ip) => Some((ip, 0)),
            None => None,
        }
    } else if parts.len() == 2 {
        let ip = match read_ipv6(&parts[0]) {
            Some(ip) => ip,
            None => {
                return None;
            },
        };
        match read_decimal(&parts[1], 0xffff_ffff) {
            Some(scope_id) => Some((ip, scope_id)),
            None => None,
        }
    } else {
        None
    }
}

/// Reads an IPv6 socket address from its characters.
pub fn read_socket_v6(text: &Vec<char>) -> (addr: Option<SocketAddress>)
    ensures
        addr == socket_v6(text@),
{
    let parts = split_chars(text, ']');
    if parts.len() != 2 {
        return None;
    }
    let front = &parts[0];
    let back = &parts[1];
    if front.len() < 1 || front[0] != '[' || back.len() < 1 || back[0] != ':' {
        return None;
    }
    let inside = slice_chars(front, 1, front.len());
    let port_text = slice_chars(back, 1, back.len());
    let (ip, scope_id) = match read_scoped_ipv6(&inside) {
        Some(found) => found,
        None => {
            return None;
        },
    };
    match read_port(&port_text) {
        Some(port) => Some(SocketAddress::V6 { ip, port, flowinfo: 0, scope_id }),
        None => None,
    }
}

/// Reads a socket address from its characters.
pub fn read_socket_addr(text: &Vec<char>) -> (addr: Option<SocketAddress>)
    ensures
        addr == socket_address_of(text@),
{
    match read_socket_v4(text) {
        Some(addr) => Some(addr),
        None => read_socket_v6(text),
    }
}

/// Reads an IPv4 socket address from its characters.
pub fn read_socket_v4(text: &Vec<char>) -> (addr: Option<SocketAddress>)
    ensures
        addr == socket_v4(text@),
{
    let parts = split_chars(text, ':');
    if parts.len() != 2 {
        return None;
    }
    let ip = match read_dotted_quad(&parts[0]) {
        Some(ip) => ip,
        None => {
            return None;
        },
    };
    match read_port(&parts[1]) {
        Some(port) => Some(SocketAddress::V4 { ip, port }),
        None => None,
    }
}

/// Parses the text of a socket address. The text is accepted if and only if
/// it is one of the grammar, and the address is the one that it denotes.
pub fn parse_socket_addr(str_repr: String) -> (parsed: Result<SocketAddress, AddressError>)
    ensures
        match parsed {
            Ok(addr) => socket_address_of(str_repr@) == Some(addr),
            Err(_) => socket_address_of(str_repr@) is None,
        },
{
    let chars = chars_of(str_repr.as_str());
    match read_socket_addr(&chars) {
        Some(addr) => Ok(addr),
        None => Err(AddressError {  }),
    }
}

fn digit_char_of(d: u16) -> (c: char)
    requires
        d < 10,
    ensures
        c == digit_char(d as nat),
{
    if d == 0 {
        '0'
    } else if d == 1 {
        '1'
    } else if d == 2 {
        '2'
    } else if d == 3 {
        '3'
    } else if d == 4 {
        '4'
    } else if d == 5 {
        '5'
    } else if d == 6 {
        '6'
    } else if d == 7 {
        '7'
    } else if d == 8 {
        '8'
    } else {
        '9'
    }
}

/// Writes a number in decimal behind the characters already there.
pub fn push_decimal(text: &mut Vec<char>, n: u16)
    ensures
        final(text)@ == old(text)@ + decimal_text(n as nat),
    decreases n,
{
    if n >= 10 {
        push_decimal(text, n / 10);
    }
    text.push(digit_char_of(n % 10));
}

/// The characters of `host:port`.
pub fn host_port_chars(host: &str, port: u16) -> (text: Vec<char>)
    ensures
        text@ == host_port_text(host@, port),
{
    let mut text = chars_of(host);
    text.push(':');
    push_decimal(&mut text, port);
    text
}

} // verus!
