//! IPv4 addresses in dotted decimal notation.

use vstd::prelude::*;
use vstd::string::*;

use crate::decimal::{
    all_digits, decimal, decimal_of, digits_are_read, is_digit, is_digits, lemma_decimal,
    lemma_number_is_digits, lemma_value_decimal, number, parse_number, value,
};
use crate::text::{
    after, before, begins_with, chars_of, lemma_find, lemma_lacks_between, lemma_split_joined,
    lemma_split_single, lemma_split_step, split, split_at_char, split_text, starts_with, views,
};

verus! {

/// The four octets of an IPv4 address.
#[derive(Clone, Copy, Debug, PartialEq, Eq, Structural)]
pub struct Ipv4 {
    pub a: u8,
    pub b: u8,
    pub c: u8,
    pub d: u8,
}

/// The octet that `s` denotes: one to three digits, no leading zero, at most 255.
pub open spec fn octet(s: Seq<char>) -> Option<u8> {
    if 1 <= s.len() <= 3 && all_digits(s) && (s.first() == '0' ==> s.len() == 1) && value(s) <= 255 {
        Some(value(s) as u8)
    } else {
        None
    }
}

/// The address that `s` denotes: four octets with dots between them.
pub open spec fn ipv4(s: Seq<char>) -> Option<Ipv4> {
    let parts = split(s, '.');
    if parts.len() == 4 {
        match (octet(parts[0]), octet(parts[1]), octet(parts[2]), octet(parts[3])) {
            (Some(a), Some(b), Some(c), Some(d)) => Some(Ipv4 { a, b, c, d }),
            _ => None,
        }
    } else {
        None
    }
}

/// Tells that `s` is an IPv4 address with a port: the address, a colon, then digits that
/// denote at most 65535.
pub open spec fn is_ipv4_socket_address(s: Seq<char>) -> bool {
    let port = after(s, ':');
    &&& ipv4(before(s, ':')) is Some
    &&& number(port) is Ok
    &&& port.first() != '+'
}

/// `ip` with `separator` between its octets.
pub open spec fn octets_joined(ip: Ipv4, separator: char) -> Seq<char> {
    decimal(ip.a as nat).push(separator) + (decimal(ip.b as nat).push(separator) + (decimal(
        ip.c as nat,
    ).push(separator) + decimal(ip.d as nat)))
}

/// `ip` in dotted decimal notation.
pub open spec fn dotted(ip: Ipv4) -> Seq<char> {
    octets_joined(ip, '.')
}

/// Digits hold no other character.
pub proof fn lemma_digits_lack(s: Seq<char>, c: char)
    requires
        all_digits(s),
        !is_digit(c),
    ensures
        !s.contains(c),
{
    if s.contains(c) {
        let i = choose|i: int| 0 <= i < s.len() && s[i] == c;
        assert(is_digit(s[i]));
    }
}

proof fn lemma_octet_decimal(n: u8)
    ensures
        octet(decimal(n as nat)) == Some(n),
        !decimal(n as nat).contains('.'),
{
    lemma_decimal(n as nat);
    lemma_digits_lack(decimal(n as nat), '.');
    reveal_with_fuel(decimal, 4);
}

/// An address that is written in dotted notation is read back as it was.
pub proof fn address_is_read_back(ip: Ipv4)
    ensures
        ipv4(dotted(ip)) == Some(ip),
{
    lemma_octet_decimal(ip.a);
    lemma_octet_decimal(ip.b);
    lemma_octet_decimal(ip.c);
    lemma_octet_decimal(ip.d);
    let d = decimal(ip.d as nat);
    let cd = decimal(ip.c as nat).push('.') + d;
    let bcd = decimal(ip.b as nat).push('.') + cd;
    lemma_split_joined(decimal(ip.a as nat), '.', bcd);
    lemma_split_joined(decimal(ip.b as nat), '.', cd);
    lemma_split_joined(decimal(ip.c as nat), '.', d);
    lemma_split_single(d, '.');
}

/// An address has one notation only: a text that denotes it is its dotted notation.
pub proof fn address_has_one_notation(s: Seq<char>, ip: Ipv4)
    requires
        ipv4(s) == Some(ip),
    ensures
        s == dotted(ip),
{
    let parts = split(s, '.');
    let s1 = after(s, '.');
    let s2 = after(s1, '.');
    let s3 = after(s2, '.');
    lemma_split_step(s, '.');
    assert(parts.drop_first().len() == 3);
    lemma_split_step(s1, '.');
    assert(split(s1, '.').drop_first().len() == 2);
    lemma_split_step(s2, '.');
    assert(split(s2, '.').drop_first().len() == 1);
    lemma_split_step(s3, '.');
    assert(parts[1] == parts.drop_first()[0]);
    assert(parts[2] == parts.drop_first().drop_first()[0]);
    assert(parts[3] == parts.drop_first().drop_first().drop_first()[0]);
    lemma_value_decimal(parts[0]);
    lemma_value_decimal(parts[1]);
    lemma_value_decimal(parts[2]);
    lemma_value_decimal(parts[3]);
}

/// The octets are written in decimal, in their order, with the separator between them.
pub proof fn octets_are_joined(ip: Ipv4, separator: char)
    ensures
        octets_joined(ip, separator) == decimal(ip.a as nat) + seq![separator] + decimal(
            ip.b as nat,
        ) + seq![separator] + decimal(ip.c as nat) + seq![separator] + decimal(ip.d as nat),
        dotted(ip) == decimal(ip.a as nat) + seq!['.'] + decimal(ip.b as nat) + seq!['.']
            + decimal(ip.c as nat) + seq!['.'] + decimal(ip.d as nat),
{
    assert(octets_joined(ip, separator) =~= decimal(ip.a as nat) + seq![separator] + decimal(
        ip.b as nat,
    ) + seq![separator] + decimal(ip.c as nat) + seq![separator] + decimal(ip.d as nat));
    assert(dotted(ip) =~= decimal(ip.a as nat) + seq!['.'] + decimal(ip.b as nat) + seq!['.']
        + decimal(ip.c as nat) + seq!['.'] + decimal(ip.d as nat));
}

/// An IPv4 address, a colon and digits that denote at most 65535 are an address with a port.
pub proof fn address_with_port_is_accepted(ip: Ipv4, port: Seq<char>)
    requires
        is_digits(port),
        value(port) <= 65535,
    ensures
        is_ipv4_socket_address(dotted(ip) + seq![':'] + port),
{
    let s = dotted(ip).push(':') + port;
    assert(dotted(ip) + seq![':'] + port =~= s);
    lemma_dotted_lacks_colon(ip);
    lemma_split_joined(dotted(ip), ':', port);
    address_is_read_back(ip);
    digits_are_read(port);
    assert('0' <= port[0] <= '9');
}

/// Nothing else is an address with a port.
pub proof fn address_with_port_is_made_of_both(s: Seq<char>)
    requires
        is_ipv4_socket_address(s),
    ensures
        exists|ip: Ipv4, port: Seq<char>|
            {
                &&& s == #[trigger] (dotted(ip) + seq![':'] + port)
                &&& is_digits(port)
                &&& value(port) <= 65535
            },
{
    let host = before(s, ':');
    let port = after(s, ':');
    let ip = ipv4(host).unwrap();
    address_has_one_notation(host, ip);
    lemma_number_is_digits(port);
    lemma_split_step(s, ':');
    lemma_find(s, ':');
    assert(s =~= host.push(':') + port);
    assert(s =~= dotted(ip) + seq![':'] + port);
}

proof fn lemma_dotted_lacks_colon(ip: Ipv4)
    ensures
        !dotted(ip).contains(':'),
{
    lemma_decimal(ip.a as nat);
    lemma_decimal(ip.b as nat);
    lemma_decimal(ip.c as nat);
    lemma_decimal(ip.d as nat);
    lemma_digits_lack(decimal(ip.a as nat), ':');
    lemma_digits_lack(decimal(ip.b as nat), ':');
    lemma_digits_lack(decimal(ip.c as nat), ':');
    lemma_digits_lack(decimal(ip.d as nat), ':');
    let cd = decimal(ip.c as nat).push('.') + decimal(ip.d as nat);
    lemma_lacks_between(decimal(ip.c as nat), '.', decimal(ip.d as nat), ':');
    lemma_lacks_between(decimal(ip.b as nat), '.', cd, ':');
    lemma_lacks_between(decimal(ip.a as nat), '.', decimal(ip.b as nat).push('.') + cd, ':');
}

fn parse_octet(s: &str) -> (res: Option<u8>)
    ensures
        res == octet(s@),
{
    let chars: Vec<char> = chars_of(s);
    let len: usize = chars.len();
    if len == 0 || len > 3 || (chars[0] == '0' && len > 1) {
        return None;
    }
    let mut acc: u32 = 0;
    for i in 0..len
        invariant
            chars@ == s@,
            len == chars.len(),
            len <= 3,
            acc == value(s@.take(i as int)),
            i == 0 ==> acc == 0,
            i == 1 ==> acc <= 9,
            i == 2 ==> acc <= 99,
            i == 3 ==> acc <= 999,
            forall|j: int| 0 <= j < i ==> is_digit(#[trigger] s@[j]),
    {
        let c: char = chars[i];
        if !('0' <= c && c <= '9') {
            assert(!is_digit(s@[i as int]));
            return None;
        }
        assert(s@.take(i + 1).drop_last() =~= s@.take(i as int));
        acc = acc * 10 + (c as u32 - 48);
    }
    assert(s@.take(len as int) =~= s@);
    if acc <= 255 {
        Some(acc as u8)
    } else {
        None
    }
}

/// Reads an address in dotted decimal notation.
pub fn parse_ipv4(s: &str) -> (res: Option<Ipv4>)
    ensures
        res == ipv4(s@),
{
    let parts: Vec<&str> = split_text(s, '.');
    let ghost found = views(parts@);
    if parts.len() != 4 {
        return None;
    }
    assert(found[0] == parts[0]@ && found[1] == parts[1]@);
    assert(found[2] == parts[2]@ && found[3] == parts[3]@);
    match (parse_octet(parts[0]), parse_octet(parts[1]), parse_octet(parts[2]), parse_octet(parts[3])) {
        (Some(a), Some(b), Some(c), Some(d)) => Some(Ipv4 { a, b, c, d }),
        _ => None,
    }
}

/// Tells whether `s` is an IPv4 address with a port.
pub fn ipv4_socket_address(s: &str) -> (b: bool)
    ensures
        b == is_ipv4_socket_address(s@),
{
    let (host, port) = split_at_char(s, ':');
    match port {
        Some(port) => {
            proof {
                reveal_strlit("+");
                assert(starts_with(port@, "+"@) ==> port@.first() == port@.take(1)[0]);
                assert(port@.len() > 0 && port@.first() == '+' ==> port@.take(1) =~= "+"@);
            }
            parse_ipv4(host).is_some() && parse_number(port).is_ok() && !begins_with(port, "+")
        },
        None => false,
    }
}

/// The octets of `ip` in decimal, with `separator` between them.
pub fn join_octets(ip: Ipv4, separator: &str) -> (s: String)
    requires
        separator@.len() == 1,
    ensures
        s@ == octets_joined(ip, separator@[0]),
{
    let mut s: String = decimal_of(ip.a as usize);
    s.append(separator);
    s.append(decimal_of(ip.b as usize).as_str());
    s.append(separator);
    s.append(decimal_of(ip.c as usize).as_str());
    s.append(separator);
    s.append(decimal_of(ip.d as usize).as_str());
    assert(s@ =~= octets_joined(ip, separator@[0]));
    s
}

} // verus!
