//! Network addresses: their texts and the reverse zones that they belong to.

use vstd::prelude::*;

use crate::error::Error;
use crate::text;
use crate::text::{decimal, hex, only_digits, owned, parse_number, split};

verus! {

// ---------------------------------------------------------------------------
// IPv4
// ---------------------------------------------------------------------------

/// The number that a part of an IPv4 address stands for: one to three digits, no larger
/// than a byte, with no zero in front of another digit.
pub open spec fn octet_spec(part: Seq<char>) -> Option<nat> {
    if part.len() == 0 || part.len() > 3 || !text::all_digits(part, false) || (part.len() > 1
        && part[0] == '0') {
        None
    } else {
        match text::number_spec(part, 255) {
            Ok(number) => Some(number),
            Err(_) => None,
        }
    }
}

/// The four bytes that a text stands for as an IPv4 address.
pub open spec fn ipv4_spec(s: Seq<char>) -> Option<Seq<u8>> {
    let parts = text::split_spec(s, '.');
    if parts.len() == 4 && (forall|i: int| 0 <= i < 4 ==> octet_spec(#[trigger] parts[i]) is Some) {
        Some(Seq::new(4, |i: int| octet_spec(parts[i])->Some_0 as u8))
    } else {
        None
    }
}

fn parse_octet(part: &str) -> (number: Option<u8>)
    ensures
        match number {
            Some(number) => octet_spec(part@) == Some(number as nat),
            None => octet_spec(part@) is None,
        },
{
    let length: usize = part.unicode_len();
    if length == 0 || length > 3 || !only_digits(part, false) || (length > 1 && part.get_char(0)
        == '0') {
        return None;
    }
    match parse_number(part, 255) {
        Ok(number) => Some(number as u8),
        Err(_) => None,
    }
}

/// What is wrong with a text that is no IPv4 address.
pub const IPV4_SYNTAX: &'static str = "invalid IPv4 address syntax";

/// Reads an IPv4 address.
pub fn parse_ipv4(value: &str) -> (result: Result<[u8; 4], Error>)
    ensures
        match result {
            Ok(octets) => ipv4_spec(value@) == Some(octets@),
            Err(error) => ipv4_spec(value@) is None && error@ == IPV4_SYNTAX@,
        },
{
    let parts = split(value, '.');
    let ghost expected = text::split_spec(value@, '.');
    if parts.len() != 4 {
        return Err(Error::new(owned(IPV4_SYNTAX)));
    }
    let mut octets: [u8; 4] = [0, 0, 0, 0];
    let mut index: usize = 0;
    while index < 4
        invariant
            index <= 4,
            parts@.len() == 4,
            text::views(parts@) == expected,
            expected == text::split_spec(value@, '.'),
            forall|i: int| 0 <= i < index ==> octet_spec(#[trigger] expected[i]) == Some(octets@[i] as nat),
        decreases 4 - index,
    {
        proof {
            assert(expected[index as int] == parts@[index as int]@);
        }
        match parse_octet(parts[index].as_str()) {
            Some(number) => {
                octets[index] = number;
            },
            None => {
                return Err(Error::new(owned(IPV4_SYNTAX)));
            },
        }
        index += 1;
    }
    proof {
        assert(ipv4_spec(value@)->Some_0 =~= octets@);
    }
    Ok(octets)
}

/// An IPv4 address as text.
pub open spec fn ipv4_text_spec(octets: Seq<u8>) -> Seq<char> {
    network_text_spec(octets) + "."@ + text::decimal_spec(octets[3] as nat)
}

/// The first three bytes of an IPv4 address as text.
pub open spec fn network_text_spec(octets: Seq<u8>) -> Seq<char> {
    text::decimal_spec(octets[0] as nat) + "."@ + text::decimal_spec(octets[1] as nat) + "."@
        + text::decimal_spec(octets[2] as nat)
}

/// The first three bytes of an IPv4 address as text.
pub fn network_text(octets: &[u8; 4]) -> (result: String)
    ensures
        result@ == network_text_spec(octets@),
{
    decimal(octets[0] as u64).concat(".").concat(decimal(octets[1] as u64).as_str()).concat(
        ".",
    ).concat(decimal(octets[2] as u64).as_str())
}

/// An IPv4 address as text.
pub fn ipv4_text(octets: &[u8; 4]) -> (result: String)
    ensures
        result@ == ipv4_text_spec(octets@),
{
    network_text(octets).concat(".").concat(decimal(octets[3] as u64).as_str())
}

/// The reverse zone of the network of 256 that an IPv4 address lies in.
pub open spec fn ipv4_zone_spec(octets: Seq<u8>) -> Seq<char> {
    text::decimal_spec(octets[2] as nat) + "."@ + text::decimal_spec(octets[1] as nat) + "."@
        + text::decimal_spec(octets[0] as nat) + ".in-addr.arpa"@
}

/// The reverse zone of an IPv4 address.
pub fn ipv4_reverse_zone(octets: &[u8; 4]) -> (zone: String)
    ensures
        zone@ == ipv4_zone_spec(octets@),
{
    decimal(octets[2] as u64).concat(".").concat(decimal(octets[1] as u64).as_str()).concat(
        ".",
    ).concat(decimal(octets[0] as u64).as_str()).concat(".in-addr.arpa")
}

// ---------------------------------------------------------------------------
// IPv6
// ---------------------------------------------------------------------------

/// An IPv6 address with the text in which it is written.
#[derive(Debug)]
pub struct Ipv6Address {
    pub segments: [u16; 8],
    pub text: String,
}

/// An IPv6 address as plain values.
pub struct Ipv6Model {
    pub segments: Seq<u16>,
    pub text: Seq<char>,
}

impl View for Ipv6Address {
    type V = Ipv6Model;

    open spec fn view(&self) -> Ipv6Model {
        Ipv6Model { segments: self.segments@, text: self.text@ }
    }
}

/// What reading an IPv6 address gave, as plain values.
pub open spec fn ipv6_result(result: Result<Ipv6Address, Error>) -> Result<Ipv6Model, Seq<char>> {
    match result {
        Ok(address) => Ok(address@),
        Err(error) => Err(error@),
    }
}

/// The sixteen hexadecimal digits of the network of 64 bits that an IPv6 address lies in.
pub open spec fn network_digits(segments: Seq<u16>) -> Seq<char> {
    text::hex_spec(segments[0] as nat, 4) + text::hex_spec(segments[1] as nat, 4) + text::hex_spec(
        segments[2] as nat,
        4,
    ) + text::hex_spec(segments[3] as nat, 4)
}

/// A text read from its end, with a dot behind each character.
pub open spec fn dotted_reverse(s: Seq<char>) -> Seq<char> {
    Seq::new(2 * s.len(), |i: int| if i % 2 == 0 { s[s.len() - 1 - i / 2] } else { '.' })
}

/// The reverse zone of the network of 64 bits that an IPv6 address lies in.
pub open spec fn ipv6_zone_spec(segments: Seq<u16>) -> Seq<char> {
    dotted_reverse(network_digits(segments)) + "ip6.arpa"@
}

/// The reverse zone of an IPv6 address.
pub fn ipv6_reverse_zone(segments: &[u16; 8]) -> (zone: String)
    ensures
        zone@ == ipv6_zone_spec(segments@),
{
    let digits = hex(segments[0], 4).concat(hex(segments[1], 4).as_str()).concat(
        hex(segments[2], 4).as_str(),
    ).concat(hex(segments[3], 4).as_str());
    let chars = text::characters(digits.as_str());
    let mut zone = owned("");
    let mut left: usize = chars.len();
    proof {
        reveal_strlit("");
        assert(zone@ =~= dotted_reverse(chars@).take(0));
    }
    while left > 0
        invariant
            left <= chars@.len(),
            zone@ == dotted_reverse(chars@).take(2 * (chars@.len() - left)),
        decreases left,
    {
        let ghost done = chars@.len() - left;
        let ghost before = zone@;
        left -= 1;
        zone.push(chars[left]);
        zone.push('.');
        proof {
            let whole = dotted_reverse(chars@);
            assert(whole[2 * done] == chars@[left as int]);
            assert(whole[2 * done + 1] == '.');
            assert(zone@ =~= before.push(chars@[left as int]).push('.'));
            assert(whole.take(2 * (done + 1)) =~= before.push(chars@[left as int]).push('.'));
        }
    }
    proof {
        assert(zone@ =~= dotted_reverse(chars@));
    }
    zone.concat("ip6.arpa")
}

// ---------------------------------------------------------------------------
// Laws
// ---------------------------------------------------------------------------

proof fn lemma_octet(n: nat)
    requires
        n < 256,
    ensures
        octet_spec(text::decimal_spec(n)) == Some(n),
        !text::decimal_spec(n).contains('.'),
{
    text::law_decimal_reads_back(n, 255);
    text::law_decimal_is_short(n);
    assert forall|i: int| 0 <= i < text::decimal_spec(n).len() implies text::decimal_spec(n)[i]
        != '.' by {
        assert(text::is_digit(text::decimal_spec(n)[i]));
    }
}

/// Behind the text of a network, a dot and a number stand for the address in that network that
/// has this number as its last byte.
pub proof fn law_network_holds_its_addresses(octets: Seq<u8>, host: nat)
    requires
        octets.len() == 4,
        host < 256,
    ensures
        ipv4_spec(network_text_spec(octets) + "."@ + text::decimal_spec(host)) == Some(
            octets.update(3, host as u8),
        ),
{
    reveal_strlit(".");
    assert("."@ =~= seq!['.']);
    let a = text::decimal_spec(octets[0] as nat);
    let b = text::decimal_spec(octets[1] as nat);
    let c = text::decimal_spec(octets[2] as nat);
    let d = text::decimal_spec(host);
    lemma_octet(octets[0] as nat);
    lemma_octet(octets[1] as nat);
    lemma_octet(octets[2] as nat);
    lemma_octet(host);
    text::lemma_split_last(seq![], a, '.');
    text::lemma_split_last(a, b, '.');
    text::lemma_split_last(a + seq!['.'] + b, c, '.');
    text::lemma_split_last(a + seq!['.'] + b + seq!['.'] + c, d, '.');
    let parts = text::split_spec(network_text_spec(octets) + "."@ + d, '.');
    assert(parts.len() == 4);
    assert(parts[0] == a && parts[1] == b && parts[2] == c && parts[3] == d);
    assert(ipv4_spec(network_text_spec(octets) + "."@ + d)->Some_0 =~= octets.update(
        3,
        host as u8,
    ));
}

/// An IPv4 address that is written as text is read back as itself.
pub proof fn law_ipv4_text_reads_back(octets: Seq<u8>)
    requires
        octets.len() == 4,
    ensures
        ipv4_spec(ipv4_text_spec(octets)) == Some(octets),
{
    law_network_holds_its_addresses(octets, octets[3] as nat);
    assert(octets.update(3, octets[3]) =~= octets);
}

/// The reverse zone of an IPv4 network names its bytes from the last to the first: read
/// backwards, they are the network.
pub proof fn law_reverse_zone_names_the_network(octets: Seq<u8>)
    requires
        octets.len() == 4,
    ensures
        ({
            let parts = text::split_spec(ipv4_zone_spec(octets), '.');
            &&& parts.len() == 5
            &&& parts[3] == "in-addr"@ && parts[4] == "arpa"@
            &&& ipv4_spec(parts[2] + "."@ + parts[1] + "."@ + parts[0] + "."@ + text::decimal_spec(0))
                == Some(octets.update(3, 0))
        }),
{
    reveal_strlit(".");
    reveal_strlit(".in-addr.arpa");
    reveal_strlit("in-addr");
    reveal_strlit("arpa");
    assert("."@ =~= seq!['.']);
    let a = text::decimal_spec(octets[2] as nat);
    let b = text::decimal_spec(octets[1] as nat);
    let c = text::decimal_spec(octets[0] as nat);
    lemma_octet(octets[0] as nat);
    lemma_octet(octets[1] as nat);
    lemma_octet(octets[2] as nat);
    let front = a + seq!['.'] + b + seq!['.'] + c;
    text::lemma_split_last(seq![], a, '.');
    text::lemma_split_last(a, b, '.');
    text::lemma_split_last(a + seq!['.'] + b, c, '.');
    text::lemma_split_last(front, "in-addr"@, '.');
    text::lemma_split_last(front + seq!['.'] + "in-addr"@, "arpa"@, '.');
    assert(ipv4_zone_spec(octets) =~= front + seq!['.'] + "in-addr"@ + seq!['.'] + "arpa"@);
    let parts = text::split_spec(ipv4_zone_spec(octets), '.');
    assert(parts[0] == a && parts[1] == b && parts[2] == c);
    law_network_holds_its_addresses(octets, 0);
}

/// The reverse zone of an IPv6 network has the sixteen digits of the network in front, from the
/// last to the first and each with a dot behind it.
pub proof fn law_reverse_zone_names_the_prefix(segments: Seq<u16>, i: int)
    requires
        segments.len() == 8,
        0 <= i < 16,
    ensures
        ({
            let zone = ipv6_zone_spec(segments);
            &&& zone.len() == 40
            &&& zone[2 * i] == text::hex_spec(segments[(15 - i) / 4] as nat, 4)[(15 - i) % 4]
            &&& zone[2 * i + 1] == '.'
            &&& zone.skip(32) == "ip6.arpa"@
        }),
{
    reveal_strlit("ip6.arpa");
    let digits = network_digits(segments);
    text::law_hex_has_its_width(segments[0] as nat, 4);
    text::law_hex_has_its_width(segments[1] as nat, 4);
    text::law_hex_has_its_width(segments[2] as nat, 4);
    text::law_hex_has_its_width(segments[3] as nat, 4);
    assert(digits.len() == 16);
    let at = 15 - i;
    assert(digits[at] == text::hex_spec(segments[at / 4] as nat, 4)[at % 4]);
    assert(dotted_reverse(digits)[2 * i] == digits[at]);
    assert(dotted_reverse(digits)[2 * i + 1] == '.');
    assert(ipv6_zone_spec(segments).skip(32) =~= "ip6.arpa"@);
}

/// All addresses of a network have one reverse zone.
pub proof fn law_network_has_one_reverse_zone(
    first: Seq<u8>,
    second: Seq<u8>,
    third: Seq<u16>,
    fourth: Seq<u16>,
)
    requires
        first.len() == 4,
        second.len() == 4,
        first.take(3) == second.take(3),
        third.len() == 8,
        fourth.len() == 8,
        third.take(4) == fourth.take(4),
    ensures
        ipv4_zone_spec(first) == ipv4_zone_spec(second),
        ipv6_zone_spec(third) == ipv6_zone_spec(fourth),
{
    assert forall|i: int| 0 <= i < 3 implies first[i] == second[i] by {
        assert(first[i] == first.take(3)[i]);
        assert(second[i] == second.take(3)[i]);
    }
    assert forall|i: int| 0 <= i < 4 implies third[i] == fourth[i] by {
        assert(third[i] == third.take(4)[i]);
        assert(fourth[i] == fourth.take(4)[i]);
    }
}

} // verus!
