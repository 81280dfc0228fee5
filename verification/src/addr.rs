//! IPv4 addresses and endpoints.

use crate::text::{
    ascii, bounded_value, contents, decimal, fields, is_digits, lemma_decimal, lemma_split_last,
    lemma_split_whole, push_decimal, read_decimal, split,
};
use vstd::prelude::*;

verus! {

/// An IPv4 address as the number its four bytes make, most significant first.
#[derive(Clone, Copy, Debug, PartialEq, Eq, Structural)]
pub struct Ipv4Addr(pub u32);

impl Ipv4Addr {
    /// The byte at `place`, counted from the left.
    pub open spec fn octet(self, place: int) -> u8 {
        if place == 0 {
            (self.0 / 0x100_0000) as u8
        } else if place == 1 {
            (self.0 / 0x1_0000 % 0x100) as u8
        } else if place == 2 {
            (self.0 / 0x100 % 0x100) as u8
        } else {
            (self.0 % 0x100) as u8
        }
    }

    pub fn new(a: u8, b: u8, c: u8, d: u8) -> (address: Ipv4Addr)
        ensures
            address.octet(0) == a,
            address.octet(1) == b,
            address.octet(2) == c,
            address.octet(3) == d,
            address.0 == a * 0x100_0000 + b * 0x1_0000 + c * 0x100 + d,
    {
        let value: u32 = a as u32 * 0x100_0000 + b as u32 * 0x1_0000 + c as u32 * 0x100 + d as u32;
        assert(value / 0x100_0000 == a);
        assert(value / 0x1_0000 == a * 0x100 + b);
        assert(value / 0x100 == a * 0x1_0000 + b * 0x100 + c);
        Ipv4Addr(value)
    }

    pub fn octets(&self) -> (octets: [u8; 4])
        ensures
            octets@ == seq![self.octet(0), self.octet(1), self.octet(2), self.octet(3)],
    {
        let octets = [
            (self.0 / 0x100_0000) as u8,
            (self.0 / 0x1_0000 % 0x100) as u8,
            (self.0 / 0x100 % 0x100) as u8,
            (self.0 % 0x100) as u8,
        ];
        assert(octets@ =~= seq![self.octet(0), self.octet(1), self.octet(2), self.octet(3)]);
        octets
    }

    pub fn is_unspecified(&self) -> (unspecified: bool)
        ensures
            unspecified == (self.0 == 0),
    {
        self.0 == 0
    }

    /// In one of the blocks 10.0.0.0/8, 172.16.0.0/12 and 192.168.0.0/16.
    pub open spec fn in_private_block(self) -> bool {
        ||| self.octet(0) == 10
        ||| self.octet(0) == 172 && 16 <= self.octet(1) <= 31
        ||| self.octet(0) == 192 && self.octet(1) == 168
    }

    /// In the block 169.254.0.0/16.
    pub open spec fn in_link_local_block(self) -> bool {
        self.octet(0) == 169 && self.octet(1) == 254
    }

    pub fn is_private(&self) -> (private: bool)
        ensures
            private == self.in_private_block(),
    {
        let octets = self.octets();
        octets[0] == 10 || (octets[0] == 172 && 16 <= octets[1] && octets[1] <= 31) || (octets[0]
            == 192 && octets[1] == 168)
    }

    pub fn is_link_local(&self) -> (link_local: bool)
        ensures
            link_local == self.in_link_local_block(),
    {
        let octets = self.octets();
        octets[0] == 169 && octets[1] == 254
    }

    /// The dotted text of the address.
    pub open spec fn text(self) -> Seq<u8> {
        decimal(self.octet(0) as nat).push(0x2e) + decimal(self.octet(1) as nat).push(0x2e)
            + decimal(self.octet(2) as nat).push(0x2e) + decimal(self.octet(3) as nat)
    }

    /// Appends the dotted text.
    pub fn push_text(&self, text: &mut String)
        ensures
            final(text)@ == old(text)@ + ascii(self.text()),
    {
        proof {
            reveal_strlit(".");
        }
        let octets = self.octets();
        push_decimal(text, octets[0] as u64);
        text.append(".");
        push_decimal(text, octets[1] as u64);
        text.append(".");
        push_decimal(text, octets[2] as u64);
        text.append(".");
        push_decimal(text, octets[3] as u64);
        assert(text@ =~= old(text)@ + ascii(self.text()));
    }

    /// Reads the dotted text of an address.
    pub fn parse(text: &[u8]) -> (address: Option<Ipv4Addr>)
        ensures
            address == parsed_address(text@),
    {
        let parts = fields(text, 0x2e);
        let ghost all = split(text@, 0x2e);
        assert(contents(parts@) == all);
        assert(parts@.len() == all.len());
        if parts.len() != 4 {
            return None;
        }
        assert(forall|i: int| 0 <= i < 4 ==> #[trigger] parts@[i]@ == all[i]) by {
            assert forall|i: int| 0 <= i < 4 implies #[trigger] parts@[i]@ == all[i] by {
                assert(contents(parts@)[i] == parts@[i]@);
            }
        }
        match (
            read_octet(parts[0].as_slice()),
            read_octet(parts[1].as_slice()),
            read_octet(parts[2].as_slice()),
            read_octet(parts[3].as_slice()),
        ) {
            (Some(a), Some(b), Some(c), Some(d)) => Some(Ipv4Addr::new(a, b, c, d)),
            _ => None,
        }
    }
}

/// One number of a dotted address: at most three digits, and no zero before another digit.
pub open spec fn octet_value(text: Seq<u8>) -> Option<nat> {
    if text.len() <= 3 && !(text.len() > 1 && text[0] == 0x30) {
        bounded_value(text, 255)
    } else {
        None
    }
}

fn read_octet(text: &[u8]) -> (value: Option<u8>)
    ensures
        match value {
            Some(number) => octet_value(text@) == Some(number as nat),
            None => octet_value(text@) is None,
        },
{
    if text.len() > 3 || (text.len() > 1 && text[0] == 0x30) {
        return None;
    }
    match read_decimal(text, 255) {
        Some(number) => Some(number as u8),
        None => None,
    }
}

/// The address that a dotted text stands for.
pub open spec fn parsed_address(text: Seq<u8>) -> Option<Ipv4Addr> {
    let parts = split(text, 0x2e);
    if parts.len() == 4 && octet_value(parts[0]) is Some && octet_value(parts[1]) is Some
        && octet_value(parts[2]) is Some && octet_value(parts[3]) is Some {
        Some(
            Ipv4Addr(
                (octet_value(parts[0])->0 * 0x100_0000 + octet_value(parts[1])->0 * 0x1_0000
                    + octet_value(parts[2])->0 * 0x100 + octet_value(parts[3])->0) as u32,
            ),
        )
    } else {
        None
    }
}

proof fn lemma_octet_text(value: u8)
    ensures
        octet_value(decimal(value as nat)) == Some(value as nat),
        !decimal(value as nat).contains(0x2e),
        !decimal(value as nat).contains(0x3a),
        decimal(value as nat).len() > 0,
{
    lemma_decimal(value as nat);
    assert forall|i: int| 0 <= i < decimal(value as nat).len() implies decimal(value as nat)[i]
        != 0x2e && decimal(value as nat)[i] != 0x3a by {
        assert(0x30 <= decimal(value as nat)[i] <= 0x39);
    }
}

/// The dotted text of an address has its four numbers as parts.
proof fn lemma_address_parts(address: Ipv4Addr)
    ensures
        split(address.text(), 0x2e) == seq![
            decimal(address.octet(0) as nat),
            decimal(address.octet(1) as nat),
            decimal(address.octet(2) as nat),
            decimal(address.octet(3) as nat),
        ],
{
    let a = decimal(address.octet(0) as nat);
    let b = decimal(address.octet(1) as nat);
    let c = decimal(address.octet(2) as nat);
    let d = decimal(address.octet(3) as nat);
    lemma_octet_text(address.octet(0));
    lemma_octet_text(address.octet(1));
    lemma_octet_text(address.octet(2));
    lemma_octet_text(address.octet(3));
    lemma_split_whole(a, 0x2e);
    let ab = a.push(0x2e) + b;
    let abc = ab.push(0x2e) + c;
    lemma_split_last(a, b, 0x2e);
    lemma_split_last(ab, c, 0x2e);
    lemma_split_last(abc, d, 0x2e);
    assert(address.text() =~= abc.push(0x2e) + d);
    assert(split(address.text(), 0x2e) =~= seq![a, b, c, d]);
}

/// The dotted text of an address is short, and holds digits and dots alone.
proof fn lemma_address_digits(address: Ipv4Addr)
    ensures
        address.text().len() <= 15,
        forall|i: int| 0 <= i < address.text().len() ==> (0x30 <= #[trigger] address.text()[i]
            <= 0x39 || address.text()[i] == 0x2e),
{
    let a = decimal(address.octet(0) as nat);
    let b = decimal(address.octet(1) as nat);
    let c = decimal(address.octet(2) as nat);
    let d = decimal(address.octet(3) as nat);
    let ab = a.push(0x2e) + b;
    let abc = ab.push(0x2e) + c;
    lemma_decimal(address.octet(0) as nat);
    lemma_decimal(address.octet(1) as nat);
    lemma_decimal(address.octet(2) as nat);
    lemma_decimal(address.octet(3) as nat);
    assert(address.text() =~= abc.push(0x2e) + d);
    assert forall|i: int| 0 <= i < address.text().len() implies (0x30 <= #[trigger] address.text()[i]
        <= 0x39 || address.text()[i] == 0x2e) by {
        let text = address.text();
        if i < a.len() {
            assert(text[i] == a[i]);
        } else if a.len() < i < ab.len() {
            assert(text[i] == b[i - a.len() - 1]);
        } else if ab.len() < i < abc.len() {
            assert(text[i] == c[i - ab.len() - 1]);
        } else if abc.len() < i {
            assert(text[i] == d[i - abc.len() - 1]);
        }
    }
}

/// The dotted text of an address stands for that address, and holds digits and dots alone.
pub proof fn lemma_address_text(address: Ipv4Addr)
    ensures
        parsed_address(address.text()) == Some(address),
        address.text().len() <= 15,
        forall|i: int| 0 <= i < address.text().len() ==> (0x30 <= #[trigger] address.text()[i]
            <= 0x39 || address.text()[i] == 0x2e),
{
    lemma_address_parts(address);
    lemma_address_digits(address);
    lemma_octet_text(address.octet(0));
    lemma_octet_text(address.octet(1));
    lemma_octet_text(address.octet(2));
    lemma_octet_text(address.octet(3));
}

/// An IPv4 address with a port.
#[derive(Clone, Copy, Debug, PartialEq, Eq, Structural)]
pub struct SocketAddrV4 {
    pub ip: Ipv4Addr,
    pub port: u16,
}

impl SocketAddrV4 {
    pub fn new(ip: Ipv4Addr, port: u16) -> (endpoint: SocketAddrV4)
        ensures
            endpoint == (SocketAddrV4 { ip, port }),
    {
        SocketAddrV4 { ip, port }
    }
}

/// The port that a text stands for; a plus sign may stand before the digits.
pub open spec fn port_value(text: Seq<u8>) -> Option<nat> {
    if text.len() > 0 && text[0] == 0x2b {
        bounded_value(text.drop_first(), 0xffff)
    } else {
        bounded_value(text, 0xffff)
    }
}

/// The port that a text stands for; a plus sign may stand before the digits.
pub fn read_port(text: &[u8]) -> (value: Option<u16>)
    ensures
        match value {
            Some(number) => port_value(text@) == Some(number as nat),
            None => port_value(text@) is None,
        },
{
    if text.len() > 0 && text[0] == 0x2b {
        assert(text@.subrange(1, text@.len() as int) =~= text@.drop_first());
        read_decimal(vstd::slice::slice_subrange(text, 1, text.len()), 0xffff)
    } else {
        read_decimal(text, 0xffff)
    }
}

/// The digits of a port stand for that port.
pub proof fn lemma_port_text(port: u16)
    ensures
        port_value(decimal(port as nat)) == Some(port as nat),
        is_digits(decimal(port as nat)),
        0 < decimal(port as nat).len() <= 5,
{
    lemma_decimal(port as nat);
    assert(0x30 <= decimal(port as nat)[0] <= 0x39);
}

} // verus!
