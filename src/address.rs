//! Destination addresses and the request header that carries them.
//!
//! Wire layout: one address-type byte, the address (4 octets for IPv4, a
//! length byte followed by that many name bytes for a domain, 16 octets for
//! IPv6), then a big-endian 16-bit port.
use vstd::prelude::*;

verus! {

/// Address-type byte of an IPv4 destination.
pub const ATYP_IPV4: u8 = 1;

/// Address-type byte of a domain-name destination.
pub const ATYP_DOMAIN: u8 = 3;

/// Address-type byte of an IPv6 destination.
pub const ATYP_IPV6: u8 = 4;

/// Where a client asks to be connected.
#[allow(inconsistent_fields)]
#[derive(Clone, Debug)]
pub enum Address {
    Ipv4 { ip: [u8; 4], port: u16 },
    Ipv6 { ip: [u8; 16], port: u16 },
    Domain { name: Vec<u8>, port: u16 },
}

/// Mathematical form of an `Address`.
pub ghost enum AddressModel {
    Ipv4 { ip: Seq<u8>, port: u16 },
    Ipv6 { ip: Seq<u8>, port: u16 },
    Domain { name: Seq<u8>, port: u16 },
}

impl View for Address {
    type V = AddressModel;

    open spec fn view(&self) -> AddressModel {
        match self {
            Address::Ipv4 { ip, port } => AddressModel::Ipv4 { ip: ip@, port: *port },
            Address::Ipv6 { ip, port } => AddressModel::Ipv6 { ip: ip@, port: *port },
            Address::Domain { name, port } => AddressModel::Domain { name: name@, port: *port },
        }
    }
}

/// The header could not be decoded.
#[derive(Clone, Copy, Debug, PartialEq, Eq, Structural)]
pub struct MalformedHeader;

pub open spec fn port_bytes(port: u16) -> Seq<u8> {
    seq![(port / 256) as u8, (port % 256) as u8]
}

pub open spec fn port_of(hi: u8, lo: u8) -> u16 {
    (hi as int * 256 + lo as int) as u16
}

/// A model address that the wire format can carry.
pub open spec fn encodable(a: AddressModel) -> bool {
    match a {
        AddressModel::Ipv4 { ip, .. } => ip.len() == 4,
        AddressModel::Ipv6 { ip, .. } => ip.len() == 16,
        AddressModel::Domain { name, .. } => name.len() <= 255,
    }
}

/// The header bytes that announce `a`.
pub open spec fn encode(a: AddressModel) -> Seq<u8> {
    match a {
        AddressModel::Ipv4 { ip, port } => seq![ATYP_IPV4] + ip + port_bytes(port),
        AddressModel::Ipv6 { ip, port } => seq![ATYP_IPV6] + ip + port_bytes(port),
        AddressModel::Domain { name, port } => seq![ATYP_DOMAIN, name.len() as u8] + name
            + port_bytes(port),
    }
}

/// The number of header bytes that the prefix of `b` declares, if its type byte is known
/// and (for a domain) its length byte is present.
pub open spec fn declared_len(b: Seq<u8>) -> Option<nat> {
    if b.len() == 0 {
        None
    } else if b[0] == ATYP_IPV4 {
        Some(7)
    } else if b[0] == ATYP_IPV6 {
        Some(19)
    } else if b[0] == ATYP_DOMAIN && b.len() >= 2 {
        Some(4 + b[1] as nat)
    } else {
        None
    }
}

/// What a header parser reads from the start of `b`: the bytes consumed and the address.
pub open spec fn parse_spec(b: Seq<u8>) -> Option<(nat, AddressModel)> {
    match declared_len(b) {
        None => None,
        Some(n) => if b.len() < n {
            None
        } else {
            let port = port_of(b[n - 2], b[n - 1]);
            if b[0] == ATYP_IPV4 {
                Some((n, AddressModel::Ipv4 { ip: b.subrange(1, 5), port }))
            } else if b[0] == ATYP_IPV6 {
                Some((n, AddressModel::Ipv6 { ip: b.subrange(1, 17), port }))
            } else {
                Some((n, AddressModel::Domain { name: b.subrange(2, n - 2), port }))
            }
        },
    }
}

fn read_port(b: &[u8], at: usize) -> (r: u16)
    requires
        at + 1 < b@.len(),
    ensures
        r == port_of(b@[at as int], b@[at + 1]),
{
    (b[at] as u16) * 256 + (b[at + 1] as u16)
}

/// Decode the request header at the start of `b`; returns the number of bytes it takes
/// and the destination. Fails on an unknown address type or a buffer shorter than the
/// length its type declares.
pub fn parse_request_header(b: &[u8]) -> (r: Result<(usize, Address), MalformedHeader>)
    ensures
        match r {
            Ok((n, a)) => parse_spec(b@) == Some((n as nat, a@)),
            Err(_) => parse_spec(b@) is None,
        },
{
    let len = b.len();
    if len == 0 {
        return Err(MalformedHeader);
    }
    let atyp = b[0];
    if atyp == ATYP_IPV4 {
        if len < 7 {
            return Err(MalformedHeader);
        }
        let ip: [u8; 4] = [b[1], b[2], b[3], b[4]];
        let port = read_port(b, 5);
        assert(ip@ =~= b@.subrange(1, 5));
        Ok((7, Address::Ipv4 { ip, port }))
    } else if atyp == ATYP_IPV6 {
        if len < 19 {
            return Err(MalformedHeader);
        }
        let ip: [u8; 16] = [
            b[1], b[2], b[3], b[4], b[5], b[6], b[7], b[8],
            b[9], b[10], b[11], b[12], b[13], b[14], b[15], b[16],
        ];
        let port = read_port(b, 17);
        assert(ip@ =~= b@.subrange(1, 17));
        Ok((19, Address::Ipv6 { ip, port }))
    } else if atyp == ATYP_DOMAIN {
        if len < 2 {
            return Err(MalformedHeader);
        }
        let name_len = b[1] as usize;
        let n = 4 + name_len;
        if len < n {
            return Err(MalformedHeader);
        }
        let mut name: Vec<u8> = Vec::with_capacity(name_len);
        let mut i: usize = 2;
        let end = 2 + name_len;
        while i < end
            invariant
                end == 2 + name_len,
                2 <= i <= end,
                2 + name_len + 2 <= b@.len(),
                name@ =~= b@.subrange(2, i as int),
            decreases end - i,
        {
            name.push(b[i]);
            i += 1;
        }
        let port = read_port(b, n - 2);
        Ok((n, Address::Domain { name, port }))
    } else {
        Err(MalformedHeader)
    }
}

fn push_port(out: &mut Vec<u8>, port: u16)
    ensures
        final(out)@ == old(out)@ + port_bytes(port),
{
    out.push((port / 256) as u8);
    out.push((port % 256) as u8);
    assert(final(out)@ =~= old(out)@ + port_bytes(port));
}

fn push_all(out: &mut Vec<u8>, bytes: &[u8])
    ensures
        final(out)@ == old(out)@ + bytes@,
{
    let mut i: usize = 0;
    while i < bytes.len()
        invariant
            i <= bytes@.len(),
            out@ =~= old(out)@ + bytes@.subrange(0, i as int),
        decreases bytes@.len() - i,
    {
        out.push(bytes[i]);
        i += 1;
    }
    assert(bytes@.subrange(0, bytes@.len() as int) =~= bytes@);
}

/// Encode `a` as a request header.
pub fn write_request_header(a: &Address) -> (r: Vec<u8>)
    requires
        encodable(a@),
    ensures
        r@ == encode(a@),
{
    let mut out: Vec<u8> = Vec::new();
    match a {
        Address::Ipv4 { ip, port } => {
            out.push(ATYP_IPV4);
            push_all(&mut out, ip.as_slice());
            push_port(&mut out, *port);
        },
        Address::Ipv6 { ip, port } => {
            out.push(ATYP_IPV6);
            push_all(&mut out, ip.as_slice());
            push_port(&mut out, *port);
        },
        Address::Domain { name, port } => {
            out.push(ATYP_DOMAIN);
            out.push(name.len() as u8);
            push_all(&mut out, name.as_slice());
            push_port(&mut out, *port);
        },
    }
    assert(out@ =~= encode(a@));
    out
}

proof fn lemma_port_round_trip(port: u16)
    ensures
        port_of(port_bytes(port)[0], port_bytes(port)[1]) == port,
{
}

/// Parsing the encoding of an address, whatever follows it, gives back the encoding's
/// length and the address.
pub proof fn lemma_parse_encode(a: AddressModel, rest: Seq<u8>)
    requires
        encodable(a),
    ensures
        parse_spec(encode(a) + rest) == Some((encode(a).len(), a)),
{
    let e = encode(a);
    let b = e + rest;
    match a {
        AddressModel::Ipv4 { ip, port } => {
            lemma_port_round_trip(port);
            assert(b.subrange(1, 5) =~= ip);
            assert(b[5] == port_bytes(port)[0] && b[6] == port_bytes(port)[1]);
        },
        AddressModel::Ipv6 { ip, port } => {
            lemma_port_round_trip(port);
            assert(b.subrange(1, 17) =~= ip);
            assert(b[17] == port_bytes(port)[0] && b[18] == port_bytes(port)[1]);
        },
        AddressModel::Domain { name, port } => {
            lemma_port_round_trip(port);
            let n = 4 + name.len();
            assert(b[1] == name.len() as u8);
            assert(b.subrange(2, n - 2) =~= name);
            assert(b[n - 2] == port_bytes(port)[0] && b[n - 1] == port_bytes(port)[1]);
        },
    }
}

/// A buffer cut anywhere before the end of an address's encoding is rejected.
pub proof fn lemma_parse_truncated(a: AddressModel, k: nat)
    requires
        encodable(a),
        k < encode(a).len(),
    ensures
        parse_spec(encode(a).take(k as int)) is None,
{
    let t = encode(a).take(k as int);
    if k >= 2 {
        assert(t[0] == encode(a)[0]);
        assert(t[1] == encode(a)[1]);
    } else if k == 1 {
        assert(t[0] == encode(a)[0]);
    }
}

} // verus!
