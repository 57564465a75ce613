//! Endpoint data model: network addresses, bounded display identifiers,
//! and the connection records exchanged with the remote host.

use vstd::prelude::*;

verus! {

/// Longest display identifier, in bytes.
pub const MAX_IDENTIFIER_LEN: usize = 32;

/// A bounded-length display identifier carried in connection records.
///
/// The bound keeps every identifier encodable with a one-byte length prefix
/// and keeps connection records at a fixed maximum wire size.
#[derive(Debug, PartialEq, Eq)]
pub struct Identifier {
    bytes: Vec<u8>,
}

impl Clone for Identifier {
    fn clone(&self) -> (r: Self)
        ensures
            r@ == self@,
    {
        proof {
            use_type_invariant(self);
        }
        Identifier { bytes: vstd::slice::slice_to_vec(self.bytes.as_slice()) }
    }
}

impl View for Identifier {
    type V = Seq<u8>;

    closed spec fn view(&self) -> Seq<u8> {
        self.bytes@
    }
}

impl Identifier {
    /// Type invariant: every identifier stays within the declared bound.
    #[verifier::type_invariant]
    pub open spec fn wf(self) -> bool {
        identifier_wf(self@)
    }

    /// Builds an identifier from raw bytes, keeping only the first
    /// `MAX_IDENTIFIER_LEN` bytes of longer inputs.
    pub fn new(bytes: Vec<u8>) -> (r: Identifier)
        ensures
            r@ == if bytes@.len() <= MAX_IDENTIFIER_LEN {
                bytes@
            } else {
                bytes@.subrange(0, MAX_IDENTIFIER_LEN as int)
            },
    {
        let mut bytes = bytes;
        bytes.truncate(MAX_IDENTIFIER_LEN);
        Identifier { bytes }
    }

    /// The empty identifier.
    pub fn empty() -> (r: Identifier)
        ensures
            r@ == Seq::<u8>::empty(),
    {
        Identifier { bytes: Vec::new() }
    }

    pub fn len(&self) -> (r: usize)
        ensures
            r == self@.len(),
    {
        proof {
            use_type_invariant(self);
        }
        self.bytes.len()
    }

    pub fn as_bytes(&self) -> (r: &Vec<u8>)
        ensures
            r@ == self@,
    {
        &self.bytes
    }
}

/// Which end of the link a connection record describes.
#[derive(Debug, Clone, Copy, PartialEq, Eq, Structural)]
pub enum ConnectionEnd {
    Local,
    Remote,
}

/// A four-octet network address together with a port.
#[derive(Debug, Clone, Copy, PartialEq, Eq)]
pub struct IpAddress {
    pub addr: [u8; 4],
    pub port: u16,
}

impl IpAddress {
    pub fn new(addr: [u8; 4], port: u16) -> (r: IpAddress)
        ensures
            r.addr == addr,
            r.port == port,
    {
        IpAddress { addr, port }
    }
}

/// Identifies one endpoint of the link: which end it is, its address,
/// and its display identifier.
#[derive(Debug, Clone, PartialEq, Eq)]
pub struct ConnectionInfo {
    pub end: ConnectionEnd,
    pub address: IpAddress,
    pub identifier: Identifier,
}

/// The subscription record sent to the remote host when connecting:
/// who is subscribing, where replies go, which message kinds are wanted
/// (as a bitmask over message-kind indices), and when the subscriber was
/// last in contact (seconds since the Unix epoch).
#[derive(Debug, Clone, PartialEq, Eq)]
pub struct SubscriberInfo {
    pub identifier: Identifier,
    pub address: IpAddress,
    pub message_kinds: u16,
    pub last_contact: u64,
}

/// Mathematical model of a `ConnectionInfo`.
pub struct ConnectionInfoView {
    pub end: ConnectionEnd,
    pub address: IpAddress,
    pub identifier: Seq<u8>,
}

impl View for ConnectionInfo {
    type V = ConnectionInfoView;

    open spec fn view(&self) -> ConnectionInfoView {
        ConnectionInfoView { end: self.end, address: self.address, identifier: self.identifier@ }
    }
}

/// Mathematical model of a `SubscriberInfo`.
pub struct SubscriberInfoView {
    pub identifier: Seq<u8>,
    pub address: IpAddress,
    pub message_kinds: u16,
    pub last_contact: u64,
}

impl View for SubscriberInfo {
    type V = SubscriberInfoView;

    open spec fn view(&self) -> SubscriberInfoView {
        SubscriberInfoView {
            identifier: self.identifier@,
            address: self.address,
            message_kinds: self.message_kinds,
            last_contact: self.last_contact,
        }
    }
}

/// Whether a raw identifier stays within the declared identifier bound.
/// Every view of an [`Identifier`] satisfies it.
pub open spec fn identifier_wf(s: Seq<u8>) -> bool {
    s.len() <= MAX_IDENTIFIER_LEN
}

impl ConnectionInfoView {
    pub open spec fn wf(self) -> bool {
        identifier_wf(self.identifier)
    }
}

impl SubscriberInfoView {
    pub open spec fn wf(self) -> bool {
        identifier_wf(self.identifier)
    }
}

/// An ASCII decimal digit at `i`, as its value.
pub open spec fn spec_parse_digit(s: Seq<u8>, i: int) -> Option<(u8, int)> {
    if 0 <= i && i + 1 <= s.len() && 0x30 <= s[i] && s[i] <= 0x39 {
        Some(((s[i] - 0x30) as u8, i + 1))
    } else {
        None
    }
}

/// A decimal octet at `i`: one to three digits, read greedily, valued at
/// most 255.
pub open spec fn spec_parse_octet(s: Seq<u8>, i: int) -> Option<(u8, int)> {
    match spec_parse_digit(s, i) {
        None => None,
        Some((d1, j1)) => match spec_parse_digit(s, j1) {
            None => Some((d1, j1)),
            Some((d2, j2)) => match spec_parse_digit(s, j2) {
                None => Some(((d1 * 10 + d2) as u8, j2)),
                Some((d3, j3)) => if d1 * 100 + d2 * 10 + d3 <= 255 {
                    Some(((d1 * 100 + d2 * 10 + d3) as u8, j3))
                } else {
                    None
                },
            },
        },
    }
}

/// A textual four-octet address: four decimal octets separated by dots,
/// spanning the whole text.
pub open spec fn spec_parse_ipv4(s: Seq<u8>) -> Option<[u8; 4]> {
    match spec_parse_octet(s, 0) {
        None => None,
        Some((a0, i1)) => if i1 + 1 <= s.len() && s[i1] == 0x2Eu8 {
            match spec_parse_octet(s, i1 + 1) {
                None => None,
                Some((a1, i2)) => if i2 + 1 <= s.len() && s[i2] == 0x2Eu8 {
                    match spec_parse_octet(s, i2 + 1) {
                        None => None,
                        Some((a2, i3)) => if i3 + 1 <= s.len() && s[i3] == 0x2Eu8 {
                            match spec_parse_octet(s, i3 + 1) {
                                None => None,
                                Some((a3, i4)) => if i4 == s.len() {
                                    Some([a0, a1, a2, a3])
                                } else {
                                    None
                                },
                            }
                        } else {
                            None
                        },
                    }
                } else {
                    None
                },
            }
        } else {
            None
        },
    }
}

fn parse_digit(b: &[u8], i: usize) -> (r: Option<(u8, usize)>)
    requires
        i <= b@.len(),
    ensures
        match r {
            Some((v, j)) => spec_parse_digit(b@, i as int) == Some((v, j as int)) && j <= b@.len(),
            None => spec_parse_digit(b@, i as int) is None,
        },
{
    if i < b.len() && 0x30 <= b[i] && b[i] <= 0x39 {
        Some((b[i] - 0x30, i + 1))
    } else {
        None
    }
}

fn parse_octet(b: &[u8], i: usize) -> (r: Option<(u8, usize)>)
    requires
        i <= b@.len(),
    ensures
        match r {
            Some((v, j)) => spec_parse_octet(b@, i as int) == Some((v, j as int)) && j <= b@.len(),
            None => spec_parse_octet(b@, i as int) is None,
        },
{
    let (d1, j1) = match parse_digit(b, i) {
        None => return None,
        Some(x) => x,
    };
    let (d2, j2) = match parse_digit(b, j1) {
        None => return Some((d1, j1)),
        Some(x) => x,
    };
    let (d3, j3) = match parse_digit(b, j2) {
        None => return Some((d1 * 10 + d2, j2)),
        Some(x) => x,
    };
    let v: u32 = d1 as u32 * 100 + d2 as u32 * 10 + d3 as u32;
    if v <= 255 {
        Some((v as u8, j3))
    } else {
        None
    }
}

/// Reads a textual four-octet address, as the local-address lookup hands
/// it out.
pub fn parse_ipv4(b: &[u8]) -> (r: Option<[u8; 4]>)
    ensures
        r == spec_parse_ipv4(b@),
{
    let (a0, i1) = match parse_octet(b, 0) {
        None => return None,
        Some(x) => x,
    };
    if !(i1 < b.len() && b[i1] == 0x2E) {
        return None;
    }
    let (a1, i2) = match parse_octet(b, i1 + 1) {
        None => return None,
        Some(x) => x,
    };
    if !(i2 < b.len() && b[i2] == 0x2E) {
        return None;
    }
    let (a2, i3) = match parse_octet(b, i2 + 1) {
        None => return None,
        Some(x) => x,
    };
    if !(i3 < b.len() && b[i3] == 0x2E) {
        return None;
    }
    let (a3, i4) = match parse_octet(b, i3 + 1) {
        None => return None,
        Some(x) => x,
    };
    if i4 == b.len() {
        Some([a0, a1, a2, a3])
    } else {
        None
    }
}

} // verus!
