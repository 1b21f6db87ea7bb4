use vstd::prelude::*;

use crate::bytes::append_bytes;

verus! {

/// Size in bytes of an address hash on the wire.
pub const ADDRESS_HASH_SIZE: usize = 16;

/// Interface access-code flag (bit 7 of the meta byte).
#[derive(Debug, Clone, Copy, PartialEq, Eq, Structural)]
pub enum IfacFlag {
    Open,
    Authenticated,
}

/// Header layout (bit 6): `Type2` carries a transport hash after the hops byte.
#[derive(Debug, Clone, Copy, PartialEq, Eq, Structural)]
pub enum HeaderType {
    Type1,
    Type2,
}

/// Context flag (bit 5 of the meta byte).
#[derive(Debug, Clone, Copy, PartialEq, Eq, Structural)]
pub enum ContextFlag {
    Unset,
    Marked,
}

/// Propagation type (bit 4 of the meta byte).
#[derive(Debug, Clone, Copy, PartialEq, Eq, Structural)]
pub enum PropagationType {
    Broadcast,
    Transport,
}

/// Destination type (bits 3..2 of the meta byte).
#[derive(Debug, Clone, Copy, PartialEq, Eq, Structural)]
pub enum DestinationType {
    Single,
    Group,
    Plain,
    Link,
}

/// Packet type (bits 1..0 of the meta byte).
#[derive(Debug, Clone, Copy, PartialEq, Eq, Structural)]
pub enum PacketType {
    Data,
    Announce,
    LinkRequest,
    Proof,
}

impl IfacFlag {
    pub open spec fn code(self) -> u8 {
        match self {
            IfacFlag::Open => 0,
            IfacFlag::Authenticated => 1,
        }
    }

    pub fn to_code(self) -> (c: u8)
        ensures
            c == self.code(),
    {
        match self {
            IfacFlag::Open => 0,
            IfacFlag::Authenticated => 1,
        }
    }
}

impl HeaderType {
    pub open spec fn code(self) -> u8 {
        match self {
            HeaderType::Type1 => 0,
            HeaderType::Type2 => 1,
        }
    }

    pub fn to_code(self) -> (c: u8)
        ensures
            c == self.code(),
    {
        match self {
            HeaderType::Type1 => 0,
            HeaderType::Type2 => 1,
        }
    }
}

impl ContextFlag {
    pub open spec fn code(self) -> u8 {
        match self {
            ContextFlag::Unset => 0,
            ContextFlag::Marked => 1,
        }
    }

    pub fn to_code(self) -> (c: u8)
        ensures
            c == self.code(),
    {
        match self {
            ContextFlag::Unset => 0,
            ContextFlag::Marked => 1,
        }
    }
}

impl PropagationType {
    pub open spec fn code(self) -> u8 {
        match self {
            PropagationType::Broadcast => 0,
            PropagationType::Transport => 1,
        }
    }

    pub fn to_code(self) -> (c: u8)
        ensures
            c == self.code(),
    {
        match self {
            PropagationType::Broadcast => 0,
            PropagationType::Transport => 1,
        }
    }
}

impl DestinationType {
    pub open spec fn code(self) -> u8 {
        match self {
            DestinationType::Single => 0,
            DestinationType::Group => 1,
            DestinationType::Plain => 2,
            DestinationType::Link => 3,
        }
    }

    pub fn to_code(self) -> (c: u8)
        ensures
            c == self.code(),
    {
        match self {
            DestinationType::Single => 0,
            DestinationType::Group => 1,
            DestinationType::Plain => 2,
            DestinationType::Link => 3,
        }
    }
}

impl PacketType {
    pub open spec fn code(self) -> u8 {
        match self {
            PacketType::Data => 0,
            PacketType::Announce => 1,
            PacketType::LinkRequest => 2,
            PacketType::Proof => 3,
        }
    }

    pub fn to_code(self) -> (c: u8)
        ensures
            c == self.code(),
    {
        match self {
            PacketType::Data => 0,
            PacketType::Announce => 1,
            PacketType::LinkRequest => 2,
            PacketType::Proof => 3,
        }
    }
}

/// The fixed part of a packet: its flags and hop count.
#[derive(Debug, Clone, Copy, PartialEq, Eq, Structural)]
pub struct Header {
    pub ifac_flag: IfacFlag,
    pub header_type: HeaderType,
    pub context_flag: ContextFlag,
    pub propagation_type: PropagationType,
    pub destination_type: DestinationType,
    pub packet_type: PacketType,
    pub hops: u8,
}

/// The meta byte of a header: one field per bit group, in the order
/// ifac (7), header type (6), context flag (5), propagation (4),
/// destination type (3..2), packet type (1..0).
pub open spec fn meta_of(h: Header) -> u8 {
    (h.ifac_flag.code() * 128 + h.header_type.code() * 64 + h.context_flag.code() * 32
        + h.propagation_type.code() * 16 + h.destination_type.code() * 4
        + h.packet_type.code()) as u8
}

proof fn lemma_pack_meta(a: u8, b: u8, c: u8, d: u8, e: u8, f: u8)
    by (bit_vector)
    requires
        a <= 1,
        b <= 1,
        c <= 1,
        d <= 1,
        e <= 3,
        f <= 3,
    ensures
        (a << 7u8) | (b << 6u8) | (c << 5u8) | (d << 4u8) | (e << 2u8) | f == (a * 128 + b * 64 + c
            * 32 + d * 16 + e * 4 + f) as u8,
{
}

/// Packs the header flags into the meta byte.
pub fn header_to_meta(h: &Header) -> (meta: u8)
    ensures
        meta == meta_of(*h),
{
    let a = h.ifac_flag.to_code();
    let b = h.header_type.to_code();
    let c = h.context_flag.to_code();
    let d = h.propagation_type.to_code();
    let e = h.destination_type.to_code();
    let f = h.packet_type.to_code();
    proof {
        lemma_pack_meta(a, b, c, d, e, f);
    }
    (a << 7u8) | (b << 6u8) | (c << 5u8) | (d << 4u8) | (e << 2u8) | f
}

/// A packet as this library handles it: header, addresses, context byte and payload.
pub struct Packet {
    pub header: Header,
    pub destination: [u8; 16],
    pub transport: Option<[u8; 16]>,
    pub context: u8,
    pub data: Vec<u8>,
}

/// The mathematical value of a packet.
pub struct PacketView {
    pub header: Header,
    pub destination: Seq<u8>,
    pub transport: Option<Seq<u8>>,
    pub context: u8,
    pub data: Seq<u8>,
}

impl View for Packet {
    type V = PacketView;

    open spec fn view(&self) -> PacketView {
        PacketView {
            header: self.header,
            destination: self.destination@,
            transport: match self.transport {
                Some(t) => Some(t@),
                None => None,
            },
            context: self.context,
            data: self.data@,
        }
    }
}

/// The transport hash bytes that go on the wire: only for a `Type2` header that has one.
pub open spec fn transport_bytes(p: PacketView) -> Seq<u8> {
    if p.header.header_type == HeaderType::Type2 && p.transport is Some {
        p.transport->0
    } else {
        Seq::empty()
    }
}

/// Wire format: `[meta] [hops] [transport hash, if Type2] [destination] [context] [data...]`.
pub open spec fn wire_bytes(p: PacketView) -> Seq<u8> {
    seq![meta_of(p.header), p.header.hops] + transport_bytes(p) + p.destination + seq![p.context]
        + p.data
}

/// Serializes a packet into its wire bytes.
pub fn serialize_packet(p: &Packet) -> (out: Vec<u8>)
    ensures
        out@ == wire_bytes(p@),
        out@.len() == 2 + (if p.header.header_type == HeaderType::Type2 && p.transport is Some {
            16int
        } else {
            0int
        }) + 16 + 1 + p.data@.len(),
        out@.subrange(out@.len() - p.data@.len(), out@.len() as int) == p.data@,
{
    proof {
        lemma_wire_layout(p@);
    }
    let mut out: Vec<u8> = Vec::with_capacity(256);
    out.push(header_to_meta(&p.header));
    out.push(p.header.hops);
    let ghost start = out@;
    let ghost mut with_transport = out@;
    if p.header.header_type == HeaderType::Type2 {
        if let Some(t) = &p.transport {
            append_bytes(&mut out, t.as_slice());
            proof {
                with_transport = out@;
            }
        }
    }
    assert(with_transport == start + transport_bytes(p@));
    append_bytes(&mut out, p.destination.as_slice());
    out.push(p.context);
    append_bytes(&mut out, p.data.as_slice());
    out
}

/// Distinct flag sets give distinct meta bytes, and each flag can be read back from its bits.
pub proof fn lemma_meta_injective(h1: Header, h2: Header)
    ensures
        meta_of(h1) == meta_of(h2) ==> {
            &&& h1.ifac_flag == h2.ifac_flag
            &&& h1.header_type == h2.header_type
            &&& h1.context_flag == h2.context_flag
            &&& h1.propagation_type == h2.propagation_type
            &&& h1.destination_type == h2.destination_type
            &&& h1.packet_type == h2.packet_type
        },
{
}

/// The wire bytes of a packet: the meta byte (each flag in its own bits) and the hop count,
/// the transport hash only for a `Type2` header that has one, then the destination, the
/// context byte, and at the end the packet's whole data, nothing cut off.
pub proof fn lemma_wire_layout(p: PacketView)
    requires
        p.destination.len() == 16,
        p.transport matches Some(t) ==> t.len() == 16,
    ensures
        ({
            let w = wire_bytes(p);
            let t: int = if p.header.header_type == HeaderType::Type2 && p.transport is Some {
                16
            } else {
                0
            };
            &&& w.len() == 2 + t + 16 + 1 + p.data.len()
            &&& w.subrange(w.len() - p.data.len(), w.len() as int) == p.data
            &&& w[1] == p.header.hops
            &&& w.subrange(2 + t, 2 + t + 16) == p.destination
            &&& w[2 + t + 16] == p.context
            &&& (t == 16 ==> w.subrange(2, 18) == p.transport->0)
            &&& w[0] / 128 == p.header.ifac_flag.code()
            &&& (w[0] / 64) % 2 == p.header.header_type.code()
            &&& (w[0] / 32) % 2 == p.header.context_flag.code()
            &&& (w[0] / 16) % 2 == p.header.propagation_type.code()
            &&& (w[0] / 4) % 4 == p.header.destination_type.code()
            &&& w[0] % 4 == p.header.packet_type.code()
        }),
{
    let w = wire_bytes(p);
    let t: int = if p.header.header_type == HeaderType::Type2 && p.transport is Some {
        16
    } else {
        0
    };
    assert(transport_bytes(p).len() == t);
    assert(w.subrange(w.len() - p.data.len(), w.len() as int) =~= p.data);
    assert(w.subrange(2 + t, 2 + t + 16) =~= p.destination);
    if t == 16 {
        assert(w.subrange(2, 18) =~= p.transport->0);
    }
}

} // verus!
