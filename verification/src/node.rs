use vstd::prelude::*;

use crate::bytes::append_bytes;
use crate::drivers::CopyOut;
use crate::hexfmt::{
    address_display,
    display_chars,
    hex_chars,
    is_hex_digit,
    hex_digit_value,
    lemma_hex_chars_decode,
    lemma_hash_text_of_display,
    trim_hash_display,
};
use crate::mode::InterfaceMode;
use crate::packet::{
    serialize_packet,
    wire_bytes,
    ContextFlag,
    DestinationType,
    Header,
    HeaderType,
    IfacFlag,
    Packet,
    PacketType,
    PacketView,
    PropagationType,
};
use crate::peers::{PeerInfo, PeerTable, lemma_listing_unique, listing_of, precedes};
use crate::queue::ByteQueue;
use crate::text::str_equal;

verus! {

/// Payload type tag: chat or arbitrary message.
pub const TAG_MESSAGE: u8 = 0x00;

/// Payload type tag: Solana durable-nonce transaction.
pub const TAG_SOLANA_TX: u8 = 0x01;

/// Receive-queue frame tag: addressed to our SINGLE destination.
pub const DEST_NODE: u8 = 0x00;

/// Receive-queue frame tag: addressed to the GROUP relay destination.
pub const DEST_TX_GROUP: u8 = 0x01;

/// Capacity of a packet's data buffer; writes beyond it are cut off.
pub const PACKET_MDU: usize = 2048;

/// A registered interface: its name, mode and the two byte queues shared with its driver.
pub struct IfaceHandle {
    pub name: String,
    /// Interface argument, such as `1.2.3.4:4242`.
    pub arg: Option<String>,
    pub mode: InterfaceMode,
    /// Native radio to mesh.
    pub incoming: ByteQueue,
    /// Mesh to native radio.
    pub outgoing: ByteQueue,
}

/// A packet to persist, with the message row that goes with it when there is one.
pub struct StoredPacket {
    /// The destination hash as it displays (`/` + hex + `/`).
    pub dest_hash: String,
    pub tag: u8,
    pub data: Vec<u8>,
    /// The message content (the payload after its tag byte), for a message payload.
    pub message: Option<Vec<u8>>,
}

/// What became of an inbound packet.
pub enum InboundOutcome {
    /// Not a data packet for us: nothing was queued.
    Dropped,
    /// Framed and queued for the application; `store` is what to persist, when a
    /// database is configured.
    Delivered { dest_tag: u8, store: Option<StoredPacket> },
}

/// The state of a mesh node that its operations decide on.
pub struct MeshNode {
    /// Our SINGLE destination hash.
    pub local_hash: [u8; 16],
    /// The GROUP relay hash, the same on every node.
    pub tx_group_hash: [u8; 16],
    pub ifaces: Vec<IfaceHandle>,
    /// Frames for the application: `[dest_tag] [payload...]`.
    pub rx: ByteQueue,
    /// Whether the network loop is running.
    pub running: bool,
    /// Discovered peers, by hex hash.
    pub peers: PeerTable,
    /// Path of the message database, if messages are persisted.
    pub db_path: Option<String>,
}

/// `i` is the first interface with this name.
pub open spec fn first_named(ifaces: Seq<IfaceHandle>, name: Seq<char>, i: int) -> bool {
    &&& 0 <= i < ifaces.len()
    &&& ifaces[i].name@ == name
    &&& forall|j: int| 0 <= j < i ==> (#[trigger] ifaces[j]).name@ != name
}

/// No interface has this name.
pub open spec fn none_named(ifaces: Seq<IfaceHandle>, name: Seq<char>) -> bool {
    forall|j: int| 0 <= j < ifaces.len() ==> (#[trigger] ifaces[j]).name@ != name
}

/// A packet's data buffer after writing the tag byte and then the body: the body is cut
/// off where the buffer is full.
pub open spec fn payload(tag: u8, body: Seq<u8>) -> Seq<u8> {
    seq![tag] + body.take(
        if body.len() < PACKET_MDU - 1 {
            body.len() as int
        } else {
            PACKET_MDU - 1
        },
    )
}

/// Header of an outgoing data packet of the given destination type.
pub open spec fn data_header(destination_type: DestinationType) -> Header {
    Header {
        ifac_flag: IfacFlag::Open,
        header_type: HeaderType::Type1,
        context_flag: ContextFlag::Unset,
        propagation_type: PropagationType::Broadcast,
        destination_type,
        packet_type: PacketType::Data,
        hops: 0,
    }
}

/// The packet that relays a transaction through the GROUP destination.
pub open spec fn tx_packet(group: Seq<u8>, tx: Seq<u8>) -> PacketView {
    PacketView {
        header: data_header(DestinationType::Group),
        destination: group,
        transport: None,
        context: 0,
        data: payload(TAG_SOLANA_TX, tx),
    }
}

/// The packet that carries a direct message to a SINGLE destination.
pub open spec fn message_packet(dest: Seq<u8>, msg: Seq<u8>) -> PacketView {
    PacketView {
        header: data_header(DestinationType::Single),
        destination: dest,
        transport: None,
        context: 0,
        data: payload(TAG_MESSAGE, msg),
    }
}

/// The frame tag of an inbound packet: GROUP data first, then data for our SINGLE
/// destination; anything else is not for the application.
pub open spec fn inbound_tag(local: Seq<u8>, group: Seq<u8>, p: PacketView) -> Option<u8> {
    if p.header.packet_type != PacketType::Data {
        None
    } else if p.destination == group {
        Some(DEST_TX_GROUP)
    } else if p.destination == local {
        Some(DEST_NODE)
    } else {
        None
    }
}

/// The message content persisted for a payload: what follows a message tag.
pub open spec fn message_content(data: Seq<u8>) -> Option<Seq<u8>> {
    if data.len() > 0 && data[0] == TAG_MESSAGE {
        Some(data.drop_first())
    } else {
        None
    }
}

/// Whether a driver in this mode puts a packet of this type on the air: an access point
/// keeps announces off the radio.
pub open spec fn should_transmit(mode: InterfaceMode, packet_type: PacketType) -> bool {
    !(mode == InterfaceMode::AccessPoint && packet_type == PacketType::Announce)
}

/// Whether a driver in this mode puts a packet of this type on the air.
pub fn transmits(mode: InterfaceMode, packet_type: PacketType) -> (b: bool)
    ensures
        b == should_transmit(mode, packet_type),
        b == !(mode == InterfaceMode::AccessPoint && packet_type == PacketType::Announce),
{
    !(mode == InterfaceMode::AccessPoint && packet_type == PacketType::Announce)
}

/// Whether two address hashes are equal.
pub fn hash_eq(a: &[u8; 16], b: &[u8; 16]) -> (r: bool)
    ensures
        r == (a@ == b@),
{
    let mut i: usize = 0;
    while i < 16
        invariant
            i <= 16,
            a@.len() == 16,
            b@.len() == 16,
            forall|j: int| 0 <= j < i ==> a@[j] == b@[j],
        decreases 16 - i,
    {
        if a[i] != b[i] {
            return false;
        }
        i = i + 1;
    }
    assert(a@ =~= b@);
    true
}

/// Copies a byte vector.
fn copy_bytes(v: &Vec<u8>) -> (r: Vec<u8>)
    ensures
        r@ == v@,
{
    let mut r: Vec<u8> = Vec::new();
    append_bytes(&mut r, v.as_slice());
    r
}

/// Writes the tag byte and then as much of the body as fits into a fresh data buffer.
pub fn data_payload(tag: u8, body: &[u8]) -> (r: Vec<u8>)
    ensures
        r@ == payload(tag, body@),
{
    let take: usize = if body.len() < PACKET_MDU - 1 {
        body.len()
    } else {
        PACKET_MDU - 1
    };
    let mut out: Vec<u8> = Vec::new();
    out.push(tag);
    let mut i: usize = 0;
    while i < take
        invariant
            take <= body@.len(),
            i <= take,
            out@ == seq![tag] + body@.take(i as int),
        decreases take - i,
    {
        out.push(body[i]);
        i = i + 1;
        assert(body@.take(i as int) == body@.take(i - 1).push(body@[i - 1]));
    }
    out
}

/// An outgoing data packet whose buffer holds the tag byte and as much of the body as fits.
fn data_packet(
    destination: [u8; 16],
    destination_type: DestinationType,
    tag: u8,
    body: &[u8],
) -> (p: Packet)
    ensures
        p@ == (PacketView {
            header: data_header(destination_type),
            destination: destination@,
            transport: None,
            context: 0,
            data: payload(tag, body@),
        }),
{
    Packet {
        header: Header {
            ifac_flag: IfacFlag::Open,
            header_type: HeaderType::Type1,
            context_flag: ContextFlag::Unset,
            propagation_type: PropagationType::Broadcast,
            destination_type,
            packet_type: PacketType::Data,
            hops: 0,
        },
        destination,
        transport: None,
        context: 0,
        data: data_payload(tag, body),
    }
}

impl MeshNode {
    /// A stopped node with no interfaces, no peers and nothing received.
    pub fn new(local_hash: [u8; 16], tx_group_hash: [u8; 16], db_path: Option<String>) -> (n:
        MeshNode)
        ensures
            n.local_hash == local_hash,
            n.tx_group_hash == tx_group_hash,
            n.db_path == db_path,
            n.ifaces@.len() == 0,
            n.rx@.len() == 0,
            n.peers@ == Map::<Seq<char>, Seq<u8>>::empty(),
            !n.running,
    {
        MeshNode {
            local_hash,
            tx_group_hash,
            ifaces: Vec::new(),
            rx: ByteQueue::new(),
            running: false,
            peers: PeerTable::new(),
            db_path,
        }
    }

    /// Registers an interface with fresh queues, keeping its argument (a TCP address, for
    /// instance). Returns the interface's index.
    pub fn add_interface(&mut self, name: String, arg: Option<String>, mode: InterfaceMode) -> (idx:
        usize)
        requires
            old(self).ifaces@.len() < usize::MAX,
        ensures
            idx == old(self).ifaces@.len(),
            final(self).ifaces@.len() == old(self).ifaces@.len() + 1,
            forall|j: int|
                0 <= j < idx ==> #[trigger] final(self).ifaces@[j] == old(self).ifaces@[j],
            final(self).ifaces@[idx as int].name@ == name@,
            final(self).ifaces@[idx as int].arg == arg,
            final(self).ifaces@[idx as int].mode == mode,
            final(self).ifaces@[idx as int].incoming@.len() == 0,
            final(self).ifaces@[idx as int].outgoing@.len() == 0,
            final(self).local_hash == old(self).local_hash,
            final(self).tx_group_hash == old(self).tx_group_hash,
            final(self).rx == old(self).rx,
            final(self).peers == old(self).peers,
            final(self).db_path == old(self).db_path,
            final(self).running == old(self).running,
    {
        let idx = self.ifaces.len();
        self.ifaces.push(
            IfaceHandle { name, arg, mode, incoming: ByteQueue::new(), outgoing: ByteQueue::new() },
        );
        idx
    }

    /// Registers an interface over the given queues. Returns the interface's index.
    pub fn add_interface_raw(
        &mut self,
        name: String,
        incoming: ByteQueue,
        outgoing: ByteQueue,
        mode: InterfaceMode,
    ) -> (idx: usize)
        requires
            old(self).ifaces@.len() < usize::MAX,
        ensures
            idx == old(self).ifaces@.len(),
            final(self).ifaces@.len() == old(self).ifaces@.len() + 1,
            forall|j: int|
                0 <= j < idx ==> #[trigger] final(self).ifaces@[j] == old(self).ifaces@[j],
            final(self).ifaces@[idx as int].name@ == name@,
            final(self).ifaces@[idx as int].arg is None,
            final(self).ifaces@[idx as int].mode == mode,
            final(self).ifaces@[idx as int].incoming@ == incoming@,
            final(self).ifaces@[idx as int].outgoing@ == outgoing@,
            final(self).local_hash == old(self).local_hash,
            final(self).tx_group_hash == old(self).tx_group_hash,
            final(self).rx == old(self).rx,
            final(self).peers == old(self).peers,
            final(self).db_path == old(self).db_path,
            final(self).running == old(self).running,
    {
        let idx = self.ifaces.len();
        self.ifaces.push(IfaceHandle { name, arg: None, mode, incoming, outgoing });
        idx
    }

    /// The index of the first interface with this name.
    pub fn find_iface(&self, name: &str) -> (r: Option<usize>)
        ensures
            r matches Some(i) ==> first_named(self.ifaces@, name@, i as int),
            r is None ==> none_named(self.ifaces@, name@),
    {
        let n = self.ifaces.len();
        let mut i: usize = 0;
        while i < n
            invariant
                n == self.ifaces@.len(),
                i <= n,
                forall|j: int| 0 <= j < i ==> (#[trigger] self.ifaces@[j]).name@ != name@,
            decreases n - i,
        {
            if str_equal(self.ifaces[i].name.as_str(), name) {
                return Some(i);
            }
            i = i + 1;
        }
        None
    }

    /// Queues bytes received by the native radio on the named interface.
    /// Returns false, changing nothing, when no interface has that name.
    pub fn push_rx(&mut self, iface_name: &str, data: Vec<u8>) -> (ok: bool)
        ensures
            ok == !none_named(old(self).ifaces@, iface_name@),
            !ok ==> *final(self) == *old(self),
            ok ==> exists|i: int|
                first_named(old(self).ifaces@, iface_name@, i) && final(self).ifaces@ == old(self).ifaces@.update(
                    i,
                    IfaceHandle {
                        incoming: final(self).ifaces@[i].incoming,
                        ..old(self).ifaces@[i]
                    },
                ) && final(self).ifaces@[i].incoming@ == old(self).ifaces@[i].incoming@.push(
                    data@,
                ),
            final(self).local_hash == old(self).local_hash,
            final(self).tx_group_hash == old(self).tx_group_hash,
            final(self).rx == old(self).rx,
            final(self).peers == old(self).peers,
            final(self).db_path == old(self).db_path,
            final(self).running == old(self).running,
    {
        match self.find_iface(iface_name) {
            Some(i) => {
                let mut h = self.ifaces.remove(i);
                h.incoming.push(data);
                self.ifaces.insert(i, h);
                assert(self.ifaces@ =~= old(self).ifaces@.update(i as int, h));
                true
            },
            None => false,
        }
    }

    /// Takes the next outgoing frame of the named interface, for the native radio to send.
    pub fn pop_tx(&mut self, iface_name: &str) -> (r: Option<Vec<u8>>)
        ensures
            none_named(old(self).ifaces@, iface_name@) ==> r is None && *final(self) == *old(self),
            forall|i: int|
                first_named(old(self).ifaces@, iface_name@, i) ==> {
                    &&& final(self).ifaces@ == old(self).ifaces@.update(
                        i,
                        IfaceHandle {
                            outgoing: final(self).ifaces@[i].outgoing,
                            ..old(self).ifaces@[i]
                        },
                    )
                    &&& old(self).ifaces@[i].outgoing@.len() == 0 ==> r is None
                        && final(self).ifaces@[i].outgoing@ == old(self).ifaces@[i].outgoing@
                    &&& old(self).ifaces@[i].outgoing@.len() > 0 ==> r is Some && r->0@ == old(self).ifaces@[i].outgoing@[0] && final(self).ifaces@[i].outgoing@ == old(self).ifaces@[i].outgoing@.drop_first()
                },
            final(self).local_hash == old(self).local_hash,
            final(self).tx_group_hash == old(self).tx_group_hash,
            final(self).rx == old(self).rx,
            final(self).peers == old(self).peers,
            final(self).db_path == old(self).db_path,
            final(self).running == old(self).running,
    {
        match self.find_iface(iface_name) {
            Some(i) => {
                let mut h = self.ifaces.remove(i);
                let r = h.outgoing.pop();
                self.ifaces.insert(i, h);
                assert(self.ifaces@ =~= old(self).ifaces@.update(i as int, h));
                proof {
                    assert forall|k: int|
                        first_named(old(self).ifaces@, iface_name@, k) implies k == i by {
                        if k < i {
                            assert(old(self).ifaces@[k].name@ != iface_name@);
                        } else if k > i {
                            assert(old(self).ifaces@[i as int].name@ != iface_name@);
                        }
                    }
                }
                r
            },
            None => None,
        }
    }

    /// Takes the next frame received for the application.
    pub fn try_recv(&mut self) -> (r: Option<Vec<u8>>)
        ensures
            old(self).rx@.len() == 0 ==> r is None && final(self).rx@ == old(self).rx@,
            old(self).rx@.len() > 0 ==> r is Some && r->0@ == old(self).rx@[0] && final(self).rx@
                == old(self).rx@.drop_first(),
            final(self).ifaces == old(self).ifaces,
            final(self).local_hash == old(self).local_hash,
            final(self).tx_group_hash == old(self).tx_group_hash,
            final(self).peers == old(self).peers,
            final(self).db_path == old(self).db_path,
            final(self).running == old(self).running,
    {
        self.rx.pop()
    }

    /// Takes the next frame for the application only if it fits a buffer of `buf_len`
    /// bytes: a frame too large stays at the front of the queue, for a retry with a larger
    /// buffer.
    pub fn poll_rx(&mut self, buf_len: usize) -> (r: CopyOut)
        ensures
            old(self).rx@.len() == 0 ==> r is Nothing && final(self).rx@ == old(self).rx@,
            old(self).rx@.len() > 0 && old(self).rx@[0].len() <= buf_len ==> (r matches CopyOut::Copy(
                c,
            ) && c@ == old(self).rx@[0] && final(self).rx@ == old(self).rx@.drop_first()),
            old(self).rx@.len() > 0 && old(self).rx@[0].len() > buf_len ==> r is TooSmall
                && final(self).rx@ == old(self).rx@,
            final(self).ifaces == old(self).ifaces,
            final(self).local_hash == old(self).local_hash,
            final(self).tx_group_hash == old(self).tx_group_hash,
            final(self).peers == old(self).peers,
            final(self).db_path == old(self).db_path,
            final(self).running == old(self).running,
    {
        match self.rx.front_len() {
            None => CopyOut::Nothing,
            Some(len) => {
                if len <= buf_len {
                    match self.rx.pop() {
                        Some(frame) => CopyOut::Copy(frame),
                        None => CopyOut::Nothing,
                    }
                } else {
                    CopyOut::TooSmall
                }
            },
        }
    }

    /// Number of peers in the peer table.
    pub fn peer_count(&self) -> (n: usize)
        ensures
            self.peers@.dom().finite(),
            n == self.peers@.dom().len(),
    {
        self.peers.len()
    }

    /// Every known peer, in increasing order of hash.
    pub fn peer_list(&self) -> (r: Vec<PeerInfo>)
        ensures
            listing_of(r@, self.peers@),
            forall|i: int, j: int|
                0 <= i < j < r@.len() ==> precedes(#[trigger] r@[i].hash@, #[trigger] r@[j].hash@),
    {
        self.peers.list()
    }

    /// The peer at position `index` of the hash-ordered listing, if there is one.
    pub fn peer_at(&self, index: usize) -> (r: Option<PeerInfo>)
        ensures
            self.peers@.dom().finite(),
            r is Some <==> index < self.peers@.dom().len(),
            r matches Some(p) ==> forall|l: Seq<PeerInfo>|
                listing_of(l, self.peers@) ==> l[index as int].hash@ == p.hash@
                    && l[index as int].app_data@ == p.app_data@,
    {
        let mut list = self.peers.list();
        if index < list.len() {
            let ghost whole = list@;
            let p = list.remove(index);
            proof {
                assert forall|l: Seq<PeerInfo>| listing_of(l, self.peers@) implies l[index as int].hash@
                    == p.hash@ && l[index as int].app_data@ == p.app_data@ by {
                    lemma_listing_unique(whole, l, self.peers@);
                }
            }
            Some(p)
        } else {
            None
        }
    }

    /// Whether a peer with this hex hash is known.
    pub fn has_peer(&self, hash: &str) -> (b: bool)
        ensures
            b == self.peers@.contains_key(hash@),
    {
        self.peers.contains(hash)
    }

    /// Empties the peer table.
    pub fn clear_peers(&mut self)
        ensures
            final(self).peers@ == Map::<Seq<char>, Seq<u8>>::empty(),
            final(self).ifaces == old(self).ifaces,
            final(self).rx == old(self).rx,
            final(self).local_hash == old(self).local_hash,
            final(self).tx_group_hash == old(self).tx_group_hash,
            final(self).db_path == old(self).db_path,
            final(self).running == old(self).running,
    {
        self.peers.clear();
    }

    /// Records the peer of an announce, keyed by the hex of its destination hash;
    /// an announce from a known peer replaces its app_data.
    pub fn record_announce(&mut self, address: &[u8; 16], app_data: Vec<u8>)
        ensures
            final(self).peers@ == old(self).peers@.insert(hex_chars(address@), app_data@),
            final(self).ifaces == old(self).ifaces,
            final(self).rx == old(self).rx,
            final(self).local_hash == old(self).local_hash,
            final(self).tx_group_hash == old(self).tx_group_hash,
            final(self).db_path == old(self).db_path,
            final(self).running == old(self).running,
    {
        let shown = address_display(address);
        let hash = trim_hash_display(shown.as_str());
        proof {
            lemma_hash_text_of_display(address@);
        }
        self.peers.insert(PeerInfo { hash, app_data });
    }

    /// Our SINGLE destination hash as lower-case hex.
    pub fn local_hash_hex(&self) -> (s: String)
        ensures
            s@ == hex_chars(self.local_hash@),
            s@.len() == 32,
            forall|k: int| 0 <= k < 32 ==> is_hex_digit(#[trigger] s@[k]),
            forall|k: int|
                0 <= k < 16 ==> 16 * hex_digit_value(#[trigger] s@[2 * k]) + hex_digit_value(
                    s@[2 * k + 1],
                ) == self.local_hash@[k],
    {
        let shown = address_display(&self.local_hash);
        proof {
            lemma_hash_text_of_display(self.local_hash@);
            lemma_hex_chars_decode(self.local_hash@);
        }
        trim_hash_display(shown.as_str())
    }

    /// The GROUP relay hash as lower-case hex.
    pub fn tx_group_hash_hex(&self) -> (s: String)
        ensures
            s@ == hex_chars(self.tx_group_hash@),
            s@.len() == 32,
            forall|k: int| 0 <= k < 32 ==> is_hex_digit(#[trigger] s@[k]),
            forall|k: int|
                0 <= k < 16 ==> 16 * hex_digit_value(#[trigger] s@[2 * k]) + hex_digit_value(
                    s@[2 * k + 1],
                ) == self.tx_group_hash@[k],
    {
        let shown = address_display(&self.tx_group_hash);
        proof {
            lemma_hash_text_of_display(self.tx_group_hash@);
            lemma_hex_chars_decode(self.tx_group_hash@);
        }
        trim_hash_display(shown.as_str())
    }

    /// Whether the network loop is running.
    pub fn is_running(&self) -> (b: bool)
        ensures
            b == self.running,
    {
        self.running
    }

    /// Marks the node running. Returns false, changing nothing, when it already was.
    pub fn mark_started(&mut self) -> (started: bool)
        ensures
            started == !old(self).running,
            final(self).running,
            final(self).ifaces == old(self).ifaces,
            final(self).rx == old(self).rx,
            final(self).peers == old(self).peers,
            final(self).local_hash == old(self).local_hash,
            final(self).tx_group_hash == old(self).tx_group_hash,
            final(self).db_path == old(self).db_path,
    {
        if self.running {
            false
        } else {
            self.running = true;
            true
        }
    }

    /// Marks the node stopped, once its network loop has ended.
    pub fn mark_stopped(&mut self)
        ensures
            !final(self).running,
            final(self).ifaces == old(self).ifaces,
            final(self).rx == old(self).rx,
            final(self).peers == old(self).peers,
            final(self).local_hash == old(self).local_hash,
            final(self).tx_group_hash == old(self).tx_group_hash,
            final(self).db_path == old(self).db_path,
    {
        self.running = false;
    }

    /// Pushes the same frame onto the outgoing queue of every interface.
    fn broadcast_frame(&mut self, frame: &Vec<u8>)
        ensures
            final(self).ifaces@.len() == old(self).ifaces@.len(),
            forall|i: int|
                0 <= i < old(self).ifaces@.len() ==> {
                    &&& (#[trigger] final(self).ifaces@[i]).outgoing@ == old(self).ifaces@[i].outgoing@.push(frame@)
                    &&& final(self).ifaces@[i].name == old(self).ifaces@[i].name
                    &&& final(self).ifaces@[i].arg == old(self).ifaces@[i].arg
                    &&& final(self).ifaces@[i].mode == old(self).ifaces@[i].mode
                    &&& final(self).ifaces@[i].incoming == old(self).ifaces@[i].incoming
                },
            final(self).rx == old(self).rx,
            final(self).peers == old(self).peers,
            final(self).local_hash == old(self).local_hash,
            final(self).tx_group_hash == old(self).tx_group_hash,
            final(self).db_path == old(self).db_path,
            final(self).running == old(self).running,
    {
        let n = self.ifaces.len();
        let mut i: usize = 0;
        while i < n
            invariant
                n == self.ifaces@.len(),
                n == old(self).ifaces@.len(),
                i <= n,
                forall|j: int|
                    0 <= j < n ==> {
                        &&& (#[trigger] self.ifaces@[j]).outgoing@ == if j < i {
                            old(self).ifaces@[j].outgoing@.push(frame@)
                        } else {
                            old(self).ifaces@[j].outgoing@
                        }
                        &&& self.ifaces@[j].name == old(self).ifaces@[j].name
                        &&& self.ifaces@[j].arg == old(self).ifaces@[j].arg
                        &&& self.ifaces@[j].mode == old(self).ifaces@[j].mode
                        &&& self.ifaces@[j].incoming == old(self).ifaces@[j].incoming
                    },
                self.rx == old(self).rx,
                self.peers == old(self).peers,
                self.local_hash == old(self).local_hash,
                self.tx_group_hash == old(self).tx_group_hash,
                self.db_path == old(self).db_path,
                self.running == old(self).running,
            decreases n - i,
        {
            let mut h = self.ifaces.remove(i);
            h.outgoing.push(copy_bytes(frame));
            self.ifaces.insert(i, h);
            i = i + 1;
        }
    }

    /// Sends a transaction through the GROUP relay: the serialized relay packet goes onto
    /// every interface's outgoing queue. Returns false, sending nothing, when the node is
    /// not running.
    pub fn send_tx(&mut self, tx_bytes: &[u8]) -> (sent: bool)
        ensures
            sent == old(self).running,
            !sent ==> *final(self) == *old(self),
            final(self).ifaces@.len() == old(self).ifaces@.len(),
            sent ==> forall|i: int|
                0 <= i < old(self).ifaces@.len() ==> (#[trigger] final(self).ifaces@[i]).outgoing@
                    == old(self).ifaces@[i].outgoing@.push(
                    wire_bytes(tx_packet(old(self).tx_group_hash@, tx_bytes@)),
                ),
            forall|i: int|
                0 <= i < old(self).ifaces@.len() ==> {
                    &&& (#[trigger] final(self).ifaces@[i]).name == old(self).ifaces@[i].name
                    &&& final(self).ifaces@[i].arg == old(self).ifaces@[i].arg
                    &&& final(self).ifaces@[i].mode == old(self).ifaces@[i].mode
                    &&& final(self).ifaces@[i].incoming == old(self).ifaces@[i].incoming
                },
            final(self).rx == old(self).rx,
            final(self).peers == old(self).peers,
            final(self).local_hash == old(self).local_hash,
            final(self).tx_group_hash == old(self).tx_group_hash,
            final(self).db_path == old(self).db_path,
            final(self).running == old(self).running,
    {
        if !self.is_running() {
            return false;
        }
        let pkt = data_packet(self.tx_group_hash, DestinationType::Group, TAG_SOLANA_TX, tx_bytes);
        let serialized = serialize_packet(&pkt);
        self.broadcast_frame(&serialized);
        true
    }

    /// Sends a direct message to a peer: the serialized message packet goes onto every
    /// interface's outgoing queue. Returns false, sending nothing, when the node is not
    /// running.
    pub fn send_message(&mut self, dest: &[u8; 16], message: &[u8]) -> (sent: bool)
        ensures
            sent == old(self).running,
            !sent ==> *final(self) == *old(self),
            final(self).ifaces@.len() == old(self).ifaces@.len(),
            sent ==> forall|i: int|
                0 <= i < old(self).ifaces@.len() ==> (#[trigger] final(self).ifaces@[i]).outgoing@
                    == old(self).ifaces@[i].outgoing@.push(wire_bytes(message_packet(dest@, message@))),
            forall|i: int|
                0 <= i < old(self).ifaces@.len() ==> {
                    &&& (#[trigger] final(self).ifaces@[i]).name == old(self).ifaces@[i].name
                    &&& final(self).ifaces@[i].arg == old(self).ifaces@[i].arg
                    &&& final(self).ifaces@[i].mode == old(self).ifaces@[i].mode
                    &&& final(self).ifaces@[i].incoming == old(self).ifaces@[i].incoming
                },
            final(self).rx == old(self).rx,
            final(self).peers == old(self).peers,
            final(self).local_hash == old(self).local_hash,
            final(self).tx_group_hash == old(self).tx_group_hash,
            final(self).db_path == old(self).db_path,
            final(self).running == old(self).running,
    {
        if !self.is_running() {
            return false;
        }
        let pkt = data_packet(*dest, DestinationType::Single, TAG_MESSAGE, message);
        let serialized = serialize_packet(&pkt);
        self.broadcast_frame(&serialized);
        true
    }

    /// Handles a packet that arrived from the transport: a data packet for the GROUP relay
    /// or for our SINGLE destination is framed as `[dest_tag] [data...]` and queued for the
    /// application; anything else is dropped.
    pub fn handle_inbound(&mut self, pkt: &Packet) -> (r: InboundOutcome)
        ensures
            inbound_tag(old(self).local_hash@, old(self).tx_group_hash@, pkt@) is None ==> r
                is Dropped && *final(self) == *old(self),
            inbound_tag(old(self).local_hash@, old(self).tx_group_hash@, pkt@) matches Some(t)
                ==> {
                &&& r matches InboundOutcome::Delivered { dest_tag, store } && dest_tag == t && (
                store is Some <==> old(self).db_path is Some) && (store matches Some(st) ==> {
                    &&& st.dest_hash@ == display_chars(pkt.destination@)
                    &&& st.tag == t
                    &&& st.data@ == pkt.data@
                    &&& (st.message matches Some(m) ==> message_content(pkt.data@) == Some(m@))
                    &&& (st.message is None ==> message_content(pkt.data@) is None)
                })
                &&& final(self).rx@ == old(self).rx@.push(seq![t] + pkt.data@)
                &&& final(self).ifaces == old(self).ifaces
                &&& final(self).peers == old(self).peers
                &&& final(self).local_hash == old(self).local_hash
                &&& final(self).tx_group_hash == old(self).tx_group_hash
                &&& final(self).db_path == old(self).db_path
                &&& final(self).running == old(self).running
            },
    {
        if pkt.header.packet_type != PacketType::Data {
            return InboundOutcome::Dropped;
        }
        let dest_tag = if hash_eq(&pkt.destination, &self.tx_group_hash) {
            DEST_TX_GROUP
        } else if hash_eq(&pkt.destination, &self.local_hash) {
            DEST_NODE
        } else {
            return InboundOutcome::Dropped;
        };
        let mut framed: Vec<u8> = Vec::new();
        framed.push(dest_tag);
        append_bytes(&mut framed, pkt.data.as_slice());
        self.rx.push(framed);
        let store = if self.db_path.is_some() {
            let message = if pkt.data.len() > 0 && pkt.data[0] == TAG_MESSAGE {
                let mut content: Vec<u8> = Vec::new();
                let mut i: usize = 1;
                while i < pkt.data.len()
                    invariant
                        1 <= i <= pkt.data@.len(),
                        content@ == pkt.data@.subrange(1, i as int),
                    decreases pkt.data@.len() - i,
                {
                    content.push(pkt.data[i]);
                    i = i + 1;
                    assert(content@ == pkt.data@.subrange(1, i as int));
                }
                assert(content@ == pkt.data@.drop_first());
                Some(content)
            } else {
                None
            };
            Some(
                StoredPacket {
                    dest_hash: address_display(&pkt.destination),
                    tag: dest_tag,
                    data: copy_bytes(&pkt.data),
                    message,
                },
            )
        } else {
            None
        };
        InboundOutcome::Delivered { dest_tag, store }
    }

    /// Hands a packet from the transport to the named interface's driver: it is serialized
    /// onto the interface's outgoing queue unless the driver withholds it.
    /// Returns whether a frame was queued.
    pub fn transmit(&mut self, iface: usize, pkt: &Packet) -> (queued: bool)
        requires
            iface < old(self).ifaces@.len(),
        ensures
            queued == should_transmit(old(self).ifaces@[iface as int].mode, pkt.header.packet_type),
            !queued ==> *final(self) == *old(self),
            queued ==> final(self).ifaces@ == old(self).ifaces@.update(
                iface as int,
                IfaceHandle {
                    outgoing: final(self).ifaces@[iface as int].outgoing,
                    ..old(self).ifaces@[iface as int]
                },
            ) && final(self).ifaces@[iface as int].outgoing@ == old(self).ifaces@[iface as int].outgoing@.push(wire_bytes(pkt@)),
            final(self).rx == old(self).rx,
            final(self).peers == old(self).peers,
            final(self).local_hash == old(self).local_hash,
            final(self).tx_group_hash == old(self).tx_group_hash,
            final(self).db_path == old(self).db_path,
            final(self).running == old(self).running,
    {
        if !transmits(self.ifaces[iface].mode, pkt.header.packet_type) {
            return false;
        }
        let frame = serialize_packet(pkt);
        let mut h = self.ifaces.remove(iface);
        h.outgoing.push(frame);
        self.ifaces.insert(iface, h);
        assert(self.ifaces@ =~= old(self).ifaces@.update(iface as int, h));
        true
    }

    /// Takes the next frame that the native radio delivered to an interface, for its driver.
    pub fn take_incoming(&mut self, iface: usize) -> (r: Option<Vec<u8>>)
        requires
            iface < old(self).ifaces@.len(),
        ensures
            final(self).ifaces@ == old(self).ifaces@.update(
                iface as int,
                IfaceHandle {
                    incoming: final(self).ifaces@[iface as int].incoming,
                    ..old(self).ifaces@[iface as int]
                },
            ),
            old(self).ifaces@[iface as int].incoming@.len() == 0 ==> r is None && final(self).ifaces@[iface as int].incoming@ == old(self).ifaces@[iface as int].incoming@,
            old(self).ifaces@[iface as int].incoming@.len() > 0 ==> r is Some && r->0@ == old(self).ifaces@[iface as int].incoming@[0] && final(self).ifaces@[iface as int].incoming@
                == old(self).ifaces@[iface as int].incoming@.drop_first(),
            final(self).rx == old(self).rx,
            final(self).peers == old(self).peers,
            final(self).local_hash == old(self).local_hash,
            final(self).tx_group_hash == old(self).tx_group_hash,
            final(self).db_path == old(self).db_path,
            final(self).running == old(self).running,
    {
        let mut h = self.ifaces.remove(iface);
        let r = h.incoming.pop();
        self.ifaces.insert(iface, h);
        assert(self.ifaces@ =~= old(self).ifaces@.update(iface as int, h));
        r
    }
}

/// The data buffer never outgrows its capacity: the tag byte always goes in, followed by as
/// much of the body as fits, and a body that fits goes in whole.
pub proof fn lemma_payload_bounds(tag: u8, body: Seq<u8>)
    ensures
        payload(tag, body).len() <= PACKET_MDU,
        payload(tag, body)[0] == tag,
        body.len() < PACKET_MDU ==> payload(tag, body) == seq![tag] + body,
{
    if body.len() < PACKET_MDU {
        assert(body.take(body.len() as int) =~= body);
    }
}

/// A direct message sent to a node's SINGLE hash reaches that node's application as
/// `[DEST_NODE] [TAG_MESSAGE] [message...]` (so long as the node's SINGLE and GROUP hashes
/// differ, and the message fits the packet buffer).
pub proof fn lemma_message_delivery(local: Seq<u8>, group: Seq<u8>, msg: Seq<u8>)
    requires
        local != group,
    ensures
        inbound_tag(local, group, message_packet(local, msg)) == Some(DEST_NODE),
        msg.len() < PACKET_MDU ==> seq![DEST_NODE] + message_packet(local, msg).data == seq![
            DEST_NODE,
            TAG_MESSAGE,
        ] + msg,
{
    lemma_payload_bounds(TAG_MESSAGE, msg);
    if msg.len() < PACKET_MDU {
        assert(seq![DEST_NODE] + (seq![TAG_MESSAGE] + msg) =~= seq![DEST_NODE, TAG_MESSAGE] + msg);
    }
}

/// A transaction relayed through the GROUP hash reaches every node's application as
/// `[DEST_TX_GROUP] [TAG_SOLANA_TX] [tx...]` (when it fits the packet buffer).
pub proof fn lemma_tx_relay_delivery(local: Seq<u8>, group: Seq<u8>, tx: Seq<u8>)
    ensures
        inbound_tag(local, group, tx_packet(group, tx)) == Some(DEST_TX_GROUP),
        tx.len() < PACKET_MDU ==> seq![DEST_TX_GROUP] + tx_packet(group, tx).data == seq![
            DEST_TX_GROUP,
            TAG_SOLANA_TX,
        ] + tx,
{
    lemma_payload_bounds(TAG_SOLANA_TX, tx);
    if tx.len() < PACKET_MDU {
        assert(seq![DEST_TX_GROUP] + (seq![TAG_SOLANA_TX] + tx) =~= seq![
            DEST_TX_GROUP,
            TAG_SOLANA_TX,
        ] + tx);
    }
}

/// Every frame queued for the application starts with one of the two destination tags.
pub proof fn lemma_inbound_tags(local: Seq<u8>, group: Seq<u8>, p: PacketView)
    ensures
        inbound_tag(local, group, p) matches Some(t) ==> (t == DEST_NODE || t == DEST_TX_GROUP),
        inbound_tag(local, group, p) matches Some(t) ==> (seq![t] + p.data)[0] == t,
{
}

/// A peer that announces again keeps a single record, holding its latest app_data.
pub proof fn lemma_announce_replaces(
    m: Map<Seq<char>, Seq<u8>>,
    k: Seq<char>,
    first: Seq<u8>,
    latest: Seq<u8>,
)
    requires
        m.dom().finite(),
    ensures
        m.insert(k, first).insert(k, latest) == m.insert(k, latest),
        m.insert(k, first).dom().len() == m.insert(k, latest).dom().len(),
        m.insert(k, latest)[k] == latest,
{
    assert(m.insert(k, first).insert(k, latest) =~= m.insert(k, latest));
    assert(m.insert(k, first).dom() =~= m.insert(k, latest).dom());
}

/// Delivery depends only on a packet's type and destination: a data packet to the GROUP
/// hash is tagged `DEST_TX_GROUP`, a data packet to our SINGLE hash (when it is not the
/// GROUP hash) is tagged `DEST_NODE`, whatever its hops, flags, context or transport; any
/// other packet is not delivered.
pub proof fn lemma_inbound_by_type_and_destination(
    local: Seq<u8>,
    group: Seq<u8>,
    p: PacketView,
    q: PacketView,
)
    ensures
        p.header.packet_type == q.header.packet_type && p.destination == q.destination
            ==> inbound_tag(local, group, p) == inbound_tag(local, group, q),
        p.header.packet_type == PacketType::Data && p.destination == group ==> inbound_tag(
            local,
            group,
            p,
        ) == Some(DEST_TX_GROUP),
        p.header.packet_type == PacketType::Data && p.destination == local && local != group
            ==> inbound_tag(local, group, p) == Some(DEST_NODE),
        p.header.packet_type != PacketType::Data ==> inbound_tag(local, group, p) is None,
        p.destination != local && p.destination != group ==> inbound_tag(local, group, p) is None,
{
}

/// Only an access point withholds anything, and only announces: every other mode puts every
/// packet type on the air.
pub proof fn lemma_transmit_modes(mode: InterfaceMode, packet_type: PacketType)
    ensures
        mode != InterfaceMode::AccessPoint ==> should_transmit(mode, packet_type),
        packet_type != PacketType::Announce ==> should_transmit(mode, packet_type),
        !should_transmit(InterfaceMode::AccessPoint, PacketType::Announce),
{
}

} // verus!
