use reticulum_mobile::drivers::{accepted_interface_name, copy_out, driver_for, CopyOut, DriverKind};
use reticulum_mobile::peers::PeerInfo;
use reticulum_mobile::mode::InterfaceMode;
use reticulum_mobile::node::{
    data_payload, hash_eq, transmits, InboundOutcome, MeshNode, DEST_NODE, DEST_TX_GROUP,
    PACKET_MDU, TAG_MESSAGE, TAG_SOLANA_TX,
};
use reticulum_mobile::packet::{
    ContextFlag, DestinationType, Header, HeaderType, IfacFlag, Packet, PacketType,
    PropagationType,
};
use reticulum_mobile::queue::ByteQueue;

const LOCAL: [u8; 16] = [0x11; 16];
const GROUP: [u8; 16] = [0x22; 16];

fn node() -> MeshNode {
    MeshNode::new(LOCAL, GROUP, None)
}

fn data_packet(dest: [u8; 16], pt: PacketType, data: Vec<u8>) -> Packet {
    Packet {
        header: Header {
            ifac_flag: IfacFlag::Open,
            header_type: HeaderType::Type1,
            context_flag: ContextFlag::Unset,
            propagation_type: PropagationType::Broadcast,
            destination_type: DestinationType::Single,
            packet_type: pt,
            hops: 0,
        },
        destination: dest,
        transport: None,
        context: 0,
        data,
    }
}

#[test]
fn interfaces_get_consecutive_indices() {
    let mut n = node();
    assert_eq!(n.add_interface("ble".to_string(), Some("x".to_string()), InterfaceMode::Full), 0);
    assert_eq!(n.add_interface("lora".to_string(), None, InterfaceMode::Roaming), 1);
    assert_eq!(
        n.add_interface_raw("ble".to_string(), ByteQueue::new(), ByteQueue::new(), InterfaceMode::AccessPoint),
        2
    );
    assert_eq!(n.ifaces.len(), 3);
    assert_eq!(n.ifaces[0].arg, Some("x".to_string()));
    assert!(n.ifaces[1].arg.is_none());
    assert!(n.ifaces[2].arg.is_none());
    assert_eq!(n.ifaces[1].mode, InterfaceMode::Roaming);
    assert_eq!(n.find_iface("ble"), Some(0));
    assert_eq!(n.find_iface("lora"), Some(1));
    assert_eq!(n.find_iface("auto"), None);
}

#[test]
fn push_rx_reaches_the_named_interface() {
    let mut n = node();
    n.add_interface("ble".to_string(), None, InterfaceMode::Full);
    n.add_interface("lora".to_string(), None, InterfaceMode::Full);
    assert!(!n.push_rx("wifi", vec![1]));
    assert!(n.push_rx("lora", vec![1, 2]));
    assert!(n.push_rx("lora", vec![3]));
    assert_eq!(n.take_incoming(0), None);
    assert_eq!(n.take_incoming(1), Some(vec![1, 2]));
    assert_eq!(n.take_incoming(1), Some(vec![3]));
    assert_eq!(n.take_incoming(1), None);
}

#[test]
fn send_tx_needs_a_running_node() {
    let mut n = node();
    n.add_interface("ble".to_string(), None, InterfaceMode::Full);
    assert!(!n.is_running());
    assert!(!n.send_tx(b"tx"));
    assert_eq!(n.pop_tx("ble"), None);
    assert!(n.mark_started());
    assert!(!n.mark_started());
    assert!(n.is_running());
    n.mark_stopped();
    assert!(!n.is_running());
    assert!(n.mark_started());
}

#[test]
fn send_tx_queues_the_group_packet_on_every_interface() {
    let mut n = node();
    n.add_interface("ble".to_string(), None, InterfaceMode::Full);
    n.add_interface("lora".to_string(), None, InterfaceMode::Full);
    n.mark_started();
    assert!(n.send_tx(&[0xde, 0xad]));
    let mut expected = vec![0x04, 0x00];
    expected.extend_from_slice(&GROUP);
    expected.push(0x00);
    expected.extend_from_slice(&[TAG_SOLANA_TX, 0xde, 0xad]);
    assert_eq!(n.pop_tx("ble"), Some(expected.clone()));
    assert_eq!(n.pop_tx("lora"), Some(expected));
    assert_eq!(n.pop_tx("ble"), None);
    assert_eq!(n.pop_tx("unknown"), None);
}

#[test]
fn send_message_queues_a_single_packet() {
    let mut n = node();
    n.add_interface("ble".to_string(), None, InterfaceMode::Full);
    let dest = [0x33; 16];
    assert!(!n.send_message(&dest, b"hi"));
    assert_eq!(n.pop_tx("ble"), None);
    n.mark_started();
    assert!(n.send_message(&dest, b"hi"));
    let mut expected = vec![0x00, 0x00];
    expected.extend_from_slice(&dest);
    expected.push(0x00);
    expected.extend_from_slice(&[TAG_MESSAGE, b'h', b'i']);
    assert_eq!(n.pop_tx("ble"), Some(expected));
}

#[test]
fn payload_is_cut_at_buffer_capacity() {
    let body = vec![7u8; 5000];
    let p = data_payload(TAG_MESSAGE, &body);
    assert_eq!(p.len(), PACKET_MDU);
    assert_eq!(p[0], TAG_MESSAGE);
    let small = data_payload(TAG_SOLANA_TX, &[1, 2]);
    assert_eq!(small, vec![TAG_SOLANA_TX, 1, 2]);
    let edge = data_payload(1, &vec![0u8; PACKET_MDU - 1]);
    assert_eq!(edge.len(), PACKET_MDU);
}

#[test]
fn inbound_packets_are_framed_by_destination() {
    let mut n = node();
    let a = n.handle_inbound(&data_packet(LOCAL, PacketType::Data, vec![TAG_MESSAGE, 5]));
    assert!(matches!(a, InboundOutcome::Delivered { dest_tag: DEST_NODE, store: None }));
    let b = n.handle_inbound(&data_packet(GROUP, PacketType::Data, vec![TAG_SOLANA_TX, 6]));
    assert!(matches!(b, InboundOutcome::Delivered { dest_tag: DEST_TX_GROUP, store: None }));
    let c = n.handle_inbound(&data_packet([0x99; 16], PacketType::Data, vec![1]));
    assert!(matches!(c, InboundOutcome::Dropped));
    let d = n.handle_inbound(&data_packet(LOCAL, PacketType::Announce, vec![1]));
    assert!(matches!(d, InboundOutcome::Dropped));
    assert_eq!(n.try_recv(), Some(vec![DEST_NODE, TAG_MESSAGE, 5]));
    assert_eq!(n.try_recv(), Some(vec![DEST_TX_GROUP, TAG_SOLANA_TX, 6]));
    assert_eq!(n.try_recv(), None);
}

#[test]
fn group_hash_wins_when_it_equals_ours() {
    let mut n = MeshNode::new(GROUP, GROUP, None);
    let r = n.handle_inbound(&data_packet(GROUP, PacketType::Data, vec![]));
    assert!(matches!(r, InboundOutcome::Delivered { dest_tag: DEST_TX_GROUP, .. }));
    assert_eq!(n.try_recv(), Some(vec![DEST_TX_GROUP]));
}

#[test]
fn inbound_packets_are_stored_when_a_database_is_set() {
    let mut n = MeshNode::new(LOCAL, GROUP, Some("node.db".to_string()));
    match n.handle_inbound(&data_packet(LOCAL, PacketType::Data, vec![TAG_MESSAGE, b'o', b'k'])) {
        InboundOutcome::Delivered { dest_tag, store: Some(st) } => {
            assert_eq!(dest_tag, DEST_NODE);
            assert_eq!(st.tag, DEST_NODE);
            assert_eq!(st.dest_hash, format!("/{}/", "11".repeat(16)));
            assert_eq!(st.data, vec![TAG_MESSAGE, b'o', b'k']);
            assert_eq!(st.message, Some(vec![b'o', b'k']));
        }
        _ => panic!("expected a stored delivery"),
    }
    match n.handle_inbound(&data_packet(GROUP, PacketType::Data, vec![TAG_SOLANA_TX, 1])) {
        InboundOutcome::Delivered { store: Some(st), .. } => {
            assert_eq!(st.tag, DEST_TX_GROUP);
            assert_eq!(st.message, None);
        }
        _ => panic!("expected a stored delivery"),
    }
    match n.handle_inbound(&data_packet(GROUP, PacketType::Data, vec![])) {
        InboundOutcome::Delivered { store: Some(st), .. } => assert_eq!(st.message, None),
        _ => panic!("expected a stored delivery"),
    }
}

#[test]
fn test_node_communication() {
    // Two nodes joined by a "virtual cable": what A puts on its BLE interface is what B
    // reads off the wire.
    let mut node_a = MeshNode::new([0xA1; 16], GROUP, None);
    node_a.add_interface_raw("ble".to_string(), ByteQueue::new(), ByteQueue::new(), InterfaceMode::Full);
    assert!(node_a.mark_started());
    let mut node_b = MeshNode::new([0xB2; 16], GROUP, None);
    node_b.add_interface_raw("ble".to_string(), ByteQueue::new(), ByteQueue::new(), InterfaceMode::Full);
    assert!(node_b.mark_started());

    let b_hash = node_b.local_hash_hex();

    // Node A learns of node B from B's announce.
    let b_address = node_b.local_hash;
    node_a.record_announce(&b_address, vec![]);
    let discovered = node_a.has_peer(&b_hash);
    assert!(discovered, "Node A failed to discover Node B via announce");

    // Send a message from A to B.
    let test_msg = b"hello reticulum hookup";
    assert!(node_a.send_message(&b_address, test_msg));
    let wire = node_a.pop_tx("ble").expect("a frame on the cable");
    // Wire layout: [meta] [hops] [destination(16)] [context] [data...]
    let mut dest = [0u8; 16];
    dest.copy_from_slice(&wire[2..18]);
    node_b.handle_inbound(&data_packet(dest, PacketType::Data, wire[19..].to_vec()));

    let mut received = false;
    if let Some(data) = node_b.try_recv() {
        // Packet format: [dest_tag] [payload]; tag 0x00 is the SINGLE destination.
        if data[0] == 0x00 && &data[2..] == test_msg {
            received = true;
        }
    }
    assert!(received, "Node B failed to receive message from Node A");
}

#[test]
fn hex_hashes_and_announces() {
    let mut n = node();
    assert_eq!(n.local_hash_hex(), "11".repeat(16));
    assert_eq!(n.tx_group_hash_hex(), "22".repeat(16));
    let addr = [0xAB; 16];
    n.record_announce(&addr, b"alice".to_vec());
    n.record_announce(&[0x01; 16], b"bob".to_vec());
    n.record_announce(&addr, b"alice2".to_vec());
    assert_eq!(n.peer_count(), 2);
    assert!(n.has_peer(&"ab".repeat(16)));
    let list = n.peer_list();
    assert_eq!(list[0].hash, "01".repeat(16));
    assert_eq!(list[1].hash, "ab".repeat(16));
    assert_eq!(list[1].app_data, b"alice2".to_vec());
    n.clear_peers();
    assert_eq!(n.peer_count(), 0);
}

#[test]
fn access_points_keep_announces_off_the_air() {
    let mut n = node();
    n.add_interface("ble".to_string(), None, InterfaceMode::AccessPoint);
    n.add_interface("lora".to_string(), None, InterfaceMode::Full);
    let ann = data_packet(LOCAL, PacketType::Announce, vec![1]);
    assert!(!n.transmit(0, &ann));
    assert!(n.transmit(1, &ann));
    let dat = data_packet(LOCAL, PacketType::Data, vec![2]);
    assert!(n.transmit(0, &dat));
    assert_eq!(n.pop_tx("ble").map(|f| f[0]), Some(0x00));
    assert_eq!(n.pop_tx("ble"), None);
    assert_eq!(n.pop_tx("lora").map(|f| f[0]), Some(0x01));
    assert!(transmits(InterfaceMode::Gateway, PacketType::Announce));
    assert!(!transmits(InterfaceMode::AccessPoint, PacketType::Announce));
    assert!(transmits(InterfaceMode::AccessPoint, PacketType::Proof));
}

#[test]
fn driver_selection_and_names() {
    assert_eq!(driver_for("ble", &None), Some(DriverKind::Ble));
    assert_eq!(driver_for("lora", &Some("x".to_string())), Some(DriverKind::LoRa));
    assert_eq!(driver_for("auto", &None), Some(DriverKind::Auto));
    assert_eq!(driver_for("tcp_client", &None), None);
    assert_eq!(
        driver_for("tcp_client", &Some("1.2.3.4:4242".to_string())),
        Some(DriverKind::TcpClient("1.2.3.4:4242".to_string()))
    );
    assert_eq!(
        driver_for("tcp_server", &Some("0.0.0.0:4242".to_string())),
        Some(DriverKind::TcpServer("0.0.0.0:4242".to_string()))
    );
    assert_eq!(driver_for("wifi", &None), None);
    assert!(accepted_interface_name("tcp_server"));
    assert!(accepted_interface_name("auto"));
    assert!(!accepted_interface_name("BLE"));
    assert!(!accepted_interface_name(""));
}

#[test]
fn copy_out_decisions() {
    assert!(matches!(copy_out(None, 10), CopyOut::Nothing));
    assert!(matches!(copy_out(Some(vec![1, 2, 3]), 3), CopyOut::Copy(ref v) if v == &vec![1, 2, 3]));
    assert!(matches!(copy_out(Some(vec![1, 2, 3]), 2), CopyOut::TooSmall));
    assert!(matches!(copy_out(Some(vec![]), 0), CopyOut::Copy(ref v) if v.is_empty()));
}

#[test]
fn hash_equality() {
    assert!(hash_eq(&LOCAL, &[0x11; 16]));
    let mut other = LOCAL;
    other[15] = 0;
    assert!(!hash_eq(&LOCAL, &other));
}

#[test]
fn tcp_interfaces_keep_their_address_for_the_driver() {
    let mut n = node();
    n.add_interface("tcp_client".to_string(), Some("1.2.3.4:4242".to_string()), InterfaceMode::Full);
    let h = &n.ifaces[0];
    assert_eq!(
        driver_for(&h.name, &h.arg),
        Some(DriverKind::TcpClient("1.2.3.4:4242".to_string()))
    );
}

#[test]
fn poll_rx_keeps_a_frame_too_large_for_the_buffer() {
    let mut n = node();
    assert!(matches!(n.poll_rx(10), CopyOut::Nothing));
    n.handle_inbound(&data_packet(LOCAL, PacketType::Data, vec![TAG_MESSAGE, 1, 2, 3]));
    n.handle_inbound(&data_packet(GROUP, PacketType::Data, vec![TAG_SOLANA_TX]));
    assert!(matches!(n.poll_rx(3), CopyOut::TooSmall));
    assert!(matches!(n.poll_rx(0), CopyOut::TooSmall));
    match n.poll_rx(5) {
        CopyOut::Copy(f) => assert_eq!(f, vec![DEST_NODE, TAG_MESSAGE, 1, 2, 3]),
        _ => panic!("expected the frame"),
    }
    match n.poll_rx(2) {
        CopyOut::Copy(f) => assert_eq!(f, vec![DEST_TX_GROUP, TAG_SOLANA_TX]),
        _ => panic!("expected the frame"),
    }
    assert!(matches!(n.poll_rx(100), CopyOut::Nothing));
}

#[test]
fn peer_at_follows_hash_order() {
    let mut n = node();
    assert!(n.peer_at(0).is_none());
    n.record_announce(&[0xCC; 16], b"c".to_vec());
    n.record_announce(&[0x0A; 16], b"a".to_vec());
    let first: PeerInfo = n.peer_at(0).expect("first peer");
    assert_eq!(first.hash, "0a".repeat(16));
    assert_eq!(first.app_data, b"a".to_vec());
    assert_eq!(n.peer_at(1).map(|p| p.hash), Some("cc".repeat(16)));
    assert!(n.peer_at(2).is_none());
}
