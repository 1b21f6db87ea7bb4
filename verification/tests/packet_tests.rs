use reticulum_mobile::packet::{
    header_to_meta, serialize_packet, ContextFlag, DestinationType, Header, HeaderType, IfacFlag,
    Packet, PacketType, PropagationType,
};

fn header(ht: HeaderType, dt: DestinationType, pt: PacketType) -> Header {
    Header {
        ifac_flag: IfacFlag::Open,
        header_type: ht,
        context_flag: ContextFlag::Unset,
        propagation_type: PropagationType::Broadcast,
        destination_type: dt,
        packet_type: pt,
        hops: 0,
    }
}

#[test]
fn meta_byte_bits() {
    let h = header(HeaderType::Type1, DestinationType::Single, PacketType::Data);
    assert_eq!(header_to_meta(&h), 0x00);
    let h = header(HeaderType::Type1, DestinationType::Group, PacketType::Data);
    assert_eq!(header_to_meta(&h), 0x04);
    let h = header(HeaderType::Type1, DestinationType::Single, PacketType::Announce);
    assert_eq!(header_to_meta(&h), 0x01);
    let all = Header {
        ifac_flag: IfacFlag::Authenticated,
        header_type: HeaderType::Type2,
        context_flag: ContextFlag::Marked,
        propagation_type: PropagationType::Transport,
        destination_type: DestinationType::Link,
        packet_type: PacketType::Proof,
        hops: 9,
    };
    assert_eq!(header_to_meta(&all), 0xFF);
    let mut only_ifac = header(HeaderType::Type1, DestinationType::Single, PacketType::Data);
    only_ifac.ifac_flag = IfacFlag::Authenticated;
    assert_eq!(header_to_meta(&only_ifac), 0x80);
    let mut ctx = header(HeaderType::Type2, DestinationType::Plain, PacketType::LinkRequest);
    ctx.context_flag = ContextFlag::Marked;
    assert_eq!(header_to_meta(&ctx), 0x40 | 0x20 | 0x08 | 0x02);
    let mut prop = header(HeaderType::Type1, DestinationType::Single, PacketType::Data);
    prop.propagation_type = PropagationType::Transport;
    assert_eq!(header_to_meta(&prop), 0x10);
}

#[test]
fn serialize_type1_packet() {
    let mut h = header(HeaderType::Type1, DestinationType::Single, PacketType::Data);
    h.hops = 3;
    let p = Packet {
        header: h,
        destination: [7u8; 16],
        transport: Some([9u8; 16]),
        context: 0x0A,
        data: vec![1, 2, 3],
    };
    let out = serialize_packet(&p);
    let mut expected = vec![0x00, 3];
    expected.extend_from_slice(&[7u8; 16]);
    expected.push(0x0A);
    expected.extend_from_slice(&[1, 2, 3]);
    assert_eq!(out, expected);
    assert_eq!(out.len(), 2 + 16 + 1 + 3);
}

#[test]
fn serialize_type2_packet_carries_transport() {
    let h = header(HeaderType::Type2, DestinationType::Group, PacketType::Announce);
    let p = Packet {
        header: h,
        destination: [0xAA; 16],
        transport: Some([0x55; 16]),
        context: 0,
        data: vec![],
    };
    let out = serialize_packet(&p);
    let mut expected = vec![0x40 | 0x04 | 0x01, 0];
    expected.extend_from_slice(&[0x55; 16]);
    expected.extend_from_slice(&[0xAA; 16]);
    expected.push(0);
    assert_eq!(out, expected);
}

#[test]
fn serialize_type2_without_transport_skips_it() {
    let h = header(HeaderType::Type2, DestinationType::Single, PacketType::Data);
    let p = Packet { header: h, destination: [1; 16], transport: None, context: 0xFA, data: vec![4] };
    let out = serialize_packet(&p);
    assert_eq!(out.len(), 2 + 16 + 1 + 1);
    assert_eq!(out[0], 0x40);
    assert_eq!(out[18], 0xFA);
    assert_eq!(out[19], 4);
}
