use bmp_client::{
    BmpMessage, Decoder, InformationTlv, InformationType, MessageData, MessageKind, PeerAddress,
    PeerFlags, PeerHeader, PeerKeying, PeerType, PeerUp, RouteDistinguisher,
};

fn decode_wire(bytes: &Vec<u8>) -> BmpMessage {
    let (header, body, next) = bmp_client::next_frame(bytes, 0).unwrap();
    assert_eq!(next, bytes.len());
    let mut decoder = Decoder::new(PeerKeying::ByAddress, 0);
    decoder.decode(&header, body).unwrap()
}

#[test]
fn initiation_round_trip() {
    let msg = BmpMessage {
        version: 3,
        kind: MessageKind::Initiation,
        message: MessageData::Initiation(vec![
            InformationTlv {
                information_type: InformationType::SysDescr,
                value: "collector \u{263a}".to_string(),
            },
            InformationTlv {
                information_type: InformationType::SysName,
                value: String::new(),
            },
        ]),
    };
    let wire = msg.encode().unwrap();
    let back = decode_wire(&wire);
    assert_eq!(back.version, 3);
    assert_eq!(back.kind, MessageKind::Initiation);
    match back.message {
        MessageData::Initiation(tlvs) => {
            assert_eq!(tlvs.len(), 2);
            assert_eq!(tlvs[0].information_type, InformationType::SysDescr);
            assert_eq!(tlvs[0].value, "collector \u{263a}");
            assert_eq!(tlvs[1].information_type, InformationType::SysName);
            assert_eq!(tlvs[1].value, "");
        },
        _ => panic!("expected an Initiation body"),
    }
}

#[test]
fn peer_up_round_trip_without_open_capture() {
    let ph = PeerHeader {
        peer_type: PeerType::GlobalInstance,
        peer_flags: PeerFlags { V: false, L: true, A: false },
        peer_distinguisher: RouteDistinguisher { high: 1, low: 2 },
        peer_addr: PeerAddress::V4(0x0a000001),
        peer_asn: 65000,
        peer_bgp_id: 0x0a0000ff,
        timestamp: 1_700_000_000,
        timestamp_ms: 999_999,
    };
    let msg = BmpMessage {
        version: 3,
        kind: MessageKind::PeerUp,
        message: MessageData::PeerUp((
            ph,
            PeerUp {
                local_addr: PeerAddress::V4(0x0a000002),
                local_port: 179,
                remote_port: 54321,
                sent_open: None,
                recv_open: None,
                information: Vec::new(),
            },
        )),
    };
    let wire = msg.encode().unwrap();
    let back = decode_wire(&wire);
    assert_eq!(back.kind, MessageKind::PeerUp);
    match back.message {
        MessageData::PeerUp(b) => {
            assert_eq!(b.0, ph);
            assert_eq!(b.1.local_addr, PeerAddress::V4(0x0a000002));
            assert_eq!(b.1.local_port, 179);
            assert_eq!(b.1.remote_port, 54321);
            assert!(b.1.sent_open.is_none());
            assert!(b.1.recv_open.is_none());
            assert!(b.1.information.is_empty());
        },
        _ => panic!("expected a PeerUp body"),
    }
}

#[test]
fn peer_up_round_trip_v6() {
    let ph = PeerHeader {
        peer_type: PeerType::RdInstance,
        peer_flags: PeerFlags { V: true, L: false, A: true },
        peer_distinguisher: RouteDistinguisher { high: 0xffffffff, low: 0 },
        peer_addr: PeerAddress::V6(0xfd00_0000_0000_0000_0000_0000_0000_0001),
        peer_asn: 64512,
        peer_bgp_id: 1,
        timestamp: 0,
        timestamp_ms: 0,
    };
    let msg = BmpMessage {
        version: 3,
        kind: MessageKind::PeerUp,
        message: MessageData::PeerUp((
            ph,
            PeerUp {
                local_addr: PeerAddress::V6(2),
                local_port: 0,
                remote_port: 65535,
                sent_open: None,
                recv_open: None,
                information: Vec::new(),
            },
        )),
    };
    let wire = msg.encode().unwrap();
    let back = decode_wire(&wire);
    match back.message {
        MessageData::PeerUp(b) => {
            assert_eq!(b.0, ph);
            assert_eq!(b.1.local_addr, PeerAddress::V6(2));
            assert_eq!(b.1.remote_port, 65535);
        },
        _ => panic!("expected a PeerUp body"),
    }
}

#[test]
fn termination_round_trip_is_unimplemented() {
    let msg = BmpMessage {
        version: 3,
        kind: MessageKind::Termination,
        message: MessageData::Unimplemented,
    };
    let wire = msg.encode().unwrap();
    assert_eq!(wire, vec![0x03, 0x00, 0x00, 0x00, 0x06, 0x05]);
    let back = decode_wire(&wire);
    assert_eq!(back.kind, MessageKind::Termination);
    assert!(matches!(back.message, MessageData::Unimplemented));
}

#[test]
fn unencodable_messages_are_refused() {
    // An Initiation TLV with an unrecognized type code would not
    // survive decoding, so it has no wire form.
    let msg = BmpMessage {
        version: 3,
        kind: MessageKind::Initiation,
        message: MessageData::Initiation(vec![InformationTlv {
            information_type: InformationType::Unknown(40),
            value: "x".to_string(),
        }]),
    };
    assert!(msg.encode().is_none());

    // A narrow-ASN header cannot carry an ASN beyond 16 bits.
    let msg = BmpMessage {
        version: 3,
        kind: MessageKind::PeerUp,
        message: MessageData::PeerUp((
            PeerHeader {
                peer_type: PeerType::GlobalInstance,
                peer_flags: PeerFlags { V: false, L: false, A: true },
                peer_distinguisher: RouteDistinguisher { high: 0, low: 0 },
                peer_addr: PeerAddress::V4(1),
                peer_asn: 395_000,
                peer_bgp_id: 1,
                timestamp: 0,
                timestamp_ms: 0,
            },
            PeerUp {
                local_addr: PeerAddress::V4(2),
                local_port: 1,
                remote_port: 2,
                sent_open: None,
                recv_open: None,
                information: Vec::new(),
            },
        )),
    };
    assert!(msg.encode().is_none());

    // An address family contradicting flag V has no wire form either.
    let msg = BmpMessage {
        version: 3,
        kind: MessageKind::PeerUp,
        message: MessageData::PeerUp((
            PeerHeader {
                peer_type: PeerType::GlobalInstance,
                peer_flags: PeerFlags { V: true, L: false, A: false },
                peer_distinguisher: RouteDistinguisher { high: 0, low: 0 },
                peer_addr: PeerAddress::V4(1),
                peer_asn: 1,
                peer_bgp_id: 1,
                timestamp: 0,
                timestamp_ms: 0,
            },
            PeerUp {
                local_addr: PeerAddress::V4(2),
                local_port: 1,
                remote_port: 2,
                sent_open: None,
                recv_open: None,
                information: Vec::new(),
            },
        )),
    };
    assert!(msg.encode().is_none());
}
