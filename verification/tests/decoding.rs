use bmp_client::{
    Decoder, Error, InformationType, MessageData, MessageKind, PeerAddress, PeerId, PeerKeying,
};

fn push_u16(v: &mut Vec<u8>, x: u16) {
    v.extend_from_slice(&x.to_be_bytes());
}

fn push_u32(v: &mut Vec<u8>, x: u32) {
    v.extend_from_slice(&x.to_be_bytes());
}

fn header(version: u8, kind: u8, body_len: usize) -> bmp_client::CommonHeader {
    let mut framed = vec![version];
    push_u32(&mut framed, (body_len + 6) as u32);
    framed.push(kind);
    framed.extend_from_slice(&vec![0u8; body_len]);
    let (h, _, _) = bmp_client::next_frame(&framed, 0).unwrap();
    h
}

/// 42 bytes of per-peer header. With `v6` clear, the address field is
/// 12 bytes of padding and then the 4 address bytes; with it set, 16
/// address bytes. With `narrow_asn` set, 2 reserved bytes and a 2-byte
/// ASN; otherwise a 4-byte ASN.
fn peer_header_bytes(v6: bool, narrow_asn: bool, addr_tail: u32, bgp_id: u32) -> Vec<u8> {
    let mut b = vec![0u8];  // peer type: global instance
    let mut flags = 0u8;
    if v6 {
        flags |= 0x80;
    }
    if narrow_asn {
        flags |= 0x20;
    }
    b.push(flags);
    push_u32(&mut b, 0x11223344);  // distinguisher, high half
    push_u32(&mut b, 0x55667788);  // distinguisher, low half
    if v6 {
        b.extend_from_slice(&[0xfd, 0, 0, 0, 0, 0, 0, 0, 0, 0, 0, 0]);
        push_u32(&mut b, addr_tail);
    } else {
        b.extend_from_slice(&[0x07u8; 12]);  // nonzero padding must be skipped
        push_u32(&mut b, addr_tail);
    }
    if narrow_asn {
        b.extend_from_slice(&[0, 0]);
        push_u16(&mut b, 64512);
    } else {
        push_u32(&mut b, 395_000);
    }
    push_u32(&mut b, bgp_id);
    push_u32(&mut b, 1_700_000_000);  // timestamp seconds
    push_u32(&mut b, 250_000);  // timestamp microseconds
    b
}

fn tlv(code: u16, value: &str) -> Vec<u8> {
    let mut b = Vec::new();
    push_u16(&mut b, code);
    push_u16(&mut b, value.len() as u16);
    b.extend_from_slice(value.as_bytes());
    b
}

/// A minimal BGP envelope: 16 marker bytes, a 2-byte length and the
/// type byte.
fn bgp_envelope(length: u16, record_type: u8) -> Vec<u8> {
    let mut b = vec![0xffu8; 16];
    push_u16(&mut b, length);
    b.push(record_type);
    b
}

/// A minimal BGP OPEN body: version, ASN, hold timer, router id, and
/// no optional parameters.
fn bgp_open_body() -> Vec<u8> {
    let mut b = vec![4u8];
    push_u16(&mut b, 65001);
    push_u16(&mut b, 90);
    push_u32(&mut b, 0x0a000001);
    b.push(0);
    b
}

fn peer_up_body(v6: bool, with_opens: bool) -> Vec<u8> {
    let mut body = peer_header_bytes(v6, false, 0x0a00002a, 0x0a0000fe);
    if v6 {
        body.extend_from_slice(&[0xfd, 0, 0, 0, 0, 0, 0, 0, 0, 0, 0, 0]);
        push_u32(&mut body, 9);
    } else {
        body.extend_from_slice(&[0u8; 12]);
        push_u32(&mut body, 0x0a000063);
    }
    push_u16(&mut body, 179);
    push_u16(&mut body, 40000);
    if with_opens {
        let open = bgp_open_body();
        for _ in 0..2 {
            body.extend_from_slice(&bgp_envelope((19 + open.len()) as u16, 1));
            body.extend_from_slice(&open);
        }
    }
    body
}

#[test]
fn peer_header_v4_skips_twelve_padding_bytes() {
    let body = peer_header_bytes(false, false, 0xc0a80001, 5);
    let mut decoder = Decoder::new(PeerKeying::ByAddress, 0);
    // Wrap it in a PeerUp body so it runs through the real dispatch.
    let mut full = body.clone();
    full.extend_from_slice(&[0u8; 12]);
    push_u32(&mut full, 1);
    push_u16(&mut full, 179);
    push_u16(&mut full, 12345);
    let h = header(3, 3, full.len());
    let msg = decoder.decode(&h, full).unwrap();
    match msg.message {
        MessageData::PeerUp(b) => {
            let ph = b.0;
            // The 0x07 padding bytes are consumed and ignored; the
            // address is exactly the last four bytes of the field.
            assert_eq!(ph.peer_addr, PeerAddress::V4(0xc0a80001));
            assert!(!ph.peer_flags.V);
            assert_eq!(ph.peer_asn, 395_000);
            assert_eq!(ph.peer_bgp_id, 5);
            assert_eq!(ph.peer_distinguisher.high, 0x11223344);
            assert_eq!(ph.peer_distinguisher.low, 0x55667788);
            assert_eq!(ph.timestamp, 1_700_000_000);
            assert_eq!(ph.timestamp_ms, 250_000);
        },
        _ => panic!("expected a PeerUp body"),
    }
}

#[test]
fn peer_header_v6_takes_sixteen_address_bytes() {
    let body = peer_up_body(true, false);
    let mut decoder = Decoder::new(PeerKeying::ByAddress, 0);
    let h = header(3, 3, body.len());
    let msg = decoder.decode(&h, body).unwrap();
    match msg.message {
        MessageData::PeerUp(b) => {
            let expected: u128 = (0xfdu128 << 120) | 0x0a00002a;
            assert_eq!(b.0.peer_addr, PeerAddress::V6(expected));
            assert!(b.0.peer_flags.V);
        },
        _ => panic!("expected a PeerUp body"),
    }
}

#[test]
fn peer_header_narrow_asn_reads_two_bytes_after_padding() {
    let mut body = peer_header_bytes(false, true, 1, 2);
    body.extend_from_slice(&[0u8; 12]);
    push_u32(&mut body, 1);
    push_u16(&mut body, 179);
    push_u16(&mut body, 1);
    let mut decoder = Decoder::new(PeerKeying::ByAddress, 0);
    let h = header(3, 3, body.len());
    let msg = decoder.decode(&h, body).unwrap();
    match msg.message {
        MessageData::PeerUp(b) => {
            assert!(b.0.peer_flags.A);
            assert_eq!(b.0.peer_asn, 64512);
        },
        _ => panic!("expected a PeerUp body"),
    }
}

#[test]
fn truncated_peer_header_is_malformed_body() {
    let body = peer_header_bytes(false, false, 1, 2)[..30].to_vec();
    let mut decoder = Decoder::new(PeerKeying::ByAddress, 0);
    let h = header(3, 3, body.len());
    let r = decoder.decode(&h, body);
    assert_eq!(
        r.unwrap_err(),
        Error::MalformedBody { kind: Some(MessageKind::PeerUp), peer: None, offset: 0 },
    );
}

#[test]
fn peer_up_without_open_capture_is_valid() {
    // A body that ends right after the remote port: both captured
    // OPENs absent, no TLVs, and no error.
    let body = peer_up_body(false, false);
    let mut decoder = Decoder::new(PeerKeying::ByAddress, 0);
    let h = header(3, 3, body.len());
    let msg = decoder.decode(&h, body).unwrap();
    match msg.message {
        MessageData::PeerUp(b) => {
            let up = b.1;
            assert_eq!(up.local_addr, PeerAddress::V4(0x0a000063));
            assert_eq!(up.local_port, 179);
            assert_eq!(up.remote_port, 40000);
            assert!(up.sent_open.is_none());
            assert!(up.recv_open.is_none());
            assert!(up.information.is_empty());
        },
        _ => panic!("expected a PeerUp body"),
    }
}

#[test]
fn peer_up_with_open_capture_records_capabilities() {
    let body = peer_up_body(false, true);
    let mut decoder = Decoder::new(PeerKeying::ByAddress, 0);
    assert_eq!(decoder.capabilities.len(), 0);
    let h = header(3, 3, body.len());
    let msg = decoder.decode(&h, body).unwrap();
    match msg.message {
        MessageData::PeerUp(b) => {
            assert!(b.1.sent_open.is_some());
            assert!(b.1.recv_open.is_some());
            assert_eq!(b.1.sent_open.as_ref().unwrap().peer_asn, 65001);
        },
        _ => panic!("expected a PeerUp body"),
    }
    assert_eq!(decoder.capabilities.len(), 1);
    let key = PeerId::Address(PeerAddress::V4(0x0a00002a));
    assert!(decoder.capabilities.contains_key(&key));
}

#[test]
fn first_peer_up_wins_and_is_never_overwritten() {
    let body = peer_up_body(false, true);
    let mut decoder = Decoder::new(PeerKeying::ByAddress, 0);
    let h = header(3, 3, body.len());
    decoder.decode(&h, body.clone()).unwrap();
    decoder.decode(&h, body).unwrap();
    assert_eq!(decoder.capabilities.len(), 1);
}

#[test]
fn peer_up_envelope_with_wrong_discriminant_is_recoverable() {
    // The embedded envelope declares a NOTIFICATION (type 3) instead of
    // an OPEN: a body-decode error, never a crash.
    let mut body = peer_up_body(false, false);
    let open = bgp_open_body();
    body.extend_from_slice(&bgp_envelope((19 + open.len()) as u16, 3));
    body.extend_from_slice(&open);
    let mut decoder = Decoder::new(PeerKeying::ByAddress, 0);
    let h = header(3, 3, body.len());
    let r = decoder.decode(&h, body);
    assert!(matches!(r.unwrap_err(), Error::MalformedBody { .. }));
    assert_eq!(decoder.capabilities.len(), 0);
}

#[test]
fn peer_up_trailing_tlvs_are_decoded() {
    let mut body = peer_up_body(false, true);
    body.extend_from_slice(&tlv(2, "edge-router-7"));
    let mut decoder = Decoder::new(PeerKeying::ByAddress, 0);
    let h = header(3, 3, body.len());
    let msg = decoder.decode(&h, body).unwrap();
    match msg.message {
        MessageData::PeerUp(b) => {
            assert_eq!(b.1.information.len(), 1);
            assert_eq!(b.1.information[0].information_type, InformationType::SysName);
            assert_eq!(b.1.information[0].value, "edge-router-7");
        },
        _ => panic!("expected a PeerUp body"),
    }
}

#[test]
fn initiation_tlvs_decode_in_order() {
    let mut body = tlv(1, "monitoring station");
    body.extend_from_slice(&tlv(2, "rtr1"));
    let mut decoder = Decoder::new(PeerKeying::ByAddress, 0);
    let h = header(3, 4, body.len());
    let msg = decoder.decode(&h, body).unwrap();
    match msg.message {
        MessageData::Initiation(tlvs) => {
            assert_eq!(tlvs.len(), 2);
            assert_eq!(tlvs[0].information_type, InformationType::SysDescr);
            assert_eq!(tlvs[0].value, "monitoring station");
            assert_eq!(tlvs[1].information_type, InformationType::SysName);
            assert_eq!(tlvs[1].value, "rtr1");
        },
        _ => panic!("expected an Initiation body"),
    }
}

#[test]
fn initiation_stops_at_unrecognized_type_code() {
    // A TLV with type code 9 stops decoding without an error; the one
    // before it is kept.
    let mut body = tlv(0, "hello");
    body.extend_from_slice(&tlv(9, "future data"));
    let mut decoder = Decoder::new(PeerKeying::ByAddress, 0);
    let h = header(3, 4, body.len());
    let msg = decoder.decode(&h, body).unwrap();
    match msg.message {
        MessageData::Initiation(tlvs) => {
            assert_eq!(tlvs.len(), 1);
            assert_eq!(tlvs[0].information_type, InformationType::FreeformString);
            assert_eq!(tlvs[0].value, "hello");
        },
        _ => panic!("expected an Initiation body"),
    }
}

#[test]
fn tlv_with_zero_length_is_an_empty_string() {
    let body = tlv(0, "");
    let mut decoder = Decoder::new(PeerKeying::ByAddress, 0);
    let h = header(3, 4, body.len());
    let msg = decoder.decode(&h, body).unwrap();
    match msg.message {
        MessageData::Initiation(tlvs) => {
            assert_eq!(tlvs.len(), 1);
            assert_eq!(tlvs[0].value, "");
        },
        _ => panic!("expected an Initiation body"),
    }
}

#[test]
fn tlv_with_multi_byte_length_round_trips() {
    // A value longer than 255 bytes exercises both bytes of the
    // declared length.
    let long = "y".repeat(300);
    let body = tlv(0, &long);
    assert_eq!(body.len(), 304);
    let mut decoder = Decoder::new(PeerKeying::ByAddress, 0);
    let h = header(3, 4, body.len());
    let msg = decoder.decode(&h, body).unwrap();
    match msg.message {
        MessageData::Initiation(tlvs) => {
            assert_eq!(tlvs.len(), 1);
            assert_eq!(tlvs[0].value.len(), 300);
            assert_eq!(tlvs[0].value, long);
        },
        _ => panic!("expected an Initiation body"),
    }
}

#[test]
fn tlv_length_overrun_is_malformed_body() {
    // Declared value length 9 with only one byte present.
    let mut body = Vec::new();
    push_u16(&mut body, 0);
    push_u16(&mut body, 9);
    body.push(b'x');
    let mut decoder = Decoder::new(PeerKeying::ByAddress, 0);
    let h = header(3, 4, body.len());
    let r = decoder.decode(&h, body);
    assert_eq!(
        r.unwrap_err(),
        Error::MalformedBody { kind: Some(MessageKind::Initiation), peer: None, offset: 0 },
    );
}

#[test]
fn tlv_with_invalid_utf8_is_malformed_body() {
    let mut body = Vec::new();
    push_u16(&mut body, 0);
    push_u16(&mut body, 2);
    body.extend_from_slice(&[0xff, 0xfe]);
    let mut decoder = Decoder::new(PeerKeying::ByAddress, 0);
    let h = header(3, 4, body.len());
    let r = decoder.decode(&h, body);
    assert_eq!(
        r.unwrap_err(),
        Error::MalformedBody { kind: Some(MessageKind::Initiation), peer: None, offset: 0 },
    );
}

/// A route-monitoring body: peer header, BGP envelope declaring an
/// UPDATE of `length` bytes, then the update's own bytes.
fn route_monitoring_body(update: &[u8]) -> Vec<u8> {
    let mut body = peer_header_bytes(false, false, 0x0a00002a, 7);
    body.extend_from_slice(&bgp_envelope((19 + update.len()) as u16, 2));
    body.extend_from_slice(update);
    body
}

#[test]
fn mp_reach_unicast_update_parses() {
    let mut decoder = Decoder::new(PeerKeying::ByAddress, 0);
    let up = peer_up_body(false, true);
    let h_up = header(3, 3, up.len());
    decoder.decode(&h_up, up).unwrap();

    // One multiprotocol announce: IPv4 unicast, a 4-byte next hop, and
    // a single /8 prefix.
    let mut update = Vec::new();
    push_u16(&mut update, 0);  // no withdrawn routes
    push_u16(&mut update, 14);  // attribute block length
    update.extend_from_slice(&[0x80, 14, 11]);  // optional attr, code 14, 11 bytes
    push_u16(&mut update, 1);  // afi: IPv4
    update.push(1);  // safi: unicast
    update.push(4);  // next-hop length
    update.extend_from_slice(&[10, 0, 0, 1]);
    update.push(0);  // reserved
    update.extend_from_slice(&[8, 10]);  // one /8 prefix

    let body = route_monitoring_body(&update);
    let h = header(3, 0, body.len());
    let msg = decoder.decode(&h, body).unwrap();
    assert_eq!(msg.kind, MessageKind::RouteMonitoring);
    assert_eq!(decoder.failures, 0);
}

#[test]
fn mpls_update_shape_is_rejected_not_parsed() {
    let mut decoder = Decoder::new(PeerKeying::ByAddress, 0);
    let up = peer_up_body(false, true);
    let h_up = header(3, 3, up.len());
    decoder.decode(&h_up, up).unwrap();

    // A multiprotocol announce declaring the MPLS subsequent family
    // with a short prefix bit-length: the outside parser cannot survive
    // this shape, so it must surface as a malformed body, annotated
    // with the kind and the peer, and spend the failure budget.
    let mut update = Vec::new();
    push_u16(&mut update, 0);
    push_u16(&mut update, 11);
    update.extend_from_slice(&[0x80, 14, 8]);
    push_u16(&mut update, 1);  // afi: IPv4
    update.push(4);  // safi: MPLS
    update.push(0);  // next-hop length
    update.push(0);  // reserved
    update.extend_from_slice(&[8, 0, 0]);  // prefix bit-length 8

    let body = route_monitoring_body(&update);
    let h = header(3, 0, body.len());
    let r = decoder.decode(&h, body);
    assert_eq!(
        r.unwrap_err(),
        Error::MalformedBody {
            kind: Some(MessageKind::RouteMonitoring),
            peer: Some(PeerId::Address(PeerAddress::V4(0x0a00002a))),
            offset: 61,
        },
    );
    assert_eq!(decoder.failures, 1);
}

#[test]
fn attribute_set_update_is_rejected_not_parsed() {
    let mut decoder = Decoder::new(PeerKeying::ByAddress, 0);
    let up = peer_up_body(false, true);
    let h_up = header(3, 3, up.len());
    decoder.decode(&h_up, up).unwrap();

    // An attribute-set attribute nests further attributes; the outside
    // parser recurses on peer-chosen depth there, so the shape is
    // rejected as malformed.
    let mut update = Vec::new();
    push_u16(&mut update, 0);
    push_u16(&mut update, 8);
    update.extend_from_slice(&[0xc0, 128, 5]);
    push_u32(&mut update, 65001);  // the set's origin ASN
    update.push(0);

    let body = route_monitoring_body(&update);
    let h = header(3, 0, body.len());
    let r = decoder.decode(&h, body);
    assert!(matches!(r.unwrap_err(), Error::MalformedBody { .. }));
    assert_eq!(decoder.failures, 1);
}

#[test]
fn route_monitoring_before_peer_up_is_missing_capabilities() {
    let mut body = peer_header_bytes(false, false, 0x0a00002a, 7);
    // Any update payload; it is never reached.
    body.extend_from_slice(&[0u8; 23]);
    let mut decoder = Decoder::new(PeerKeying::ByAddress, 0);
    let h = header(3, 0, body.len());
    let r = decoder.decode(&h, body);
    assert_eq!(
        r.unwrap_err(),
        Error::MissingCapabilities { peer: PeerId::Address(PeerAddress::V4(0x0a00002a)) },
    );
    // No default capability set may appear as a side effect.
    assert_eq!(decoder.capabilities.len(), 0);
}

#[test]
fn route_monitoring_after_peer_up_decodes() {
    let mut decoder = Decoder::new(PeerKeying::ByAddress, 0);
    let up = peer_up_body(false, true);
    let h_up = header(3, 3, up.len());
    decoder.decode(&h_up, up).unwrap();

    // A minimal UPDATE: envelope declaring 23 bytes, then an empty
    // withdrawn-routes block and an empty attribute block.
    let mut body = peer_header_bytes(false, false, 0x0a00002a, 7);
    body.extend_from_slice(&bgp_envelope(23, 2));
    body.extend_from_slice(&[0, 0, 0, 0]);
    let h = header(3, 0, body.len());
    let msg = decoder.decode(&h, body).unwrap();
    assert_eq!(msg.kind, MessageKind::RouteMonitoring);
    match msg.message {
        MessageData::RouteMonitoring(b) => {
            assert_eq!(b.0.peer_addr, PeerAddress::V4(0x0a00002a));
            assert!(b.1.withdrawn_routes.is_empty());
            assert!(b.1.announced_routes.is_empty());
        },
        _ => panic!("expected a RouteMonitoring body"),
    }
    assert_eq!(decoder.failures, 0);
}

#[test]
fn malformed_update_spends_the_tolerance_budget() {
    let mut decoder = Decoder::new(PeerKeying::ByAddress, 1);
    let up = peer_up_body(false, true);
    let h_up = header(3, 3, up.len());
    decoder.decode(&h_up, up).unwrap();

    // An envelope declaring fewer than the 23 bytes every UPDATE needs.
    let mut body = peer_header_bytes(false, false, 0x0a00002a, 7);
    body.extend_from_slice(&bgp_envelope(10, 2));
    body.extend_from_slice(&[0, 0, 0, 0]);
    let h = header(3, 0, body.len());

    assert!(!decoder.budget_exhausted());
    let r1 = decoder.decode(&h, body.clone());
    assert!(matches!(r1.unwrap_err(), Error::MalformedBody { .. }));
    assert_eq!(decoder.failures, 1);
    assert!(!decoder.budget_exhausted());

    let r2 = decoder.decode(&h, body);
    assert!(matches!(r2.unwrap_err(), Error::MalformedBody { .. }));
    assert_eq!(decoder.failures, 2);
    assert!(decoder.budget_exhausted());
}

#[test]
fn router_id_keying_uses_the_bgp_identifier() {
    let mut decoder = Decoder::new(PeerKeying::ByRouterId, 0);
    let up = peer_up_body(false, true);
    let h_up = header(3, 3, up.len());
    decoder.decode(&h_up, up).unwrap();
    assert!(decoder.capabilities.contains_key(&PeerId::RouterId(0x0a0000fe)));
    assert!(!decoder.capabilities.contains_key(&PeerId::Address(PeerAddress::V4(0x0a00002a))));
}
