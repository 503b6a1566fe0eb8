use bmp_client::{
    BgpOpen, CapabilityStore, Error, InformationType, MessageKind, OpenParameter, PeerAddress,
    PeerFlags, PeerId, PeerType,
};
use bmp_client::bytes::Cursor;

fn push_u16(v: &mut Vec<u8>, x: u16) {
    v.extend_from_slice(&x.to_be_bytes());
}

fn push_u32(v: &mut Vec<u8>, x: u32) {
    v.extend_from_slice(&x.to_be_bytes());
}

#[test]
fn message_kind_codes_map_both_ways() {
    let pairs = [
        (0u8, MessageKind::RouteMonitoring),
        (1, MessageKind::StatisticsReport),
        (2, MessageKind::PeerDown),
        (3, MessageKind::PeerUp),
        (4, MessageKind::Initiation),
        (5, MessageKind::Termination),
        (6, MessageKind::RouteMirroring),
        (9, MessageKind::Unknown(9)),
    ];
    for (code, kind) in pairs {
        assert_eq!(MessageKind::from(code), kind);
        assert_eq!(kind.code(), code);
    }
}

#[test]
fn peer_type_codes_map_both_ways() {
    assert_eq!(PeerType::from(0u8), PeerType::GlobalInstance);
    assert_eq!(PeerType::from(1u8), PeerType::RdInstance);
    assert_eq!(PeerType::from(2u8), PeerType::LocalInstance);
    assert_eq!(PeerType::from(7u8), PeerType::Unknown(7));
    assert_eq!(PeerType::LocalInstance.code(), 2);
}

#[test]
fn information_type_codes_map_both_ways() {
    assert_eq!(InformationType::from(0u16), InformationType::FreeformString);
    assert_eq!(InformationType::from(1u16), InformationType::SysDescr);
    assert_eq!(InformationType::from(2u16), InformationType::SysName);
    assert_eq!(InformationType::from(700u16), InformationType::Unknown(700));
    assert_eq!(InformationType::SysDescr.code(), 1);
}

#[test]
fn peer_flags_read_the_top_three_bits() {
    let f = PeerFlags::from(0b1110_0000u8);
    assert!(f.V && f.L && f.A);
    let f = PeerFlags::from(0b1000_0000u8);
    assert!(f.V && !f.L && !f.A);
    let f = PeerFlags::from(0b0100_0000u8);
    assert!(!f.V && f.L && !f.A);
    let f = PeerFlags::from(0b0010_0000u8);
    assert!(!f.V && !f.L && f.A);
    let f = PeerFlags::from(0b0001_1111u8);
    assert!(!f.V && !f.L && !f.A);
}

#[test]
fn kind_names_match_the_wire_vocabulary() {
    assert_eq!(MessageKind::RouteMonitoring.name(), "route_monitoring");
    assert_eq!(MessageKind::StatisticsReport.name(), "statistics_report");
    assert_eq!(MessageKind::PeerUp.name(), "peer_up");
    assert_eq!(MessageKind::PeerDown.name(), "peer_down");
    assert_eq!(MessageKind::Initiation.name(), "initiation");
    assert_eq!(MessageKind::Termination.name(), "termination");
    assert_eq!(MessageKind::RouteMirroring.name(), "route_mirroring");
    assert_eq!(MessageKind::Unknown(9).name(), "unknown");
    assert_eq!(PeerType::GlobalInstance.name(), "global");
    assert_eq!(PeerType::RdInstance.name(), "rd");
    assert_eq!(PeerType::LocalInstance.name(), "local");
    assert_eq!(InformationType::FreeformString.name(), "string");
    assert_eq!(InformationType::SysDescr.name(), "sys_descr");
    assert_eq!(InformationType::SysName.name(), "sys_name");
}

#[test]
fn error_descriptions_name_the_failure() {
    assert_eq!(Error::Disconnected.describe(), "peer disconnected");
    assert_eq!(Error::Truncated.describe(), "truncated frame or transport failure");
    assert_eq!(
        (Error::MalformedBody { kind: Some(MessageKind::Initiation), peer: None, offset: 4 })
            .describe(),
        "malformed message body",
    );
    assert_eq!(
        (Error::MissingCapabilities { peer: PeerId::RouterId(1) }).describe(),
        "no capabilities recorded for peer",
    );
}

#[test]
fn capability_store_lookup_and_first_insert_wins() {
    let mut store = CapabilityStore::new();
    let a = PeerId::Address(PeerAddress::V4(1));
    let b = PeerId::RouterId(1);
    assert_eq!(store.len(), 0);
    assert!(!store.contains_key(&a));
    assert!(store.lookup(&a).is_none());

    store.insert_if_absent(a, bgp_rs::Capabilities::default());
    assert_eq!(store.len(), 1);
    assert!(store.contains_key(&a));
    assert!(store.lookup(&a).is_some());
    assert!(!store.contains_key(&b));

    // An address key and a router-id key never collide, even over the
    // same numeric value.
    store.insert_if_absent(b, bgp_rs::Capabilities::default());
    assert_eq!(store.len(), 2);

    // A second insert for a present key changes nothing.
    store.insert_if_absent(a, bgp_rs::Capabilities::default());
    assert_eq!(store.len(), 2);
}

#[test]
fn bgp_open_decodes_with_envelope() {
    let mut b = vec![0xffu8; 16];
    push_u16(&mut b, 29);
    b.push(1);
    b.push(4);
    push_u16(&mut b, 65001);
    push_u16(&mut b, 180);
    push_u32(&mut b, 0x01020304);
    b.push(0);
    let mut cur = Cursor::new(b);
    let open = BgpOpen::decode(&mut cur).unwrap();
    assert_eq!(open.version, 4);
    assert_eq!(open.peer_asn, 65001);
    assert_eq!(open.hold_timer, 180);
    assert_eq!(open.peer_rid, 0x01020304);
    assert!(open.parameters.is_empty());
}

#[test]
fn bgp_open_decodes_without_envelope() {
    let mut b = vec![4u8];
    push_u16(&mut b, 64512);
    push_u16(&mut b, 90);
    push_u32(&mut b, 0x0a000001);
    b.push(10);  // ten bytes of optional parameters follow
    b.push(2);  // parameter type: capabilities
    b.push(2);  // parameter length
    b.extend_from_slice(&[0x41, 0x04]);
    b.push(1);  // second parameter, type 1
    b.push(4);  // parameter length
    b.extend_from_slice(&[9, 8, 7, 6]);
    let mut cur = Cursor::new(b);
    let open = BgpOpen::decode(&mut cur).unwrap();
    assert_eq!(open.peer_asn, 64512);
    assert_eq!(open.parameters.len(), 2);
    assert_eq!(open.parameters[0].param_type, 2);
    assert_eq!(open.parameters[0].param_length, 2);
    assert_eq!(open.parameters[0].value, vec![0x41, 0x04]);
    assert_eq!(open.parameters[1].param_type, 1);
    assert_eq!(open.parameters[1].value, vec![9, 8, 7, 6]);
}

#[test]
fn bgp_open_envelope_must_declare_an_open() {
    let mut b = vec![0xffu8; 16];
    push_u16(&mut b, 23);
    b.push(2);  // an UPDATE envelope where an OPEN is expected
    b.extend_from_slice(&[4, 0, 1, 0, 90, 1, 2, 3, 4, 0]);
    let mut cur = Cursor::new(b);
    let r = BgpOpen::decode(&mut cur);
    assert!(matches!(r.unwrap_err(), Error::MalformedBody { .. }));
}

#[test]
fn bgp_open_parameters_must_fit_their_declared_total() {
    let mut b = vec![4u8];
    push_u16(&mut b, 1);
    push_u16(&mut b, 90);
    push_u32(&mut b, 1);
    b.push(3);  // parameters claim three bytes in all
    b.push(1);  // one parameter of type 1 ...
    b.push(9);  // ... declaring nine value bytes: it overruns the total
    b.extend_from_slice(&[0u8; 9]);
    let mut cur = Cursor::new(b);
    let r = BgpOpen::decode(&mut cur);
    assert!(matches!(r.unwrap_err(), Error::MalformedBody { .. }));
}

#[test]
fn open_parameter_reports_its_full_width() {
    let b = vec![1u8, 3, 0xaa, 0xbb, 0xcc];
    let mut cur = Cursor::new(b);
    let (consumed, p) = OpenParameter::decode(&mut cur).unwrap();
    assert_eq!(consumed, 5);
    assert_eq!(p.param_type, 1);
    assert_eq!(p.param_length, 3);
    assert_eq!(p.value, vec![0xaa, 0xbb, 0xcc]);
    assert_eq!(cur.position(), 5);
}

#[test]
fn cursor_reads_are_big_endian_and_bounded() {
    let mut cur = Cursor::new(vec![0x01, 0x02, 0x03, 0x04, 0x05]);
    assert_eq!(cur.peek_u16_be(), Some(0x0102));
    assert_eq!(cur.read_u16_be(), Some(0x0102));
    assert_eq!(cur.read_u8(), Some(0x03));
    assert_eq!(cur.read_u32_be(), None);
    assert_eq!(cur.remaining(), 2);
    assert_eq!(cur.read_bytes(2), Some(vec![0x04, 0x05]));
    assert_eq!(cur.read_u8(), None);
}
