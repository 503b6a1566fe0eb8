use bmp_client::{next_frame, Error, MessageKind, PeerKeying};

fn push_u16(v: &mut Vec<u8>, x: u16) {
    v.extend_from_slice(&x.to_be_bytes());
}

fn push_u32(v: &mut Vec<u8>, x: u32) {
    v.extend_from_slice(&x.to_be_bytes());
}

fn frame(version: u8, kind: u8, body: &[u8]) -> Vec<u8> {
    let mut out = vec![version];
    push_u32(&mut out, (body.len() + 6) as u32);
    out.push(kind);
    out.extend_from_slice(body);
    out
}

#[test]
fn initiation_header_with_empty_body() {
    // Version 3, declared length 6, kind 4: an Initiation message with
    // no body bytes at all.
    let input = vec![0x03, 0x00, 0x00, 0x00, 0x06, 0x04];
    let (header, body, next) = next_frame(&input, 0).unwrap();
    assert_eq!(header.version, 3);
    assert_eq!(header.length, 6);
    assert_eq!(header.kind, MessageKind::Initiation);
    assert!(body.is_empty());
    assert_eq!(next, 6);

    let mut decoder = bmp_client::Decoder::new(PeerKeying::ByAddress, 0);
    let msg = decoder.decode(&header, body).unwrap();
    assert_eq!(msg.version, 3);
    assert_eq!(msg.kind, MessageKind::Initiation);
    match msg.message {
        bmp_client::MessageData::Initiation(tlvs) => assert!(tlvs.is_empty()),
        _ => panic!("expected an Initiation body"),
    }
}

#[test]
fn disconnect_is_clean_at_frame_boundary() {
    let input: Vec<u8> = frame(3, 5, &[]);
    let (_, _, next) = next_frame(&input, 0).unwrap();
    assert_eq!(next_frame(&input, next), Err(Error::Disconnected));
}

#[test]
fn short_header_is_truncated() {
    let input = vec![0x03, 0x00, 0x00];
    assert_eq!(next_frame(&input, 0), Err(Error::Truncated));
}

#[test]
fn declared_length_below_header_is_truncated() {
    // Declared total length 5 cannot even cover the 6 header bytes.
    let input = vec![0x03, 0x00, 0x00, 0x00, 0x05, 0x04];
    assert_eq!(next_frame(&input, 0), Err(Error::Truncated));
}

#[test]
fn short_body_is_truncated() {
    // Declared length 10 but only 2 body bytes follow.
    let input = vec![0x03, 0x00, 0x00, 0x00, 0x0a, 0x04, 0x01, 0x02];
    assert_eq!(next_frame(&input, 0), Err(Error::Truncated));
}

#[test]
fn frames_consume_exactly_their_declared_lengths() {
    // Three consecutive frames; the middle one has a body that will
    // fail body decoding (a TLV whose length overruns), but framing
    // must still consume exactly its declared length.
    let f1 = frame(3, 4, &[]);
    let f2 = frame(3, 4, &[0x00, 0x00, 0x00, 0x09, b'x']);
    let f3 = frame(3, 1, &[0xaa, 0xbb]);
    let mut input = Vec::new();
    input.extend_from_slice(&f1);
    input.extend_from_slice(&f2);
    input.extend_from_slice(&f3);

    let mut decoder = bmp_client::Decoder::new(PeerKeying::ByAddress, 0);
    let mut pos = 0usize;
    let mut consumed = Vec::new();
    for _ in 0..3 {
        let (header, body, next) = next_frame(&input, pos).unwrap();
        let declared = header.length as usize;
        assert_eq!(next - pos, declared);
        assert_eq!(body.len(), declared - 6);
        // Body decoding may fail; alignment is already fixed.
        let _ = decoder.decode(&header, body);
        consumed.push(declared);
        pos = next;
    }
    assert_eq!(pos, consumed.iter().sum::<usize>());
    assert_eq!(pos, input.len());
    assert_eq!(next_frame(&input, pos), Err(Error::Disconnected));
}

#[test]
fn unknown_kind_is_framed_and_unimplemented() {
    let input = frame(3, 0x63, &[1, 2, 3, 4]);
    let (header, body, next) = next_frame(&input, 0).unwrap();
    assert_eq!(header.kind, MessageKind::Unknown(0x63));
    assert_eq!(body, vec![1, 2, 3, 4]);
    assert_eq!(next, input.len());
    let mut decoder = bmp_client::Decoder::new(PeerKeying::ByAddress, 0);
    let msg = decoder.decode(&header, body).unwrap();
    assert!(matches!(msg.message, bmp_client::MessageData::Unimplemented));
}

#[test]
fn mismatched_body_length_is_truncated() {
    let input = frame(3, 5, &[1, 2, 3]);
    let (header, _, _) = next_frame(&input, 0).unwrap();
    let mut decoder = bmp_client::Decoder::new(PeerKeying::ByAddress, 0);
    let r = decoder.decode(&header, vec![1, 2]);
    assert_eq!(r.unwrap_err(), Error::Truncated);
}

#[test]
fn fatal_errors_are_exactly_framing_errors() {
    assert!(Error::Truncated.is_fatal());
    assert!(!Error::Disconnected.is_fatal());
    assert!(!(Error::MalformedBody { kind: None, peer: None, offset: 0 }).is_fatal());
}
