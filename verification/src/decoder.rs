use vstd::prelude::*;

use crate::bytes::{be_val, Cursor};
use crate::enums::{
    spec_flags_from_byte, spec_info_type_from_code, spec_kind_from_code, spec_peer_type_from_code,
    InformationType, MessageKind, PeerFlags, PeerType,
};
use crate::error::{malformed_with, Error};
use crate::messages::{BmpMessage, MessageData, PeerUp};
use crate::outside::{
    bgp_header_parse, bgp_open_parse, bgp_update_parse, capabilities_default, capabilities_of_open,
};
use crate::store::{spec_has_key, CapabilityStore};
use crate::types::{spec_identity, tlv_models, BmpModel, InformationTlv, MessageDataModel,
    PeerAddress, PeerHeader, PeerId, PeerKeying, PeerUpModel, RouteDistinguisher, TlvModel};
use vstd::utf8::{decode_utf8, valid_utf8};

verus! {

broadcast use vstd::utf8::decode_utf8_encode_utf8;

/// Parse of the fixed-width per-peer header at `pos`: peer type,
/// flags, distinguisher, address, ASN, router id and timestamp. Flag V
/// selects a 16-byte address or 12 bytes of padding before a 4-byte
/// address; flag A selects 2 reserved bytes before a 2-byte ASN or a
/// 4-byte ASN; so every field group is 42 bytes in all.
pub open spec fn spec_parse_peer_header(b: Seq<u8>, pos: int) -> Option<(PeerHeader, int)> {
    if 0 <= pos && pos + 42 <= b.len() {
        let flags = spec_flags_from_byte(b[pos + 1]);
        Some(
            (
                PeerHeader {
                    peer_type: spec_peer_type_from_code(b[pos]),
                    peer_flags: flags,
                    peer_distinguisher: RouteDistinguisher {
                        high: be_val(b.subrange(pos + 2, pos + 6)) as u32,
                        low: be_val(b.subrange(pos + 6, pos + 10)) as u32,
                    },
                    peer_addr: if flags.V {
                        PeerAddress::V6(be_val(b.subrange(pos + 10, pos + 26)) as u128)
                    } else {
                        PeerAddress::V4(be_val(b.subrange(pos + 22, pos + 26)) as u32)
                    },
                    peer_asn: if flags.A {
                        (be_val(b.subrange(pos + 28, pos + 30)) as u16) as u32
                    } else {
                        be_val(b.subrange(pos + 26, pos + 30)) as u32
                    },
                    peer_bgp_id: be_val(b.subrange(pos + 30, pos + 34)) as u32,
                    timestamp: be_val(b.subrange(pos + 34, pos + 38)) as u32,
                    timestamp_ms: be_val(b.subrange(pos + 38, pos + 42)) as u32,
                },
                pos + 42,
            ),
        )
    } else {
        None
    }
}

impl PeerHeader {
    /// Decode the per-peer header at the cursor. A short read here is a
    /// body-decode error, never a framing error: the framer has already
    /// isolated the exact body bytes.
    pub fn decode(cur: &mut Cursor) -> (r: Result<PeerHeader, Error>)
        requires
            old(cur).wf(),
        ensures
            final(cur).wf(),
            final(cur).data() == old(cur).data(),
            match spec_parse_peer_header(old(cur).data(), old(cur).pos()) {
                Some((h, end)) => r == Ok::<PeerHeader, Error>(h) && final(cur).pos() == end,
                None => r == Err::<PeerHeader, Error>(
                    (Error::MalformedBody { kind: None, peer: None, offset: old(cur).pos() as usize }),
                ) && *final(cur) == *old(cur),
            },
    {
        let start = cur.position();
        if cur.remaining() < 42 {
            return Err(Error::MalformedBody { kind: None, peer: None, offset: start });
        }
        let peer_type = PeerType::from_code(cur.read_u8().unwrap());
        let peer_flags = PeerFlags::from_byte(cur.read_u8().unwrap());
        let dist_high = cur.read_u32_be().unwrap();
        let dist_low = cur.read_u32_be().unwrap();
        let peer_addr = if peer_flags.V {
            PeerAddress::V6(cur.read_u128_be().unwrap())
        } else {
            let _padding = cur.read_bytes(12).unwrap();
            PeerAddress::V4(cur.read_u32_be().unwrap())
        };
        let peer_asn = if peer_flags.A {
            let _reserved = cur.read_bytes(2).unwrap();
            cur.read_u16_be().unwrap() as u32
        } else {
            cur.read_u32_be().unwrap()
        };
        let peer_bgp_id = cur.read_u32_be().unwrap();
        let timestamp = cur.read_u32_be().unwrap();
        let timestamp_ms = cur.read_u32_be().unwrap();
        Ok(
            PeerHeader {
                peer_type,
                peer_flags,
                peer_distinguisher: RouteDistinguisher { high: dist_high, low: dist_low },
                peer_addr,
                peer_asn,
                peer_bgp_id,
                timestamp,
                timestamp_ms,
            },
        )
    }
}

/// Parse of one information TLV at `pos`: a 2-byte type code, a 2-byte
/// length, and exactly that many value bytes. A declared length that
/// overruns the remaining bytes is a parse failure, never an
/// out-of-bounds read.
pub open spec fn spec_parse_tlv(b: Seq<u8>, pos: int) -> Option<(TlvModel, int)> {
    if 0 <= pos && pos + 4 <= b.len() {
        let t = be_val(b.subrange(pos, pos + 2)) as u16;
        let l = (be_val(b.subrange(pos + 2, pos + 4)) as u16) as int;
        if pos + 4 + l <= b.len() {
            Some(
                (
                    TlvModel {
                        information_type: spec_info_type_from_code(t),
                        value: b.subrange(pos + 4, pos + 4 + l),
                    },
                    pos + 4 + l,
                ),
            )
        } else {
            None
        }
    } else {
        None
    }
}

impl InformationTlv {
    /// Decode one information TLV at the cursor. The value must be
    /// valid UTF-8 of exactly the declared length; a length of zero
    /// yields an empty string, not an error.
    pub fn decode(cur: &mut Cursor) -> (r: Result<InformationTlv, Error>)
        requires
            old(cur).wf(),
        ensures
            final(cur).wf(),
            final(cur).data() == old(cur).data(),
            match spec_parse_tlv(old(cur).data(), old(cur).pos()) {
                Some((t, end)) => {
                    &&& valid_utf8(t.value) ==> r is Ok && r->Ok_0@ == t && final(cur).pos() == end
                    &&& !valid_utf8(t.value) ==> r == Err::<InformationTlv, Error>(
                        (Error::MalformedBody { kind: None, peer: None, offset: old(cur).pos() as usize }),
                    )
                },
                None => r == Err::<InformationTlv, Error>(
                    (Error::MalformedBody { kind: None, peer: None, offset: old(cur).pos() as usize }),
                ),
            },
    {
        let start = cur.position();
        let type_code = match cur.read_u16_be() {
            Some(v) => v,
            None => {
                return Err(Error::MalformedBody { kind: None, peer: None, offset: start });
            },
        };
        let len = match cur.read_u16_be() {
            Some(v) => v,
            None => {
                return Err(Error::MalformedBody { kind: None, peer: None, offset: start });
            },
        };
        let val_buf = match cur.read_bytes(len as usize) {
            Some(v) => v,
            None => {
                return Err(Error::MalformedBody { kind: None, peer: None, offset: start });
            },
        };
        let ghost value_bytes = val_buf@;
        let value = match crate::outside::string_from_utf8(val_buf) {
            Some(s) => s,
            None => {
                return Err(Error::MalformedBody { kind: None, peer: None, offset: start });
            },
        };
        let tlv = InformationTlv {
            information_type: InformationType::from_code(type_code),
            value,
        };
        proof {
            assert(vstd::utf8::encode_utf8(decode_utf8(value_bytes)) == value_bytes);
            assert(tlv@ =~= spec_parse_tlv(old(cur).data(), start as int)->Some_0.0);
        }
        Ok(tlv)
    }
}

/// Parse of a run of information TLVs that must fill the bytes from
/// `pos` to the very end.
pub open spec fn spec_parse_tlv_list(b: Seq<u8>, pos: int) -> Option<Seq<TlvModel>>
    decreases b.len() - pos,
{
    if pos < 0 || pos > b.len() {
        None
    } else if pos == b.len() {
        Some(Seq::empty())
    } else {
        match spec_parse_tlv(b, pos) {
            None => None,
            Some((t, p2)) => match spec_parse_tlv_list(b, p2) {
                None => None,
                Some(rest) => Some(seq![t] + rest),
            },
        }
    }
}

/// Every TLV value in the run is valid UTF-8.
pub open spec fn tlvs_utf8_ok(l: Seq<TlvModel>) -> bool {
    forall|i: int| 0 <= i < l.len() ==> valid_utf8(#[trigger] l[i].value)
}

/// Decode information TLVs until the body end is reached exactly.
pub(crate) fn decode_tlv_list(cur: &mut Cursor) -> (r: Result<Vec<InformationTlv>, Error>)
    requires
        old(cur).wf(),
    ensures
        final(cur).wf(),
        final(cur).data() == old(cur).data(),
        match spec_parse_tlv_list(old(cur).data(), old(cur).pos()) {
            None => r is Err && r->Err_0 is MalformedBody,
            Some(list) => {
                &&& tlvs_utf8_ok(list) ==> r is Ok && tlv_models(r->Ok_0@) == list
                    && final(cur).pos() == old(cur).data().len()
                &&& !tlvs_utf8_ok(list) ==> r is Err && r->Err_0 is MalformedBody
            },
        },
{
    let ghost data = old(cur).data();
    let ghost pos0 = old(cur).pos();
    let mut out: Vec<InformationTlv> = Vec::new();
    proof {
        assert(tlv_models(out@) =~= Seq::<TlvModel>::empty());
    }
    while cur.remaining() > 0
        invariant
            cur.wf(),
            data == old(cur).data(),
            pos0 == old(cur).pos(),
            cur.data() == data,
            tlvs_utf8_ok(tlv_models(out@)),
            match spec_parse_tlv_list(data, cur.pos()) {
                None => spec_parse_tlv_list(data, pos0) is None,
                Some(rest) => spec_parse_tlv_list(data, pos0) == Some(tlv_models(out@) + rest),
            },
        decreases data.len() - cur.pos(),
    {
        let ghost p = cur.pos();
        let tlv = match InformationTlv::decode(cur) {
            Ok(t) => t,
            Err(e) => {
                proof {
                    if spec_parse_tlv(data, p) is Some {
                        let (t, p2) = spec_parse_tlv(data, p)->Some_0;
                        if spec_parse_tlv_list(data, p) is Some {
                            let total = spec_parse_tlv_list(data, pos0)->Some_0;
                            assert(!valid_utf8(t.value));
                            assert(spec_parse_tlv_list(data, p)->Some_0[0] == t);
                            assert(total[tlv_models(out@).len() as int] == t);
                            assert(!tlvs_utf8_ok(total));
                        }
                    }
                }
                return Err(e);
            },
        };
        let ghost p2 = cur.pos();
        proof {
            let t = spec_parse_tlv(data, p)->Some_0.0;
            assert(tlv_models(out@.push(tlv)) =~= tlv_models(out@).push(t));
            if spec_parse_tlv_list(data, p2) is Some {
                let rest2 = spec_parse_tlv_list(data, p2)->Some_0;
                assert(spec_parse_tlv_list(data, p) == Some(seq![t] + rest2));
                assert(tlv_models(out@) + (seq![t] + rest2) =~= tlv_models(out@).push(t) + rest2);
            }
        }
        out.push(tlv);
    }
    proof {
        assert(spec_parse_tlv_list(data, cur.pos()) == Some(Seq::<TlvModel>::empty()));
        assert(tlv_models(out@) + Seq::<TlvModel>::empty() =~= tlv_models(out@));
    }
    Ok(out)
}

/// Parse of the fixed-width leading fields of a PeerUp body at `pos`:
/// local address (16 bytes, or 12 bytes of padding before 4 under flag
/// V clear), local port and remote port.
pub open spec fn spec_parse_peer_up_prefix(v_flag: bool, b: Seq<u8>, pos: int) -> Option<
    (PeerAddress, u16, u16, int),
> {
    if 0 <= pos && pos + 20 <= b.len() {
        Some(
            (
                if v_flag {
                    PeerAddress::V6(be_val(b.subrange(pos, pos + 16)) as u128)
                } else {
                    PeerAddress::V4(be_val(b.subrange(pos + 12, pos + 16)) as u32)
                },
                be_val(b.subrange(pos + 16, pos + 18)) as u16,
                be_val(b.subrange(pos + 18, pos + 20)) as u16,
                pos + 20,
            ),
        )
    } else {
        None
    }
}

/// End position of the two captured OPEN envelopes at `p2`: each is a
/// 19-byte BGP header whose discriminant byte must declare an OPEN
/// (type 1), followed by the OPEN body as the outside parser reads it.
/// Nothing here names an end past the buffer: the outside parser never
/// consumes beyond it.
pub open spec fn spec_parse_captures(b: Seq<u8>, p2: int) -> Option<int> {
    if p2 + 19 <= b.len() && b[p2 + 18] == 1 {
        match crate::outside::open_parse_at(b, p2 + 19) {
            None => None,
            Some(e1) => if e1 + 19 <= b.len() && b[e1 + 18] == 1 {
                match crate::outside::open_parse_at(b, e1 + 19) {
                    None => None,
                    Some(e2) => Some(e2),
                }
            } else {
                None
            },
        }
    } else {
        None
    }
}

/// The outcome of decoding a PeerUp body whose bytes start at `p1`:
/// the decoded model, or nothing where the body is malformed. A body
/// ending right after the remote port carries no OPEN capture and no
/// TLVs; a longer body must carry exactly two OPEN envelopes and then
/// TLVs that fill the body to its end with valid UTF-8 values.
pub open spec fn spec_decode_peer_up(v_flag: bool, b: Seq<u8>, p1: int) -> Option<PeerUpModel> {
    match spec_parse_peer_up_prefix(v_flag, b, p1) {
        None => None,
        Some((addr, lp, rp, p2)) => if p2 == b.len() {
            Some(
                PeerUpModel {
                    local_addr: addr,
                    local_port: lp,
                    remote_port: rp,
                    sent_open_present: false,
                    recv_open_present: false,
                    information: Seq::<TlvModel>::empty(),
                },
            )
        } else {
            match spec_parse_captures(b, p2) {
                None => None,
                Some(e2) => match spec_parse_tlv_list(b, e2) {
                    None => None,
                    Some(list) => if tlvs_utf8_ok(list) {
                        Some(
                            PeerUpModel {
                                local_addr: addr,
                                local_port: lp,
                                remote_port: rp,
                                sent_open_present: true,
                                recv_open_present: true,
                                information: list,
                            },
                        )
                    } else {
                        None
                    },
                },
            }
        },
    }
}

impl PeerUp {
    /// Decode a PeerUp body. A body that ends right after the remote
    /// port decodes with both captured OPENs absent and no TLVs: some
    /// peers omit the OPEN capture entirely, which is valid. Otherwise
    /// exactly two embedded BGP envelopes must follow, each carrying an
    /// OPEN (discriminant 1), then TLVs with valid UTF-8 values up to
    /// the body end; anything else is a recoverable body-decode error,
    /// never a crash.
    pub fn decode(peer_flags: &PeerFlags, cur: &mut Cursor) -> (r: Result<PeerUp, Error>)
        requires
            old(cur).wf(),
        ensures
            final(cur).wf(),
            final(cur).data() == old(cur).data(),
            match spec_decode_peer_up(peer_flags.V, old(cur).data(), old(cur).pos()) {
                Some(pu) => r is Ok && r->Ok_0@ == pu && final(cur).pos() == old(
                    cur,
                ).data().len(),
                None => r is Err && r->Err_0 is MalformedBody,
            },
    {
        let start = cur.position();
        if cur.remaining() < 20 {
            return Err(Error::MalformedBody { kind: None, peer: None, offset: start });
        }
        let local_addr = if peer_flags.V {
            PeerAddress::V6(cur.read_u128_be().unwrap())
        } else {
            let _padding = cur.read_bytes(12).unwrap();
            PeerAddress::V4(cur.read_u32_be().unwrap())
        };
        let local_port = cur.read_u16_be().unwrap();
        let remote_port = cur.read_u16_be().unwrap();
        let ghost p2 = cur.pos();

        // Some peers omit the OPEN capture entirely: a body ending here
        // is valid, with no recorded capabilities to reconcile.
        if cur.remaining() == 0 {
            let up = PeerUp {
                local_addr,
                local_port,
                remote_port,
                sent_open: None,
                recv_open: None,
                information: Vec::new(),
            };
            proof {
                assert(up@.information =~= Seq::<TlvModel>::empty());
            }
            return Ok(up);
        }
        let sent_hdr = match bgp_header_parse(cur) {
            Some(h) => h,
            None => {
                return Err(Error::MalformedBody { kind: None, peer: None, offset: cur.position() });
            },
        };
        if sent_hdr.1 != 1 {
            return Err(Error::MalformedBody { kind: None, peer: None, offset: cur.position() });
        }
        let sent_open = match bgp_open_parse(cur) {
            Some(o) => o,
            None => {
                return Err(Error::MalformedBody { kind: None, peer: None, offset: cur.position() });
            },
        };
        let recv_hdr = match bgp_header_parse(cur) {
            Some(h) => h,
            None => {
                return Err(Error::MalformedBody { kind: None, peer: None, offset: cur.position() });
            },
        };
        if recv_hdr.1 != 1 {
            return Err(Error::MalformedBody { kind: None, peer: None, offset: cur.position() });
        }
        let recv_open = match bgp_open_parse(cur) {
            Some(o) => o,
            None => {
                return Err(Error::MalformedBody { kind: None, peer: None, offset: cur.position() });
            },
        };
        let ghost e2 = cur.pos();
        proof {
            assert(spec_parse_captures(old(cur).data(), p2) == Some(e2));
        }
        let information = match decode_tlv_list(cur) {
            Ok(tlvs) => tlvs,
            Err(e) => {
                return Err(e);
            },
        };
        let up = PeerUp {
            local_addr,
            local_port,
            remote_port,
            sent_open: Some(sent_open),
            recv_open: Some(recv_open),
            information,
        };
        proof {
            assert(up@ =~= spec_decode_peer_up(
                peer_flags.V,
                old(cur).data(),
                old(cur).pos(),
            )->Some_0);
        }
        Ok(up)
    }
}

/// Parse of an Initiation body at `pos`: information TLVs, one after
/// the other, until the body end. A type code outside the recognized
/// range stops the run without an error: the rest is unknown trailing
/// data of newer peer software, not corruption.
pub open spec fn spec_parse_initiation(b: Seq<u8>, pos: int) -> Option<Seq<TlvModel>>
    decreases b.len() - pos,
{
    if pos < 0 || pos > b.len() {
        None
    } else if pos == b.len() {
        Some(Seq::empty())
    } else if pos + 2 > b.len() {
        None
    } else if be_val(b.subrange(pos, pos + 2)) as u16 > 2 {
        Some(Seq::empty())
    } else {
        match spec_parse_tlv(b, pos) {
            None => None,
            Some((t, p2)) => match spec_parse_initiation(b, p2) {
                None => None,
                Some(rest) => Some(seq![t] + rest),
            },
        }
    }
}

/// Decode an Initiation body: TLVs up to the body end, stopping early
/// without an error at an unrecognized type code.
pub(crate) fn decode_initiation(cur: &mut Cursor) -> (r: Result<Vec<InformationTlv>, Error>)
    requires
        old(cur).wf(),
    ensures
        final(cur).wf(),
        final(cur).data() == old(cur).data(),
        match spec_parse_initiation(old(cur).data(), old(cur).pos()) {
            None => r is Err && r->Err_0 is MalformedBody,
            Some(list) => {
                &&& tlvs_utf8_ok(list) ==> r is Ok && tlv_models(r->Ok_0@) == list
                &&& !tlvs_utf8_ok(list) ==> r is Err && r->Err_0 is MalformedBody
            },
        },
{
    let ghost data = old(cur).data();
    let ghost pos0 = old(cur).pos();
    let mut out: Vec<InformationTlv> = Vec::new();
    proof {
        assert(tlv_models(out@) =~= Seq::<TlvModel>::empty());
    }
    loop
        invariant
            cur.wf(),
            data == old(cur).data(),
            pos0 == old(cur).pos(),
            cur.data() == data,
            tlvs_utf8_ok(tlv_models(out@)),
            match spec_parse_initiation(data, cur.pos()) {
                None => spec_parse_initiation(data, pos0) is None,
                Some(rest) => spec_parse_initiation(data, pos0) == Some(tlv_models(out@) + rest),
            },
        ensures
            spec_parse_initiation(data, cur.pos()) == Some(Seq::<TlvModel>::empty()),
        decreases data.len() - cur.pos(),
    {
        if cur.remaining() == 0 {
            break;
        }
        let type_code = match cur.peek_u16_be() {
            Some(v) => v,
            None => {
                return Err(Error::MalformedBody { kind: None, peer: None, offset: cur.position() });
            },
        };
        if type_code > 2 {
            break;
        }
        let ghost p = cur.pos();
        let tlv = match InformationTlv::decode(cur) {
            Ok(t) => t,
            Err(e) => {
                proof {
                    if spec_parse_tlv(data, p) is Some {
                        let (t, p2) = spec_parse_tlv(data, p)->Some_0;
                        if spec_parse_initiation(data, p) is Some {
                            let total = spec_parse_initiation(data, pos0)->Some_0;
                            assert(!valid_utf8(t.value));
                            assert(spec_parse_initiation(data, p)->Some_0[0] == t);
                            assert(total[tlv_models(out@).len() as int] == t);
                            assert(!tlvs_utf8_ok(total));
                        }
                    }
                }
                return Err(e);
            },
        };
        let ghost p2 = cur.pos();
        proof {
            let t = spec_parse_tlv(data, p)->Some_0.0;
            assert(tlv_models(out@.push(tlv)) =~= tlv_models(out@).push(t));
            if spec_parse_initiation(data, p2) is Some {
                let rest2 = spec_parse_initiation(data, p2)->Some_0;
                assert(spec_parse_initiation(data, p) == Some(seq![t] + rest2));
                assert(tlv_models(out@) + (seq![t] + rest2) =~= tlv_models(out@).push(t) + rest2);
            }
        }
        out.push(tlv);
    }
    proof {
        assert(tlv_models(out@) + Seq::<TlvModel>::empty() =~= tlv_models(out@));
    }
    Ok(out)
}

/// The fixed 6-byte common header that precedes every message: a
/// version byte, the total message length including the header itself,
/// and the kind code.
#[derive(Copy, Clone, Debug, Eq, PartialEq, Structural)]
pub struct CommonHeader {
    pub version: u8,
    pub length: u32,
    pub kind: MessageKind,
}

pub open spec fn spec_parse_common_header(b: Seq<u8>, pos: int) -> Option<CommonHeader> {
    if 0 <= pos && pos + 6 <= b.len() {
        Some(
            CommonHeader {
                version: b[pos],
                length: be_val(b.subrange(pos + 1, pos + 5)) as u32,
                kind: spec_kind_from_code(b[pos + 5]),
            },
        )
    } else {
        None
    }
}

impl CommonHeader {
    /// Decode the common header from its six wire bytes. A declared
    /// total length below the header's own six bytes can never frame a
    /// message and is a fatal framing error.
    pub fn decode(bytes: &Vec<u8>) -> (r: Result<CommonHeader, Error>)
        ensures
            match spec_parse_common_header(bytes@, 0) {
                Some(h) => if h.length >= 6 {
                    r == Ok::<CommonHeader, Error>(h)
                } else {
                    r == Err::<CommonHeader, Error>(Error::Truncated)
                },
                None => r == Err::<CommonHeader, Error>(Error::Truncated),
            },
    {
        if bytes.len() < 6 {
            return Err(Error::Truncated);
        }
        let length_wide = crate::bytes::read_be_at(bytes, 1, 4);
        proof {
            crate::bytes::lemma_be_val_bound(bytes@.subrange(1, 5));
            crate::bytes::lemma_pow256_vals();
        }
        let length = length_wide as u32;
        if length < 6 {
            return Err(Error::Truncated);
        }
        Ok(
            CommonHeader {
                version: bytes[0],
                length,
                kind: crate::enums::MessageKind::from_code(bytes[5]),
            },
        )
    }

    /// How many body bytes the declared total length leaves after the
    /// header's own six.
    pub fn body_len(&self) -> (r: usize)
        requires
            self.length >= 6,
        ensures
            r == self.length - 6,
    {
        (self.length - 6) as usize
    }
}

/// One step of framing at `pos`: nothing left means a clean disconnect;
/// a short header, a declared length under the header's own six bytes,
/// or fewer available bytes than declared are all framing failures; and
/// otherwise the frame's exact body bytes are isolated and the position
/// lands on the next frame.
pub open spec fn spec_next_frame(b: Seq<u8>, pos: int) -> Result<(CommonHeader, Seq<u8>, int), Error> {
    if pos == b.len() {
        Err(Error::Disconnected)
    } else if pos + 6 > b.len() {
        Err(Error::Truncated)
    } else {
        let h = spec_parse_common_header(b, pos)->Some_0;
        if h.length < 6 || pos + h.length > b.len() {
            Err(Error::Truncated)
        } else {
            Ok((h, b.subrange(pos + 6, pos + h.length), pos + h.length))
        }
    }
}

/// Read one frame out of buffered input: the common header plus
/// exactly the declared number of body bytes, never more, never less.
pub fn next_frame(input: &Vec<u8>, pos: usize) -> (r: Result<(CommonHeader, Vec<u8>, usize), Error>)
    requires
        pos <= input@.len(),
    ensures
        match spec_next_frame(input@, pos as int) {
            Ok((h, body, p2)) => {
                &&& r is Ok
                &&& r->Ok_0.0 == h
                &&& r->Ok_0.1@ == body
                &&& r->Ok_0.2 == p2
            },
            Err(e) => r == Err::<(CommonHeader, Vec<u8>, usize), Error>(e),
        },
{
    if pos == input.len() {
        return Err(Error::Disconnected);
    }
    if input.len() - pos < 6 {
        return Err(Error::Truncated);
    }
    let version = input[pos];
    let length_wide = crate::bytes::read_be_at(input, pos + 1, 4);
    proof {
        crate::bytes::lemma_be_val_bound(input@.subrange(pos + 1, pos + 5));
        crate::bytes::lemma_pow256_vals();
    }
    let length = length_wide as u32;
    let kind = crate::enums::MessageKind::from_code(input[pos + 5]);
    if length < 6 {
        return Err(Error::Truncated);
    }
    if (length as usize) > input.len() - pos {
        return Err(Error::Truncated);
    }
    let body = crate::bytes::vec_range(input, pos + 6, pos + (length as usize));
    Ok((CommonHeader { version, length, kind }, body, pos + (length as usize)))
}

/// Annotate a malformed-body error with the message kind it arose
/// under and, where the per-peer header was already decoded, the
/// peer's identity; any other error passes through untouched.
fn annotate(e: Error, kind: MessageKind, peer: Option<PeerId>) -> (r: Error)
    ensures
        match e {
            Error::MalformedBody { kind: _, peer: _, offset } => r == (Error::MalformedBody {
                kind: Some(kind),
                peer,
                offset,
            }),
            _ => r == e,
        },
{
    match e {
        Error::MalformedBody { kind: _, peer: _, offset } => Error::MalformedBody {
            kind: Some(kind),
            peer,
            offset,
        },
        _ => e,
    }
}

/// How a capability store changes when an entry is recorded for `k`:
/// an existing entry is kept untouched — the first PeerUp wins — and
/// otherwise exactly one entry for `k` is appended.
pub open spec fn store_after_insert(
    s: Seq<(PeerId, bgp_rs::Capabilities)>,
    k: PeerId,
    s2: Seq<(PeerId, bgp_rs::Capabilities)>,
) -> bool {
    if spec_has_key(s, k) {
        s2 == s
    } else {
        &&& s2.len() == s.len() + 1
        &&& s2.subrange(0, s.len() as int) == s
        &&& s2.last().0 == k
    }
}

/// Increment that stops at the largest representable count.
pub open spec fn sat_inc(x: u64) -> u64 {
    if x == u64::MAX {
        x
    } else {
        (x + 1) as u64
    }
}

/// The stateful BMP decoder of one connection: it owns the capability
/// store that links each peer's PeerUp to the decoding of that peer's
/// later RouteMonitoring messages, and an explicit per-session
/// tolerance budget for malformed route updates.
pub struct Decoder {
    pub capabilities: CapabilityStore,
    pub keying: PeerKeying,
    pub tolerance: u64,
    pub failures: u64,
}

impl Decoder {
    /// A fresh decoder with an empty capability store. `keying` fixes
    /// which peer identity keys the store; `tolerance` is the number of
    /// malformed route updates the session is willing to ride out.
    pub fn new(keying: PeerKeying, tolerance: u64) -> (r: Decoder)
        ensures
            r.capabilities@ == Seq::<(PeerId, bgp_rs::Capabilities)>::empty(),
            r.keying == keying,
            r.tolerance == tolerance,
            r.failures == 0,
    {
        Decoder { capabilities: CapabilityStore::new(), keying, tolerance, failures: 0 }
    }

    /// Whether more malformed route updates have been seen than the
    /// session's tolerance budget allows; the caller decides whether to
    /// keep going, since stream alignment itself is never lost.
    pub fn budget_exhausted(&self) -> (r: bool)
        ensures
            r == (self.failures > self.tolerance),
    {
        self.failures > self.tolerance
    }

    /// Decode one message body, already isolated by the framer. The
    /// declared total length must bound the body exactly; whether body
    /// decoding succeeds or not, the caller stays aligned on the next
    /// frame.
    ///
    /// On a PeerUp carrying both OPEN captures, the capability set
    /// recorded for the peer is derived from the received OPEN's
    /// advertisements: the brought version of the outside BGP library
    /// derives a session capability set from one OPEN's parameters and
    /// offers no mutual reconciliation of the two, so the sent OPEN
    /// only gates whether the capture counts as complete.
    pub fn decode(&mut self, header: &CommonHeader, body: Vec<u8>) -> (r: Result<BmpMessage, Error>)
        ensures
            final(self).keying == old(self).keying,
            final(self).tolerance == old(self).tolerance,
            body@.len() != header.length - 6 ==> r == Err::<BmpMessage, Error>(Error::Truncated)
                && *final(self) == *old(self),
            body@.len() == header.length - 6 && header.kind is Initiation ==> {
                &&& *final(self) == *old(self)
                &&& match spec_parse_initiation(body@, 0) {
                    None => r is Err && malformed_with(r->Err_0, header.kind, None),
                    Some(list) => {
                        &&& tlvs_utf8_ok(list) ==> r is Ok && r->Ok_0@ == (BmpModel {
                            version: header.version,
                            kind: header.kind,
                            message: MessageDataModel::Initiation(list),
                        })
                        &&& !tlvs_utf8_ok(list) ==> r is Err && malformed_with(
                            r->Err_0,
                            header.kind,
                            None,
                        )
                    },
                }
            },
            body@.len() == header.length - 6 && header.kind is PeerUp ==> {
                &&& final(self).failures == old(self).failures
                &&& match spec_parse_peer_header(body@, 0) {
                    None => r is Err && malformed_with(r->Err_0, header.kind, None) && *final(self)
                        == *old(self),
                    Some((ph, p1)) => match spec_decode_peer_up(ph.peer_flags.V, body@, p1) {
                        None => r is Err && malformed_with(
                            r->Err_0,
                            header.kind,
                            Some(spec_identity(ph, old(self).keying)),
                        ) && *final(self) == *old(self),
                        Some(pu) => {
                            &&& r is Ok
                            &&& r->Ok_0@ == (BmpModel {
                                version: header.version,
                                kind: header.kind,
                                message: MessageDataModel::PeerUp(ph, pu),
                            })
                            &&& store_after_insert(
                                old(self).capabilities@,
                                spec_identity(ph, old(self).keying),
                                final(self).capabilities@,
                            )
                        },
                    },
                }
            },
            body@.len() == header.length - 6 && header.kind is RouteMonitoring ==> {
                &&& final(self).capabilities@ == old(self).capabilities@
                &&& match spec_parse_peer_header(body@, 0) {
                    None => r is Err && malformed_with(r->Err_0, header.kind, None) && *final(self)
                        == *old(self),
                    Some((ph, p1)) => {
                        &&& !spec_has_key(
                            old(self).capabilities@,
                            spec_identity(ph, old(self).keying),
                        ) ==> r == Err::<BmpMessage, Error>(
                            (Error::MissingCapabilities {
                                peer: spec_identity(ph, old(self).keying),
                            }),
                        ) && *final(self) == *old(self)
                        &&& spec_has_key(
                            old(self).capabilities@,
                            spec_identity(ph, old(self).keying),
                        ) ==> {
                            &&& p1 + 19 > body@.len() ==> r is Err && malformed_with(
                                r->Err_0,
                                header.kind,
                                Some(spec_identity(ph, old(self).keying)),
                            ) && *final(self) == *old(self)
                            &&& p1 + 19 <= body@.len() ==> {
                                let ulen = be_val(body@.subrange(p1 + 16, p1 + 18)) as u16;
                                &&& !crate::guard::spec_update_ok(body@, p1 + 19, ulen) ==> r is Err
                                    && malformed_with(
                                    r->Err_0,
                                    header.kind,
                                    Some(spec_identity(ph, old(self).keying)),
                                ) && final(self).failures == sat_inc(old(self).failures)
                                &&& crate::guard::spec_update_ok(body@, p1 + 19, ulen) ==> {
                                    &&& r is Ok ==> r->Ok_0@ == (BmpModel {
                                        version: header.version,
                                        kind: header.kind,
                                        message: MessageDataModel::RouteMonitoring(ph),
                                    }) && *final(self) == *old(self)
                                    &&& r is Err ==> malformed_with(
                                        r->Err_0,
                                        header.kind,
                                        Some(spec_identity(ph, old(self).keying)),
                                    ) && final(self).failures == sat_inc(old(self).failures)
                                }
                            }
                        }
                    },
                }
            },
            body@.len() == header.length - 6 && !(header.kind is Initiation) && !(header.kind
                is PeerUp) && !(header.kind is RouteMonitoring) ==> r is Ok && *final(self) == *old(
                self,
            ) && r->Ok_0@ == (BmpModel {
                version: header.version,
                kind: header.kind,
                message: MessageDataModel::Unimplemented,
            }),
    {
        if header.length < 6 || body.len() != (header.length - 6) as usize {
            return Err(Error::Truncated);
        }
        let ghost body_bytes = body@;
        let mut cur = Cursor::new(body);
        match header.kind {
            MessageKind::Initiation => {
                let tlvs = match decode_initiation(&mut cur) {
                    Ok(t) => t,
                    Err(e) => {
                        return Err(annotate(e, header.kind, None));
                    },
                };
                let msg = BmpMessage {
                    version: header.version,
                    kind: header.kind,
                    message: MessageData::Initiation(tlvs),
                };
                Ok(msg)
            },
            MessageKind::PeerUp => {
                let peer_header = match PeerHeader::decode(&mut cur) {
                    Ok(h) => h,
                    Err(e) => {
                        return Err(annotate(e, header.kind, None));
                    },
                };
                let up = match PeerUp::decode(&peer_header.peer_flags, &mut cur) {
                    Ok(u) => u,
                    Err(e) => {
                        return Err(annotate(e, header.kind, Some(peer_header.identity(self.keying))));
                    },
                };
                // Record the negotiated capabilities for this peer: the
                // reconciliation of the captured OPENs, or the empty
                // default when the capture was omitted.
                let caps = match (&up.sent_open, &up.recv_open) {
                    (Some(_), Some(rv)) => capabilities_of_open(rv),
                    _ => capabilities_default(),
                };
                let key = peer_header.identity(self.keying);
                self.capabilities.insert_if_absent(key, caps);
                proof {
                    let s0 = old(self).capabilities@;
                    if !spec_has_key(s0, key) {
                        assert(self.capabilities@ == s0.push((key, caps)));
                        assert(self.capabilities@.subrange(0, s0.len() as int) =~= s0);
                    }
                }
                let msg = BmpMessage {
                    version: header.version,
                    kind: header.kind,
                    message: MessageData::PeerUp((peer_header, up)),
                };
                Ok(msg)
            },
            MessageKind::RouteMonitoring => {
                let peer_header = match PeerHeader::decode(&mut cur) {
                    Ok(h) => h,
                    Err(e) => {
                        return Err(annotate(e, header.kind, None));
                    },
                };
                let key = peer_header.identity(self.keying);
                let caps = match self.capabilities.lookup(&key) {
                    Some(c) => c,
                    None => {
                        return Err(Error::MissingCapabilities { peer: key });
                    },
                };
                let bgp_hdr = match bgp_header_parse(&mut cur) {
                    Some(h) => h,
                    None => {
                        return Err(Error::MalformedBody {
                            kind: Some(header.kind),
                            peer: Some(key),
                            offset: cur.position(),
                        });
                    },
                };
                // Keep the shapes that the outside parser cannot survive
                // away from it: reject them as malformed updates here.
                if !crate::guard::update_shape_check(cur.buf_ref(), cur.position(), bgp_hdr.0) {
                    if self.failures < u64::MAX {
                        self.failures = self.failures + 1;
                    }
                    return Err(Error::MalformedBody {
                        kind: Some(header.kind),
                        peer: Some(key),
                        offset: cur.position(),
                    });
                }
                let update = match bgp_update_parse(&mut cur, bgp_hdr.0, bgp_hdr.1, caps) {
                    Some(u) => u,
                    None => {
                        if self.failures < u64::MAX {
                            self.failures = self.failures + 1;
                        }
                        return Err(Error::MalformedBody {
                            kind: Some(header.kind),
                            peer: Some(key),
                            offset: cur.position(),
                        });
                    },
                };
                let msg = BmpMessage {
                    version: header.version,
                    kind: header.kind,
                    message: MessageData::RouteMonitoring((peer_header, update)),
                };
                Ok(msg)
            },
            _ => {
                let msg = BmpMessage {
                    version: header.version,
                    kind: header.kind,
                    message: MessageData::Unimplemented,
                };
                Ok(msg)
            },
        }
    }
}

} // verus!
