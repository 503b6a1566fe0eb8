//! The decoder's global guarantees, stated and proved over the wire
//! model: decoding reproduces what was encoded, and framing consumes
//! exactly the declared lengths.

use vstd::prelude::*;

use crate::bytes::{be_val, lemma_pow256_vals, pow256};
use crate::decoder::{
    spec_next_frame, spec_parse_initiation, spec_parse_peer_header, spec_parse_peer_up_prefix,
    spec_parse_tlv, spec_parse_tlv_list, tlvs_utf8_ok, CommonHeader,
};
use crate::encode::{
    enc_be, encodable, flags_byte, lemma_enc_be_len, lemma_enc_be_val, lemma_flags_roundtrip,
    spec_encode_body, spec_encode_message, spec_encode_peer_header, spec_encode_peer_up,
    spec_encode_tlv, spec_encode_tlvs, wf_peer_header, wf_peer_up, wf_tlv, wf_tlvs,
};
use crate::enums::{spec_info_type_code, spec_kind_code, spec_peer_type_code, MessageKind};
use crate::error::Error;
use crate::types::{
    BmpModel, MessageDataModel, PeerAddress, PeerHeader, PeerUpModel, TlvModel,
};

verus! {

/// Where the bytes at `pos` hold a concatenation, each half stands at
/// its own offset.
pub proof fn lemma_seq_split_at(b: Seq<u8>, pos: int, x: Seq<u8>, y: Seq<u8>)
    requires
        0 <= pos,
        pos + x.len() + y.len() <= b.len(),
        b.subrange(pos, pos + x.len() + y.len()) == x + y,
    ensures
        b.subrange(pos, pos + x.len()) == x,
        b.subrange(pos + x.len(), pos + x.len() + y.len()) == y,
{
    assert forall|j: int| 0 <= j < x.len() implies b.subrange(pos, pos + x.len())[j] == x[j] by {
        assert(b.subrange(pos, pos + x.len() + y.len())[j] == (x + y)[j]);
    }
    assert(b.subrange(pos, pos + x.len()) =~= x);
    assert forall|j: int|
        0 <= j < y.len() implies b.subrange(pos + x.len(), pos + x.len() + y.len())[j] == y[j] by {
        assert((x + y)[x.len() + j] == y[j]);
        assert(b.subrange(pos, pos + x.len() + y.len())[x.len() + j] == b[pos + x.len() + j]);
        assert(b.subrange(pos + x.len(), pos + x.len() + y.len())[j] == b[pos + x.len() + j]);
    }
    assert(b.subrange(pos + x.len(), pos + x.len() + y.len()) =~= y);
}

/// Parsing an encoded TLV that sits at `pos` yields that TLV back and
/// lands right behind it.
pub proof fn lemma_parse_tlv_of_encode(t: TlvModel, b: Seq<u8>, pos: int)
    requires
        wf_tlv(t),
        0 <= pos,
        pos + 4 + t.value.len() <= b.len(),
        b.subrange(pos, pos + 4 + t.value.len()) == spec_encode_tlv(t),
    ensures
        spec_parse_tlv(b, pos) == Some((t, pos + 4 + t.value.len())),
{
    let code = spec_info_type_code(t.information_type);
    let l = t.value.len() as int;
    lemma_enc_be_len(code as nat, 2);
    lemma_enc_be_len(t.value.len() as nat, 2);
    lemma_pow256_vals();
    lemma_enc_be_val(code as nat, 2);
    lemma_enc_be_val(t.value.len() as nat, 2);
    let head = enc_be(code as nat, 2) + enc_be(t.value.len() as nat, 2);
    lemma_seq_split_at(b, pos, head, t.value);
    lemma_seq_split_at(b, pos, enc_be(code as nat, 2), enc_be(t.value.len() as nat, 2));
    assert(b.subrange(pos + 4, pos + 4 + l) == t.value);
    assert(be_val(b.subrange(pos, pos + 2)) == code as nat);
    assert(be_val(b.subrange(pos + 2, pos + 4)) == t.value.len() as nat);
    assert(crate::enums::spec_info_type_from_code(code) == t.information_type);
    assert(spec_parse_tlv(b, pos)->Some_0.0 =~= t);
}

/// Parsing a run of encoded TLVs that fills the bytes from `pos` to the
/// very end yields the run back.
pub proof fn lemma_parse_tlv_list_of_encode(l: Seq<TlvModel>, b: Seq<u8>, pos: int)
    requires
        wf_tlvs(l),
        0 <= pos <= b.len(),
        b.subrange(pos, b.len() as int) == spec_encode_tlvs(l),
    ensures
        spec_parse_tlv_list(b, pos) == Some(l),
    decreases l.len(),
{
    if l.len() == 0 {
        assert(b.len() - pos == 0);
    } else {
        let t = l[0];
        assert(wf_tlv(t));
        let tl = 4 + t.value.len() as int;
        lemma_enc_be_len(spec_info_type_code(t.information_type) as nat, 2);
        lemma_enc_be_len(t.value.len() as nat, 2);
        assert(spec_encode_tlv(t).len() == tl);
        assert(b.len() - pos == spec_encode_tlvs(l).len());
        assert(spec_encode_tlvs(l) == spec_encode_tlv(t) + spec_encode_tlvs(l.drop_first()));
        assert(pos + tl <= b.len());
        lemma_seq_split_at(b, pos, spec_encode_tlv(t), spec_encode_tlvs(l.drop_first()));
        lemma_parse_tlv_of_encode(t, b, pos);
        assert(wf_tlvs(l.drop_first())) by {
            assert(forall|i: int|
                0 <= i < l.drop_first().len() ==> #[trigger] l.drop_first()[i] == l[i + 1]);
        }
        lemma_parse_tlv_list_of_encode(l.drop_first(), b, pos + tl);
        assert(seq![t] + l.drop_first() =~= l);
    }
}

/// Parsing an Initiation body made of encoded TLVs with recognized
/// type codes yields the run back.
pub proof fn lemma_parse_initiation_of_encode(l: Seq<TlvModel>, b: Seq<u8>, pos: int)
    requires
        wf_tlvs(l),
        forall|i: int| 0 <= i < l.len() ==> !((#[trigger] l[i]).information_type is Unknown),
        0 <= pos <= b.len(),
        b.subrange(pos, b.len() as int) == spec_encode_tlvs(l),
    ensures
        spec_parse_initiation(b, pos) == Some(l),
    decreases l.len(),
{
    if l.len() == 0 {
        assert(b.len() - pos == 0);
    } else {
        let t = l[0];
        assert(wf_tlv(t));
        assert(!(t.information_type is Unknown));
        let code = spec_info_type_code(t.information_type);
        assert(code <= 2);
        let tl = 4 + t.value.len() as int;
        lemma_enc_be_len(code as nat, 2);
        lemma_enc_be_len(t.value.len() as nat, 2);
        lemma_pow256_vals();
        lemma_enc_be_val(code as nat, 2);
        assert(spec_encode_tlv(t).len() == tl);
        assert(b.len() - pos == spec_encode_tlvs(l).len());
        assert(spec_encode_tlvs(l) == spec_encode_tlv(t) + spec_encode_tlvs(l.drop_first()));
        assert(pos + tl <= b.len());
        lemma_seq_split_at(b, pos, spec_encode_tlv(t), spec_encode_tlvs(l.drop_first()));
        let head = enc_be(code as nat, 2) + enc_be(t.value.len() as nat, 2);
        lemma_seq_split_at(b, pos, head, t.value);
        lemma_seq_split_at(b, pos, enc_be(code as nat, 2), enc_be(t.value.len() as nat, 2));
        assert(be_val(b.subrange(pos, pos + 2)) == code as nat);
        lemma_parse_tlv_of_encode(t, b, pos);
        assert(wf_tlvs(l.drop_first()) && forall|i: int|
            0 <= i < l.drop_first().len() ==> !((#[trigger] l.drop_first()[i]).information_type
                is Unknown)) by {
            assert(forall|i: int|
                0 <= i < l.drop_first().len() ==> #[trigger] l.drop_first()[i] == l[i + 1]);
        }
        lemma_parse_initiation_of_encode(l.drop_first(), b, pos + tl);
        assert(seq![t] + l.drop_first() =~= l);
    }
}

/// The wire form of a per-peer header is 42 bytes under either flag.
pub proof fn lemma_encode_peer_header_len(h: PeerHeader)
    ensures
        spec_encode_peer_header(h).len() == 42,
{
    lemma_enc_be_len(h.peer_distinguisher.high as nat, 4);
    lemma_enc_be_len(h.peer_distinguisher.low as nat, 4);
    match h.peer_addr {
        PeerAddress::V4(a) => {
            lemma_enc_be_len(0, 12);
            lemma_enc_be_len(a as nat, 4);
        },
        PeerAddress::V6(a) => {
            lemma_enc_be_len(a as nat, 16);
        },
    }
    if h.peer_flags.A {
        lemma_enc_be_len(0, 2);
        lemma_enc_be_len(h.peer_asn as nat, 2);
    } else {
        lemma_enc_be_len(h.peer_asn as nat, 4);
    }
    lemma_enc_be_len(h.peer_bgp_id as nat, 4);
    lemma_enc_be_len(h.timestamp as nat, 4);
    lemma_enc_be_len(h.timestamp_ms as nat, 4);
}

/// Parsing an encoded per-peer header at `pos` yields the header back,
/// 42 bytes later. In particular, with flag V clear the address comes
/// from the 4 bytes after 12 bytes of padding, and with V set from all
/// 16 address bytes: both shapes are covered here.
pub proof fn lemma_parse_peer_header_of_encode(h: PeerHeader, b: Seq<u8>, pos: int)
    requires
        wf_peer_header(h),
        0 <= pos,
        pos + 42 <= b.len(),
        b.subrange(pos, pos + 42) == spec_encode_peer_header(h),
    ensures
        spec_parse_peer_header(b, pos) == Some((h, pos + 42)),
{
    lemma_pow256_vals();
    lemma_encode_peer_header_len(h);
    let s1 = seq![spec_peer_type_code(h.peer_type)];
    let s2 = seq![flags_byte(h.peer_flags)];
    let s3 = enc_be(h.peer_distinguisher.high as nat, 4);
    let s4 = enc_be(h.peer_distinguisher.low as nat, 4);
    let s5 = match h.peer_addr {
        PeerAddress::V4(a) => enc_be(0, 12) + enc_be(a as nat, 4),
        PeerAddress::V6(a) => enc_be(a as nat, 16),
    };
    let s6 = if h.peer_flags.A {
        enc_be(0, 2) + enc_be(h.peer_asn as nat, 2)
    } else {
        enc_be(h.peer_asn as nat, 4)
    };
    let s7 = enc_be(h.peer_bgp_id as nat, 4);
    let s8 = enc_be(h.timestamp as nat, 4);
    let s9 = enc_be(h.timestamp_ms as nat, 4);
    lemma_enc_be_len(h.peer_distinguisher.high as nat, 4);
    lemma_enc_be_len(h.peer_distinguisher.low as nat, 4);
    match h.peer_addr {
        PeerAddress::V4(a) => {
            lemma_enc_be_len(0, 12);
            lemma_enc_be_len(a as nat, 4);
        },
        PeerAddress::V6(a) => {
            lemma_enc_be_len(a as nat, 16);
        },
    }
    if h.peer_flags.A {
        lemma_enc_be_len(0, 2);
        lemma_enc_be_len(h.peer_asn as nat, 2);
    } else {
        lemma_enc_be_len(h.peer_asn as nat, 4);
    }
    lemma_enc_be_len(h.peer_bgp_id as nat, 4);
    lemma_enc_be_len(h.timestamp as nat, 4);
    lemma_enc_be_len(h.timestamp_ms as nat, 4);
    lemma_seq_split_at(b, pos, s1 + s2 + s3 + s4 + s5 + s6 + s7 + s8, s9);
    lemma_seq_split_at(b, pos, s1 + s2 + s3 + s4 + s5 + s6 + s7, s8);
    lemma_seq_split_at(b, pos, s1 + s2 + s3 + s4 + s5 + s6, s7);
    lemma_seq_split_at(b, pos, s1 + s2 + s3 + s4 + s5, s6);
    lemma_seq_split_at(b, pos, s1 + s2 + s3 + s4, s5);
    lemma_seq_split_at(b, pos, s1 + s2 + s3, s4);
    lemma_seq_split_at(b, pos, s1 + s2, s3);
    lemma_seq_split_at(b, pos, s1, s2);
    assert(b[pos] == spec_peer_type_code(h.peer_type)) by {
        assert(b.subrange(pos, pos + 1)[0] == s1[0]);
    }
    assert(b[pos + 1] == flags_byte(h.peer_flags)) by {
        assert(b.subrange(pos + 1, pos + 2)[0] == s2[0]);
    }
    lemma_flags_roundtrip(h.peer_flags);
    assert(crate::enums::spec_peer_type_from_code(spec_peer_type_code(h.peer_type))
        == h.peer_type);
    lemma_enc_be_val(h.peer_distinguisher.high as nat, 4);
    lemma_enc_be_val(h.peer_distinguisher.low as nat, 4);
    lemma_enc_be_val(h.peer_bgp_id as nat, 4);
    lemma_enc_be_val(h.timestamp as nat, 4);
    lemma_enc_be_val(h.timestamp_ms as nat, 4);
    match h.peer_addr {
        PeerAddress::V4(a) => {
            lemma_seq_split_at(b, pos + 10, enc_be(0, 12), enc_be(a as nat, 4));
            lemma_enc_be_val(a as nat, 4);
            assert(be_val(b.subrange(pos + 22, pos + 26)) == a as nat);
        },
        PeerAddress::V6(a) => {
            lemma_enc_be_val(a as nat, 16);
            assert(be_val(b.subrange(pos + 10, pos + 26)) == a as nat);
        },
    }
    if h.peer_flags.A {
        lemma_seq_split_at(b, pos + 26, enc_be(0, 2), enc_be(h.peer_asn as nat, 2));
        lemma_enc_be_val(h.peer_asn as nat, 2);
        assert(be_val(b.subrange(pos + 28, pos + 30)) == h.peer_asn as nat);
    } else {
        lemma_enc_be_val(h.peer_asn as nat, 4);
        assert(be_val(b.subrange(pos + 26, pos + 30)) == h.peer_asn as nat);
    }
    assert(spec_parse_peer_header(b, pos)->Some_0.0 == h);
}

/// Parsing the encoded leading fields of a PeerUp body that fills the
/// bytes to the very end yields the fields back, with the body end as
/// the next position.
pub proof fn lemma_parse_peer_up_of_encode(pu: PeerUpModel, v_flag: bool, b: Seq<u8>, pos: int)
    requires
        wf_peer_up(pu, v_flag),
        0 <= pos,
        pos + 20 == b.len(),
        b.subrange(pos, b.len() as int) == spec_encode_peer_up(pu),
    ensures
        spec_parse_peer_up_prefix(v_flag, b, pos) == Some(
            (pu.local_addr, pu.local_port, pu.remote_port, pos + 20),
        ),
{
    lemma_pow256_vals();
    let s5 = match pu.local_addr {
        PeerAddress::V4(a) => enc_be(0, 12) + enc_be(a as nat, 4),
        PeerAddress::V6(a) => enc_be(a as nat, 16),
    };
    let s6 = enc_be(pu.local_port as nat, 2);
    let s7 = enc_be(pu.remote_port as nat, 2);
    match pu.local_addr {
        PeerAddress::V4(a) => {
            lemma_enc_be_len(0, 12);
            lemma_enc_be_len(a as nat, 4);
        },
        PeerAddress::V6(a) => {
            lemma_enc_be_len(a as nat, 16);
        },
    }
    lemma_enc_be_len(pu.local_port as nat, 2);
    lemma_enc_be_len(pu.remote_port as nat, 2);
    lemma_seq_split_at(b, pos, s5 + s6, s7);
    lemma_seq_split_at(b, pos, s5, s6);
    lemma_enc_be_val(pu.local_port as nat, 2);
    lemma_enc_be_val(pu.remote_port as nat, 2);
    match pu.local_addr {
        PeerAddress::V4(a) => {
            lemma_seq_split_at(b, pos, enc_be(0, 12), enc_be(a as nat, 4));
            lemma_enc_be_val(a as nat, 4);
            assert(be_val(b.subrange(pos + 12, pos + 16)) == a as nat);
        },
        PeerAddress::V6(a) => {
            lemma_enc_be_val(a as nat, 16);
            assert(be_val(b.subrange(pos, pos + 16)) == a as nat);
        },
    }
}

/// Body decoding as the decoder's own contract pins it down:
/// Initiation bodies, PeerUp bodies (a captured OPEN's extent comes in
/// through the named result of the outside OPEN parser), and the kinds
/// that decode to `Unimplemented`. A RouteMonitoring body carries an
/// outside route-update value and depends on the capability store, so
/// it stays out of this stateless model.
pub open spec fn spec_decode_message(version: u8, kind: MessageKind, body: Seq<u8>) -> Option<
    BmpModel,
> {
    if kind is Initiation {
        match spec_parse_initiation(body, 0) {
            None => None,
            Some(l) => if tlvs_utf8_ok(l) {
                Some(BmpModel { version, kind, message: MessageDataModel::Initiation(l) })
            } else {
                None
            },
        }
    } else if kind is PeerUp {
        match spec_parse_peer_header(body, 0) {
            None => None,
            Some((ph, p1)) => match crate::decoder::spec_decode_peer_up(
                ph.peer_flags.V,
                body,
                p1,
            ) {
                None => None,
                Some(pu) => Some(
                    BmpModel { version, kind, message: MessageDataModel::PeerUp(ph, pu) },
                ),
            },
        }
    } else if kind is RouteMonitoring {
        None
    } else {
        Some(BmpModel { version, kind, message: MessageDataModel::Unimplemented })
    }
}

/// Round trip: framing the wire form of any encodable message isolates
/// exactly its body, and decoding that body reproduces an equivalent
/// message.
pub proof fn lemma_round_trip(m: BmpModel)
    requires
        encodable(m),
    ensures
        ({
            let bytes = spec_encode_message(m);
            let body = spec_encode_body(m);
            &&& spec_next_frame(bytes, 0) == Ok::<(CommonHeader, Seq<u8>, int), Error>(
                (
                    CommonHeader {
                        version: m.version,
                        length: (6 + body.len()) as u32,
                        kind: m.kind,
                    },
                    body,
                    bytes.len() as int,
                ),
            )
            &&& spec_decode_message(m.version, m.kind, body) == Some(m)
        }),
{
    lemma_pow256_vals();
    let body = spec_encode_body(m);
    let bytes = spec_encode_message(m);
    let ll = (6 + body.len()) as nat;
    lemma_enc_be_len(ll, 4);
    lemma_enc_be_val(ll, 4);
    let s1 = seq![m.version];
    let s2 = enc_be(ll, 4);
    let s3 = seq![spec_kind_code(m.kind)];
    assert(bytes.subrange(0, bytes.len() as int) =~= bytes);
    lemma_seq_split_at(bytes, 0, s1 + s2 + s3, body);
    lemma_seq_split_at(bytes, 0, s1 + s2, s3);
    lemma_seq_split_at(bytes, 0, s1, s2);
    assert(bytes[0] == m.version) by {
        assert(bytes.subrange(0, 1)[0] == s1[0]);
    }
    assert(bytes[5] == spec_kind_code(m.kind)) by {
        assert(bytes.subrange(5, 6)[0] == s3[0]);
    }
    assert(be_val(bytes.subrange(1, 5)) == ll);
    assert(crate::enums::spec_kind_from_code(spec_kind_code(m.kind)) == m.kind);
    assert(bytes.subrange(6, bytes.len() as int) == body);
    match m.message {
        MessageDataModel::Initiation(l) => {
            assert(body.subrange(0, body.len() as int) =~= body);
            lemma_parse_initiation_of_encode(l, body, 0);
            assert(tlvs_utf8_ok(l));
            assert(spec_decode_message(m.version, m.kind, body)->Some_0 =~= m);
        },
        MessageDataModel::PeerUp(ph, pu) => {
            lemma_encode_peer_header_len(ph);
            assert(body == spec_encode_peer_header(ph) + spec_encode_peer_up(pu));
            match pu.local_addr {
                PeerAddress::V4(a) => {
                    lemma_enc_be_len(0, 12);
                    lemma_enc_be_len(a as nat, 4);
                },
                PeerAddress::V6(a) => {
                    lemma_enc_be_len(a as nat, 16);
                },
            }
            lemma_enc_be_len(pu.local_port as nat, 2);
            lemma_enc_be_len(pu.remote_port as nat, 2);
            assert(body.len() == 62);
            assert(body.subrange(0, body.len() as int) =~= body);
            lemma_seq_split_at(body, 0, spec_encode_peer_header(ph), spec_encode_peer_up(pu));
            lemma_parse_peer_header_of_encode(ph, body, 0);
            lemma_parse_peer_up_of_encode(pu, ph.peer_flags.V, body, 42);
            assert(spec_decode_message(m.version, m.kind, body)->Some_0 =~= m);
        },
        MessageDataModel::Unimplemented => {
            assert(spec_decode_message(m.version, m.kind, body)->Some_0 =~= m);
        },
        MessageDataModel::RouteMonitoring(_) => {
            assert(false);
        },
    }
}

/// A TLV declaring length zero always decodes, to an empty value,
/// never to an error, and the empty value is trivially valid UTF-8.
pub proof fn lemma_zero_length_tlv(b: Seq<u8>, pos: int)
    requires
        0 <= pos,
        pos + 4 <= b.len(),
        be_val(b.subrange(pos + 2, pos + 4)) == 0,
    ensures
        spec_parse_tlv(b, pos) is Some,
        spec_parse_tlv(b, pos)->Some_0.0.value == Seq::<u8>::empty(),
        spec_parse_tlv(b, pos)->Some_0.1 == pos + 4,
        vstd::utf8::valid_utf8(spec_parse_tlv(b, pos)->Some_0.0.value),
{
    assert(b.subrange(pos + 4, pos + 4) =~= Seq::<u8>::empty());
}

/// A TLV whose declared length exceeds the remaining body bytes never
/// parses: the decoder reports it malformed rather than reading past
/// the body end.
pub proof fn lemma_overlong_tlv(b: Seq<u8>, pos: int)
    requires
        0 <= pos,
        pos + 4 <= b.len(),
        pos + 4 + ((be_val(b.subrange(pos + 2, pos + 4)) as u16) as int) > b.len(),
    ensures
        spec_parse_tlv(b, pos) is None,
{
}

/// The address field of the per-peer header: with flag V clear the
/// decoded address comes from the four bytes after twelve bytes of
/// consumed padding, and with V set from all sixteen address bytes;
/// either way the header spans exactly forty-two bytes.
pub proof fn lemma_peer_header_address_field(b: Seq<u8>, pos: int)
    requires
        spec_parse_peer_header(b, pos) is Some,
    ensures
        ({
            let (h, end) = spec_parse_peer_header(b, pos)->Some_0;
            &&& end == pos + 42
            &&& (!h.peer_flags.V ==> h.peer_addr == PeerAddress::V4(
                be_val(b.subrange(pos + 22, pos + 26)) as u32,
            ))
            &&& (h.peer_flags.V ==> h.peer_addr == PeerAddress::V6(
                be_val(b.subrange(pos + 10, pos + 26)) as u128,
            ))
        }),
{
}

/// With flag V clear, the twelve padding bytes are consumed but never
/// reach the decoded header: two bodies differing only there decode to
/// the very same header.
pub proof fn lemma_peer_header_padding_ignored(b1: Seq<u8>, b2: Seq<u8>, pos: int)
    requires
        b1.len() == b2.len(),
        0 <= pos,
        pos + 42 <= b1.len(),
        forall|i: int|
            pos <= i < pos + 42 && !(pos + 10 <= i < pos + 22) ==> b1[i] == #[trigger] b2[i],
        !crate::enums::spec_flags_from_byte(b1[pos + 1]).V,
    ensures
        spec_parse_peer_header(b1, pos) == spec_parse_peer_header(b2, pos),
{
    assert(b1[pos] == b2[pos]);
    assert(b1[pos + 1] == b2[pos + 1]);
    assert(b1.subrange(pos + 2, pos + 6) =~= b2.subrange(pos + 2, pos + 6));
    assert(b1.subrange(pos + 6, pos + 10) =~= b2.subrange(pos + 6, pos + 10));
    assert(b1.subrange(pos + 22, pos + 26) =~= b2.subrange(pos + 22, pos + 26));
    assert(b1.subrange(pos + 26, pos + 30) =~= b2.subrange(pos + 26, pos + 30));
    assert(b1.subrange(pos + 28, pos + 30) =~= b2.subrange(pos + 28, pos + 30));
    assert(b1.subrange(pos + 30, pos + 34) =~= b2.subrange(pos + 30, pos + 34));
    assert(b1.subrange(pos + 34, pos + 38) =~= b2.subrange(pos + 34, pos + 38));
    assert(b1.subrange(pos + 38, pos + 42) =~= b2.subrange(pos + 38, pos + 42));
    assert(spec_parse_peer_header(b1, pos)->Some_0.0 == spec_parse_peer_header(
        b2,
        pos,
    )->Some_0.0);
}

/// One frame consumes from the stream exactly its declared total
/// length, of which exactly the declared length less the six header
/// bytes is body, whatever later body decoding makes of it.
pub proof fn lemma_frame_consumes_declared_length(b: Seq<u8>, pos: int)
    requires
        0 <= pos,
        spec_next_frame(b, pos) is Ok,
    ensures
        ({
            let (h, body, p2) = spec_next_frame(b, pos)->Ok_0;
            &&& p2 - pos == h.length
            &&& body.len() == h.length - 6
        }),
{
    let h0 = crate::decoder::spec_parse_common_header(b, pos)->Some_0;
    assert(spec_next_frame(b, pos)->Ok_0.0 == h0);
    assert(spec_next_frame(b, pos)->Ok_0.2 == pos + h0.length);
    assert(spec_next_frame(b, pos)->Ok_0.1 == b.subrange(pos + 6, pos + h0.length));
}

/// The position after consuming `n` frames, where that many well-formed
/// frames follow.
pub open spec fn spec_consume_frames(b: Seq<u8>, pos: int, n: nat) -> Option<int>
    decreases n,
{
    if n == 0 {
        Some(pos)
    } else {
        match spec_next_frame(b, pos) {
            Ok((h, body, p2)) => spec_consume_frames(b, p2, (n - 1) as nat),
            Err(_) => None,
        }
    }
}

/// The sum of the declared total lengths of the `n` frames from `pos`.
pub open spec fn spec_total_declared(b: Seq<u8>, pos: int, n: nat) -> int
    decreases n,
{
    if n == 0 {
        0
    } else {
        match spec_next_frame(b, pos) {
            Ok((h, body, p2)) => h.length + spec_total_declared(b, p2, (n - 1) as nat),
            Err(_) => 0,
        }
    }
}

/// After any run of consecutive frames, the total bytes consumed equal
/// the sum of their declared lengths.
pub proof fn lemma_frames_consume_sum(b: Seq<u8>, pos: int, n: nat)
    requires
        spec_consume_frames(b, pos, n) is Some,
    ensures
        spec_consume_frames(b, pos, n)->Some_0 == pos + spec_total_declared(b, pos, n),
    decreases n,
{
    if n > 0 {
        let (h, body, p2) = spec_next_frame(b, pos)->Ok_0;
        lemma_frames_consume_sum(b, p2, (n - 1) as nat);
    }
}

} // verus!
