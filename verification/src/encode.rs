//! Encoders for the message shapes this crate decodes, and the
//! well-formedness conditions under which an encoding exists. They
//! serve monitors that replay or synthesize BMP streams, and they are
//! the other half of the decoder's round-trip guarantee.

use vstd::prelude::*;

use crate::bytes::{be_val, pow256};
use crate::enums::{
    info_type_canonical, kind_canonical, peer_type_canonical, spec_flags_from_byte,
    spec_info_type_code, spec_kind_code, spec_peer_type_code, PeerFlags,
};
use crate::messages::BmpMessage;
use crate::types::{
    tlv_models, BmpModel, InformationTlv, MessageDataModel, PeerAddress, PeerHeader, PeerUpModel,
    TlvModel,
};
use vstd::utf8::valid_utf8;

verus! {

broadcast use vstd::utf8::encode_utf8_valid_utf8;

/// Big-endian encoding of `v` in exactly `n` bytes, most significant
/// first.
pub open spec fn enc_be(v: nat, n: nat) -> Seq<u8>
    decreases n,
{
    if n == 0 {
        Seq::empty()
    } else {
        enc_be(v / 256, (n - 1) as nat) + seq![(v % 256) as u8]
    }
}

pub proof fn lemma_enc_be_len(v: nat, n: nat)
    ensures
        enc_be(v, n).len() == n,
    decreases n,
{
    if n > 0 {
        lemma_enc_be_len(v / 256, (n - 1) as nat);
    }
}

/// Reading back an encoding yields the value, as long as it fits.
pub proof fn lemma_enc_be_val(v: nat, n: nat)
    requires
        v < pow256(n),
    ensures
        enc_be(v, n).len() == n,
        be_val(enc_be(v, n)) == v,
    decreases n,
{
    lemma_enc_be_len(v, n);
    if n > 0 {
        let q = v / 256;
        let r = v % 256;
        vstd::arithmetic::div_mod::lemma_fundamental_div_mod(v as int, 256);
        vstd::arithmetic::div_mod::lemma_mod_bound(v as int, 256);
        assert(v == 256 * q + r && r < 256 && 0 <= q);
        assert(256 * q <= v);
        assert(q < pow256((n - 1) as nat));
        lemma_enc_be_val(q, (n - 1) as nat);
        let a = enc_be(q, (n - 1) as nat);
        let s = enc_be(v, n);
        assert(s == a + seq![(r) as u8]);
        assert(s.drop_last() =~= a);
        assert(s.last() == (r as u8));
    }
}

/// The flag byte carrying V, L and A in its top three bits.
pub open spec fn flags_byte(f: PeerFlags) -> u8 {
    ((if f.V {
        128int
    } else {
        0int
    }) + (if f.L {
        64int
    } else {
        0int
    }) + (if f.A {
        32int
    } else {
        0int
    })) as u8
}

/// Reading the flag byte back yields the same flags.
pub proof fn lemma_flags_roundtrip(f: PeerFlags)
    ensures
        spec_flags_from_byte(flags_byte(f)) == f,
{
    assert((0u8 & 0b10000000u8) != 0b10000000u8 && (0u8 & 0b01000000u8) != 0b01000000u8 && (0u8
        & 0b00100000u8) != 0b00100000u8 && (32u8 & 0b10000000u8) != 0b10000000u8 && (32u8
        & 0b01000000u8) != 0b01000000u8 && (32u8 & 0b00100000u8) == 0b00100000u8 && (64u8
        & 0b10000000u8) != 0b10000000u8 && (64u8 & 0b01000000u8) == 0b01000000u8 && (64u8
        & 0b00100000u8) != 0b00100000u8 && (96u8 & 0b10000000u8) != 0b10000000u8 && (96u8
        & 0b01000000u8) == 0b01000000u8 && (96u8 & 0b00100000u8) == 0b00100000u8 && (128u8
        & 0b10000000u8) == 0b10000000u8 && (128u8 & 0b01000000u8) != 0b01000000u8 && (128u8
        & 0b00100000u8) != 0b00100000u8 && (160u8 & 0b10000000u8) == 0b10000000u8 && (160u8
        & 0b01000000u8) != 0b01000000u8 && (160u8 & 0b00100000u8) == 0b00100000u8 && (192u8
        & 0b10000000u8) == 0b10000000u8 && (192u8 & 0b01000000u8) == 0b01000000u8 && (192u8
        & 0b00100000u8) != 0b00100000u8 && (224u8 & 0b10000000u8) == 0b10000000u8 && (224u8
        & 0b01000000u8) == 0b01000000u8 && (224u8 & 0b00100000u8) == 0b00100000u8) by (bit_vector);
}

/// Wire form of one information TLV.
pub open spec fn spec_encode_tlv(t: TlvModel) -> Seq<u8> {
    enc_be(spec_info_type_code(t.information_type) as nat, 2) + enc_be(t.value.len() as nat, 2)
        + t.value
}

/// Wire form of a run of TLVs, one after the other.
pub open spec fn spec_encode_tlvs(l: Seq<TlvModel>) -> Seq<u8>
    decreases l.len(),
{
    if l.len() == 0 {
        Seq::empty()
    } else {
        spec_encode_tlv(l[0]) + spec_encode_tlvs(l.drop_first())
    }
}

/// A TLV that has a wire form: a canonical type code, a value that
/// fits the 16-bit length field, and valid UTF-8 in the value.
pub open spec fn wf_tlv(t: TlvModel) -> bool {
    &&& info_type_canonical(t.information_type)
    &&& t.value.len() <= 0xFFFF
    &&& valid_utf8(t.value)
}

pub open spec fn wf_tlvs(l: Seq<TlvModel>) -> bool {
    forall|i: int| 0 <= i < l.len() ==> wf_tlv(#[trigger] l[i])
}

/// Wire form of the fixed 42-byte per-peer header.
pub open spec fn spec_encode_peer_header(h: PeerHeader) -> Seq<u8> {
    seq![spec_peer_type_code(h.peer_type)] + seq![flags_byte(h.peer_flags)] + enc_be(
        h.peer_distinguisher.high as nat,
        4,
    ) + enc_be(h.peer_distinguisher.low as nat, 4) + (match h.peer_addr {
        PeerAddress::V4(a) => enc_be(0, 12) + enc_be(a as nat, 4),
        PeerAddress::V6(a) => enc_be(a as nat, 16),
    }) + (if h.peer_flags.A {
        enc_be(0, 2) + enc_be(h.peer_asn as nat, 2)
    } else {
        enc_be(h.peer_asn as nat, 4)
    }) + enc_be(h.peer_bgp_id as nat, 4) + enc_be(h.timestamp as nat, 4) + enc_be(
        h.timestamp_ms as nat,
        4,
    )
}

/// A peer header that has a wire form: a canonical peer type, an
/// address family matching flag V, and an ASN that fits 16 bits when
/// flag A declares the narrow encoding.
pub open spec fn wf_peer_header(h: PeerHeader) -> bool {
    &&& peer_type_canonical(h.peer_type)
    &&& (h.peer_addr is V6 <==> h.peer_flags.V)
    &&& (h.peer_flags.A ==> h.peer_asn < 0x10000)
}

/// Wire form of a PeerUp body without captured OPENs: address and the
/// two ports, nothing more.
pub open spec fn spec_encode_peer_up(pu: PeerUpModel) -> Seq<u8> {
    (match pu.local_addr {
        PeerAddress::V4(a) => enc_be(0, 12) + enc_be(a as nat, 4),
        PeerAddress::V6(a) => enc_be(a as nat, 16),
    }) + enc_be(pu.local_port as nat, 2) + enc_be(pu.remote_port as nat, 2)
}

/// A PeerUp body model that has a wire form: only bodies without the
/// OPEN capture can be rebuilt, since a captured OPEN is an outside
/// value; such a body also carries no TLVs, which on the wire would
/// only follow the OPENs.
pub open spec fn wf_peer_up(pu: PeerUpModel, v_flag: bool) -> bool {
    &&& (pu.local_addr is V6 <==> v_flag)
    &&& !pu.sent_open_present
    &&& !pu.recv_open_present
    &&& pu.information == Seq::<TlvModel>::empty()
}

/// Wire form of a message body.
pub open spec fn spec_encode_body(m: BmpModel) -> Seq<u8> {
    match m.message {
        MessageDataModel::Unimplemented => Seq::empty(),
        MessageDataModel::Initiation(l) => spec_encode_tlvs(l),
        MessageDataModel::PeerUp(ph, pu) => spec_encode_peer_header(ph) + spec_encode_peer_up(pu),
        MessageDataModel::RouteMonitoring(_) => Seq::empty(),
    }
}

/// Wire form of a whole message: the 6-byte common header, whose
/// declared length counts the header itself, then the body.
pub open spec fn spec_encode_message(m: BmpModel) -> Seq<u8> {
    seq![m.version] + enc_be((6 + spec_encode_body(m).len()) as nat, 4) + seq![spec_kind_code(
        m.kind,
    )] + spec_encode_body(m)
}

/// The messages that have a wire form. A RouteMonitoring message does
/// not: its route update is an outside value. A PeerUp does only when
/// its OPEN capture is absent. An Initiation does when its TLV types
/// are all recognized, since decoding stops at an unrecognized code.
pub open spec fn encodable(m: BmpModel) -> bool {
    &&& kind_canonical(m.kind)
    &&& 6 + spec_encode_body(m).len() <= u32::MAX
    &&& match m.message {
        MessageDataModel::Unimplemented => !(m.kind is Initiation) && !(m.kind is PeerUp) && !(
        m.kind is RouteMonitoring),
        MessageDataModel::Initiation(l) => m.kind is Initiation && wf_tlvs(l) && (forall|i: int|
            0 <= i < l.len() ==> !((#[trigger] l[i]).information_type is Unknown)),
        MessageDataModel::PeerUp(ph, pu) => m.kind is PeerUp && wf_peer_header(ph) && wf_peer_up(
            pu,
            ph.peer_flags.V,
        ),
        MessageDataModel::RouteMonitoring(_) => false,
    }
}

/// Append the big-endian encoding of `v` in exactly `n` bytes.
pub fn push_be(out: &mut Vec<u8>, v: u128, n: usize)
    ensures
        final(out)@ == old(out)@ + enc_be(v as nat, n as nat),
    decreases n,
{
    if n == 0 {
        proof {
            assert(old(out)@ + enc_be(v as nat, 0) =~= old(out)@);
        }
        return ;
    }
    push_be(out, v / 256, n - 1);
    out.push((v % 256) as u8);
    proof {
        assert((v % 256) as u8 == ((v as nat) % 256) as u8);
        assert((v / 256) as nat == (v as nat) / 256);
        assert(old(out)@ + enc_be((v as nat) / 256, (n - 1) as nat) + seq![((v as nat) % 256) as u8]
            =~= old(out)@ + enc_be(v as nat, n as nat));
    }
}

/// Appending one more TLV to the run extends its wire form at the end.
pub proof fn lemma_encode_tlvs_snoc(l: Seq<TlvModel>, t: TlvModel)
    ensures
        spec_encode_tlvs(l.push(t)) == spec_encode_tlvs(l) + spec_encode_tlv(t),
    decreases l.len(),
{
    if l.len() == 0 {
        assert(l.push(t)[0] == t);
        assert(l.push(t).drop_first() =~= Seq::<TlvModel>::empty());
        assert(spec_encode_tlvs(l.push(t)) == spec_encode_tlv(t) + spec_encode_tlvs(
            Seq::<TlvModel>::empty(),
        ));
        assert(spec_encode_tlv(t) + Seq::<u8>::empty() =~= spec_encode_tlv(t));
        assert(Seq::<u8>::empty() + spec_encode_tlv(t) =~= spec_encode_tlv(t));
    } else {
        assert(l.push(t)[0] == l[0]);
        assert(l.push(t).drop_first() =~= l.drop_first().push(t));
        lemma_encode_tlvs_snoc(l.drop_first(), t);
        assert(spec_encode_tlv(l[0]) + (spec_encode_tlvs(l.drop_first()) + spec_encode_tlv(t))
            =~= (spec_encode_tlv(l[0]) + spec_encode_tlvs(l.drop_first())) + spec_encode_tlv(t));
    }
}

/// Encode one TLV onto `out`; fails only when the value does not fit
/// the 16-bit length field or the type code is not canonical.
fn push_tlv(out: &mut Vec<u8>, tlv: &InformationTlv) -> (r: bool)
    ensures
        r <==> (tlv@.value.len() <= 0xFFFF && info_type_canonical(tlv@.information_type)),
        r ==> final(out)@ == old(out)@ + spec_encode_tlv(tlv@),
        !r ==> final(out)@ == old(out)@,
{
    let code = tlv.information_type.code();
    match tlv.information_type {
        crate::enums::InformationType::Unknown(x) => {
            if x <= 2 {
                return false;
            }
        },
        _ => {},
    }
    let bytes = tlv.value.as_str().as_bytes_vec();
    if bytes.len() > 0xFFFF {
        return false;
    }
    push_be(out, code as u128, 2);
    push_be(out, bytes.len() as u128, 2);
    let mut i: usize = 0;
    let ghost before = out@;
    while i < bytes.len()
        invariant
            i <= bytes@.len(),
            out@ =~= before + bytes@.subrange(0, i as int),
        decreases bytes@.len() - i,
    {
        let b = bytes[i];
        out.push(b);
        proof {
            assert(out@ =~= before + bytes@.subrange(0, i + 1));
        }
        i += 1;
    }
    proof {
        assert(bytes@.subrange(0, bytes@.len() as int) =~= bytes@);
        assert(out@ =~= old(out)@ + spec_encode_tlv(tlv@));
    }
    true
}

/// Encode the 42-byte per-peer header onto `out`; fails only when the
/// header has no wire form.
fn push_peer_header(out: &mut Vec<u8>, h: &PeerHeader) -> (r: bool)
    ensures
        r <==> wf_peer_header(*h),
        r ==> final(out)@ == old(out)@ + spec_encode_peer_header(*h),
        !r ==> final(out)@ == old(out)@,
{
    match h.peer_type {
        crate::enums::PeerType::Unknown(x) => {
            if x <= 2 {
                return false;
            }
        },
        _ => {},
    }
    let addr_matches = match (h.peer_addr, h.peer_flags.V) {
        (PeerAddress::V6(_), true) => true,
        (PeerAddress::V4(_), false) => true,
        _ => false,
    };
    if !addr_matches {
        return false;
    }
    if h.peer_flags.A && h.peer_asn >= 0x10000 {
        return false;
    }
    out.push(h.peer_type.code());
    let fb: u8 = (if h.peer_flags.V {
        128
    } else {
        0
    }) + (if h.peer_flags.L {
        64
    } else {
        0
    }) + (if h.peer_flags.A {
        32
    } else {
        0
    });
    out.push(fb);
    push_be(out, h.peer_distinguisher.high as u128, 4);
    push_be(out, h.peer_distinguisher.low as u128, 4);
    match h.peer_addr {
        PeerAddress::V4(a) => {
            push_be(out, 0, 12);
            push_be(out, a as u128, 4);
        },
        PeerAddress::V6(a) => {
            push_be(out, a, 16);
        },
    }
    if h.peer_flags.A {
        push_be(out, 0, 2);
        push_be(out, h.peer_asn as u128, 2);
    } else {
        push_be(out, h.peer_asn as u128, 4);
    }
    push_be(out, h.peer_bgp_id as u128, 4);
    push_be(out, h.timestamp as u128, 4);
    push_be(out, h.timestamp_ms as u128, 4);
    proof {
        assert(out@ =~= old(out)@ + spec_encode_peer_header(*h));
    }
    true
}

impl BmpMessage {
    /// The wire form of this message, or nothing where none exists: a
    /// RouteMonitoring message, a PeerUp carrying its OPEN capture, an
    /// Initiation with an unrecognized or invalid TLV, a non-canonical
    /// kind, or a body so large that its length cannot be declared.
    pub fn encode(&self) -> (r: Option<Vec<u8>>)
        ensures
            r is Some <==> encodable(self@),
            r is Some ==> r->Some_0@ == spec_encode_message(self@),
    {
        match self.kind {
            crate::enums::MessageKind::Unknown(x) => {
                if x <= 6 {
                    return None;
                }
            },
            _ => {},
        }
        let mut body: Vec<u8> = Vec::new();
        match &self.message {
            crate::messages::MessageData::Unimplemented => {
                match self.kind {
                    crate::enums::MessageKind::Initiation => {
                        return None;
                    },
                    crate::enums::MessageKind::PeerUp => {
                        return None;
                    },
                    crate::enums::MessageKind::RouteMonitoring => {
                        return None;
                    },
                    _ => {},
                }
            },
            crate::messages::MessageData::Initiation(tlvs) => {
                match self.kind {
                    crate::enums::MessageKind::Initiation => {},
                    _ => {
                        return None;
                    },
                }
                let ghost l = tlv_models(tlvs@);
                let mut i: usize = 0;
                proof {
                    assert(spec_encode_tlvs(l.take(0)) =~= Seq::<u8>::empty());
                    assert(body@ =~= Seq::<u8>::empty() + spec_encode_tlvs(l.take(0)));
                }
                while i < tlvs.len()
                    invariant
                        i <= tlvs@.len(),
                        l == tlv_models(tlvs@),
                        l.len() == tlvs@.len(),
                        self.kind is Initiation,
                        self@.message == MessageDataModel::Initiation(l),
                        body@ == spec_encode_tlvs(l.take(i as int)),
                        forall|j: int|
                            0 <= j < i ==> wf_tlv(#[trigger] l[j]) && !(l[j].information_type
                                is Unknown),
                    decreases tlvs@.len() - i,
                {
                    let ok = push_tlv(&mut body, &tlvs[i]);
                    let unknown = match tlvs[i].information_type {
                        crate::enums::InformationType::Unknown(_) => true,
                        _ => false,
                    };
                    if !ok || unknown {
                        proof {
                            assert(l[i as int] == tlvs@[i as int]@);
                            assert(valid_utf8(l[i as int].value));
                            if !ok {
                                assert(!wf_tlv(l[i as int]));
                                assert(!wf_tlvs(l));
                            } else {
                                assert(l[i as int].information_type is Unknown);
                            }
                            assert(!encodable(self@));
                        }
                        return None;
                    }
                    proof {
                        assert(l[i as int] == tlvs@[i as int]@);
                        assert(valid_utf8(l[i as int].value));
                        lemma_encode_tlvs_snoc(l.take(i as int), l[i as int]);
                        assert(l.take(i as int).push(l[i as int]) =~= l.take(i + 1));
                    }
                    i += 1;
                }
                proof {
                    assert(l.take(tlvs@.len() as int) =~= l);
                }
            },
            crate::messages::MessageData::PeerUp(b) => {
                match self.kind {
                    crate::enums::MessageKind::PeerUp => {},
                    _ => {
                        return None;
                    },
                }
                let ph = &b.0;
                let up = &b.1;
                if !push_peer_header(&mut body, ph) {
                    return None;
                }
                if up.sent_open.is_some() || up.recv_open.is_some() || up.information.len() != 0 {
                    proof {
                        if up.information.len() == 0 {
                            assert(up@.information =~= Seq::<TlvModel>::empty());
                        }
                        assert(!encodable(self@));
                    }
                    return None;
                }
                proof {
                    assert(up@.information =~= Seq::<TlvModel>::empty());
                }
                let addr_matches = match (up.local_addr, ph.peer_flags.V) {
                    (PeerAddress::V6(_), true) => true,
                    (PeerAddress::V4(_), false) => true,
                    _ => false,
                };
                if !addr_matches {
                    return None;
                }
                match up.local_addr {
                    PeerAddress::V4(a) => {
                        push_be(&mut body, 0, 12);
                        push_be(&mut body, a as u128, 4);
                    },
                    PeerAddress::V6(a) => {
                        push_be(&mut body, a, 16);
                    },
                }
                push_be(&mut body, up.local_port as u128, 2);
                push_be(&mut body, up.remote_port as u128, 2);
                proof {
                    assert(up@.information =~= Seq::<TlvModel>::empty());
                    assert(body@ =~= spec_encode_peer_header(*ph) + spec_encode_peer_up(up@));
                }
            },
            crate::messages::MessageData::RouteMonitoring(_) => {
                return None;
            },
        }
        if body.len() > (u32::MAX - 6) as usize {
            return None;
        }
        let mut out: Vec<u8> = Vec::new();
        out.push(self.version);
        push_be(&mut out, (body.len() + 6) as u128, 4);
        out.push(self.kind.code());
        proof {
            assert(body@ == spec_encode_body(self@));
            assert(out@ =~= seq![self.version] + enc_be((6 + body@.len()) as nat, 4) + seq![
                spec_kind_code(self@.kind),
            ]);
        }
        let mut i: usize = 0;
        let ghost head = out@;
        while i < body.len()
            invariant
                i <= body@.len(),
                out@ =~= head + body@.subrange(0, i as int),
            decreases body@.len() - i,
        {
            let b = body[i];
            out.push(b);
            proof {
                assert(out@ =~= head + body@.subrange(0, i + 1));
            }
            i += 1;
        }
        proof {
            assert(body@.subrange(0, body@.len() as int) =~= body@);
            assert(body@ == spec_encode_body(self@));
            assert(out@ =~= spec_encode_message(self@));
        }
        Some(out)
    }
}

} // verus!
