use vstd::prelude::*;

use crate::enums::{InformationType, MessageKind, PeerFlags, PeerType};

verus! {

broadcast use vstd::seq_lib::group_seq_lib_default;

/// Network address of a monitored peer, held as the integer value of
/// its 4-byte or 16-byte big-endian wire form.
#[derive(Copy, Clone, Debug, Eq, PartialEq, Hash, Structural)]
pub enum PeerAddress {
    V4(u32),
    V6(u128),
}

/// What a capability store entry is keyed by.
///
/// Both the peer's network address and its BGP router id have been used
/// in practice; which one identifies a peer is a per-connection
/// configuration choice, not a protocol rule, so the decoder takes it
/// as an explicit argument.
#[derive(Copy, Clone, Debug, Eq, PartialEq, Hash, Structural)]
pub enum PeerId {
    Address(PeerAddress),
    RouterId(u32),
}

/// The configured choice of peer identity for the capability store.
#[derive(Copy, Clone, Debug, Eq, PartialEq, Hash, Structural)]
pub enum PeerKeying {
    ByAddress,
    ByRouterId,
}

/// Route distinguisher of the per-peer header, as its two 32-bit
/// halves; its interpretation depends on the peer type.
#[derive(Copy, Clone, Debug, Eq, PartialEq, Hash, Structural)]
pub struct RouteDistinguisher {
    pub high: u32,
    pub low: u32,
}

/// Per-peer header that follows the common header of most BMP messages.
#[derive(Copy, Clone, Debug, Eq, PartialEq, Hash, Structural)]
pub struct PeerHeader {
    pub peer_type: PeerType,
    pub peer_flags: PeerFlags,
    pub peer_distinguisher: RouteDistinguisher,
    pub peer_addr: PeerAddress,
    pub peer_asn: u32,
    pub peer_bgp_id: u32,
    pub timestamp: u32,
    pub timestamp_ms: u32,
}

/// The identity a header assigns to its peer under the given keying.
pub open spec fn spec_identity(h: PeerHeader, keying: PeerKeying) -> PeerId {
    match keying {
        PeerKeying::ByAddress => PeerId::Address(h.peer_addr),
        PeerKeying::ByRouterId => PeerId::RouterId(h.peer_bgp_id),
    }
}

impl PeerHeader {
    pub fn identity(&self, keying: PeerKeying) -> (r: PeerId)
        ensures
            r == spec_identity(*self, keying),
    {
        match keying {
            PeerKeying::ByAddress => PeerId::Address(self.peer_addr),
            PeerKeying::ByRouterId => PeerId::RouterId(self.peer_bgp_id),
        }
    }
}

/// Information TLV carried by Initiation and PeerUp messages: a type
/// code and a UTF-8 string value of exactly the declared length.
#[derive(Debug)]
pub struct InformationTlv {
    pub information_type: InformationType,
    pub value: String,
}

/// Mathematical model of an information TLV: the value is modelled by
/// its UTF-8 byte encoding, which is what stands on the wire.
#[verifier::ext_equal]
pub struct TlvModel {
    pub information_type: InformationType,
    pub value: Seq<u8>,
}

impl View for InformationTlv {
    type V = TlvModel;

    open spec fn view(&self) -> TlvModel {
        TlvModel {
            information_type: self.information_type,
            value: vstd::utf8::encode_utf8(self.value@),
        }
    }
}

/// The models of a sequence of decoded TLVs.
pub open spec fn tlv_models(v: Seq<InformationTlv>) -> Seq<TlvModel> {
    v.map_values(|t: InformationTlv| t@)
}

/// Model of a decoded PeerUp body. The captured OPEN messages are
/// parsed by the outside BGP library, so the model records only
/// whether each capture was present.
#[verifier::ext_equal]
pub struct PeerUpModel {
    pub local_addr: PeerAddress,
    pub local_port: u16,
    pub remote_port: u16,
    pub sent_open_present: bool,
    pub recv_open_present: bool,
    pub information: Seq<TlvModel>,
}

/// Model of a message body. The route update of a RouteMonitoring
/// message is an outside value, so the model keeps its peer header
/// only.
#[verifier::ext_equal]
pub enum MessageDataModel {
    Unimplemented,
    Initiation(Seq<TlvModel>),
    PeerUp(PeerHeader, PeerUpModel),
    RouteMonitoring(PeerHeader),
}

/// Model of a whole decoded BMP message.
#[verifier::ext_equal]
pub struct BmpModel {
    pub version: u8,
    pub kind: MessageKind,
    pub message: MessageDataModel,
}

} // verus!
