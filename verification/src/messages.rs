use vstd::prelude::*;

use crate::enums::MessageKind;
use crate::types::{
    tlv_models, BmpModel, InformationTlv, MessageDataModel, PeerAddress, PeerHeader, PeerUpModel,
};

verus! {

/// Peer Up notification body: a peering session reached the
/// Established state. The captured OPEN messages may be absent; some
/// peers omit the capture entirely, which is valid.
#[derive(Debug)]
pub struct PeerUp {
    pub local_addr: PeerAddress,
    pub local_port: u16,
    pub remote_port: u16,
    pub sent_open: Option<bgp_rs::Open>,
    pub recv_open: Option<bgp_rs::Open>,
    pub information: Vec<InformationTlv>,
}

impl View for PeerUp {
    type V = PeerUpModel;

    open spec fn view(&self) -> PeerUpModel {
        PeerUpModel {
            local_addr: self.local_addr,
            local_port: self.local_port,
            remote_port: self.remote_port,
            sent_open_present: self.sent_open is Some,
            recv_open_present: self.recv_open is Some,
            information: tlv_models(self.information@),
        }
    }
}

/// Decoded body variant, tagged by the message kind of the common
/// header. Kinds without a decode routine keep `Unimplemented`; their
/// body bytes are still consumed, because framing happens before body
/// decoding.
#[derive(Debug)]
pub enum MessageData {
    Unimplemented,
    Initiation(Vec<InformationTlv>),
    PeerUp((PeerHeader, PeerUp)),
    RouteMonitoring((PeerHeader, bgp_rs::Update)),
}

impl View for MessageData {
    type V = MessageDataModel;

    open spec fn view(&self) -> MessageDataModel {
        match self {
            MessageData::Unimplemented => MessageDataModel::Unimplemented,
            MessageData::Initiation(tlvs) => MessageDataModel::Initiation(tlv_models(tlvs@)),
            MessageData::PeerUp(b) => MessageDataModel::PeerUp(b.0, b.1@),
            MessageData::RouteMonitoring(b) => MessageDataModel::RouteMonitoring(b.0),
        }
    }
}

/// One decoded BMP message, constructed fresh on each successful
/// decode call and owned solely by the caller.
#[derive(Debug)]
pub struct BmpMessage {
    pub version: u8,
    pub kind: MessageKind,
    pub message: MessageData,
}

impl View for BmpMessage {
    type V = BmpModel;

    open spec fn view(&self) -> BmpModel {
        BmpModel { version: self.version, kind: self.kind, message: self.message@ }
    }
}

} // verus!
