//! Decoding of a BGP Monitoring Protocol (BMP) message stream.
//!
//! BMP is a one-directional export protocol that BGP speakers, typically
//! network routers, use to report peering and routing state to a
//! monitoring station. This crate provides the framing logic that
//! isolates each message's exact byte extent, the per-peer header
//! decoder, a per-connection capability store that links a peer's
//! negotiated BGP session capabilities to the later decoding of that
//! peer's route updates, and one decode routine per message kind.

pub mod bgp;
pub mod bytes;
pub mod decoder;
pub mod encode;
pub mod enums;
pub mod error;
pub mod guard;
pub mod laws;
pub mod messages;
pub mod outside;
pub mod store;
pub mod types;

pub use crate::bgp::{BgpOpen, OpenParameter};
pub use crate::decoder::{next_frame, CommonHeader, Decoder};
pub use crate::enums::{InformationType, MessageKind, PeerFlags, PeerType};
pub use crate::error::Error;
pub use crate::messages::{BmpMessage, MessageData, PeerUp};
pub use crate::store::CapabilityStore;
pub use crate::types::{
    InformationTlv, PeerAddress, PeerHeader, PeerId, PeerKeying, RouteDistinguisher,
};
