use vstd::prelude::*;

use crate::enums::MessageKind;
use crate::types::PeerId;

verus! {

/// Whether `e` is a malformed-body error annotated with the given
/// message kind and peer identity.
pub open spec fn malformed_with(e: Error, kind: MessageKind, peer: Option<PeerId>) -> bool {
    match e {
        Error::MalformedBody { kind: k, peer: p, offset } => k == Some(kind) && p == peer,
        _ => false,
    }
}

/// Decode error taxonomy.
///
/// Framing failures (`Truncated`) are session-fatal: stream alignment
/// is lost and the connection must be dropped. Body failures
/// (`MalformedBody`, `MissingCapabilities`) are per-message and
/// recoverable, because the framer consumed the message's exact byte
/// extent before body decoding began. `Disconnected` is a clean
/// termination signal, not a fault.
#[derive(Copy, Clone, Debug, Eq, PartialEq)]
pub enum Error {
    /// Zero bytes available exactly at a frame boundary: the peer
    /// closed the stream cleanly.
    Disconnected,
    /// Short read mid-frame, a declared length shorter than the common
    /// header, or a transport failure.
    Truncated,
    /// Malformed body content at the given offset into the message
    /// body: a TLV or field overrunning the body end, invalid UTF-8 in
    /// a TLV value, an unexpected embedded-message discriminant, or a
    /// route update the session will not hand to the outside parser.
    /// The decoder annotates it with the message kind and, once the
    /// per-peer header is decoded, the peer's identity.
    MalformedBody { kind: Option<MessageKind>, peer: Option<PeerId>, offset: usize },
    /// A RouteMonitoring message arrived for a peer with no prior
    /// PeerUp, so no negotiated capability set is known.
    MissingCapabilities { peer: PeerId },
}

impl Error {
    /// Whether the session must be aborted: true exactly for framing
    /// and transport failures. Body errors leave the stream aligned on
    /// the next frame, and a clean disconnect is not a fault at all.
    pub fn is_fatal(&self) -> (r: bool)
        ensures
            r == (*self is Truncated),
    {
        match *self {
            Error::Truncated => true,
            _ => false,
        }
    }

    /// Short label for logs, in place of a display implementation.
    pub fn describe(&self) -> (r: String)
        ensures
            *self is Disconnected ==> r@ == "peer disconnected"@,
            *self is Truncated ==> r@ == "truncated frame or transport failure"@,
            *self is MalformedBody ==> r@ == "malformed message body"@,
            *self is MissingCapabilities ==> r@ == "no capabilities recorded for peer"@,
    {
        match *self {
            Error::Disconnected => "peer disconnected".to_owned(),
            Error::Truncated => "truncated frame or transport failure".to_owned(),
            Error::MalformedBody { .. } => "malformed message body".to_owned(),
            Error::MissingCapabilities { .. } => "no capabilities recorded for peer".to_owned(),
        }
    }
}

} // verus!
