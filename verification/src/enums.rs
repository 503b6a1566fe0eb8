use vstd::prelude::*;

verus! {

/// BMP message kind, read from the kind code of the common header.
///
/// An unrecognized code decodes to the catch-all `Unknown` variant so
/// that messages from newer peer software stay framed and readable.
#[derive(Copy, Clone, Debug, Eq, PartialEq, Hash, Structural)]
pub enum MessageKind {
    RouteMonitoring,
    StatisticsReport,
    PeerDown,
    PeerUp,
    Initiation,
    Termination,
    RouteMirroring,
    Unknown(u8),
}

pub open spec fn spec_kind_from_code(value: u8) -> MessageKind {
    if value == 0 {
        MessageKind::RouteMonitoring
    } else if value == 1 {
        MessageKind::StatisticsReport
    } else if value == 2 {
        MessageKind::PeerDown
    } else if value == 3 {
        MessageKind::PeerUp
    } else if value == 4 {
        MessageKind::Initiation
    } else if value == 5 {
        MessageKind::Termination
    } else if value == 6 {
        MessageKind::RouteMirroring
    } else {
        MessageKind::Unknown(value)
    }
}

pub open spec fn spec_kind_code(k: MessageKind) -> u8 {
    match k {
        MessageKind::RouteMonitoring => 0,
        MessageKind::StatisticsReport => 1,
        MessageKind::PeerDown => 2,
        MessageKind::PeerUp => 3,
        MessageKind::Initiation => 4,
        MessageKind::Termination => 5,
        MessageKind::RouteMirroring => 6,
        MessageKind::Unknown(x) => x,
    }
}

/// A kind is canonical when its `Unknown` code does not shadow a named kind;
/// decoding only ever produces canonical kinds.
pub open spec fn kind_canonical(k: MessageKind) -> bool {
    k is Unknown ==> spec_kind_code(k) > 6
}

impl MessageKind {
    pub fn from_code(value: u8) -> (r: Self)
        ensures
            r == spec_kind_from_code(value),
    {
        match value {
            0 => MessageKind::RouteMonitoring,
            1 => MessageKind::StatisticsReport,
            2 => MessageKind::PeerDown,
            3 => MessageKind::PeerUp,
            4 => MessageKind::Initiation,
            5 => MessageKind::Termination,
            6 => MessageKind::RouteMirroring,
            _ => MessageKind::Unknown(value),
        }
    }

    pub fn code(&self) -> (r: u8)
        ensures
            r == spec_kind_code(*self),
    {
        match *self {
            MessageKind::RouteMonitoring => 0,
            MessageKind::StatisticsReport => 1,
            MessageKind::PeerDown => 2,
            MessageKind::PeerUp => 3,
            MessageKind::Initiation => 4,
            MessageKind::Termination => 5,
            MessageKind::RouteMirroring => 6,
            MessageKind::Unknown(x) => x,
        }
    }

    /// Short lower-case label, in place of a display implementation.
    pub fn name(&self) -> (r: String)
        ensures
            *self is RouteMonitoring ==> r@ == "route_monitoring"@,
            *self is StatisticsReport ==> r@ == "statistics_report"@,
            *self is PeerDown ==> r@ == "peer_down"@,
            *self is PeerUp ==> r@ == "peer_up"@,
            *self is Initiation ==> r@ == "initiation"@,
            *self is Termination ==> r@ == "termination"@,
            *self is RouteMirroring ==> r@ == "route_mirroring"@,
            *self is Unknown ==> r@ == "unknown"@,
    {
        match *self {
            MessageKind::RouteMonitoring => "route_monitoring".to_owned(),
            MessageKind::StatisticsReport => "statistics_report".to_owned(),
            MessageKind::PeerDown => "peer_down".to_owned(),
            MessageKind::PeerUp => "peer_up".to_owned(),
            MessageKind::Initiation => "initiation".to_owned(),
            MessageKind::Termination => "termination".to_owned(),
            MessageKind::RouteMirroring => "route_mirroring".to_owned(),
            MessageKind::Unknown(_) => "unknown".to_owned(),
        }
    }
}

impl From<u8> for MessageKind {
    fn from(value: u8) -> (r: Self) {
        MessageKind::from_code(value)
    }
}

impl vstd::std_specs::convert::FromSpecImpl<u8> for MessageKind {
    open spec fn obeys_from_spec() -> bool {
        true
    }

    open spec fn from_spec(v: u8) -> MessageKind {
        spec_kind_from_code(v)
    }
}

/// Peer type of the per-peer header.
#[derive(Copy, Clone, Debug, Eq, PartialEq, Hash, Structural)]
pub enum PeerType {
    GlobalInstance,
    RdInstance,
    LocalInstance,
    Unknown(u8),
}

pub open spec fn spec_peer_type_from_code(value: u8) -> PeerType {
    if value == 0 {
        PeerType::GlobalInstance
    } else if value == 1 {
        PeerType::RdInstance
    } else if value == 2 {
        PeerType::LocalInstance
    } else {
        PeerType::Unknown(value)
    }
}

pub open spec fn spec_peer_type_code(t: PeerType) -> u8 {
    match t {
        PeerType::GlobalInstance => 0,
        PeerType::RdInstance => 1,
        PeerType::LocalInstance => 2,
        PeerType::Unknown(x) => x,
    }
}

pub open spec fn peer_type_canonical(t: PeerType) -> bool {
    t is Unknown ==> spec_peer_type_code(t) > 2
}

impl PeerType {
    pub fn from_code(value: u8) -> (r: Self)
        ensures
            r == spec_peer_type_from_code(value),
    {
        match value {
            0 => PeerType::GlobalInstance,
            1 => PeerType::RdInstance,
            2 => PeerType::LocalInstance,
            _ => PeerType::Unknown(value),
        }
    }

    pub fn code(&self) -> (r: u8)
        ensures
            r == spec_peer_type_code(*self),
    {
        match *self {
            PeerType::GlobalInstance => 0,
            PeerType::RdInstance => 1,
            PeerType::LocalInstance => 2,
            PeerType::Unknown(x) => x,
        }
    }

    /// Short lower-case label, in place of a display implementation.
    pub fn name(&self) -> (r: String)
        ensures
            *self is GlobalInstance ==> r@ == "global"@,
            *self is RdInstance ==> r@ == "rd"@,
            *self is LocalInstance ==> r@ == "local"@,
            *self is Unknown ==> r@ == "unknown"@,
    {
        match *self {
            PeerType::GlobalInstance => "global".to_owned(),
            PeerType::RdInstance => "rd".to_owned(),
            PeerType::LocalInstance => "local".to_owned(),
            PeerType::Unknown(_) => "unknown".to_owned(),
        }
    }
}

impl From<u8> for PeerType {
    fn from(value: u8) -> (r: Self) {
        PeerType::from_code(value)
    }
}

impl vstd::std_specs::convert::FromSpecImpl<u8> for PeerType {
    open spec fn obeys_from_spec() -> bool {
        true
    }

    open spec fn from_spec(v: u8) -> PeerType {
        spec_peer_type_from_code(v)
    }
}

/// The three defined flag bits of the per-peer header.
///
/// `V` selects the address family (set: 16-byte address; clear: 4-byte
/// address after 12 bytes of zero padding), `L` marks post-policy
/// routes, and `A` selects the ASN width (set: 2 bytes after 2 reserved
/// bytes; clear: 4 bytes).
#[allow(non_snake_case)]
#[derive(Copy, Clone, Debug, Eq, PartialEq, Hash, Structural)]
pub struct PeerFlags {
    pub V: bool,
    pub L: bool,
    pub A: bool,
}

pub open spec fn spec_flags_from_byte(value: u8) -> PeerFlags {
    PeerFlags {
        V: value & 0b10000000 == 0b10000000,
        L: value & 0b01000000 == 0b01000000,
        A: value & 0b00100000 == 0b00100000,
    }
}

impl PeerFlags {
    pub fn from_byte(value: u8) -> (r: Self)
        ensures
            r == spec_flags_from_byte(value),
    {
        PeerFlags {
            V: value & 0b10000000 == 0b10000000,
            L: value & 0b01000000 == 0b01000000,
            A: value & 0b00100000 == 0b00100000,
        }
    }
}

impl From<u8> for PeerFlags {
    fn from(value: u8) -> (r: Self) {
        PeerFlags::from_byte(value)
    }
}

impl vstd::std_specs::convert::FromSpecImpl<u8> for PeerFlags {
    open spec fn obeys_from_spec() -> bool {
        true
    }

    open spec fn from_spec(v: u8) -> PeerFlags {
        spec_flags_from_byte(v)
    }
}

/// Type code of an information TLV.
#[derive(Copy, Clone, Debug, Eq, PartialEq, Hash, Structural)]
pub enum InformationType {
    FreeformString,
    SysDescr,
    SysName,
    Unknown(u16),
}

pub open spec fn spec_info_type_from_code(value: u16) -> InformationType {
    if value == 0 {
        InformationType::FreeformString
    } else if value == 1 {
        InformationType::SysDescr
    } else if value == 2 {
        InformationType::SysName
    } else {
        InformationType::Unknown(value)
    }
}

pub open spec fn spec_info_type_code(t: InformationType) -> u16 {
    match t {
        InformationType::FreeformString => 0,
        InformationType::SysDescr => 1,
        InformationType::SysName => 2,
        InformationType::Unknown(x) => x,
    }
}

pub open spec fn info_type_canonical(t: InformationType) -> bool {
    t is Unknown ==> spec_info_type_code(t) > 2
}

impl InformationType {
    pub fn from_code(value: u16) -> (r: Self)
        ensures
            r == spec_info_type_from_code(value),
    {
        match value {
            0 => InformationType::FreeformString,
            1 => InformationType::SysDescr,
            2 => InformationType::SysName,
            _ => InformationType::Unknown(value),
        }
    }

    pub fn code(&self) -> (r: u16)
        ensures
            r == spec_info_type_code(*self),
    {
        match *self {
            InformationType::FreeformString => 0,
            InformationType::SysDescr => 1,
            InformationType::SysName => 2,
            InformationType::Unknown(x) => x,
        }
    }

    /// Short lower-case label, in place of a display implementation.
    pub fn name(&self) -> (r: String)
        ensures
            *self is FreeformString ==> r@ == "string"@,
            *self is SysDescr ==> r@ == "sys_descr"@,
            *self is SysName ==> r@ == "sys_name"@,
            *self is Unknown ==> r@ == "unknown"@,
    {
        match *self {
            InformationType::FreeformString => "string".to_owned(),
            InformationType::SysDescr => "sys_descr".to_owned(),
            InformationType::SysName => "sys_name".to_owned(),
            InformationType::Unknown(_) => "unknown".to_owned(),
        }
    }
}

impl From<u16> for InformationType {
    fn from(value: u16) -> (r: Self) {
        InformationType::from_code(value)
    }
}

impl vstd::std_specs::convert::FromSpecImpl<u16> for InformationType {
    open spec fn obeys_from_spec() -> bool {
        true
    }

    open spec fn from_spec(v: u16) -> InformationType {
        spec_info_type_from_code(v)
    }
}

} // verus!
