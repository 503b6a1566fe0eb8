//! Declarations of, and trusted calls into, the outside BGP parsing
//! library, plus the one trusted call into std's UTF-8 validation.
//!
//! The detailed parsing of embedded BGP OPEN and UPDATE payloads is
//! out of this crate's scope: it is delegated to the bgp_rs crate
//! through the wrappers below, each of which states no more than that
//! crate's source shows.

use vstd::prelude::*;

use crate::bytes::{be_val, Cursor};
use crate::guard::spec_update_ok;

verus! {

/// The result of bgp_rs::Open::parse on the bytes from `pos` on: the
/// position just past the parsed OPEN when it succeeds, and nothing
/// when it fails. That parse reads the bytes alone — fixed fields, a
/// declared parameter total, and the parameters — so its outcome is a
/// function of the bytes and nothing else.
pub uninterp spec fn open_parse_at(b: Seq<u8>, pos: int) -> Option<int>;

#[verifier::external_type_specification]
#[verifier::external_body]
pub struct ExBgpOpen(bgp_rs::Open);

#[verifier::external_type_specification]
#[verifier::external_body]
pub struct ExBgpUpdate(bgp_rs::Update);

#[verifier::external_type_specification]
#[verifier::external_body]
pub struct ExBgpCapabilities(bgp_rs::Capabilities);

/// Relies on bgp_rs::Header::parse: it reads the 16-byte marker (not
/// validated there), a big-endian 16-bit length and one type byte, so
/// it succeeds exactly when 19 bytes remain, consumes exactly those,
/// and returns the length and type it read.
#[verifier::external_body]
pub(crate) fn bgp_header_parse(cur: &mut Cursor) -> (r: Option<(u16, u8)>)
    requires
        old(cur).wf(),
    ensures
        final(cur).wf(),
        final(cur).data() == old(cur).data(),
        r is Some <==> old(cur).pos() + 19 <= old(cur).data().len(),
        r is Some ==> {
            &&& r->Some_0.0 == be_val(
                old(cur).data().subrange(old(cur).pos() + 16, old(cur).pos() + 18),
            ) as u16
            &&& r->Some_0.1 == old(cur).data()[old(cur).pos() + 18]
            &&& final(cur).pos() == old(cur).pos() + 19
        },
        r is None ==> *final(cur) == *old(cur),
{
    let mut sc = std::io::Cursor::new(&cur.buf[cur.pos..]);
    match bgp_rs::Header::parse(&mut sc) {
        Ok(h) => {
            cur.pos += sc.position() as usize;
            Some((h.length, h.record_type))
        },
        Err(_) => None,
    }
}

/// Relies on bgp_rs::Open::parse: it succeeds exactly when the named
/// parse of the bytes does, and then ends at the named position, which
/// lies within the buffer; nothing further is claimed of the parsed
/// value, which this crate only stores and hands back.
#[verifier::external_body]
pub(crate) fn bgp_open_parse(cur: &mut Cursor) -> (r: Option<bgp_rs::Open>)
    requires
        old(cur).wf(),
    ensures
        final(cur).wf(),
        final(cur).data() == old(cur).data(),
        old(cur).pos() <= final(cur).pos(),
        r is Some <==> open_parse_at(old(cur).data(), old(cur).pos()) is Some,
        r is Some ==> final(cur).pos() == open_parse_at(
            old(cur).data(),
            old(cur).pos(),
        )->Some_0,
        r is None ==> *final(cur) == *old(cur),
{
    let mut sc = std::io::Cursor::new(&cur.buf[cur.pos..]);
    match bgp_rs::Open::parse(&mut sc) {
        Ok(o) => {
            cur.pos += sc.position() as usize;
            Some(o)
        },
        Err(_) => None,
    }
}

/// Relies on bgp_rs::Update::parse: on success the reading position
/// advances and stays within the buffer. The declared length and
/// record type are the ones read from the embedded BGP header; bgp_rs
/// never reads the marker field, so a zeroed one is supplied.
///
/// The shape condition keeps out the inputs on which that parse does
/// not return: every read there is capped by the attribute's declared
/// length and by the buffer end, and the AS-path segment walk first
/// probes that its segments tile the declared length exactly, so those
/// paths end in clean errors; what remains — nested attribute sets,
/// multiprotocol families outside plain IPv4/IPv6, the labelled MPLS
/// prefix arithmetic, an oversized next-hop length byte — is exactly
/// what the shape condition excludes.
#[verifier::external_body]
pub(crate) fn bgp_update_parse(
    cur: &mut Cursor,
    length: u16,
    record_type: u8,
    capabilities: &bgp_rs::Capabilities,
) -> (r: Option<bgp_rs::Update>)
    requires
        old(cur).wf(),
        spec_update_ok(old(cur).data(), old(cur).pos(), length),
    ensures
        final(cur).wf(),
        final(cur).data() == old(cur).data(),
        old(cur).pos() <= final(cur).pos(),
        r is None ==> *final(cur) == *old(cur),
{
    let header = bgp_rs::Header { marker: [0u8; 16], length, record_type };
    let mut sc = std::io::Cursor::new(&cur.buf[cur.pos..]);
    match bgp_rs::Update::parse(&header, &mut sc, capabilities) {
        Ok(u) => {
            cur.pos += sc.position() as usize;
            Some(u)
        },
        Err(_) => None,
    }
}

/// Relies on bgp_rs::Capabilities::from_parameters, the capability
/// reconciliation this version of the crate offers: it derives the
/// session capability set from one OPEN's advertised parameters.
#[verifier::external_body]
pub(crate) fn capabilities_of_open(open: &bgp_rs::Open) -> bgp_rs::Capabilities {
    bgp_rs::Capabilities::from_parameters(open.parameters.clone())
}

/// Relies on the derived bgp_rs::Capabilities::default: the empty
/// capability set, the documented fallback when no OPEN was captured.
#[verifier::external_body]
pub(crate) fn capabilities_default() -> bgp_rs::Capabilities {
    bgp_rs::Capabilities::default()
}

/// Relies on String::from_utf8: it succeeds exactly on valid UTF-8
/// input and returns the string holding those very bytes.
#[verifier::external_body]
pub(crate) fn string_from_utf8(v: Vec<u8>) -> (r: Option<String>)
    ensures
        r is Some <==> vstd::utf8::valid_utf8(v@),
        r is Some ==> r->Some_0@ == vstd::utf8::decode_utf8(v@),
{
    String::from_utf8(v).ok()
}

} // verus!
