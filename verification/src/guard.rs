//! A verified shape check that stands between the decoder and the
//! outside BGP library's update parser.
//!
//! The outside parser rejects most malformed input with a clean error:
//! its reads are capped by each attribute's declared length and by the
//! buffer end, so a short or overlong field surfaces as an error. A
//! few attribute shapes, though, reach arithmetic or slicing in that
//! library that can abort the process, and a monitoring station must
//! survive arbitrary peer bytes. This module recognizes those shapes
//! from the raw bytes, before the outside parser ever runs; the
//! decoder reports them as malformed instead of parsing them.
//!
//! The rejected shapes, against bgp-rs 0.6.0's source:
//! - an attribute set (code 128), whose nested attribute parsing
//!   recurses on attacker-chosen depth;
//! - a multiprotocol announce or withdraw (codes 14 and 15) whose
//!   address family is not plain IPv4 or IPv6: other families reach
//!   unimplemented parser arms;
//! - a multiprotocol announce or withdraw carrying the MPLS or
//!   MPLS-VPN subsequent family (codes 4 and 128), whose labelled
//!   prefix arithmetic underflows and overruns its address buffer on
//!   short prefix bit-lengths;
//! - a multiprotocol announce declaring a next-hop longer than 250
//!   bytes, which overflows the byte that the parser sums it into.
//!
//! Everything else is left to the outside parser, whose remaining
//! failure paths return errors.

use vstd::prelude::*;

use crate::bytes::be_val;

verus! {

/// Whether one attribute's declared payload, at `hp` with declared
/// length `alen` inside a block ending at `end`, avoids the rejected
/// shapes. A field that stops short of the block end never reaches the
/// faulty code, so only readable bytes constrain anything.
pub open spec fn spec_attr_payload_ok(b: Seq<u8>, code: u8, hp: int, alen: int, end: int) -> bool {
    if code == 128 {
        false
    } else if code == 14 || code == 15 {
        &&& (alen >= 2 && hp + 2 <= end ==> {
            let afi = be_val(b.subrange(hp, hp + 2));
            afi == 1 || afi == 2
        })
        &&& (alen >= 3 && hp + 3 <= end ==> b[hp + 2] != 4 && b[hp + 2] != 128)
        &&& (code == 14 && alen >= 4 && hp + 4 <= end ==> b[hp + 3] <= 250)
    } else {
        true
    }
}

/// Whether every attribute in the block `[p, end)` avoids the rejected
/// shapes. A header or payload that runs past the block end surfaces
/// as a clean error in the outside parser, so the walk stops there.
pub open spec fn spec_attrs_ok(b: Seq<u8>, p: int, end: int) -> bool
    decreases end - p,
{
    if p + 2 > end {
        true
    } else {
        let code = b[p + 1];
        if b[p] & 0x10 == 0x10 {
            if p + 4 > end {
                true
            } else {
                let alen = (be_val(b.subrange(p + 2, p + 4)) as u16) as int;
                spec_attr_payload_ok(b, code, p + 4, alen, end) && (if p + 4 + alen > end {
                    true
                } else {
                    spec_attrs_ok(b, p + 4 + alen, end)
                })
            }
        } else {
            if p + 3 > end {
                true
            } else {
                let alen = b[p + 2] as int;
                spec_attr_payload_ok(b, code, p + 3, alen, end) && (if p + 3 + alen > end {
                    true
                } else {
                    spec_attrs_ok(b, p + 3 + alen, end)
                })
            }
        }
    }
}

/// Whether an update with declared total length `length`, whose bytes
/// start at `pos`, avoids the rejected attribute shapes. The withdrawn
/// and trailing route blocks hold no such shapes, so only the path
/// attribute block is walked; a declared length too small, a block
/// length that contradicts it, or bytes that stop short all surface as
/// clean errors in the outside parser.
pub open spec fn spec_update_ok(b: Seq<u8>, pos: int, length: u16) -> bool {
    if length < 23 || pos + 2 > b.len() {
        true
    } else {
        let wl = (be_val(b.subrange(pos, pos + 2)) as u16) as int;
        if wl > length - 23 || pos + 4 + wl > b.len() {
            true
        } else {
            let p2 = pos + 2 + wl;
            let al = (be_val(b.subrange(p2, p2 + 2)) as u16) as int;
            if al > length - 23 - wl || p2 + 2 + al > b.len() {
                true
            } else {
                spec_attrs_ok(b, p2 + 2, p2 + 2 + al)
            }
        }
    }
}

/// Walk the attribute block `[p, end)` and report whether every
/// attribute avoids the rejected shapes.
fn attrs_check(buf: &Vec<u8>, start: usize, end: usize) -> (r: bool)
    requires
        start <= end <= buf@.len(),
    ensures
        r == spec_attrs_ok(buf@, start as int, end as int),
{
    let ghost b = buf@;
    let mut p = start;
    loop
        invariant
            start <= p <= end,
            end <= buf@.len(),
            b == buf@,
            spec_attrs_ok(b, start as int, end as int) <==> spec_attrs_ok(b, p as int, end as int),
        ensures
            spec_attrs_ok(b, start as int, end as int) <==> spec_attrs_ok(b, p as int, end as int),
            spec_attrs_ok(b, p as int, end as int),
        decreases end - p,
    {
        if end - p < 2 {
            break ;
        }
        let code = buf[p + 1];
        let extended = buf[p] & 0x10 == 0x10;
        let header_len: usize = if extended {
            4
        } else {
            3
        };
        if end - p < header_len {
            break ;
        }
        let alen: usize = if extended {
            proof {
                crate::bytes::lemma_be_val_bound(b.subrange(p + 2, p + 4));
                crate::bytes::lemma_pow256_vals();
            }
            crate::bytes::read_be_at(buf, p + 2, 2) as usize
        } else {
            buf[p + 2] as usize
        };
        let hp = p + header_len;

        // The payload conditions for this attribute.
        if code == 128 {
            proof {
                assert(!spec_attr_payload_ok(b, code, hp as int, alen as int, end as int));
                assert(!spec_attrs_ok(b, p as int, end as int));
            }
            return false;
        }
        if code == 14 || code == 15 {
            if alen >= 2 && end - hp >= 2 {
                proof {
                    crate::bytes::lemma_be_val_bound(b.subrange(hp as int, hp + 2));
                    crate::bytes::lemma_pow256_vals();
                }
                let afi = crate::bytes::read_be_at(buf, hp, 2);
                if afi != 1 && afi != 2 {
                    proof {
                        assert(!spec_attr_payload_ok(b, code, hp as int, alen as int, end as int));
                        assert(!spec_attrs_ok(b, p as int, end as int));
                    }
                    return false;
                }
            }
            if alen >= 3 && end - hp >= 3 {
                let safi = buf[hp + 2];
                if safi == 4 || safi == 128 {
                    proof {
                        assert(!spec_attr_payload_ok(b, code, hp as int, alen as int, end as int));
                        assert(!spec_attrs_ok(b, p as int, end as int));
                    }
                    return false;
                }
            }
            if code == 14 && alen >= 4 && end - hp >= 4 {
                if buf[hp + 3] > 250 {
                    proof {
                        assert(!spec_attr_payload_ok(b, code, hp as int, alen as int, end as int));
                        assert(!spec_attrs_ok(b, p as int, end as int));
                    }
                    return false;
                }
            }
        }
        proof {
            assert(spec_attr_payload_ok(b, code, hp as int, alen as int, end as int));
        }
        if alen > end - hp {
            break ;
        }
        p = hp + alen;
    }
    true
}

/// Report whether the update bytes avoid every rejected shape; the
/// decoder treats a rejected update as malformed without handing it to
/// the outside parser.
pub fn update_shape_check(buf: &Vec<u8>, pos: usize, length: u16) -> (r: bool)
    requires
        pos <= buf@.len(),
    ensures
        r == spec_update_ok(buf@, pos as int, length),
{
    if length < 23 || buf.len() - pos < 2 {
        return true;
    }
    proof {
        crate::bytes::lemma_be_val_bound(buf@.subrange(pos as int, pos + 2));
        crate::bytes::lemma_pow256_vals();
    }
    let wl = crate::bytes::read_be_at(buf, pos, 2) as usize;
    if wl > (length - 23) as usize || buf.len() - pos - 2 < wl {
        return true;
    }
    let p2 = pos + 2 + wl;
    if buf.len() - p2 < 2 {
        return true;
    }
    proof {
        crate::bytes::lemma_be_val_bound(buf@.subrange(p2 as int, p2 + 2));
        crate::bytes::lemma_pow256_vals();
    }
    let al = crate::bytes::read_be_at(buf, p2, 2) as usize;
    if al > (length - 23) as usize - wl || al > buf.len() - p2 - 2 {
        return true;
    }
    attrs_check(buf, p2 + 2, p2 + 2 + al)
}

} // verus!
