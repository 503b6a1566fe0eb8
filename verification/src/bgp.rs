//! The crate's own decoder for a BGP OPEN message, used when the raw
//! capability advertisements of a peer are wanted as plain values
//! rather than as the outside library's parsed form.

use vstd::prelude::*;

use crate::bytes::{be_val, Cursor};
use crate::error::Error;

verus! {

/// BGP OPEN message: protocol version, sender ASN, proposed hold
/// timer, sender router id, and the raw optional parameters.
#[derive(Debug)]
pub struct BgpOpen {
    pub version: u8,
    pub peer_asn: u16,
    pub hold_timer: u16,
    pub peer_rid: u32,
    pub parameters: Vec<OpenParameter>,
}

/// One optional parameter of an OPEN message: a type code, a length,
/// and exactly that many raw value bytes.
#[derive(Debug)]
pub struct OpenParameter {
    pub param_type: u8,
    pub param_length: u8,
    pub value: Vec<u8>,
}

/// Model of an optional parameter.
#[verifier::ext_equal]
pub struct OpenParamModel {
    pub param_type: u8,
    pub param_length: u8,
    pub value: Seq<u8>,
}

impl View for OpenParameter {
    type V = OpenParamModel;

    open spec fn view(&self) -> OpenParamModel {
        OpenParamModel {
            param_type: self.param_type,
            param_length: self.param_length,
            value: self.value@,
        }
    }
}

pub open spec fn open_param_models(v: Seq<OpenParameter>) -> Seq<OpenParamModel> {
    v.map_values(|p: OpenParameter| p@)
}

/// Model of an OPEN message.
#[verifier::ext_equal]
pub struct OpenModel {
    pub version: u8,
    pub peer_asn: u16,
    pub hold_timer: u16,
    pub peer_rid: u32,
    pub parameters: Seq<OpenParamModel>,
}

impl View for BgpOpen {
    type V = OpenModel;

    open spec fn view(&self) -> OpenModel {
        OpenModel {
            version: self.version,
            peer_asn: self.peer_asn,
            hold_timer: self.hold_timer,
            peer_rid: self.peer_rid,
            parameters: open_param_models(self.parameters@),
        }
    }
}

/// Parse of one optional parameter at `pos`: type, length, value.
pub open spec fn spec_parse_open_param(b: Seq<u8>, pos: int) -> Option<(OpenParamModel, int)> {
    if 0 <= pos && pos + 2 <= b.len() {
        let l = b[pos + 1] as int;
        if pos + 2 + l <= b.len() {
            Some(
                (
                    OpenParamModel {
                        param_type: b[pos],
                        param_length: b[pos + 1],
                        value: b.subrange(pos + 2, pos + 2 + l),
                    },
                    pos + 2 + l,
                ),
            )
        } else {
            None
        }
    } else {
        None
    }
}

/// Parse of a run of optional parameters that must fill exactly
/// `remaining` declared bytes: a parameter overrunning that budget is a
/// parse failure, not an arithmetic fault.
pub open spec fn spec_parse_open_params(b: Seq<u8>, pos: int, remaining: int) -> Option<
    (Seq<OpenParamModel>, int),
>
    decreases remaining,
{
    if remaining <= 0 {
        if remaining == 0 {
            Some((Seq::empty(), pos))
        } else {
            None
        }
    } else {
        match spec_parse_open_param(b, pos) {
            None => None,
            Some((p, p2)) => {
                let consumed = 2 + p.param_length as int;
                if consumed > remaining {
                    None
                } else {
                    match spec_parse_open_params(b, p2, remaining - consumed) {
                        None => None,
                        Some((rest, pend)) => Some((seq![p] + rest, pend)),
                    }
                }
            },
        }
    }
}

/// All sixteen bytes at `pos` carry the all-ones BGP header marker.
pub open spec fn bgp_marker_at(b: Seq<u8>, pos: int) -> bool {
    forall|i: int| pos <= i < pos + 16 ==> b[i] == 255u8
}

/// Parse of an OPEN at `pos`. A leading all-ones marker means the OPEN
/// sits inside a full BGP envelope, whose length and type are read and
/// whose type must be 1; otherwise the fixed fields start right away.
pub open spec fn spec_parse_open(b: Seq<u8>, pos: int) -> Option<(OpenModel, int)> {
    if 0 <= pos && pos + 16 <= b.len() {
        let p1 = if bgp_marker_at(b, pos) {
            if pos + 19 <= b.len() && b[pos + 18] == 1u8 {
                Some(pos + 19)
            } else {
                None
            }
        } else {
            Some(pos)
        };
        match p1 {
            None => None,
            Some(p1) => {
                if p1 + 10 <= b.len() {
                    let plen = b[p1 + 9] as int;
                    match spec_parse_open_params(b, p1 + 10, plen) {
                        None => None,
                        Some((params, pend)) => Some(
                            (
                                OpenModel {
                                    version: b[p1],
                                    peer_asn: be_val(b.subrange(p1 + 1, p1 + 3)) as u16,
                                    hold_timer: be_val(b.subrange(p1 + 3, p1 + 5)) as u16,
                                    peer_rid: be_val(b.subrange(p1 + 5, p1 + 9)) as u32,
                                    parameters: params,
                                },
                                pend,
                            ),
                        ),
                    }
                } else {
                    None
                }
            },
        }
    } else {
        None
    }
}

impl OpenParameter {
    /// Decode one optional parameter; returns how many bytes it stood
    /// for (two plus the declared value length) together with the
    /// parameter.
    pub fn decode(cur: &mut Cursor) -> (r: Result<(u16, OpenParameter), Error>)
        requires
            old(cur).wf(),
        ensures
            final(cur).wf(),
            final(cur).data() == old(cur).data(),
            match spec_parse_open_param(old(cur).data(), old(cur).pos()) {
                Some((p, end)) => {
                    &&& r is Ok
                    &&& r->Ok_0.1@ == p
                    &&& r->Ok_0.0 == 2 + p.param_length as u16
                    &&& final(cur).pos() == end
                },
                None => r is Err && r->Err_0 is MalformedBody,
            },
    {
        let start = cur.position();
        let param_type = match cur.read_u8() {
            Some(v) => v,
            None => {
                return Err(Error::MalformedBody { kind: None, peer: None, offset: start });
            },
        };
        let param_length = match cur.read_u8() {
            Some(v) => v,
            None => {
                return Err(Error::MalformedBody { kind: None, peer: None, offset: start });
            },
        };
        let value = match cur.read_bytes(param_length as usize) {
            Some(v) => v,
            None => {
                return Err(Error::MalformedBody { kind: None, peer: None, offset: start });
            },
        };
        Ok((2 + param_length as u16, OpenParameter { param_type, param_length, value }))
    }
}

impl BgpOpen {
    /// Decode a BGP OPEN, with or without its enclosing envelope. An
    /// envelope whose type is not OPEN, or parameters that overrun
    /// their declared total length, are recoverable decode errors.
    pub fn decode(cur: &mut Cursor) -> (r: Result<BgpOpen, Error>)
        requires
            old(cur).wf(),
        ensures
            final(cur).wf(),
            final(cur).data() == old(cur).data(),
            match spec_parse_open(old(cur).data(), old(cur).pos()) {
                Some((m, end)) => r is Ok && r->Ok_0@ == m && final(cur).pos() == end,
                None => r is Err && r->Err_0 is MalformedBody,
            },
    {
        let ghost data = old(cur).data();
        let start = cur.position();
        let marker = match cur.read_bytes(16) {
            Some(m) => m,
            None => {
                return Err(Error::MalformedBody { kind: None, peer: None, offset: start });
            },
        };
        let mut all_ones = true;
        let mut i: usize = 0;
        while i < 16
            invariant
                i <= 16,
                marker@.len() == 16,
                all_ones <==> (forall|j: int| 0 <= j < i ==> marker@[j] == 255u8),
            decreases 16 - i,
        {
            if marker[i] != 255 {
                all_ones = false;
            }
            i += 1;
        }
        proof {
            if all_ones {
                assert forall|i2: int| start <= i2 < start + 16 implies data[i2] == 255u8 by {
                    assert(marker@[i2 - start] == 255u8);
                }
            }
            if bgp_marker_at(data, start as int) {
                assert forall|j: int| 0 <= j < 16 implies marker@[j] == 255u8 by {
                    assert(marker@[j] == data[start + j]);
                }
                assert(all_ones);
            }
            assert(all_ones == bgp_marker_at(data, start as int));
        }
        if all_ones {
            // A full BGP envelope precedes the OPEN fields: consume its
            // length and check that it declares an OPEN.
            let envelope_len = match cur.read_u16_be() {
                Some(v) => v,
                None => {
                    return Err(Error::MalformedBody { kind: None, peer: None, offset: start });
                },
            };
            let envelope_type = match cur.read_u8() {
                Some(v) => v,
                None => {
                    return Err(Error::MalformedBody { kind: None, peer: None, offset: start });
                },
            };
            if envelope_type != 1 {
                return Err(Error::MalformedBody { kind: None, peer: None, offset: start });
            }
        } else {
            cur.set_position(start);
        }
        let ghost p1 = cur.pos();
        if cur.remaining() < 10 {
            return Err(Error::MalformedBody { kind: None, peer: None, offset: cur.position() });
        }
        let version = cur.read_u8().unwrap();
        let peer_asn = cur.read_u16_be().unwrap();
        let hold_timer = cur.read_u16_be().unwrap();
        let peer_rid = cur.read_u32_be().unwrap();
        let params_len = cur.read_u8().unwrap();

        let ghost params_start = cur.pos();
        let mut remaining: u16 = params_len as u16;
        let mut parameters: Vec<OpenParameter> = Vec::new();
        proof {
            assert(open_param_models(parameters@) =~= Seq::<OpenParamModel>::empty());
            if spec_parse_open_params(data, params_start, params_len as int) is Some {
                let (rest, pend) = spec_parse_open_params(
                    data,
                    params_start,
                    params_len as int,
                )->Some_0;
                assert(open_param_models(parameters@) + rest =~= rest);
            }
        }
        while remaining > 0
            invariant
                cur.wf(),
                data == old(cur).data(),
                start == old(cur).pos(),
                cur.data() == data,
                match spec_parse_open_params(data, cur.pos(), remaining as int) {
                    None => spec_parse_open_params(data, params_start, params_len as int) is None,
                    Some((rest, pend)) => spec_parse_open_params(
                        data,
                        params_start,
                        params_len as int,
                    ) == Some((open_param_models(parameters@) + rest, pend)),
                },
                match spec_parse_open_params(data, params_start, params_len as int) {
                    None => spec_parse_open(data, start as int) is None,
                    Some((params_all, pend)) => spec_parse_open(data, start as int) == Some(
                        (
                            OpenModel {
                                version,
                                peer_asn,
                                hold_timer,
                                peer_rid,
                                parameters: params_all,
                            },
                            pend,
                        ),
                    ),
                },
            decreases remaining,
        {
            let ghost p = cur.pos();
            let (consumed, param) = match OpenParameter::decode(cur) {
                Ok(x) => x,
                Err(e) => {
                    return Err(e);
                },
            };
            if consumed > remaining {
                return Err(Error::MalformedBody { kind: None, peer: None, offset: cur.position() });
            }
            remaining = remaining - consumed;
            proof {
                let pm = spec_parse_open_param(data, p)->Some_0.0;
                assert(open_param_models(parameters@.push(param)) =~= open_param_models(
                    parameters@,
                ).push(pm));
                if spec_parse_open_params(data, cur.pos(), remaining as int) is Some {
                    let (rest2, pend2) = spec_parse_open_params(
                        data,
                        cur.pos(),
                        remaining as int,
                    )->Some_0;
                    assert(open_param_models(parameters@) + (seq![pm] + rest2)
                        =~= open_param_models(parameters@).push(pm) + rest2);
                }
            }
            parameters.push(param);
        }
        proof {
            assert(open_param_models(parameters@) + Seq::<OpenParamModel>::empty()
                =~= open_param_models(parameters@));
        }
        let open = BgpOpen { version, peer_asn, hold_timer, peer_rid, parameters };
        proof {
            assert(open@ =~= spec_parse_open(data, start as int)->Some_0.0);
        }
        Ok(open)
    }
}

} // verus!
