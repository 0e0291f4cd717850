//! What a `scan` request asks for: the vendor and transport, the id range to probe
//! and the per-probe timeout, with each vendor's defaults and range rules.
use vstd::prelude::*;
use crate::gateway::args::texts;
use crate::gateway::message::{
    as_u16, as_u64, parse_transport_in_msg, parse_vendor_in_msg, str_field, u16_field, uint_field,
    MsgValue,
};
use crate::gateway::model::{
    transport_named, unsupported_transport_text, unsupported_vendor_text, vendor_named,
    Transport, Vendor,
};
use crate::ht_commands::{clamped_range, hightorque_scan_range};
use crate::text::unicode_lower;

verus! {

/// The scan a request asks for.
#[derive(Clone, Copy, Debug, PartialEq, Eq, Structural)]
pub struct ScanPlan {
    pub vendor: Vendor,
    pub transport: Transport,
    pub start_id: u16,
    pub end_id: u16,
    pub timeout_ms: u64,
    /// Damiao: the feedback id tried besides the inferred ones.
    pub feedback_base: u16,
    /// RobStride: the parameter read when a ping gets no answer.
    pub param_id: u16,
}

/// The vendor a message names, or the default.
pub open spec fn vendor_in(v: MsgValue, default: Vendor) -> Result<Vendor, Seq<char>> {
    match str_field(v, "vendor"@) {
        None => Ok(default),
        Some(s) => match vendor_named(unicode_lower(s)) {
            Some(x) => Ok(x),
            None => Err(unsupported_vendor_text(s)),
        },
    }
}

/// The transport a message names, or the default.
pub open spec fn transport_in(v: MsgValue, default: Transport) -> Result<Transport, Seq<char>> {
    match str_field(v, "transport"@) {
        None => Ok(default),
        Some(s) => match transport_named(unicode_lower(s)) {
            Some(x) => Ok(x),
            None => Err(unsupported_transport_text(s)),
        },
    }
}

/// An unsigned field, or `default`.
pub open spec fn u64_field(v: MsgValue, key: Seq<char>, default: u64) -> u64 {
    match uint_field(v, key) {
        Some(n) => n,
        None => default,
    }
}

/// The MyActuator scan range: the start within `1..=32` and not after the end, the end
/// capped at 32.
pub open spec fn myactuator_range(start: u16, end_in: u16) -> Option<(u16, u16)> {
    if start == 0 || end_in == 0 || start > 32 || start > end_in {
        None
    } else {
        Some((start, if end_in > 32 { 32u16 } else { end_in }))
    }
}

/// The plan for `vendor` once its transport is known.
pub open spec fn vendor_plan(vendor: Vendor, t: Transport, v: MsgValue) -> Result<ScanPlan, Seq<char>> {
    match vendor {
        Vendor::Damiao => {
            let start = u16_field(v, "start_id"@, 1);
            let end = u16_field(v, "end_id"@, 16);
            if end < start {
                Err("end_id must be >= start_id"@)
            } else {
                Ok(
                    ScanPlan {
                        vendor,
                        transport: t,
                        start_id: start,
                        end_id: end,
                        timeout_ms: u64_field(v, "timeout_ms"@, 100),
                        feedback_base: u16_field(v, "feedback_base"@, 16),
                        param_id: 0,
                    },
                )
            }
        },
        Vendor::Robstride => {
            let start = u16_field(v, "start_id"@, 1);
            let end = u16_field(v, "end_id"@, 255);
            if end < start {
                Err("end_id must be >= start_id"@)
            } else {
                Ok(
                    ScanPlan {
                        vendor,
                        transport: t,
                        start_id: start,
                        end_id: end,
                        timeout_ms: u64_field(v, "timeout_ms"@, 120),
                        feedback_base: 0,
                        param_id: u16_field(v, "param_id"@, 0x7019),
                    },
                )
            }
        },
        Vendor::Myactuator => match myactuator_range(
            u16_field(v, "start_id"@, 1),
            u16_field(v, "end_id"@, 32),
        ) {
            None => Err("invalid scan range: expected start in 1..32 and start<=end"@),
            Some((s, e)) => Ok(
                ScanPlan {
                    vendor,
                    transport: t,
                    start_id: s,
                    end_id: e,
                    timeout_ms: u64_field(v, "timeout_ms"@, 100),
                    feedback_base: 0,
                    param_id: 0,
                },
            ),
        },
        Vendor::Hexfellow => Ok(
            ScanPlan {
                vendor,
                transport: t,
                start_id: u16_field(v, "start_id"@, 1),
                end_id: u16_field(v, "end_id"@, 32),
                timeout_ms: u64_field(v, "timeout_ms"@, 200),
                feedback_base: 0,
                param_id: 0,
            },
        ),
        Vendor::Hightorque => match clamped_range(
            u16_field(v, "start_id"@, 1),
            u16_field(v, "end_id"@, 32),
        ) {
            None => Err("invalid scan range after clamp (start_id > end_id)"@),
            Some((s, e)) => Ok(
                ScanPlan {
                    vendor,
                    transport: t,
                    start_id: s,
                    end_id: e,
                    timeout_ms: u64_field(v, "timeout_ms"@, 80),
                    feedback_base: 0,
                    param_id: 0,
                },
            ),
        },
    }
}

/// The scan a message asks for, with the session's vendor and transport as defaults.
pub open spec fn scan_plan_of(v: MsgValue, vendor: Vendor, transport: Transport) -> Result<
    ScanPlan,
    Seq<char>,
> {
    match vendor_in(v, vendor) {
        Err(m) => Err(m),
        Ok(x) => match transport_in(v, transport) {
            Err(m) => Err(m),
            Ok(t) => vendor_plan(x, t, v),
        },
    }
}

/// A scan never runs backwards: every plan but HexFellow's (whose range goes to the
/// vendor's own scan as given) starts no later than it ends; MyActuator's lies within
/// `1..=32` and HighTorque's within `1..=127`.
pub proof fn scan_plan_ranges(v: MsgValue, vendor: Vendor, transport: Transport)
    ensures
        scan_plan_of(v, vendor, transport) matches Ok(p) ==> {
            &&& p.vendor != Vendor::Hexfellow ==> p.start_id <= p.end_id
            &&& p.vendor == Vendor::Myactuator ==> 1 <= p.start_id && p.end_id <= 32
            &&& p.vendor == Vendor::Hightorque ==> 1 <= p.start_id && p.end_id <= 127
        },
{
}

pub fn plan_scan(v: &MsgValue, vendor: Vendor, transport: Transport) -> (r: Result<ScanPlan, String>)
    ensures
        match scan_plan_of(*v, vendor, transport) {
            Ok(p) => r == Ok::<ScanPlan, String>(p),
            Err(m) => r matches Err(e) && e@ == m,
        },
{
    let x = parse_vendor_in_msg(v, vendor)?;
    let t = parse_transport_in_msg(v, transport)?;
    match x {
        Vendor::Damiao => {
            let start = as_u16(v, "start_id", 1);
            let end = as_u16(v, "end_id", 16);
            let feedback_base = as_u16(v, "feedback_base", 16);
            let timeout_ms = as_u64(v, "timeout_ms", 100);
            if end < start {
                return Err(String::from_str("end_id must be >= start_id"));
            }
            Ok(
                ScanPlan {
                    vendor: x,
                    transport: t,
                    start_id: start,
                    end_id: end,
                    timeout_ms,
                    feedback_base,
                    param_id: 0,
                },
            )
        },
        Vendor::Robstride => {
            let start = as_u16(v, "start_id", 1);
            let end = as_u16(v, "end_id", 255);
            let timeout_ms = as_u64(v, "timeout_ms", 120);
            let param_id = as_u16(v, "param_id", 0x7019);
            if end < start {
                return Err(String::from_str("end_id must be >= start_id"));
            }
            Ok(
                ScanPlan {
                    vendor: x,
                    transport: t,
                    start_id: start,
                    end_id: end,
                    timeout_ms,
                    feedback_base: 0,
                    param_id,
                },
            )
        },
        Vendor::Myactuator => {
            let start = as_u16(v, "start_id", 1);
            let end_in = as_u16(v, "end_id", 32);
            if start == 0 || end_in == 0 || start > 32 || start > end_in {
                return Err(
                    String::from_str("invalid scan range: expected start in 1..32 and start<=end"),
                );
            }
            let end = if end_in > 32 {
                32
            } else {
                end_in
            };
            let timeout_ms = as_u64(v, "timeout_ms", 100);
            Ok(
                ScanPlan {
                    vendor: x,
                    transport: t,
                    start_id: start,
                    end_id: end,
                    timeout_ms,
                    feedback_base: 0,
                    param_id: 0,
                },
            )
        },
        Vendor::Hexfellow => {
            let start = as_u16(v, "start_id", 1);
            let end = as_u16(v, "end_id", 32);
            let timeout_ms = as_u64(v, "timeout_ms", 200);
            Ok(
                ScanPlan {
                    vendor: x,
                    transport: t,
                    start_id: start,
                    end_id: end,
                    timeout_ms,
                    feedback_base: 0,
                    param_id: 0,
                },
            )
        },
        Vendor::Hightorque => {
            let start = as_u16(v, "start_id", 1);
            let end = as_u16(v, "end_id", 32);
            match hightorque_scan_range(start, end) {
                None => Err(String::from_str("invalid scan range after clamp (start_id > end_id)")),
                Some((s, e)) => {
                    let timeout_ms = as_u64(v, "timeout_ms", 80);
                    Ok(
                        ScanPlan {
                            vendor: x,
                            transport: t,
                            start_id: s,
                            end_id: e,
                            timeout_ms,
                            feedback_base: 0,
                            param_id: 0,
                        },
                    )
                },
            }
        },
    }
}

/// The (feedback id, model) pairs a Damiao probe tries for one motor id: feedback
/// hint by feedback hint, each with every model hint in order.
pub open spec fn probe_pairs(fids: Seq<u16>, models: Seq<Seq<char>>) -> Seq<(u16, Seq<char>)>
    decreases fids.len(),
{
    if fids.len() == 0 {
        Seq::empty()
    } else {
        probe_pairs(fids.drop_last(), models) + models.map_values(
            |m: Seq<char>| (fids.last(), m),
        )
    }
}

pub open spec fn pair_texts(v: Seq<(u16, String)>) -> Seq<(u16, Seq<char>)> {
    Seq::new(v.len(), |i: int| (v[i].0, v[i].1@))
}

/// The candidates a Damiao scan or verify probes for one motor id, in order.
pub fn damiao_probe_candidates(fids: &Vec<u16>, models: &Vec<String>) -> (r: Vec<(u16, String)>)
    ensures
        pair_texts(r@) == probe_pairs(fids@, texts(models@)),
{
    let mut r: Vec<(u16, String)> = Vec::new();
    let mut i: usize = 0;
    while i < fids.len()
        invariant
            i <= fids.len(),
            pair_texts(r@) == probe_pairs(fids@.take(i as int), texts(models@)),
        decreases fids.len() - i,
    {
        let fid = fids[i];
        let ghost before = r@;
        let mut j: usize = 0;
        while j < models.len()
            invariant
                i < fids.len(),
                j <= models.len(),
                fid == fids@[i as int],
                r@.len() == before.len() + j,
                r@.take(before.len() as int) == before,
                pair_texts(r@) == pair_texts(before) + texts(models@).take(j as int).map_values(
                    |m: Seq<char>| (fid, m),
                ),
            decreases models.len() - j,
        {
            let ghost prev = r@;
            r.push((fid, models[j].clone()));
            proof {
                let lhs = pair_texts(r@);
                let rhs = pair_texts(before) + texts(models@).take((j + 1) as int).map_values(
                    |m: Seq<char>| (fid, m),
                );
                let old_rhs = pair_texts(before) + texts(models@).take(j as int).map_values(
                    |m: Seq<char>| (fid, m),
                );
                assert(pair_texts(prev) == old_rhs);
                assert forall|k: int| 0 <= k < lhs.len() implies lhs[k] == rhs[k] by {
                    if k < prev.len() {
                        assert(lhs[k] == pair_texts(prev)[k]);
                        assert(old_rhs[k] == rhs[k]);
                    } else {
                        assert(k == before.len() + j);
                        assert(lhs[k] == (fid, models@[j as int]@));
                    }
                }
                assert(lhs =~= rhs);
                assert(r@.take(before.len() as int) =~= before);
            }
            j = j + 1;
        }
        proof {
            let t = fids@.take((i + 1) as int);
            assert(t.drop_last() =~= fids@.take(i as int));
            assert(t.last() == fid);
            assert(texts(models@).take(models@.len() as int) =~= texts(models@));
        }
        i = i + 1;
    }
    proof {
        assert(fids@.take(fids@.len() as int) =~= fids@);
    }
    r
}

} // verus!
