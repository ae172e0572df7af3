//! One reconciliation pass, from a decoded snapshot to the request that the
//! transport is to send, if any.

use crate::comparator::{all_realized, all_updates_realized, modes_live, realized_by_any, realizes};
use crate::model::{DecodeError, LogicalMonitor, Method, Monitor, UpdateView};
use crate::planner::{PlanError, chosen, lemma_plan_ignores_mode_flags, offsets_fit, plan_layout, plan_view, same_hardware};
use crate::wire::{CurrentStateRaw, LogicalMonitorRaw, LogicalMonitorUpdateRaw, MonitorRaw, logical_encodes, monitor_encodes};
use vstd::prelude::*;

verus! {

/// The compositor's state as one fetch reported it.
#[derive(Debug)]
pub struct Snapshot {
    /// The version token that an apply derived from this snapshot must carry.
    pub serial: u32,
    pub monitors: Vec<Monitor>,
    pub logical_monitors: Vec<LogicalMonitor>,
}

/// An apply-configuration request.
#[derive(Debug)]
pub struct ApplyRequest {
    pub serial: u32,
    pub method: Method,
    pub updates: Vec<LogicalMonitorUpdateRaw>,
}

/// What a pass concluded.
#[derive(Debug)]
pub enum PassOutcome {
    /// No target connector is present: nothing is sent.
    NoEligibleTargets,
    /// The current state already realises the planned layout: nothing is sent.
    AlreadyConfigured,
    /// This request is to be sent.
    Apply(ApplyRequest),
}

/// `raw` is the wire form of the update `v`.
pub open spec fn raw_matches_view(raw: LogicalMonitorUpdateRaw, v: UpdateView) -> bool {
    &&& raw.0 as int == v.x
    &&& raw.1 as int == v.y
    &&& raw.2 == v.scale
    &&& raw.3 == v.transform.spec_code()
    &&& raw.4 == v.is_primary
    &&& raw.5@.len() == v.monitors.len()
    &&& forall|k: int| 0 <= k < raw.5@.len() ==> ((#[trigger] raw.5@[k]).0@, raw.5@[k].1@) == v.monitors[k]
}

pub open spec fn raws_match_views(raws: Seq<LogicalMonitorUpdateRaw>, vs: Seq<UpdateView>) -> bool {
    &&& raws.len() == vs.len()
    &&& forall|k: int| 0 <= k < raws.len() ==> raw_matches_view(#[trigger] raws[k], vs[k])
}

impl Snapshot {
    /// Decodes a fetched state; fails exactly when some logical monitor
    /// carries a transform code out of range.
    pub fn from_raw(raw: &CurrentStateRaw) -> (r: Result<Snapshot, DecodeError>)
        ensures
            r is Ok <==> forall|j: int| 0 <= j < raw.2@.len() ==> (#[trigger] raw.2@[j]).3 <= 7,
            r matches Err(e) ==> e == DecodeError::TransformOutOfRange,
            r matches Ok(s) ==> {
                &&& s.serial == raw.0
                &&& s.monitors@.len() == raw.1@.len()
                &&& forall|j: int| 0 <= j < raw.1@.len() ==> monitor_encodes(#[trigger] raw.1@[j], s.monitors@[j])
                &&& s.logical_monitors@.len() == raw.2@.len()
                &&& forall|j: int| 0 <= j < raw.2@.len() ==> logical_encodes(#[trigger] raw.2@[j], s.logical_monitors@[j])
            },
    {
        let mut monitors: Vec<Monitor> = Vec::new();
        let mut i: usize = 0;
        while i < raw.1.len()
            invariant
                i <= raw.1@.len(),
                monitors@.len() == i,
                forall|j: int| 0 <= j < i ==> monitor_encodes(#[trigger] raw.1@[j], monitors@[j]),
            decreases raw.1@.len() - i,
        {
            monitors.push(Monitor::from_raw(&raw.1[i]));
            i += 1;
        }
        let mut logical_monitors: Vec<LogicalMonitor> = Vec::new();
        let mut i: usize = 0;
        while i < raw.2.len()
            invariant
                i <= raw.2@.len(),
                logical_monitors@.len() == i,
                forall|j: int| 0 <= j < i ==> (#[trigger] raw.2@[j]).3 <= 7,
                forall|j: int| 0 <= j < i ==> logical_encodes(#[trigger] raw.2@[j], logical_monitors@[j]),
            decreases raw.2@.len() - i,
        {
            match LogicalMonitor::from_raw(&raw.2[i]) {
                Ok(lm) => logical_monitors.push(lm),
                Err(e) => return Err(e),
            }
            i += 1;
        }
        Ok(Snapshot { serial: raw.0, monitors, logical_monitors })
    }
}

/// Decides one pass: plan the strip for `targets`, and ask for an apply
/// under the snapshot's serial unless the current state already realises it.
pub fn decide(targets: &Vec<String>, snapshot: &Snapshot) -> (r: Result<PassOutcome, PlanError>)
    ensures
        ({
            let inv = snapshot.monitors@;
            let idx = chosen(targets@, inv);
            let plan = plan_view(targets@, inv);
            &&& (r matches Ok(PassOutcome::NoEligibleTargets)) <==> idx.len() == 0
            &&& r is Err <==> idx.len() > 0 && !offsets_fit(inv, idx)
            &&& r matches Err(e) ==> e == PlanError::OffsetOverflow
            &&& (r matches Ok(PassOutcome::AlreadyConfigured)) <==> idx.len() > 0 && offsets_fit(inv, idx) && all_realized(
                plan,
                snapshot.logical_monitors@,
                inv,
            )
            &&& r matches Ok(PassOutcome::Apply(req)) ==> {
                &&& req.serial == snapshot.serial
                &&& req.method == Method::Persistent
                &&& raws_match_views(req.updates@, plan)
            }
        }),
{
    let updates = match plan_layout(targets, &snapshot.monitors) {
        Ok(u) => u,
        Err(PlanError::NoEligibleTargets) => return Ok(PassOutcome::NoEligibleTargets),
        Err(e) => return Err(e),
    };
    if all_updates_realized(&updates, &snapshot.logical_monitors, &snapshot.monitors) {
        return Ok(PassOutcome::AlreadyConfigured);
    }
    let ghost plan = plan_view(targets@, snapshot.monitors@);
    let mut raws: Vec<LogicalMonitorUpdateRaw> = Vec::new();
    let mut i: usize = 0;
    while i < updates.len()
        invariant
            i <= updates@.len(),
            plan == crate::model::update_views(updates@),
            raws_match_views(raws@, plan.subrange(0, i as int)),
        decreases updates@.len() - i,
    {
        let raw = updates[i].into_raw();
        assert(plan[i as int] == updates@[i as int]@);
        raws.push(raw);
        i += 1;
        assert(raw_matches_view(raws@[i - 1], plan.subrange(0, i as int)[i - 1]));
    }
    assert(plan.subrange(0, updates@.len() as int) =~= plan);
    Ok(PassOutcome::Apply(ApplyRequest { serial: snapshot.serial, method: Method::Persistent, updates: raws }))
}

/// `lm` is what the compositor reports after applying `u` as it was sent.
pub open spec fn echoes(lm: LogicalMonitor, u: UpdateView) -> bool {
    &&& lm.x == u.x
    &&& lm.y == u.y
    &&& lm.scale == u.scale
    &&& lm.transform == u.transform
    &&& lm.is_primary == u.is_primary
    &&& lm.monitors@.len() == u.monitors.len()
    &&& forall|k: int| 0 <= k < u.monitors.len() ==> (#[trigger] lm.monitors@[k]).connector@ == u.monitors[k].0
}

/// The compositor's state once it has applied `plan`: each update is echoed
/// by some logical monitor, and each mode that was asked for is reported
/// as current or preferred.
pub open spec fn applied_state(plan: Seq<UpdateView>, existing: Seq<LogicalMonitor>, hardware: Seq<Monitor>) -> bool {
    forall|k: int|
        0 <= k < plan.len() ==> {
            &&& exists|j: int| 0 <= j < existing.len() && echoes(#[trigger] existing[j], plan[k])
            &&& modes_live(#[trigger] plan[k], hardware)
        }
}

/// A second pass over the state that applying the first pass's plan left
/// behind asks for nothing: it plans the same strip, and every update of it
/// is already realised. Preferred scales that are NaN are left out, since
/// a NaN never equals itself.
pub proof fn lemma_second_pass_is_noop(
    targets: Seq<String>,
    before: Seq<Monitor>,
    after: Seq<Monitor>,
    existing: Seq<LogicalMonitor>,
)
    requires
        same_hardware(before, after),
        applied_state(plan_view(targets, before), existing, after),
        forall|k: int|
            0 <= k < plan_view(targets, before).len() ==> !(#[trigger] plan_view(targets, before)[k]).scale.is_nan(),
    ensures
        plan_view(targets, after) == plan_view(targets, before),
        all_realized(plan_view(targets, after), existing, after),
{
    lemma_plan_ignores_mode_flags(targets, before, after);
    let plan = plan_view(targets, before);
    assert forall|k: int| 0 <= k < plan.len() implies realized_by_any(#[trigger] plan[k], existing, after) by {
        let j = choose|j: int| 0 <= j < existing.len() && echoes(#[trigger] existing[j], plan[k]);
        assert(realizes(plan[k], existing[j], after));
    }
}

} // verus!
