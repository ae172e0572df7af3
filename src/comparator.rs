//! Deciding whether the compositor's current state already realises a
//! desired logical monitor.

use crate::model::{LogicalMonitor, LogicalMonitorUpdate, Mode, Monitor, UpdateView, update_views};
use crate::planner::{find_from, find_monitor};
use vstd::prelude::*;

verus! {

/// The first mode at or after `i` whose id is `id`.
pub open spec fn find_mode_from(modes: Seq<Mode>, id: Seq<char>, i: int) -> Option<int>
    decreases modes.len() - i,
{
    if i < 0 || i >= modes.len() {
        None
    } else if modes[i].id@ == id {
        Some(i)
    } else {
        find_mode_from(modes, id, i + 1)
    }
}

/// The hardware reports the named mode of the named connector as current
/// or preferred; an unknown connector or mode is not live.
pub open spec fn mode_is_live(hardware: Seq<Monitor>, connector: Seq<char>, mode: Seq<char>) -> bool {
    match find_from(hardware, connector, 0) {
        Some(i) => match find_mode_from(hardware[i].modes@, mode, 0) {
            Some(k) => hardware[i].modes@[k].is_live(),
            None => false,
        },
        None => false,
    }
}

/// Every monitor of the update names a live mode.
pub open spec fn modes_live(u: UpdateView, hardware: Seq<Monitor>) -> bool {
    forall|k: int|
        0 <= k < u.monitors.len() ==> mode_is_live(hardware, (#[trigger] u.monitors[k]).0, u.monitors[k].1)
}

/// Position, scale, transform and primary flag agree exactly.
pub open spec fn placement_equal(u: UpdateView, lm: LogicalMonitor) -> bool {
    &&& u.x == lm.x
    &&& u.y == lm.y
    &&& u.scale.float_eq(lm.scale)
    &&& u.transform == lm.transform
    &&& u.is_primary == lm.is_primary
}

/// The two monitor lists name the same connectors in the same order.
pub open spec fn connectors_equal(u: UpdateView, lm: LogicalMonitor) -> bool {
    &&& u.monitors.len() == lm.monitors@.len()
    &&& forall|k: int| 0 <= k < u.monitors.len() ==> (#[trigger] u.monitors[k]).0 == lm.monitors@[k].connector@
}

/// The existing logical monitor `lm` already realises the update `u`.
pub open spec fn realizes(u: UpdateView, lm: LogicalMonitor, hardware: Seq<Monitor>) -> bool {
    &&& modes_live(u, hardware)
    &&& placement_equal(u, lm)
    &&& connectors_equal(u, lm)
}

/// Some existing logical monitor realises `u`.
pub open spec fn realized_by_any(u: UpdateView, existing: Seq<LogicalMonitor>, hardware: Seq<Monitor>) -> bool {
    exists|j: int| 0 <= j < existing.len() && realizes(u, #[trigger] existing[j], hardware)
}

/// Every update is realised by some existing logical monitor.
pub open spec fn all_realized(updates: Seq<UpdateView>, existing: Seq<LogicalMonitor>, hardware: Seq<Monitor>) -> bool {
    forall|i: int| 0 <= i < updates.len() ==> realized_by_any(#[trigger] updates[i], existing, hardware)
}

/// Finds the first mode whose id is `id`.
pub fn find_mode(modes: &Vec<Mode>, id: &String) -> (r: Option<usize>)
    ensures
        r is Some <==> find_mode_from(modes@, id@, 0) is Some,
        r matches Some(i) ==> i as int == find_mode_from(modes@, id@, 0)->Some_0 && i < modes@.len(),
{
    let mut i: usize = 0;
    while i < modes.len()
        invariant
            i <= modes@.len(),
            find_mode_from(modes@, id@, 0) == find_mode_from(modes@, id@, i as int),
        decreases modes@.len() - i,
    {
        if modes[i].id == *id {
            return Some(i);
        }
        i += 1;
    }
    None
}

/// Whether the hardware reports the mode `mode` of `connector` as current
/// or preferred.
pub fn is_mode_live(hardware: &Vec<Monitor>, connector: &String, mode: &String) -> (r: bool)
    ensures
        r == mode_is_live(hardware@, connector@, mode@),
{
    match find_monitor(hardware, connector) {
        Some(i) => match find_mode(&hardware[i].modes, mode) {
            Some(k) => {
                let m = &hardware[i].modes[k];
                m.is_current == Some(true) || m.is_preferred == Some(true)
            },
            None => false,
        },
        None => false,
    }
}

impl LogicalMonitorUpdate {
    /// Whether the existing logical monitor `comparison` already realises
    /// this update, given the hardware's modes.
    pub fn matches_existing_state(&self, comparison: &LogicalMonitor, hardware_monitors: &Vec<Monitor>) -> (r: bool)
        ensures
            r == realizes(self@, *comparison, hardware_monitors@),
    {
        let mut k: usize = 0;
        while k < self.monitors.len()
            invariant
                k <= self.monitors@.len(),
                forall|q: int|
                    0 <= q < k ==> mode_is_live(
                        hardware_monitors@,
                        (#[trigger] self@.monitors[q]).0,
                        self@.monitors[q].1,
                    ),
            decreases self.monitors@.len() - k,
        {
            assert(self@.monitors[k as int] == (self.monitors@[k as int].connector@, self.monitors@[k as int].mode@));
            if !is_mode_live(hardware_monitors, &self.monitors[k].connector, &self.monitors[k].mode) {
                return false;
            }
            k += 1;
        }
        if !(self.x == comparison.x && self.y == comparison.y && self.scale.equals(&comparison.scale)
            && self.transform == comparison.transform && self.is_primary == comparison.is_primary) {
            return false;
        }
        if self.monitors.len() != comparison.monitors.len() {
            return false;
        }
        let mut k: usize = 0;
        while k < self.monitors.len()
            invariant
                k <= self.monitors@.len(),
                self.monitors@.len() == comparison.monitors@.len(),
                forall|q: int|
                    0 <= q < k ==> (#[trigger] self@.monitors[q]).0 == comparison.monitors@[q].connector@,
            decreases self.monitors@.len() - k,
        {
            assert(self@.monitors[k as int].0 == self.monitors@[k as int].connector@);
            if self.monitors[k].connector != comparison.monitors[k].connector {
                return false;
            }
            k += 1;
        }
        true
    }
}

/// Whether every update is realised by at least one existing logical monitor.
pub fn all_updates_realized(
    updates: &Vec<LogicalMonitorUpdate>,
    existing: &Vec<LogicalMonitor>,
    hardware: &Vec<Monitor>,
) -> (r: bool)
    ensures
        r == all_realized(update_views(updates@), existing@, hardware@),
{
    let mut i: usize = 0;
    while i < updates.len()
        invariant
            i <= updates@.len(),
            forall|q: int| 0 <= q < i ==> realized_by_any(#[trigger] update_views(updates@)[q], existing@, hardware@),
        decreases updates@.len() - i,
    {
        let mut found = false;
        let mut j: usize = 0;
        while j < existing.len() && !found
            invariant
                j <= existing@.len(),
                i < updates@.len(),
                found ==> realized_by_any(updates@[i as int]@, existing@, hardware@),
                !found ==> forall|q: int| 0 <= q < j ==> !realizes(updates@[i as int]@, #[trigger] existing@[q], hardware@),
            decreases existing@.len() - j,
        {
            if updates[i].matches_existing_state(&existing[j], hardware) {
                found = true;
            }
            j += 1;
        }
        if !found {
            assert(update_views(updates@)[i as int] == updates@[i as int]@);
            assert(!realized_by_any(updates@[i as int]@, existing@, hardware@));
            return false;
        }
        i += 1;
    }
    true
}

/// Changing any of x, y, scale, transform or primary flag of an update that
/// an existing logical monitor realises makes it no longer realised by it.
pub proof fn lemma_changed_placement_breaks_match(u: UpdateView, v: UpdateView, lm: LogicalMonitor, hardware: Seq<Monitor>)
    requires
        realizes(u, lm, hardware),
        v.monitors == u.monitors,
        v.x != u.x || v.y != u.y || !v.scale.float_eq(u.scale) || v.transform != u.transform || v.is_primary
            != u.is_primary,
    ensures
        !realizes(v, lm, hardware),
{
}

/// A monitor of the update whose mode the hardware reports as neither
/// current nor preferred keeps the update from being realised by any
/// logical monitor, wherever it stands.
pub proof fn lemma_dead_mode_breaks_match(u: UpdateView, lm: LogicalMonitor, hardware: Seq<Monitor>, k: int)
    requires
        0 <= k < u.monitors.len(),
        find_from(hardware, u.monitors[k].0, 0) matches Some(i) && (find_mode_from(hardware[i].modes@, u.monitors[k].1, 0) matches Some(q)
            && hardware[i].modes@[q].is_current != Some(true) && hardware[i].modes@[q].is_preferred != Some(true)),
    ensures
        !realizes(u, lm, hardware),
{
    assert(!mode_is_live(hardware, u.monitors[k].0, u.monitors[k].1));
}

} // verus!
