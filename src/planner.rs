//! Choosing each monitor's mode and laying the target monitors out as a strip.

use core::cmp::Ordering;
use crate::float::ordering_of;
use crate::model::{LogicalMonitorUpdate, Mode, Monitor, MonitorUpdateInfo, Transform, UpdateView, update_views};
use vstd::prelude::*;

verus! {

/// Width, then height, compared as integers.
pub open spec fn size_order(a: Mode, b: Mode) -> Ordering {
    if a.width != b.width {
        ordering_of(a.width - b.width)
    } else {
        ordering_of(a.height - b.height)
    }
}

/// Where a refresh rate ranks among rates: a NaN ranks below every rate
/// that is a number.
pub open spec fn rate_key(m: Mode) -> int {
    if m.refresh_rate.is_nan() {
        -0x1_0000_0000_0000_0000
    } else {
        m.refresh_rate.rank()
    }
}

/// The order in which modes compete: width, then height, then refresh rate,
/// a NaN rate below every other and tied with another NaN.
pub open spec fn mode_order(a: Mode, b: Mode) -> Ordering {
    let base = size_order(a, b);
    if base == Ordering::Equal {
        ordering_of(rate_key(a) - rate_key(b))
    } else {
        base
    }
}

/// `a` does not order above `b`.
pub open spec fn mode_le(a: Mode, b: Mode) -> bool {
    mode_order(a, b) != Ordering::Greater
}

/// The winner among the first `n` modes: each next mode replaces the current
/// winner unless the winner orders strictly above it.
pub open spec fn best_among(modes: Seq<Mode>, n: int) -> int
    decreases n,
{
    if n <= 1 {
        0
    } else {
        let b = best_among(modes, n - 1);
        if mode_order(modes[b], modes[n - 1]) == Ordering::Greater {
            b
        } else {
            n - 1
        }
    }
}

/// Width then height, lexicographically: `a` is no larger than `b`.
pub open spec fn size_le(a: Mode, b: Mode) -> bool {
    a.width < b.width || (a.width == b.width && a.height <= b.height)
}

/// `r` is a greatest of the first `n` modes, and the last one of those.
pub open spec fn is_selected(modes: Seq<Mode>, n: int, r: int) -> bool {
    &&& 0 <= r < n
    &&& forall|j: int| 0 <= j < n ==> mode_le(#[trigger] modes[j], modes[r])
    &&& forall|j: int| r < j < n ==> !mode_le(modes[r], #[trigger] modes[j])
}

/// The selected mode is the greatest by width, then height, then refresh
/// rate, the last among equals: it has the largest size, and among the
/// modes of its size whose rate is a number, its rate is a number and the
/// highest, so a NaN rate never wins a tie on size against a real one.
pub proof fn lemma_selected_mode_is_maximal(modes: Seq<Mode>, n: int)
    requires
        1 <= n <= modes.len(),
    ensures
        is_selected(modes, n, best_among(modes, n)),
        forall|j: int| 0 <= j < n ==> size_le(#[trigger] modes[j], modes[best_among(modes, n)]),
        forall|j: int|
            0 <= j < n && size_order(#[trigger] modes[j], modes[best_among(modes, n)]) == Ordering::Equal
                && !modes[j].refresh_rate.is_nan() ==> !modes[best_among(modes, n)].refresh_rate.is_nan()
                && modes[j].refresh_rate.rank() <= modes[best_among(modes, n)].refresh_rate.rank(),
    decreases n,
{
    if n > 1 {
        lemma_selected_mode_is_maximal(modes, n - 1);
    }
    let b = best_among(modes, n);
    assert forall|j: int| 0 <= j < n implies size_le(#[trigger] modes[j], modes[b]) by {
        assert(mode_le(modes[j], modes[b]));
    }
}

/// The index of the mode that the planner picks for a monitor.
pub open spec fn best_index(modes: Seq<Mode>) -> int {
    best_among(modes, modes.len() as int)
}

pub open spec fn best_mode(m: Monitor) -> Mode {
    m.modes@[best_index(m.modes@)]
}

/// The first monitor at or after `i` whose connector is `c`.
pub open spec fn find_from(inv: Seq<Monitor>, c: Seq<char>, i: int) -> Option<int>
    decreases inv.len() - i,
{
    if i < 0 || i >= inv.len() {
        None
    } else if inv[i].info.connector@ == c {
        Some(i)
    } else {
        find_from(inv, c, i + 1)
    }
}

/// The monitor that a target connector names, if it is present and has a mode.
pub open spec fn eligible(inv: Seq<Monitor>, c: Seq<char>) -> Option<int> {
    match find_from(inv, c, 0) {
        Some(i) => if inv[i].modes@.len() > 0 {
            Some(i)
        } else {
            None
        },
        None => None,
    }
}

/// The inventory indices of the eligible targets, in target order.
pub open spec fn chosen(targets: Seq<String>, inv: Seq<Monitor>) -> Seq<int>
    decreases targets.len(),
{
    if targets.len() == 0 {
        Seq::empty()
    } else {
        let prev = chosen(targets.drop_last(), inv);
        match eligible(inv, targets.last()@) {
            Some(i) => prev.push(i),
            None => prev,
        }
    }
}

/// The summed widths of the chosen modes of the monitors `idx`.
pub open spec fn strip_width(inv: Seq<Monitor>, idx: Seq<int>) -> int
    decreases idx.len(),
{
    if idx.len() == 0 {
        0
    } else {
        strip_width(inv, idx.drop_last()) + best_mode(inv[idx.last()]).width
    }
}

/// The left edge of the `k`-th monitor of the strip.
pub open spec fn offset(inv: Seq<Monitor>, idx: Seq<int>, k: int) -> int {
    strip_width(inv, idx.subrange(0, k))
}

/// Every left edge of the strip fits the wire's `i32`.
pub open spec fn offsets_fit(inv: Seq<Monitor>, idx: Seq<int>) -> bool {
    forall|k: int| 0 <= k < idx.len() ==> i32::MIN <= #[trigger] offset(inv, idx, k) <= i32::MAX
}

/// The update that the planner emits at position `k` of the strip.
pub open spec fn planned_view(inv: Seq<Monitor>, idx: Seq<int>, k: int) -> UpdateView {
    let m = inv[idx[k]];
    let mode = best_mode(m);
    UpdateView {
        x: offset(inv, idx, k),
        y: 0,
        scale: mode.preferred_scale,
        transform: Transform::Normal,
        is_primary: k == 0,
        monitors: seq![(m.info.connector@, mode.id@)],
    }
}

/// The whole planned strip for `targets` over the inventory `inv`.
pub open spec fn plan_view(targets: Seq<String>, inv: Seq<Monitor>) -> Seq<UpdateView> {
    let idx = chosen(targets, inv);
    Seq::new(idx.len(), |k: int| planned_view(inv, idx, k))
}

/// Why no layout was planned.
#[derive(Clone, Copy, Debug, PartialEq, Eq, Structural)]
pub enum PlanError {
    /// None of the target connectors is present with a mode: nothing to do.
    NoEligibleTargets,
    /// A left edge of the strip does not fit in an `i32`.
    OffsetOverflow,
}

/// Orders two modes by width, then height, then refresh rate; a NaN rate
/// orders below every rate that is a number.
pub fn compare_modes(a: &Mode, b: &Mode) -> (r: Ordering)
    ensures
        r == mode_order(*a, *b),
{
    if a.width < b.width {
        Ordering::Less
    } else if a.width > b.width {
        Ordering::Greater
    } else if a.height < b.height {
        Ordering::Less
    } else if a.height > b.height {
        Ordering::Greater
    } else {
        match (a.refresh_rate.is_nan_exec(), b.refresh_rate.is_nan_exec()) {
            (true, true) => Ordering::Equal,
            (true, false) => Ordering::Less,
            (false, true) => Ordering::Greater,
            (false, false) => match a.refresh_rate.compare(&b.refresh_rate) {
                Some(o) => o,
                None => Ordering::Equal,
            },
        }
    }
}

/// Picks the mode to use out of a non-empty list: a greatest by
/// [`compare_modes`], the last one among modes that compare equal.
pub fn select_mode(modes: &Vec<Mode>) -> (r: usize)
    requires
        modes@.len() > 0,
    ensures
        is_selected(modes@, modes@.len() as int, r as int),
        r as int == best_index(modes@),
{
    let mut best: usize = 0;
    let mut i: usize = 1;
    while i < modes.len()
        invariant
            1 <= i <= modes@.len(),
            best < i,
            best as int == best_among(modes@, i as int),
        decreases modes@.len() - i,
    {
        match compare_modes(&modes[best], &modes[i]) {
            Ordering::Greater => {},
            _ => {
                best = i;
            },
        }
        i += 1;
    }
    proof {
        lemma_selected_mode_is_maximal(modes@, modes@.len() as int);
    }
    best
}

/// Finds the first monitor whose connector is `connector`.
pub fn find_monitor(inventory: &Vec<Monitor>, connector: &String) -> (r: Option<usize>)
    ensures
        r matches Some(i) ==> i as int == find_from(inventory@, connector@, 0)->Some_0,
        r is Some <==> find_from(inventory@, connector@, 0) is Some,
        r matches Some(i) ==> i < inventory@.len() && inventory@[i as int].info.connector@ == connector@,
{
    let mut i: usize = 0;
    while i < inventory.len()
        invariant
            i <= inventory@.len(),
            find_from(inventory@, connector@, 0) == find_from(inventory@, connector@, i as int),
        decreases inventory@.len() - i,
    {
        if inventory[i].info.connector == *connector {
            return Some(i);
        }
        i += 1;
    }
    None
}

proof fn lemma_strip_push(inv: Seq<Monitor>, idx: Seq<int>, j: int)
    ensures
        strip_width(inv, idx.push(j)) == strip_width(inv, idx) + best_mode(inv[j]).width,
        forall|k: int| 0 <= k <= idx.len() ==> #[trigger] idx.push(j).subrange(0, k) == idx.subrange(0, k),
{
    assert(idx.push(j).drop_last() =~= idx);
    assert forall|k: int| 0 <= k <= idx.len() implies #[trigger] idx.push(j).subrange(0, k) == idx.subrange(0, k) by {
        assert(idx.push(j).subrange(0, k) =~= idx.subrange(0, k));
    }
}

proof fn lemma_chosen_prefix(targets: Seq<String>, inv: Seq<Monitor>, n: int)
    requires
        0 <= n <= targets.len(),
    ensures
        chosen(targets.subrange(0, n), inv).len() <= chosen(targets, inv).len(),
        chosen(targets, inv).subrange(0, chosen(targets.subrange(0, n), inv).len() as int)
            == chosen(targets.subrange(0, n), inv),
    decreases targets.len(),
{
    let whole = chosen(targets, inv);
    if n == targets.len() {
        assert(targets.subrange(0, n) =~= targets);
        assert(whole.subrange(0, whole.len() as int) =~= whole);
    } else {
        let rest = targets.drop_last();
        assert(rest.subrange(0, n) =~= targets.subrange(0, n));
        lemma_chosen_prefix(rest, inv, n);
        let part = chosen(targets.subrange(0, n), inv);
        assert(whole.subrange(0, part.len() as int) =~= chosen(rest, inv).subrange(0, part.len() as int));
    }
}

/// Plans the strip: one update per eligible target, left to right in target
/// order, tops at 0, the first one primary.
pub fn plan_layout(targets: &Vec<String>, inventory: &Vec<Monitor>) -> (r: Result<Vec<LogicalMonitorUpdate>, PlanError>)
    ensures
        r == Err::<Vec<LogicalMonitorUpdate>, PlanError>(PlanError::NoEligibleTargets)
            <==> chosen(targets@, inventory@).len() == 0,
        r == Err::<Vec<LogicalMonitorUpdate>, PlanError>(PlanError::OffsetOverflow)
            <==> (chosen(targets@, inventory@).len() > 0 && !offsets_fit(inventory@, chosen(targets@, inventory@))),
        r matches Ok(v) ==> update_views(v@) == plan_view(targets@, inventory@),
{
    let mut updates: Vec<LogicalMonitorUpdate> = Vec::new();
    let mut next: i64 = 0;
    let mut i: usize = 0;
    while i < targets.len()
        invariant
            i <= targets@.len(),
            ({
                let idx = chosen(targets@.subrange(0, i as int), inventory@);
                &&& updates@.len() == idx.len()
                &&& next as int == strip_width(inventory@, idx)
                &&& -0x1_0000_0000 <= next <= 0x1_0000_0000
                &&& forall|k: int| 0 <= k < idx.len() ==> i32::MIN <= #[trigger] offset(inventory@, idx, k) <= i32::MAX
                &&& forall|k: int| 0 <= k < idx.len() ==> (#[trigger] updates@[k])@ == planned_view(inventory@, idx, k)
                &&& forall|k: int| 0 <= k < idx.len() ==> 0 <= #[trigger] idx[k] < inventory@.len()
            }),
        decreases targets@.len() - i,
    {
        let ghost prev = chosen(targets@.subrange(0, i as int), inventory@);
        let ghost pre_updates = updates@;
        assert(targets@.subrange(0, i + 1).drop_last() =~= targets@.subrange(0, i as int));
        assert(targets@.subrange(0, i + 1).last() == targets@[i as int]);
        let ghost now = chosen(targets@.subrange(0, i + 1), inventory@);
        assert(now == match eligible(inventory@, targets@[i as int]@) {
            Some(j) => prev.push(j),
            None => prev,
        });
        if let Some(j) = find_monitor(inventory, &targets[i]) {
            let monitor = &inventory[j];
            if monitor.modes.len() > 0 {
                if next < i32::MIN as i64 || next > i32::MAX as i64 {
                    proof {
                        let idx = chosen(targets@, inventory@);
                        lemma_chosen_prefix(targets@, inventory@, i as int + 1);
                        lemma_strip_push(inventory@, prev, j as int);
                        assert(prev.push(j as int).subrange(0, prev.len() as int) =~= prev);
                        assert(idx.subrange(0, prev.len() as int) =~= prev.push(j as int).subrange(0, prev.len() as int));
                        assert(!(i32::MIN <= offset(inventory@, idx, prev.len() as int) <= i32::MAX));
                    }
                    return Err(PlanError::OffsetOverflow);
                }
                let k = select_mode(&monitor.modes);
                let mode = &monitor.modes[k];
                let info = MonitorUpdateInfo { connector: monitor.info.connector.clone(), mode: mode.id.clone() };
                let update = LogicalMonitorUpdate {
                    x: next as i32,
                    y: 0,
                    scale: mode.preferred_scale,
                    transform: Transform::Normal,
                    is_primary: updates.len() == 0,
                    monitors: vec![info],
                };
                updates.push(update);
                next = next + mode.width as i64;
                proof {
                    let idx = prev.push(j as int);
                    lemma_strip_push(inventory@, prev, j as int);
                    assert(idx.subrange(0, prev.len() as int) =~= prev);
                    assert(updates@[prev.len() as int].monitors@.map_values(|m: MonitorUpdateInfo| (m.connector@, m.mode@))
                        =~= seq![(monitor.info.connector@, mode.id@)]);
                    assert forall|q: int| 0 <= q < idx.len() implies (#[trigger] updates@[q])@ == planned_view(inventory@, idx, q) by {
                        if q < prev.len() {
                            assert(pre_updates[q]@ == planned_view(inventory@, prev, q));
                            assert(idx.subrange(0, q) == prev.subrange(0, q));
                        }
                    }
                    assert forall|q: int| 0 <= q < idx.len() implies i32::MIN <= #[trigger] offset(inventory@, idx, q) <= i32::MAX by {
                        if q < prev.len() {
                            assert(offset(inventory@, prev, q) == offset(inventory@, idx, q));
                        }
                    }
                }
            }
        }
        i += 1;
    }
    assert(targets@.subrange(0, targets@.len() as int) =~= targets@);
    assert(update_views(updates@) =~= plan_view(targets@, inventory@));
    if updates.len() == 0 {
        Err(PlanError::NoEligibleTargets)
    } else {
        Ok(updates)
    }
}

/// The positions in `targets` of the eligible targets, in order.
pub open spec fn target_positions(targets: Seq<String>, inv: Seq<Monitor>) -> Seq<int>
    decreases targets.len(),
{
    if targets.len() == 0 {
        Seq::empty()
    } else {
        let prev = target_positions(targets.drop_last(), inv);
        if eligible(inv, targets.last()@) is Some {
            prev.push(targets.len() - 1)
        } else {
            prev
        }
    }
}

proof fn lemma_find_from(inv: Seq<Monitor>, c: Seq<char>, i: int)
    requires
        0 <= i,
    ensures
        find_from(inv, c, i) matches Some(j) ==> i <= j < inv.len() && inv[j].info.connector@ == c,
    decreases inv.len() - i,
{
    if i < inv.len() && inv[i].info.connector@ != c {
        lemma_find_from(inv, c, i + 1);
    }
}

/// `chosen` keeps exactly the eligible targets, in target order.
proof fn lemma_chosen_filters(targets: Seq<String>, inv: Seq<Monitor>)
    ensures
        ({
            let idx = chosen(targets, inv);
            let pos = target_positions(targets, inv);
            &&& pos.len() == idx.len()
            &&& forall|k: int|
                0 <= k < pos.len() ==> 0 <= #[trigger] pos[k] < targets.len() && eligible(inv, targets[pos[k]]@)
                    == Some(idx[k])
            &&& forall|k1: int, k2: int| 0 <= k1 < k2 < pos.len() ==> pos[k1] < pos[k2]
            &&& forall|t: int|
                0 <= t < targets.len() && (eligible(inv, #[trigger] targets[t]@) is Some) ==> exists|k: int|
                    0 <= k < pos.len() && pos[k] == t
        }),
    decreases targets.len(),
{
    if targets.len() > 0 {
        let rest = targets.drop_last();
        lemma_chosen_filters(rest, inv);
        let pos = target_positions(targets, inv);
        let prev = target_positions(rest, inv);
        assert forall|t: int| 0 <= t < targets.len() && (eligible(inv, #[trigger] targets[t]@) is Some) implies exists|k: int|
            0 <= k < pos.len() && pos[k] == t by {
            if t < targets.len() - 1 {
                assert(rest[t] == targets[t]);
                let k = choose|k: int| 0 <= k < prev.len() && prev[k] == t;
                assert(pos[k] == t);
            } else {
                assert(pos[pos.len() - 1] == t);
            }
        }
    }
}

/// The strip follows the target order: the `k`-th update drives the `k`-th
/// eligible target with its selected mode, the first starts at 0, and each
/// next one starts where the previous mode's width ends (so, with widths
/// that are not negative, the left edges never decrease).
pub proof fn lemma_strip_layout(targets: Seq<String>, inv: Seq<Monitor>)
    ensures
        ({
            let plan = plan_view(targets, inv);
            let idx = chosen(targets, inv);
            let pos = target_positions(targets, inv);
            &&& plan.len() == pos.len()
            &&& forall|k1: int, k2: int| 0 <= k1 < k2 < pos.len() ==> pos[k1] < pos[k2]
            &&& forall|k: int|
                0 <= k < plan.len() ==> 0 <= pos[k] < targets.len() && (#[trigger] plan[k]).monitors == seq![
                    (targets[pos[k]]@, best_mode(inv[idx[k]]).id@),
                ]
            &&& plan.len() > 0 ==> plan[0].x == 0
            &&& forall|k: int|
                0 <= k < plan.len() - 1 ==> #[trigger] plan[k + 1].x == plan[k].x + best_mode(inv[idx[k]]).width
            &&& forall|k: int|
                0 <= k < plan.len() - 1 && best_mode(inv[idx[k]]).width >= 0 ==> plan[k].x <= #[trigger] plan[k
                    + 1].x
        }),
{
    let idx = chosen(targets, inv);
    let plan = plan_view(targets, inv);
    lemma_chosen_filters(targets, inv);
    assert forall|k: int| 0 <= k < plan.len() implies #[trigger] plan[k].monitors == seq![
        (targets[target_positions(targets, inv)[k]]@, best_mode(inv[idx[k]]).id@),
    ] by {
        let pos = target_positions(targets, inv);
        lemma_find_from(inv, targets[pos[k]]@, 0);
    }
    if plan.len() > 0 {
        assert(idx.subrange(0, 0) =~= Seq::<int>::empty());
    }
    assert forall|k: int| 0 <= k < plan.len() - 1 implies #[trigger] plan[k + 1].x == plan[k].x + best_mode(
        inv[idx[k]],
    ).width by {
        assert(idx.subrange(0, k + 1).drop_last() =~= idx.subrange(0, k));
    }
}

/// Exactly the first update is primary, and it drives the first target
/// that is present in the inventory.
pub proof fn lemma_single_primary(targets: Seq<String>, inv: Seq<Monitor>)
    ensures
        forall|k: int|
            0 <= k < plan_view(targets, inv).len() ==> ((#[trigger] plan_view(targets, inv)[k]).is_primary <==> k == 0),
        plan_view(targets, inv).len() > 0 ==> exists|t: int|
            0 <= t < targets.len() && eligible(inv, targets[t]@) is Some && plan_view(targets, inv)[0].monitors[0].0
                == targets[t]@ && forall|s: int| 0 <= s < t ==> eligible(inv, #[trigger] targets[s]@) is None,
{
    lemma_strip_layout(targets, inv);
    lemma_chosen_filters(targets, inv);
    let pos = target_positions(targets, inv);
    if plan_view(targets, inv).len() > 0 {
        let t = pos[0];
        assert forall|s: int| 0 <= s < t implies eligible(inv, #[trigger] targets[s]@) is None by {
            if eligible(inv, targets[s]@) is Some {
                let k = choose|k: int| 0 <= k < pos.len() && pos[k] == s;
                assert(k > 0 ==> pos[0] < pos[k]);
            }
        }
        assert(plan_view(targets, inv)[0].monitors[0].0 == targets[t]@);
    }
}

/// Two modes that differ at most in the flags the compositor sets.
pub open spec fn same_mode(a: Mode, b: Mode) -> bool {
    &&& a.id@ == b.id@
    &&& a.width == b.width
    &&& a.height == b.height
    &&& a.refresh_rate == b.refresh_rate
    &&& a.preferred_scale == b.preferred_scale
}

/// Two inventories that differ at most in the modes' current and preferred
/// flags.
pub open spec fn same_hardware(a: Seq<Monitor>, b: Seq<Monitor>) -> bool {
    &&& a.len() == b.len()
    &&& forall|i: int|
        0 <= i < a.len() ==> {
            &&& (#[trigger] a[i]).info.connector@ == b[i].info.connector@
            &&& a[i].modes@.len() == b[i].modes@.len()
            &&& forall|q: int| 0 <= q < a[i].modes@.len() ==> same_mode(#[trigger] a[i].modes@[q], b[i].modes@[q])
        }
}

proof fn lemma_same_find(a: Seq<Monitor>, b: Seq<Monitor>, c: Seq<char>, i: int)
    requires
        same_hardware(a, b),
    ensures
        find_from(a, c, i) == find_from(b, c, i),
    decreases a.len() - i,
{
    if 0 <= i < a.len() {
        assert(a[i].info.connector@ == b[i].info.connector@);
        lemma_same_find(a, b, c, i + 1);
    }
}

proof fn lemma_same_chosen(targets: Seq<String>, a: Seq<Monitor>, b: Seq<Monitor>)
    requires
        same_hardware(a, b),
    ensures
        chosen(targets, a) == chosen(targets, b),
        forall|k: int| 0 <= k < chosen(targets, a).len() ==> 0 <= #[trigger] chosen(targets, a)[k] < a.len(),
    decreases targets.len(),
{
    if targets.len() > 0 {
        lemma_same_chosen(targets.drop_last(), a, b);
        lemma_same_find(a, b, targets.last()@, 0);
        lemma_find_from(a, targets.last()@, 0);
    }
}

proof fn lemma_same_best(x: Seq<Mode>, y: Seq<Mode>, n: int)
    requires
        1 <= n <= x.len(),
        x.len() == y.len(),
        forall|q: int| 0 <= q < x.len() ==> same_mode(#[trigger] x[q], y[q]),
    ensures
        best_among(x, n) == best_among(y, n),
        0 <= best_among(x, n) < n,
    decreases n,
{
    if n > 1 {
        lemma_same_best(x, y, n - 1);
        let b = best_among(x, n - 1);
        assert(same_mode(x[b], y[b]) && same_mode(x[n - 1], y[n - 1]));
    }
}

proof fn lemma_same_strip(a: Seq<Monitor>, b: Seq<Monitor>, idx: Seq<int>)
    requires
        same_hardware(a, b),
        forall|k: int| 0 <= k < idx.len() ==> 0 <= #[trigger] idx[k] < a.len() && a[idx[k]].modes@.len() > 0,
    ensures
        strip_width(a, idx) == strip_width(b, idx),
        forall|k: int| 0 <= k < idx.len() ==> same_mode(best_mode(a[#[trigger] idx[k]]), best_mode(b[idx[k]])),
    decreases idx.len(),
{
    assert forall|k: int| 0 <= k < idx.len() implies same_mode(best_mode(a[#[trigger] idx[k]]), best_mode(b[idx[k]])) by {
        let i = idx[k];
        lemma_same_best(a[i].modes@, b[i].modes@, a[i].modes@.len() as int);
    }
    if idx.len() > 0 {
        lemma_same_strip(a, b, idx.drop_last());
        assert(idx.last() == idx[idx.len() - 1]);
    }
}

/// Planning depends on the modes' sizes, rates, ids and scales only: an
/// inventory that differs only in the current and preferred flags gives
/// the same strip.
pub proof fn lemma_plan_ignores_mode_flags(targets: Seq<String>, a: Seq<Monitor>, b: Seq<Monitor>)
    requires
        same_hardware(a, b),
    ensures
        plan_view(targets, a) == plan_view(targets, b),
{
    lemma_same_chosen(targets, a, b);
    lemma_chosen_filters(targets, a);
    let idx = chosen(targets, a);
    assert forall|k: int| 0 <= k < idx.len() implies 0 <= #[trigger] idx[k] < a.len() && a[idx[k]].modes@.len() > 0 by {
        let pos = target_positions(targets, a);
        assert(eligible(a, targets[pos[k]]@) == Some(idx[k]));
    }
    assert forall|k: int| 0 <= k < idx.len() implies #[trigger] plan_view(targets, a)[k] == plan_view(targets, b)[k] by {
        let sub = idx.subrange(0, k);
        assert forall|q: int| 0 <= q < sub.len() implies 0 <= #[trigger] sub[q] < a.len() && a[sub[q]].modes@.len() > 0 by {
            assert(sub[q] == idx[q]);
        }
        lemma_same_strip(a, b, sub);
        lemma_same_strip(a, b, idx);
        assert(same_mode(best_mode(a[idx[k]]), best_mode(b[idx[k]])));
        assert(a[idx[k]].info.connector@ == b[idx[k]].info.connector@);
    }
    assert(plan_view(targets, a) =~= plan_view(targets, b));
}

/// No two monitors share a connector name.
pub open spec fn unique_connectors(inv: Seq<Monitor>) -> bool {
    forall|i: int, j: int| 0 <= i < j < inv.len() ==> inv[i].info.connector@ != inv[j].info.connector@
}

/// The two inventories hold the same monitors, in any order.
pub open spec fn same_monitors(a: Seq<Monitor>, b: Seq<Monitor>) -> bool {
    &&& forall|i: int| 0 <= i < a.len() ==> exists|j: int| 0 <= j < b.len() && b[j] == #[trigger] a[i]
    &&& forall|j: int| 0 <= j < b.len() ==> exists|i: int| 0 <= i < a.len() && a[i] == #[trigger] b[j]
}

proof fn lemma_find_none(inv: Seq<Monitor>, c: Seq<char>, i: int)
    requires
        0 <= i,
        find_from(inv, c, i) is None,
    ensures
        forall|j: int| i <= j < inv.len() ==> (#[trigger] inv[j]).info.connector@ != c,
    decreases inv.len() - i,
{
    if i < inv.len() {
        lemma_find_none(inv, c, i + 1);
    }
}

/// With unique connectors, the eligible monitor of `c` is the one that
/// carries `c` and has a mode.
proof fn lemma_eligible_unique(inv: Seq<Monitor>, c: Seq<char>, i: int)
    requires
        unique_connectors(inv),
        0 <= i < inv.len(),
        inv[i].info.connector@ == c,
    ensures
        eligible(inv, c) == if inv[i].modes@.len() > 0 {
            Some(i)
        } else {
            None::<int>
        },
{
    lemma_find_from(inv, c, 0);
    if find_from(inv, c, 0) is None {
        lemma_find_none(inv, c, 0);
        assert(inv[i].info.connector@ != c);
    }
}

proof fn lemma_eligible_same(a: Seq<Monitor>, b: Seq<Monitor>, c: Seq<char>)
    requires
        unique_connectors(a),
        unique_connectors(b),
        same_monitors(a, b),
    ensures
        (eligible(a, c) is Some) == (eligible(b, c) is Some),
        eligible(a, c) is Some ==> a[eligible(a, c)->Some_0] == b[eligible(b, c)->Some_0],
{
    lemma_find_from(a, c, 0);
    lemma_find_from(b, c, 0);
    if let Some(i) = eligible(a, c) {
        let j = choose|j: int| 0 <= j < b.len() && b[j] == a[i];
        lemma_eligible_unique(b, c, j);
    }
    if let Some(j) = eligible(b, c) {
        let i = choose|i: int| 0 <= i < a.len() && a[i] == b[j];
        lemma_eligible_unique(a, c, i);
    }
}

proof fn lemma_chosen_same_monitors(targets: Seq<String>, a: Seq<Monitor>, b: Seq<Monitor>)
    requires
        unique_connectors(a),
        unique_connectors(b),
        same_monitors(a, b),
    ensures
        chosen(targets, a).len() == chosen(targets, b).len(),
        forall|k: int| 0 <= k < chosen(targets, a).len() ==> a[#[trigger] chosen(targets, a)[k]] == b[chosen(targets, b)[k]],
    decreases targets.len(),
{
    if targets.len() > 0 {
        lemma_chosen_same_monitors(targets.drop_last(), a, b);
        lemma_eligible_same(a, b, targets.last()@);
    }
}

proof fn lemma_strip_same_monitors(a: Seq<Monitor>, b: Seq<Monitor>, ia: Seq<int>, ib: Seq<int>)
    requires
        ia.len() == ib.len(),
        forall|k: int| 0 <= k < ia.len() ==> a[#[trigger] ia[k]] == b[ib[k]],
    ensures
        strip_width(a, ia) == strip_width(b, ib),
    decreases ia.len(),
{
    if ia.len() > 0 {
        lemma_strip_same_monitors(a, b, ia.drop_last(), ib.drop_last());
        assert(a[ia[ia.len() - 1]] == b[ib[ib.len() - 1]]);
    }
}

/// With unique connector names, the plan does not depend on the order in
/// which the inventory lists the monitors.
pub proof fn lemma_plan_ignores_inventory_order(targets: Seq<String>, a: Seq<Monitor>, b: Seq<Monitor>)
    requires
        unique_connectors(a),
        unique_connectors(b),
        same_monitors(a, b),
    ensures
        plan_view(targets, a) == plan_view(targets, b),
{
    lemma_chosen_same_monitors(targets, a, b);
    let ia = chosen(targets, a);
    let ib = chosen(targets, b);
    assert forall|k: int| 0 <= k < ia.len() implies #[trigger] plan_view(targets, a)[k] == plan_view(targets, b)[k] by {
        assert(a[ia[k]] == b[ib[k]]);
        lemma_strip_same_monitors(a, b, ia.subrange(0, k), ib.subrange(0, k));
    }
    assert(plan_view(targets, a) =~= plan_view(targets, b));
}

} // verus!
