use monistor::event_loop::{accepts, start, step, LoopAction, LoopEvent, LoopState};
use monistor::float::F64Bits;
use monistor::model::{
    LogicalMonitor, LogicalMonitorUpdate, Method, Mode, Monitor, MonitorInfo, MonitorUpdateInfo, Transform,
};
use monistor::planner::{compare_modes, plan_layout, select_mode, PlanError};
use monistor::reconcile::{decide, PassOutcome, Snapshot};
use monistor::wire::{LogicalMonitorRaw, LogicalMonitorUpdateRaw, ModeRaw};
use std::cmp::Ordering;

fn bits(v: f64) -> F64Bits {
    F64Bits { bits: v.to_bits() }
}

fn mode(id: &str, width: i32, height: i32, rate: f64, preferred: bool) -> Mode {
    Mode {
        id: id.to_string(),
        width,
        height,
        refresh_rate: bits(rate),
        preferred_scale: bits(1.0),
        supported_scales: vec![bits(1.0), bits(2.0)],
        is_current: None,
        is_preferred: if preferred { Some(true) } else { None },
    }
}

fn info(connector: &str) -> MonitorInfo {
    MonitorInfo {
        connector: connector.to_string(),
        vendor: "ACME".to_string(),
        product_name: "Panel".to_string(),
        serial: "0001".to_string(),
    }
}

fn monitor(connector: &str, modes: Vec<Mode>) -> Monitor {
    Monitor { info: info(connector), modes }
}

fn targets() -> Vec<String> {
    vec!["DP-4".to_string(), "DP-0".to_string()]
}

fn docked_inventory() -> Vec<Monitor> {
    vec![
        monitor(
            "DP-4",
            vec![mode("1920x1080@60", 1920, 1080, 60.0, true), mode("3840x2160@60", 3840, 2160, 60.0, false)],
        ),
        monitor("DP-0", vec![mode("1920x1080@60", 1920, 1080, 60.0, true)]),
    ]
}

/// The logical monitors that the compositor reports after applying `updates`.
fn echo(updates: &[LogicalMonitorUpdate]) -> Vec<LogicalMonitor> {
    updates
        .iter()
        .map(|u| LogicalMonitor {
            x: u.x,
            y: u.y,
            scale: u.scale,
            transform: u.transform,
            is_primary: u.is_primary,
            monitors: u.monitors.iter().map(|m| info(&m.connector)).collect(),
        })
        .collect()
}

/// Marks the planned modes as current, as the compositor does once applied.
fn mark_current(inventory: &mut [Monitor], updates: &[LogicalMonitorUpdate]) {
    for u in updates {
        for m in &u.monitors {
            for hw in inventory.iter_mut().filter(|hw| hw.info.connector == m.connector) {
                for md in hw.modes.iter_mut() {
                    md.is_current = Some(md.id == m.mode);
                }
            }
        }
    }
}

#[test]
fn docked_pair_is_laid_out_left_to_right() {
    let plan = plan_layout(&targets(), &docked_inventory()).unwrap();
    assert_eq!(plan.len(), 2);
    assert_eq!(plan[0].x, 0);
    assert_eq!(plan[0].y, 0);
    assert!(plan[0].is_primary);
    assert_eq!(plan[0].monitors.len(), 1);
    assert_eq!(plan[0].monitors[0].connector, "DP-4");
    assert_eq!(plan[0].monitors[0].mode, "3840x2160@60");
    assert_eq!(plan[0].transform, Transform::Normal);
    assert_eq!(plan[0].scale.bits, 1.0f64.to_bits());
    assert_eq!(plan[1].x, 3840);
    assert_eq!(plan[1].y, 0);
    assert!(!plan[1].is_primary);
    assert_eq!(plan[1].monitors[0].connector, "DP-0");
    assert_eq!(plan[1].monitors[0].mode, "1920x1080@60");
}

#[test]
fn no_target_present_means_nothing_to_do() {
    let inventory = vec![monitor("eDP-1", vec![mode("a", 1920, 1200, 60.0, true)])];
    assert!(matches!(plan_layout(&targets(), &inventory), Err(PlanError::NoEligibleTargets)));
    let snapshot = Snapshot { serial: 7, monitors: inventory, logical_monitors: vec![] };
    assert!(matches!(decide(&targets(), &snapshot), Ok(PassOutcome::NoEligibleTargets)));
}

#[test]
fn matching_state_needs_no_apply() {
    let mut inventory = docked_inventory();
    let plan = plan_layout(&targets(), &inventory).unwrap();
    mark_current(&mut inventory, &plan);
    let snapshot = Snapshot { serial: 3, monitors: inventory, logical_monitors: echo(&plan) };
    assert!(matches!(decide(&targets(), &snapshot), Ok(PassOutcome::AlreadyConfigured)));
}

#[test]
fn mismatched_state_asks_for_persistent_apply_with_the_snapshot_serial() {
    let snapshot = Snapshot { serial: 41, monitors: docked_inventory(), logical_monitors: vec![] };
    match decide(&targets(), &snapshot) {
        Ok(PassOutcome::Apply(req)) => {
            assert_eq!(req.serial, 41);
            assert_eq!(req.method, Method::Persistent);
            assert_eq!(req.method.code(), 2);
            assert_eq!(req.updates.len(), 2);
            let first: &LogicalMonitorUpdateRaw = &req.updates[0];
            assert_eq!((first.0, first.1, first.3, first.4), (0, 0, 0, true));
            assert_eq!(first.5, vec![("DP-4".to_string(), "3840x2160@60".to_string())]);
            assert_eq!(req.updates[1].0, 3840);
            assert!(!req.updates[1].4);
        }
        other => panic!("expected an apply, got {:?}", other),
    }
}

#[test]
fn failed_pass_is_retried_once_with_a_fresh_serial() {
    let (s, a) = start();
    assert_eq!((s, a), (LoopState::Starting, LoopAction::RunPass));
    let (s, a) = step(s, LoopEvent::PassSucceeded);
    assert_eq!((s, a), (LoopState::Listening, LoopAction::Wait));
    let (s, a) = step(s, LoopEvent::Notification);
    assert_eq!((s, a), (LoopState::Reconciling, LoopAction::RunPass));
    let (s, a) = step(s, LoopEvent::PassFailed);
    assert_eq!((s, a), (LoopState::Retrying, LoopAction::RetryPass));
    // The retry fetches again: the request carries the new snapshot's serial.
    let fresh = Snapshot { serial: 12, monitors: docked_inventory(), logical_monitors: vec![] };
    match decide(&targets(), &fresh) {
        Ok(PassOutcome::Apply(req)) => assert_eq!(req.serial, 12),
        other => panic!("expected an apply, got {:?}", other),
    }
    let (s, a) = step(s, LoopEvent::PassSucceeded);
    assert_eq!((s, a), (LoopState::Listening, LoopAction::Wait));
}

#[test]
fn second_consecutive_failure_is_fatal() {
    let (s, _) = step(LoopState::Listening, LoopEvent::Notification);
    let (s, a) = step(s, LoopEvent::PassFailed);
    assert_eq!(a, LoopAction::RetryPass);
    let (s, a) = step(s, LoopEvent::PassFailed);
    assert_eq!((s, a), (LoopState::Stopped, LoopAction::Fail));
    assert!(!accepts(s, LoopEvent::Notification));
    assert_eq!(step(s, LoopEvent::ConnectionLost), (LoopState::Stopped, LoopAction::Fail));
}

#[test]
fn startup_failure_and_lost_connection_are_fatal() {
    assert_eq!(step(LoopState::Starting, LoopEvent::PassFailed), (LoopState::Stopped, LoopAction::Fail));
    assert_eq!(step(LoopState::Retrying, LoopEvent::ConnectionLost), (LoopState::Stopped, LoopAction::Fail));
    assert_eq!(step(LoopState::Listening, LoopEvent::StreamEnded), (LoopState::Stopped, LoopAction::Fail));
    // A notification during a pass waits in the stream; a pass result
    // cannot come while listening.
    assert!(!accepts(LoopState::Reconciling, LoopEvent::Notification));
    assert!(!accepts(LoopState::Listening, LoopEvent::PassFailed));
    assert!(accepts(LoopState::Retrying, LoopEvent::PassSucceeded));
}

#[test]
fn mode_selection_prefers_width_then_height_then_rate() {
    let modes = vec![
        mode("a", 2560, 1440, 144.0, false),
        mode("b", 3840, 1600, 60.0, false),
        mode("c", 3840, 2160, 30.0, false),
        mode("d", 3840, 2160, 60.0, false),
        mode("e", 3840, 2160, 59.94, false),
        mode("f", 1920, 1080, 240.0, true),
    ];
    assert_eq!(select_mode(&modes), 3);
    assert_eq!(compare_modes(&modes[2], &modes[3]), Ordering::Less);
    assert_eq!(compare_modes(&modes[1], &modes[0]), Ordering::Greater);
}

#[test]
fn mode_selection_nan_rate_falls_back_to_size() {
    let modes = vec![mode("a", 1920, 1080, f64::NAN, false), mode("b", 1280, 720, 60.0, false)];
    assert_eq!(select_mode(&modes), 0);
    let tied = vec![mode("a", 1920, 1080, 60.0, false), mode("b", 1920, 1080, f64::NAN, false)];
    assert_eq!(compare_modes(&tied[0], &tied[1]), Ordering::Greater);
    assert_eq!(select_mode(&tied), 0);
    let nan_first = vec![mode("a", 1920, 1080, f64::NAN, false), mode("b", 1920, 1080, 30.0, false)];
    assert_eq!(select_mode(&nan_first), 1);
    let three = vec![
        mode("a", 1920, 1080, 60.0, false),
        mode("b", 1920, 1080, f64::NAN, false),
        mode("c", 1920, 1080, 30.0, false),
    ];
    assert_eq!(select_mode(&three), 0);
    let all_nan = vec![mode("a", 1920, 1080, f64::NAN, false), mode("b", 1920, 1080, f64::NAN, false)];
    assert_eq!(compare_modes(&all_nan[0], &all_nan[1]), Ordering::Equal);
    // Modes that compare equal leave the later one selected.
    assert_eq!(select_mode(&all_nan), 1);
    let same = vec![mode("a", 1920, 1080, 60.0, false), mode("b", 1920, 1080, 60.0, false)];
    assert_eq!(select_mode(&same), 1);
}

#[test]
fn offsets_accumulate_chosen_widths() {
    let inventory = vec![
        monitor("HDMI-1", vec![mode("h", 1280, 1024, 60.0, true)]),
        monitor("DP-0", vec![mode("a", 2560, 1440, 60.0, true), mode("b", 1920, 1080, 60.0, false)]),
        monitor("DP-4", vec![mode("c", 1920, 1080, 60.0, true)]),
    ];
    let order = vec!["DP-0".to_string(), "DP-4".to_string(), "HDMI-1".to_string()];
    let plan = plan_layout(&order, &inventory).unwrap();
    let xs: Vec<i32> = plan.iter().map(|u| u.x).collect();
    assert_eq!(xs, vec![0, 2560, 4480]);
    let connectors: Vec<&str> = plan.iter().map(|u| u.monitors[0].connector.as_str()).collect();
    assert_eq!(connectors, vec!["DP-0", "DP-4", "HDMI-1"]);
}

#[test]
fn first_present_target_is_the_only_primary() {
    let inventory = vec![
        monitor("DP-0", vec![mode("a", 1920, 1080, 60.0, true)]),
        monitor("HDMI-1", vec![mode("b", 1280, 1024, 60.0, true)]),
    ];
    let order = vec!["DP-4".to_string(), "DP-0".to_string(), "HDMI-1".to_string()];
    let plan = plan_layout(&order, &inventory).unwrap();
    assert_eq!(plan.len(), 2);
    assert_eq!(plan.iter().filter(|u| u.is_primary).count(), 1);
    assert!(plan[0].is_primary);
    assert_eq!(plan[0].monitors[0].connector, "DP-0");
}

#[test]
fn monitor_without_modes_is_skipped() {
    let inventory = vec![monitor("DP-4", vec![]), monitor("DP-0", vec![mode("a", 1920, 1080, 60.0, true)])];
    let plan = plan_layout(&targets(), &inventory).unwrap();
    assert_eq!(plan.len(), 1);
    assert_eq!(plan[0].monitors[0].connector, "DP-0");
    assert!(plan[0].is_primary);
}

#[test]
fn offset_beyond_i32_is_refused() {
    let inventory = vec![
        monitor("DP-4", vec![mode("wide", i32::MAX, 1, 60.0, true)]),
        monitor("DP-0", vec![mode("a", 1920, 1080, 60.0, true)]),
        monitor("HDMI-1", vec![mode("b", 1280, 1024, 60.0, true)]),
    ];
    // The second left edge is i32::MAX itself and still fits.
    let plan = plan_layout(&targets(), &inventory).unwrap();
    assert_eq!(plan[1].x, i32::MAX);
    let three = vec!["DP-4".to_string(), "DP-0".to_string(), "HDMI-1".to_string()];
    assert!(matches!(plan_layout(&three, &inventory), Err(PlanError::OffsetOverflow)));
}

#[test]
fn second_pass_after_apply_is_a_no_op() {
    let mut inventory = docked_inventory();
    let first = Snapshot { serial: 1, monitors: docked_inventory(), logical_monitors: vec![] };
    assert!(matches!(decide(&targets(), &first), Ok(PassOutcome::Apply(_))));
    let plan = plan_layout(&targets(), &inventory).unwrap();
    mark_current(&mut inventory, &plan);
    let second = Snapshot { serial: 2, monitors: inventory, logical_monitors: echo(&plan) };
    assert!(matches!(decide(&targets(), &second), Ok(PassOutcome::AlreadyConfigured)));
}

#[test]
fn changed_placement_no_longer_matches() {
    let mut inventory = docked_inventory();
    let plan = plan_layout(&targets(), &inventory).unwrap();
    mark_current(&mut inventory, &plan);
    let existing = echo(&plan);
    let base = &plan[0];
    assert!(base.matches_existing_state(&existing[0], &inventory));
    let variants = [
        LogicalMonitorUpdate { x: 1, ..base.clone() },
        LogicalMonitorUpdate { y: 5, ..base.clone() },
        LogicalMonitorUpdate { scale: bits(2.0), ..base.clone() },
        LogicalMonitorUpdate { transform: Transform::Degrees90, ..base.clone() },
        LogicalMonitorUpdate { is_primary: false, ..base.clone() },
    ];
    for v in &variants {
        assert!(!v.matches_existing_state(&existing[0], &inventory));
    }
    // Connectors in another order do not match either.
    let swapped = LogicalMonitorUpdate {
        monitors: vec![MonitorUpdateInfo { connector: "DP-0".to_string(), mode: "1920x1080@60".to_string() }],
        ..base.clone()
    };
    assert!(!swapped.matches_existing_state(&existing[0], &inventory));
}

#[test]
fn mode_flags_gate_the_match() {
    let mut inventory = docked_inventory();
    let plan = plan_layout(&targets(), &inventory).unwrap();
    let existing = echo(&plan);
    // The 3840x2160 mode is neither current nor preferred yet.
    assert!(!plan[0].matches_existing_state(&existing[0], &inventory));
    // The DP-0 mode is preferred, which is enough.
    assert!(plan[1].matches_existing_state(&existing[1], &inventory));
    inventory[1].modes[0].is_preferred = Some(false);
    assert!(!plan[1].matches_existing_state(&existing[1], &inventory));
    inventory[1].modes[0].is_current = Some(true);
    assert!(plan[1].matches_existing_state(&existing[1], &inventory));
    // An unknown mode id never matches.
    let unknown = LogicalMonitorUpdate {
        monitors: vec![MonitorUpdateInfo { connector: "DP-0".to_string(), mode: "nope".to_string() }],
        ..plan[1].clone()
    };
    assert!(!unknown.matches_existing_state(&existing[1], &inventory));
}

#[test]
fn scale_compares_as_floating_point() {
    let mut inventory = docked_inventory();
    inventory[1].modes[0].preferred_scale = bits(0.0);
    let plan = plan_layout(&targets(), &inventory).unwrap();
    let mut existing = echo(&plan);
    existing[1].scale = bits(-0.0);
    assert!(plan[1].matches_existing_state(&existing[1], &inventory));
    inventory[1].modes[0].preferred_scale = bits(f64::NAN);
    let plan = plan_layout(&targets(), &inventory).unwrap();
    let existing = echo(&plan);
    assert!(!plan[1].matches_existing_state(&existing[1], &inventory));
}

#[test]
fn float_bits_follow_ieee_comparison() {
    assert!(bits(0.0).equals(&bits(-0.0)));
    assert!(!bits(f64::NAN).equals(&bits(f64::NAN)));
    assert!(bits(f64::NAN).is_nan_exec());
    assert!(!bits(f64::INFINITY).is_nan_exec());
    assert_eq!(bits(-1.5).compare(&bits(-0.5)), Some(Ordering::Less));
    assert_eq!(bits(2.0).compare(&bits(1.0)), Some(Ordering::Greater));
    assert_eq!(bits(f64::NEG_INFINITY).compare(&bits(-1e300)), Some(Ordering::Less));
    assert_eq!(bits(1.0).compare(&bits(f64::NAN)), None);
}

#[test]
fn transform_codes_decode_and_encode() {
    for code in 0u32..8 {
        let t = Transform::try_from(code).unwrap();
        assert_eq!(t.code(), code);
    }
    assert_eq!(Transform::try_from(5).unwrap(), Transform::Degrees90Flipped);
    assert!(Transform::try_from(8).is_err());
    assert!(Transform::try_from(u32::MAX).is_err());
}

#[test]
fn logical_monitor_decoding_rejects_bad_transform() {
    let infos = vec![("DP-4".to_string(), "ACME".to_string(), "Panel".to_string(), "0001".to_string())];
    let raw: LogicalMonitorRaw = (10, 20, bits(1.25), 2, true, infos.clone());
    let lm = LogicalMonitor::from_raw(&raw).unwrap();
    assert_eq!((lm.x, lm.y, lm.transform, lm.is_primary), (10, 20, Transform::Degrees180, true));
    assert_eq!(lm.monitors[0].product_name, "Panel");
    let back = lm.into_raw();
    assert_eq!((back.0, back.1, back.2.bits, back.3, back.4), (10, 20, 1.25f64.to_bits(), 2, true));
    assert_eq!(back.5, infos);
    let bad: LogicalMonitorRaw = (0, 0, bits(1.0), 9, false, vec![]);
    assert!(LogicalMonitor::from_raw(&bad).is_err());
    let state = (5u32, vec![], vec![raw, bad]);
    assert!(Snapshot::from_raw(&state).is_err());
}

#[test]
fn mode_and_update_round_trip() {
    let raw: ModeRaw = ("m".to_string(), 800, 600, bits(75.0), bits(1.0), vec![bits(1.0)], Some(true), None);
    let m = Mode::from_raw(&raw);
    assert_eq!((m.width, m.height, m.is_current, m.is_preferred), (800, 600, Some(true), None));
    let back = m.into_raw();
    assert_eq!((back.0.as_str(), back.1, back.2, back.6, back.7), ("m", 800, 600, Some(true), None));
    let monitor_raw = (("HDMI-1".to_string(), "v".to_string(), "p".to_string(), "s".to_string()), vec![raw]);
    let mon = Monitor::from_raw(&monitor_raw);
    assert_eq!(mon.info.connector, "HDMI-1");
    assert_eq!(mon.into_raw().1.len(), 1);
    let update: LogicalMonitorUpdateRaw = (3, 4, bits(2.0), 4, false, vec![("HDMI-1".to_string(), "m".to_string())]);
    let u = LogicalMonitorUpdate::from_raw(&update).unwrap();
    assert_eq!(u.transform, Transform::Flipped);
    let back = u.into_raw();
    assert_eq!((back.0, back.1, back.2.bits, back.3, back.4), (3, 4, 2.0f64.to_bits(), 4, false));
    assert_eq!(back.5, update.5);
}

#[test]
fn snapshot_decoding_keeps_serial_and_order() {
    let modes = vec![("m".to_string(), 1920, 1080, bits(60.0), bits(1.0), vec![], None, Some(true))];
    let mon = |c: &str| ((c.to_string(), String::new(), String::new(), String::new()), modes.clone());
    let state = (99u32, vec![mon("DP-0"), mon("DP-4")], vec![]);
    let snap = Snapshot::from_raw(&state).unwrap();
    assert_eq!(snap.serial, 99);
    assert_eq!(snap.monitors[0].info.connector, "DP-0");
    assert_eq!(snap.monitors[1].info.connector, "DP-4");
    assert!(snap.logical_monitors.is_empty());
}

#[test]
fn inventory_order_does_not_change_the_plan() {
    let forward = docked_inventory();
    let mut backward = docked_inventory();
    backward.reverse();
    let a = plan_layout(&targets(), &forward).unwrap();
    let b = plan_layout(&targets(), &backward).unwrap();
    assert_eq!(a.len(), b.len());
    for (u, v) in a.iter().zip(b.iter()) {
        assert_eq!((u.x, u.y, u.is_primary, u.scale.bits), (v.x, v.y, v.is_primary, v.scale.bits));
        assert_eq!(u.monitors[0].connector, v.monitors[0].connector);
        assert_eq!(u.monitors[0].mode, v.monitors[0].mode);
    }
}
