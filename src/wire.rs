//! The bus's positional tuple encoding and its conversion to and from the
//! typed records.
//!
//! Doubles travel as their bit patterns. Of a mode's property bag the tuple
//! keeps the `is-current` and `is-preferred` flags; the other property bags
//! are not read by the library and are left to the transport.

use crate::float::F64Bits;
use crate::model::{DecodeError, LogicalMonitor, LogicalMonitorUpdate, Mode, Monitor, MonitorInfo, MonitorUpdateInfo, Transform};
use vstd::prelude::*;

verus! {

/// Connector, vendor, product name, serial.
pub type MonitorInfoRaw = (String, String, String, String);

/// Id, width, height, refresh rate, preferred scale, supported scales,
/// `is-current`, `is-preferred`.
pub type ModeRaw = (String, i32, i32, F64Bits, F64Bits, Vec<F64Bits>, Option<bool>, Option<bool>);

/// Identity and modes of a physical monitor.
pub type MonitorRaw = (MonitorInfoRaw, Vec<ModeRaw>);

/// x, y, scale, transform code, primary flag, the monitors spanned.
pub type LogicalMonitorRaw = (i32, i32, F64Bits, u32, bool, Vec<MonitorInfoRaw>);

/// x, y, scale, transform code, primary flag, (connector, mode id) pairs.
pub type LogicalMonitorUpdateRaw = (i32, i32, F64Bits, u32, bool, Vec<(String, String)>);

/// Serial, physical monitors, logical monitors of a fetched state.
pub type CurrentStateRaw = (u32, Vec<MonitorRaw>, Vec<LogicalMonitorRaw>);

pub open spec fn info_encodes(raw: MonitorInfoRaw, info: MonitorInfo) -> bool {
    &&& raw.0@ == info.connector@
    &&& raw.1@ == info.vendor@
    &&& raw.2@ == info.product_name@
    &&& raw.3@ == info.serial@
}

pub open spec fn infos_encode(raw: Seq<MonitorInfoRaw>, infos: Seq<MonitorInfo>) -> bool {
    &&& raw.len() == infos.len()
    &&& forall|k: int| 0 <= k < raw.len() ==> info_encodes(#[trigger] raw[k], infos[k])
}

pub open spec fn mode_encodes(raw: ModeRaw, m: Mode) -> bool {
    &&& raw.0@ == m.id@
    &&& raw.1 == m.width
    &&& raw.2 == m.height
    &&& raw.3 == m.refresh_rate
    &&& raw.4 == m.preferred_scale
    &&& raw.5@ == m.supported_scales@
    &&& raw.6 == m.is_current
    &&& raw.7 == m.is_preferred
}

pub open spec fn monitor_encodes(raw: MonitorRaw, m: Monitor) -> bool {
    &&& info_encodes(raw.0, m.info)
    &&& raw.1@.len() == m.modes@.len()
    &&& forall|k: int| 0 <= k < raw.1@.len() ==> mode_encodes(#[trigger] raw.1@[k], m.modes@[k])
}

pub open spec fn logical_encodes(raw: LogicalMonitorRaw, lm: LogicalMonitor) -> bool {
    &&& raw.0 == lm.x
    &&& raw.1 == lm.y
    &&& raw.2 == lm.scale
    &&& raw.3 == lm.transform.spec_code()
    &&& raw.4 == lm.is_primary
    &&& infos_encode(raw.5@, lm.monitors@)
}

pub open spec fn update_encodes(raw: LogicalMonitorUpdateRaw, u: LogicalMonitorUpdate) -> bool {
    &&& raw.0 == u.x
    &&& raw.1 == u.y
    &&& raw.2 == u.scale
    &&& raw.3 == u.transform.spec_code()
    &&& raw.4 == u.is_primary
    &&& raw.5@.len() == u.monitors@.len()
    &&& forall|k: int|
        0 <= k < raw.5@.len() ==> (#[trigger] raw.5@[k]).0@ == u.monitors@[k].connector@ && raw.5@[k].1@
            == u.monitors@[k].mode@
}

fn copy_scales(scales: &Vec<F64Bits>) -> (r: Vec<F64Bits>)
    ensures
        r@ == scales@,
{
    let mut r: Vec<F64Bits> = Vec::new();
    let mut i: usize = 0;
    while i < scales.len()
        invariant
            i <= scales@.len(),
            r@ == scales@.subrange(0, i as int),
        decreases scales@.len() - i,
    {
        r.push(scales[i]);
        i += 1;
        assert(r@ =~= scales@.subrange(0, i as int));
    }
    assert(scales@.subrange(0, scales@.len() as int) =~= scales@);
    r
}

fn decode_infos(raw: &Vec<MonitorInfoRaw>) -> (r: Vec<MonitorInfo>)
    ensures
        infos_encode(raw@, r@),
{
    let mut r: Vec<MonitorInfo> = Vec::new();
    let mut i: usize = 0;
    while i < raw.len()
        invariant
            i <= raw@.len(),
            infos_encode(raw@.subrange(0, i as int), r@),
        decreases raw@.len() - i,
    {
        r.push(MonitorInfo::from_raw(&raw[i]));
        i += 1;
    }
    assert(raw@.subrange(0, raw@.len() as int) =~= raw@);
    r
}

fn encode_infos(infos: &Vec<MonitorInfo>) -> (r: Vec<MonitorInfoRaw>)
    ensures
        infos_encode(r@, infos@),
{
    let mut r: Vec<MonitorInfoRaw> = Vec::new();
    let mut i: usize = 0;
    while i < infos.len()
        invariant
            i <= infos@.len(),
            infos_encode(r@, infos@.subrange(0, i as int)),
        decreases infos@.len() - i,
    {
        r.push(infos[i].into_raw());
        i += 1;
    }
    assert(infos@.subrange(0, infos@.len() as int) =~= infos@);
    r
}

impl MonitorInfo {
    pub fn from_raw(raw: &MonitorInfoRaw) -> (r: MonitorInfo)
        ensures
            info_encodes(*raw, r),
    {
        MonitorInfo {
            connector: raw.0.clone(),
            vendor: raw.1.clone(),
            product_name: raw.2.clone(),
            serial: raw.3.clone(),
        }
    }

    pub fn into_raw(&self) -> (r: MonitorInfoRaw)
        ensures
            info_encodes(r, *self),
    {
        (self.connector.clone(), self.vendor.clone(), self.product_name.clone(), self.serial.clone())
    }
}

impl Mode {
    pub fn from_raw(raw: &ModeRaw) -> (r: Mode)
        ensures
            mode_encodes(*raw, r),
    {
        Mode {
            id: raw.0.clone(),
            width: raw.1,
            height: raw.2,
            refresh_rate: raw.3,
            preferred_scale: raw.4,
            supported_scales: copy_scales(&raw.5),
            is_current: raw.6,
            is_preferred: raw.7,
        }
    }

    pub fn into_raw(&self) -> (r: ModeRaw)
        ensures
            mode_encodes(r, *self),
    {
        (
            self.id.clone(),
            self.width,
            self.height,
            self.refresh_rate,
            self.preferred_scale,
            copy_scales(&self.supported_scales),
            self.is_current,
            self.is_preferred,
        )
    }
}

impl Monitor {
    pub fn from_raw(raw: &MonitorRaw) -> (r: Monitor)
        ensures
            monitor_encodes(*raw, r),
    {
        let mut modes: Vec<Mode> = Vec::new();
        let mut i: usize = 0;
        while i < raw.1.len()
            invariant
                i <= raw.1@.len(),
                modes@.len() == i,
                forall|k: int| 0 <= k < i ==> mode_encodes(#[trigger] raw.1@[k], modes@[k]),
            decreases raw.1@.len() - i,
        {
            modes.push(Mode::from_raw(&raw.1[i]));
            i += 1;
        }
        Monitor { info: MonitorInfo::from_raw(&raw.0), modes }
    }

    pub fn into_raw(&self) -> (r: MonitorRaw)
        ensures
            monitor_encodes(r, *self),
    {
        let mut modes: Vec<ModeRaw> = Vec::new();
        let mut i: usize = 0;
        while i < self.modes.len()
            invariant
                i <= self.modes@.len(),
                modes@.len() == i,
                forall|k: int| 0 <= k < i ==> mode_encodes(#[trigger] modes@[k], self.modes@[k]),
            decreases self.modes@.len() - i,
        {
            modes.push(self.modes[i].into_raw());
            i += 1;
        }
        (self.info.into_raw(), modes)
    }
}

impl LogicalMonitor {
    /// Decodes a logical monitor; fails exactly when the transform code is
    /// out of range.
    pub fn from_raw(raw: &LogicalMonitorRaw) -> (r: Result<LogicalMonitor, DecodeError>)
        ensures
            r is Ok <==> raw.3 <= 7,
            r matches Ok(lm) ==> logical_encodes(*raw, lm),
            r matches Err(e) ==> e == DecodeError::TransformOutOfRange,
    {
        let transform = match Transform::try_from(raw.3) {
            Ok(t) => t,
            Err(e) => return Err(e),
        };
        Ok(LogicalMonitor {
            x: raw.0,
            y: raw.1,
            scale: raw.2,
            transform,
            is_primary: raw.4,
            monitors: decode_infos(&raw.5),
        })
    }

    pub fn into_raw(&self) -> (r: LogicalMonitorRaw)
        ensures
            logical_encodes(r, *self),
    {
        (self.x, self.y, self.scale, self.transform.code(), self.is_primary, encode_infos(&self.monitors))
    }
}

impl LogicalMonitorUpdate {
    /// Decodes an update; fails exactly when the transform code is out of
    /// range.
    pub fn from_raw(raw: &LogicalMonitorUpdateRaw) -> (r: Result<LogicalMonitorUpdate, DecodeError>)
        ensures
            r is Ok <==> raw.3 <= 7,
            r matches Ok(u) ==> update_encodes(*raw, u),
            r matches Err(e) ==> e == DecodeError::TransformOutOfRange,
    {
        let transform = match Transform::try_from(raw.3) {
            Ok(t) => t,
            Err(e) => return Err(e),
        };
        let mut monitors: Vec<MonitorUpdateInfo> = Vec::new();
        let mut i: usize = 0;
        while i < raw.5.len()
            invariant
                i <= raw.5@.len(),
                monitors@.len() == i,
                forall|k: int|
                    0 <= k < i ==> (#[trigger] raw.5@[k]).0@ == monitors@[k].connector@ && raw.5@[k].1@
                        == monitors@[k].mode@,
            decreases raw.5@.len() - i,
        {
            monitors.push(MonitorUpdateInfo { connector: raw.5[i].0.clone(), mode: raw.5[i].1.clone() });
            i += 1;
        }
        Ok(LogicalMonitorUpdate { x: raw.0, y: raw.1, scale: raw.2, transform, is_primary: raw.4, monitors })
    }

    pub fn into_raw(&self) -> (r: LogicalMonitorUpdateRaw)
        ensures
            update_encodes(r, *self),
    {
        let mut monitors: Vec<(String, String)> = Vec::new();
        let mut i: usize = 0;
        while i < self.monitors.len()
            invariant
                i <= self.monitors@.len(),
                monitors@.len() == i,
                forall|k: int|
                    0 <= k < i ==> (#[trigger] monitors@[k]).0@ == self.monitors@[k].connector@ && monitors@[k].1@
                        == self.monitors@[k].mode@,
            decreases self.monitors@.len() - i,
        {
            monitors.push((self.monitors[i].connector.clone(), self.monitors[i].mode.clone()));
            i += 1;
        }
        (self.x, self.y, self.scale, self.transform.code(), self.is_primary, monitors)
    }
}

} // verus!
