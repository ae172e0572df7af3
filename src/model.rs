//! The typed records of one compositor state snapshot and of a desired layout.

use crate::float::F64Bits;
use vstd::prelude::*;

verus! {

/// Why a wire value could not be represented.
#[derive(Clone, Copy, Debug, PartialEq, Eq, Structural)]
pub enum DecodeError {
    /// A transform code outside 0 to 7.
    TransformOutOfRange,
}

/// The policy under which a configuration is applied.
#[derive(Clone, Copy, Debug, PartialEq, Eq, Structural)]
pub enum Method {
    Verify,
    Temporary,
    Persistent,
}

impl Method {
    pub open spec fn spec_code(self) -> u32 {
        match self {
            Method::Verify => 0,
            Method::Temporary => 1,
            Method::Persistent => 2,
        }
    }

    /// The number that the bus carries for this policy.
    pub fn code(&self) -> (r: u32)
        ensures
            r == self.spec_code(),
    {
        match self {
            Method::Verify => 0,
            Method::Temporary => 1,
            Method::Persistent => 2,
        }
    }
}

/// Rotation and flip of a logical monitor.
#[derive(Clone, Copy, Debug, PartialEq, Eq, Structural)]
pub enum Transform {
    Normal,
    Degrees90,
    Degrees180,
    Degrees270,
    Flipped,
    Degrees90Flipped,
    Degrees180Flipped,
    Degrees270Flipped,
}

impl Transform {
    pub open spec fn spec_code(self) -> u32 {
        match self {
            Transform::Normal => 0,
            Transform::Degrees90 => 1,
            Transform::Degrees180 => 2,
            Transform::Degrees270 => 3,
            Transform::Flipped => 4,
            Transform::Degrees90Flipped => 5,
            Transform::Degrees180Flipped => 6,
            Transform::Degrees270Flipped => 7,
        }
    }

    /// The number that the bus carries for this transform.
    pub fn code(&self) -> (r: u32)
        ensures
            r == self.spec_code(),
    {
        match self {
            Transform::Normal => 0,
            Transform::Degrees90 => 1,
            Transform::Degrees180 => 2,
            Transform::Degrees270 => 3,
            Transform::Flipped => 4,
            Transform::Degrees90Flipped => 5,
            Transform::Degrees180Flipped => 6,
            Transform::Degrees270Flipped => 7,
        }
    }

    /// Decodes a transform code; codes above 7 are refused.
    pub fn try_from(value: u32) -> (r: Result<Transform, DecodeError>)
        ensures
            value <= 7 <==> r is Ok,
            r matches Ok(t) ==> t.spec_code() == value,
            value > 7 ==> r == Err::<Transform, DecodeError>(DecodeError::TransformOutOfRange),
    {
        match value {
            0 => Ok(Transform::Normal),
            1 => Ok(Transform::Degrees90),
            2 => Ok(Transform::Degrees180),
            3 => Ok(Transform::Degrees270),
            4 => Ok(Transform::Flipped),
            5 => Ok(Transform::Degrees90Flipped),
            6 => Ok(Transform::Degrees180Flipped),
            7 => Ok(Transform::Degrees270Flipped),
            _ => Err(DecodeError::TransformOutOfRange),
        }
    }
}

/// The identity of a physical monitor; the connector name is its key.
#[derive(Clone, Debug)]
pub struct MonitorInfo {
    pub connector: String,
    pub vendor: String,
    pub product_name: String,
    pub serial: String,
}

/// A display mode of a physical monitor.
///
/// Of the mode's property bag the library keeps the two flags that the
/// layout rules read; `None` stands for a property that was absent.
#[derive(Clone, Debug)]
pub struct Mode {
    pub id: String,
    pub width: i32,
    pub height: i32,
    pub refresh_rate: F64Bits,
    pub preferred_scale: F64Bits,
    pub supported_scales: Vec<F64Bits>,
    pub is_current: Option<bool>,
    pub is_preferred: Option<bool>,
}

impl Mode {
    /// The compositor reports this mode as current or preferred
    /// (an absent flag counts as false).
    pub open spec fn is_live(self) -> bool {
        self.is_current == Some(true) || self.is_preferred == Some(true)
    }
}

/// A physical monitor and its modes.
#[derive(Clone, Debug)]
pub struct Monitor {
    pub info: MonitorInfo,
    pub modes: Vec<Mode>,
}

/// A logical monitor as the compositor reports it.
#[derive(Clone, Debug)]
pub struct LogicalMonitor {
    pub x: i32,
    pub y: i32,
    pub scale: F64Bits,
    pub transform: Transform,
    pub is_primary: bool,
    pub monitors: Vec<MonitorInfo>,
}

/// One physical monitor of a desired logical monitor, with the mode to use.
#[derive(Clone, Debug)]
pub struct MonitorUpdateInfo {
    pub connector: String,
    pub mode: String,
}

/// A logical monitor as it is to be applied.
#[derive(Clone, Debug)]
pub struct LogicalMonitorUpdate {
    pub x: i32,
    pub y: i32,
    pub scale: F64Bits,
    pub transform: Transform,
    pub is_primary: bool,
    pub monitors: Vec<MonitorUpdateInfo>,
}

/// What an update says, as mathematical values: each of its monitors is a
/// (connector, mode id) pair.
pub struct UpdateView {
    pub x: int,
    pub y: int,
    pub scale: F64Bits,
    pub transform: Transform,
    pub is_primary: bool,
    pub monitors: Seq<(Seq<char>, Seq<char>)>,
}

impl View for LogicalMonitorUpdate {
    type V = UpdateView;

    open spec fn view(&self) -> UpdateView {
        UpdateView {
            x: self.x as int,
            y: self.y as int,
            scale: self.scale,
            transform: self.transform,
            is_primary: self.is_primary,
            monitors: self.monitors@.map_values(|m: MonitorUpdateInfo| (m.connector@, m.mode@)),
        }
    }
}

/// The views of a list of updates.
pub open spec fn update_views(us: Seq<LogicalMonitorUpdate>) -> Seq<UpdateView> {
    us.map_values(|u: LogicalMonitorUpdate| u@)
}

} // verus!
