//! Classification for display: which battery levels of a record are shown,
//! and how severe a level or a link state is.
//!
//! Nothing here decides what the program does; the classes only pick text
//! and colour.

use crate::device::BatteryInfo;
use vstd::prelude::*;

verus! {

/// How a value is to be shown.
#[derive(Clone, Copy, Debug, PartialEq, Eq, Structural)]
pub enum Severity {
    /// In good order: shown in green.
    Healthy,
    /// Low but usable: shown in orange.
    Low,
    /// Critical: shown in red.
    Critical,
}

/// The battery levels of a record that are shown.
#[derive(Clone, Copy, Debug, PartialEq, Eq, Structural)]
pub enum BatteryReading {
    /// Both earpieces, each with its own level.
    Pair { left: i32, right: i32 },
    /// One level for the whole accessory.
    Single(i32),
    /// Nothing to show.
    Unknown,
}

/// The severity of a battery level: above 50 and up to 100 percent is
/// healthy, 20 to 50 percent is low, and everything else is critical, a
/// level outside `0..=100` included.
pub open spec fn severity_of(percentage: int) -> Severity {
    if 51 <= percentage <= 100 {
        Severity::Healthy
    } else if 20 <= percentage <= 50 {
        Severity::Low
    } else {
        Severity::Critical
    }
}

/// The severity of a link state: a connected device is healthy, one that
/// is not connected is critical.
pub open spec fn link_severity_of(connected: bool) -> Severity {
    if connected {
        Severity::Healthy
    } else {
        Severity::Critical
    }
}

/// The levels that are shown for a record's battery field. Where both
/// earpieces are known they are shown, each for itself, and a single level
/// is not looked at; else a single level is shown where there is one.
pub open spec fn reading_of(battery: Option<BatteryInfo>) -> BatteryReading {
    match battery {
        Some(info) => if info.left is Some && info.right is Some {
            BatteryReading::Pair { left: info.left->0, right: info.right->0 }
        } else if info.single is Some {
            BatteryReading::Single(info.single->0)
        } else {
            BatteryReading::Unknown
        },
        None => BatteryReading::Unknown,
    }
}

/// Classifies a battery level.
pub fn battery_severity(percentage: i32) -> (severity: Severity)
    ensures
        severity == severity_of(percentage as int),
{
    if 51 <= percentage && percentage <= 100 {
        Severity::Healthy
    } else if 20 <= percentage && percentage <= 50 {
        Severity::Low
    } else {
        Severity::Critical
    }
}

/// Classifies a link state.
pub fn link_severity(connected: bool) -> (severity: Severity)
    ensures
        severity == link_severity_of(connected),
{
    if connected {
        Severity::Healthy
    } else {
        Severity::Critical
    }
}

/// Picks the levels to show for a record's battery field.
pub fn battery_reading(battery: &Option<BatteryInfo>) -> (reading: BatteryReading)
    ensures
        reading == reading_of(*battery),
{
    match battery {
        Some(info) => match (info.left, info.right) {
            (Some(left), Some(right)) => BatteryReading::Pair { left, right },
            _ => match info.single {
                Some(single) => BatteryReading::Single(single),
                None => BatteryReading::Unknown,
            },
        },
        None => BatteryReading::Unknown,
    }
}

/// A pair of earpiece levels is shown as that pair whatever the single
/// level holds: the reading never takes a value from `single` then.
pub proof fn lemma_pair_is_shown_for_itself(left: i32, right: i32, single: Option<i32>)
    ensures
        reading_of(Some(BatteryInfo { left: Some(left), right: Some(right), single }))
            == (BatteryReading::Pair { left, right }),
{
}

} // verus!
