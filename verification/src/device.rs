//! The records that aggregation produces and resolution consumes.

use vstd::prelude::*;

verus! {

/// Charge levels of one accessory, in percent.
///
/// A two-earpiece accessory reports `left` and `right`, a single-battery
/// accessory reports `single`. Levels are kept as they were read, also when
/// they fall outside `0..=100`.
#[derive(Clone, Copy, Debug, PartialEq, Eq, Structural)]
pub struct BatteryInfo {
    pub left: Option<i32>,
    pub right: Option<i32>,
    pub single: Option<i32>,
}

impl BatteryInfo {
    /// At most one shape is populated: a full pair of earpiece levels and a
    /// single level never stand side by side.
    pub open spec fn wf(self) -> bool {
        !(self.left is Some && self.right is Some && self.single is Some)
    }

    /// The levels a source reported, brought into one shape: where both
    /// earpieces are known they stand for the accessory and a single level
    /// reported beside them is left out.
    pub open spec fn normalized(
        left: Option<i32>,
        right: Option<i32>,
        single: Option<i32>,
    ) -> BatteryInfo {
        BatteryInfo {
            left,
            right,
            single: if left is Some && right is Some {
                None
            } else {
                single
            },
        }
    }

    /// No level at all: the accessory reports no telemetry.
    pub open spec fn unknown() -> BatteryInfo {
        BatteryInfo { left: None, right: None, single: None }
    }

    /// Builds the record for the levels a source reported.
    pub fn from_levels(left: Option<i32>, right: Option<i32>, single: Option<i32>) -> (info:
        BatteryInfo)
        ensures
            info == Self::normalized(left, right, single),
            info.wf(),
    {
        let single = if left.is_some() && right.is_some() {
            None
        } else {
            single
        };
        BatteryInfo { left, right, single }
    }
}

/// One paired Bluetooth peripheral as the system reports it.
#[derive(Clone, Debug, PartialEq, Eq)]
pub struct DeviceRecord {
    /// Hardware address; empty where the source gave none.
    pub address: String,
    /// User-visible label, the key that queries are matched against.
    pub name: String,
    /// Link state at the time of aggregation.
    pub connected: bool,
    /// Charge levels, where the source carries them.
    pub battery: Option<BatteryInfo>,
}

/// The mathematical content of a [`DeviceRecord`].
pub struct DeviceView {
    pub address: Seq<char>,
    pub name: Seq<char>,
    pub connected: bool,
    pub battery: Option<BatteryInfo>,
}

impl DeviceView {
    /// A record is usable when it has a name and its battery levels, if
    /// any, are in one shape.
    pub open spec fn wf(self) -> bool {
        &&& self.name.len() > 0
        &&& self.battery matches Some(info) ==> info.wf()
    }
}

impl View for DeviceRecord {
    type V = DeviceView;

    open spec fn view(&self) -> DeviceView {
        DeviceView {
            address: self.address@,
            name: self.name@,
            connected: self.connected,
            battery: self.battery,
        }
    }
}

impl DeviceRecord {
    /// Whether the record is usable: see [`DeviceView::wf`].
    pub open spec fn wf(&self) -> bool {
        self@.wf()
    }
}

/// The contents of a list of records, in order.
pub open spec fn record_views(records: Seq<DeviceRecord>) -> Seq<DeviceView> {
    records.map_values(|record: DeviceRecord| record@)
}

/// Whether every record of a list is usable.
pub open spec fn all_wf(records: Seq<DeviceView>) -> bool {
    forall|i: int| 0 <= i < records.len() ==> (#[trigger] records[i]).wf()
}

} // verus!
