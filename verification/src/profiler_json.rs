//! Aggregation from the Bluetooth profiler's JSON report.
//!
//! The report is one document. Under `SPBluetoothDataType` it holds an array
//! whose first element lists the paired devices in two groups,
//! `device_connected` and `device_not_connected`. Each entry of a group is
//! an object whose first key is the device's name and whose value carries
//! the device's fields.

use crate::device::{all_wf, record_views, BatteryInfo, DeviceRecord, DeviceView};
use crate::json::{json_document, parse_json, value_views, JsonModel, JsonValue};
use crate::number::{parse_percentage, percentage_value};
use crate::text::chars_of;
use vstd::prelude::*;

verus! {

/// The key of the document under which the report stands.
pub const ROOT_KEY: &'static str = "SPBluetoothDataType";

/// The key of the group of connected devices.
pub const CONNECTED_KEY: &'static str = "device_connected";

/// The key of the group of devices that are not connected.
pub const NOT_CONNECTED_KEY: &'static str = "device_not_connected";

/// The key of a device's hardware address.
pub const ADDRESS_KEY: &'static str = "device_address";

/// The key of the left earpiece's level.
pub const LEFT_LEVEL_KEY: &'static str = "device_batteryLevelLeft";

/// The key of the right earpiece's level.
pub const RIGHT_LEVEL_KEY: &'static str = "device_batteryLevelRight";

/// The key of the level of a single-battery accessory.
pub const SINGLE_LEVEL_KEY: &'static str = "device_batteryLevel";

/// The level that `details` states under `key`: a string member whose text
/// reads as a percentage. A missing member, a member of another type and a
/// text that is no number all give `None`.
pub open spec fn entry_level(details: JsonModel, key: Seq<char>) -> Option<i32> {
    match details.member(key) {
        Some(value) => match value.text() {
            Some(text) => percentage_value(text),
            None => None,
        },
        None => None,
    }
}

/// The battery levels that `details` states.
pub open spec fn entry_battery(details: JsonModel) -> BatteryInfo {
    BatteryInfo::normalized(
        entry_level(details, LEFT_LEVEL_KEY@),
        entry_level(details, RIGHT_LEVEL_KEY@),
        entry_level(details, SINGLE_LEVEL_KEY@),
    )
}

/// The address that `details` states, empty where it states none.
pub open spec fn entry_address(details: JsonModel) -> Seq<char> {
    match details.member(ADDRESS_KEY@) {
        Some(value) => match value.text() {
            Some(text) => text,
            None => Seq::empty(),
        },
        None => Seq::empty(),
    }
}

/// Whether `entry` describes a device: an object whose first key, the
/// device's name, is not empty.
pub open spec fn is_device_entry(entry: JsonModel) -> bool {
    entry.first_member() matches Some(member) && member.key.len() > 0
}

/// The record that one entry of a group gives. The link state is that of
/// the group the entry stands in, whatever the entry says of itself.
pub open spec fn entry_record(entry: JsonModel, connected: bool) -> Option<DeviceView> {
    match entry.first_member() {
        Some(member) => if member.key.len() > 0 {
            Some(
                DeviceView {
                    address: entry_address(member.value),
                    name: member.key,
                    connected,
                    battery: Some(entry_battery(member.value)),
                },
            )
        } else {
            None
        },
        None => None,
    }
}

/// The records of one group: one for each entry that describes a device, in
/// the order of the entries.
pub open spec fn group_records(entries: Seq<JsonModel>, connected: bool) -> Seq<DeviceView>
    decreases entries.len(),
{
    if entries.len() == 0 {
        Seq::empty()
    } else {
        let before = group_records(entries.drop_last(), connected);
        match entry_record(entries.last(), connected) {
            Some(record) => before.push(record),
            None => before,
        }
    }
}

/// The entries that `data` lists under `key`; none where the key is missing
/// or holds no array.
pub open spec fn group_entries(data: JsonModel, key: Seq<char>) -> Seq<JsonModel> {
    match data.member(key) {
        Some(group) => match group.items() {
            Some(entries) => entries,
            None => Seq::empty(),
        },
        None => Seq::empty(),
    }
}

/// The records of a whole report: the connected group first, then the group
/// that is not connected.
pub open spec fn document_records(document: JsonModel) -> Seq<DeviceView> {
    match document.member(ROOT_KEY@) {
        Some(list) => match list.element(0) {
            Some(data) => group_records(group_entries(data, CONNECTED_KEY@), true)
                + group_records(group_entries(data, NOT_CONNECTED_KEY@), false),
            None => Seq::empty(),
        },
        None => Seq::empty(),
    }
}

/// The records that a report's text gives; none where the text is not JSON.
pub open spec fn profiler_json_records(text: Seq<char>) -> Seq<DeviceView> {
    match json_document(text) {
        Some(document) => document_records(document),
        None => Seq::empty(),
    }
}

/// Every record of a group carries the link state of the group, and every
/// record is usable.
pub proof fn lemma_group_records_state(entries: Seq<JsonModel>, connected: bool)
    ensures
        group_records(entries, connected).len() <= entries.len(),
        forall|i: int|
            0 <= i < group_records(entries, connected).len() ==> {
                &&& (#[trigger] group_records(entries, connected)[i]).connected == connected
                &&& group_records(entries, connected)[i].wf()
            },
    decreases entries.len(),
{
    if entries.len() > 0 {
        lemma_group_records_state(entries.drop_last(), connected);
    }
}

/// Where every entry of a group describes a device, the group gives one
/// record for each entry, in order: none is dropped.
pub proof fn lemma_group_records_complete(entries: Seq<JsonModel>, connected: bool)
    requires
        forall|i: int| 0 <= i < entries.len() ==> is_device_entry(#[trigger] entries[i]),
    ensures
        group_records(entries, connected).len() == entries.len(),
        forall|i: int|
            0 <= i < entries.len() ==> Some(#[trigger] group_records(entries, connected)[i])
                == entry_record(entries[i], connected),
    decreases entries.len(),
{
    if entries.len() > 0 {
        lemma_group_records_complete(entries.drop_last(), connected);
    }
}

/// The link state of every record of a report is that of the group its entry
/// stands in: the records of `device_connected` come first and are
/// connected, those of `device_not_connected` follow and are not.
pub proof fn lemma_document_records_state(document: JsonModel, data: JsonModel)
    requires
        document.member(ROOT_KEY@) matches Some(list) && list.element(0) == Some(data),
    ensures
        ({
            let connected = group_records(group_entries(data, CONNECTED_KEY@), true);
            let others = group_records(group_entries(data, NOT_CONNECTED_KEY@), false);
            let records = document_records(document);
            &&& records == connected + others
            &&& forall|i: int| 0 <= i < connected.len() ==> (#[trigger] records[i]).connected
            &&& forall|i: int|
                connected.len() <= i < records.len() ==> !(#[trigger] records[i]).connected
        }),
{
    lemma_group_records_state(group_entries(data, CONNECTED_KEY@), true);
    lemma_group_records_state(group_entries(data, NOT_CONNECTED_KEY@), false);
}

/// Every record of a report is usable.
pub proof fn lemma_document_records_wf(document: JsonModel)
    ensures
        all_wf(document_records(document)),
{
    match document.member(ROOT_KEY@) {
        Some(list) => match list.element(0) {
            Some(data) => {
                lemma_group_records_state(group_entries(data, CONNECTED_KEY@), true);
                lemma_group_records_state(group_entries(data, NOT_CONNECTED_KEY@), false);
            },
            None => {},
        },
        None => {},
    }
}

/// Reads the level that `details` states under `key`.
fn read_level(details: &JsonValue, key: &str) -> (level: Option<i32>)
    ensures
        level == entry_level(details@, key@),
{
    match details.get(key) {
        Some(value) => match value.as_text() {
            Some(text) => {
                let chars = chars_of(text);
                parse_percentage(chars.as_slice())
            },
            None => None,
        },
        None => None,
    }
}

/// Reads the address that `details` states.
fn read_address(details: &JsonValue) -> (address: String)
    ensures
        address@ == entry_address(details@),
{
    match details.get(ADDRESS_KEY) {
        Some(value) => match value.as_text() {
            Some(text) => text.to_owned(),
            None => String::new(),
        },
        None => String::new(),
    }
}

/// Turns one entry of a group into a record.
///
/// An entry without an address still gives a record, with an empty address.
/// An entry that is no object, has no member or has an empty name gives
/// none.
pub fn process_device_entry(entry: &JsonValue, connected: bool) -> (record: Option<DeviceRecord>)
    ensures
        match record {
            Some(device) => entry_record(entry@, connected) == Some(device@),
            None => entry_record(entry@, connected) is None,
        },
{
    match entry.first_member() {
        Some(member) => {
            if member.key.as_str().is_empty() {
                return None;
            }
            let details = &member.value;
            let battery = BatteryInfo::from_levels(
                read_level(details, LEFT_LEVEL_KEY),
                read_level(details, RIGHT_LEVEL_KEY),
                read_level(details, SINGLE_LEVEL_KEY),
            );
            Some(
                DeviceRecord {
                    address: read_address(details),
                    name: member.key.clone(),
                    connected,
                    battery: Some(battery),
                },
            )
        },
        None => None,
    }
}

/// Appends the records of the group under `key` to `devices`.
fn append_group(data: &JsonValue, key: &str, connected: bool, devices: &mut Vec<DeviceRecord>)
    ensures
        record_views(final(devices)@) == record_views(old(devices)@) + group_records(
            group_entries(data@, key@),
            connected,
        ),
{
    let found = match data.get(key) {
        Some(group) => group.as_array(),
        None => None,
    };
    match found {
        Some(entries) => {
            let ghost listed = value_views(entries@);
            let mut i: usize = 0;
            while i < entries.len()
                invariant
                    i <= entries.len(),
                    listed == value_views(entries@),
                    record_views(devices@) == record_views(old(devices)@) + group_records(
                        listed.take(i as int),
                        connected,
                    ),
                decreases entries.len() - i,
            {
                let ghost before = devices@;
                assert(listed.take(i + 1).drop_last() == listed.take(i as int));
                match process_device_entry(&entries[i], connected) {
                    Some(device) => {
                        devices.push(device);
                        assert(record_views(devices@) == record_views(before).push(device@));
                    },
                    None => {},
                }
                i += 1;
            }
            assert(listed.take(entries.len() as int) == listed);
        },
        None => {},
    }
}

/// Lists the devices of a parsed report, in the order the report gives
/// them: the connected group, then the group that is not connected.
///
/// A report of another shape gives the records of the parts that have the
/// expected shape, down to an empty list.
pub fn devices_from_document(document: &JsonValue) -> (devices: Vec<DeviceRecord>)
    ensures
        record_views(devices@) == document_records(document@),
        all_wf(record_views(devices@)),
{
    let mut devices: Vec<DeviceRecord> = Vec::new();
    let data = match document.get(ROOT_KEY) {
        Some(list) => list.at(0),
        None => None,
    };
    proof {
        lemma_document_records_wf(document@);
    }
    match data {
        Some(data) => {
            append_group(data, CONNECTED_KEY, true, &mut devices);
            append_group(data, NOT_CONNECTED_KEY, false, &mut devices);
        },
        None => {},
    }
    devices
}

/// Lists the devices that the profiler's JSON report describes.
///
/// A text that is not JSON gives an empty list: malformed output of the
/// profiler is no failure of the caller.
pub fn parse_profiler_json(text: &str) -> (devices: Vec<DeviceRecord>)
    ensures
        record_views(devices@) == profiler_json_records(text@),
        all_wf(record_views(devices@)),
{
    match parse_json(text) {
        Some(document) => devices_from_document(&document),
        None => {
            let devices: Vec<DeviceRecord> = Vec::new();
            devices
        },
    }
}

} // verus!
