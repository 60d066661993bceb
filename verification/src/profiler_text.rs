//! Aggregation from the Bluetooth profiler's plain-text report.
//!
//! The report is read line by line, indentation set aside. The lines
//! `Connected:` and `Not Connected:` open a group. Inside a group a line
//! that ends in a colon opens the section of a device, named by the text
//! before the colon, and the `key: value` lines that follow describe that
//! device until the next section or group opens or the report ends. A line
//! that ends in a colon is always a header, never a field without a value.

use crate::device::{all_wf, record_views, BatteryInfo, DeviceRecord, DeviceView};
use crate::number::{parse_percentage, percentage_value};
use crate::text::{
    chars_of, index_of, lemma_index_of_bounds, position, same_chars, string_of, trim, trimmed,
};
use vstd::prelude::*;
use vstd::slice::slice_subrange;

verus! {

/// The line that opens the group of connected devices.
pub const CONNECTED_HEADER: &'static str = "Connected:";

/// The line that opens the group of devices that are not connected.
pub const NOT_CONNECTED_HEADER: &'static str = "Not Connected:";

/// The key of the field that holds a device's hardware address.
pub const ADDRESS_FIELD: &'static str = "Address";

/// The key of the field that holds the left earpiece's level.
pub const LEFT_LEVEL_FIELD: &'static str = "Left Battery Level";

/// The key of the field that holds the right earpiece's level.
pub const RIGHT_LEVEL_FIELD: &'static str = "Right Battery Level";

/// The key of the field that holds the level of a single-battery accessory.
pub const SINGLE_LEVEL_FIELD: &'static str = "Battery Level";

/// What one line of the report says.
pub enum LineKind {
    /// The header of a group, with the link state of its devices.
    Group(bool),
    /// The header of a device section, with the device's name.
    Section(Seq<char>),
    /// A field of the open section: key and value.
    Field(Seq<char>, Seq<char>),
    /// Anything else; it is passed over.
    Other,
}

/// Reads one line. The line is trimmed first; a header's name and a
/// field's key and value are trimmed again.
pub open spec fn classify(raw: Seq<char>) -> LineKind {
    let line = trimmed(raw);
    let colon = index_of(line, ':', 0);
    if line == CONNECTED_HEADER@ {
        LineKind::Group(true)
    } else if line == NOT_CONNECTED_HEADER@ {
        LineKind::Group(false)
    } else if line.len() > 0 && line.last() == ':' && trimmed(line.drop_last()).len() > 0 {
        LineKind::Section(trimmed(line.drop_last()))
    } else if colon < line.len() {
        LineKind::Field(
            trimmed(line.subrange(0, colon)),
            trimmed(line.subrange(colon + 1, line.len() as int)),
        )
    } else {
        LineKind::Other
    }
}

/// The section that is being read: what its lines said so far.
pub struct OpenSection {
    pub name: Seq<char>,
    pub connected: bool,
    pub address: Seq<char>,
    pub left: Option<i32>,
    pub right: Option<i32>,
    pub single: Option<i32>,
}

/// The state of the reader between two lines.
pub struct ReaderState {
    /// The link state of the open group; `None` before the first group.
    pub group: Option<bool>,
    /// The open section; `None` outside a device.
    pub open: Option<OpenSection>,
    /// The records of the sections that were closed, in order.
    pub closed: Seq<DeviceView>,
}

/// The state before the first line.
pub open spec fn initial_state() -> ReaderState {
    ReaderState { group: None, open: None, closed: Seq::empty() }
}

/// The record that a section gives when it is closed.
pub open spec fn section_record(section: OpenSection) -> DeviceView {
    DeviceView {
        address: section.address,
        name: section.name,
        connected: section.connected,
        battery: Some(BatteryInfo::normalized(section.left, section.right, section.single)),
    }
}

/// The closed records once the open section, if any, is closed too.
pub open spec fn flushed(state: ReaderState) -> Seq<DeviceView> {
    match state.open {
        Some(section) => state.closed.push(section_record(section)),
        None => state.closed,
    }
}

/// The open section after one of its fields was read. A later field
/// replaces an earlier one of the same key; a level that is no number is
/// recorded as absent; fields of other keys change nothing.
pub open spec fn with_field(section: OpenSection, key: Seq<char>, value: Seq<char>) -> OpenSection {
    if key == ADDRESS_FIELD@ {
        OpenSection { address: value, ..section }
    } else if key == LEFT_LEVEL_FIELD@ {
        OpenSection { left: percentage_value(value), ..section }
    } else if key == RIGHT_LEVEL_FIELD@ {
        OpenSection { right: percentage_value(value), ..section }
    } else if key == SINGLE_LEVEL_FIELD@ {
        OpenSection { single: percentage_value(value), ..section }
    } else {
        section
    }
}

/// The state after one more line.
///
/// A group header closes the open section and opens the group. A section
/// header inside a group closes the open section and opens a new one; before
/// the first group it is passed over. A field goes to the open section.
pub open spec fn step(state: ReaderState, raw: Seq<char>) -> ReaderState {
    match classify(raw) {
        LineKind::Group(connected) => ReaderState {
            group: Some(connected),
            open: None,
            closed: flushed(state),
        },
        LineKind::Section(name) => match state.group {
            Some(connected) => ReaderState {
                group: state.group,
                open: Some(
                    OpenSection {
                        name,
                        connected,
                        address: Seq::empty(),
                        left: None,
                        right: None,
                        single: None,
                    },
                ),
                closed: flushed(state),
            },
            None => state,
        },
        LineKind::Field(key, value) => match state.open {
            Some(section) => ReaderState { open: Some(with_field(section, key, value)), ..state },
            None => state,
        },
        LineKind::Other => state,
    }
}

/// The state after the lines that start at or after `from`. Lines end at a
/// line feed.
pub open spec fn run_from(report: Seq<char>, from: int, state: ReaderState) -> ReaderState
    decreases report.len() - from + 1,
{
    if from < 0 || from >= report.len() {
        state
    } else {
        let end = index_of(report, '\n', from);
        proof {
            lemma_index_of_bounds(report, '\n', from);
        }
        run_from(report, end + 1, step(state, report.subrange(from, end)))
    }
}

/// The records that a report gives: one for each device section, in the
/// order of the report, the last section included.
pub open spec fn profiler_text_records(report: Seq<char>) -> Seq<DeviceView> {
    flushed(run_from(report, 0, initial_state()))
}

/// Whether a line opens a device section in a reader that is inside a
/// group (`in_group`) or before the first one.
pub open spec fn opens_section(raw: Seq<char>, in_group: bool) -> bool {
    classify(raw) is Section && in_group
}

/// The number of lines, among those that start at or after `from`, that
/// open a device section.
pub open spec fn section_headers_from(report: Seq<char>, from: int, in_group: bool) -> nat
    decreases report.len() - from + 1,
{
    if from < 0 || from >= report.len() {
        0
    } else {
        let end = index_of(report, '\n', from);
        let raw = report.subrange(from, end);
        proof {
            lemma_index_of_bounds(report, '\n', from);
        }
        let count: nat = if opens_section(raw, in_group) {
            1
        } else {
            0
        };
        count + section_headers_from(report, end + 1, in_group || classify(raw) is Group)
    }
}

/// The number of device section headers of a report.
pub open spec fn section_headers(report: Seq<char>) -> nat {
    section_headers_from(report, 0, false)
}

/// Whether a reader state holds usable records only.
pub open spec fn state_wf(state: ReaderState) -> bool {
    &&& all_wf(state.closed)
    &&& state.open matches Some(section) ==> section.name.len() > 0
}

proof fn lemma_step_counts(state: ReaderState, raw: Seq<char>)
    requires
        state_wf(state),
        state.open is Some ==> state.group is Some,
    ensures
        state_wf(step(state, raw)),
        step(state, raw).open is Some ==> step(state, raw).group is Some,
        step(state, raw).group is Some <==> state.group is Some || classify(raw) is Group,
        flushed(step(state, raw)).len() == flushed(state).len() + if opens_section(
            raw,
            state.group is Some,
        ) {
            1nat
        } else {
            0nat
        },
{
}

proof fn lemma_run_counts(report: Seq<char>, from: int, state: ReaderState)
    requires
        state_wf(state),
        state.open is Some ==> state.group is Some,
    ensures
        flushed(run_from(report, from, state)).len() == flushed(state).len()
            + section_headers_from(report, from, state.group is Some),
        all_wf(flushed(run_from(report, from, state))),
    decreases report.len() - from + 1,
{
    if 0 <= from < report.len() {
        let end = index_of(report, '\n', from);
        let raw = report.subrange(from, end);
        lemma_index_of_bounds(report, '\n', from);
        lemma_step_counts(state, raw);
        lemma_run_counts(report, end + 1, step(state, raw));
    }
}

/// A report with N device section headers gives exactly N records: every
/// section is closed into a record, the one that the end of the report
/// closes included. Every record is usable.
pub proof fn lemma_one_record_per_section(report: Seq<char>)
    ensures
        profiler_text_records(report).len() == section_headers(report),
        all_wf(profiler_text_records(report)),
{
    lemma_run_counts(report, 0, initial_state());
}

/// The words of the report format, as characters.
struct Vocabulary {
    connected: Vec<char>,
    not_connected: Vec<char>,
    address: Vec<char>,
    left: Vec<char>,
    right: Vec<char>,
    single: Vec<char>,
}

impl Vocabulary {
    spec fn wf(&self) -> bool {
        &&& self.connected@ == CONNECTED_HEADER@
        &&& self.not_connected@ == NOT_CONNECTED_HEADER@
        &&& self.address@ == ADDRESS_FIELD@
        &&& self.left@ == LEFT_LEVEL_FIELD@
        &&& self.right@ == RIGHT_LEVEL_FIELD@
        &&& self.single@ == SINGLE_LEVEL_FIELD@
    }

    fn new() -> (words: Vocabulary)
        ensures
            words.wf(),
    {
        Vocabulary {
            connected: chars_of(CONNECTED_HEADER),
            not_connected: chars_of(NOT_CONNECTED_HEADER),
            address: chars_of(ADDRESS_FIELD),
            left: chars_of(LEFT_LEVEL_FIELD),
            right: chars_of(RIGHT_LEVEL_FIELD),
            single: chars_of(SINGLE_LEVEL_FIELD),
        }
    }
}

/// One line of the report, its parts as slices of the report.
enum Line<'a> {
    Group(bool),
    Section(&'a [char]),
    Field(&'a [char], &'a [char]),
    Other,
}

impl<'a> Line<'a> {
    spec fn kind(self) -> LineKind {
        match self {
            Line::Group(connected) => LineKind::Group(connected),
            Line::Section(name) => LineKind::Section(name@),
            Line::Field(key, value) => LineKind::Field(key@, value@),
            Line::Other => LineKind::Other,
        }
    }
}

/// Reads one line of the report.
fn read_line<'a>(raw: &'a [char], words: &Vocabulary) -> (line: Line<'a>)
    requires
        words.wf(),
    ensures
        line.kind() == classify(raw@),
{
    let line = trim(raw);
    if same_chars(line, words.connected.as_slice()) {
        return Line::Group(true);
    }
    if same_chars(line, words.not_connected.as_slice()) {
        return Line::Group(false);
    }
    if line.len() > 0 && line[line.len() - 1] == ':' {
        let name = trim(slice_subrange(line, 0, line.len() - 1));
        if name.len() > 0 {
            return Line::Section(name);
        }
    }
    let colon = position(line, ':', 0);
    proof {
        lemma_index_of_bounds(line@, ':', 0);
    }
    if colon < line.len() {
        Line::Field(
            trim(slice_subrange(line, 0, colon)),
            trim(slice_subrange(line, colon + 1, line.len())),
        )
    } else {
        Line::Other
    }
}

/// The section that the reader holds open, in executable form.
struct Section {
    name: String,
    connected: bool,
    address: String,
    left: Option<i32>,
    right: Option<i32>,
    single: Option<i32>,
}

impl Section {
    spec fn content(self) -> OpenSection {
        OpenSection {
            name: self.name@,
            connected: self.connected,
            address: self.address@,
            left: self.left,
            right: self.right,
            single: self.single,
        }
    }
}

/// The open section as the reader state holds it.
spec fn open_view(open: Option<Section>) -> Option<OpenSection> {
    match open {
        Some(section) => Some(section.content()),
        None => None,
    }
}

/// Closes the open section, if any, into a record at the end of `devices`.
fn close_section(open: Option<Section>, devices: &mut Vec<DeviceRecord>)
    ensures
        record_views(final(devices)@) == flushed(
            ReaderState { group: None, open: open_view(open), closed: record_views(old(devices)@) },
        ),
{
    match open {
        Some(section) => {
            let record = DeviceRecord {
                address: section.address,
                name: section.name,
                connected: section.connected,
                battery: Some(BatteryInfo::from_levels(section.left, section.right, section.single)),
            };
            devices.push(record);
        },
        None => {},
    }
}

/// Records one field in the open section.
fn record_field(section: Section, key: &[char], value: &[char], words: &Vocabulary) -> (updated:
    Section)
    requires
        words.wf(),
    ensures
        updated.content() == with_field(section.content(), key@, value@),
{
    if same_chars(key, words.address.as_slice()) {
        Section { address: string_of(value), ..section }
    } else if same_chars(key, words.left.as_slice()) {
        Section { left: parse_percentage(value), ..section }
    } else if same_chars(key, words.right.as_slice()) {
        Section { right: parse_percentage(value), ..section }
    } else if same_chars(key, words.single.as_slice()) {
        Section { single: parse_percentage(value), ..section }
    } else {
        section
    }
}

/// Lists the devices that the profiler's plain-text report describes, in
/// the order of the report.
///
/// Lines that fit nowhere are passed over, so a report of another shape
/// gives fewer records, down to none, and never a failure.
pub fn parse_profiler_text(report: &str) -> (devices: Vec<DeviceRecord>)
    ensures
        record_views(devices@) == profiler_text_records(report@),
        record_views(devices@).len() == section_headers(report@),
        all_wf(record_views(devices@)),
{
    let chars = chars_of(report);
    let text = chars.as_slice();
    let words = Vocabulary::new();
    let mut devices: Vec<DeviceRecord> = Vec::new();
    let mut group: Option<bool> = None;
    let mut open: Option<Section> = None;
    let mut from: usize = 0;
    assert(record_views(devices@) == Seq::<DeviceView>::empty());
    while from < text.len()
        invariant
            text@ == report@,
            words.wf(),
            profiler_text_records(report@) == flushed(
                run_from(
                    report@,
                    from as int,
                    ReaderState { group, open: open_view(open), closed: record_views(devices@) },
                ),
            ),
        decreases text.len() - from,
    {
        let end = position(text, '\n', from);
        proof {
            lemma_index_of_bounds(text@, '\n', from as int);
        }
        match read_line(slice_subrange(text, from, end), &words) {
            Line::Group(connected) => {
                close_section(open, &mut devices);
                group = Some(connected);
                open = None;
            },
            Line::Section(name) => {
                match group {
                    Some(connected) => {
                        close_section(open, &mut devices);
                        open = Some(
                            Section {
                                name: string_of(name),
                                connected,
                                address: String::new(),
                                left: None,
                                right: None,
                                single: None,
                            },
                        );
                    },
                    None => {},
                }
            },
            Line::Field(key, value) => {
                open = match open {
                    Some(section) => Some(record_field(section, key, value, &words)),
                    None => None,
                };
            },
            Line::Other => {},
        }
        let ghost next = ReaderState {
            group,
            open: open_view(open),
            closed: record_views(devices@),
        };
        if end < text.len() {
            from = end + 1;
        } else {
            assert(run_from(report@, end + 1, next) == next);
            from = end;
        }
    }
    close_section(open, &mut devices);
    proof {
        lemma_one_record_per_section(report@);
    }
    devices
}

} // verus!
