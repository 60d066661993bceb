//! The status aggregator: from the raw output of the system's tools to one
//! set of device records and one status report.
//!
//! The caller runs the tools and hands their output in. Each profiler
//! report contributes its own records; a device that two reports describe
//! stands twice in the result, in the order of the reports.

use crate::device::{all_wf, record_views, DeviceRecord, DeviceView};
use crate::profiler_json::{
    lemma_document_records_wf, parse_profiler_json, profiler_json_records,
};
use crate::profiler_text::{
    lemma_one_record_per_section, parse_profiler_text, profiler_text_records,
};
use crate::system::{flag_is_on, output_device_name, parse_default_output_device, parse_flag};
use vstd::prelude::*;

verus! {

/// The format of a profiler report.
#[derive(Clone, Copy, Debug, PartialEq, Eq, Structural)]
pub enum ReportFormat {
    /// One JSON document.
    Json,
    /// Plain text, one section for each device.
    Text,
}

/// The output of one run of the profiler.
#[derive(Clone, Debug, PartialEq, Eq)]
pub struct ProfilerReport {
    pub format: ReportFormat,
    pub text: String,
}

/// The mathematical content of a [`ProfilerReport`].
pub struct ReportView {
    pub format: ReportFormat,
    pub text: Seq<char>,
}

impl View for ProfilerReport {
    type V = ReportView;

    open spec fn view(&self) -> ReportView {
        ReportView { format: self.format, text: self.text@ }
    }
}

/// The Bluetooth status of the system.
#[derive(Clone, Debug, PartialEq, Eq)]
pub struct StatusReport {
    /// Whether Bluetooth is switched on.
    pub power: bool,
    /// The default audio output device, where the audio report names one.
    pub default_output: Option<String>,
    /// The paired devices.
    pub devices: Vec<DeviceRecord>,
    /// Whether the host is discoverable.
    pub discoverable: bool,
}

/// The contents of a list of reports, in order.
pub open spec fn report_views(reports: Seq<ProfilerReport>) -> Seq<ReportView> {
    reports.map_values(|report: ProfilerReport| report@)
}

/// The records that one report contributes.
pub open spec fn report_records(report: ReportView) -> Seq<DeviceView> {
    match report.format {
        ReportFormat::Json => profiler_json_records(report.text),
        ReportFormat::Text => profiler_text_records(report.text),
    }
}

/// The records of several reports: those of each report, one report after
/// the other, nothing merged and nothing left out.
pub open spec fn aggregated_records(reports: Seq<ReportView>) -> Seq<DeviceView>
    decreases reports.len(),
{
    if reports.len() == 0 {
        Seq::empty()
    } else {
        aggregated_records(reports.drop_last()) + report_records(reports.last())
    }
}

/// The name in an audio report that may be missing.
pub open spec fn optional_output_name(audio_report: Option<Seq<char>>) -> Option<Seq<char>> {
    match audio_report {
        Some(report) => output_device_name(report),
        None => None,
    }
}

/// Every record that one report contributes is usable.
pub proof fn lemma_report_records_wf(report: ReportView)
    ensures
        all_wf(report_records(report)),
{
    match report.format {
        ReportFormat::Json => {
            match crate::json::json_document(report.text) {
                Some(document) => lemma_document_records_wf(document),
                None => {},
            }
        },
        ReportFormat::Text => lemma_one_record_per_section(report.text),
    }
}

/// Every aggregated record is usable.
pub proof fn lemma_aggregated_records_wf(reports: Seq<ReportView>)
    ensures
        all_wf(aggregated_records(reports)),
    decreases reports.len(),
{
    if reports.len() > 0 {
        lemma_aggregated_records_wf(reports.drop_last());
        lemma_report_records_wf(reports.last());
    }
}

/// Aggregation is repeatable: two runs over the same reports give records
/// that agree in every field, character for character. Nothing but the
/// reports goes into the result.
pub proof fn lemma_aggregation_is_repeatable(
    reports: Seq<ReportView>,
    first: Seq<DeviceRecord>,
    second: Seq<DeviceRecord>,
)
    requires
        record_views(first) == aggregated_records(reports),
        record_views(second) == aggregated_records(reports),
    ensures
        first.len() == second.len(),
        forall|i: int|
            0 <= i < first.len() ==> {
                &&& (#[trigger] first[i]).name@ == second[i].name@
                &&& first[i].address@ == second[i].address@
                &&& first[i].connected == second[i].connected
                &&& first[i].battery == second[i].battery
            },
{
    assert forall|i: int| 0 <= i < first.len() implies {
        &&& (#[trigger] first[i]).name@ == second[i].name@
        &&& first[i].address@ == second[i].address@
        &&& first[i].connected == second[i].connected
        &&& first[i].battery == second[i].battery
    } by {
        assert(record_views(second)[i] == second[i]@);
    }
}

/// Lists the devices of one profiler report.
pub fn devices_of_report(report: &ProfilerReport) -> (devices: Vec<DeviceRecord>)
    ensures
        record_views(devices@) == report_records(report@),
        all_wf(record_views(devices@)),
{
    match report.format {
        ReportFormat::Json => parse_profiler_json(report.text.as_str()),
        ReportFormat::Text => parse_profiler_text(report.text.as_str()),
    }
}

/// Lists the devices of several profiler reports, report after report.
///
/// A report that cannot be read contributes nothing. Records are not
/// merged: a device described by two reports is listed twice.
pub fn aggregate_devices(reports: &Vec<ProfilerReport>) -> (devices: Vec<DeviceRecord>)
    ensures
        record_views(devices@) == aggregated_records(report_views(reports@)),
        all_wf(record_views(devices@)),
{
    let mut devices: Vec<DeviceRecord> = Vec::new();
    let ghost listed = report_views(reports@);
    let mut i: usize = 0;
    while i < reports.len()
        invariant
            i <= reports.len(),
            listed == report_views(reports@),
            record_views(devices@) == aggregated_records(listed.take(i as int)),
        decreases reports.len() - i,
    {
        let mut more = devices_of_report(&reports[i]);
        assert(listed.take(i + 1).drop_last() == listed.take(i as int));
        devices.append(&mut more);
        i += 1;
    }
    assert(listed.take(reports.len() as int) == listed);
    proof {
        lemma_aggregated_records_wf(listed);
    }
    devices
}

/// Builds the status report from what the tools printed: the answer to
/// the power query, the audio report where there is one, the profiler's
/// JSON report and the answer to the discoverable query.
pub fn aggregate_status(
    power_output: &str,
    audio_report: Option<&str>,
    profiler_report: &str,
    discoverable_output: &str,
) -> (status: StatusReport)
    ensures
        status.power == flag_is_on(power_output@),
        status.discoverable == flag_is_on(discoverable_output@),
        match status.default_output {
            Some(name) => optional_output_name(
                match audio_report {
                    Some(report) => Some(report@),
                    None => None,
                },
            ) == Some(name@),
            None => optional_output_name(
                match audio_report {
                    Some(report) => Some(report@),
                    None => None,
                },
            ) is None,
        },
        record_views(status.devices@) == profiler_json_records(profiler_report@),
        all_wf(record_views(status.devices@)),
{
    let default_output = match audio_report {
        Some(report) => parse_default_output_device(report),
        None => None,
    };
    StatusReport {
        power: parse_flag(power_output),
        default_output,
        devices: parse_profiler_json(profiler_report),
        discoverable: parse_flag(discoverable_output),
    }
}

} // verus!
