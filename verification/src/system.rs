//! The system-wide answers of the Bluetooth and audio tools: the on/off
//! flags and the name of the default output device.

use crate::text::{chars_of, find, find_from, index_of, position, string_of, trim, trimmed};
use vstd::prelude::*;
use vstd::slice::slice_subrange;

verus! {

/// The text that introduces a device name in the audio report.
pub const NAME_MARKER: &'static str = "\"_name\" : \"";

/// Whether a tool's answer to an on/off query says "on": the answer is the
/// single character `1`, white space around it set aside.
pub open spec fn flag_is_on(output: Seq<char>) -> bool {
    trimmed(output) == seq!['1']
}

/// The device name that the audio report states first: the text that
/// follows the first name marker, up to the next double quote or to the end
/// of the report. `None` where the report holds no marker.
pub open spec fn output_device_name(report: Seq<char>) -> Option<Seq<char>> {
    match find_from(report, NAME_MARKER@, 0) {
        Some(at) => {
            let start = at + NAME_MARKER@.len();
            Some(report.subrange(start, index_of(report, '"', start)))
        },
        None => None,
    }
}

/// Reads the answer to an on/off query, such as the power state or the
/// discoverable state.
pub fn parse_flag(output: &str) -> (on: bool)
    ensures
        on == flag_is_on(output@),
{
    let chars = chars_of(output);
    let cut = trim(chars.as_slice());
    if cut.len() == 1 && cut[0] == '1' {
        assert(cut@ =~= seq!['1']);
        true
    } else {
        false
    }
}

/// Reads the name of the default output device out of the audio report.
pub fn parse_default_output_device(report: &str) -> (name: Option<String>)
    ensures
        match name {
            Some(text) => output_device_name(report@) == Some(text@),
            None => output_device_name(report@) is None,
        },
{
    let chars = chars_of(report);
    let marker = chars_of(NAME_MARKER);
    match find(chars.as_slice(), marker.as_slice(), 0) {
        Some(at) => {
            proof {
                crate::text::lemma_find_from_is_first(chars@, marker@, 0);
            }
            let start: usize = at + marker.len();
            let end = position(chars.as_slice(), '"', start);
            proof {
                crate::text::lemma_index_of_bounds(chars@, '"', start as int);
            }
            Some(string_of(slice_subrange(chars.as_slice(), start, end)))
        },
        None => None,
    }
}

} // verus!
