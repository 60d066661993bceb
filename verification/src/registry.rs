//! Battery lookup in the I/O registry dump.
//!
//! The dump is a tree printed as text. Each node starts with the marker
//! `+-o`; a node of an accessory names the accessory somewhere in its text
//! and may hold a line of the form `"BatteryPercent" = 85`.

use crate::number::{decimal_i32, parse_i32};
use crate::text::{
    chars_of, contains, find, find_from, index_of, lemma_find_from_is_first,
    lemma_index_of_bounds, position, trim, trimmed,
};
use vstd::prelude::*;
use vstd::slice::slice_subrange;

verus! {

/// The text that starts a node of the dump.
pub const SECTION_MARK: &'static str = "+-o";

/// The text that introduces the battery level in a node.
pub const BATTERY_KEY: &'static str = "\"BatteryPercent\" = ";

/// The first line of `section`, among those that start at or after `from`,
/// that holds `key`. Lines end at a line feed.
pub open spec fn first_line_with(section: Seq<char>, key: Seq<char>, from: int) -> Option<
    Seq<char>,
>
    decreases section.len() - from + 1,
{
    if from < 0 || from >= section.len() {
        None
    } else {
        let end = index_of(section, '\n', from);
        let line = section.subrange(from, end);
        if contains(line, key) {
            Some(line)
        } else {
            proof {
                lemma_index_of_bounds(section, '\n', from);
            }
            first_line_with(section, key, end + 1)
        }
    }
}

/// The text between the first `separator` of `line` and the next one, or
/// the end of the line. `None` where the line holds no `separator`.
pub open spec fn second_field(line: Seq<char>, separator: char) -> Option<Seq<char>> {
    let first = index_of(line, separator, 0);
    if first >= line.len() {
        None
    } else {
        Some(line.subrange(first + 1, index_of(line, separator, first + 1)))
    }
}

/// The level that one node states for the accessory called `name`: the node
/// has to hold the name, and the value on its first battery line has to be
/// a decimal integer, white space around it set aside.
pub open spec fn section_level(section: Seq<char>, name: Seq<char>) -> Option<i32> {
    if !contains(section, name) {
        None
    } else {
        match first_line_with(section, BATTERY_KEY@, 0) {
            Some(line) => match second_field(line, '=') {
                Some(field) => decimal_i32(trimmed(field)),
                None => None,
            },
            None => None,
        }
    }
}

/// The level that the dump states for `name`, looking at the nodes that
/// start at or after `from`: that of the first node which states one.
pub open spec fn registry_level_from(dump: Seq<char>, name: Seq<char>, from: int) -> Option<i32>
    decreases dump.len() - from,
{
    if from < 0 || from > dump.len() {
        None
    } else {
        match find_from(dump, SECTION_MARK@, from) {
            Some(at) => match section_level(dump.subrange(from, at), name) {
                Some(level) => Some(level),
                None => {
                    proof {
                        reveal_strlit("+-o");
                        lemma_find_from_is_first(dump, SECTION_MARK@, from);
                    }
                    registry_level_from(dump, name, at + SECTION_MARK@.len())
                },
            },
            None => section_level(dump.subrange(from, dump.len() as int), name),
        }
    }
}

/// The battery level that the dump states for the accessory called `name`.
pub open spec fn registry_level(dump: Seq<char>, name: Seq<char>) -> Option<i32> {
    registry_level_from(dump, name, 0)
}

/// Reads the value of the first line of `section` that holds `key`.
fn read_keyed_line<'a>(section: &'a [char], key: &[char]) -> (line: Option<&'a [char]>)
    ensures
        match line {
            Some(found) => first_line_with(section@, key@, 0) == Some(found@),
            None => first_line_with(section@, key@, 0) is None,
        },
{
    let mut from: usize = 0;
    while from < section.len()
        invariant
            first_line_with(section@, key@, 0) == first_line_with(section@, key@, from as int),
        decreases section.len() - from,
    {
        let end = position(section, '\n', from);
        proof {
            lemma_index_of_bounds(section@, '\n', from as int);
        }
        let line = slice_subrange(section, from, end);
        if find(line, key, 0).is_some() {
            return Some(line);
        }
        if end == section.len() {
            assert(first_line_with(section@, key@, end + 1) is None);
            return None;
        }
        from = end + 1;
    }
    None
}

/// Reads the level that one node states for `name`.
fn read_section_level(section: &[char], name: &[char], key: &[char]) -> (level: Option<i32>)
    requires
        key@ == BATTERY_KEY@,
    ensures
        level == section_level(section@, name@),
{
    if find(section, name, 0).is_none() {
        return None;
    }
    match read_keyed_line(section, key) {
        Some(line) => {
            let first = position(line, '=', 0);
            proof {
                lemma_index_of_bounds(line@, '=', 0);
            }
            if first >= line.len() {
                return None;
            }
            let end = position(line, '=', first + 1);
            proof {
                lemma_index_of_bounds(line@, '=', first + 1);
            }
            parse_i32(trim(slice_subrange(line, first + 1, end)))
        },
        None => None,
    }
}

/// Looks up the battery level of the accessory called `name` in a registry
/// dump.
///
/// The nodes are tried in order. The first node that holds the name and
/// whose first battery line carries a number decides; `None` where no node
/// does.
pub fn registry_battery_level(dump: &str, name: &str) -> (level: Option<i32>)
    ensures
        level == registry_level(dump@, name@),
{
    let chars = chars_of(dump);
    let wanted = chars_of(name);
    let mark = chars_of(SECTION_MARK);
    let key = chars_of(BATTERY_KEY);
    let text = chars.as_slice();
    proof {
        reveal_strlit("+-o");
    }
    let mut from: usize = 0;
    loop
        invariant
            from <= text.len(),
            text@ == dump@,
            wanted@ == name@,
            mark@ == SECTION_MARK@,
            mark@.len() == 3,
            key@ == BATTERY_KEY@,
            registry_level(dump@, name@) == registry_level_from(dump@, name@, from as int),
        decreases text.len() - from,
    {
        match find(text, mark.as_slice(), from) {
            Some(at) => {
                proof {
                    lemma_find_from_is_first(text@, mark@, from as int);
                }
                let section = slice_subrange(text, from, at);
                match read_section_level(section, wanted.as_slice(), key.as_slice()) {
                    Some(level) => {
                        return Some(level);
                    },
                    None => {
                        from = at + mark.len();
                    },
                }
            },
            None => {
                let section = slice_subrange(text, from, text.len());
                return read_section_level(section, wanted.as_slice(), key.as_slice());
            },
        }
    }
}

} // verus!
