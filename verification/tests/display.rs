use bluetooth_devices::device::BatteryInfo;
use bluetooth_devices::display::{
    battery_reading, battery_severity, link_severity, BatteryReading, Severity,
};
use bluetooth_devices::number::{format_percentage, parse_percentage};

fn chars(text: &str) -> Vec<char> {
    text.chars().collect()
}

#[test]
fn battery_severity_has_three_bands() {
    assert_eq!(battery_severity(100), Severity::Healthy);
    assert_eq!(battery_severity(75), Severity::Healthy);
    assert_eq!(battery_severity(51), Severity::Healthy);
    assert_eq!(battery_severity(50), Severity::Low);
    assert_eq!(battery_severity(26), Severity::Low);
    assert_eq!(battery_severity(20), Severity::Low);
    assert_eq!(battery_severity(19), Severity::Critical);
    assert_eq!(battery_severity(1), Severity::Critical);
    assert_eq!(battery_severity(0), Severity::Critical);
}

#[test]
fn battery_severity_of_a_level_out_of_range_is_critical() {
    assert_eq!(battery_severity(101), Severity::Critical);
    assert_eq!(battery_severity(-1), Severity::Critical);
    assert_eq!(battery_severity(i32::MAX), Severity::Critical);
    assert_eq!(battery_severity(i32::MIN), Severity::Critical);
}

#[test]
fn link_severity_follows_the_link_state() {
    assert_eq!(link_severity(true), Severity::Healthy);
    assert_eq!(link_severity(false), Severity::Critical);
}

#[test]
fn left_and_right_are_shown_as_two_levels_of_their_own() {
    let info = BatteryInfo {
        left: parse_percentage(&chars("40%")),
        right: parse_percentage(&chars("45%")),
        single: None,
    };
    let reading = battery_reading(&Some(info));
    assert_eq!(reading, BatteryReading::Pair { left: 40, right: 45 });
    match reading {
        BatteryReading::Pair { left, right } => {
            assert_eq!(format_percentage(left), "40%");
            assert_eq!(format_percentage(right), "45%");
        }
        _ => panic!("a pair was expected"),
    }
}

#[test]
fn pair_is_never_read_from_single() {
    let info = BatteryInfo { left: Some(40), right: Some(45), single: Some(99) };
    assert_eq!(battery_reading(&Some(info)), BatteryReading::Pair { left: 40, right: 45 });
}

#[test]
fn single_is_shown_where_the_pair_is_not_complete() {
    let single = BatteryInfo { left: None, right: None, single: Some(85) };
    assert_eq!(battery_reading(&Some(single)), BatteryReading::Single(85));
    let half = BatteryInfo { left: Some(40), right: None, single: Some(85) };
    assert_eq!(battery_reading(&Some(half)), BatteryReading::Single(85));
    let other_half = BatteryInfo { left: None, right: Some(45), single: Some(85) };
    assert_eq!(battery_reading(&Some(other_half)), BatteryReading::Single(85));
}

#[test]
fn nothing_is_shown_without_levels() {
    assert_eq!(battery_reading(&None), BatteryReading::Unknown);
    let none = BatteryInfo { left: None, right: None, single: None };
    assert_eq!(battery_reading(&Some(none)), BatteryReading::Unknown);
    let half = BatteryInfo { left: Some(40), right: None, single: None };
    assert_eq!(battery_reading(&Some(half)), BatteryReading::Unknown);
}

#[test]
fn from_levels_keeps_one_shape() {
    assert_eq!(
        BatteryInfo::from_levels(Some(40), Some(45), Some(90)),
        BatteryInfo { left: Some(40), right: Some(45), single: None }
    );
    assert_eq!(
        BatteryInfo::from_levels(Some(40), None, Some(90)),
        BatteryInfo { left: Some(40), right: None, single: Some(90) }
    );
    assert_eq!(
        BatteryInfo::from_levels(None, None, Some(90)),
        BatteryInfo { left: None, right: None, single: Some(90) }
    );
    assert_eq!(
        BatteryInfo::from_levels(None, None, None),
        BatteryInfo { left: None, right: None, single: None }
    );
}
