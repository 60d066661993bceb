use bluetooth_devices::device::{BatteryInfo, DeviceRecord};
use bluetooth_devices::profiler_text::parse_profiler_text;

const REPORT: &str = "Bluetooth:

      Bluetooth Controller:
          Address: AA:AA:AA:AA:AA:AA
          State: On
      Connected:
          Sony Headphones:
              Address: 11:22:33:44:55:66
              Vendor ID: 0x054C
              Battery Level: 85%
          Magic Keyboard:
              Address: 77:88:99:AA:BB:CC
      Not Connected:
          John's AirPods Pro:
              Address: DE:AD:BE:EF:00:01
              Left Battery Level: 40%
              Right Battery Level: 45%
              Case Battery Level: 12%
";

fn levels(left: Option<i32>, right: Option<i32>, single: Option<i32>) -> Option<BatteryInfo> {
    Some(BatteryInfo { left, right, single })
}

fn record(name: &str, address: &str, connected: bool, battery: Option<BatteryInfo>) -> DeviceRecord {
    DeviceRecord { address: address.to_string(), name: name.to_string(), connected, battery }
}

#[test]
fn text_report_gives_one_record_per_section_in_report_order() {
    assert_eq!(
        parse_profiler_text(REPORT),
        vec![
            record("Sony Headphones", "11:22:33:44:55:66", true, levels(None, None, Some(85))),
            record("Magic Keyboard", "77:88:99:AA:BB:CC", true, levels(None, None, None)),
            record(
                "John's AirPods Pro",
                "DE:AD:BE:EF:00:01",
                false,
                levels(Some(40), Some(45), None)
            ),
        ]
    );
}

#[test]
fn last_section_is_not_dropped_without_a_following_header() {
    let report = "Connected:\nA:\nAddress: 01\nB:\nAddress: 02";
    assert_eq!(
        parse_profiler_text(report),
        vec![
            record("A", "01", true, levels(None, None, None)),
            record("B", "02", true, levels(None, None, None)),
        ]
    );
    let header_only = "Not Connected:\nLonely:";
    assert_eq!(
        parse_profiler_text(header_only),
        vec![record("Lonely", "", false, levels(None, None, None))]
    );
}

#[test]
fn n_section_headers_give_n_records() {
    for n in 0..12usize {
        let mut report = String::from("Bluetooth:\nConnected:\n");
        for i in 0..n {
            if i == n / 2 {
                report.push_str("Not Connected:\n");
            }
            report.push_str(&format!("  Device {}:\n    Address: {:02}\n", i, i));
        }
        let devices = parse_profiler_text(&report);
        assert_eq!(devices.len(), n);
        for (i, device) in devices.iter().enumerate() {
            assert_eq!(device.name, format!("Device {}", i));
            assert_eq!(device.address, format!("{:02}", i));
            assert_eq!(device.connected, i < n / 2);
        }
    }
}

#[test]
fn sections_before_the_first_group_are_passed_over() {
    let report = "Bluetooth Controller:\nAddress: AA\nConnected:\nA:\nAddress: 01\n";
    assert_eq!(parse_profiler_text(report), vec![record("A", "01", true, levels(None, None, None))]);
    assert_eq!(parse_profiler_text("A:\nAddress: 01\n"), vec![]);
}

#[test]
fn fields_outside_a_section_are_passed_over() {
    let report = "Connected:\nAddress: 99\nA:\nNot Connected:\nAddress: 98\nB:\nAddress: 02\n";
    assert_eq!(
        parse_profiler_text(report),
        vec![
            record("A", "", true, levels(None, None, None)),
            record("B", "02", false, levels(None, None, None)),
        ]
    );
}

#[test]
fn empty_and_foreign_text_give_no_records() {
    assert_eq!(parse_profiler_text(""), vec![]);
    assert_eq!(parse_profiler_text("\n\n\n"), vec![]);
    assert_eq!(parse_profiler_text("command not found"), vec![]);
    assert_eq!(parse_profiler_text("Connected:\nNot Connected:\n"), vec![]);
    assert_eq!(parse_profiler_text("Connected:\n:\n  :  \n"), vec![]);
}

#[test]
fn text_level_that_is_no_number_is_absent() {
    let report = "Connected:\nBuds:\nLeft Battery Level: high\nRight Battery Level: 45%\nBattery Level: ?\n";
    assert_eq!(
        parse_profiler_text(report),
        vec![record("Buds", "", true, levels(None, Some(45), None))]
    );
}

#[test]
fn line_that_ends_in_a_colon_opens_a_section_whatever_its_name() {
    let report = "Connected:\nBuds:\nBattery Level:\nAddress: 01\n";
    assert_eq!(
        parse_profiler_text(report),
        vec![
            record("Buds", "", true, levels(None, None, None)),
            record("Battery Level", "01", true, levels(None, None, None)),
        ]
    );
}

#[test]
fn later_field_replaces_earlier_field() {
    let report = "Connected:\nBuds:\nAddress: 01\nBattery Level: 10%\nAddress: 02\nBattery Level: 20%\n";
    assert_eq!(
        parse_profiler_text(report),
        vec![record("Buds", "02", true, levels(None, None, Some(20)))]
    );
}

#[test]
fn indentation_and_line_endings_do_not_matter() {
    let report = "\tConnected:\r\n\t\tBuds :\r\n   Address :  01-02  \r\n Battery Level:85%\r\n";
    assert_eq!(
        parse_profiler_text(report),
        vec![record("Buds", "01-02", true, levels(None, None, Some(85)))]
    );
}

#[test]
fn address_value_keeps_its_colons() {
    let report = "Connected:\nBuds:\nAddress: DE:AD:BE:EF\n";
    assert_eq!(
        parse_profiler_text(report),
        vec![record("Buds", "DE:AD:BE:EF", true, levels(None, None, None))]
    );
}

#[test]
fn group_header_closes_the_open_section() {
    let report = "Connected:\nA:\nAddress: 01\nNot Connected:\nAddress: 02\nConnected:\nB:\n";
    assert_eq!(
        parse_profiler_text(report),
        vec![
            record("A", "01", true, levels(None, None, None)),
            record("B", "", true, levels(None, None, None)),
        ]
    );
}

#[test]
fn text_pair_takes_the_place_of_a_single_level() {
    let report = "Connected:\nBuds:\nBattery Level: 90%\nLeft Battery Level: 40%\nRight Battery Level: 45%\n";
    assert_eq!(
        parse_profiler_text(report),
        vec![record("Buds", "", true, levels(Some(40), Some(45), None))]
    );
}

#[test]
fn parsing_the_same_text_report_twice_gives_the_same_records() {
    assert_eq!(parse_profiler_text(REPORT), parse_profiler_text(REPORT));
}
