use bluetooth_devices::registry::registry_battery_level;

const DUMP: &str = r#"+-o AppleDeviceManagementHIDEventService  <class AppleDeviceManagementHIDEventService, id 0x100000a52>
  | {
  |   "Product" = "Magic Keyboard"
  |   "BatteryPercent" = 73
  |   "Transport" = "Bluetooth"
  | }
  |
+-o AppleDeviceManagementHIDEventService  <class AppleDeviceManagementHIDEventService, id 0x100000b11>
    {
      "Product" = "Magic Mouse"
      "BatteryStatusFlags" = 0
      "BatteryPercent" = 41
    }
"#;

#[test]
fn registry_level_is_read_from_the_node_that_names_the_device() {
    assert_eq!(registry_battery_level(DUMP, "Magic Keyboard"), Some(73));
    assert_eq!(registry_battery_level(DUMP, "Magic Mouse"), Some(41));
    assert_eq!(registry_battery_level(DUMP, "Magic"), Some(73));
}

#[test]
fn registry_level_of_an_unknown_device_is_absent() {
    assert_eq!(registry_battery_level(DUMP, "AirPods"), None);
    assert_eq!(registry_battery_level("", "Magic Mouse"), None);
    assert_eq!(registry_battery_level("+-o", "Magic Mouse"), None);
}

#[test]
fn registry_node_without_a_battery_line_is_passed_over() {
    let dump = "+-o A\n \"Product\" = \"Buds\"\n+-o B\n \"Product\" = \"Buds\"\n \"BatteryPercent\" = 5\n";
    assert_eq!(registry_battery_level(dump, "Buds"), Some(5));
}

#[test]
fn registry_node_whose_first_battery_line_is_no_number_is_passed_over() {
    let dump = "+-o \"Buds\"\n\"BatteryPercent\" = high\n\"BatteryPercent\" = 7\n+-o \"Buds\"\n\"BatteryPercent\" = 9\n";
    assert_eq!(registry_battery_level(dump, "Buds"), Some(9));
}

#[test]
fn registry_value_ends_at_the_next_equals_sign() {
    let dump = "\"Buds\" \"BatteryPercent\" = 12 = 99\n";
    assert_eq!(registry_battery_level(dump, "Buds"), Some(12));
    let before = "x = \"Buds\" \"BatteryPercent\" = 12\n";
    assert_eq!(registry_battery_level(before, "Buds"), None);
}

#[test]
fn registry_value_may_be_signed_and_padded() {
    assert_eq!(registry_battery_level("Buds\n\"BatteryPercent\" =    +8  \r\n", "Buds"), Some(8));
    assert_eq!(registry_battery_level("Buds\n\"BatteryPercent\" = -8", "Buds"), Some(-8));
    assert_eq!(registry_battery_level("Buds\n\"BatteryPercent\" = 8%", "Buds"), None);
    assert_eq!(registry_battery_level("Buds\n\"BatteryPercent\" = ", "Buds"), None);
}

#[test]
fn registry_text_before_the_first_marker_is_a_node_too() {
    assert_eq!(registry_battery_level("Buds \"BatteryPercent\" = 3 +-o Buds", "Buds"), Some(3));
    assert_eq!(registry_battery_level("Buds \"BatteryPercent\" = 3\n+-o Case", "Case"), None);
}

#[test]
fn registry_lookup_agrees_with_string_splitting() {
    fn by_splitting(dump: &str, name: &str) -> Option<i32> {
        for section in dump.split("+-o") {
            if section.contains(name) {
                if let Some(line) = section.lines().find(|l| l.contains("\"BatteryPercent\" = ")) {
                    if let Some(value) = line.split('=').nth(1) {
                        if let Ok(percent) = value.trim().parse::<i32>() {
                            return Some(percent);
                        }
                    }
                }
            }
        }
        None
    }
    let dumps = [
        DUMP,
        "",
        "+-o+-o+-o",
        "+-+-o Buds\r\n\"BatteryPercent\" = 1\r\n",
        "Buds\n\"BatteryPercent\" = 1=2\n+-o",
        "a\n\"BatteryPercent\" = x\n+-o Buds \"BatteryPercent\" = 77",
        "Buds\r\"BatteryPercent\" = 6\r",
    ];
    for dump in dumps {
        for name in ["Buds", "Magic Mouse", "Magic", "", "o", "zzz"] {
            assert_eq!(registry_battery_level(dump, name), by_splitting(dump, name), "{:?} {:?}", dump, name);
        }
    }
}
