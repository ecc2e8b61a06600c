use snipespotter::discovery::{
    convert_monitor, convert_monitors, decode_wmi_string, ChassisType, MonitorInfo, SystemInfo,
    WindowsHardwareDiscovery, WmiMonitorId,
};

fn encoded(value: &str) -> Vec<u16> {
    value.encode_utf16().chain([0, u16::from(b'X')]).collect()
}

fn row(active: bool, serial: &str) -> WmiMonitorId {
    WmiMonitorId {
        active,
        manufacturer_name: encoded(" DEL "),
        product_code_id: encoded("1234"),
        serial_number_id: encoded(serial),
        week_of_manufacture: 7,
        year_of_manufacture: 2025,
    }
}

#[test]
fn converts_active_monitor_and_trims_zero_terminated_fields() {
    let monitor = convert_monitor(&row(true, " SERIAL "));
    assert_eq!(
        monitor,
        Some(MonitorInfo {
            manufacturer_code: String::from("DEL"),
            product_code: String::from("1234"),
            serial: String::from("SERIAL"),
            manufacture_week: 7,
            manufacture_year: 2025,
        })
    );
}

#[test]
fn suppresses_inactive_or_unidentified_monitors() {
    assert!(convert_monitor(&row(false, "SERIAL")).is_none());
    assert!(convert_monitor(&row(true, "  ")).is_none());
}

#[test]
fn unpaired_surrogates_are_replaced() {
    assert_eq!(decode_wmi_string(&[0x41, 0xD800, 0x42]), "A\u{FFFD}B");
    assert_eq!(decode_wmi_string(&[0xD83D, 0xDE00]), "\u{1F600}");
}

#[test]
fn only_usable_rows_become_monitors() {
    let rows = vec![row(true, "A"), row(false, "B"), row(true, "  "), row(true, "C")];
    let serials: Vec<String> = convert_monitors(&rows)
        .into_iter()
        .map(|monitor| monitor.serial)
        .collect();
    assert_eq!(serials, vec!["A", "C"]);
}

fn system() -> SystemInfo {
    SystemInfo {
        manufacturer: "Dell".to_owned(),
        model: "Latitude".to_owned(),
        serial: "SYS".to_owned(),
        asset_tag: String::new(),
        chassis_type: ChassisType(9),
    }
}

#[test]
fn discovery_joins_system_and_monitors() {
    let found = WindowsHardwareDiscovery.discover::<String>(Ok(system()), Ok(vec![row(true, "A")]));
    let (info, monitors) = found.expect("both parts were found");
    assert_eq!(info, system());
    assert_eq!(monitors.len(), 1);
    let missing = WindowsHardwareDiscovery.discover(Err("smbios".to_owned()), Ok(Vec::new()));
    assert_eq!(missing, Err("smbios".to_owned()));
    let broken = WindowsHardwareDiscovery.discover(Ok(system()), Err("wmi".to_owned()));
    assert_eq!(broken, Err("wmi".to_owned()));
}
