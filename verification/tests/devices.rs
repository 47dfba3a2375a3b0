use media_bridge::devices::{
    device_list_command, device_queries, enrich, list_devices, parse_devices_output,
    query_command, DeviceAnswers, DeviceQuery,
};
use media_bridge::models::{Device, DeviceState};

#[test]
fn test_parse_devices_output() {
    let output = r#"List of devices attached
emulator-5554          device product:sdk_gphone64_x86_64 model:sdk_gphone64_x86_64 device:emu64xa transport_id:1
RFCT80XXXXX            unauthorized
192.168.1.100:5555     offline
"#;

    let devices = parse_devices_output(output);
    assert_eq!(devices.len(), 3);

    assert_eq!(devices[0].serial, "emulator-5554");
    assert_eq!(devices[0].state, DeviceState::Ready);
    assert_eq!(devices[0].model, Some("sdk gphone64 x86 64".to_string()));

    assert_eq!(devices[1].serial, "RFCT80XXXXX");
    assert_eq!(devices[1].state, DeviceState::Unauthorized);

    assert_eq!(devices[2].serial, "192.168.1.100:5555");
    assert_eq!(devices[2].state, DeviceState::Offline);
}

#[test]
fn device_list_skips_the_first_line_whatever_it_holds() {
    let devices = parse_devices_output("abc device\nxyz device\n");
    assert_eq!(devices.len(), 1);
    assert_eq!(devices[0].serial, "xyz");
}

#[test]
fn device_list_reads_manufacturer_and_last_model() {
    let devices = parse_devices_output(
        "List of devices attached\r\ns1 DEVICE model:A_B manufacturer:Acme model:C_D x:y\r\n\r\nonly\n",
    );
    assert_eq!(devices.len(), 1);
    assert_eq!(devices[0].state, DeviceState::Ready);
    assert_eq!(devices[0].model, Some("C D".to_string()));
    assert_eq!(devices[0].manufacturer, Some("Acme".to_string()));
    assert_eq!(devices[0].android_version, None);
}

#[test]
fn device_state_words() {
    assert_eq!(DeviceState::from("device"), DeviceState::Ready);
    assert_eq!(DeviceState::from("Unauthorized"), DeviceState::Unauthorized);
    assert_eq!(DeviceState::from("OFFLINE"), DeviceState::Offline);
    assert_eq!(DeviceState::from("recovery"), DeviceState::Unknown);
    assert_eq!(DeviceState::from_lowercase("Device"), DeviceState::Unknown);
}

#[test]
fn ready_devices_are_asked_what_the_list_did_not_give() {
    let mut d = Device::new("s".to_string(), DeviceState::Ready);
    assert_eq!(
        device_queries(&d),
        vec![DeviceQuery::AndroidVersion, DeviceQuery::Manufacturer, DeviceQuery::Model]
    );
    d.model = Some("m".to_string());
    assert_eq!(device_queries(&d), vec![DeviceQuery::AndroidVersion, DeviceQuery::Manufacturer]);
    d.state = DeviceState::Offline;
    assert_eq!(device_queries(&d), Vec::<DeviceQuery>::new());
}

#[test]
fn device_commands() {
    assert_eq!(device_list_command(), vec!["devices".to_string(), "-l".to_string()]);
    assert_eq!(
        query_command("abc", DeviceQuery::Model),
        vec!["-s", "abc", "shell", "getprop", "ro.product.model"]
    );
    assert_eq!(
        query_command("abc", DeviceQuery::AndroidVersion)[4],
        "ro.build.version.release"
    );
    assert_eq!(query_command("abc", DeviceQuery::Manufacturer)[4], "ro.product.manufacturer");
}

#[test]
fn answers_fill_in_ready_devices_only() {
    let answers = DeviceAnswers {
        android_version: Some(" 14\n".to_string()),
        manufacturer: Some("Google\n".to_string()),
        model: Some("Pixel 8\n".to_string()),
    };
    let mut d = Device::new("s".to_string(), DeviceState::Ready);
    d.model = Some("From list".to_string());
    let e = enrich(&d, &answers);
    assert_eq!(e.android_version, Some("14".to_string()));
    assert_eq!(e.manufacturer, Some("Google".to_string()));
    assert_eq!(e.model, Some("From list".to_string()));

    let off = Device::new("s".to_string(), DeviceState::Offline);
    assert_eq!(enrich(&off, &answers), off);
}

#[test]
fn list_devices_pairs_answers_by_index() {
    let output = "List of devices attached\na device\nb device\n";
    let answers = vec![DeviceAnswers {
        android_version: Some("13".to_string()),
        manufacturer: None,
        model: None,
    }];
    let devices = list_devices(output, &answers);
    assert_eq!(devices.len(), 2);
    assert_eq!(devices[0].android_version, Some("13".to_string()));
    assert_eq!(devices[0].manufacturer, None);
    assert_eq!(devices[1].android_version, None);
    assert_eq!(devices[1].serial, "b");
}
