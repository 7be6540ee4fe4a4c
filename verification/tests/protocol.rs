use kulua::protocol::clipboard::parse_clipboard_event;
use kulua::protocol::devices::parse_devices;
use kulua::protocol::notification::{
    extract_string_value, parse_notification_detail, parse_notification_list,
};
use kulua::types::{AdbError, Device, DeviceState};

fn build_clipboard_msg(text: &str) -> Vec<u8> {
    let mut msg = vec![0x00u8]; // TYPE_CLIPBOARD
    msg.extend_from_slice(&(text.len() as u32).to_be_bytes());
    msg.extend_from_slice(text.as_bytes());
    msg
}

#[test]
fn test_parse_clipboard_event_normal() {
    let cursor = build_clipboard_msg("Hello");
    let result = parse_clipboard_event(&cursor).unwrap();
    assert_eq!(result, Some("Hello".to_string()));
}

#[test]
fn test_parse_clipboard_event_chinese() {
    let text = "你好世界";
    let cursor = build_clipboard_msg(text);
    let result = parse_clipboard_event(&cursor).unwrap();
    assert_eq!(result, Some(text.to_string()));
}

#[test]
fn test_parse_clipboard_event_empty() {
    let cursor = build_clipboard_msg("");
    let result = parse_clipboard_event(&cursor).unwrap();
    assert_eq!(result, Some(String::new()));
}

#[test]
fn test_parse_clipboard_event_large_text() {
    let text = "a".repeat(10_000);
    let cursor = build_clipboard_msg(&text);
    let result = parse_clipboard_event(&cursor).unwrap();
    assert_eq!(result, Some(text));
}

#[test]
fn test_parse_clipboard_event_skip_other_types() {
    // TYPE_ACK_CLIPBOARD = 1
    let data = [0x01u8, 0x00, 0x00, 0x00, 0x00, 0x00, 0x00, 0x00, 0x00];
    let cursor = data;
    let result = parse_clipboard_event(&cursor).unwrap();
    assert_eq!(result, None);
}

#[test]
fn test_parse_clipboard_event_skip_unknown_types() {
    for &msg_type in &[0x02u8, 0x09u8, 0x0Au8] {
        let data = [msg_type];
        let cursor = data;
        let result = parse_clipboard_event(&cursor)
            .unwrap_or_else(|_| panic!("msg type 0x{:02X} should not error", msg_type));
        assert_eq!(
            result, None,
            "msg type 0x{msg_type:02X} should return None (ignored)"
        );
    }
}

#[test]
fn test_parse_clipboard_event_truncated_stream() {
    let data = [0x00u8, 0x00, 0x00, 0x00];
    let cursor = data;
    let result = parse_clipboard_event(&cursor);
    assert!(matches!(result, Err(AdbError::Io(_))));
}

#[test]
fn test_parse_clipboard_event_empty_reader() {
    let data: [u8; 0] = [];
    let cursor = data;
    let result = parse_clipboard_event(&cursor);
    assert!(matches!(result, Err(AdbError::Io(_))));
}

fn assert_device(d: &Device, expected_serial: &str, expected_state: DeviceState) {
    assert_eq!(d.id, expected_serial, "device id mismatch");
    assert_eq!(d.serial, expected_serial, "device serial mismatch");
    assert_eq!(d.state, expected_state, "device state mismatch");
}

#[test]
fn test_parse_devices_normal() {
    let stdout = b"List of devices attached\ndevice1\tdevice\n";
    let devices = parse_devices(stdout).unwrap();
    assert_eq!(devices.len(), 1);
    assert_device(&devices[0], "device1", DeviceState::Device);
}

#[test]
fn test_parse_devices_mixed_states() {
    let stdout = b"List of devices attached\ndevice1\toffline\ndevice2\tunauthorized\n";
    let devices = parse_devices(stdout).unwrap();
    assert_eq!(devices.len(), 2);
    assert_device(&devices[0], "device1", DeviceState::Offline);
    assert_device(&devices[1], "device2", DeviceState::Unauthorized);
}

#[test]
fn test_parse_devices_empty() {
    let stdout = b"List of devices attached\n\n";
    let devices = parse_devices(stdout).unwrap();
    assert!(devices.is_empty());
}

#[test]
fn test_parse_devices_no_devices() {
    let stdout = b"List of devices attached\n";
    let devices = parse_devices(stdout).unwrap();
    assert!(devices.is_empty());
}

#[test]
fn test_parse_devices_unknown_state() {
    let stdout = b"List of devices attached\nfoo\tbar\n";
    let devices = parse_devices(stdout).unwrap();
    assert_eq!(devices.len(), 1);
    assert_device(&devices[0], "foo", DeviceState::Unknown("bar".to_string()));
}

#[test]
fn test_parse_devices_with_usb_and_transport() {
    let stdout =
        b"List of devices attached\nemulator-5554\tdevice\n192.168.1.5:4321\tdevice product=XYZ model=Pixel transport_id=123\n";
    let devices = parse_devices(stdout).unwrap();
    assert_eq!(devices.len(), 2);
    assert_device(&devices[0], "emulator-5554", DeviceState::Device);
    assert_device(&devices[1], "192.168.1.5:4321", DeviceState::Device);
}

#[test]
fn test_parse_devices_multiple() {
    let stdout =
        b"List of devices attached\ndevice1\tdevice\ndevice2\toffline\ndevice3\tunauthorized\ndevice4\tunknown_state\n";
    let devices = parse_devices(stdout).unwrap();
    assert_eq!(devices.len(), 4);
    assert_device(&devices[0], "device1", DeviceState::Device);
    assert_device(&devices[1], "device2", DeviceState::Offline);
    assert_device(&devices[2], "device3", DeviceState::Unauthorized);
    assert_device(
        &devices[3],
        "device4",
        DeviceState::Unknown("unknown_state".to_string()),
    );
}

#[test]
fn test_parse_devices_empty_lines() {
    let stdout = b"List of devices attached\n\ndevice1\tdevice\n\n\ndevice2\toffline\n\n";
    let devices = parse_devices(stdout).unwrap();
    assert_eq!(devices.len(), 2);
    assert_device(&devices[0], "device1", DeviceState::Device);
    assert_device(&devices[1], "device2", DeviceState::Offline);
}

#[test]
fn test_parse_devices_track_devices_two_devices() {
    let payload = b"192.168.1.6:46769\tdevice\r\nadb-10AE6X05XP001TD-TNpsVn._adb-tls-connect._tcp\tdevice";
    let devices = parse_devices(payload).unwrap();
    assert_eq!(devices.len(), 2);
    assert_device(&devices[0], "192.168.1.6:46769", DeviceState::Device);
    assert_device(
        &devices[1],
        "adb-10AE6X05XP001TD-TNpsVn._adb-tls-connect._tcp",
        DeviceState::Device,
    );
}

#[test]
fn test_parse_notification_list_normal() {
    let output = "0|com.example.app|12345|null|10001
0|com.other.app|67890|null|10002
";
    let keys = parse_notification_list(output);
    assert_eq!(keys.len(), 2);
    assert!(keys.contains("0|com.example.app|12345|null|10001"));
    assert!(keys.contains("0|com.other.app|67890|null|10002"));
}

#[test]
fn test_parse_notification_list_empty() {
    let output = "";
    let keys = parse_notification_list(output);
    assert!(keys.is_empty());
}

#[test]
fn test_parse_notification_list_all_lines_as_keys() {
    let output = "0|com.a|1|null|100\n0|com.b|2|null|101\n";
    let keys = parse_notification_list(output);
    assert_eq!(keys.len(), 2);
    assert!(keys.contains("0|com.a|1|null|100"));
    assert!(keys.contains("0|com.b|2|null|101"));
}

#[test]
fn test_parse_notification_detail_full() {
    let output = "pkg=com.example.app
opts=0
key=0|com.example.app|12345|null|10001
extras={
  android.title=String (Test Title)
  android.text=String (Hello World)
}
";
    let info = parse_notification_detail(output, "0|com.example.app|12345|null|10001");
    assert!(info.is_some());
    let info = info.unwrap();
    assert_eq!(info.package, "com.example.app");
    assert_eq!(info.title.as_deref(), Some("Test Title"));
    assert_eq!(info.body.as_deref(), Some("Hello World"));
}

#[test]
fn test_parse_notification_detail_missing_fields() {
    let output =
        "NotificationRecord(0x123: pkg=com.example.app user=UserHandle{0} id=999 tag=null)
  extras={
    android.title=String (Missing Body)
  }
";
    let info = parse_notification_detail(output, "0|com.example.app|999|null|10001");
    assert!(info.is_some());
    let info = info.unwrap();
    assert_eq!(info.package, "com.example.app");
    assert_eq!(info.title.as_deref(), Some("Missing Body"));
    assert!(info.body.is_none());
}

#[test]
fn test_parse_notification_detail_fallback_bigtext() {
    let output = "pkg=com.example.app
opts=0
key=0|com.example.app|12345|null|10001
extras={
  android.title=String (BigText Title)
  android.bigText=String (Fallback body)
}
";
    let info = parse_notification_detail(output, "0|com.example.app|12345|null|10001");
    assert!(info.is_some());
    let info = info.unwrap();
    assert_eq!(info.package, "com.example.app");
    assert_eq!(info.title.as_deref(), Some("BigText Title"));
    assert_eq!(info.body.as_deref(), Some("Fallback body"));
}

#[test]
fn test_parse_notification_detail_actual_format() {
    let output = "NotificationRecord(0x07401e30: pkg=com.fantasky.sync.phone.server user=UserHandle{0} id=999 tag=null importance=3 key=0|com.fantasky.sync.phone.server|999|null|10470: ...)
  extras={
    android.title=String (fantasky)
    android.text=String (real notification text)
  }
";
    let info =
        parse_notification_detail(output, "0|com.fantasky.sync.phone.server|999|null|10470");
    assert!(info.is_some());
    let info = info.unwrap();
    assert_eq!(info.package, "com.fantasky.sync.phone.server");
    assert_eq!(info.title.as_deref(), Some("fantasky"));
    assert_eq!(info.body.as_deref(), Some("real notification text"));
}

#[test]
fn test_parse_notification_detail_no_package() {
    let output = "opts=0\nkey=0|key|null|10001\nextras={}\n";
    let info = parse_notification_detail(output, "0|key|null|10001");
    assert!(info.is_none());
}

#[test]
fn value_with_brackets_is_read_whole() {
    let output = "NotificationRecord(0x1: pkg=com.example user=0)\n  android.title=String (Meeting (5pm))\n  android.text=SpannableString (a (b) c)\n";
    let n = parse_notification_detail(output, "k").unwrap();
    assert_eq!(n.title.as_deref(), Some("Meeting (5pm)"));
    assert_eq!(n.body.as_deref(), Some("a (b) c"));
    let line: Vec<char> = "android.title=String (Meeting (5pm))".chars().collect();
    assert_eq!(extract_string_value(&line).as_deref(), Some("Meeting (5pm)"));
    let line: Vec<char> = "x=(5pm)".chars().collect();
    assert_eq!(extract_string_value(&line).as_deref(), Some("5pm"));
}
