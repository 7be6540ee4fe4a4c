use kulua::adb_cmd::build_devices_args;
use kulua::app::Core;
use kulua::apps::{build_jar_test_args, build_list_apps_args, copy_apps, AppInfo, REMOTE_JAR};
use kulua::audio_player::PlaybackMeter;
use kulua::autostart::{set_enabled, EntryAction, Platform};
use kulua::device_map::DeviceMap;
use kulua::scrcpy::{
    digest_differs, jar_needs_push, resolve_device_ip, resolve_fallback, resolve_interface,
    resolve_route, resolve_serial, Resolve,
};
use kulua::session::audio::{shared_runtime, AUDIO_STATE_OFF};
use kulua::session::handle::{SESSION_STATE_FAILED, SESSION_STATE_RUNNING};
use kulua::settings::{
    default_audio_bit_rate, default_audio_codec, default_icon_theme, default_video_bit_rate,
    AppConfig,
};
use kulua::types::{Device, DeviceAddrKind, DeviceIdentity, DeviceState};
use kulua::ui::{get_adb_devices, retry_session};

fn device(serial: &str) -> Device {
    Device {
        uuid: 3,
        id: "ID".into(),
        serial: serial.into(),
        state: DeviceState::Device,
        name: String::new(),
        identity: DeviceIdentity::default(),
    }
}

fn core_with_session() -> (Core, DeviceMap) {
    let mut core = Core::new(0);
    core.insert_device_as("10.0.0.2:5555", DeviceState::Device, Some(b"ID"), 3);
    let mut adb = DeviceMap::new();
    adb.insert(device("10.0.0.2:5555"));
    core.sync_sessions(&adb);
    (core, adb)
}

// The program on the phone.

#[test]
fn program_is_brought_over_unless_it_is_the_same() {
    let abc = "900150983cd24fb0d6963f7d28e17f72";
    let same = format!("{abc}  {REMOTE_JAR}\n");
    assert!(!jar_needs_push(Some(b"abc"), Some(same.as_bytes())));
    assert!(jar_needs_push(Some(b"abd"), Some(same.as_bytes())));
    assert!(jar_needs_push(Some(b"abc"), Some(b"md5sum: not found")));
    assert!(jar_needs_push(Some(b"abc"), Some(b"")));
    assert!(jar_needs_push(Some(b"abc"), None));
    assert!(jar_needs_push(None, Some(same.as_bytes())));
    assert!(!digest_differs(abc, Some(same.as_bytes())));
}

// The phone's address.

const ROUTE: &[u8] = b"default via 192.168.1.1 dev wlan0 proto dhcp\n192.168.1.0/24 dev wlan0 src 192.168.1.7\n";
const WLAN: &[u8] = b"3: wlan0: <UP>\n    inet 192.168.1.8/24 brd 192.168.1.255 scope global wlan0\n";

#[test]
fn address_is_taken_from_the_serial_number_first() {
    assert_eq!(
        resolve_device_ip("10.0.0.2:5555", ROUTE, WLAN, ROUTE, 27183).as_deref(),
        Some("10.0.0.2:27183")
    );
    assert_eq!(
        resolve_device_ip("R58N1234567", ROUTE, WLAN, ROUTE, 27183).as_deref(),
        Some("192.168.1.8:27183")
    );
    assert_eq!(
        resolve_device_ip("R58N1234567", ROUTE, b"", ROUTE, 27183).as_deref(),
        Some("192.168.1.7:27183")
    );
    assert_eq!(resolve_device_ip("R58N1234567", b"", b"", b"", 27183), None);
}

#[test]
fn address_is_looked_for_step_by_step() {
    assert!(matches!(resolve_serial("R58N1234567", 1), Resolve::ReadRoute));
    match resolve_serial("10.0.0.2:5555", 1) {
        Resolve::Found(a) => assert_eq!(a, "10.0.0.2:1"),
        _ => panic!("expected Found"),
    }
    match resolve_route(ROUTE) {
        Resolve::ReadInterface(dev) => assert_eq!(dev, "wlan0"),
        _ => panic!("expected ReadInterface"),
    }
    match resolve_interface(WLAN, 2) {
        Resolve::Found(a) => assert_eq!(a, "192.168.1.8:2"),
        _ => panic!("expected Found"),
    }
    assert!(matches!(resolve_interface(b"", 2), Resolve::ReadRoute));
    assert!(matches!(resolve_fallback(b"", 2), Resolve::Unreachable));
}

// What the daemon knows of devices.

#[test]
fn serial_number_is_asked_for_once() {
    let mut core = Core::new(0);
    let args = core.wants_serial_number("a:1", &DeviceState::Device).unwrap();
    assert_eq!(args, ["-s", "a:1", "shell", "getprop", "ro.serialno"]);
    assert!(core.wants_serial_number("a:1", &DeviceState::Offline).is_none());
    core.insert_device_as("a:1", DeviceState::Device, Some(b"A"), 1);
    assert!(core.wants_serial_number("a:1", &DeviceState::Device).is_none());
}

#[test]
fn name_is_kept_for_the_device_that_gave_it() {
    let (mut core, _) = core_with_session();
    core.set_device_name("10.0.0.2:5555", "Pixel");
    core.set_device_name("other", "Nobody");
    assert_eq!(core.push_merged_devices()[0].name, "Pixel");
    assert_eq!(core.push_session_list()[0].name, "Pixel");
}

#[test]
fn session_that_ended_by_itself_has_failed() {
    let (mut core, _) = core_with_session();
    core.report_session(3, SESSION_STATE_RUNNING, 120);
    assert_eq!(core.push_session_list()[0].session_state, "running");
    assert_eq!(core.push_session_list()[0].audio_buffer_ms, 120);
    core.check_dead_sessions(&[4]);
    assert_eq!(core.push_session_list()[0].session_state, "running");
    core.check_dead_sessions(&[3]);
    assert_eq!(core.push_session_list()[0].session_state, "failed");
    core.report_session(3, SESSION_STATE_FAILED, 0);
    assert_eq!(core.push_session_list()[0].session_state, "failed");
}

#[test]
fn address_that_was_reached_leaves_the_queue() {
    let mut core = Core::new(0);
    core.on_connect_discovered("10.0.0.9", 5555, "x");
    core.on_connect_discovered("10.0.0.8", 5555, "y");
    core.on_connect_discovered("10.0.0.9", 5555, "x");
    assert_eq!(core.pending_count(), 2);
    core.forget_pending("10.0.0.9:5555");
    assert_eq!(core.pending_count(), 1);
}

#[test]
fn failed_address_goes_to_the_end() {
    let mut core = Core::new(0);
    core.on_connect_discovered("10.0.0.9", 5555, "x");
    core.on_connect_discovered("10.0.0.8", 5555, "y");
    let none = DeviceMap::new();
    let first = core.try_connect_pending(&none).unwrap();
    assert_eq!((first.addr.as_str(), first.attempts), ("10.0.0.9:5555", 0));
    core.on_connect_failed(first);
    let second = core.try_connect_pending(&none).unwrap();
    assert_eq!(second.addr, "10.0.0.8:5555");
    let third = core.try_connect_pending(&none).unwrap();
    assert_eq!((third.addr.as_str(), third.attempts), ("10.0.0.9:5555", 1));
}

#[test]
fn identities_are_merged() {
    let mut a = DeviceIdentity::from_addr("R58N1234567");
    a.merge(&DeviceIdentity::from_addr("10.0.0.2:5555"));
    assert_eq!(a.best_serial(), Some("R58N1234567"));
    let mut b = DeviceIdentity::default();
    assert_eq!(b.best_serial(), None);
    b.set_by_kind("10.0.0.2:5555".into(), DeviceAddrKind::Ip);
    assert_eq!(b.best_serial(), Some("10.0.0.2:5555"));
}

// Settings and small things.

#[test]
fn fresh_configuration_holds_the_defaults() {
    let c = AppConfig::default();
    assert_eq!(c.video_bit_rate, default_video_bit_rate());
    assert_eq!(c.audio_bit_rate, default_audio_bit_rate());
    assert_eq!(c.audio_codec, default_audio_codec());
    assert_eq!(c.icon_theme, default_icon_theme());
}

#[test]
fn autostart_is_switched_in_the_configuration_too() {
    let mut c = AppConfig::default();
    let (action, state) = set_enabled(&mut c, Platform::Linux, "/d", "/bin/kulua", true);
    assert!(c.autostart_enabled && state.enabled && state.supported);
    assert!(matches!(action, EntryAction::WriteFile { .. }));
    let (action, state) = set_enabled(&mut c, Platform::Linux, "/d", "/bin/kulua", false);
    assert!(!c.autostart_enabled && !state.enabled);
    assert!(matches!(action, EntryAction::RemoveFile { .. }));
}

#[test]
fn backlog_is_what_was_fed_and_not_played() {
    let mut m = PlaybackMeter::new();
    assert_eq!(m.buffer_ms(), 0);
    m.feed(96_000, 2, 48_000);
    assert_eq!(m.buffer_ms(), 1000);
    m.played = 48_000;
    assert_eq!(m.buffer_ms(), 500);
    m.clear();
    assert_eq!(m.buffer_ms(), 0);
    assert_eq!(m.fed, 48_000);
}

#[test]
fn session_starts_without_audio() {
    let r = shared_runtime();
    assert_eq!((r.revision, r.state, r.codec_id), (0, AUDIO_STATE_OFF, 0));
    assert!(r.error.is_empty());
}

#[test]
fn commands_for_adb_are_spelled_out() {
    assert_eq!(build_devices_args(), ["devices", "-l"]);
    assert_eq!(build_jar_test_args("s"), ["-s", "s", "shell", "test", "-f", REMOTE_JAR]);
    let args = build_list_apps_args("s");
    assert_eq!(args[3], format!("CLASSPATH={REMOTE_JAR}"));
    assert_eq!(args[7], "list_apps=true");
}

#[test]
fn requests_of_the_window_have_their_methods() {
    assert_eq!(retry_session("u".into()).method, "session.retry");
    assert_eq!(get_adb_devices().method, "device.adb_list");
    assert!(get_adb_devices().params.is_none());
    let apps = [AppInfo { package_name: "p".into(), label: "l".into(), system: true }];
    assert_eq!(copy_apps(&apps)[0].package_name, "p");
}
