use kulua::app::{Command, Core};
use kulua::console;
use kulua::device_map::DeviceMap;
use kulua::notification::NotifInfo;
use kulua::types::{Device, DeviceIdentity, DeviceState};
use kulua::wireless_pair::MdnsEvent;

fn device(serial: &str, state: DeviceState) -> Device {
    Device {
        uuid: 1,
        id: serial.into(),
        serial: serial.into(),
        state,
        name: String::new(),
        identity: DeviceIdentity::default(),
    }
}

fn listed(devices: &[Device]) -> DeviceMap {
    let mut map = DeviceMap::new();
    for d in devices {
        map.insert(d.clone());
    }
    map
}

#[test]
fn test_device_filter() {
    let raw = vec![
        device("ok", DeviceState::Device),
        device("off", DeviceState::Offline),
        device("unauth", DeviceState::Unauthorized),
        device("ok2", DeviceState::Device),
    ];
    let map = listed(&raw).online();
    assert_eq!(map.len(), 2);
    assert!(map.contains_key("ok"));
    assert!(map.contains_key("ok2"));
}

#[test]
fn test_try_connect_pending_removes_when_device_in_map() {
    let mut core = Core::new(0);
    core.on_connect_discovered("192.168.1.100", 5555, "adb-R58N1234567._adb-tls-connect._tcp.local.");
    assert_eq!(core.pending_count(), 1);
    let addr = "192.168.1.100:5555";
    let mut d = device(addr, DeviceState::Device);
    d.id = "R58N1234567".into();
    let devices = listed(&[d]);
    assert!(core.try_connect_pending(&devices).is_none());
    assert_eq!(core.pending_count(), 0);
}

#[test]
fn address_that_cannot_be_reached_is_tried_five_times() {
    let mut core = Core::new(0);
    core.on_connect_discovered("10.0.0.9", 5555, "x");
    let none = DeviceMap::new();
    let mut tries = 0;
    while let Some(attempt) = core.try_connect_pending(&none) {
        assert_eq!(attempt.addr, "10.0.0.9:5555");
        tries += 1;
        core.on_connect_failed(attempt);
    }
    assert_eq!(tries, 5);
    assert_eq!(core.pending_count(), 0);
}

#[test]
fn addresses_of_one_phone_share_a_number() {
    let mut core = Core::new(0);
    let a = core.insert_device_as("R58N1234567", DeviceState::Device, Some(b"R58N1234567\n"), 7);
    let b = core.insert_device_as("10.0.0.2:5555", DeviceState::Device, Some(b"R58N1234567\n"), 8);
    assert_eq!((a, b), (7, 7));
    let merged = core.push_merged_devices();
    assert_eq!(merged.len(), 1);
    assert!(merged[0].identity.contains_addr("10.0.0.2:5555"));
    assert!(merged[0].identity.contains_addr("R58N1234567"));
    let c = core.insert_device_as("10.0.0.3:5555", DeviceState::Device, Some(b"OTHER\n"), 9);
    assert_eq!(c, 9);
    assert_eq!(core.push_merged_devices().len(), 2);
}

#[test]
fn new_device_gets_a_random_number() {
    let mut core = Core::new(0);
    let a = core.insert_device("a:1", DeviceState::Device, Some(b"A"));
    let b = core.insert_device("b:1", DeviceState::Device, Some(b"B"));
    assert_ne!(a, b);
    assert_eq!((a >> 76) & 0xF, 4);
    assert_eq!((a >> 62) & 0x3, 2);
}

#[test]
fn sessions_follow_what_adb_lists() {
    let mut core = Core::new(0);
    let d = device("10.0.0.2:5555", DeviceState::Device);
    let uuid = core.insert_device_as("10.0.0.2:5555", DeviceState::Device, Some(b"ID"), 3);
    assert!(core.has_ports());
    let orders = core.sync_sessions(&listed(&[d.clone()]));
    assert_eq!(orders.start.len(), 1);
    assert_eq!(orders.stop.len(), 0);
    assert_eq!(orders.start[0].device.uuid, uuid);
    assert_eq!(orders.start[0].port, 27183);
    assert_eq!(core.session_count(), 1);
    assert_eq!(core.push_session_list()[0].serial, "10.0.0.2:5555");
    let orders = core.sync_sessions(&listed(&[d]));
    assert_eq!((orders.start.len(), orders.stop.len()), (0, 0));
    let orders = core.sync_sessions(&DeviceMap::new());
    assert_eq!((orders.start.len(), orders.stop.len()), (0, 1));
    assert_eq!(orders.stop[0].port, 27183);
    assert_eq!(core.session_count(), 0);
}

#[test]
fn user_ends_a_session() {
    let mut core = Core::new(0);
    let d = device("10.0.0.2:5555", DeviceState::Device);
    core.insert_device_as("10.0.0.2:5555", DeviceState::Device, Some(b"ID"), 3);
    let adb = listed(&[d]);
    core.sync_sessions(&adb);
    let orders = core.on_command(Command::Disconnect("10.0.0.2:5555".into()), &adb);
    assert_eq!(orders.stop.len(), 1);
    assert_eq!(orders.stop[0].uuid, 3);
    assert_eq!(core.stop_all().len(), 0);
}

#[test]
fn clipboard_texts_do_not_return() {
    let mut core = Core::new(0);
    assert_eq!(core.on_phone_clipboard("a".into()), Some("a".into()));
    assert_eq!(core.on_phone_clipboard("a".into()), None);
    assert!(matches!(
        core.poll_system_clipboard(Some("a".into()), 1),
        kulua::app::ClipboardStep::Nothing
    ));
    assert!(matches!(
        core.poll_system_clipboard(Some("b".into()), 2),
        kulua::app::ClipboardStep::Broadcast(_)
    ));
    assert_eq!(core.on_phone_clipboard("b".into()), None);
}

// The program in the terminal.

#[test]
fn test_refresh_devices_filters_device_state() {
    let list = vec![
        device("device1", DeviceState::Device),
        device("offline1", DeviceState::Offline),
        device("unauth1", DeviceState::Unauthorized),
        device("device2", DeviceState::Device),
    ];
    let mut core = console::Core::new(0);
    core.refresh_devices(Some(&list));
    let map = core.devices();
    assert_eq!(map.len(), 2);
    assert!(map.contains_key("device1"));
    assert!(map.contains_key("device2"));
    assert!(!map.contains_key("offline1"));
}

#[test]
fn test_refresh_devices_empty() {
    let mut core = console::Core::new(0);
    core.refresh_devices(Some(&[]));
    assert_eq!(core.devices().len(), 0);
}

#[test]
fn test_refresh_devices_adb_error() {
    let mut core = console::Core::new(0);
    core.refresh_devices(Some(&[device("stale", DeviceState::Device)]));
    assert_eq!(core.devices().len(), 1);
    core.refresh_devices(None);
    assert_eq!(
        core.devices().len(),
        0,
        "on adb error, devices map should be cleared, got {} items",
        core.devices().len()
    );
}

#[test]
fn terminal_program_gives_every_device_a_session() {
    let mut core = console::Core::new(0);
    core.refresh_devices(Some(&[
        device("a", DeviceState::Device),
        device("b", DeviceState::Device),
    ]));
    let fresh: Vec<String> = core.new_devices().into_iter().map(|d| d.serial).collect();
    assert_eq!(fresh, vec!["a", "b"]);
    assert_eq!(core.next_port(), 27183);
    core.start_session("a", true);
    assert_eq!(core.next_port(), 27184);
    core.start_session("b", false);
    assert_eq!(core.next_port(), 27184);
    assert!(core.new_devices().is_empty());
    core.refresh_devices(Some(&[device("b", DeviceState::Device)]));
    assert_eq!(core.end_sessions(), vec!["a".to_string()]);
    assert_eq!(core.stop_all(), vec!["b".to_string()]);
    assert!(core.should_stop());
}

#[test]
fn terminal_program_carries_texts_one_way_at_a_time() {
    let mut core = console::Core::new(0);
    assert!(core.on_phone_clipboard("x"));
    assert!(!core.on_phone_clipboard("x"));
    assert!(!core.on_system_clipboard("x", 1));
    assert!(core.on_system_clipboard("y", 2));
    assert!(!core.on_system_clipboard("y", 3));
    assert!(!core.on_phone_clipboard("y"));
    assert!(!core.on_clipboard_error(29_999_999_999));
    assert!(core.on_clipboard_error(30_000_000_002));
    assert!(!core.on_clipboard_error(30_000_000_003));
}

#[test]
fn terminal_program_pairs_and_ends() {
    let mut core = console::Core::new(0);
    let found = console::Found::Event(MdnsEvent::PairingDiscovered {
        host: "10.0.0.1".into(),
        port: 37000,
    });
    match core.on_found(found) {
        console::FoundStep::Pair(a) => assert_eq!(a, "10.0.0.1:37000"),
        _ => panic!("expected Pair"),
    }
    assert!(matches!(core.on_found(console::Found::Timeout), console::FoundStep::Nothing));
    assert!(matches!(core.on_found(console::Found::Closed), console::FoundStep::Stop));
    assert!(!core.should_stop());
    core.stop();
    assert!(core.should_stop());
}

#[test]
fn notification_lines() {
    let mut n = NotifInfo { key: "k".into(), package: "p".into(), title: None, body: None };
    assert_eq!(console::notification_line(&n), "通知: [p]");
    n.title = Some("t".into());
    assert_eq!(console::notification_line(&n), "通知: [p] t");
}

#[test]
fn session_is_started_once() {
    let mut core = Core::new(0);
    core.insert_device_as("10.0.0.2:5555", DeviceState::Device, Some(b"ID"), 3);
    let adb = listed(&[device("10.0.0.2:5555", DeviceState::Device)]);
    let first = core.on_command(Command::StartSession("10.0.0.2:5555".into()), &adb);
    assert_eq!((first.start.len(), first.stop.len()), (1, 0));
    let again = core.on_command(Command::StartSession("ID".into()), &adb);
    assert_eq!((again.start.len(), again.stop.len()), (0, 0));
}

#[test]
fn failed_session_waits_for_the_user() {
    let mut core = Core::new(0);
    core.insert_device_as("10.0.0.2:5555", DeviceState::Device, Some(b"ID"), 3);
    let adb = listed(&[device("10.0.0.2:5555", DeviceState::Device)]);
    core.sync_sessions(&adb);
    core.check_dead_sessions(&[3]);
    let orders = core.sync_sessions(&adb);
    assert_eq!((orders.start.len(), orders.stop.len()), (0, 0));
    let orders = core.on_command(Command::Retry(3), &adb);
    assert_eq!((orders.stop[0].port, orders.start[0].port), (27183, 27184));
    assert_eq!(core.push_session_list()[0].session_state, "connecting");
    let orders = core.on_command(Command::Retry(3), &adb);
    assert_eq!((orders.start.len(), orders.stop.len()), (0, 0));
}

#[test]
fn choice_is_for_one_device() {
    let mut core = Core::new(0);
    core.insert_device_as("10.0.0.2:5555", DeviceState::Device, Some(b"A"), 3);
    core.insert_device_as("10.0.0.3:5555", DeviceState::Device, Some(b"B"), 4);
    let adb = listed(&[
        device("10.0.0.2:5555", DeviceState::Device),
        device("10.0.0.3:5555", DeviceState::Device),
    ]);
    core.sync_sessions(&adb);
    let before = core.push_session_list()[1].clone();
    let choice = Command::UpdateConfig {
        uuid: 3,
        clipboard_sync: false,
        notification_sync: false,
        audio_sync: true,
        volume: 17,
    };
    core.on_command(choice, &adb);
    let list = core.push_session_list();
    assert_eq!((list[0].volume, list[0].clipboard_sync), (17, false));
    assert_eq!((list[1].volume, list[1].clipboard_sync), (before.volume, before.clipboard_sync));
}

#[test]
fn audio_switch_restarts_session() {
    let mut core = Core::new(0);
    core.insert_device_as("10.0.0.2:5555", DeviceState::Device, Some(b"A"), 3);
    let adb = listed(&[device("10.0.0.2:5555", DeviceState::Device)]);
    core.sync_sessions(&adb);
    let was = core.push_session_list()[0].audio_enabled;
    let choice = |audio_sync: bool, volume: u16| Command::UpdateConfig {
        uuid: 3,
        clipboard_sync: true,
        notification_sync: true,
        audio_sync,
        volume,
    };
    let orders = core.on_command(choice(was, 40), &adb);
    assert_eq!((orders.stop.len(), orders.start.len()), (0, 0));
    assert_eq!(core.push_session_list()[0].volume, 40);
    let orders = core.on_command(choice(!was, 50), &adb);
    assert_eq!((orders.stop.len(), orders.start.len()), (1, 1));
    assert_eq!((orders.stop[0].port, orders.start[0].port), (27183, 27184));
    assert_eq!(orders.start[0].config.audio_enabled, !was);
    assert_eq!(orders.start[0].config.volume, 50);
    assert_eq!(core.push_session_list()[0].audio_enabled, !was);
}

#[test]
fn commands_that_start_nothing_need_no_port() {
    let mut core = Core::new(0);
    let addr = "10.0.0.2:5555";
    core.insert_device_as(addr, DeviceState::Device, Some(b"ID"), 3);
    let adb = listed(&[device(addr, DeviceState::Device)]);
    let start = || Command::StartSession(addr.into());
    let stop = || Command::Disconnect(addr.into());
    let mut started = 0u32;
    while core.has_ports_for(&start(), &adb) {
        let orders = core.on_command(start(), &adb);
        assert_eq!(orders.start[0].port as u32, 27183 + started);
        started += 1;
        core.on_command(stop(), &adb);
    }
    assert_eq!(started, 65535 - 27183);
    assert!(!core.has_ports());
    assert!(core.has_ports_for(&stop(), &adb));
    assert!(core.has_ports_for(&Command::Connect("10.0.0.3:5555".into()), &adb));
    assert!(core.has_ports_for(&Command::Retry(3), &adb));
    assert!(!core.has_ports_for(&Command::RestartAllSessions, &adb));
    core.on_command(Command::Connect("10.0.0.3:5555".into()), &adb);
    assert_eq!(core.pending_count(), 1);
}
