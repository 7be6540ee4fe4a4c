use kulua::adb_cmd::{
    build_connect_args, build_forward_args, build_push_args, build_shell_args, AdbCmd, AdbOutput,
    RunOutcome,
};
use kulua::autostart::{
    autostart_dir, current_state, desktop_entry_text, escape, platform_supported, reconcile,
    set_platform_entry, EntryAction, Platform,
};
use kulua::daemon::{find_jar, on_menu, path_within, ui_path, MenuChoice};
use kulua::device_refresh::{on_header, parse_header, DeviceTracker, TrackStep};
use kulua::fusion::{close_step, CloseStep, Exit, FusionManager, SpawnOutcome, WindowState};
use kulua::notification::{
    build_detail_args, build_list_args, show_desktop_notification, NotifInfo, NotificationPoller,
};
use kulua::session::handle::{
    session_state_str, stop, SESSION_STATE_CONNECTING, SESSION_STATE_FAILED, SESSION_STATE_IDLE,
    SESSION_STATE_RUNNING, SESSION_STATE_STOPPED,
};
use kulua::settings::{config_path, effective, AppConfig};
use kulua::tray::{check_event, create_default_icon_data, load_icon, TrayEvent};
use kulua::types::AdbError;
use kulua::wireless_pair::{
    build_pair_args, connect_service, format_address, generate_qr_code, pairing_service,
    letters_at, print_qr_to_terminal, rand_string_runes, MdnsEvent, WirelessPairing, LETTER_RUNES,
};

// Windows of applications.

#[test]
fn build_args_contains_viewer_flags() {
    let args = FusionManager::build_args("192.168.1.5:27183", "com.android.settings", "设置");
    assert_eq!(
        args,
        vec![
            "--connect",
            "192.168.1.5:27183",
            "--package",
            "com.android.settings",
            "--label",
            "设置",
        ]
    );
    let no_label = FusionManager::build_args("192.168.1.5:27183", "pkg", "");
    assert_eq!(no_label, vec!["--connect", "192.168.1.5:27183", "--package", "pkg"]);
}

#[test]
fn window_ids_are_unique_and_incrementing() {
    let mut manager = FusionManager::new();
    let id1 = manager.open_window(
        SpawnOutcome::Started,
        "serial-1".into(),
        "com.android.settings".into(),
        "设置".into(),
    );
    let id2 = manager.open_window(
        SpawnOutcome::Started,
        "serial-1".into(),
        "com.android.chrome".into(),
        "Chrome".into(),
    );
    assert!(id1.is_ok(), "dummy exe 应能启动: {:?}", id1);
    assert!(id2.is_ok());
    assert_ne!(id1.unwrap(), id2.unwrap());
    assert_eq!(manager.windows_info().len(), 2);
}

#[test]
fn open_window_fails_when_exe_missing() {
    let mut manager = FusionManager::new();
    let result = manager.open_window(
        SpawnOutcome::Failed("No such file".into()),
        "serial".into(),
        "com.android.settings".into(),
        "设置".into(),
    );
    assert!(result.is_err(), "exe 不存在应返回错误");
    assert_eq!(result.unwrap_err(), "启动 fusion-viewer 失败: No such file");
    assert!(manager.windows_info().is_empty());
    assert!(manager
        .open_window(SpawnOutcome::NoViewer, "s".into(), "p".into(), "l".into())
        .is_err());
}

#[test]
fn window_state_strings() {
    assert_eq!(WindowState::Running.as_str(), "running");
    assert_eq!(WindowState::Exited.as_str(), "exited");
    assert_eq!(WindowState::Failed.as_str(), "failed");
}

#[test]
fn empty_manager_is_safe() {
    let mut manager = FusionManager::new();
    assert!(manager.tick(&[]).is_empty());
    assert!(manager.windows_info().is_empty());
    assert!(manager.shutdown().is_empty());
}

#[test]
fn windows_that_end_are_told_of_once() {
    let mut m = FusionManager::new();
    for p in ["a", "b", "c"] {
        m.open_window(SpawnOutcome::Started, "s".into(), p.into(), "".into()).unwrap();
    }
    let ended = m.tick(&[
        Exit { window_id: 3, success: false },
        Exit { window_id: 1, success: true },
    ]);
    let told: Vec<(u64, &str)> = ended.iter().map(|w| (w.window_id, w.state.as_str())).collect();
    assert_eq!(told.len(), 2);
    assert!(told.contains(&(1, "exited")) && told.contains(&(3, "failed")));
    assert!(m.tick(&[Exit { window_id: 1, success: true }]).is_empty());
    assert_eq!(m.shutdown(), vec![2]);
    assert_eq!(close_step(false, 0, 1), CloseStep::Wait);
    assert_eq!(close_step(true, 0, 1), CloseStep::Done);
    assert_eq!(close_step(false, 0, u64::MAX), CloseStep::Kill);
}

#[test]
fn viewer_is_looked_for_in_order() {
    let path = vec!["/usr/bin".to_string(), "/opt/".to_string()];
    assert_eq!(
        FusionManager::find_viewer_exe(false, Some("/d"), Some("/v"), &path),
        vec!["/d/fusion-viewer", "/v", "/usr/bin/fusion-viewer", "/opt/fusion-viewer"]
    );
    assert_eq!(
        FusionManager::find_viewer_exe(true, Some("C:\\k"), None, &[]),
        vec!["C:\\k\\fusion-viewer.exe"]
    );
}

// Pairing.

#[test]
fn test_rand_string_runes_length() {
    assert_eq!(rand_string_runes(0), "");
    assert_eq!(rand_string_runes(5).len(), 5);
    assert_eq!(rand_string_runes(100).len(), 100);
}

#[test]
fn test_rand_string_runes_charset() {
    let s = rand_string_runes(1000);
    for c in s.chars() {
        assert!(LETTER_RUNES.as_bytes().contains(&(c as u8)), "char '{}' not in LETTER_RUNES", c);
    }
    let mut letters: Vec<char> = s.chars().collect();
    letters.sort();
    letters.dedup();
    assert!(letters.len() > 1);
}

#[test]
fn test_wireless_pairing_info_format() {
    let p = WirelessPairing::new();
    let info = p.get_info();

    assert!(info.starts_with("WIFI:T:ADB;S:"), "info should start with WIFI:T:ADB;S:");
    assert!(info.ends_with(";;"), "info should end with ;;");

    let parts: Vec<&str> = info.split(';').collect();
    assert_eq!(parts.len(), 5, "splitting by ';' should yield 5 parts");
    assert_eq!(parts[0], "WIFI:T:ADB");
    assert!(parts[1].starts_with("S:"), "second part should start with S:");
    assert!(parts[2].starts_with("P:"), "third part should start with P:");
}

#[test]
fn test_wireless_pairing_info_contains_ids() {
    let p = WirelessPairing::new();
    let info = p.get_info();

    assert!(info.contains(&p.dns_id), "info should contain dns_id");
    assert!(info.contains(&p.psk), "info should contain psk");
}

#[test]
fn test_wireless_pairing_new_generates_ids() {
    let p = WirelessPairing::new();

    assert_eq!(p.dns_id.len(), 24, "dns_id should be 24 characters");
    assert_eq!(p.psk.len(), 6, "psk should be 6 characters");
}

#[test]
fn pairing_code_is_drawn() {
    let p = generate_qr_code("WIFI:T:ADB;S:x;P:y;;").unwrap();
    assert!(p.width >= 300 && p.height >= 300);
    assert_eq!(p.pixels.len(), (p.width * p.height) as usize);
    assert!(p.pixels.contains(&0) && p.pixels.contains(&255));
    let q = generate_qr_code("WIFI:T:ADB;S:x;P:z;;").unwrap();
    assert_ne!(p.pixels, q.pixels);
    assert!(generate_qr_code(&"x".repeat(10_000)).is_none());
    let blocks = print_qr_to_terminal("WIFI:T:ADB;S:x;P:y;;").unwrap();
    assert!(blocks.ends_with('\n'));
    assert!(blocks.lines().count() > 10);
    assert!(!blocks.contains("WIFI"));
    assert!(print_qr_to_terminal(&"x".repeat(10_000)).is_none());
}

#[test]
fn services_are_recognised() {
    let at = vec!["10.0.0.1".to_string()];
    match pairing_service("kl-1", "studio-kl-1._adb-tls-pairing._tcp.local.", &at, 5) {
        Some(MdnsEvent::PairingDiscovered { host, port }) => {
            assert_eq!((host.as_str(), port), ("10.0.0.1", 5))
        }
        _ => panic!("expected PairingDiscovered"),
    }
    assert!(pairing_service("kl-1", "other", &at, 5).is_none());
    assert!(pairing_service("kl-1", "kl-1", &[], 5).is_none());
    match connect_service("f", &at, 6) {
        Some(MdnsEvent::ConnectDiscovered { host, port, fullname }) => {
            assert_eq!((host.as_str(), port, fullname.as_str()), ("10.0.0.1", 6, "f"))
        }
        _ => panic!("expected ConnectDiscovered"),
    }
    assert!(connect_service("f", &[], 6).is_none());
    assert_eq!(format_address("h", 65535), "h:65535");
    let mut info = WirelessPairing::new();
    info.psk = "123456".into();
    assert_eq!(build_pair_args("h:1", &info), vec!["pair", "h:1", "123456"]);
}

// Starting with the desktop.

#[test]
fn platform_supported_matches_platform() {
    assert!(platform_supported(Platform::Windows));
    assert!(platform_supported(Platform::Linux));
    assert!(!platform_supported(Platform::Other));
}

#[test]
fn linux_desktop_entry_roundtrip() {
    let exe = "/opt/kulua dir/daemon";
    let dir = autostart_dir(Some("/tmp/x"), Some("/home/u"));
    assert_eq!(dir, "/tmp/x/autostart");
    assert_eq!(autostart_dir(None, Some("/home/u")), "/home/u/.config/autostart");
    match set_platform_entry(Platform::Linux, &dir, exe, true) {
        EntryAction::WriteFile { dir: d, path, content } => {
            assert_eq!(d, dir);
            assert!(path.starts_with(&dir) && path.ends_with(".desktop"));
            assert!(content.contains("Exec=\"/opt/kulua dir/daemon\""));
            assert!(content.contains("X-GNOME-Autostart-enabled=true"));
            assert_eq!(content, desktop_entry_text(exe));
        }
        _ => panic!("expected WriteFile"),
    }
    match set_platform_entry(Platform::Linux, &dir, exe, false) {
        EntryAction::RemoveFile { path } => assert!(path.starts_with(&dir)),
        _ => panic!("expected RemoveFile"),
    }
}

#[test]
fn other_platforms_and_special_characters() {
    match set_platform_entry(Platform::Windows, "", "C:\\d.exe", true) {
        EntryAction::SetValue(v) => assert!(v.contains("C:\\d.exe")),
        _ => panic!("expected SetValue"),
    }
    assert!(matches!(
        set_platform_entry(Platform::Windows, "", "x", false),
        EntryAction::DeleteValue
    ));
    assert!(matches!(set_platform_entry(Platform::Other, "", "x", true), EntryAction::Nothing));
    assert_eq!(escape("a\"b"), "a\\\"b");
    let config = AppConfig::default();
    let s = current_state(&config, Platform::Linux);
    assert!(s.supported);
    assert_eq!(s.enabled, config.autostart_enabled);
    let action = reconcile(&config, Platform::Linux, "/d", "/e");
    assert_eq!(matches!(action, EntryAction::WriteFile { .. }), config.autostart_enabled);
}

#[test]
fn configuration_has_defaults() {
    let c = effective(None);
    let d = AppConfig::default();
    assert_eq!((c.video_bit_rate, c.audio_bit_rate), (d.video_bit_rate, d.audio_bit_rate));
    assert_eq!((c.audio_codec, c.icon_theme), (d.audio_codec, d.icon_theme));
    assert_eq!(
        config_path(true, Some("C:\\A".into()), None),
        "C:\\A\\Kulua\\config.json"
    );
}

#[test]
fn configuration_lies_in_a_directory_of_the_user() {
    let home = |h: &str| config_path(false, Some("/a".into()), Some(h.into()));
    assert_eq!(home("/home/u"), "/home/u/.config/kulua/config.json");
    assert_eq!(home("/home/u/"), "/home/u/.config/kulua/config.json");
    assert_eq!(home("/"), "/.config/kulua/config.json");
    assert_eq!(home(""), ".config/kulua/config.json");
    assert_eq!(config_path(false, Some("/a".into()), None), "kulua.json");
    let data = |d: &str| config_path(true, Some(d.into()), Some("h".into()));
    assert_eq!(data("C:\\A\\"), "C:\\A\\Kulua\\config.json");
    assert_eq!(data("C:"), "C:Kulua\\config.json");
    assert_eq!(data(""), "Kulua\\config.json");
    assert_eq!(config_path(true, None, Some("C:\\u".into())), "C:\\u\\.config\\kulua\\config.json");
}

#[test]
fn separator_is_left_out_where_none_is_due() {
    assert_eq!(path_within(true, "C:", "x.exe"), "C:x.exe");
    assert_eq!(path_within(true, "z:", "x.exe"), "z:x.exe");
    assert_eq!(path_within(true, "1:", "x.exe"), "1:\\x.exe");
    assert_eq!(path_within(true, "CD:", "x.exe"), "CD:\\x.exe");
    assert_eq!(path_within(true, "C:\\", "x.exe"), "C:\\x.exe");
    assert_eq!(path_within(true, "C:d", "x.exe"), "C:d\\x.exe");
    assert_eq!(path_within(true, "", "x.exe"), "x.exe");
    assert_eq!(path_within(false, "C:", "x"), "C:/x");
    assert_eq!(path_within(false, "d\\", "x"), "d\\/x");
    assert_eq!(path_within(true, "d/", "x"), "d/x");
}

// Places and menus.

#[test]
fn server_and_window_are_looked_for() {
    assert_eq!(
        find_jar(false, "k.jar", Some("/opt/d")),
        vec!["k.jar", "./k.jar", "../k.jar", "/opt/d/../../k.jar"]
    );
    assert_eq!(find_jar(false, "k.jar", None).len(), 3);
    assert_eq!(ui_path(false, Some("/d"), true), "/d/sync-ui");
    assert_eq!(ui_path(true, Some("C:\\d"), true), "C:\\d\\sync-ui.exe");
    assert_eq!(ui_path(true, Some("C:\\d"), false), "../target/debug/sync-ui.exe");
    assert_eq!(ui_path(false, None, false), "../target/debug/sync-ui");
}

#[test]
fn menu_of_the_icon() {
    let quit = on_menu(MenuChoice::Quit);
    assert!(quit.kill_ui && quit.stop && !quit.spawn_ui);
    let open = on_menu(MenuChoice::Open);
    assert!(open.kill_ui && open.spawn_ui && !open.stop);
    let other = on_menu(MenuChoice::Other);
    assert!(!other.kill_ui && !other.spawn_ui && !other.stop);
    let ids: Vec<String> = ["open", "exit", "exit"].iter().map(|s| s.to_string()).collect();
    assert_eq!(check_event(&ids), (Some(TrayEvent::Exit), 2));
    assert_eq!(check_event(&ids[..1]), (None, 1));
}

#[test]
fn icon_is_a_green_disc() {
    let data = create_default_icon_data();
    assert_eq!(data.len(), 32 * 32 * 4);
    let size = 32;
    let cx = (size - 1) as f64 / 2.0;
    let cy = (size - 1) as f64 / 2.0;
    let radius = cx * 0.85;
    for y in 0..size {
        for x in 0..size {
            let dx = (x as f64 - cx) / radius;
            let dy = (y as f64 - cy) / radius;
            let dist = (dx * dx + dy * dy).sqrt();
            let expected = if dist <= 1.0 {
                let alpha =
                    if dist > 0.9 { ((1.0 - dist) / 0.1 * 255.0) as u8 } else { 255 };
                [0x3D, 0xDC, 0x84, alpha]
            } else {
                [0, 0, 0, 0]
            };
            let o = (y * size + x) as usize * 4;
            assert_eq!(data[o..o + 4], expected, "({x}, {y})");
        }
    }
}

// adb.

#[test]
fn adb_is_called_and_its_failures_told() {
    let adb = AdbCmd::new(false, true);
    assert_eq!(adb.adb_path(), AdbCmd::local_path(false));
    assert_eq!(AdbCmd::new(false, false).adb_path(), "adb");
    let adb = AdbCmd::with_path("/x/adb");
    let ok = RunOutcome::Exited { success: true, stdout: b"out".to_vec(), stderr: vec![] };
    let args = vec!["devices".to_string(), "-l".to_string()];
    assert_eq!(adb.run(&args, ok).unwrap().stdout, b"out");
    let bad = RunOutcome::Exited { success: false, stdout: vec![], stderr: b" no \n".to_vec() };
    match adb.run(&args, bad) {
        Err(AdbError::CommandFailed(m)) => assert_eq!(m, "adb devices -l: no"),
        _ => panic!("expected CommandFailed"),
    }
    match adb.run(&args, RunOutcome::NotFound) {
        Err(AdbError::AdbNotFound { tried }) => assert_eq!(tried, "/x/adb"),
        _ => panic!("expected AdbNotFound"),
    }
    assert!(adb.check(&RunOutcome::NotFound).is_err());
    let said = |s: &str| Ok(AdbOutput { stdout: s.as_bytes().to_vec(), stderr: vec![] });
    assert!(adb.connect(said("Connected to 1:2")).is_ok());
    assert!(adb.connect(said("already connected to 1:2")).is_ok());
    assert!(adb.connect(said("failed to connect")).is_err());
    assert_eq!(build_connect_args("a:1"), vec!["connect", "a:1"]);
    assert_eq!(build_push_args("s", "l", "r"), vec!["-s", "s", "push", "l", "r"]);
    assert_eq!(
        build_forward_args("s", 5, "n"),
        vec!["-s", "s", "forward", "tcp:5", "localabstract:n"]
    );
    assert_eq!(build_shell_args("s", &args), vec!["-s", "s", "shell", "devices", "-l"]);
}

#[test]
fn tracked_devices_are_told_when_they_change() {
    assert_eq!(parse_header(b"001f"), Some(31));
    assert_eq!(parse_header(b"zzzz"), None);
    assert!(matches!(on_header(b"0000"), TrackStep::Skip));
    assert!(matches!(on_header(b"0010"), TrackStep::Read(16)));
    assert!(matches!(on_header(b"xyz!"), TrackStep::Restart));
    let mut t = DeviceTracker::new();
    let m = t.on_payload(b"abc\tdevice\n").unwrap();
    assert!(m.contains_key("abc"));
    assert!(t.on_payload(&[0xFF, 0xFE]).is_none());
    let first = t.on_disconnect();
    let second = t.on_disconnect();
    assert!(second >= first);
}

// Sessions.

#[test]
fn test_session_state_str() {
    assert_eq!(session_state_str(SESSION_STATE_IDLE), "idle");
    assert_eq!(session_state_str(SESSION_STATE_CONNECTING), "connecting");
    assert_eq!(session_state_str(SESSION_STATE_RUNNING), "running");
    assert_eq!(session_state_str(SESSION_STATE_FAILED), "failed");
    assert_eq!(session_state_str(SESSION_STATE_STOPPED), "stopped");
    assert_eq!(session_state_str(255), "unknown");
}

#[test]
fn session_that_does_not_stop_is_cleaned_up() {
    let forward = vec!["-s", "s", "forward", "--remove", "tcp:27183"];
    assert_eq!(stop("s", 27183, false), vec![forward.clone()]);
    let commands = stop("s", 27183, true);
    assert_eq!(commands.len(), 2);
    assert!(commands[0][3].starts_with("kill -9"));
    assert_eq!(commands[1], forward);
}

// Notifications.

#[test]
fn notifications_are_asked_for_and_shown() {
    let list = build_list_args("s");
    assert_eq!(&list[..3], &["-s", "s", "shell"]);
    let detail = build_detail_args("s", "0|it's|1");
    assert_eq!(detail[3], "cmd notification get '0|it'\\''s|1'");
    let n = NotifInfo { key: "k".into(), package: "p".into(), title: None, body: Some("b".into()) };
    let note = show_desktop_notification(&n);
    assert_eq!((note.summary.as_str(), note.body.as_str()), ("p", "b"));
    assert_eq!(note.appname, "PhoneSync");
}

#[test]
fn old_notifications_are_not_told() {
    let mut p = NotificationPoller::new();
    assert!(p.on_list(Some(b"0|a|1|null|1\n")).is_empty());
    let added = p.on_list(Some(b"0|a|1|null|1\n0|b|2|null|1\n"));
    assert_eq!(added.len(), 1);
    assert!(added.contains("0|b|2|null|1"));
    assert!(p.on_list(None).is_empty());
    assert!(p.on_list(Some(b"0|b|2|null|1\n")).is_empty());
    assert!(p.on_detail("k", None).is_none());
}

#[test]
fn icon_is_read_from_a_picture_file() {
    let rgba: Vec<u8> = (0..2 * 3 * 4).map(|i| i as u8).collect();
    let picture = image::RgbaImage::from_raw(2, 3, rgba.clone()).unwrap();
    let mut file = std::io::Cursor::new(Vec::new());
    picture.write_to(&mut file, image::ImageFormat::Png).unwrap();
    let icon = load_icon(file.get_ref()).unwrap();
    assert_eq!((icon.width, icon.height), (2, 3));
    assert_eq!(icon.rgba, rgba);
    assert!(load_icon(b"no picture").is_none());
}

#[test]
fn same_list_is_told_once() {
    let mut t = DeviceTracker::new();
    assert_eq!(t.on_payload(b"abc\tdevice\nxyz\toffline\n").unwrap().len(), 2);
    assert!(t.on_payload(b"abc\tdevice\nxyz\toffline\n").is_none());
    assert!(t.on_payload(b"xyz\toffline\nabc\tdevice\n").is_none());
    assert!(t.on_payload(b"abc\tdevice\nxyz\tdevice\n").is_some());
    assert!(t.on_payload(b"abc\tdevice\n").is_some());
}

#[test]
fn letters_are_those_that_were_drawn() {
    assert_eq!(letters_at(&[0, 25, 26, 51, 0]), "azAZa");
    assert_eq!(letters_at(&[]), "");
    let p = WirelessPairing::of(letters_at(&[1; 24]), letters_at(&[2; 6]));
    assert_eq!(p.get_info(), "WIFI:T:ADB;S:bbbbbbbbbbbbbbbbbbbbbbbb;P:cccccc;;");
}

#[test]
fn qr_code_is_large_enough() {
    let picture = generate_qr_code("WIFI:T:ADB;S:abc;P:def;;").unwrap();
    assert!(picture.width >= 300 && picture.height >= 300);
    assert_eq!(picture.pixels.len() as u32, picture.width * picture.height);
    assert!(picture.pixels.contains(&0) && picture.pixels.contains(&255));
}
