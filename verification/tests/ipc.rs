use bytes::BytesMut;
use kulua::app::Command;
use kulua::autostart::AutostartState;
use kulua::device_map::DeviceMap;
use kulua::ipc::handlers::{
    after_command, app_list_reply, app_open_reply, autostart_reply, clipboard_get,
    icon_theme_reply, scrcpy_params_reply, settings_get, AppListReply, AppOpenReply, ERROR_CODE,
};
use kulua::ipc::proto;
use kulua::ipc::proto::{event, request, response};
use kulua::ipc::server::{
    adb_event, device_event, dispatch_request, notification_event, on_clip, on_frame,
    session_event, ConnectionStep, FrameStep, Routed,
};
use kulua::ipc::server_proto;
use kulua::ipc::server_proto::{JsonResult, JsonRouted, JsonRpcRequest};
use kulua::ipc::types::{
    FrameCodec, IpcError, SessionSummary, FRAME_TYPE_AUDIO, FRAME_TYPE_EVENT, FRAME_TYPE_REQUEST,
    FRAME_TYPE_RESPONSE,
};
use kulua::notification::NotifInfo;
use kulua::session::runner::ClipInput;
use kulua::settings::AppConfig;
use kulua::types::{Device, DeviceIdentity, DeviceState};
use kulua::wireless_pair::WirelessPairing;

// Frames.

#[test]
fn encode_then_decode_roundtrip() {
    let mut codec = FrameCodec;
    let mut buf = BytesMut::new();

    let item = (FRAME_TYPE_REQUEST, vec![1, 2, 3, 4]);
    codec.encode(item.clone(), &mut buf).unwrap();

    let decoded = codec.decode(&mut buf).unwrap();
    assert_eq!(decoded, Some(item));
    assert!(buf.is_empty(), "all bytes consumed");
}

#[test]
fn decode_returns_none_on_short_buffer() {
    let mut codec = FrameCodec;
    let mut buf = BytesMut::from(&b"\x05\x00\x00\x00"[..]);
    assert!(codec.decode(&mut buf).unwrap().is_none());
    assert!(!buf.is_empty());
}

#[test]
fn decode_returns_none_on_partial_payload() {
    let mut codec = FrameCodec;
    let mut buf = BytesMut::from(&b"\x0a\x00\x00\x00\x00\x01\x02\x03"[..]);
    assert!(codec.decode(&mut buf).unwrap().is_none());
}

#[test]
fn multiple_frames_in_one_buffer() {
    let mut codec = FrameCodec;
    let mut buf = BytesMut::new();

    let a = (FRAME_TYPE_EVENT, vec![0xde]);
    let b = (FRAME_TYPE_AUDIO, vec![0xca, 0xfe]);
    codec.encode(a.clone(), &mut buf).unwrap();
    codec.encode(b.clone(), &mut buf).unwrap();

    assert_eq!(codec.decode(&mut buf).unwrap(), Some(a));
    assert_eq!(codec.decode(&mut buf).unwrap(), Some(b));
    assert!(buf.is_empty());
}

#[test]
fn empty_payload_roundtrip() {
    let mut codec = FrameCodec;
    let mut buf = BytesMut::new();

    let item = (FRAME_TYPE_RESPONSE, vec![]);
    codec.encode(item.clone(), &mut buf).unwrap();

    let decoded = codec.decode(&mut buf).unwrap();
    assert_eq!(decoded, Some(item));
}

#[test]
fn wire_format_structure() {
    let mut codec = FrameCodec;
    let mut buf = BytesMut::new();

    codec.encode((0x00, b"hello".to_vec()), &mut buf).unwrap();

    assert_eq!(buf[0..4], [5, 0, 0, 0]);
    assert_eq!(buf[4], 0x00);
    assert_eq!(&buf[5..], b"hello");
}

#[test]
fn only_requests_are_looked_at() {
    assert_eq!(on_frame(FRAME_TYPE_REQUEST), FrameStep::Request);
    for t in [FRAME_TYPE_RESPONSE, FRAME_TYPE_EVENT, FRAME_TYPE_AUDIO, 9] {
        assert_eq!(on_frame(t), FrameStep::Ignore);
    }
}

#[test]
fn errors_are_told() {
    assert_eq!(IpcError::UnknownFrameType(7).to_string(), "unknown frame type: 7");
    assert_eq!(IpcError::MethodNotFound("m".into()).to_string(), "method not found: m");
    assert_eq!(IpcError::InvalidParams("p".into()).to_string(), "invalid params: p");
    let io = std::io::Error::new(std::io::ErrorKind::Other, "gone");
    assert_eq!(IpcError::Io(io).to_string(), "io error: gone");
    let json = serde_json::from_slice::<serde_json::Value>(b"{").unwrap_err();
    let text = json.to_string();
    assert!(IpcError::Serde(json).to_string().ends_with(&text));
}

// Requests.

fn req(id: u64, method: &str, params: Option<request::Payload>) -> proto::Request {
    proto::Request { id, method: method.to_string(), params }
}

fn test_device() -> Device {
    Device {
        uuid: 0x11111111_2222_4333_8444_555555555555,
        id: "R58N1234567".into(),
        serial: "R58N1234567".into(),
        state: DeviceState::Device,
        name: "Pixel".into(),
        identity: DeviceIdentity::default(),
    }
}

fn ask(r: &proto::Request, merged: &[Device]) -> Routed {
    dispatch_request(r, merged, &DeviceMap::new(), &WirelessPairing::new(), AppConfig::default())
}

fn reply(r: Routed) -> proto::Response {
    match r {
        Routed::Reply(x) => x,
        _ => panic!("expected a reply"),
    }
}

fn uuid_of(text: &str) -> u128 {
    uuid::Uuid::parse_str(text).unwrap().as_u128()
}

#[test]
fn device_connect_queues_command() {
    let r = req(
        1,
        "device.connect",
        Some(request::Payload::DeviceConnect(request::DeviceSerial {
            serial: "192.168.1.2:5555".into(),
        })),
    );
    match ask(&r, &[]) {
        Routed::Send(Command::Connect(serial)) => assert_eq!(serial, "192.168.1.2:5555"),
        _ => panic!("expected Command::Connect"),
    }
    let resp = after_command(1, true);
    assert!(resp.error.is_none(), "connect 应成功: {:?}", resp.error);
    assert!(resp.result.is_none(), "connect 无结果");
    assert_eq!(after_command(1, false).error.unwrap().message, "core 正在关闭");
}

#[test]
fn session_start_rejects_empty_serial() {
    let resp = reply(ask(
        &req(
            2,
            "session.start",
            Some(request::Payload::SessionStart(request::DeviceSerial { serial: String::new() })),
        ),
        &[],
    ));
    let err = resp.error.expect("空 serial 应报错");
    assert_eq!(err.code, ERROR_CODE);
    assert!(err.message.contains("serial"));
}

#[test]
fn session_update_keeps_defaults_for_missing_options() {
    let uuid = "11111111-2222-3333-4444-555555555555";
    let r = req(
        3,
        "session.update",
        Some(request::Payload::SessionUpdate(request::SessionUpdate {
            uuid: uuid.into(),
            clipboard_sync: None,
            notification_sync: None,
            audio_sync: None,
            volume: None,
        })),
    );
    match ask(&r, &[]) {
        Routed::Send(Command::UpdateConfig {
            uuid: parsed,
            clipboard_sync,
            notification_sync,
            audio_sync,
            volume,
        }) => {
            assert_eq!(uuid::Uuid::from_u128(parsed).to_string(), uuid);
            assert!(clipboard_sync);
            assert!(notification_sync);
            assert!(!audio_sync);
            assert_eq!(volume, 80);
        }
        _ => panic!("expected Command::UpdateConfig"),
    }
}

#[test]
fn device_list_returns_typed_devices() {
    let resp = reply(ask(&req(4, "device.list", None), &[test_device()]));
    match resp.result {
        Some(response::Payload::DeviceList(list)) => {
            assert_eq!(list.devices.len(), 1);
            assert_eq!(list.devices[0].serial, "R58N1234567");
            assert_eq!(list.devices[0].state, "Device");
            assert_eq!(list.devices[0].uuid, "11111111-2222-4333-8444-555555555555");
        }
        other => panic!("expected typed DeviceList, got {:?}", other),
    }
}

#[test]
fn unknown_method_returns_error() {
    let resp = reply(ask(&req(5, "no.such.method", None), &[]));
    let err = resp.error.expect("未知方法应报错");
    assert!(err.message.contains("未知方法"));
    assert_eq!(resp.id, 5);
}

#[test]
fn app_list_queues_command_and_returns_result() {
    let uuid = "11111111-2222-3333-4444-555555555555";
    let request = req(
        6,
        "app.list",
        Some(request::Payload::AppListParams(request::AppListParams {
            uuid: uuid.into(),
            force: false,
        })),
    );
    match ask(&request, &[]) {
        Routed::ListApps(Command::ListApps { uuid: parsed, force }) => {
            assert_eq!(uuid::Uuid::from_u128(parsed).to_string(), uuid);
            assert!(!force, "未指定 force 时应为 false");
        }
        _ => panic!("expected Command::ListApps"),
    }
    let resp = app_list_reply(
        6,
        AppListReply::Apps {
            apps: vec![kulua::apps::AppInfo {
                package_name: "com.android.settings".into(),
                label: "Settings".into(),
                system: true,
            }],
            fusion_supported: true,
        },
    );
    match resp.result {
        Some(response::Payload::AppList(list)) => {
            assert!(list.fusion_supported);
            assert_eq!(list.apps.len(), 1);
            assert_eq!(list.apps[0].package_name, "com.android.settings");
            assert!(list.apps[0].system);
        }
        other => panic!("expected typed AppList, got {:?}", other),
    }
}

#[test]
fn app_list_propagates_core_error() {
    let uuid = "11111111-2222-3333-4444-555555555555";
    let request = req(
        7,
        "app.list",
        Some(request::Payload::AppListParams(request::AppListParams {
            uuid: uuid.into(),
            force: true,
        })),
    );
    match ask(&request, &[]) {
        Routed::ListApps(Command::ListApps { uuid: parsed, force }) => {
            assert_eq!(parsed, uuid_of(uuid));
            assert!(force);
        }
        _ => panic!("expected Command::ListApps"),
    }
    let resp = app_list_reply(7, AppListReply::Failed("枚举应用失败: 超时".into()));
    let err = resp.error.expect("core 错误应透传");
    assert!(err.message.contains("枚举应用失败"));
    assert_eq!(app_list_reply(7, AppListReply::TimedOut).error.unwrap().message, "应用枚举超时");
}

#[test]
fn app_list_rejects_invalid_uuid() {
    let resp = reply(ask(
        &req(
            8,
            "app.list",
            Some(request::Payload::AppListParams(request::AppListParams {
                uuid: "not-a-uuid".into(),
                force: false,
            })),
        ),
        &[],
    ));
    let err = resp.error.expect("非法 uuid 应报错");
    assert!(err.message.contains("uuid"));
}

#[test]
fn app_open_queues_command_and_returns_window_id() {
    let uuid = "11111111-2222-3333-4444-555555555555";
    let request = req(
        9,
        "app.open",
        Some(request::Payload::AppOpenParams(request::AppOpenParams {
            uuid: uuid.into(),
            package_name: "com.android.settings".into(),
        })),
    );
    match ask(&request, &[]) {
        Routed::OpenApp(Command::OpenApp { uuid: parsed, package_name }) => {
            assert_eq!(parsed, uuid_of(uuid));
            assert_eq!(package_name, "com.android.settings");
        }
        _ => panic!("expected Command::OpenApp"),
    }
    let resp = app_open_reply(
        9,
        AppOpenReply::Opened { window_id: 42, addr: "192.168.1.5:27183".into() },
    );
    match resp.result {
        Some(response::Payload::AppOpen(open)) => {
            assert_eq!(open.window_id, 42);
            assert_eq!(open.addr, "192.168.1.5:27183");
        }
        other => panic!("expected typed AppOpen, got {:?}", other),
    }
    assert_eq!(app_open_reply(9, AppOpenReply::TimedOut).error.unwrap().message, "打开应用超时");
}

#[test]
fn app_open_rejects_missing_package() {
    let resp = reply(ask(
        &req(
            10,
            "app.open",
            Some(request::Payload::AppOpenParams(request::AppOpenParams {
                uuid: "11111111-2222-3333-4444-555555555555".into(),
                package_name: String::new(),
            })),
        ),
        &[],
    ));
    let err = resp.error.expect("空包名应报错");
    assert!(err.message.contains("package_name"));
}

#[test]
fn settings_are_read_and_written() {
    let state = AutostartState { enabled: true, supported: true };
    assert!(matches!(ask(&req(1, "settings.get", None), &[]), Routed::ReadSettings));
    let config = AppConfig::default();
    match settings_get(&req(1, "settings.get", None), &config, state).result {
        Some(response::Payload::Settings(s)) => {
            assert!(s.autostart_enabled && s.autostart_supported);
            assert_eq!(s.audio_codec, config.audio_codec);
        }
        _ => panic!("expected Settings"),
    }
    let params = |codec: Option<&str>| {
        Some(request::Payload::SetScrcpyParams(request::SetScrcpyParams {
            video_bit_rate: Some(5),
            video_max_size: None,
            video_max_fps: None,
            audio_bit_rate: None,
            audio_codec: codec.map(|c| c.to_string()),
        }))
    };
    match ask(&req(2, "settings.set_scrcpy_params", params(Some("flac"))), &[]) {
        Routed::WriteParams(c) => {
            assert_eq!((c.video_bit_rate, c.audio_codec.as_str()), (5, "flac"));
            assert_eq!(c.video_max_size, AppConfig::default().video_max_size);
        }
        _ => panic!("expected WriteParams"),
    }
    let bad = reply(ask(&req(2, "settings.set_scrcpy_params", params(Some("mp3"))), &[]));
    assert_eq!(bad.error.unwrap().message, "不支持的音频编码器: mp3");
    let theme = |t: &str| {
        Some(request::Payload::SetIconTheme(request::SetIconTheme { icon_theme: t.into() }))
    };
    match ask(&req(3, "settings.set_icon_theme", theme("light")), &[]) {
        Routed::WriteTheme(c) => assert_eq!(c.icon_theme, "light"),
        _ => panic!("expected WriteTheme"),
    }
    let bad = reply(ask(&req(3, "settings.set_icon_theme", theme("blue")), &[]));
    assert_eq!(bad.error.unwrap().message, "不支持的图标主题: blue");
    let auto = Some(request::Payload::SetAutostart(request::SetAutostart { enabled: true }));
    assert!(matches!(
        ask(&req(4, "settings.set_autostart", auto), &[]),
        Routed::SetAutostart(true)
    ));
    let bad = autostart_reply(4, Err("x".into()), &config);
    assert_eq!(bad.error.unwrap().message, "设置自启动失败: x");
    let bad = scrcpy_params_reply(4, Err("x".into()), true, &config, state);
    assert_eq!(bad.error.unwrap().message, "保存 scrcpy 参数失败: x");
    assert!(scrcpy_params_reply(4, Ok(()), true, &config, state).error.is_none());
    assert!(icon_theme_reply(4, Ok(()), &config, state).error.is_none());
}

#[test]
fn clipboard_and_pairing_are_told() {
    assert!(matches!(ask(&req(1, "clipboard.get", None), &[]), Routed::ReadClipboard));
    match clipboard_get(&req(1, "clipboard.get", None), Some("t".into())).result {
        Some(response::Payload::ClipboardGet(c)) => assert_eq!(c.text, "t"),
        _ => panic!("expected ClipboardGet"),
    }
    let info = WirelessPairing::new();
    let r = dispatch_request(
        &req(2, "pairing.info", None),
        &[],
        &DeviceMap::new(),
        &info,
        AppConfig::default(),
    );
    match reply(r).result {
        Some(response::Payload::PairingInfo(p)) => {
            assert_eq!(p.dns_id, info.dns_id);
            assert_eq!(p.psk, info.psk);
            assert_eq!(p.wifi_string, info.get_info());
        }
        _ => panic!("expected PairingInfo"),
    }
}

#[test]
fn device_conversion_keeps_debug_state_text() {
    let core = Device { id: "serialno".into(), serial: "192.168.1.2:5555".into(), ..test_device() };
    let device = proto::Device::from(&core);
    assert_eq!(device.uuid, uuid::Uuid::from_u128(core.uuid).to_string());
    assert_eq!(device.state, "Device");
    assert_eq!(device.name, "Pixel");
    let odd = Device { state: DeviceState::Unknown("re\"covery\n".into()), ..test_device() };
    assert_eq!(proto::Device::from(&odd).state, format!("{:?}", odd.state));
}

// Events.

#[test]
fn changes_are_told() {
    match device_event(&[test_device()]).data {
        Some(event::Payload::DeviceUpdated(l)) => assert_eq!(l.devices[0].name, "Pixel"),
        _ => panic!("expected DeviceUpdated"),
    }
    let mut adb = DeviceMap::new();
    adb.insert(test_device());
    match adb_event(&adb).data {
        Some(event::Payload::AdbUpdated(l)) => assert_eq!(l.devices.len(), 1),
        _ => panic!("expected AdbUpdated"),
    }
    let s = SessionSummary {
        uuid: 5,
        id: "i".into(),
        serial: "s".into(),
        name: "n".into(),
        state: "Device".into(),
        session_state: "running".into(),
        clipboard_sync: true,
        notification_sync: false,
        audio_enabled: true,
        volume: 80,
        audio_buffer_ms: 12,
    };
    match session_event(&[s]).data {
        Some(event::Payload::SessionUpdated(l)) => {
            assert_eq!(l.sessions[0].session_state, "running");
            assert_eq!((l.sessions[0].volume, l.sessions[0].audio_buffer_ms), (80, 12));
            assert_eq!(l.sessions[0].uuid, uuid::Uuid::from_u128(5).to_string());
        }
        _ => panic!("expected SessionUpdated"),
    }
    match on_clip(ClipInput::Text("t".into())) {
        ConnectionStep::Tell(e) => match e.data {
            Some(event::Payload::ClipboardChanged(c)) => assert_eq!((c.text, c.serial), ("t".into(), "".into())),
            _ => panic!("expected ClipboardChanged"),
        },
        _ => panic!("expected Tell"),
    }
    assert!(matches!(on_clip(ClipInput::Lagged(3)), ConnectionStep::Nothing));
    assert!(matches!(on_clip(ClipInput::Closed), ConnectionStep::End));
    let n = NotifInfo { key: "k".into(), package: "p".into(), title: Some("t".into()), body: None };
    match notification_event("s", n).data {
        Some(event::Payload::Notification(d)) => {
            assert_eq!((d.serial.as_str(), d.title.as_str(), d.app.as_str()), ("s", "t", "p"))
        }
        _ => panic!("expected Notification"),
    }
}

// Requests whose parameters are JSON.

fn json(id: u64, method: &str, params: &str) -> JsonRpcRequest {
    JsonRpcRequest { id, method: method.into(), params: params.as_bytes().to_vec() }
}

#[test]
fn json_parameters_are_read() {
    assert!(server_proto::params_readable(b""));
    assert!(server_proto::params_readable(br#"{"a": 1}"#));
    assert!(!server_proto::params_readable(b"{"));
    let g = server_proto::read_given(
        br#"{"serial": "s", "uuid": 5, "clipboard_sync": false, "volume": 30, "audio_sync": "x"}"#,
    );
    assert_eq!(g.serial.as_deref(), Some("s"));
    assert_eq!(g.uuid, None);
    assert_eq!(g.clipboard_sync, Some(false));
    assert_eq!(g.audio_sync, None);
    assert_eq!(g.volume, Some(30));
}

#[test]
fn json_requests_are_routed() {
    let info = WirelessPairing::new();
    let none = DeviceMap::new();
    let ask = |r: &JsonRpcRequest| server_proto::dispatch_request(r, &[], &none, &info);
    match ask(&json(1, "device.connect", r#"{"serial": "a:1"}"#)) {
        JsonRouted::Send(Command::Connect(s)) => assert_eq!(s, "a:1"),
        _ => panic!("expected Connect"),
    }
    match ask(&json(2, "device.list", "")) {
        JsonRouted::Reply(r) => {
            assert_eq!(r.id, 2);
            assert!(matches!(r.result, Some(JsonResult::Devices(_))));
        }
        _ => panic!("expected Reply"),
    }
    match ask(&json(3, "nothing", "")) {
        JsonRouted::Reply(r) => assert!(r.error.unwrap().message.contains("nothing")),
        _ => panic!("expected Reply"),
    }
    let r = server_proto::after_command(4, true);
    assert!(matches!(r.result, Some(JsonResult::Null)));
    assert_eq!(server_proto::after_command(4, false).error.unwrap().code, -1);
    match server_proto::clipboard_reply(5, None).result {
        Some(JsonResult::Text(t)) => assert_eq!(t, ""),
        _ => panic!("expected Text"),
    }
}

#[test]
fn events_for_json_windows_have_their_names() {
    let d = test_device();
    let e = server_proto::device_event(&[d.clone()]);
    assert_eq!(e.name(), "device.updated");
    match e {
        kulua::ipc::types::Event::DeviceUpdated { data } => assert_eq!(data[0].serial, d.serial),
        _ => panic!("expected DeviceUpdated"),
    }
    let mut adb = DeviceMap::new();
    adb.insert(d);
    assert_eq!(server_proto::adb_event(&adb).name(), "adb.updated");
    assert_eq!(server_proto::session_event(&[]).name(), "session.updated");
    match server_proto::on_clip(ClipInput::Text("t".into())) {
        server_proto::ConnectionStep::Tell(e) => assert_eq!(e.name(), "clipboard.changed"),
        _ => panic!("expected Tell"),
    }
    assert!(matches!(
        server_proto::on_clip(ClipInput::Closed),
        server_proto::ConnectionStep::End
    ));
    let n = NotifInfo {
        key: "k".into(),
        package: "p".into(),
        title: None,
        body: Some("b".into()),
    };
    let e = server_proto::notification_event("s", n);
    assert_eq!(e.name(), "notification");
    match e {
        kulua::ipc::types::Event::Notification { data } => {
            assert_eq!((data.title.as_str(), data.text.as_str(), data.app.as_str()), ("", "b", "p"))
        }
        _ => panic!("expected Notification"),
    }
}
