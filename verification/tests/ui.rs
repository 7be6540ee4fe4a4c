use kulua::ipc::proto;
use kulua::ipc::proto::{event, request, response};
use kulua::proto::codec::AssembledMedia;
use kulua::proto::messages::{CtrlMsg, DisplayReady, MediaConfig, Msg};
use kulua::proto::session::Event;
use kulua::ui::fusion::{
    await_ready, fusion_start, on_event, parse_display_spec, start_app_failure, FusionSessions,
    PumpStep, WaitStep,
};
use kulua::ui::{
    adb_devices_reply, apps_reply, check_response, frame_holds, get_apps, get_settings, open_app,
    open_app_reply, read_port, session_to_info, set_autostart, settings_reply, start_session,
    update_session_config, wait_for_port, Answer, DaemonClient, FrameHolds, PortStep, UiEvent,
};

fn dev(serial: &str) -> proto::Device {
    proto::Device {
        uuid: "u".into(),
        id: "i".into(),
        serial: serial.into(),
        state: "Device".into(),
        name: "n".into(),
        identity: None,
    }
}

fn answer(id: u64, result: Option<response::Payload>) -> proto::Response {
    proto::Response { id, result, error: None }
}

fn refusal(id: u64) -> proto::Response {
    proto::Response {
        id,
        result: None,
        error: Some(proto::RpcError { code: -1, message: "no".into() }),
    }
}

#[test]
fn errors_of_the_daemon_are_told() {
    assert_eq!(check_response(&answer(1, None)), Ok(()));
    assert_eq!(check_response(&refusal(1)), Err("no (code -1)".to_string()));
    assert_eq!(adb_devices_reply(&refusal(1)).unwrap_err(), "no (code -1)");
    assert_eq!(
        adb_devices_reply(&answer(1, None)).unwrap_err(),
        "daemon 返回了意外的 device.adb_list 结果"
    );
    assert_eq!(
        settings_reply("settings.get", &answer(1, None)).unwrap_err(),
        "daemon 返回了意外的 settings.get 结果"
    );
    assert_eq!(apps_reply(&answer(1, None)).unwrap_err(), "daemon 返回了意外的 app.list 结果");
    assert_eq!(
        open_app_reply("p", &answer(1, None)).unwrap_err(),
        "daemon 返回了意外的 app.open 结果"
    );
}

#[test]
fn answers_are_shown() {
    let list = response::Payload::AdbList(response::DeviceList { devices: vec![dev("s")] });
    assert_eq!(adb_devices_reply(&answer(1, Some(list))).unwrap()[0].serial, "s");
    let settings = response::Payload::Settings(response::Settings {
        autostart_enabled: true,
        autostart_supported: false,
        video_bit_rate: 1,
        video_max_size: 2,
        video_max_fps: 3,
        audio_bit_rate: 4,
        audio_codec: "raw".into(),
        icon_theme: "dark".into(),
    });
    let s = settings_reply("settings.get", &answer(1, Some(settings))).unwrap();
    assert!(s.autostart_enabled && !s.autostart_supported);
    assert_eq!((s.video_bit_rate, s.video_max_size, s.video_max_fps), (1, 2, 3));
    assert_eq!((s.audio_bit_rate, s.audio_codec.as_str()), (4, "raw"));
    let apps = response::Payload::AppList(response::AppList {
        apps: vec![proto::AppInfo { package_name: "p".into(), label: "l".into(), system: true }],
        fusion_supported: true,
    });
    let a = apps_reply(&answer(1, Some(apps))).unwrap();
    assert!(a.fusion_supported && a.apps[0].system);
    let open = |addr: &str| {
        Some(response::Payload::AppOpen(response::AppOpen { window_id: 7, addr: addr.into() }))
    };
    let w = open_app_reply("com.x", &answer(1, open("1.2.3.4:5"))).unwrap();
    assert_eq!((w.window_id, w.label.as_str(), w.title.as_str()), (7, "fusion-7", "com.x — Kulua"));
    assert_eq!(w.url, "/fusion.html?addr=1.2.3.4:5&port=5&package=com.x&window_id=7");
    assert_eq!(
        open_app_reply("com.x", &answer(1, open(""))).unwrap_err(),
        "daemon 未返回设备直连地址"
    );
}

#[test]
fn requests_are_numbered_and_answered() {
    let mut c = DaemonClient::new();
    assert_eq!(c.ipc_request(get_settings()).unwrap_err(), "未连接 daemon");
    assert!(!c.get_connection_status());
    let hello = c.connect_daemon();
    assert_eq!((hello[0].id, hello[0].method.as_str()), (1, "device.list"));
    assert_eq!((hello[1].id, hello[1].method.as_str()), (2, "pairing.info"));
    assert!(c.get_connection_status());
    let q = c.ipc_request(set_autostart(true)).unwrap();
    assert_eq!((q.id, q.method.as_str()), (4, "settings.set_autostart"));
    assert_eq!(
        q.params,
        Some(request::Payload::SetAutostart(request::SetAutostart { enabled: true }))
    );
    c.on_sent(q.id, true).unwrap();
    assert_eq!(c.on_sent(99, false).unwrap_err(), "daemon 已断开");
    assert!(matches!(c.on_response(answer(q.id, None)), Answer::Deliver(r) if r.id == q.id));
    assert!(matches!(c.on_response(answer(q.id, None)), Answer::Nothing));
    c.disconnect();
    assert_eq!(c.ipc_request(get_settings()).unwrap_err(), "daemon 已断开");
}

#[test]
fn greeting_is_answered() {
    let mut c = DaemonClient::new();
    c.connect_daemon();
    let list =
        || Some(response::Payload::DeviceList(response::DeviceList { devices: vec![dev("s")] }));
    assert!(matches!(c.on_response(answer(5, list())), Answer::Nothing));
    assert!(c.get_devices().is_empty());
    match c.on_response(answer(1, list())) {
        Answer::Tell(UiEvent::Devices(d)) => assert_eq!(d[0].serial, "s"),
        _ => panic!("expected Devices"),
    }
    assert_eq!(c.get_devices().len(), 1);
    assert!(c.get_pairing_info().is_none());
    let info = response::Payload::PairingInfo(response::PairingInfo {
        dns_id: "d".into(),
        psk: "p".into(),
        wifi_string: "w".into(),
    });
    assert!(matches!(c.on_response(answer(2, Some(info))), Answer::Tell(UiEvent::Pairing(_))));
    assert_eq!(c.get_pairing_info().unwrap().psk, "p");
    match c.on_response(refusal(1)) {
        Answer::Report(t) => assert_eq!(t, "IPC 握手失败: no (code -1)"),
        _ => panic!("expected Report"),
    }
}

#[test]
fn events_are_shown() {
    let mut c = DaemonClient::new();
    let e = |data| proto::Event { data: Some(data) };
    let l = || proto::DeviceListData { devices: vec![dev("a"), dev("b")] };
    match c.on_event(e(event::Payload::DeviceUpdated(l()))) {
        Some(UiEvent::Devices(d)) => assert_eq!(d.len(), 2),
        _ => panic!("expected Devices"),
    }
    assert_eq!(c.get_devices().len(), 2);
    assert!(matches!(c.on_event(e(event::Payload::AdbUpdated(l()))), Some(UiEvent::Adb(_))));
    let clip = proto::ClipboardData { text: "t".into(), serial: "s".into() };
    match c.on_event(e(event::Payload::ClipboardChanged(clip))) {
        Some(UiEvent::Clipboard { text, serial }) => {
            assert_eq!((text.as_str(), serial.as_str()), ("t", "s"))
        }
        _ => panic!("expected Clipboard"),
    }
    assert!(c.on_event(proto::Event { data: None }).is_none());
    assert_eq!(frame_holds(2), FrameHolds::Event);
    assert_eq!(frame_holds(1), FrameHolds::Response);
    assert_eq!(frame_holds(0), FrameHolds::Nothing);
    let s = proto::SessionSummary {
        uuid: "u".into(),
        id: "i".into(),
        serial: "s".into(),
        name: "n".into(),
        state: "Device".into(),
        session_state: "running".into(),
        clipboard_sync: true,
        notification_sync: false,
        audio_enabled: true,
        volume: 50,
        audio_buffer_ms: 9,
        audio_state: "on".into(),
        audio_error: "".into(),
    };
    let i = session_to_info(&s);
    assert_eq!((i.volume, i.audio_buffer_ms, i.audio_state.as_str()), (50, 9, "on"));
}

#[test]
fn calls_carry_what_the_methods_need() {
    assert_eq!(start_session("s".into()).method, "session.start");
    assert_eq!(
        get_apps("u".into(), true).params,
        Some(request::Payload::AppListParams(request::AppListParams {
            uuid: "u".into(),
            force: true
        }))
    );
    assert_eq!(open_app("u".into(), "p".into()).method, "app.open");
    match update_session_config("u".into(), true, false, true, 30).params {
        Some(request::Payload::SessionUpdate(p)) => {
            assert_eq!((p.clipboard_sync, p.notification_sync), (Some(true), Some(false)));
            assert_eq!((p.audio_sync, p.volume), (Some(true), Some(30)));
        }
        _ => panic!("expected SessionUpdate"),
    }
}

#[test]
fn port_is_waited_for() {
    match wait_for_port(Some(" 123\n"), 0, 10) {
        PortStep::Found(s) => assert_eq!(read_port(&s), Some(123)),
        _ => panic!("expected Found"),
    }
    assert!(matches!(wait_for_port(Some(" \n"), 9, 10), PortStep::Sleep));
    assert!(matches!(wait_for_port(None, 10, 10), PortStep::GiveUp));
    assert_eq!(read_port("65536"), None);
    assert_eq!(read_port("x"), None);
}

// Windows of applications.

#[test]
fn display_specs_are_read() {
    assert_eq!(parse_display_spec("1280x960/160"), Ok((1280, 960, 160)));
    assert_eq!(parse_display_spec("1280x960"), Ok((1280, 960, 160)));
    assert_eq!(parse_display_spec("1x2/abc"), Ok((1, 2, 160)));
    assert_eq!(parse_display_spec("1x2/440/9"), Ok((1, 2, 440)));
    assert_eq!(parse_display_spec("12/5"), Err("无效显示器规格: 12/5".to_string()));
    assert_eq!(parse_display_spec(" 1x2/5"), Err("无效宽度:  1".to_string()));
    assert_eq!(parse_display_spec("1x2x3/5"), Err("无效高度: 2x3".to_string()));
}

#[test]
fn window_starts_with_a_display() {
    let p = fusion_start(27183).unwrap();
    assert_eq!(p.scid, "4b4c6a2f");
    assert!(!p.opts.audio_link && !p.opts.hello_audio && p.opts.video);
    match p.create.msg {
        Some(Msg::CreateDisplay(c)) => assert_eq!((c.width, c.height, c.dpi), (1280, 960, 160)),
        _ => panic!("expected CreateDisplay"),
    }
    let ready = Event::Control(CtrlMsg {
        msg: Some(Msg::DisplayReady(DisplayReady {
            display_id: 3,
            codec_id: 0,
            width: 1,
            height: 1,
            dpi: 1,
        })),
    });
    assert!(matches!(
        await_ready(Some(ready.clone()), 10, 10),
        WaitStep::Ready { display_id: 3 }
    ));
    assert!(matches!(await_ready(None, 10, 10), WaitStep::Sleep));
    assert!(matches!(await_ready(Some(Event::Closed), 1, 10), WaitStep::Sleep));
    match await_ready(Some(ready), 11, 10) {
        WaitStep::Failed(e) => assert_eq!(e, "等待 DisplayReady 超时"),
        _ => panic!("expected Failed"),
    }
    match await_ready(Some(Event::Error("e".into())), 1, 10) {
        WaitStep::Failed(e) => assert_eq!(e, "会话错误: e"),
        _ => panic!("expected Failed"),
    }
    assert_eq!(start_app_failure("e"), "START_APP 失败: e");
}

#[test]
fn pump_passes_pictures_and_parameter_sets_on() {
    let frame = AssembledMedia { pts: 5, revision: 0, flags: 2, data: vec![1] };
    match on_event(Some(Event::Video(frame))) {
        PumpStep::Pass(p) => {
            assert!(p.is_key && !p.is_config);
            assert_eq!((p.data, p.pts), (vec![1], 5));
        }
        _ => panic!("expected Pass"),
    }
    let config = |stream: u32| {
        Some(Event::Control(CtrlMsg {
            msg: Some(Msg::MediaConfig(MediaConfig { stream, revision: 0, data: vec![9] })),
        }))
    };
    assert!(matches!(on_event(config(2)), PumpStep::Pass(p) if p.is_config && p.data == vec![9]));
    assert!(matches!(on_event(config(1)), PumpStep::Skip));
    assert!(matches!(on_event(Some(Event::Connected)), PumpStep::Skip));
    assert!(matches!(on_event(Some(Event::Error("e".into()))), PumpStep::Stop));
    assert!(matches!(on_event(Some(Event::Closed)), PumpStep::Stop));
    assert!(matches!(on_event(None), PumpStep::Stop));
}

#[test]
fn input_goes_to_the_display_of_its_window() {
    let mut s = FusionSessions::new();
    assert_eq!(s.fusion_ctrl("a"), Err("融合窗口不存在或已关闭".to_string()));
    s.insert("a", 1);
    s.insert("b", 2);
    s.insert("a", 3);
    assert_eq!((s.fusion_ctrl("a"), s.fusion_ctrl("b")), (Ok(3), Ok(2)));
    match s.fusion_touch("b", 2, 5, 6, 100, 200, 0.5f32.to_bits()).unwrap().msg {
        Some(Msg::InjectTouch(t)) => {
            assert_eq!((t.display_id, t.action, t.x, t.y), (2, 2, 5, 6));
            assert_eq!(t.pointer_id, u64::MAX);
            assert_eq!(f32::from_bits(t.pressure), 0.5);
        }
        _ => panic!("expected InjectTouch"),
    }
    match s.fusion_scroll("a", 1, 2, 3, 4, 1.0f32.to_bits(), 2.0f32.to_bits()).unwrap().msg {
        Some(Msg::InjectScroll(m)) => {
            assert_eq!((f32::from_bits(m.hscroll), f32::from_bits(m.vscroll)), (1.0, 2.0))
        }
        _ => panic!("expected InjectScroll"),
    }
    match s.fusion_key("a", 1, 66).unwrap().msg {
        Some(Msg::InjectKeycode(k)) => assert_eq!((k.display_id, k.action, k.keycode), (3, 1, 66)),
        _ => panic!("expected InjectKeycode"),
    }
    match s.fusion_text("a", " t ").unwrap().msg {
        Some(Msg::InjectText(t)) => assert_eq!(t.text, " t "),
        _ => panic!("expected InjectText"),
    }
    assert!(s.fusion_back("a", 0).is_ok());
    assert!(s.fusion_resize("a", 1, 2).is_ok());
    s.fusion_close("a");
    assert!(s.fusion_ctrl("a").is_err());
    assert!(s.fusion_back("a", 0).is_err());
    assert_eq!(s.fusion_ctrl("b"), Ok(2));
}
