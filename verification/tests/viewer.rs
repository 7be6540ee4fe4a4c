use kulua::proto::codec::AssembledMedia;
use kulua::proto::messages::{CtrlMsg, DisplayReady, MediaConfig, Msg};
use kulua::proto::msgs::{
    back_or_screen_on, inject_keycode, inject_scroll, inject_text, inject_touch, resize_display,
    start_app,
};
use kulua::proto::session::Event;
use kulua::viewer::app::{
    cap_display, even_dim, target_display, Pointer, ResizeState, ViewerApp,
};
use kulua::viewer::args::{
    parse_args, Args, ScaleWord, Value, Word, DEFAULT_DISPLAY, DEFAULT_SCALE,
};
use kulua::viewer::control::{key_action, keycode, touch_action, POINTER_ID_MOUSE};
use kulua::viewer::decoder::{
    avcc_to_annexb, copy_frame, copy_plane, is_annexb, video_codec, DecodedFrame, PixelFormat,
    RawFrame, VideoCodec,
};
use kulua::viewer::keys::{mapped_keys, to_android_keycode, Key, KeySet};
use kulua::viewer::server::{
    connect_failure, create_display_failure, parse_display, scid_for_port, ReadyStep,
    ViewerSession,
};
use kulua::viewer::video::{failure, next_job, to_rgba, Job, Stage, VideoEvent, VideoInput};
use kulua::viewer::yuv::{clamp_u8, render_yuv420_to_rgba, yuv_to_rgb};

// The command line.

fn scale_word(text: &str) -> ScaleWord {
    match text.parse::<f32>() {
        Err(_) => ScaleWord::NotANumber,
        Ok(s) => {
            if (0.1..=4.0).contains(&s) {
                ScaleWord::Accepted(s.to_bits())
            } else {
                ScaleWord::OutOfRange(format!("{}", s))
            }
        }
    }
}

fn value(text: &str) -> Value {
    Value {
        text: text.to_string(),
        is_address: text.split_once(':').is_some_and(|(host, port)| {
            host.split('.').count() == 4
                && host.split('.').all(|o| o.parse::<u8>().is_ok())
                && port.parse::<u16>().is_ok()
        }),
        scale: scale_word(text),
    }
}

fn args(v: &[&str]) -> Vec<Word> {
    v.iter()
        .map(|s| Word { whole: value(s), tail: s.split_once('=').map(|(_, t)| value(t)) })
        .collect()
}

fn addr() -> &'static str {
    "192.168.1.5:27183"
}

#[test]
fn parses_all_options() {
    let a = parse_args(&args(&[
        "--connect",
        "192.168.1.5:27183",
        "--package",
        "com.android.settings",
        "--label",
        "设置",
        "--display",
        "1024x768/160",
        "--scale",
        "0.5",
    ]))
    .unwrap();
    assert_eq!(a.addr, addr());
    assert_eq!(a.package, "com.android.settings");
    assert_eq!(a.label, "设置");
    assert_eq!(a.display, "1024x768/160");
    assert_eq!(f32::from_bits(a.scale), 0.5);
}

#[test]
fn supports_equals_form() {
    let a = parse_args(&args(&[
        "--connect=192.168.1.5:27183",
        "--package=com.android.settings",
    ]))
    .unwrap();
    assert_eq!(a.addr, addr());
    assert_eq!(a.package, "com.android.settings");
}

#[test]
fn applies_defaults() {
    let a = parse_args(&args(&["--connect", "192.168.1.5:27183", "--package", "pkg"])).unwrap();
    assert_eq!(a.label, "");
    assert_eq!(a.display, DEFAULT_DISPLAY);
    assert_eq!(a.scale, DEFAULT_SCALE);
    assert_eq!(f32::from_bits(DEFAULT_SCALE), 1.0);
}

#[test]
fn supports_scale_equals_form() {
    let a = parse_args(&args(&[
        "--connect=192.168.1.5:27183",
        "--package=pkg",
        "--scale=2.0",
    ]))
    .unwrap();
    assert_eq!(f32::from_bits(a.scale), 2.0);
}

#[test]
fn unknown_option_is_error() {
    assert!(parse_args(&args(&["--connect", "1", "--package", "pkg", "--bogus", "x"])).is_err());
    assert_eq!(
        parse_args(&args(&["--connect", addr(), "--package", "pkg", "--bogus", "x"])).unwrap_err(),
        "未知参数: --bogus"
    );
    assert_eq!(parse_args(&args(&["--bogus=1"])).unwrap_err(), "未知参数: --bogus");
}

#[test]
fn missing_value_is_error() {
    assert!(parse_args(&args(&["--connect"])).is_err());
    assert_eq!(parse_args(&args(&["--connect"])).unwrap_err(), "缺少参数值: --connect");
}

#[test]
fn invalid_addr_is_error() {
    assert!(parse_args(&args(&["--connect", "abc", "--package", "pkg"])).is_err());
    assert_eq!(
        parse_args(&args(&["--connect=x:y=z", "--package", "pkg"])).unwrap_err(),
        "非法地址（应为 ip:port）: x:y=z"
    );
}

#[test]
fn later_values_replace_earlier_ones() {
    let a = parse_args(&args(&[
        "--package=a",
        "--connect",
        addr(),
        "--package",
        "b",
        "--label=x=y",
    ]))
    .unwrap();
    assert_eq!(a.package, "b");
    assert_eq!(a.label, "x=y");
}

#[test]
fn first_fault_is_told() {
    assert_eq!(
        parse_args(&args(&["--scale", "9", "--bogus", "1"])).unwrap_err(),
        "缩放系数 9 超出范围 [0.1, 4]"
    );
    assert_eq!(parse_args(&args(&["--scale=x"])).unwrap_err(), "非法缩放系数: x");
    assert_eq!(parse_args(&args(&["--package=p"])).unwrap_err(), "缺少 --connect 参数");
    assert_eq!(
        parse_args(&args(&["--connect", addr()])).unwrap_err(),
        "缺少 --package 参数"
    );
}

#[test]
fn invalid_scale_is_error() {
    assert!(
        parse_args(&args(&["--connect", "1", "--package", "pkg", "--scale", "abc"])).is_err()
    );
    assert!(parse_args(&args(&["--connect", "1", "--package", "pkg", "--scale", "0"])).is_err());
    assert!(parse_args(&args(&["--connect", "1", "--package", "pkg", "--scale", "10"])).is_err());
    for scale in ["abc", "0", "10"] {
        assert!(
            parse_args(&args(&["--connect", addr(), "--package", "pkg", "--scale", scale]))
                .is_err()
        );
    }
}

#[test]
fn window_title_uses_label_or_package() {
    let with_label = parse_args(&args(&[
        "--connect",
        "192.168.1.5:27183",
        "--package",
        "pkg",
        "--label",
        "应用名",
    ]))
    .unwrap();
    assert_eq!(with_label.window_title(), "应用名");

    let without_label: Args =
        parse_args(&args(&["--connect", "192.168.1.5:27183", "--package", "pkg"])).unwrap();
    assert_eq!(without_label.window_title(), "pkg");
}

#[test]
fn missing_required_is_error() {
    assert!(parse_args(&args(&["--package", "pkg"])).is_err());
    assert!(parse_args(&args(&["--connect", "192.168.1.5:27183"])).is_err());
}

// Control messages.

#[test]
fn keycode_message_roundtrip() {
    let msg = inject_keycode(7, key_action::DOWN as u32, keycode::HOME, 0, 0);
    let m = match msg.msg {
        Some(Msg::InjectKeycode(m)) => m,
        _ => panic!("expected InjectKeycode"),
    };
    assert_eq!(m.display_id, 7);
    assert_eq!(m.action, key_action::DOWN as u32);
    assert_eq!(m.keycode, keycode::HOME);
    assert_eq!(m.repeat, 0);
    assert_eq!(m.meta_state, 0);
}

#[test]
fn text_payload() {
    let msg = inject_text(2, "hello");
    let m = match msg.msg {
        Some(Msg::InjectText(m)) => m,
        _ => panic!("expected InjectText"),
    };
    assert_eq!(m.display_id, 2);
    assert_eq!(m.text, "hello");
}

#[test]
fn touch_pointer_pressure_roundtrip() {
    let msg = inject_touch(
        7,
        touch_action::DOWN as u32,
        POINTER_ID_MOUSE,
        100,
        200,
        1280,
        960,
        1.0f32.to_bits(),
        0,
        0,
    );
    let m = match msg.msg {
        Some(Msg::InjectTouch(m)) => m,
        _ => panic!("expected InjectTouch"),
    };
    assert_eq!(m.display_id, 7);
    assert_eq!(m.pointer_id, POINTER_ID_MOUSE);
    assert_eq!(m.x, 100);
    assert_eq!(m.y, 200);
    assert_eq!(m.screen_width, 1280);
    assert_eq!((f32::from_bits(m.pressure) - 1.0).abs() < 1e-6, true);
}

#[test]
fn scroll_and_start_app_and_resize() {
    let scroll =
        inject_scroll(3, 50, 60, 1280, 960, 0.0f32.to_bits(), (-16.0f32).to_bits(), 0);
    let s = match scroll.msg {
        Some(Msg::InjectScroll(s)) => s,
        _ => panic!("expected InjectScroll"),
    };
    assert_eq!((s.x, s.y, f32::from_bits(s.vscroll)), (50, 60, -16.0));

    let start = start_app(5, "com.android.settings");
    let st = match start.msg {
        Some(Msg::StartApp(s)) => s,
        _ => panic!("expected StartApp"),
    };
    assert_eq!(st.package, "com.android.settings");

    let rz = resize_display(9, 1920, 1080);
    let r = match rz.msg {
        Some(Msg::ResizeDisplay(r)) => r,
        _ => panic!("expected ResizeDisplay"),
    };
    assert_eq!((r.width, r.height), (1920, 1080));
}

#[test]
fn back_or_screen_on_layout() {
    let back = back_or_screen_on(3, key_action::DOWN as u32);
    let b = match back.msg {
        Some(Msg::BackOrScreenOn(b)) => b,
        _ => panic!("expected BackOrScreenOn"),
    };
    assert_eq!(b.display_id, 3);
    assert_eq!(b.action, key_action::DOWN as u32);
}

// Keys.

#[test]
fn special_keys() {
    assert_eq!(to_android_keycode(Key::Escape), Some(4)); // BACK
    assert_eq!(to_android_keycode(Key::Backspace), Some(67));
    assert_eq!(to_android_keycode(Key::Enter), Some(66));
    assert_eq!(to_android_keycode(Key::Tab), Some(61));
    assert_eq!(to_android_keycode(Key::Space), Some(62));
    assert_eq!(to_android_keycode(Key::ArrowUp), Some(19));
    assert_eq!(to_android_keycode(Key::ArrowDown), Some(20));
    assert_eq!(to_android_keycode(Key::ArrowLeft), Some(21));
    assert_eq!(to_android_keycode(Key::ArrowRight), Some(22));
    assert_eq!(to_android_keycode(Key::Home), Some(3));
    assert_eq!(to_android_keycode(Key::F1), Some(131));
    assert_eq!(to_android_keycode(Key::F12), Some(142));
}

#[test]
fn unsupported_keys_are_none() {
    assert_eq!(to_android_keycode(Key::Other), None);
}

#[test]
fn every_mapped_key_has_a_code_of_its_own() {
    let keys = mapped_keys();
    assert_eq!(keys.len(), 25);
    let mut codes: Vec<u32> = keys.iter().map(|k| to_android_keycode(*k).unwrap()).collect();
    codes.sort();
    codes.dedup();
    assert_eq!(codes.len(), 25);
    assert_eq!(to_android_keycode(Key::Delete), Some(112));
    assert_eq!(to_android_keycode(Key::PageUp), Some(92));
    assert_eq!(to_android_keycode(Key::PageDown), Some(93));
}

#[test]
fn key_set_holds_what_was_put_in() {
    let mut s = KeySet::new();
    assert!(!s.contains(Key::Tab));
    s.insert(Key::Tab);
    s.insert(Key::F1);
    s.insert(Key::Tab);
    assert!(s.contains(Key::Tab) && s.contains(Key::F1));
    s.remove(Key::Tab);
    assert!(!s.contains(Key::Tab) && s.contains(Key::F1));
}

// Connecting.

#[test]
fn scid_for_port_matches_daemon_formula() {
    assert_eq!(scid_for_port(27183), "4b4c6a2f");
    assert_eq!(scid_for_port(0), "4b4c0000");
}

#[test]
fn parse_display_accepts_standard_format() {
    assert_eq!(parse_display("1280x960/160"), Ok((1280, 960, 160)));
    assert_eq!(parse_display(" 1920x1080/440 "), Ok((1920, 1080, 440)));
}

#[test]
fn parse_display_rejects_bad_input() {
    assert!(parse_display("").is_err());
    assert!(parse_display("1280x960").is_err(), "缺少 /DPI");
    assert!(parse_display("1280/160").is_err(), "缺少 x");
    assert!(parse_display("axb/160").is_err(), "非数字");
    assert!(parse_display("0x960/160").is_err(), "零宽");
    assert!(parse_display("1280x0/160").is_err(), "零高");
    assert!(parse_display("1280x960/0").is_err(), "零 DPI");
    assert!(parse_display("1280x960/abc").is_err(), "非数字 DPI");
}

#[test]
fn parse_display_tells_what_is_wrong() {
    assert_eq!(parse_display("x"), Err("非法显示器规格（应为 WxH/DPI）: x".to_string()));
    assert_eq!(parse_display("5/6"), Err("非法显示器规格（应为 WxH/DPI）: 5/6".to_string()));
    assert_eq!(parse_display(" ax5/6"), Err("非法宽度:  a".to_string()));
    assert_eq!(parse_display("65536x5/6"), Err("非法宽度: 65536".to_string()));
    assert_eq!(parse_display("5x/6"), Err("非法高度: ".to_string()));
    assert_eq!(parse_display("5x6/-1"), Err("非法 DPI: -1".to_string()));
    assert_eq!(parse_display("0x6/1"), Err("显示器规格必须为正数: 0x6/1".to_string()));
}

#[test]
fn connecting_asks_for_the_display() {
    let (scid, create) = ViewerSession::connect(27183, "1280x960/160").unwrap();
    assert_eq!(scid, "4b4c6a2f");
    match create.msg {
        Some(Msg::CreateDisplay(c)) => assert_eq!((c.width, c.height, c.dpi), (1280, 960, 160)),
        _ => panic!("expected CreateDisplay"),
    }
    assert!(ViewerSession::connect(1, "bad").is_err());
}

#[test]
fn waiting_ends_with_the_display_or_a_failure() {
    let ready = Event::Control(CtrlMsg {
        msg: Some(Msg::DisplayReady(DisplayReady {
            display_id: 42,
            codec_id: 0x68323634,
            width: 1280,
            height: 960,
            dpi: 160,
        })),
    });
    match ViewerSession::await_ready(Some(ready), 1, 10) {
        ReadyStep::Ready(v) => {
            assert_eq!(v.display_id, 42);
            assert_eq!(v.codec_id, 0x68323634);
        }
        _ => panic!("expected Ready"),
    }
    assert!(matches!(ViewerSession::await_ready(None, 9, 10), ReadyStep::Sleep));
    assert!(matches!(
        ViewerSession::await_ready(Some(Event::Connected), 99, 10),
        ReadyStep::Next
    ));
    match ViewerSession::await_ready(None, 10, 10) {
        ReadyStep::Failed { reason, close } => {
            assert_eq!(reason, "等待 DisplayReady 超时（server/网络异常？）");
            assert!(close);
        }
        _ => panic!("expected Failed"),
    }
    match ViewerSession::await_ready(Some(Event::Error("x".into())), 1, 10) {
        ReadyStep::Failed { reason, close } => {
            assert_eq!(reason, "会话错误: x");
            assert!(!close);
        }
        _ => panic!("expected Failed"),
    }
    assert!(matches!(
        ViewerSession::await_ready(Some(Event::Closed), 1, 10),
        ReadyStep::Failed { .. }
    ));
    assert_eq!(ViewerSession::send_ctrl(Some("e")), Err("控制通道写入失败: e".to_string()));
    assert_eq!(ViewerSession::send_ctrl(None), Ok(()));
    assert_eq!(connect_failure("a:1", "e"), "连接 a:1 失败: e");
    assert_eq!(create_display_failure("e"), "CreateDisplay 发送失败: e");
}

// Pictures.

fn solid_frame(w: usize, h: usize, y: u8, u: u8, v: u8) -> (Vec<u8>, Vec<u8>, Vec<u8>) {
    let y_plane = vec![y; w * h];
    let uv_plane = vec![u; (w / 2) * (h / 2)];
    (y_plane, uv_plane.clone(), vec![v; uv_plane.len()])
}

fn rgba_px(dst: &[u8], i: usize) -> (u8, u8, u8, u8) {
    let o = i * 4;
    (dst[o], dst[o + 1], dst[o + 2], dst[o + 3])
}

#[test]
fn solid_white_frame() {
    let (y, u, v) = solid_frame(4, 4, 235, 128, 128);
    let mut dst = vec![0u8; 16 * 4];
    render_yuv420_to_rgba(&mut dst, 4, 4, &y, &u, &v, 4, 4);
    for i in 0..16 {
        assert_eq!(rgba_px(&dst, i), (255, 255, 255, 255), "白色帧@{i}");
    }
}

#[test]
fn solid_black_frame() {
    let (y, u, v) = solid_frame(4, 4, 16, 128, 128);
    let mut dst = vec![0u8; 16 * 4];
    render_yuv420_to_rgba(&mut dst, 4, 4, &y, &u, &v, 4, 4);
    for i in 0..16 {
        assert_eq!(rgba_px(&dst, i), (0, 0, 0, 255), "黑色帧@{i}");
    }
}

#[test]
fn red_channel_positive_v() {
    let (y, u, v) = solid_frame(4, 4, 82, 90, 240);
    let mut dst = vec![0u8; 16 * 4];
    render_yuv420_to_rgba(&mut dst, 4, 4, &y, &u, &v, 4, 4);
    let (r, _, b, _) = rgba_px(&dst, 0);
    assert!(r > 200, "红帧 R 应显著 got {r}");
    assert!(b < 100, "红帧 B 应低 got {b}");
}

#[test]
fn downscale_nearest_keeps_solid_color() {
    let (y, u, v) = solid_frame(8, 8, 100, 128, 128);
    let mut dst = vec![0u8; 4 * 4];
    render_yuv420_to_rgba(&mut dst, 2, 2, &y, &u, &v, 8, 8);
    let (r, g, b, _) = rgba_px(&dst, 0);
    let expected = yuv_to_rgb(100, 128, 128);
    assert!(
        dst.chunks(4).all(|p| (p[0], p[1], p[2]) == expected),
        "缩小后纯色不变"
    );
    assert_eq!((r, g, b), expected);
}

#[test]
fn zero_size_is_noop() {
    let (y, u, v) = solid_frame(4, 4, 16, 128, 128);
    let mut dst = vec![0u8; 4 * 4];
    render_yuv420_to_rgba(&mut dst, 0, 0, &y, &u, &v, 4, 4);
    assert_eq!(dst, vec![0u8; 16]);
}

#[test]
fn clamps_out_of_range() {
    assert_eq!(clamp_u8(-5), 0);
    assert_eq!(clamp_u8(300), 255);
    assert_eq!(clamp_u8(128), 128);
}

#[test]
fn colours_follow_the_shifted_sums() {
    for y in [0u8, 16, 82, 128, 235, 255] {
        for u in [0u8, 90, 128, 255] {
            for v in [0u8, 128, 240, 255] {
                let c = i32::from(y) - 16;
                let d = i32::from(u) - 128;
                let e = i32::from(v) - 128;
                let r = ((298 * c + 409 * e + 128) >> 8).clamp(0, 255) as u8;
                let g = ((298 * c - 100 * d - 208 * e + 128) >> 8).clamp(0, 255) as u8;
                let b = ((298 * c + 516 * d + 128) >> 8).clamp(0, 255) as u8;
                assert_eq!(yuv_to_rgb(y, u, v), (r, g, b));
            }
        }
    }
}

#[test]
fn sampling_takes_the_nearest_pixel() {
    let y: Vec<u8> = (0..16).map(|i| 16 + 10 * i as u8).collect();
    let u = vec![128u8; 4];
    let v = vec![128u8; 4];
    let mut dst = vec![7u8; 2 * 2 * 4 + 3];
    render_yuv420_to_rgba(&mut dst, 2, 2, &y, &u, &v, 4, 4);
    for (i, at) in [(0usize, 0usize), (1, 2), (2, 8), (3, 10)] {
        let (r, g, b) = yuv_to_rgb(y[at], 128, 128);
        assert_eq!(rgba_px(&dst, i), (r, g, b, 255));
    }
    assert_eq!(&dst[16..], &[7, 7, 7]);
}

// The decoder.

#[test]
fn h264_codec_id_is_ascii_name() {
    assert_eq!(0x68_32_36_34u32, u32::from_be_bytes(*b"h264"));
    assert_eq!(0x68_32_36_35u32, u32::from_be_bytes(*b"h265"));
    assert_eq!(0x00_61_76_31u32, u32::from_be_bytes([0x00, 0x61, 0x76, 0x31]));
    assert_eq!(video_codec(u32::from_be_bytes(*b"h264")), Ok(VideoCodec::H264));
    assert_eq!(video_codec(u32::from_be_bytes(*b"h265")), Ok(VideoCodec::H265));
    assert_eq!(video_codec(u32::from_be_bytes(*b"\0av1")), Ok(VideoCodec::Av1));
}

#[test]
fn unknown_codec_returns_error() {
    let decoder = video_codec(999999);
    assert!(decoder.is_err(), "未知 codec id 应报错");
    assert_eq!(decoder.unwrap_err(), "不支持的 codec id: 0xf423f");
    assert_eq!(video_codec(0).unwrap_err(), "不支持的 codec id: 0x0");
}

#[test]
fn ascii_codec_ids_are_accepted() {
    assert!(video_codec(0x68_32_36_34).is_ok(), "h264 应被接受");
    assert!(video_codec(0x68_32_36_35).is_ok(), "h265 应被接受");
    assert!(video_codec(0x00_61_76_31).is_ok(), "av1 应被接受");
    assert!(video_codec(27).is_err());
}

#[test]
fn avcc_to_annexb_converts_sps_and_pps() {
    let avcc = [
        0x01, 0x42, 0x00, 0x1E, 0xFF, 0xE1, 0x00, 0x04, 0x67, 0x42, 0x00, 0x1E, 0x01, 0x00, 0x02,
        0x68, 0xCE,
    ];
    let annexb = avcc_to_annexb(&avcc).expect("应能转换");
    assert_eq!(
        annexb,
        vec![
            0x00, 0x00, 0x00, 0x01, 0x67, 0x42, 0x00, 0x1E, 0x00, 0x00, 0x00, 0x01, 0x68, 0xCE,
        ]
    );
}

#[test]
fn avcc_to_annexb_rejects_truncated_data() {
    assert!(avcc_to_annexb(&[0x01, 0x42]).is_none(), "过短应失败");
    let bad = [0x01, 0x42, 0x00, 0x1E, 0xFF, 0xE1, 0x00, 0x10, 0x67];
    assert!(avcc_to_annexb(&bad).is_none());
    assert!(avcc_to_annexb(&[1, 0x42, 0, 0x1E, 0xFF, 0xE1, 0]).is_none());
    assert!(avcc_to_annexb(&[1, 0x42, 0, 0x1E, 0xFF, 0xE1, 0, 1, 0x67]).is_none());
}

#[test]
fn is_annexb_detects_start_code() {
    assert!(is_annexb(&[0x00, 0x00, 0x00, 0x01, 0x67]));
    assert!(!is_annexb(&[0x01, 0x42, 0x00, 0x1E, 0xFF]));
    assert!(!is_annexb(&[0x00, 0x00, 0x00]));
}

#[test]
fn planes_lose_their_padding() {
    assert_eq!(copy_plane(&[1, 2, 9, 3, 4, 9], 3, 2, 2), vec![1, 2, 3, 4]);
    assert_eq!(copy_plane(&[], 3, 0, 2), Vec::<u8>::new());
    let y: [u8; 10] = [1, 2, 3, 4, 0, 5, 6, 7, 8, 0];
    let frame = RawFrame {
        width: 4,
        height: 2,
        format: PixelFormat::Nv12,
        linesize: 5,
        uv_linesize: 4,
        first: &y,
        second: &[10, 20, 11, 21],
        third: &[],
    };
    let d = copy_frame(&frame).unwrap();
    assert_eq!(d.y, vec![1, 2, 3, 4, 5, 6, 7, 8]);
    assert_eq!(d.u, vec![10, 11]);
    assert_eq!(d.v, vec![20, 21]);
    let frame = RawFrame {
        format: PixelFormat::Yuv420p,
        second: &[10, 11],
        third: &[20, 21],
        uv_linesize: 2,
        ..frame
    };
    let d = copy_frame(&frame).unwrap();
    assert_eq!((d.width, d.height), (4, 2));
    assert_eq!((d.u, d.v), (vec![10, 11], vec![20, 21]));
    let frame = RawFrame { format: PixelFormat::Other(-1), ..frame };
    assert_eq!(copy_frame(&frame).unwrap_err(), "不支持的像素格式: -1");
    let frame = RawFrame { width: 0, ..frame };
    assert_eq!(copy_frame(&frame).unwrap_err(), "空帧");
}

fn media(flags: u32, data: Vec<u8>) -> AssembledMedia {
    AssembledMedia { pts: 5, revision: 0, flags, data }
}

#[test]
fn parameter_sets_set_up_or_reset_the_decoder() {
    let stream = vec![0, 0, 0, 1, 0x67];
    match next_job(false, VideoInput::Config(stream.clone())) {
        Job::SetUp { extradata } => assert_eq!(extradata, stream),
        _ => panic!("expected SetUp"),
    }
    match next_job(true, VideoInput::Config(vec![1, 0, 0, 0, 0, 1, 0, 1, 9, 0])) {
        Job::Reset { extradata } => assert_eq!(extradata, vec![0, 0, 0, 1, 9]),
        _ => panic!("expected Reset"),
    }
    match next_job(false, VideoInput::Config(vec![1])) {
        Job::Fail(e) => assert_eq!(e, "config 帧既不是 Annex-B 也无法解析为 avcC"),
        _ => panic!("expected Fail"),
    }
}

#[test]
fn pictures_are_decoded_unless_empty() {
    assert!(matches!(next_job(true, VideoInput::Frame(media(0, vec![]))), Job::Skip));
    match next_job(false, VideoInput::Frame(media(2, vec![1]))) {
        Job::Decode { open, data, pts, keyframe } => {
            assert!(open && keyframe);
            assert_eq!((data, pts), (vec![1], 5));
        }
        _ => panic!("expected Decode"),
    }
    match next_job(true, VideoInput::Frame(media(1, vec![1]))) {
        Job::Fail(e) => assert_eq!(e, "config 帧既不是 Annex-B 也无法解析为 avcC"),
        _ => panic!("expected Fail"),
    }
    match next_job(false, VideoInput::Frame(media(3, vec![0, 0, 0, 1, 4]))) {
        Job::SetUp { extradata } => assert_eq!(extradata, vec![0, 0, 0, 1, 4]),
        _ => panic!("expected SetUp"),
    }
    match next_job(true, VideoInput::Frame(media(1, vec![1, 0, 0, 0, 0, 1, 0, 1, 9, 0]))) {
        Job::Reset { extradata } => assert_eq!(extradata, vec![0, 0, 0, 1, 9]),
        _ => panic!("expected Reset"),
    }
    let texts: Vec<String> = [Stage::Extradata, Stage::Open, Stage::Reset, Stage::Decode]
        .into_iter()
        .map(|s| match failure(s, "e") {
            VideoEvent::Error(t) => t,
            _ => panic!("expected Error"),
        })
        .collect();
    assert_eq!(
        texts,
        vec![
            "设置 extradata 失败: e",
            "打开解码器失败: e",
            "重置解码器失败: e",
            "解码失败: e"
        ]
    );
}

#[test]
fn decoded_picture_is_drawn_at_its_own_size() {
    let (y, u, v) = solid_frame(4, 2, 235, 128, 128);
    let d = DecodedFrame { y, u, v, width: 4, height: 2 };
    assert_eq!(to_rgba(&d), Some(vec![255u8; 32]));
    let d = DecodedFrame { width: 0, ..d };
    assert_eq!(to_rgba(&d), None);
}

// The window.

#[test]
fn cap_keeps_normal_sizes_unchanged() {
    assert_eq!(cap_display(1280, 960), (1280, 960));
    assert_eq!(cap_display(1920, 1080), (1920, 1080));
}

#[test]
fn cap_scales_down_when_area_exceeds_2k() {
    let (w, h) = cap_display(3840, 3840);
    assert!(w as u64 * h as u64 <= 2560u64 * 1440u64);
    let (w2, h2) = cap_display(7680, 4320);
    assert_eq!((w2, h2), (2560, 1440));
}

fn target(w: u32, h: u32, scale: f32) -> (u32, u32) {
    target_display((w as f32 / scale).round() as u32, (h as f32 / scale).round() as u32)
}

#[test]
fn target_always_even_for_h264() {
    assert_eq!(target(2240, 1680, 1.5), (1492, 1120));
    assert_eq!(target(1920, 1080, 1.5), (1280, 720));
    assert_eq!(even_dim(1), 2);
    for (w, h) in [(3, 5), (1000, 1001), (2559, 1441), (7680, 4320)] {
        let (ew, eh) = target(w, h, 1.5);
        assert!(ew % 2 == 0 && eh % 2 == 0, "应偶对齐 got {ew}x{eh}");
    }
}

/// The size, scaled with floating-point numbers.
fn scaled_size(w: u32, h: u32) -> (u32, u32) {
    let (w, h) = (w.max(1), h.max(1));
    let scale = 1.0f64
        .min(2560.0 / w as f64)
        .min(2560.0 / h as f64)
        .min((3_686_400.0 / (w as u64 * h as u64) as f64).sqrt());
    if scale >= 1.0 {
        return (w, h);
    }
    let side = |n: u32| (n as f64 * scale).floor().max(1.0) as u32;
    (side(w), side(h))
}

#[test]
fn capped_size_is_the_scaled_one() {
    for (w, h) in [(3840u32, 3840u32), (5000, 10), (10, 5000), (2561, 2561), (4000, 3000), (1, 9999)] {
        assert_eq!(cap_display(w, h), scaled_size(w, h), "{w}x{h}");
    }
    assert_eq!(cap_display(0, 0), (1, 1));
    assert_eq!(cap_display(3840, 3840), (1920, 1920));
    assert_eq!(cap_display(4183, 1000), (2559, 612));
    assert_eq!(cap_display(4980, 1), (2559, 1));
    assert_eq!(cap_display(u32::MAX, u32::MAX), scaled_size(u32::MAX, u32::MAX));
    assert_eq!(cap_display(u32::MAX, 1), scaled_size(u32::MAX, 1));
}

#[test]
fn many_capped_sizes_are_the_scaled_ones() {
    let mut n = 88_172_645_463_325_252u64;
    for i in 0..4000 {
        n ^= n << 13;
        n ^= n >> 7;
        n ^= n << 17;
        let (w, h) = match i % 3 {
            0 => ((n % 6000) as u32, (n / 6000 % 6000) as u32),
            1 => (n as u32, (n >> 32) as u32),
            _ => (n as u32, (n >> 32) as u32 % 3000),
        };
        assert_eq!(cap_display(w, h), scaled_size(w, h), "{w}x{h}");
    }
}

const MS: u64 = 1_000_000;

fn window() -> ViewerApp {
    ViewerApp::new("com.pkg", 7, 0)
}

fn show(w: &mut ViewerApp) {
    w.drain_video(VideoEvent::Frame { width: 4, height: 2, rgba: vec![0; 32] });
}

#[test]
fn session_events_go_to_the_decoder_or_end_the_window() {
    let mut w = window();
    match w.drain_session(Event::Video(media(0, vec![1, 2, 3]))) {
        Some(VideoInput::Frame(f)) => assert_eq!(f.data, vec![1, 2, 3]),
        _ => panic!("expected Frame"),
    }
    assert_eq!((w.hud().seen, w.hud().rx_bytes), (1, 3));
    let config = |stream: u32| {
        Event::Control(CtrlMsg {
            msg: Some(Msg::MediaConfig(MediaConfig { stream, revision: 0, data: vec![9] })),
        })
    };
    assert!(matches!(w.drain_session(config(2)), Some(VideoInput::Config(_))));
    assert!(w.drain_session(config(1)).is_none());
    assert!(!w.should_exit());
    assert!(w.drain_session(Event::Closed).is_none());
    assert!(w.should_exit());
    assert_eq!(w.last_error().unwrap(), "会话已关闭（设备断开或 server 退出）");
    let mut w = window();
    w.drain_session(Event::Error("e".into()));
    assert_eq!(w.last_error().unwrap(), "e");
    assert!(w.should_exit());
}

#[test]
fn application_is_started_anew_once() {
    let mut w = window();
    assert!(w.watchdog_no_frame(7_999 * MS).is_none());
    match w.watchdog_no_frame(8_000 * MS).unwrap().msg {
        Some(Msg::StartApp(s)) => assert_eq!((s.display_id, s.package.as_str()), (7, "com.pkg")),
        _ => panic!("expected StartApp"),
    }
    assert!(w.last_error().unwrap().starts_with("应用 8s 未出首帧"));
    assert!(w.watchdog_no_frame(17_999 * MS).is_none());
    assert!(w.last_error().unwrap().starts_with("应用 8s 未出首帧"));
    assert!(w.watchdog_no_frame(18_000 * MS).is_none());
    assert!(w.last_error().unwrap().starts_with("应用启动后 18s"));
    let mut w = window();
    show(&mut w);
    assert!(w.watchdog_no_frame(99_000 * MS).is_none());
    w.drain_video(VideoEvent::Closed);
    assert_eq!(w.last_error().unwrap(), "视频流已结束（设备断开或应用退出）");
}

#[test]
fn panel_counts_over_a_quarter_second() {
    let mut w = window();
    w.drain_session(Event::Video(media(0, vec![0; 10])));
    w.tick_upload_counter();
    assert!(w.tick_hud(249 * MS, 3).is_none());
    let s = w.tick_hud(250 * MS, 3).unwrap();
    assert_eq!((s.elapsed, s.rx_bytes, s.seen, s.disp), (250 * MS, 10, 1, 1));
    assert_eq!((s.lost, s.lost_total), (3, 3));
    let s = w.tick_hud(500 * MS, 2).unwrap();
    assert_eq!((s.seen, s.lost, s.lost_total), (0, 0, 2));
}

#[test]
fn pictures_are_not_drawn_too_often() {
    let mut w = window();
    assert!(!w.upload_texture(100 * MS));
    show(&mut w);
    assert!(!w.upload_texture(15 * MS));
    assert!(w.upload_texture(16 * MS));
    assert!(!w.upload_texture(31 * MS));
    assert_eq!(w.latest().unwrap().rgba.len(), 32);
}

fn touch_of(m: Option<CtrlMsg>) -> Option<(u32, i32, i32)> {
    m.map(|m| match m.msg {
        Some(Msg::InjectTouch(t)) => {
            assert_eq!((t.screen_width, t.screen_height, t.display_id), (4, 2, 7));
            assert_eq!(f32::from_bits(t.pressure), 1.0);
            assert_eq!(t.pointer_id, POINTER_ID_MOUSE);
            (t.action, t.x, t.y)
        }
        _ => panic!("expected InjectTouch"),
    })
}

#[test]
fn pointer_touches_moves_and_lifts() {
    let mut w = window();
    assert!(w.handle_touch(true, Pointer::At(1, 1), None).is_none());
    let mut w = window();
    show(&mut w);
    assert_eq!(touch_of(w.handle_touch(false, Pointer::At(1, 1), None)), None);
    assert_eq!(touch_of(w.handle_touch(true, Pointer::At(1, 1), None)), Some((0, 1, 1)));
    assert_eq!(touch_of(w.handle_touch(true, Pointer::At(2, 1), None)), Some((2, 2, 1)));
    assert_eq!(touch_of(w.handle_touch(true, Pointer::Outside, None)), None);
    assert_eq!(touch_of(w.handle_touch(false, Pointer::Unknown, Some((2, 0)))), Some((1, 2, 0)));
    assert_eq!(touch_of(w.handle_touch(false, Pointer::At(1, 1), None)), None);
}

#[test]
fn wheel_and_second_button() {
    let mut w = window();
    assert!(w.scroll(1, 1, 8.0f32.to_bits()).is_none());
    show(&mut w);
    match w.scroll(1, 2, 8.0f32.to_bits()).unwrap().msg {
        Some(Msg::InjectScroll(s)) => {
            assert_eq!((s.x, s.y, f32::from_bits(s.vscroll), s.hscroll), (1, 2, 8.0, 0))
        }
        _ => panic!("expected InjectScroll"),
    }
    assert_eq!(w.back(false, false).len(), 0);
    let both = w.back(true, true);
    let actions: Vec<u32> = both
        .into_iter()
        .map(|m| match m.msg {
            Some(Msg::BackOrScreenOn(b)) => b.action,
            _ => panic!("expected BackOrScreenOn"),
        })
        .collect();
    assert_eq!(actions, vec![0, 1]);
}

#[test]
fn text_is_passed_on_without_modifiers() {
    let w = window();
    assert!(w.typed("  ", false).is_none());
    assert!(w.typed("a", true).is_none());
    match w.typed(" 你好 ", false).unwrap().msg {
        Some(Msg::InjectText(t)) => assert_eq!(t.text, "你好"),
        _ => panic!("expected InjectText"),
    }
}

#[test]
fn keys_go_up_after_they_went_down() {
    let mut w = window();
    assert!(w.key(Key::Tab, false, true).is_none());
    match w.key(Key::Tab, true, false).unwrap().msg {
        Some(Msg::InjectKeycode(k)) => assert_eq!((k.action, k.keycode), (0, 61)),
        _ => panic!("expected InjectKeycode"),
    }
    match w.key(Key::Tab, false, true).unwrap().msg {
        Some(Msg::InjectKeycode(k)) => assert_eq!((k.action, k.keycode), (1, 61)),
        _ => panic!("expected InjectKeycode"),
    }
    assert!(w.key(Key::Tab, false, true).is_none());
    assert!(w.key(Key::Other, true, false).is_none());
}

#[test]
fn size_is_asked_for_when_it_no_longer_changes() {
    let mut w = window();
    assert!(w.poll_window_size(Some((8, 8)), 500 * MS).is_none());
    show(&mut w);
    let ask = |w: &mut ViewerApp, size: Option<(u32, u32)>, at: u64| {
        w.poll_window_size(size, at * MS).map(|m| match m.msg {
            Some(Msg::ResizeDisplay(r)) => (r.display_id, r.width, r.height),
            _ => panic!("expected ResizeDisplay"),
        })
    };
    assert_eq!(ask(&mut w, Some((8, 8)), 999), None);
    assert_eq!(ask(&mut w, Some((8, 8)), 1000), None);
    assert_eq!(ask(&mut w, Some((8, 8)), 1500), None);
    assert_eq!(ask(&mut w, None, 2000), None);
    assert_eq!(ask(&mut w, Some((8, 8)), 2500), Some((7, 8, 8)));
    w.resize_sent((8, 8));
    assert_eq!(w.last_sent(), (8, 8));
    for t in [3000, 3500, 4000, 4500] {
        assert_eq!(ask(&mut w, Some((8, 8)), t), None);
    }
    let fresh = ResizeState::new(3);
    assert_eq!((fresh.last_check, fresh.observed, fresh.stable), (3, (0, 0), 0));
}
