use kulua::audio_player::AudioCodec;
use kulua::proto::codec::AssembledMedia;
use kulua::proto::messages::{ClipboardChanged, CtrlMsg, Frame, FrameKind, HelloAck, Msg, Payload};
use kulua::proto::session::{
    ConnectOpts, Event, Handshake, HandshakeStep, Inbound, MediaErrors, RecvFault, UdpSession,
};
use kulua::session::audio::{AudioPlan, AudioTarget};
use kulua::session::deploy::{DeployPhase, DeployStep, Deployment};
use kulua::session::playback::{audio_codec_name, codec_of, PlayStep, Playback};
use kulua::session::runner::{AudioEvent, ClipInput, Phase, Request, SessionRun};
use kulua::session::stream::{build_clipboard_frame, device_name, next_message, StreamStep};
use kulua::settings::{AppConfig, ScrcpyParams};
use kulua::types::{Device, DeviceIdentity, DeviceState};

fn device(name: &str) -> Device {
    Device {
        uuid: 1,
        id: "i".into(),
        serial: "10.0.0.2:5555".into(),
        state: DeviceState::Device,
        name: name.into(),
        identity: DeviceIdentity::default(),
    }
}

fn params() -> ScrcpyParams {
    ScrcpyParams::from(&AppConfig::default())
}

// Coming up.

#[test]
fn session_comes_up_step_by_step() {
    let (mut d, step) = Deployment::new(&device(""), 27183, params(), true);
    match step {
        DeployStep::KillStale(args) => assert!(args[3].contains("scid=4b4c6a2f")),
        _ => panic!("expected KillStale"),
    }
    assert!(matches!(d.on_killed(), DeployStep::CompareJar));
    assert!(matches!(d.on_compared(true), DeployStep::Push));
    match d.on_pushed(true) {
        DeployStep::Spawn(args) => {
            assert!(args.contains(&"scid=4b4c6a2f".to_string()));
            assert!(args.contains(&"port=27183".to_string()));
        }
        _ => panic!("expected Spawn"),
    }
    assert!(matches!(d.on_spawned(true), DeployStep::AskName(_)));
    let (name, step) = d.on_name(Some(b" Pixel 8 \n"));
    assert_eq!(name.as_deref(), Some("Pixel 8"));
    assert!(matches!(step, DeployStep::Resolve));
    match d.on_resolved(Some("10.0.0.2:27183".into())) {
        DeployStep::Connect { addr, scid, opts } => {
            assert_eq!((addr.as_str(), scid.as_str()), ("10.0.0.2:27183", "4b4c6a2f"));
            assert!(opts.audio_link && opts.hello_audio && !opts.video);
        }
        _ => panic!("expected Connect"),
    }
    assert!(matches!(d.on_connected(true), DeployStep::Ready));
    assert_eq!(d.phase(), DeployPhase::Up);
}

#[test]
fn session_that_fails_stops_a_server_that_was_started() {
    let (mut d, _) = Deployment::new(&device("known"), 1, params(), false);
    d.on_killed();
    assert!(matches!(d.on_compared(false), DeployStep::Spawn(_)));
    assert!(matches!(d.on_spawned(true), DeployStep::Resolve));
    assert!(matches!(d.on_resolved(None), DeployStep::Fail { stop_server: true }));
    assert_eq!(d.phase(), DeployPhase::Failed);
    let (mut d, _) = Deployment::new(&device("known"), 1, params(), false);
    d.on_killed();
    d.on_compared(true);
    assert!(matches!(d.on_pushed(false), DeployStep::Fail { stop_server: false }));
}

// Running.

fn clip(text: &str) -> Option<Event> {
    Some(Event::Control(CtrlMsg {
        msg: Some(Msg::ClipboardChanged(ClipboardChanged { text: text.into() })),
    }))
}

#[test]
fn clipboard_goes_both_ways() {
    let (mut run, _) = SessionRun::new(AudioTarget::new(false, 0), 0);
    match run.on_event(clip("a"), true).request {
        Some(Request::Forward(t)) => assert_eq!(t, "a"),
        _ => panic!("expected Forward"),
    }
    assert_eq!(run.phase(), Phase::Forwarding);
    run.on_sent(true);
    assert_eq!(run.phase(), Phase::Waiting);
    assert!(run.on_event(clip("b"), false).request.is_none());
    match run.on_clip(ClipInput::Text("c".into()), true).request {
        Some(Request::Clipboard(m)) => match m.msg {
            Some(Msg::SetClipboard(s)) => assert_eq!(s.text, "c"),
            _ => panic!("expected SetClipboard"),
        },
        _ => panic!("expected Clipboard"),
    }
    run.on_sent(true);
    assert!(!run.on_clip(ClipInput::Lagged(2), true).exit);
    assert!(run.on_clip(ClipInput::Closed, true).exit);
    assert_eq!(run.phase(), Phase::Ended);
}

#[test]
fn audio_plan_is_sent_when_the_wish_changes() {
    let (mut run, _) = SessionRun::new(AudioTarget::new(false, 0), 0);
    let before = run.plan();
    let r = run.on_tick(1_000_000_000, AudioTarget::new(true, 1), 0);
    match r.request {
        Some(Request::Audio(issue)) => {
            assert!(issue.plan.enabled);
            assert_eq!(issue.plan.codec, 1);
            assert_eq!(issue.plan.revision, before.revision + 1);
        }
        _ => panic!("expected Audio"),
    }
    run.on_sent(true);
    assert!(run.plan().enabled);
    assert!(run.on_stop().exit);
}

// Playing.

fn audio(revision: u64, flags: u32, data: Vec<u8>) -> AudioEvent {
    AudioEvent::Frame { revision, frame: AssembledMedia { pts: 0, revision, flags, data } }
}

#[test]
fn frames_wait_for_the_parameters_of_their_codec() {
    let plan = AudioPlan { enabled: true, codec: 3, revision: 4 };
    let mut p = Playback::new(plan, 80, 0);
    assert!(matches!(p.on_event(audio(3, 0, vec![1])), PlayStep::Drop));
    assert!(matches!(p.on_event(audio(4, 0, vec![1])), PlayStep::AwaitConfig { warn: true }));
    assert!(matches!(p.on_event(audio(4, 0, vec![1])), PlayStep::AwaitConfig { warn: false }));
    let config = AudioEvent::Config { revision: 4, data: vec![7] };
    assert!(matches!(p.on_event(config), PlayStep::Discard));
    match p.on_event(audio(4, 0, vec![1])) {
        PlayStep::Build { codec, config, data } => {
            assert_eq!(codec, AudioCodec::Flac);
            assert_eq!((config, data), (Some(vec![7]), vec![1]));
        }
        _ => panic!("expected Build"),
    }
    p.on_built(true);
    assert!(matches!(p.on_event(audio(4, 0, vec![2])), PlayStep::Play { .. }));
    assert_eq!(p.before_frame(70, 0).volume, Some(70));
    assert_eq!(p.before_frame(70, 0).volume, None);
    let done = p.after_frame(true, 33, 1);
    assert!(done.played);
    assert_eq!(done.latency, Some(33));
    assert!(p.on_plan(AudioPlan { enabled: false, codec: 3, revision: 5 }));
    assert_eq!(codec_of(9), AudioCodec::Raw);
    assert_eq!(audio_codec_name(0x6f707573), "OPUS");
    assert_eq!(audio_codec_name(1), "UNKNOWN");
}

// The stream over TCP.

#[test]
fn stream_is_read_message_by_message() {
    assert!(matches!(next_message(&[], true), StreamStep::Need(1)));
    assert!(matches!(next_message(&[0, 0], true), StreamStep::Need(5)));
    assert!(matches!(next_message(&[0, 0, 0, 0, 2, b'h'], true), StreamStep::Need(7)));
    match next_message(&[0, 0, 0, 0, 2, b'h', b'i', 9], true) {
        StreamStep::Clip { text, used } => assert_eq!((text.as_deref(), used), (Some("hi"), 7)),
        _ => panic!("expected Clip"),
    }
    match next_message(&[0, 0, 0, 0, 1, b'h'], false) {
        StreamStep::Clip { text, used } => assert_eq!((text, used), (None, 6)),
        _ => panic!("expected Clip"),
    }
    match next_message(&[0, 0, 0, 0, 1, 0xFF], true) {
        StreamStep::Clip { text, .. } => assert_eq!(text, None),
        _ => panic!("expected Clip"),
    }
    match next_message(&[0x0A, 0, 0, 0, 0, 0, 0, 1, 0, 1, 0, 0, 0, 42], true) {
        StreamStep::Audio { pts, data, used } => {
            assert_eq!((pts, data, used), (256, vec![42], 14))
        }
        _ => panic!("expected Audio"),
    }
    assert!(matches!(
        next_message(&[0x0B, 0, 0, 0, 0, 0, 0, 0, 0, 1, 0, 8, 0], true),
        StreamStep::Stop
    ));
    assert!(matches!(next_message(&[7], true), StreamStep::Dump));
}

#[test]
fn name_and_clipboard_on_the_stream() {
    let mut buf = [0u8; 64];
    assert_eq!(device_name(&buf), None);
    buf[..5].copy_from_slice(b"Pixel");
    assert_eq!(device_name(&buf).as_deref(), Some("Pixel"));
    assert_eq!(device_name(&[b'x'; 64]).unwrap().len(), 64);
    let frame = build_clipboard_frame("hé");
    assert_eq!(frame[0], 0x09);
    assert_eq!(&frame[1..10], &[0; 9]);
    assert_eq!(&frame[10..14], &[0, 0, 0, 3]);
    assert_eq!(&frame[14..], "hé".as_bytes());
}

// The session over UDP.

const S: u64 = 1_000_000_000;

fn opts() -> ConnectOpts {
    ConnectOpts { audio_link: true, hello_audio: false, video: false }
}

fn hello_ack() -> Frame {
    Frame {
        stream: Some(kulua::proto::messages::Stream::Ctrl),
        kind: Some(FrameKind::HelloAck),
        seq: 0,
        msg_id: 0,
        frag: 0,
        frag_total: 0,
        payload: Some(Payload::HelloAck(HelloAck {
            client_id: 9,
            scid: "4b4c6a2f".into(),
            audio_codec: 0,
            video_codec: 0,
        })),
    }
}

#[test]
fn handshake_connects_or_times_out() {
    let mut s = UdpSession::new("4b4c6a2f", opts(), 0);
    match s.hello().payload {
        Some(Payload::Hello(h)) => assert_eq!((h.scid.as_str(), h.audio), ("4b4c6a2f", false)),
        _ => panic!("expected Hello"),
    }
    assert!(!s.is_connected());
    let got = s.dispatch(&hello_ack());
    assert!(got.iter().any(|i| matches!(i, Inbound::Connected)));
    assert!(s.is_connected());
    assert_eq!(s.hello_ack().unwrap().client_id, 9);
    let mut h = Handshake::new(0);
    let deadline = h.deadline;
    assert!(matches!(h.step(false, 0, "p"), HandshakeStep::Greet { report: None }));
    assert!(matches!(h.step(true, deadline + 1, "p"), HandshakeStep::Done));
    match h.step(false, deadline + 1, "p") {
        HandshakeStep::TimedOut(e) => assert!(e.starts_with("HELLO 握手超时（p）")),
        _ => panic!("expected TimedOut"),
    }
}

#[test]
fn closed_session_says_goodbye_and_stays_closed() {
    let mut s = UdpSession::new("x", opts(), 0);
    s.dispatch(&hello_ack());
    assert_eq!(s.send_ctrl(&[1, 2, 3], S).len(), 1);
    assert_eq!(s.pending(), 1);
    let bye = s.close();
    assert_eq!(bye.kind, Some(FrameKind::Bye));
    assert!(s.is_closed());
    let mut t = UdpSession::new("x", opts(), 0);
    let (goes_on, told) = t.on_recv_fault(&RecvFault::Other("boom".into()));
    assert!(!goes_on);
    assert!(matches!(told, Some(Inbound::Error(_))));
    let mut t = UdpSession::new("x", opts(), 0);
    let (goes_on, told) = t.on_recv_fault(&RecvFault::TimedOut);
    assert!(goes_on && told.is_none());
    let mut e = MediaErrors::new(0);
    assert!(e.note(1));
    assert!(!e.note(2));
    assert!(e.note(6 * S));
    e.clear();
    assert!(e.note(6 * S + 1));
}

#[test]
fn phone_that_says_goodbye_ends_the_session() {
    let mut s = UdpSession::new("x", opts(), 0);
    s.dispatch(&hello_ack());
    let bye = Frame { kind: Some(FrameKind::Bye), payload: None, ..hello_ack() };
    let got = s.dispatch(&bye);
    assert!(got.iter().any(|i| matches!(i, Inbound::Closed)));
}

fn media(client_id: u32, seq: u32, data: &[u8]) -> Vec<Vec<u8>> {
    kulua::proto::codec::media_datagrams(client_id, seq, seq, 5, 1, 0, data)
}

#[test]
fn media_is_taken_after_the_handshake_only() {
    let mut s = UdpSession::new("x", ConnectOpts { video: true, ..opts() }, 0);
    let frame: Vec<u8> = (0..3000u32).map(|i| (i % 255) as u8).collect();
    let parts = media(9, 1, &frame);
    assert!(parts.len() > 1);
    assert!(s.media_fits(true, &parts[0]));
    assert!(s.on_media(true, &parts[0], 1).is_none());
    assert!(s.tick(S).open_video.is_none());
    s.dispatch(&hello_ack());
    let t = s.tick(2 * S);
    assert_eq!(t.open_video.as_deref(), Some(kulua::proto::session::encode_open(9).as_slice()));
    assert!(t.open_audio.is_some());
    assert!(s.on_media(true, &media(8, 1, &frame)[0], 2 * S).is_none());
    assert!(s.tick(3 * S).open_video.is_some());
    let mut whole = None;
    for p in &parts {
        assert!(whole.is_none());
        whole = s.on_media(true, p, 3 * S);
    }
    match whole {
        Some(Inbound::Video(m)) => assert_eq!(m.data, frame),
        _ => panic!("expected Video"),
    }
    let t = s.tick(4 * S);
    assert!(t.open_video.is_none());
    assert!(t.open_audio.is_some());
}

#[test]
fn what_comes_in_is_passed_on() {
    assert!(matches!(Inbound::Connected.into_event(None), Some(Event::Connected)));
    assert!(Inbound::Control(vec![1]).into_event(None).is_none());
    let m = CtrlMsg { msg: Some(Msg::ClipboardChanged(ClipboardChanged { text: "t".into() })) };
    assert!(matches!(
        Inbound::Control(vec![1]).into_event(Some(m)),
        Some(Event::Control(_))
    ));
    assert!(matches!(Inbound::Closed.into_event(None), Some(Event::Closed)));
}

#[test]
fn ports_of_the_media_streams_follow_the_control_port() {
    assert_eq!(kulua::proto::session::audio_port(27183), 27185);
    assert_eq!(kulua::proto::session::video_port(27183), 27184);
}

#[test]
fn plan_for_audio_is_sent_as_it_is() {
    let plan = AudioPlan { revision: 4, enabled: true, codec: 2 };
    match kulua::session::runner::send_audio(&plan).msg {
        Some(Msg::SetAudio(m)) => assert_eq!((m.enabled, m.codec, m.revision), (true, 2, 4)),
        _ => panic!("expected SetAudio"),
    }
}
