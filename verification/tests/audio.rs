use kulua::audio_player::{decode_raw, AudioCodec, CHANNELS, SAMPLE_RATE};
use kulua::session::audio::{
    AudioTarget, Link, Progress, Reason, ACK_TIMEOUT, AUDIO_STATE_FAILED, AUDIO_STATE_OFF,
    AUDIO_STATE_ON, AUDIO_STATE_STARTING, AUDIO_STATE_STOPPING, MAX_RETRIES, STALL_RETRY_INTERVAL,
    STALL_TIMEOUT,
};

const AAC: u8 = 2;
const CODEC_ID: u32 = 0x0061_6163;

fn link(enabled: bool) -> (Link, u64) {
    let now: u64 = 1_000_000_000;
    (Link::new(AudioTarget::new(enabled, AAC), now), now)
}

#[test]
fn target_change_issues_then_ack_settles() {
    let (mut link, t0) = link(true);
    assert_eq!(link.plan().revision, 0, "会话初始代次为 0");
    assert_eq!(link.runtime().state, AUDIO_STATE_STARTING);

    let tick = link.drive(t0, AudioTarget::new(false, AAC), Progress::default());
    let issue = tick.issue.expect("关闭目标应下发");
    assert_eq!(issue.reason, Reason::Target);
    assert_eq!(issue.plan.revision, 1);
    assert!(!issue.plan.enabled);
    assert_eq!(link.runtime().state, AUDIO_STATE_STOPPING);

    assert!(link.on_state(1, false, 0, ""));
    assert_eq!(link.runtime().state, AUDIO_STATE_OFF);
    assert!(
        link.drive(t0, AudioTarget::new(false, AAC), Progress::default())
            .issue
            .is_none()
    );
}

#[test]
fn ack_timeout_retries_with_new_revision_then_fails() {
    let (mut link, t0) = link(false);
    let target = AudioTarget::new(true, AAC);
    let mut now = t0;

    let first = link.drive(now, target, Progress::default()).issue.unwrap();
    assert_eq!(first.plan.revision, 1, "首次下发 rev=1");

    for attempt in 1..=MAX_RETRIES {
        now += ACK_TIMEOUT - 1_000_000;
        assert!(
            link.drive(now, target, Progress::default()).issue.is_none(),
            "未到超时不应重发"
        );
        now += 1_000_000;
        let issue = link
            .drive(now, target, Progress::default())
            .issue
            .expect("超时应重试");
        assert_eq!(issue.reason, Reason::Retry);
        assert_eq!(
            issue.plan.revision,
            1 + u64::from(attempt),
            "重试必须换代次"
        );
        assert_eq!(link.runtime().revision, 1 + u64::from(attempt));
    }

    now += ACK_TIMEOUT;
    let tick = link.drive(now, target, Progress::default());
    assert!(tick.issue.is_none(), "超过重试上限不得继续刷命令");
    assert_eq!(link.runtime().state, AUDIO_STATE_FAILED);
    assert!(link.runtime().error.contains("未确认"));
}

#[test]
fn stale_ack_is_ignored() {
    let (mut link, t0) = link(true);
    link.drive(t0, AudioTarget::new(true, 1), Progress::default());
    assert!(link.on_state(1, true, CODEC_ID, ""));
    assert_eq!(link.runtime().state, AUDIO_STATE_ON);

    link.drive(t0, AudioTarget::new(true, AAC), Progress::default()); // rev=2
    assert!(link.on_state(2, true, CODEC_ID, ""));

    assert!(!link.on_state(1, false, 0, "采集失败"));
    assert_eq!(link.runtime().state, AUDIO_STATE_ON);
    assert!(link.runtime().error.is_empty());

    assert!(link.on_state(2, false, 0, "编码器不可用"));
    assert_eq!(link.runtime().state, AUDIO_STATE_FAILED);
    assert_eq!(link.runtime().error, "编码器不可用");
}

#[test]
fn failure_is_visible_and_recovers_with_frames() {
    let (mut link, t0) = link(true);
    assert!(link.on_state(0, false, 0, "AudioRecord 初始化失败"));
    assert_eq!(link.runtime().state, AUDIO_STATE_FAILED);
    assert_eq!(link.runtime().error, "AudioRecord 初始化失败");

    let tick = link.drive(t0, AudioTarget::new(true, AAC), Progress { frames: 1 });
    assert!(tick.recovered, "有帧在流即视为恢复");
    assert_eq!(link.runtime().state, AUDIO_STATE_ON);
    assert!(link.runtime().error.is_empty());
}

#[test]
fn stall_flags_then_self_heals_at_fixed_interval() {
    let (mut link, t0) = link(true);
    assert!(link.on_state(0, true, CODEC_ID, ""));
    assert_eq!(link.runtime().state, AUDIO_STATE_ON);

    let tick = link.drive(
        t0 + STALL_TIMEOUT,
        AudioTarget::new(true, AAC),
        Progress { frames: 0 },
    );
    assert!(tick.stalled);
    assert_eq!(link.runtime().state, AUDIO_STATE_FAILED);
    assert_eq!(link.runtime().error, "音频帧断流");

    assert!(
        link.poll_stall_retry(
            t0 + STALL_TIMEOUT + STALL_RETRY_INTERVAL - 1_000_000_000
        )
        .is_none()
    );
    let issue = link
        .poll_stall_retry(t0 + STALL_TIMEOUT + STALL_RETRY_INTERVAL)
        .expect("到点应自救");
    assert_eq!(issue.reason, Reason::Stall);
    assert_eq!(issue.plan.revision, 1);
    assert_eq!(link.runtime().state, AUDIO_STATE_STARTING);

    let tick = link.drive(
        t0 + STALL_TIMEOUT + STALL_RETRY_INTERVAL,
        AudioTarget::new(true, AAC),
        Progress { frames: 7 },
    );
    assert!(tick.recovered);
    assert_eq!(link.runtime().state, AUDIO_STATE_ON);
}

#[test]
fn frames_during_disable_must_not_resurrect_link() {
    let (mut link, t0) = link(true);
    assert!(link.on_state(0, true, CODEC_ID, ""));
    assert_eq!(link.runtime().state, AUDIO_STATE_ON);

    let issue = link
        .drive(t0, AudioTarget::new(false, AAC), Progress::default())
        .issue
        .expect("关闭应下发");
    assert!(link.on_state(issue.plan.revision, false, 0, ""));
    assert_eq!(link.runtime().state, AUDIO_STATE_OFF);

    let tick = link.drive(t0, AudioTarget::new(false, AAC), Progress { frames: 5 });
    assert!(!tick.recovered, "关闭中帧计数前进不算恢复");
    assert_eq!(link.runtime().state, AUDIO_STATE_OFF);

    let tick = link.drive(
        t0 + STALL_TIMEOUT * 5,
        AudioTarget::new(false, AAC),
        Progress { frames: 5 },
    );
    assert!(!tick.stalled, "关闭状态不得判断流");
    assert_eq!(link.runtime().state, AUDIO_STATE_OFF);
    assert!(link.runtime().error.is_empty());
}

#[test]
fn disabled_link_never_reports_stall() {
    let (mut link, t0) = link(true);
    assert!(link.on_state(0, true, CODEC_ID, ""));
    link.drive(t0, AudioTarget::new(false, AAC), Progress::default());
    let tick = link.drive(
        t0 + STALL_TIMEOUT * 10,
        AudioTarget::new(false, AAC),
        Progress { frames: 0 },
    );
    assert!(!tick.stalled);
    assert!(link.poll_stall_retry(t0 + STALL_TIMEOUT * 20).is_none());
}

#[test]
fn latest_target_wins() {
    let (mut link, t0) = link(true);
    let issue = link
        .drive(t0, AudioTarget::new(false, AAC), Progress::default())
        .issue
        .unwrap();
    assert!(!issue.plan.enabled, "只下发最终目标");
    assert_eq!(issue.plan.revision, 1, "一次变更只占一个代次");
}

#[test]
fn codec_id_mapping() {
    assert_eq!(
        AudioCodec::from_codec_id(0x6f707573),
        Some(AudioCodec::Opus)
    );
    assert_eq!(AudioCodec::from_codec_id(0x00616163), Some(AudioCodec::Aac));
    assert_eq!(
        AudioCodec::from_codec_id(0x666c6163),
        Some(AudioCodec::Flac)
    );
    assert_eq!(AudioCodec::from_codec_id(0x00726177), Some(AudioCodec::Raw));
    assert_eq!(AudioCodec::from_codec_id(0x12345678), None);
}

#[test]
fn codec_from_name_and_handshake_byte() {
    assert_eq!(AudioCodec::from_name("opus"), AudioCodec::Opus);
    assert_eq!(AudioCodec::from_name("aac"), AudioCodec::Aac);
    assert_eq!(AudioCodec::from_name("flac"), AudioCodec::Flac);
    assert_eq!(AudioCodec::from_name("raw"), AudioCodec::Raw);
    assert_eq!(
        AudioCodec::from_name("bogus"),
        AudioCodec::Raw,
        "无效名回退 raw"
    );
    assert_eq!(AudioCodec::Raw.handshake_byte(), 0);
    assert_eq!(AudioCodec::Opus.handshake_byte(), 1);
    assert_eq!(AudioCodec::Aac.handshake_byte(), 2);
    assert_eq!(AudioCodec::Flac.handshake_byte(), 3);
}

#[test]
fn codec_name_matches_scrcpy_option() {
    assert_eq!(AudioCodec::Opus.name(), "opus");
    assert_eq!(AudioCodec::Aac.name(), "aac");
    assert_eq!(AudioCodec::Flac.name(), "flac");
    assert_eq!(AudioCodec::Raw.name(), "raw");
}

#[test]
fn decode_raw_converts_s16le() {
    let data = [0xe8, 0x03, 0x18, 0xfc];
    let decoded = decode_raw(&data);
    assert_eq!(decoded.len(), 2);
    assert!((f32::from(decoded[0]) / 32768.0 - (1000.0 / 32768.0)).abs() < 1e-6);
    assert!((f32::from(decoded[1]) / 32768.0 - (-1000.0 / 32768.0)).abs() < 1e-6);
    assert_eq!(CHANNELS, 2);
    assert_eq!(SAMPLE_RATE, 48_000);
}

#[test]
fn stall_is_answered_three_times() {
    let (mut link, t0) = link(true);
    assert!(link.on_state(0, true, CODEC_ID, ""));
    let mut now = t0 + STALL_TIMEOUT;
    let target = AudioTarget::new(true, AAC);
    assert!(link.drive(now, target, Progress { frames: 0 }).stalled);
    for n in 1..4u64 {
        assert!(link.poll_stall_retry(now + STALL_RETRY_INTERVAL - 1).is_none());
        now += STALL_RETRY_INTERVAL;
        let plan = link.poll_stall_retry(now).unwrap().plan;
        assert_eq!((plan.revision, link.plan()), (n, plan));
        assert_eq!(link.runtime().revision, n);
        assert!(!plan.accepts(n - 1) && plan.accepts(n));
        assert!(link.on_state(n, true, CODEC_ID, ""));
        let tick = link.drive(now + STALL_TIMEOUT, target, Progress { frames: 0 });
        assert!(!tick.stalled && tick.issue.is_none());
    }
    assert!(link.poll_stall_retry(now + 10 * STALL_RETRY_INTERVAL).is_none());
}

#[test]
fn refused_plan_is_not_sent_again() {
    let (mut link, t0) = link(true);
    let off = AudioTarget::new(false, AAC);
    let issue = link.drive(t0, off, Progress::default()).issue.unwrap();
    assert!(link.on_state(issue.plan.revision, false, 0, "busy"));
    for k in 1..20u64 {
        let tick = link.drive(t0 + k * ACK_TIMEOUT, off, Progress { frames: k });
        assert!(tick.issue.is_none() && !tick.recovered && !tick.stalled);
    }
    assert_eq!(link.runtime().state, AUDIO_STATE_FAILED);
}
