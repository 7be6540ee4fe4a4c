use kulua::scrcpy::{
    build_scid_kill_script, scid_for_port, scid_hex, serial_ip, SCID_PREFIX,
};
use kulua::settings::{AppConfig, ScrcpyParams};

#[test]
fn scid_prefix_is_kl_marker() {
    assert_eq!(SCID_PREFIX, 0x4B4C_0000);
}

#[test]
fn scid_is_deterministic_from_port() {
    // 27183 = 0x6A2F
    assert_eq!(scid_for_port(27183), 0x4B4C_6A2F);
    assert_eq!(scid_for_port(0), SCID_PREFIX);
    assert_eq!(scid_for_port(0xFFFF), SCID_PREFIX | 0xFFFF);
    assert!(scid_for_port(u16::MAX) < 1 << 31);
}

#[test]
fn scid_hex_is_8_lowercase_hex_digits() {
    assert_eq!(scid_hex(27183), "4b4c6a2f");
    assert_eq!(scid_hex(0), "4b4c0000");
    assert_eq!(scid_hex(0xFFFF), "4b4cffff");
}

#[test]
fn kill_script_targets_only_own_scid() {
    let script = build_scid_kill_script("4b4c6a17");
    assert!(script.contains("scid=4b4c6a17"), "应匹配本会话 scid");
    assert!(!script.contains("scid=4b4c6a18"), "不得匹配其它 scid");
    assert!(script.contains("$$"), "应跳过脚本自身 shell 进程");
    assert!(
        script.contains("/proc/[0-9]*/cmdline"),
        "应 grep 扫描 /proc cmdline（高效，非逐进程循环）"
    );
    assert!(
        !script.contains("tr '\\0'"),
        "不得用逐进程 tr|grep 循环（无线 adb 下极慢）"
    );
    assert!(script.contains("self"), "应跳过 /proc/self 与 thread-self");
    assert!(script.ends_with("true"), "应以 true 结尾保证 exit 0");
}

#[test]
fn kill_script_quotes_scid() {
    let script = build_scid_kill_script("4b4c6a17");
    assert!(script.contains("'scid=4b4c6a17'"), "scid 应被单引号包裹");
}

#[test]
fn kill_script_extracts_pid_from_grep_path() {
    let script = build_scid_kill_script("4b4c6a17");
    assert!(
        script.contains("p=${f#/proc/}") && script.contains("p=${p%/cmdline}"),
        "应从 grep 输出路径提取 pid"
    );
    assert!(script.contains("kill -9 \"$p\""), "应 kill 提取出的 pid");
}

#[test]
fn serial_ip_extracts_ipv4() {
    assert_eq!(serial_ip("192.168.1.5:5555"), Some("192.168.1.5".into()));
    assert_eq!(serial_ip("10.0.0.2:4444"), Some("10.0.0.2".into()));
    assert_eq!(serial_ip("ABC123"), None);
    assert_eq!(serial_ip("2001:db8::1:5555"), None);
}

#[test]
fn serial_ip_extracts_bracketed_ipv6() {
    assert_eq!(
        serial_ip("[2001:db8::1]:5555"),
        Some("[2001:db8::1]".into())
    );
}

#[test]
fn scrcpy_params_from_config() {
    let cfg = AppConfig {
        video_bit_rate: 2_000_000,
        audio_codec: "flac".to_string(),
        ..Default::default()
    };
    let params = ScrcpyParams::from(&cfg);
    assert_eq!(params.video_bit_rate, 2_000_000);
    assert_eq!(params.audio_codec, "flac");
}
