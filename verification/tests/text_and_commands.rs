use lgtv_controller::command::{gate_active, gate_applies, intake_line, kind_of, CommandKind};
use lgtv_controller::errors::map_client_error;
use lgtv_controller::text::{eq_ignore_case_str, str_eq, trim_str};

#[test]
fn trim_removes_surrounding_whitespace() {
    assert_eq!(trim_str("  volume_up \n"), "volume_up");
    assert_eq!(trim_str("mute"), "mute");
    assert_eq!(trim_str(" \t\r\n "), "");
    assert_eq!(trim_str(""), "");
    assert_eq!(trim_str("a b"), "a b");
}

#[test]
fn str_eq_is_exact() {
    assert!(str_eq("mute", "mute"));
    assert!(!str_eq("mute", "Mute"));
    assert!(!str_eq("mute", "mutee"));
    assert!(str_eq("", ""));
}

#[test]
fn case_insensitive_equality() {
    assert!(eq_ignore_case_str("LG Monitor", "lg monitor"));
    assert!(eq_ignore_case_str("lg monitor", "LG MONITOR"));
    assert!(!eq_ignore_case_str("LG Monitor", "LG Monitor 2"));
    assert!(!eq_ignore_case_str("LG Monitor", "LG Monitos"));
}

#[test]
fn intake_trims_and_drops_blank_lines() {
    assert_eq!(intake_line("volume_up\n"), Some("volume_up".to_string()));
    assert_eq!(intake_line("  mute  "), Some("mute".to_string()));
    assert_eq!(intake_line("\n"), None);
    assert_eq!(intake_line("   "), None);
    assert_eq!(intake_line(""), None);
}

#[test]
fn command_kinds() {
    assert_eq!(kind_of("volume_up"), CommandKind::VolumeUp);
    assert_eq!(kind_of("volume_down"), CommandKind::VolumeDown);
    assert_eq!(kind_of("mute"), CommandKind::Mute);
    assert_eq!(kind_of("unmute"), CommandKind::Unmute);
    assert_eq!(kind_of("power_off"), CommandKind::Other);
    assert_eq!(kind_of("volumexyz"), CommandKind::Other);
    assert_eq!(kind_of("Mute"), CommandKind::Other);
    assert_eq!(kind_of(""), CommandKind::Other);
}

#[test]
fn gate_matches_trimmed_report_case_insensitively() {
    assert!(gate_active(&Some("LG Monitor\n".to_string()), "LG Monitor"));
    assert!(gate_active(&Some("  lg monitor  ".to_string()), "LG Monitor"));
    assert!(!gate_active(&Some("MacBook Pro Speakers".to_string()), "LG Monitor"));
    assert!(!gate_active(&None, "LG Monitor"));
}

#[test]
fn client_error_carries_detail() {
    let e = map_client_error("socket closed".to_string());
    assert_eq!(e.detail, "socket closed");
}

#[test]
fn trim_removes_unicode_whitespace() {
    assert_eq!(trim_str("\u{a0}mute\u{2003}"), "mute");
    assert_eq!(trim_str("\u{3000}\u{85}volume_up\u{202f}\r\n"), "volume_up");
    assert_eq!(intake_line("\u{2028}\u{205f}\t"), None);
}

#[test]
fn gate_applies_to_the_audio_tokens_only() {
    assert!(gate_applies("volume_up"));
    assert!(gate_applies("volume_down"));
    assert!(gate_applies("mute"));
    assert!(gate_applies("unmute"));
    assert!(!gate_applies("power_off"));
    assert!(!gate_applies("volumexyz"));
    assert!(!gate_applies(""));
}
