use lgtv_controller::resolver::{line_capture_str, resolve_ip, split_lines};

const LISTING: &str = "? (192.168.1.1) at aa:bb:cc:dd:ee:ff on en0 ifscope [ethernet]\n\
? (192.168.1.42) at 3c:f0:83:9e:6a:2c on en0 ifscope [ethernet]\n\
? (224.0.0.251) at 1:0:5e:0:0:fb on en0 ifscope permanent [ethernet]\n";

#[test]
fn resolves_matching_mac() {
    let r = resolve_ip(LISTING, "3c:f0:83:9e:6a:2c");
    assert_eq!(r, Some("192.168.1.42".to_string()));
}

#[test]
fn target_mac_matches_case_insensitively() {
    let r = resolve_ip(LISTING, "3C:F0:83:9E:6A:2C");
    assert_eq!(r, Some("192.168.1.42".to_string()));
}

#[test]
fn unknown_mac_resolves_to_nothing() {
    assert_eq!(resolve_ip(LISTING, "11:22:33:44:55:66"), None);
    assert_eq!(resolve_ip("", "3c:f0:83:9e:6a:2c"), None);
    assert_eq!(resolve_ip("no entries here\n", "3c:f0:83:9e:6a:2c"), None);
}

#[test]
fn first_matching_line_wins() {
    let listing = "? (10.0.0.1) at 3c:f0:83:9e:6a:2c on en0\n\
? (10.0.0.2) at 3c:f0:83:9e:6a:2c on en1\n";
    assert_eq!(resolve_ip(listing, "3c:f0:83:9e:6a:2c"), Some("10.0.0.1".to_string()));
}

#[test]
fn line_capture_finds_ip_and_mac() {
    let cap = line_capture_str("? (192.168.1.7) at de:ad:be:ef:0:1 on en0");
    assert_eq!(cap, Some(("192.168.1.7".to_string(), "de:ad:be:ef:0:1".to_string())));
}

#[test]
fn line_capture_requires_the_full_shape() {
    assert_eq!(line_capture_str("? () at aa:bb on en0"), None);
    assert_eq!(line_capture_str("? (1.2.3.4) at  on en0"), None);
    assert_eq!(line_capture_str("? (1.2.3.4) on en0"), None);
    assert_eq!(line_capture_str("(incomplete"), None);
    assert_eq!(line_capture_str(""), None);
}

#[test]
fn capture_skips_malformed_prefix() {
    let cap = line_capture_str("(x) nope (9.8.7.6) at a:b:c end");
    assert_eq!(cap, Some(("9.8.7.6".to_string(), "a:b:c".to_string())));
}

#[test]
fn split_lines_mirrors_line_endings() {
    assert_eq!(split_lines("a\nb\n"), vec!["a".to_string(), "b".to_string()]);
    assert_eq!(split_lines("a\r\nb"), vec!["a".to_string(), "b".to_string()]);
    assert_eq!(split_lines(""), Vec::<String>::new());
    assert_eq!(split_lines("\n"), vec!["".to_string()]);
    assert_eq!(split_lines("one"), vec!["one".to_string()]);
}

#[test]
fn listing_mac_matches_case_insensitively() {
    let listing = "? (192.168.1.42) at 3C:F0:83:9E:6A:2C on en0 ifscope [ethernet]\n";
    assert_eq!(resolve_ip(listing, "3c:f0:83:9e:6a:2c"), Some("192.168.1.42".to_string()));
    assert_eq!(resolve_ip(listing, "3C:F0:83:9E:6A:2C"), Some("192.168.1.42".to_string()));
    let mixed = "? (10.0.0.9) at aA:Bb:0C:d1:E2:f3 dev eth0\n";
    assert_eq!(resolve_ip(mixed, "AA:BB:0C:D1:E2:F3"), Some("10.0.0.9".to_string()));
}
