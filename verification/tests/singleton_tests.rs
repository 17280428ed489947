use shairport_sync_rs::singleton::{lock_file_name, sanitize_name};
use shairport_sync_rs::text::{str_is_blank, trim_whitespace};

#[test]
fn creates_port_and_name_scoped_lock_file_path() {
    let name = lock_file_name("Living Room", 5000);
    assert!(name.contains("living-room"));
    assert!(name.contains("5000"));
}

#[test]
fn sanitize_name_keeps_ascii_alnum() {
    assert_eq!(sanitize_name("AP_2 Receiver!"), "ap-2-receiver");
}

#[test]
fn sanitize_name_falls_back_to_instance() {
    assert_eq!(sanitize_name(""), "instance");
    assert_eq!(sanitize_name("---"), "instance");
    assert_eq!(sanitize_name("ÄÖ"), "instance");
}

#[test]
fn sanitize_name_maps_each_non_ascii_char_to_one_dash() {
    assert_eq!(sanitize_name("a\u{e9}b"), "a-b");
    assert_eq!(sanitize_name("Zz09"), "zz09");
}

#[test]
fn lock_file_name_has_exact_shape() {
    assert_eq!(lock_file_name("Living Room", 5000), "shairport-sync-rs-living-room-5000.lock");
    assert_eq!(lock_file_name("", 0), "shairport-sync-rs-instance-0.lock");
    assert_eq!(lock_file_name("x", 65535), "shairport-sync-rs-x-65535.lock");
    assert_eq!(lock_file_name("x", 7), "shairport-sync-rs-x-7.lock");
}

#[test]
fn trim_matches_std() {
    for s in ["", "  ", " a b ", "\t\nx\u{3000}", "\u{85}y\u{2028}", "plain", "\u{200b}z"] {
        assert_eq!(trim_whitespace(s), s.trim());
        assert_eq!(str_is_blank(s), s.trim().is_empty());
    }
}
