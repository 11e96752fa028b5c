use hang::digest::{compute_string_hash, fingerprint, hash_passcode, MediaSource};
use hang::html::{html_escape, html_escape_attr};
use hang::names::{default_display_name, normalize_passcode, sanitize_display_name};
use hang::room::{format_room_code, is_valid_room_code, normalize_capacity, sanitize_room_code_input};
use hang::text::trim;

#[test]
fn capacity_is_clamped_and_defaults_to_twelve() {
    assert_eq!(normalize_capacity(None), 12);
    assert_eq!(normalize_capacity(Some(0)), 2);
    assert_eq!(normalize_capacity(Some(1)), 2);
    assert_eq!(normalize_capacity(Some(4)), 4);
    assert_eq!(normalize_capacity(Some(33)), 32);
    assert_eq!(normalize_capacity(Some(usize::MAX)), 32);
    for k in [0usize, 1, 2, 7, 32, 100] {
        let once = normalize_capacity(Some(k));
        assert_eq!(normalize_capacity(Some(once)), once);
        assert!((2..=32).contains(&once));
    }
}

#[test]
fn room_codes_are_three_digits_dash_three_digits() {
    assert_eq!(format_room_code(0), "000-000");
    assert_eq!(format_room_code(123456), "123-456");
    assert_eq!(format_room_code(999999), "999-999");
    assert_eq!(format_room_code(7042), "007-042");
    assert!(is_valid_room_code(" 123-456 "));
    assert!(!is_valid_room_code("123456"));
    assert!(!is_valid_room_code("12a-456"));
    assert!(!is_valid_room_code("1234-56"));
}

#[test]
fn room_code_input_is_reformatted() {
    assert_eq!(sanitize_room_code_input("12"), "12");
    assert_eq!(sanitize_room_code_input("1a2b3c4"), "123-4");
    assert_eq!(sanitize_room_code_input("123 456 789"), "123-456");
    assert_eq!(sanitize_room_code_input("--"), "");
}

#[test]
fn display_names_are_trimmed_printable_and_short() {
    assert_eq!(sanitize_display_name("  Ada  "), Some("Ada".to_string()));
    assert_eq!(sanitize_display_name("   "), None);
    assert_eq!(sanitize_display_name("a\u{7}b"), Some("ab".to_string()));
    assert_eq!(sanitize_display_name("\u{1}"), None);
    let long = "x".repeat(40);
    assert_eq!(sanitize_display_name(&long), Some("x".repeat(32)));
    assert_eq!(default_display_name(0x1234abcd_0000_0000_0000_0000_0000_0000u128), "Guest 1234abcd");
}

#[test]
fn passcodes_are_trimmed_and_blank_is_none() {
    assert_eq!(normalize_passcode("  let-me-in "), Some("let-me-in".to_string()));
    assert_eq!(normalize_passcode(" \t "), None);
    assert_eq!(trim("\u{3000} a b \n"), "a b");
}

#[test]
fn fingerprints_are_sha256_hex_of_the_identity() {
    let h = compute_string_hash("abc");
    assert_eq!(h, "ba7816bf8f01cfea414140de5dae2223b00361a396177a9cb410ff61f20015ad");
    assert_eq!(fingerprint(&MediaSource::LocalFile("abc".to_string())), h);
    assert_eq!(fingerprint(&MediaSource::DirectUrl("abc".to_string())), h);
    assert_ne!(fingerprint(&MediaSource::ResolvedRemote("abd".to_string())), h);
    assert_eq!(h.len(), 64);
}

#[test]
fn file_fingerprint_uses_the_file_name_only() {
    let a = hang::digest::compute_file_hash("/videos/movie.mkv").unwrap();
    let b = hang::digest::compute_file_hash("/elsewhere/movie.mkv").unwrap();
    assert_eq!(a, b);
    assert_eq!(a, compute_string_hash("movie.mkv"));
    assert_eq!(hang::digest::compute_file_hash("/"), None);
}

#[test]
fn passcode_hash_binds_the_room_code() {
    let a = hash_passcode("let-me-in", "123-456");
    assert_eq!(a, hash_passcode("let-me-in", "123-456"));
    assert_eq!(a, compute_string_hash("123-456let-me-in"));
    assert_ne!(a, hash_passcode("let-me-in", "654-321"));
    assert_ne!(a, hash_passcode("let-me-out", "123-456"));
}

#[test]
fn html_is_escaped() {
    assert_eq!(html_escape("<a href=\"x\">&'</a>"), "&lt;a href=&quot;x&quot;&gt;&amp;&#39;&lt;/a&gt;");
    assert_eq!(html_escape_attr("plain"), "plain");
    assert_eq!(html_escape(""), "");
}
