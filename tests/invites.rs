use hang::html::render_join_page;
use hang::invite::{build_invite_url, parse_invite_url};

#[test]
fn invite_round_trip_with_all_fields() {
    let url = build_invite_url("123-456", Some("let me in&go"), Some("Movie (2020).mkv"));
    assert!(url.starts_with("hang://join?room=123-456&code="));
    let link = parse_invite_url(&url).unwrap();
    assert_eq!(link.room_id, "123-456");
    assert_eq!(link.passcode.as_deref(), Some("let me in&go"));
    assert_eq!(link.file_name.as_deref(), Some("Movie (2020).mkv"));
}

#[test]
fn empty_fields_are_left_out() {
    assert_eq!(build_invite_url("123-456", Some(""), None), "hang://join?room=123-456");
    let link = parse_invite_url(&build_invite_url("123-456", None, Some("a.mp4"))).unwrap();
    assert_eq!(link.passcode, None);
    assert_eq!(link.file_name.as_deref(), Some("a.mp4"));
}

#[test]
fn invites_parse_from_http_links_and_bare_queries() {
    let link = parse_invite_url("  https://example.com/join?x=1&room=111-222&code=a%20b  ").unwrap();
    assert_eq!(link.room_id, "111-222");
    assert_eq!(link.passcode.as_deref(), Some("a b"));
    let bare = parse_invite_url("room=333-444&file=f.mkv").unwrap();
    assert_eq!(bare.room_id, "333-444");
    assert_eq!(bare.file_name.as_deref(), Some("f.mkv"));
}

#[test]
fn invites_without_a_room_are_rejected() {
    assert!(parse_invite_url("").is_none());
    assert!(parse_invite_url("hang://join?code=x").is_none());
    assert!(parse_invite_url("hang://join?room=").is_none());
    assert!(parse_invite_url("hang://join").is_none());
}

#[test]
fn fragments_end_the_query() {
    let link = parse_invite_url("hang://join?room=123-456&code=pw#later").unwrap();
    assert_eq!(link.passcode.as_deref(), Some("pw"));
    let bare = parse_invite_url("room=1#x").unwrap();
    assert_eq!(bare.room_id, "1");
}

#[test]
fn join_page_shows_the_invite() {
    let page = render_join_page(Some(" 123-456 ".to_string()), Some("a<b".to_string()), Some("  ".to_string()));
    assert!(page.contains("<h1>Join Hang Room 123-456</h1>"));
    assert!(page.contains("Passcode: <code>a&lt;b</code>"));
    assert!(page.contains("Host did not specify a file name."));
    assert!(page.contains("href=\"hang://join?room=123-456&amp;code=a%3Cb\""));
    assert!(page.contains("window.location.href=\"hang://join?room=123-456&code=a%3Cb\";"));
    let empty = render_join_page(None, None, None);
    assert!(empty.contains("<h1>Hang Invite</h1>"));
    assert!(empty.contains("Missing room code."));
    assert!(!empty.contains("<script>"));
}
