use hang::youtube::{extract_video_id, is_youtube_url, VideoQuality};

#[test]
fn test_is_youtube_url() {
    assert!(is_youtube_url("https://www.youtube.com/watch?v=dQw4w9WgXcQ"));
    assert!(is_youtube_url("https://youtu.be/dQw4w9WgXcQ"));
    assert!(is_youtube_url("https://youtube.com/shorts/abc123"));
    assert!(!is_youtube_url("https://example.com/video.mp4"));
}

#[test]
fn test_extract_video_id() {
    assert_eq!(
        extract_video_id("https://www.youtube.com/watch?v=dQw4w9WgXcQ"),
        Some("dQw4w9WgXcQ".to_string())
    );
    assert_eq!(
        extract_video_id("https://youtu.be/dQw4w9WgXcQ"),
        Some("dQw4w9WgXcQ".to_string())
    );
    assert_eq!(
        extract_video_id("https://youtube.com/shorts/abc123"),
        Some("abc123".to_string())
    );
}

#[test]
fn video_id_stops_at_query_separators() {
    assert_eq!(extract_video_id("https://youtu.be/abc?t=10"), Some("abc".to_string()));
    assert_eq!(
        extract_video_id("https://www.youtube.com/watch?list=x&v=xyz&t=3"),
        Some("xyz".to_string())
    );
    assert_eq!(
        extract_video_id("https://youtube.com/live/stream9?feature=share"),
        Some("stream9".to_string())
    );
    assert_eq!(extract_video_id("https://example.com/video.mp4"), None);
    assert_eq!(extract_video_id("https://www.youtube.com/watch?list=x"), None);
}

#[test]
fn live_links_are_youtube() {
    assert!(is_youtube_url("https://youtube.com/live/abc"));
    assert!(!is_youtube_url(""));
}

#[test]
fn quality_labels_and_selectors() {
    assert_eq!(VideoQuality::all().len(), 8);
    assert_eq!(VideoQuality::all()[0], VideoQuality::Best);
    assert_eq!(VideoQuality::Quality1080p.as_str(), "1080p (Full HD)");
    assert_eq!(VideoQuality::AudioOnly.to_format_string(), "ba/b");
    assert_eq!(VideoQuality::Quality720p.to_format_string(), "b[height<=720]");
    assert_eq!(VideoQuality::default(), VideoQuality::Best);
}
