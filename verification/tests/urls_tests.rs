use media_transcriber::urls::{
    classify_source, is_single_video_url, parse_source_lines, video_urls_from_ids, SourceKind,
};

#[test]
fn sources_are_classified_by_domain() {
    assert_eq!(
        classify_source("https://www.youtube.com/watch?v=abc123"),
        SourceKind::YouTube
    );
    assert_eq!(classify_source("https://youtu.be/abc123"), SourceKind::YouTube);
    assert_eq!(
        classify_source("https://example.org/feed.xml"),
        SourceKind::Podcast
    );
}

#[test]
fn single_video_urls_are_recognised() {
    assert!(is_single_video_url("https://www.youtube.com/watch?v=dQw4w9WgXcQ"));
    assert!(is_single_video_url("https://youtu.be/dQw4w9WgXcQ"));
    assert!(is_single_video_url("https://www.youtube.com/v/abc-123"));
    assert!(is_single_video_url("https://www.youtube.com/embed/abc_123"));
}

#[test]
fn channel_and_playlist_urls_are_not_single_videos() {
    assert!(!is_single_video_url("https://www.youtube.com/@somechannel"));
    assert!(!is_single_video_url(
        "https://www.youtube.com/playlist?list=PL123"
    ));
    // the id part is missing entirely
    assert!(!is_single_video_url("https://www.youtube.com/watch?v="));
    assert!(!is_single_video_url("https://example.org/"));
}

#[test]
fn id_listing_becomes_watch_urls() {
    let urls = video_urls_from_ids("id1\n\n id2 \n");
    assert_eq!(
        urls,
        vec![
            "https://www.youtube.com/watch?v=id1",
            "https://www.youtube.com/watch?v=id2"
        ]
    );
    assert!(video_urls_from_ids("").is_empty());
}

#[test]
fn sources_file_skips_blanks_and_comments() {
    let sources = parse_source_lines(
        "# my feeds\nhttps://a.example/feed\n\n  https://b.example/feed  \n# done\n",
    );
    assert_eq!(
        sources,
        vec!["https://a.example/feed", "https://b.example/feed"]
    );
}
