use media_transcriber::config::Config;
use media_transcriber::feed::PodcastProcessor;
use media_transcriber::video::{
    audio_download_args, channel_info_args, video_ids_args, video_info_args, VideoMeta,
    YouTubeProcessor,
};

fn test_config() -> Config {
    Config::new(
        Some("sk-test".to_string()),
        None,
        None,
        Some("en".to_string()),
        None,
        None,
        "out".to_string(),
    )
    .unwrap()
}

const FEED_XML: &str = r#"<?xml version="1.0" encoding="UTF-8"?>
<rss version="2.0" xmlns:itunes="http://www.itunes.com/dtds/podcast-1.0.dtd">
<channel>
<title>My Show</title>
<description>Weekly talk</description>
<language>en</language>
<itunes:author>Ann Host</itunes:author>
<item><title>Ep One</title><enclosure url="https://cdn.example/e1.mp3" type="audio/mpeg" length="1"/><pubDate>Mon, 01 Jan 2024 00:00:00 +0000</pubDate></item>
<item><title>Video Only</title><enclosure url="https://cdn.example/v.mp4" type="video/mp4" length="1"/></item>
<item><enclosure url="https://cdn.example/e2.mp3" type="audio/mpeg" length="1"/><pubDate>not a date</pubDate></item>
<item><title>No Enclosure</title></item>
</channel>
</rss>"#;

#[test]
fn feed_is_parsed_and_episodes_extracted() {
    let config = test_config();
    let processor = PodcastProcessor::new(&config);
    let bytes = FEED_XML.as_bytes().to_vec();
    let (meta, items) = processor.resolve_feed(&bytes).unwrap();
    assert_eq!(meta.title, "My Show");
    assert_eq!(meta.description, "Weekly talk");
    assert_eq!(meta.language.as_deref(), Some("en"));
    assert_eq!(meta.author.as_deref(), Some("Ann Host"));
    assert_eq!(meta.entries.len(), 4);
    // only the two audio enclosures survive, in document order
    assert_eq!(items.len(), 2);
    assert_eq!(items[0].title, "Ep One");
    assert_eq!(items[0].audio_location, "https://cdn.example/e1.mp3");
    assert_eq!(items[0].published_at, Some(1_704_067_200));
    assert_eq!(items[1].title, "Unknown Title");
    assert_eq!(items[1].audio_location, "https://cdn.example/e2.mp3");
    assert_eq!(items[1].published_at, None);
}

#[test]
fn unparseable_feed_yields_nothing() {
    let config = test_config();
    let processor = PodcastProcessor::new(&config);
    let bytes = b"this is not xml".to_vec();
    assert!(processor.resolve_feed(&bytes).is_none());
}

#[test]
fn podcast_layout_and_sidecar() {
    let config = test_config();
    let processor = PodcastProcessor::new(&config);
    let bytes = FEED_XML.as_bytes().to_vec();
    let (meta, _) = processor.resolve_feed(&bytes).unwrap();
    let dir = processor.podcast_directory(&meta.title);
    assert_eq!(dir, "out/My_Show");
    let episode_dir = processor.episode_directory(&dir, "Ep One");
    assert_eq!(episode_dir, "out/My_Show/Ep_One");
    let info = processor.podcast_info_text(&meta, "https://feed.example/rss");
    assert_eq!(
        info,
        "Title: My Show\nFeed URL: https://feed.example/rss\nDescription: Weekly talk\nLanguage: en\nAuthor: Ann Host\n"
    );
}

#[test]
fn video_metadata_is_parsed_from_json() {
    let config = test_config();
    let processor = YouTubeProcessor::new(&config);
    let json = r#"{"id":"abc123","title":"A Talk","upload_date":"20240102","channel":"Some Channel","description":"Long form","duration":655}"#;
    let meta = processor.video_metadata_from_json(json).unwrap();
    assert_eq!(meta.id, "abc123");
    assert_eq!(meta.title, "A Talk");
    assert_eq!(meta.upload_date.as_deref(), Some("20240102"));
    assert_eq!(meta.channel.as_deref(), Some("Some Channel"));
    assert_eq!(meta.description.as_deref(), Some("Long form"));
    assert_eq!(meta.duration_secs, Some(655));
}

#[test]
fn video_metadata_requires_id_and_title() {
    let config = test_config();
    let processor = YouTubeProcessor::new(&config);
    assert!(processor.video_metadata_from_json("not json").is_none());
    assert!(processor
        .video_metadata_from_json(r#"{"id":"abc123"}"#)
        .is_none());
    assert!(processor
        .video_metadata_from_json(r#"{"title":"no id"}"#)
        .is_none());
}

#[test]
fn video_layout_and_sidecars() {
    let config = test_config();
    let processor = YouTubeProcessor::new(&config);
    let meta = VideoMeta {
        id: "abc123".to_string(),
        title: "A Talk!".to_string(),
        upload_date: Some("20240102".to_string()),
        channel: Some("Some Channel".to_string()),
        description: Some("Long form".to_string()),
        duration_secs: Some(655),
    };
    assert_eq!(processor.channel_directory(&meta), "out/Some_Channel");
    assert_eq!(processor.video_directory(&meta), "out/Some_Channel/A_Talk");
    let info = processor.video_info_text(&meta, "https://www.youtube.com/watch?v=abc123");
    assert_eq!(
        info,
        "Title: A Talk!\nVideo URL: https://www.youtube.com/watch?v=abc123\nVideo ID: abc123\nChannel: Some Channel\nUpload Date: 20240102\nDuration: 655 seconds\nDescription: Long form\n"
    );
    let channel_info = processor.channel_info_text(&meta, "https://www.youtube.com/@some");
    assert_eq!(
        channel_info,
        "Channel: Some Channel\nChannel URL: https://www.youtube.com/@some\nDescription: Long form\n"
    );
}

#[test]
fn nameless_channel_gets_the_placeholder() {
    let config = test_config();
    let processor = YouTubeProcessor::new(&config);
    let meta = VideoMeta {
        id: "x".to_string(),
        title: "T".to_string(),
        upload_date: None,
        channel: None,
        description: None,
        duration_secs: None,
    };
    assert_eq!(processor.channel_directory(&meta), "out/UnknownChannel");
    let info = processor.channel_info_text(&meta, "u");
    assert_eq!(info, "Channel: Unknown Channel\nChannel URL: u\n");
}

#[test]
fn listing_tool_invocations_are_exact() {
    assert_eq!(
        video_info_args("https://youtu.be/x"),
        vec!["--dump-json", "--no-playlist", "https://youtu.be/x"]
    );
    assert_eq!(
        channel_info_args("https://www.youtube.com/@c"),
        vec![
            "--dump-json",
            "--playlist-items",
            "1",
            "https://www.youtube.com/@c"
        ]
    );
    assert_eq!(
        video_ids_args("https://www.youtube.com/@c"),
        vec!["--get-id", "--flat-playlist", "https://www.youtube.com/@c"]
    );
    assert_eq!(
        audio_download_args("/tmp/audio.mp3", "https://youtu.be/x"),
        vec![
            "-x",
            "--audio-format",
            "mp3",
            "--audio-quality",
            "0",
            "-o",
            "/tmp/audio.mp3",
            "https://youtu.be/x"
        ]
    );
}
