//! The video side of the resolver: reading video metadata from the JSON a
//! listing tool prints, and laying out video and channel directories, info
//! sidecars and the exact tool invocations.

use vstd::prelude::*;
use vstd::string::StringExecFns;

use crate::config::Config;
use crate::ident::{sanitize_filename, sanitize_spec};
use crate::text::{dec_str, u64_to_string};
use crate::urls::{is_single_video_url, single_video_url};

verus! {

/// Metadata of one video, as the listing tool reports it.
pub struct VideoMeta {
    /// The video's id.
    pub id: String,
    /// The video's title.
    pub title: String,
    /// Upload date text, when reported.
    pub upload_date: Option<String>,
    /// The channel's name, when reported.
    pub channel: Option<String>,
    /// The video's description, when reported.
    pub description: Option<String>,
    /// Duration in whole seconds, when reported as a whole number.
    pub duration_secs: Option<u64>,
}

/// The view of a video's metadata.
pub ghost struct VideoMetaView {
    pub id: Seq<char>,
    pub title: Seq<char>,
    pub upload_date: Option<Seq<char>>,
    pub channel: Option<Seq<char>>,
    pub description: Option<Seq<char>>,
    pub duration_secs: Option<u64>,
}

pub open spec fn video_meta_view(m: VideoMeta) -> VideoMetaView {
    VideoMetaView {
        id: m.id@,
        title: m.title@,
        upload_date: m.upload_date.deep_view(),
        channel: m.channel.deep_view(),
        description: m.description.deep_view(),
        duration_secs: m.duration_secs,
    }
}

/// What parsing the given text as one video's JSON metadata yields, when
/// it parses and holds an id and a title.
pub uninterp spec fn video_of(json: Seq<char>) -> Option<VideoMetaView>;

/// Relies on serde_json::from_str and serde_json::Value's accessors:
/// parsing a JSON document and reading its `id`, `title`, `upload_date`,
/// `channel`, `description` and `duration` fields depend on the text
/// alone. Yields nothing when the text is not a JSON object or lacks a
/// string `id` or `title`; a duration that is not a whole number is
/// dropped.
#[verifier::external_body]
pub(crate) fn parse_video_json(json: &str) -> (r: Option<VideoMeta>)
    ensures
        match r {
            Some(m) => video_of(json@) == Some(video_meta_view(m)),
            None => video_of(json@) is None,
        },
{
    let v: serde_json::Value = match serde_json::from_str(json) {
        Ok(v) => v,
        Err(_) => return None,
    };
    Some(VideoMeta {
        id: v.get("id")?.as_str()?.to_string(),
        title: v.get("title")?.as_str()?.to_string(),
        upload_date: v.get("upload_date").and_then(|x| x.as_str()).map(|s| s.to_string()),
        channel: v.get("channel").and_then(|x| x.as_str()).map(|s| s.to_string()),
        description: v.get("description").and_then(|x| x.as_str()).map(|s| s.to_string()),
        duration_secs: v.get("duration").and_then(|x| x.as_u64()),
    })
}

/// The channel name used when the metadata names none.
pub open spec fn channel_or_placeholder(m: VideoMeta) -> Seq<char> {
    match m.channel {
        Some(c) => c@,
        None => "Unknown_Channel"@,
    }
}

/// The text of one video's info sidecar.
pub open spec fn video_info_spec(m: VideoMeta, url: Seq<char>) -> Seq<char> {
    "Title: "@ + m.title@ + "\n"@ + "Video URL: "@ + url + "\n"@ + "Video ID: "@ + m.id@ + "\n"@
        + (match m.channel {
        Some(c) => "Channel: "@ + c@ + "\n"@,
        None => Seq::<char>::empty(),
    }) + (match m.upload_date {
        Some(d) => "Upload Date: "@ + d@ + "\n"@,
        None => Seq::<char>::empty(),
    }) + (match m.duration_secs {
        Some(n) => "Duration: "@ + dec_str(n as nat) + " seconds\n"@,
        None => Seq::<char>::empty(),
    }) + (match m.description {
        Some(d) => "Description: "@ + d@ + "\n"@,
        None => Seq::<char>::empty(),
    })
}

/// The text of a channel's info sidecar.
pub open spec fn channel_info_spec(m: VideoMeta, url: Seq<char>) -> Seq<char> {
    "Channel: "@ + (match m.channel {
        Some(c) => c@,
        None => "Unknown Channel"@,
    }) + "\n"@ + "Channel URL: "@ + url + "\n"@ + (match m.description {
        Some(d) => "Description: "@ + d@ + "\n"@,
        None => Seq::<char>::empty(),
    })
}

/// Video processor for downloading and transcribing videos.
pub struct YouTubeProcessor<'a> {
    /// The run configuration.
    pub config: &'a Config,
}

impl<'a> YouTubeProcessor<'a> {
    /// Creates a new video processor.
    pub fn new(config: &'a Config) -> (s: Self)
        ensures
            s.config == config,
    {
        YouTubeProcessor { config }
    }

    /// Decides whether a URL names a single video rather than a channel
    /// or playlist.
    pub fn is_single_video(&self, url: &str) -> (b: bool)
        ensures
            b == single_video_url(url@),
    {
        is_single_video_url(url)
    }

    /// The compute part of reading video (or channel) metadata: parses
    /// the JSON the listing tool printed.
    pub fn video_metadata_from_json(&self, json: &str) -> (r: Option<VideoMeta>)
        ensures
            match r {
                Some(m) => video_of(json@) == Some(video_meta_view(m)),
                None => video_of(json@) is None,
            },
    {
        parse_video_json(json)
    }

    /// One video's output directory: the output root, the sanitized
    /// channel name, then the sanitized video title.
    pub fn video_directory(&self, meta: &VideoMeta) -> (r: String)
        ensures
            r@ == self.config.output_dir@ + "/"@ + sanitize_spec(channel_or_placeholder(*meta))
                + "/"@ + sanitize_spec(meta.title@),
    {
        let channel_dir = self.channel_directory(meta);
        let title_name = sanitize_filename(meta.title.as_str());
        channel_dir.concat("/").concat(title_name.as_str())
    }

    /// A channel's output directory: the output root joined with the
    /// sanitized channel name.
    pub fn channel_directory(&self, meta: &VideoMeta) -> (r: String)
        ensures
            r@ == self.config.output_dir@ + "/"@ + sanitize_spec(channel_or_placeholder(*meta)),
    {
        let channel_name = match &meta.channel {
            Some(c) => sanitize_filename(c.as_str()),
            None => sanitize_filename("Unknown_Channel"),
        };
        let base = String::from_str(self.config.output_dir.as_str());
        base.concat("/").concat(channel_name.as_str())
    }

    /// The text of one video's info sidecar: title, URL and id, then the
    /// channel, upload date, duration and description when reported.
    pub fn video_info_text(&self, meta: &VideoMeta, url: &str) -> (r: String)
        ensures
            r@ == video_info_spec(*meta, url@),
    {
        let mut info = String::from_str("Title: ");
        info.append(meta.title.as_str());
        info.append("\n");
        info.append("Video URL: ");
        info.append(url);
        info.append("\n");
        info.append("Video ID: ");
        info.append(meta.id.as_str());
        info.append("\n");
        match &meta.channel {
            Some(c) => {
                info.append("Channel: ");
                info.append(c.as_str());
                info.append("\n");
            },
            None => {},
        }
        match &meta.upload_date {
            Some(d) => {
                info.append("Upload Date: ");
                info.append(d.as_str());
                info.append("\n");
            },
            None => {},
        }
        match meta.duration_secs {
            Some(n) => {
                info.append("Duration: ");
                let ns = u64_to_string(n);
                info.append(ns.as_str());
                info.append(" seconds\n");
            },
            None => {},
        }
        match &meta.description {
            Some(d) => {
                info.append("Description: ");
                info.append(d.as_str());
                info.append("\n");
            },
            None => {},
        }
        info
    }

    /// The text of a channel's info sidecar: name and URL, then the
    /// description when reported.
    pub fn channel_info_text(&self, meta: &VideoMeta, url: &str) -> (r: String)
        ensures
            r@ == channel_info_spec(*meta, url@),
    {
        let mut info = String::from_str("Channel: ");
        match &meta.channel {
            Some(c) => {
                info.append(c.as_str());
            },
            None => {
                info.append("Unknown Channel");
            },
        }
        info.append("\n");
        info.append("Channel URL: ");
        info.append(url);
        info.append("\n");
        match &meta.description {
            Some(d) => {
                info.append("Description: ");
                info.append(d.as_str());
                info.append("\n");
            },
            None => {},
        }
        info
    }
}

/// The listing tool's arguments for one video's metadata.
pub open spec fn video_info_args_spec(url: Seq<char>) -> Seq<Seq<char>> {
    seq!["--dump-json"@, "--no-playlist"@, url]
}

/// Builds the listing tool's arguments for one video's metadata.
pub fn video_info_args(url: &str) -> (r: Vec<String>)
    ensures
        r@.len() == video_info_args_spec(url@).len(),
        forall|j: int| 0 <= j < r@.len() ==> (#[trigger] r@[j])@ == video_info_args_spec(url@)[j],
{
    let mut r: Vec<String> = Vec::new();
    r.push(String::from_str("--dump-json"));
    r.push(String::from_str("--no-playlist"));
    r.push(String::from_str(url));
    r
}

/// The listing tool's arguments for a channel's metadata: the first
/// playlist item's record.
pub open spec fn channel_info_args_spec(url: Seq<char>) -> Seq<Seq<char>> {
    seq!["--dump-json"@, "--playlist-items"@, "1"@, url]
}

/// Builds the listing tool's arguments for a channel's metadata.
pub fn channel_info_args(url: &str) -> (r: Vec<String>)
    ensures
        r@.len() == channel_info_args_spec(url@).len(),
        forall|j: int|
            0 <= j < r@.len() ==> (#[trigger] r@[j])@ == channel_info_args_spec(url@)[j],
{
    let mut r: Vec<String> = Vec::new();
    r.push(String::from_str("--dump-json"));
    r.push(String::from_str("--playlist-items"));
    r.push(String::from_str("1"));
    r.push(String::from_str(url));
    r
}

/// The listing tool's arguments for a channel's or playlist's video ids.
pub open spec fn video_ids_args_spec(url: Seq<char>) -> Seq<Seq<char>> {
    seq!["--get-id"@, "--flat-playlist"@, url]
}

/// Builds the listing tool's arguments for a channel's or playlist's
/// video ids.
pub fn video_ids_args(url: &str) -> (r: Vec<String>)
    ensures
        r@.len() == video_ids_args_spec(url@).len(),
        forall|j: int| 0 <= j < r@.len() ==> (#[trigger] r@[j])@ == video_ids_args_spec(url@)[j],
{
    let mut r: Vec<String> = Vec::new();
    r.push(String::from_str("--get-id"));
    r.push(String::from_str("--flat-playlist"));
    r.push(String::from_str(url));
    r
}

/// The download tool's arguments for extracting one video's audio.
pub open spec fn audio_download_args_spec(output_file: Seq<char>, url: Seq<char>) -> Seq<
    Seq<char>,
> {
    seq!["-x"@, "--audio-format"@, "mp3"@, "--audio-quality"@, "0"@, "-o"@, output_file, url]
}

/// Builds the download tool's arguments for extracting one video's audio.
pub fn audio_download_args(output_file: &str, url: &str) -> (r: Vec<String>)
    ensures
        r@.len() == audio_download_args_spec(output_file@, url@).len(),
        forall|j: int|
            0 <= j < r@.len() ==> (#[trigger] r@[j])@ == audio_download_args_spec(
                output_file@,
                url@,
            )[j],
{
    let mut r: Vec<String> = Vec::new();
    r.push(String::from_str("-x"));
    r.push(String::from_str("--audio-format"));
    r.push(String::from_str("mp3"));
    r.push(String::from_str("--audio-quality"));
    r.push(String::from_str("0"));
    r.push(String::from_str("-o"));
    r.push(String::from_str(output_file));
    r.push(String::from_str(url));
    r
}

/// Truncates a URL listing to the first `limit` entries when a limit is
/// set and the listing exceeds it.
pub fn limit_urls(urls: Vec<String>, limit: Option<usize>) -> (r: Vec<String>)
    ensures
        match limit {
            Some(l) => r@ == urls@.take(if l < urls@.len() {
                l as int
            } else {
                urls@.len() as int
            }),
            None => r@ == urls@,
        },
{
    let mut v = urls;
    match limit {
        Some(l) => {
            if l < v.len() {
                v.truncate(l);
            } else {
                proof {
                    assert(v@.take(v@.len() as int) =~= v@);
                }
            }
            v
        },
        None => v,
    }
}

} // verus!
