//! The podcast side of the resolver: parsing a downloaded RSS document,
//! extracting transcribable episodes, and laying out the podcast's output
//! directory and info sidecar.

use vstd::prelude::*;
use vstd::string::StringExecFns;

use crate::batch::SourceItem;
use crate::config::Config;
use crate::ident::{sanitize_filename, sanitize_spec};
use crate::text::{chars_of_str, has_prefix, starts_with_pattern};

verus! {

/// One item of a parsed feed, as the feed document carries it.
pub struct FeedEntry {
    /// The item's title, when present.
    pub title: Option<String>,
    /// The enclosure's URL, when the item has an enclosure.
    pub enclosure_url: Option<String>,
    /// The enclosure's MIME type, when the item has an enclosure.
    pub enclosure_mime: Option<String>,
    /// The publish date text, RFC 2822, when present.
    pub pub_date: Option<String>,
}

/// A parsed feed: the channel header and its items.
pub struct FeedMeta {
    /// The channel's title.
    pub title: String,
    /// The channel's description.
    pub description: String,
    /// The channel's language, when given.
    pub language: Option<String>,
    /// The channel's iTunes author, when given.
    pub author: Option<String>,
    /// The channel's items, in document order.
    pub entries: Vec<FeedEntry>,
}

/// The view of one feed entry.
pub ghost struct FeedEntryView {
    pub title: Option<Seq<char>>,
    pub enclosure_url: Option<Seq<char>>,
    pub enclosure_mime: Option<Seq<char>>,
    pub pub_date: Option<Seq<char>>,
}

/// The view of a parsed feed.
pub ghost struct FeedView {
    pub title: Seq<char>,
    pub description: Seq<char>,
    pub language: Option<Seq<char>>,
    pub author: Option<Seq<char>>,
    pub entries: Seq<FeedEntryView>,
}

pub open spec fn entry_view(e: FeedEntry) -> FeedEntryView {
    FeedEntryView {
        title: e.title.deep_view(),
        enclosure_url: e.enclosure_url.deep_view(),
        enclosure_mime: e.enclosure_mime.deep_view(),
        pub_date: e.pub_date.deep_view(),
    }
}

pub open spec fn feed_view(f: FeedMeta) -> FeedView {
    FeedView {
        title: f.title@,
        description: f.description@,
        language: f.language.deep_view(),
        author: f.author.deep_view(),
        entries: f.entries@.map_values(|e: FeedEntry| entry_view(e)),
    }
}

/// What parsing the given bytes as an RSS document yields, when they parse.
pub uninterp spec fn feed_of(bytes: Seq<u8>) -> Option<FeedView>;

/// Relies on rss::Channel::read_from: parsing an RSS document yields the
/// channel's title, description, language, iTunes author and items, and
/// each item's title, enclosure URL, enclosure MIME type and publish date,
/// all carried over unchanged. The result depends on the bytes alone.
#[verifier::external_body]
pub(crate) fn parse_feed_bytes(bytes: &Vec<u8>) -> (r: Option<FeedMeta>)
    ensures
        match r {
            Some(f) => feed_of(bytes@) == Some(feed_view(f)),
            None => feed_of(bytes@) is None,
        },
{
    let ch = rss::Channel::read_from(&bytes[..]).ok()?;
    let entries = ch.items.into_iter().map(|it| FeedEntry {
        title: it.title,
        enclosure_url: it.enclosure.as_ref().map(|e| e.url.clone()),
        enclosure_mime: it.enclosure.map(|e| e.mime_type),
        pub_date: it.pub_date,
    }).collect();
    Some(FeedMeta {
        title: ch.title,
        description: ch.description,
        language: ch.language,
        author: ch.itunes_ext.and_then(|e| e.author),
        entries,
    })
}

/// What an RFC 2822 date text denotes, as seconds since the Unix epoch,
/// when it parses.
pub uninterp spec fn rfc2822_epoch_of(s: Seq<char>) -> Option<i64>;

/// Relies on chrono's DateTime::parse_from_rfc2822 and DateTime::timestamp:
/// parsing an RFC 2822 date and reading it as seconds since the Unix epoch
/// depend on the text alone.
#[verifier::external_body]
pub(crate) fn parse_rfc2822_epoch(s: &str) -> (r: Option<i64>)
    ensures
        r == rfc2822_epoch_of(s@),
{
    match chrono::DateTime::parse_from_rfc2822(s) {
        Ok(d) => Some(d.timestamp()),
        Err(_) => None,
    }
}

/// An entry is transcribable when it has an enclosure whose MIME type
/// names audio.
pub open spec fn entry_kept(e: FeedEntry) -> bool {
    &&& e.enclosure_url is Some
    &&& e.enclosure_mime matches Some(m) && has_prefix(m@, "audio/"@)
}

/// The transcribable entries, in document order.
pub open spec fn kept_entries(es: Seq<FeedEntry>) -> Seq<FeedEntry>
    decreases es.len(),
{
    if es.len() == 0 {
        Seq::empty()
    } else if entry_kept(es.last()) {
        kept_entries(es.drop_last()).push(es.last())
    } else {
        kept_entries(es.drop_last())
    }
}

/// The title an entry contributes: its own, or the placeholder.
pub open spec fn entry_title(e: FeedEntry) -> Seq<char> {
    match e.title {
        Some(t) => t@,
        None => "Unknown Title"@,
    }
}

/// The publish instant an entry contributes.
pub open spec fn entry_epoch(e: FeedEntry) -> Option<i64> {
    match e.pub_date {
        Some(d) => rfc2822_epoch_of(d@),
        None => None,
    }
}

/// `it` is the source item extracted from the kept entry `e`.
pub open spec fn is_item_of(it: SourceItem, e: FeedEntry) -> bool {
    &&& it.title@ == entry_title(e)
    &&& e.enclosure_url matches Some(u) && it.audio_location@ == u@
    &&& it.published_at == entry_epoch(e)
}

/// Extracts a source item from one feed entry: its title (or a
/// placeholder), its audio URL - provided the enclosure names audio - and
/// its publish instant.
pub fn extract_episode(e: &FeedEntry) -> (r: Option<SourceItem>)
    ensures
        match r {
            Some(it) => entry_kept(*e) && is_item_of(it, *e),
            None => !entry_kept(*e),
        },
{
    let url: String = match &e.enclosure_url {
        Some(u) => u.clone(),
        None => {
            return None;
        },
    };
    match &e.enclosure_mime {
        Some(m) => {
            let mc = chars_of_str(m.as_str());
            let audio = chars_of_str("audio/");
            if !starts_with_pattern(&mc, &audio) {
                return None;
            }
        },
        None => {
            return None;
        },
    }
    let title: String = match &e.title {
        Some(t) => t.clone(),
        None => String::from_str("Unknown Title"),
    };
    let published_at: Option<i64> = match &e.pub_date {
        Some(d) => parse_rfc2822_epoch(d.as_str()),
        None => None,
    };
    Some(SourceItem { title, audio_location: url, published_at })
}

/// Extracts the transcribable episodes of a parsed feed, in document
/// order.
pub fn extract_episodes(feed: &FeedMeta) -> (r: Vec<SourceItem>)
    ensures
        r@.len() == kept_entries(feed.entries@).len(),
        forall|i: int|
            0 <= i < r@.len() ==> is_item_of(#[trigger] r@[i], kept_entries(feed.entries@)[i]),
{
    let mut r: Vec<SourceItem> = Vec::new();
    let mut i: usize = 0;
    proof {
        assert(feed.entries@.take(0) =~= Seq::<FeedEntry>::empty());
    }
    while i < feed.entries.len()
        invariant
            i <= feed.entries@.len(),
            r@.len() == kept_entries(feed.entries@.take(i as int)).len(),
            forall|j: int|
                0 <= j < r@.len() ==> is_item_of(
                    #[trigger] r@[j],
                    kept_entries(feed.entries@.take(i as int))[j],
                ),
        decreases feed.entries@.len() - i,
    {
        let ghost prev = feed.entries@.take(i as int);
        proof {
            assert(feed.entries@.take(i + 1).drop_last() =~= prev);
            assert(feed.entries@.take(i + 1).last() == feed.entries@[i as int]);
        }
        match extract_episode(&feed.entries[i]) {
            Some(it) => {
                r.push(it);
            },
            None => {},
        }
        i = i + 1;
    }
    proof {
        assert(feed.entries@.take(i as int) =~= feed.entries@);
    }
    r
}

/// The text of the podcast's info sidecar.
pub open spec fn podcast_info_spec(f: FeedMeta, url: Seq<char>) -> Seq<char> {
    "Title: "@ + f.title@ + "\n"@ + "Feed URL: "@ + url + "\n"@ + "Description: "@
        + f.description@ + "\n"@ + (match f.language {
        Some(l) => "Language: "@ + l@ + "\n"@,
        None => Seq::<char>::empty(),
    }) + (match f.author {
        Some(a) => "Author: "@ + a@ + "\n"@,
        None => Seq::<char>::empty(),
    })
}

/// Podcast processor for downloading and transcribing podcast episodes.
pub struct PodcastProcessor<'a> {
    /// The run configuration.
    pub config: &'a Config,
}

impl<'a> PodcastProcessor<'a> {
    /// Creates a new podcast processor.
    pub fn new(config: &'a Config) -> (s: Self)
        ensures
            s.config == config,
    {
        PodcastProcessor { config }
    }

    /// The compute part of processing a downloaded feed: parse the
    /// document and extract its transcribable episodes.
    pub fn resolve_feed(&self, bytes: &Vec<u8>) -> (r: Option<(FeedMeta, Vec<SourceItem>)>)
        ensures
            match r {
                Some(pair) => {
                    &&& feed_of(bytes@) == Some(feed_view(pair.0))
                    &&& pair.1@.len() == kept_entries(pair.0.entries@).len()
                    &&& forall|i: int|
                        0 <= i < pair.1@.len() ==> is_item_of(
                            #[trigger] pair.1@[i],
                            kept_entries(pair.0.entries@)[i],
                        )
                },
                None => feed_of(bytes@) is None,
            },
    {
        match parse_feed_bytes(bytes) {
            Some(f) => {
                let items = extract_episodes(&f);
                Some((f, items))
            },
            None => None,
        }
    }

    /// The podcast's output directory: the output root joined with the
    /// sanitized channel title.
    pub fn podcast_directory(&self, podcast_title: &str) -> (r: String)
        ensures
            r@ == self.config.output_dir@ + "/"@ + sanitize_spec(podcast_title@),
    {
        let name = sanitize_filename(podcast_title);
        let base = String::from_str(self.config.output_dir.as_str());
        base.concat("/").concat(name.as_str())
    }

    /// One episode's output directory: the podcast directory joined with
    /// the sanitized episode title.
    pub fn episode_directory(&self, podcast_dir: &str, episode_title: &str) -> (r: String)
        ensures
            r@ == podcast_dir@ + "/"@ + sanitize_spec(episode_title@),
    {
        let name = sanitize_filename(episode_title);
        let base = String::from_str(podcast_dir);
        base.concat("/").concat(name.as_str())
    }

    /// The text of the podcast's info sidecar: title, feed URL and
    /// description, then language and author when the feed names them.
    pub fn podcast_info_text(&self, feed: &FeedMeta, feed_url: &str) -> (r: String)
        ensures
            r@ == podcast_info_spec(*feed, feed_url@),
    {
        let mut info = String::from_str("Title: ");
        info.append(feed.title.as_str());
        info.append("\n");
        info.append("Feed URL: ");
        info.append(feed_url);
        info.append("\n");
        info.append("Description: ");
        info.append(feed.description.as_str());
        info.append("\n");
        match &feed.language {
            Some(l) => {
                info.append("Language: ");
                info.append(l.as_str());
                info.append("\n");
            },
            None => {},
        }
        match &feed.author {
            Some(a) => {
                info.append("Author: ");
                info.append(a.as_str());
                info.append("\n");
            },
            None => {},
        }
        info
    }
}

} // verus!
