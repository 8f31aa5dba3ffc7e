//! The data model for one queued unit of work, and the event payloads the
//! queue publishes about it.
//!
//! Progress is held in whole tenths of a percent (`425` is 42.5%); an event
//! payload whose progress is `None` carries no numeric progress (a log-only
//! update). Durations are held in whole seconds.

use vstd::prelude::*;

use crate::status::{JobStatus, Phase};

verus! {

/// Descriptive fields of a media item, carried through to the persistence
/// step when its download succeeds.
pub struct Metadata {
    pub id: String,
    pub url: String,
    pub title: String,
    pub artist: String,
    pub album: Option<String>,
    pub thumbnail: Option<String>,
    pub duration_secs: Option<u64>,
}

/// Mathematical image of [`Metadata`].
pub ghost struct MetadataView {
    pub id: Seq<char>,
    pub url: Seq<char>,
    pub title: Seq<char>,
    pub artist: Seq<char>,
    pub album: Option<Seq<char>>,
    pub thumbnail: Option<Seq<char>>,
    pub duration_secs: Option<u64>,
}

impl View for Metadata {
    type V = MetadataView;

    open spec fn view(&self) -> MetadataView {
        MetadataView {
            id: self.id@,
            url: self.url@,
            title: self.title@,
            artist: self.artist@,
            album: self.album.deep_view(),
            thumbnail: self.thumbnail.deep_view(),
            duration_secs: self.duration_secs,
        }
    }
}

fn clone_opt_string(o: &Option<String>) -> (r: Option<String>)
    ensures
        r == *o,
{
    match o {
        Some(s) => Some(s.clone()),
        None => None,
    }
}

impl Clone for Metadata {
    fn clone(&self) -> (r: Self)
        ensures
            r == *self,
    {
        Metadata {
            id: self.id.clone(),
            url: self.url.clone(),
            title: self.title.clone(),
            artist: self.artist.clone(),
            album: clone_opt_string(&self.album),
            thumbnail: clone_opt_string(&self.thumbnail),
            duration_secs: self.duration_secs,
        }
    }
}

/// One queued unit of work: a request to fetch and store a single remote
/// media item.
pub struct DownloadJob {
    pub id: String,
    pub title: String,
    pub url: String,
    pub status: JobStatus,
    /// Tenths of a percent; meaningful only while `Downloading`, forced to
    /// `0` on `Error` and `1000` on `Completed`.
    pub progress: u32,
    /// Short phase label of the most recent classified output line.
    pub detailed_status: Option<Phase>,
    pub metadata: Metadata,
    /// Append-only raw output lines, for diagnostics.
    pub logs: Vec<String>,
}

/// Mathematical image of [`DownloadJob`].
pub ghost struct JobView {
    pub id: Seq<char>,
    pub title: Seq<char>,
    pub url: Seq<char>,
    pub status: JobStatus,
    pub progress: u32,
    pub detailed_status: Option<Phase>,
    pub metadata: MetadataView,
    pub logs: Seq<Seq<char>>,
}

impl View for DownloadJob {
    type V = JobView;

    open spec fn view(&self) -> JobView {
        JobView {
            id: self.id@,
            title: self.title@,
            url: self.url@,
            status: self.status,
            progress: self.progress,
            detailed_status: self.detailed_status,
            metadata: self.metadata@,
            logs: self.logs.deep_view(),
        }
    }
}

fn clone_logs(v: &Vec<String>) -> (r: Vec<String>)
    ensures
        r@ == v@,
{
    let mut out: Vec<String> = Vec::new();
    let mut i: usize = 0;
    while i < v.len()
        invariant
            i <= v@.len(),
            out@ =~= v@.subrange(0, i as int),
        decreases v@.len() - i,
    {
        out.push(v[i].clone());
        i += 1;
    }
    assert(out@ =~= v@);
    out
}

impl Clone for DownloadJob {
    fn clone(&self) -> (r: Self)
        ensures
            r@ == self@,
    {
        let r = DownloadJob {
            id: self.id.clone(),
            title: self.title.clone(),
            url: self.url.clone(),
            status: self.status,
            progress: self.progress,
            detailed_status: self.detailed_status,
            metadata: self.metadata.clone(),
            logs: clone_logs(&self.logs),
        };
        assert(r.logs.deep_view() =~= self.logs.deep_view());
        r
    }
}

impl DownloadJob {
    /// A fresh job as the enqueue entrypoint creates it: status `Queued`,
    /// no progress, no phase, no logs, and a display title of the form
    /// `artist - title`.
    pub fn new(id: String, url: String, metadata: Metadata) -> (j: DownloadJob)
        ensures
            j@.id == id@,
            j@.url == url@,
            j@.title == metadata@.artist + " - "@ + metadata@.title,
            j@.status == JobStatus::Queued,
            j@.progress == 0,
            j@.detailed_status is None,
            j@.metadata == metadata@,
            j@.logs == Seq::<Seq<char>>::empty(),
    {
        let mut title = metadata.artist.clone();
        title.append(" - ");
        title.append(metadata.title.as_str());
        let j = DownloadJob {
            id,
            title,
            url,
            status: JobStatus::Queued,
            progress: 0,
            detailed_status: None,
            metadata,
            logs: Vec::new(),
        };
        assert(j@.logs =~= Seq::<Seq<char>>::empty());
        j
    }
}

/// Build one [`Metadata`] record from the fields one entry of the external
/// tool's metadata dump carries, applying the fallback chain: a missing id
/// becomes `unknown`, a missing per-item URL falls back to the queried URL,
/// a missing title becomes `Unknown Title`, and the artist is the first of
/// artist, creator and uploader, else `Unknown Artist`.
pub fn resolve_metadata_entry(
    fallback_url: &str,
    id: Option<String>,
    url: Option<String>,
    title: Option<String>,
    artist: Option<String>,
    creator: Option<String>,
    uploader: Option<String>,
    album: Option<String>,
    thumbnail: Option<String>,
    duration_secs: Option<u64>,
) -> (m: Metadata)
    ensures
        m@.id == (match id {
            Some(i) => i@,
            None => "unknown"@,
        }),
        m@.url == (match url {
            Some(u) => u@,
            None => fallback_url@,
        }),
        m@.title == (match title {
            Some(t) => t@,
            None => "Unknown Title"@,
        }),
        m@.artist == (match artist {
            Some(a) => a@,
            None => (match creator {
                Some(c) => c@,
                None => (match uploader {
                    Some(u) => u@,
                    None => "Unknown Artist"@,
                }),
            }),
        }),
        m@.album == album.deep_view(),
        m@.thumbnail == thumbnail.deep_view(),
        m@.duration_secs == duration_secs,
{
    let artist_resolved = match artist {
        Some(a) => a,
        None => match creator {
            Some(c) => c,
            None => match uploader {
                Some(u) => u,
                None => String::from_str("Unknown Artist"),
            },
        },
    };
    Metadata {
        id: match id {
            Some(i) => i,
            None => String::from_str("unknown"),
        },
        url: match url {
            Some(u) => u,
            None => fallback_url.to_owned(),
        },
        title: match title {
            Some(t) => t,
            None => String::from_str("Unknown Title"),
        },
        artist: artist_resolved,
        album,
        thumbnail,
        duration_secs,
    }
}

/// A metadata lookup that yields no entries is a failure; anything else is
/// passed through unchanged.
pub fn validate_metadata(results: Vec<Metadata>) -> (r: Result<Vec<Metadata>, String>)
    ensures
        results@.len() == 0 ==> (r matches Err(e) && e@ == "No metadata found"@),
        results@.len() > 0 ==> (r matches Ok(v) && v == results),
{
    if results.len() == 0 {
        Err(String::from_str("No metadata found"))
    } else {
        Ok(results)
    }
}

/// One per-job progress, log or phase update published to observers.
pub struct DownloadProgressPayload {
    pub id: String,
    /// Tenths of a percent, or `None` when this update carries no numeric
    /// progress.
    pub progress: Option<u32>,
    pub status: JobStatus,
    pub detailed_status: Option<Phase>,
    /// The raw output line, when this update was caused by one.
    pub log: Option<String>,
}

/// The terminal error event for one job, with the flag that distinguishes
/// a user-requested cancellation from a genuine failure.
pub struct DownloadErrorPayload {
    pub id: String,
    pub error: String,
    pub is_cancelled: bool,
}

} // verus!
