//! The data model: download tasks, their states, media descriptions,
//! the configuration and the resumable chunk state.

use vstd::prelude::*;
use std::collections::HashMap;

verus! {

/// The life cycle state of a download task.
#[derive(Debug, Clone, Copy, PartialEq, Eq, Structural)]
pub enum TaskStatus {
    Pending,
    Downloading,
    Paused,
    Merging,
    Error,
    Completed,
}

/// The stored name of each state (lower case).
pub open spec fn status_name(s: TaskStatus) -> Seq<char> {
    match s {
        TaskStatus::Pending => "pending"@,
        TaskStatus::Downloading => "downloading"@,
        TaskStatus::Paused => "paused"@,
        TaskStatus::Merging => "merging"@,
        TaskStatus::Error => "error"@,
        TaskStatus::Completed => "completed"@,
    }
}

/// The state a stored name stands for; any unknown name reads as `Error`.
pub open spec fn status_from_name(n: Seq<char>) -> TaskStatus {
    if n == "pending"@ {
        TaskStatus::Pending
    } else if n == "downloading"@ {
        TaskStatus::Downloading
    } else if n == "paused"@ {
        TaskStatus::Paused
    } else if n == "merging"@ {
        TaskStatus::Merging
    } else if n == "completed"@ {
        TaskStatus::Completed
    } else {
        TaskStatus::Error
    }
}

impl TaskStatus {
    /// The name under which the state is stored.
    pub fn as_str(&self) -> (r: &'static str)
        ensures
            r@ == status_name(*self),
    {
        match self {
            TaskStatus::Pending => "pending",
            TaskStatus::Downloading => "downloading",
            TaskStatus::Paused => "paused",
            TaskStatus::Merging => "merging",
            TaskStatus::Error => "error",
            TaskStatus::Completed => "completed",
        }
    }

    /// Reads a stored state name; anything unknown becomes `Error`.
    pub fn from_str(s: &str) -> (r: TaskStatus)
        ensures
            r == status_from_name(s@),
    {
        if crate::text::str_eq(s, "pending") {
            TaskStatus::Pending
        } else if crate::text::str_eq(s, "downloading") {
            TaskStatus::Downloading
        } else if crate::text::str_eq(s, "paused") {
            TaskStatus::Paused
        } else if crate::text::str_eq(s, "merging") {
            TaskStatus::Merging
        } else if crate::text::str_eq(s, "completed") {
            TaskStatus::Completed
        } else {
            TaskStatus::Error
        }
    }
}

/// Reading back the stored name of a state gives that state again, and
/// distinct states are stored under distinct names.
pub proof fn lemma_status_name_round_trip(s: TaskStatus, t: TaskStatus)
    ensures
        status_from_name(status_name(s)) == s,
        status_name(s) == status_name(t) ==> s == t,
{
    reveal_strlit("pending");
    reveal_strlit("downloading");
    reveal_strlit("paused");
    reveal_strlit("merging");
    reveal_strlit("error");
    reveal_strlit("completed");
    assert("pending"@.len() != "downloading"@.len());
    assert("pending"@.len() != "paused"@.len());
    assert("pending"@[0] != "merging"@[0]);
    assert("pending"@.len() != "completed"@.len());
    assert("pending"@.len() != "error"@.len());
    assert("downloading"@.len() != "paused"@.len());
    assert("downloading"@.len() != "merging"@.len());
    assert("downloading"@.len() != "completed"@.len());
    assert("downloading"@.len() != "error"@.len());
    assert("paused"@.len() != "merging"@.len());
    assert("paused"@.len() != "completed"@.len());
    assert("paused"@.len() != "error"@.len());
    assert("merging"@.len() != "completed"@.len());
    assert("merging"@.len() != "error"@.len());
    assert("completed"@.len() != "error"@.len());
}

/// A name that is none of the six state names reads as `Error`.
pub proof fn lemma_unknown_name_is_error(n: Seq<char>)
    requires
        forall|s: TaskStatus| status_name(s) != n,
    ensures
        status_from_name(n) == TaskStatus::Error,
{
    assert(status_name(TaskStatus::Pending) != n);
    assert(status_name(TaskStatus::Downloading) != n);
    assert(status_name(TaskStatus::Paused) != n);
    assert(status_name(TaskStatus::Merging) != n);
    assert(status_name(TaskStatus::Completed) != n);
}

/// A download task. The transfer speed, a floating point figure, is kept
/// by the application layer beside it.
#[derive(Debug, Clone)]
pub struct Task {
    pub id: String,
    pub url: String,
    pub title: String,
    pub thumbnail: Option<String>,
    pub status: TaskStatus,
    pub format_id: String,
    pub playlist_items: Option<String>,
    pub http_headers: Option<String>,
    pub total_bytes: u64,
    pub downloaded_bytes: u64,
    pub eta: u64,
    pub created_at: i64,
    pub error_msg: Option<String>,
}

impl Task {
    /// The fields of a freshly created task with the given creation time.
    pub open spec fn fresh(
        self,
        id: Seq<char>,
        url: Seq<char>,
        title: Seq<char>,
        thumbnail: Option<String>,
        format_id: Seq<char>,
        playlist_items: Option<String>,
        http_headers: Option<String>,
    ) -> bool {
        &&& self.id@ == id
        &&& self.url@ == url
        &&& self.title@ == title
        &&& self.thumbnail == thumbnail
        &&& self.status == TaskStatus::Pending
        &&& self.format_id@ == format_id
        &&& self.playlist_items == playlist_items
        &&& self.http_headers == http_headers
        &&& self.total_bytes == 0
        &&& self.downloaded_bytes == 0
        &&& self.eta == 0
        &&& self.error_msg.is_none()
    }

    /// A new pending task created at the given time (milliseconds since the
    /// Unix epoch, read by the caller), with nothing downloaded yet.
    pub fn new(
        id: String,
        url: String,
        title: String,
        thumbnail: Option<String>,
        format_id: String,
        playlist_items: Option<String>,
        http_headers: Option<String>,
        created_at: i64,
    ) -> (t: Task)
        ensures
            t.fresh(id@, url@, title@, thumbnail, format_id@, playlist_items, http_headers),
            t.created_at == created_at,
    {
        Task {
            id,
            url,
            title,
            thumbnail,
            status: TaskStatus::Pending,
            format_id,
            playlist_items,
            http_headers,
            total_bytes: 0,
            downloaded_bytes: 0,
            eta: 0,
            created_at,
            error_msg: None,
        }
    }
}

impl Task {
    /// A task read back from storage: the stored fields as they are, the
    /// state decoded from its stored name (an unknown name reads as `Error`).
    pub fn from_stored(
        id: String,
        url: String,
        title: String,
        thumbnail: Option<String>,
        status_name: &str,
        format_id: String,
        total_bytes: u64,
        downloaded_bytes: u64,
        eta: u64,
        created_at: i64,
        error_msg: Option<String>,
        playlist_items: Option<String>,
        http_headers: Option<String>,
    ) -> (t: Task)
        ensures
            t.id == id,
            t.url == url,
            t.title == title,
            t.thumbnail == thumbnail,
            t.status == status_from_name(status_name@),
            t.format_id == format_id,
            t.total_bytes == total_bytes,
            t.downloaded_bytes == downloaded_bytes,
            t.eta == eta,
            t.created_at == created_at,
            t.error_msg == error_msg,
            t.playlist_items == playlist_items,
            t.http_headers == http_headers,
    {
        Task {
            id,
            url,
            title,
            thumbnail,
            status: TaskStatus::from_str(status_name),
            format_id,
            playlist_items,
            http_headers,
            total_bytes,
            downloaded_bytes,
            eta,
            created_at,
            error_msg,
        }
    }
}

/// One downloadable format of a media item.
#[derive(Debug, Clone)]
pub struct MediaFormat {
    pub format_id: String,
    pub ext: String,
    pub resolution: String,
    pub filesize: Option<u64>,
    pub vcodec: String,
    pub acodec: String,
    pub format_note: Option<String>,
}

/// One entry of a playlist. Its duration, a floating point figure, is kept
/// by the application layer beside it.
#[derive(Debug, Clone)]
pub struct PlaylistItem {
    pub playlist_index: Option<u32>,
    pub title: String,
    pub url: Option<String>,
    pub id: Option<String>,
}

/// The description of a parsed media link. Its duration, a floating point
/// figure, is kept by the application layer beside it.
#[derive(Debug, Clone)]
pub struct MediaInfo {
    pub id: String,
    pub title: String,
    pub thumbnail: String,
    pub formats: Vec<MediaFormat>,
    pub playlist_entries: Option<Vec<PlaylistItem>>,
}

/// The user settings.
#[derive(Debug, Clone)]
pub struct Config {
    pub default_download_path: String,
    pub max_concurrent_tasks: u8,
    pub max_threads_per_task: u8,
    pub proxy_url: String,
    pub theme: String,
    pub yt_dlp_version: Option<String>,
    pub split_audio_video: bool,
    pub video_quality: String,
    pub audio_quality: String,
    pub use_cookie: bool,
    pub include_metadata: bool,
    pub naming_template: String,
    pub sniff_blacklist: String,
}

/// A media resource reported by the page sniffer.
#[derive(Debug, Clone)]
pub struct SniffedResource {
    pub url: String,
    pub resource_type: String,
    pub filename: String,
    pub page_title: Option<String>,
    pub original_name: Option<String>,
    pub ext: Option<String>,
    pub headers: Option<HashMap<String, String>>,
}

/// The progress of one byte range of a chunked download.
#[derive(Debug, Clone, Copy, PartialEq, Eq, Structural)]
pub struct ChunkState {
    pub id: usize,
    pub start: u64,
    pub end: u64,
    pub current_offset: u64,
    pub is_completed: bool,
}

/// The resumable state of a chunked download, kept beside the file.
#[derive(Debug, Clone)]
pub struct TaskStateFile {
    pub task_id: String,
    pub total_bytes: u64,
    pub file_name: String,
    pub chunks: Vec<ChunkState>,
}

} // verus!
