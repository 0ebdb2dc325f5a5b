//! Plain data types shared across the system: task status vocabulary and
//! the records exchanged with callers and reporting surfaces.
use vstd::prelude::*;

verus! {

/// Persisted status of a download task.
#[derive(Clone, Copy, Debug, PartialEq, Eq, Structural)]
pub enum TaskStatus {
    Queued,
    Running,
    Done,
    Error,
    Cancelled,
}

impl TaskStatus {
    /// The lower-case token of the status.
    pub open spec fn spec_str(self) -> Seq<char> {
        match self {
            TaskStatus::Queued => "queued"@,
            TaskStatus::Running => "running"@,
            TaskStatus::Done => "done"@,
            TaskStatus::Error => "error"@,
            TaskStatus::Cancelled => "cancelled"@,
        }
    }

    /// The lower-case token of the status.
    pub fn as_str(&self) -> (r: &'static str)
        ensures
            r@ == self.spec_str(),
    {
        match self {
            TaskStatus::Queued => "queued",
            TaskStatus::Running => "running",
            TaskStatus::Done => "done",
            TaskStatus::Error => "error",
            TaskStatus::Cancelled => "cancelled",
        }
    }
}

/// Classification of a task by what it downloads.
#[derive(Clone, Copy, Debug, PartialEq, Eq, Structural)]
pub enum TaskType {
    Youtube,
    Playlist,
    Direct,
    TgFile,
    Search,
}

impl TaskType {
    /// The lower-case token of the type.
    pub open spec fn spec_str(self) -> Seq<char> {
        match self {
            TaskType::Youtube => "youtube"@,
            TaskType::Playlist => "playlist"@,
            TaskType::Direct => "direct"@,
            TaskType::TgFile => "tg_file"@,
            TaskType::Search => "search"@,
        }
    }

    /// The lower-case token of the type.
    pub fn as_str(&self) -> (r: &'static str)
        ensures
            r@ == self.spec_str(),
    {
        match self {
            TaskType::Youtube => "youtube",
            TaskType::Playlist => "playlist",
            TaskType::Direct => "direct",
            TaskType::TgFile => "tg_file",
            TaskType::Search => "search",
        }
    }
}

/// One progress notification on its way to a user.
#[derive(Debug)]
pub struct ProgressUpdate {
    pub task_id: String,
    pub chat_id: i64,
    pub percent: u8,
    pub speed: String,
    pub status: String,
    pub eta_seconds: u32,
}

/// One search hit reported by the worker.
#[derive(Debug)]
pub struct SearchResult {
    pub video_id: String,
    pub title: String,
    pub artist: String,
    pub duration: String,
    pub thumbnail: String,
    pub url: String,
}

/// A finished download's file facts.
#[derive(Debug)]
pub struct DownloadResult {
    pub task_id: String,
    pub file_path: String,
    pub file_size: u64,
    pub filename: String,
}

/// System-wide counts for the reporting surface.
#[derive(Debug, Clone, Copy)]
pub struct SystemStats {
    pub total_users: i64,
    pub total_tasks: i64,
    pub running_tasks: i64,
    pub completed_tasks: i64,
    pub failed_tasks: i64,
    pub queued_tasks: i64,
}

/// The download type a request falls back to when none was named.
pub fn default_download_type() -> (r: String)
    ensures
        r@ == "audio"@,
{
    "audio".to_owned()
}

} // verus!
