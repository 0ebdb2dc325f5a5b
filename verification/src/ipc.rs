//! Wire protocol codec: request and response envelopes exchanged with the
//! worker process as one JSON object per line.
//!
//! Requests are serialized by verified code whose output is pinned, byte
//! for byte, by `request_json`. Responses arrive as text and are parsed
//! through `serde_json`; the envelope fields are extracted into plain
//! values and the event vocabulary is decoded by verified code.
//!
//! The codec is pure syntactic translation: it does not enforce the
//! progress-then-terminal protocol invariant, which is a contract between
//! the dispatcher and the worker.
use vstd::prelude::*;

use crate::errors::IpcError;
use crate::jsonval;
use crate::util::dec_digits;
use crate::util::digit_char;
use crate::util::str_eq;
use crate::util::u64_to_string;

verus! {

/// The closed set of actions a request may ask of the worker.
#[derive(Clone, Copy, Debug, PartialEq, Eq, Structural)]
pub enum IPCAction {
    YoutubeDl,
    YoutubeSearch,
    GetVideoInfo,
    GetFormats,
    Playlist,
    CacheCleanup,
    CacheStats,
    HealthCheck,
}

impl IPCAction {
    /// The wire token of this action.
    pub open spec fn spec_token(self) -> Seq<char> {
        match self {
            IPCAction::YoutubeDl => "youtube_dl"@,
            IPCAction::YoutubeSearch => "youtube_search"@,
            IPCAction::GetVideoInfo => "get_video_info"@,
            IPCAction::GetFormats => "get_formats"@,
            IPCAction::Playlist => "playlist"@,
            IPCAction::CacheCleanup => "cache_cleanup"@,
            IPCAction::CacheStats => "cache_stats"@,
            IPCAction::HealthCheck => "health_check"@,
        }
    }

    /// The wire token of this action.
    pub fn token(&self) -> (r: &'static str)
        ensures
            r@ == self.spec_token(),
    {
        match self {
            IPCAction::YoutubeDl => "youtube_dl",
            IPCAction::YoutubeSearch => "youtube_search",
            IPCAction::GetVideoInfo => "get_video_info",
            IPCAction::GetFormats => "get_formats",
            IPCAction::Playlist => "playlist",
            IPCAction::CacheCleanup => "cache_cleanup",
            IPCAction::CacheStats => "cache_stats",
            IPCAction::HealthCheck => "health_check",
        }
    }
}

/// The closed set of events a response may carry.
#[derive(Clone, Copy, Debug, PartialEq, Eq, Structural)]
pub enum IPCEvent {
    Progress,
    Done,
    Error,
    SearchResults,
    VideoInfo,
    FormatList,
    HealthOk,
    CacheStats,
    CacheCleanupDone,
    Retry,
}

impl IPCEvent {
    /// The wire token of this event.
    pub open spec fn spec_token(self) -> Seq<char> {
        match self {
            IPCEvent::Progress => "progress"@,
            IPCEvent::Done => "done"@,
            IPCEvent::Error => "error"@,
            IPCEvent::SearchResults => "search_results"@,
            IPCEvent::VideoInfo => "video_info"@,
            IPCEvent::FormatList => "format_list"@,
            IPCEvent::HealthOk => "health_ok"@,
            IPCEvent::CacheStats => "cache_stats"@,
            IPCEvent::CacheCleanupDone => "cache_cleanup_done"@,
            IPCEvent::Retry => "retry"@,
        }
    }

    /// The wire token of this event.
    pub fn token(&self) -> (r: &'static str)
        ensures
            r@ == self.spec_token(),
    {
        match self {
            IPCEvent::Progress => "progress",
            IPCEvent::Done => "done",
            IPCEvent::Error => "error",
            IPCEvent::SearchResults => "search_results",
            IPCEvent::VideoInfo => "video_info",
            IPCEvent::FormatList => "format_list",
            IPCEvent::HealthOk => "health_ok",
            IPCEvent::CacheStats => "cache_stats",
            IPCEvent::CacheCleanupDone => "cache_cleanup_done",
            IPCEvent::Retry => "retry",
        }
    }

    /// Decode a wire token into an event; an unknown token decodes to
    /// nothing.
    pub fn from_token(s: &str) -> (r: Option<IPCEvent>)
        ensures
            match r {
                Some(e) => s@ == e.spec_token(),
                None => forall|e: IPCEvent| s@ != #[trigger] e.spec_token(),
            },
    {
        if str_eq(s, "progress") {
            Some(IPCEvent::Progress)
        } else if str_eq(s, "done") {
            Some(IPCEvent::Done)
        } else if str_eq(s, "error") {
            Some(IPCEvent::Error)
        } else if str_eq(s, "search_results") {
            Some(IPCEvent::SearchResults)
        } else if str_eq(s, "video_info") {
            Some(IPCEvent::VideoInfo)
        } else if str_eq(s, "format_list") {
            Some(IPCEvent::FormatList)
        } else if str_eq(s, "health_ok") {
            Some(IPCEvent::HealthOk)
        } else if str_eq(s, "cache_stats") {
            Some(IPCEvent::CacheStats)
        } else if str_eq(s, "cache_cleanup_done") {
            Some(IPCEvent::CacheCleanupDone)
        } else if str_eq(s, "retry") {
            Some(IPCEvent::Retry)
        } else {
            proof {
                assert forall|e: IPCEvent| s@ != #[trigger] e.spec_token() by {
                    match e {
                        IPCEvent::Progress => assert(s@ != "progress"@),
                        IPCEvent::Done => assert(s@ != "done"@),
                        IPCEvent::Error => assert(s@ != "error"@),
                        IPCEvent::SearchResults => assert(s@ != "search_results"@),
                        IPCEvent::VideoInfo => assert(s@ != "video_info"@),
                        IPCEvent::FormatList => assert(s@ != "format_list"@),
                        IPCEvent::HealthOk => assert(s@ != "health_ok"@),
                        IPCEvent::CacheStats => assert(s@ != "cache_stats"@),
                        IPCEvent::CacheCleanupDone => assert(s@ != "cache_cleanup_done"@),
                        IPCEvent::Retry => assert(s@ != "retry"@),
                    }
                }
            }
            None
        }
    }
}

/// Law: the event vocabulary is injective on the wire — two events with
/// the same token are the same event, so decoding a token recovers the
/// event that was encoded.
pub proof fn lemma_event_token_injective(a: IPCEvent, b: IPCEvent)
    requires
        a.spec_token() == b.spec_token(),
    ensures
        a == b,
{
    reveal_strlit("progress");
    reveal_strlit("done");
    reveal_strlit("error");
    reveal_strlit("search_results");
    reveal_strlit("video_info");
    reveal_strlit("format_list");
    reveal_strlit("health_ok");
    reveal_strlit("cache_stats");
    reveal_strlit("cache_cleanup_done");
    reveal_strlit("retry");
    match (a, b) {
        (IPCEvent::Progress, IPCEvent::Progress) => {}
        (IPCEvent::Progress, IPCEvent::Done) => {
            assert("progress"@.len() == 8);
            assert("done"@.len() == 4);
                }
        (IPCEvent::Progress, IPCEvent::Error) => {
            assert("progress"@.len() == 8);
            assert("error"@.len() == 5);
                }
        (IPCEvent::Progress, IPCEvent::SearchResults) => {
            assert("progress"@.len() == 8);
            assert("search_results"@.len() == 14);
                }
        (IPCEvent::Progress, IPCEvent::VideoInfo) => {
            assert("progress"@.len() == 8);
            assert("video_info"@.len() == 10);
                }
        (IPCEvent::Progress, IPCEvent::FormatList) => {
            assert("progress"@.len() == 8);
            assert("format_list"@.len() == 11);
                }
        (IPCEvent::Progress, IPCEvent::HealthOk) => {
            assert("progress"@.len() == 8);
            assert("health_ok"@.len() == 9);
                }
        (IPCEvent::Progress, IPCEvent::CacheStats) => {
            assert("progress"@.len() == 8);
            assert("cache_stats"@.len() == 11);
                }
        (IPCEvent::Progress, IPCEvent::CacheCleanupDone) => {
            assert("progress"@.len() == 8);
            assert("cache_cleanup_done"@.len() == 18);
                }
        (IPCEvent::Progress, IPCEvent::Retry) => {
            assert("progress"@.len() == 8);
            assert("retry"@.len() == 5);
                }
        (IPCEvent::Done, IPCEvent::Progress) => {
            assert("done"@.len() == 4);
            assert("progress"@.len() == 8);
                }
        (IPCEvent::Done, IPCEvent::Done) => {}
        (IPCEvent::Done, IPCEvent::Error) => {
            assert("done"@.len() == 4);
            assert("error"@.len() == 5);
                }
        (IPCEvent::Done, IPCEvent::SearchResults) => {
            assert("done"@.len() == 4);
            assert("search_results"@.len() == 14);
                }
        (IPCEvent::Done, IPCEvent::VideoInfo) => {
            assert("done"@.len() == 4);
            assert("video_info"@.len() == 10);
                }
        (IPCEvent::Done, IPCEvent::FormatList) => {
            assert("done"@.len() == 4);
            assert("format_list"@.len() == 11);
                }
        (IPCEvent::Done, IPCEvent::HealthOk) => {
            assert("done"@.len() == 4);
            assert("health_ok"@.len() == 9);
                }
        (IPCEvent::Done, IPCEvent::CacheStats) => {
            assert("done"@.len() == 4);
            assert("cache_stats"@.len() == 11);
                }
        (IPCEvent::Done, IPCEvent::CacheCleanupDone) => {
            assert("done"@.len() == 4);
            assert("cache_cleanup_done"@.len() == 18);
                }
        (IPCEvent::Done, IPCEvent::Retry) => {
            assert("done"@.len() == 4);
            assert("retry"@.len() == 5);
                }
        (IPCEvent::Error, IPCEvent::Progress) => {
            assert("error"@.len() == 5);
            assert("progress"@.len() == 8);
                }
        (IPCEvent::Error, IPCEvent::Done) => {
            assert("error"@.len() == 5);
            assert("done"@.len() == 4);
                }
        (IPCEvent::Error, IPCEvent::Error) => {}
        (IPCEvent::Error, IPCEvent::SearchResults) => {
            assert("error"@.len() == 5);
            assert("search_results"@.len() == 14);
                }
        (IPCEvent::Error, IPCEvent::VideoInfo) => {
            assert("error"@.len() == 5);
            assert("video_info"@.len() == 10);
                }
        (IPCEvent::Error, IPCEvent::FormatList) => {
            assert("error"@.len() == 5);
            assert("format_list"@.len() == 11);
                }
        (IPCEvent::Error, IPCEvent::HealthOk) => {
            assert("error"@.len() == 5);
            assert("health_ok"@.len() == 9);
                }
        (IPCEvent::Error, IPCEvent::CacheStats) => {
            assert("error"@.len() == 5);
            assert("cache_stats"@.len() == 11);
                }
        (IPCEvent::Error, IPCEvent::CacheCleanupDone) => {
            assert("error"@.len() == 5);
            assert("cache_cleanup_done"@.len() == 18);
                }
        (IPCEvent::Error, IPCEvent::Retry) => {
            assert("error"@[0] == 'e');
            assert("retry"@[0] == 'r');
                }
        (IPCEvent::SearchResults, IPCEvent::Progress) => {
            assert("search_results"@.len() == 14);
            assert("progress"@.len() == 8);
                }
        (IPCEvent::SearchResults, IPCEvent::Done) => {
            assert("search_results"@.len() == 14);
            assert("done"@.len() == 4);
                }
        (IPCEvent::SearchResults, IPCEvent::Error) => {
            assert("search_results"@.len() == 14);
            assert("error"@.len() == 5);
                }
        (IPCEvent::SearchResults, IPCEvent::SearchResults) => {}
        (IPCEvent::SearchResults, IPCEvent::VideoInfo) => {
            assert("search_results"@.len() == 14);
            assert("video_info"@.len() == 10);
                }
        (IPCEvent::SearchResults, IPCEvent::FormatList) => {
            assert("search_results"@.len() == 14);
            assert("format_list"@.len() == 11);
                }
        (IPCEvent::SearchResults, IPCEvent::HealthOk) => {
            assert("search_results"@.len() == 14);
            assert("health_ok"@.len() == 9);
                }
        (IPCEvent::SearchResults, IPCEvent::CacheStats) => {
            assert("search_results"@.len() == 14);
            assert("cache_stats"@.len() == 11);
                }
        (IPCEvent::SearchResults, IPCEvent::CacheCleanupDone) => {
            assert("search_results"@.len() == 14);
            assert("cache_cleanup_done"@.len() == 18);
                }
        (IPCEvent::SearchResults, IPCEvent::Retry) => {
            assert("search_results"@.len() == 14);
            assert("retry"@.len() == 5);
                }
        (IPCEvent::VideoInfo, IPCEvent::Progress) => {
            assert("video_info"@.len() == 10);
            assert("progress"@.len() == 8);
                }
        (IPCEvent::VideoInfo, IPCEvent::Done) => {
            assert("video_info"@.len() == 10);
            assert("done"@.len() == 4);
                }
        (IPCEvent::VideoInfo, IPCEvent::Error) => {
            assert("video_info"@.len() == 10);
            assert("error"@.len() == 5);
                }
        (IPCEvent::VideoInfo, IPCEvent::SearchResults) => {
            assert("video_info"@.len() == 10);
            assert("search_results"@.len() == 14);
                }
        (IPCEvent::VideoInfo, IPCEvent::VideoInfo) => {}
        (IPCEvent::VideoInfo, IPCEvent::FormatList) => {
            assert("video_info"@.len() == 10);
            assert("format_list"@.len() == 11);
                }
        (IPCEvent::VideoInfo, IPCEvent::HealthOk) => {
            assert("video_info"@.len() == 10);
            assert("health_ok"@.len() == 9);
                }
        (IPCEvent::VideoInfo, IPCEvent::CacheStats) => {
            assert("video_info"@.len() == 10);
            assert("cache_stats"@.len() == 11);
                }
        (IPCEvent::VideoInfo, IPCEvent::CacheCleanupDone) => {
            assert("video_info"@.len() == 10);
            assert("cache_cleanup_done"@.len() == 18);
                }
        (IPCEvent::VideoInfo, IPCEvent::Retry) => {
            assert("video_info"@.len() == 10);
            assert("retry"@.len() == 5);
                }
        (IPCEvent::FormatList, IPCEvent::Progress) => {
            assert("format_list"@.len() == 11);
            assert("progress"@.len() == 8);
                }
        (IPCEvent::FormatList, IPCEvent::Done) => {
            assert("format_list"@.len() == 11);
            assert("done"@.len() == 4);
                }
        (IPCEvent::FormatList, IPCEvent::Error) => {
            assert("format_list"@.len() == 11);
            assert("error"@.len() == 5);
                }
        (IPCEvent::FormatList, IPCEvent::SearchResults) => {
            assert("format_list"@.len() == 11);
            assert("search_results"@.len() == 14);
                }
        (IPCEvent::FormatList, IPCEvent::VideoInfo) => {
            assert("format_list"@.len() == 11);
            assert("video_info"@.len() == 10);
                }
        (IPCEvent::FormatList, IPCEvent::FormatList) => {}
        (IPCEvent::FormatList, IPCEvent::HealthOk) => {
            assert("format_list"@.len() == 11);
            assert("health_ok"@.len() == 9);
                }
        (IPCEvent::FormatList, IPCEvent::CacheStats) => {
            assert("format_list"@[0] == 'f');
            assert("cache_stats"@[0] == 'c');
                }
        (IPCEvent::FormatList, IPCEvent::CacheCleanupDone) => {
            assert("format_list"@.len() == 11);
            assert("cache_cleanup_done"@.len() == 18);
                }
        (IPCEvent::FormatList, IPCEvent::Retry) => {
            assert("format_list"@.len() == 11);
            assert("retry"@.len() == 5);
                }
        (IPCEvent::HealthOk, IPCEvent::Progress) => {
            assert("health_ok"@.len() == 9);
            assert("progress"@.len() == 8);
                }
        (IPCEvent::HealthOk, IPCEvent::Done) => {
            assert("health_ok"@.len() == 9);
            assert("done"@.len() == 4);
                }
        (IPCEvent::HealthOk, IPCEvent::Error) => {
            assert("health_ok"@.len() == 9);
            assert("error"@.len() == 5);
                }
        (IPCEvent::HealthOk, IPCEvent::SearchResults) => {
            assert("health_ok"@.len() == 9);
            assert("search_results"@.len() == 14);
                }
        (IPCEvent::HealthOk, IPCEvent::VideoInfo) => {
            assert("health_ok"@.len() == 9);
            assert("video_info"@.len() == 10);
                }
        (IPCEvent::HealthOk, IPCEvent::FormatList) => {
            assert("health_ok"@.len() == 9);
            assert("format_list"@.len() == 11);
                }
        (IPCEvent::HealthOk, IPCEvent::HealthOk) => {}
        (IPCEvent::HealthOk, IPCEvent::CacheStats) => {
            assert("health_ok"@.len() == 9);
            assert("cache_stats"@.len() == 11);
                }
        (IPCEvent::HealthOk, IPCEvent::CacheCleanupDone) => {
            assert("health_ok"@.len() == 9);
            assert("cache_cleanup_done"@.len() == 18);
                }
        (IPCEvent::HealthOk, IPCEvent::Retry) => {
            assert("health_ok"@.len() == 9);
            assert("retry"@.len() == 5);
                }
        (IPCEvent::CacheStats, IPCEvent::Progress) => {
            assert("cache_stats"@.len() == 11);
            assert("progress"@.len() == 8);
                }
        (IPCEvent::CacheStats, IPCEvent::Done) => {
            assert("cache_stats"@.len() == 11);
            assert("done"@.len() == 4);
                }
        (IPCEvent::CacheStats, IPCEvent::Error) => {
            assert("cache_stats"@.len() == 11);
            assert("error"@.len() == 5);
                }
        (IPCEvent::CacheStats, IPCEvent::SearchResults) => {
            assert("cache_stats"@.len() == 11);
            assert("search_results"@.len() == 14);
                }
        (IPCEvent::CacheStats, IPCEvent::VideoInfo) => {
            assert("cache_stats"@.len() == 11);
            assert("video_info"@.len() == 10);
                }
        (IPCEvent::CacheStats, IPCEvent::FormatList) => {
            assert("cache_stats"@[0] == 'c');
            assert("format_list"@[0] == 'f');
                }
        (IPCEvent::CacheStats, IPCEvent::HealthOk) => {
            assert("cache_stats"@.len() == 11);
            assert("health_ok"@.len() == 9);
                }
        (IPCEvent::CacheStats, IPCEvent::CacheStats) => {}
        (IPCEvent::CacheStats, IPCEvent::CacheCleanupDone) => {
            assert("cache_stats"@.len() == 11);
            assert("cache_cleanup_done"@.len() == 18);
                }
        (IPCEvent::CacheStats, IPCEvent::Retry) => {
            assert("cache_stats"@.len() == 11);
            assert("retry"@.len() == 5);
                }
        (IPCEvent::CacheCleanupDone, IPCEvent::Progress) => {
            assert("cache_cleanup_done"@.len() == 18);
            assert("progress"@.len() == 8);
                }
        (IPCEvent::CacheCleanupDone, IPCEvent::Done) => {
            assert("cache_cleanup_done"@.len() == 18);
            assert("done"@.len() == 4);
                }
        (IPCEvent::CacheCleanupDone, IPCEvent::Error) => {
            assert("cache_cleanup_done"@.len() == 18);
            assert("error"@.len() == 5);
                }
        (IPCEvent::CacheCleanupDone, IPCEvent::SearchResults) => {
            assert("cache_cleanup_done"@.len() == 18);
            assert("search_results"@.len() == 14);
                }
        (IPCEvent::CacheCleanupDone, IPCEvent::VideoInfo) => {
            assert("cache_cleanup_done"@.len() == 18);
            assert("video_info"@.len() == 10);
                }
        (IPCEvent::CacheCleanupDone, IPCEvent::FormatList) => {
            assert("cache_cleanup_done"@.len() == 18);
            assert("format_list"@.len() == 11);
                }
        (IPCEvent::CacheCleanupDone, IPCEvent::HealthOk) => {
            assert("cache_cleanup_done"@.len() == 18);
            assert("health_ok"@.len() == 9);
                }
        (IPCEvent::CacheCleanupDone, IPCEvent::CacheStats) => {
            assert("cache_cleanup_done"@.len() == 18);
            assert("cache_stats"@.len() == 11);
                }
        (IPCEvent::CacheCleanupDone, IPCEvent::CacheCleanupDone) => {}
        (IPCEvent::CacheCleanupDone, IPCEvent::Retry) => {
            assert("cache_cleanup_done"@.len() == 18);
            assert("retry"@.len() == 5);
                }
        (IPCEvent::Retry, IPCEvent::Progress) => {
            assert("retry"@.len() == 5);
            assert("progress"@.len() == 8);
                }
        (IPCEvent::Retry, IPCEvent::Done) => {
            assert("retry"@.len() == 5);
            assert("done"@.len() == 4);
                }
        (IPCEvent::Retry, IPCEvent::Error) => {
            assert("retry"@[0] == 'r');
            assert("error"@[0] == 'e');
                }
        (IPCEvent::Retry, IPCEvent::SearchResults) => {
            assert("retry"@.len() == 5);
            assert("search_results"@.len() == 14);
                }
        (IPCEvent::Retry, IPCEvent::VideoInfo) => {
            assert("retry"@.len() == 5);
            assert("video_info"@.len() == 10);
                }
        (IPCEvent::Retry, IPCEvent::FormatList) => {
            assert("retry"@.len() == 5);
            assert("format_list"@.len() == 11);
                }
        (IPCEvent::Retry, IPCEvent::HealthOk) => {
            assert("retry"@.len() == 5);
            assert("health_ok"@.len() == 9);
                }
        (IPCEvent::Retry, IPCEvent::CacheStats) => {
            assert("retry"@.len() == 5);
            assert("cache_stats"@.len() == 11);
                }
        (IPCEvent::Retry, IPCEvent::CacheCleanupDone) => {
            assert("retry"@.len() == 5);
            assert("cache_cleanup_done"@.len() == 18);
                }
        (IPCEvent::Retry, IPCEvent::Retry) => {}
    }
}

/// One value of the opaque per-action parameter bag: requests carry flat
/// key-value parameters of these shapes.
#[derive(Debug)]
pub enum ParamValue {
    Bool(bool),
    UInt(u64),
    Str(String),
}

/// The escape of one character inside a JSON string literal: quotes and
/// backslashes are escaped, control characters take the `\u00XX` form, and
/// every other character stands for itself.
pub open spec fn escaped_char(c: char) -> Seq<char> {
    if c == '"' {
        "\\\""@
    } else if c == '\\' {
        "\\\\"@
    } else if (c as int) < 32 {
        "\\u00"@ + seq![hex_char(((c as int) / 16) as nat), hex_char(((c as int) % 16) as nat)]
    } else {
        seq![c]
    }
}

/// The lower-case hexadecimal digit for a value below sixteen.
pub open spec fn hex_char(d: nat) -> char {
    if d < 10 {
        digit_char(d)
    } else if d == 10 {
        'a'
    } else if d == 11 {
        'b'
    } else if d == 12 {
        'c'
    } else if d == 13 {
        'd'
    } else if d == 14 {
        'e'
    } else {
        'f'
    }
}

/// The body of a JSON string literal holding the text `s`.
pub open spec fn json_escaped(s: Seq<char>) -> Seq<char>
    decreases s.len(),
{
    if s.len() == 0 {
        Seq::empty()
    } else {
        json_escaped(s.drop_last()) + escaped_char(s.last())
    }
}

/// A JSON string literal holding the text `s`, quotes included.
pub open spec fn json_quoted(s: Seq<char>) -> Seq<char> {
    "\""@ + json_escaped(s) + "\""@
}

/// The JSON text of one parameter value.
pub open spec fn param_json(v: ParamValue) -> Seq<char> {
    match v {
        ParamValue::Bool(b) => if b {
            "true"@
        } else {
            "false"@
        },
        ParamValue::UInt(n) => dec_digits(n as nat),
        ParamValue::Str(s) => json_quoted(s@),
    }
}

/// The JSON text of one `key: value` member.
pub open spec fn entry_json(key: Seq<char>, v: ParamValue) -> Seq<char> {
    json_quoted(key) + ":"@ + param_json(v)
}

/// The comma-separated members of the first `n` parameters.
pub open spec fn params_json(ps: Seq<(String, ParamValue)>, n: int) -> Seq<char>
    decreases n,
{
    if n <= 0 {
        Seq::empty()
    } else if n == 1 {
        entry_json(ps[0].0@, ps[0].1)
    } else {
        params_json(ps, n - 1) + ","@ + entry_json(ps[n - 1].0@, ps[n - 1].1)
    }
}

/// A request sent to the worker over its input stream.
#[derive(Debug)]
pub struct IPCRequest {
    pub task_id: String,
    pub action: IPCAction,
    pub url: Option<String>,
    pub params: Vec<(String, ParamValue)>,
}

/// The complete wire line of a request: the envelope object with its task
/// id, action token, optional url, and parameter object.
pub open spec fn request_json(r: IPCRequest) -> Seq<char> {
    "{\"task_id\":"@ + json_quoted(r.task_id@) + ",\"action\":\""@ + r.action.spec_token() + "\""@
        + (match r.url {
        Some(u) => ",\"url\":"@ + json_quoted(u@),
        None => Seq::empty(),
    }) + ",\"params\":{"@ + params_json(r.params@, r.params@.len() as int) + "}}"@
}

/// One lower-case hexadecimal digit as text.
fn hex_str(d: u32) -> (r: &'static str)
    requires
        d < 16,
    ensures
        r@ == seq![hex_char(d as nat)],
{
    proof {
        reveal_strlit("0");
        reveal_strlit("1");
        reveal_strlit("2");
        reveal_strlit("3");
        reveal_strlit("4");
        reveal_strlit("5");
        reveal_strlit("6");
        reveal_strlit("7");
        reveal_strlit("8");
        reveal_strlit("9");
        reveal_strlit("a");
        reveal_strlit("b");
        reveal_strlit("c");
        reveal_strlit("d");
        reveal_strlit("e");
        reveal_strlit("f");
    }
    if d == 0 {
        "0"
    } else if d == 1 {
        "1"
    } else if d == 2 {
        "2"
    } else if d == 3 {
        "3"
    } else if d == 4 {
        "4"
    } else if d == 5 {
        "5"
    } else if d == 6 {
        "6"
    } else if d == 7 {
        "7"
    } else if d == 8 {
        "8"
    } else if d == 9 {
        "9"
    } else if d == 10 {
        "a"
    } else if d == 11 {
        "b"
    } else if d == 12 {
        "c"
    } else if d == 13 {
        "d"
    } else if d == 14 {
        "e"
    } else {
        "f"
    }
}

/// Append the escaped body of `s` to `out`.
fn append_escaped(s: &str, out: &mut String)
    ensures
        final(out)@ == old(out)@ + json_escaped(s@),
{
    let n = s.unicode_len();
    let mut i: usize = 0;
    while i < n
        invariant
            n == s@.len(),
            0 <= i <= n,
            out@ == old(out)@ + json_escaped(s@.subrange(0, i as int)),
        decreases n - i,
    {
        let c = s.get_char(i);
        let cv: u32 = c as u32;
        proof {
            assert(s@.subrange(0, i as int + 1).drop_last() =~= s@.subrange(0, i as int));
            assert(s@.subrange(0, i as int + 1).last() == s@[i as int]);
        }
        if cv == 34 {
            assert(c == '"');
            out.append("\\\"");
        } else if cv == 92 {
            assert(c == '\\');
            out.append("\\\\");
        } else if cv < 32 {
            assert(c != '"' && c != '\\');
            out.append("\\u00");
            out.append(hex_str(cv / 16));
            out.append(hex_str(cv % 16));
            proof {
                assert(escaped_char(c) == "\\u00"@ + seq![
                    hex_char(((c as int) / 16) as nat),
                    hex_char(((c as int) % 16) as nat),
                ]);
                assert(out@ =~= old(out)@ + json_escaped(s@.subrange(0, i as int + 1)));
            }
        } else {
            assert(c != '"' && c != '\\' && (c as int) >= 32);
            let piece = s.substring_char(i, i + 1);
            proof {
                assert(piece@ =~= seq![s@[i as int]]);
            }
            out.append(piece);
        }
        proof {
            assert(out@ =~= old(out)@ + json_escaped(s@.subrange(0, i as int + 1)));
        }
        i = i + 1;
    }
    proof {
        assert(s@.subrange(0, n as int) =~= s@);
    }
}

/// Append the quoted JSON string literal for `s` to `out`.
fn append_quoted(s: &str, out: &mut String)
    ensures
        final(out)@ == old(out)@ + json_quoted(s@),
{
    out.append("\"");
    append_escaped(s, out);
    out.append("\"");
    proof {
        assert(out@ =~= old(out)@ + json_quoted(s@));
    }
}

impl IPCRequest {
    /// A request with the given id and action, no url and no parameters.
    pub fn new(task_id: &str, action: IPCAction) -> (r: IPCRequest)
        ensures
            r.task_id@ == task_id@,
            r.action == action,
            r.url is None,
            r.params@.len() == 0,
    {
        IPCRequest { task_id: task_id.to_owned(), action, url: None, params: Vec::new() }
    }

    /// The same request with its target url set.
    pub fn with_url(self, url: &str) -> (r: IPCRequest)
        ensures
            r.task_id == self.task_id,
            r.action == self.action,
            r.url matches Some(u) && u@ == url@,
            r.params == self.params,
    {
        IPCRequest { url: Some(url.to_owned()), ..self }
    }

    /// The same request with its parameter bag replaced.
    pub fn with_params(self, params: Vec<(String, ParamValue)>) -> (r: IPCRequest)
        ensures
            r.task_id == self.task_id,
            r.action == self.action,
            r.url == self.url,
            r.params == params,
    {
        IPCRequest { params, ..self }
    }

    /// Serialize the request as its single wire line.
    pub fn to_json_line(&self) -> (r: String)
        ensures
            r@ == request_json(*self),
    {
        let mut out = String::new();
        out.append("{\"task_id\":");
        append_quoted(self.task_id.as_str(), &mut out);
        out.append(",\"action\":\"");
        out.append(self.action.token());
        out.append("\"");
        match &self.url {
            Some(u) => {
                out.append(",\"url\":");
                append_quoted(u.as_str(), &mut out);
            }
            None => {}
        }
        out.append(",\"params\":{");
        let ghost head = out@;
        let n = self.params.len();
        let mut i: usize = 0;
        while i < n
            invariant
                n == self.params@.len(),
                0 <= i <= n,
                out@ == head + params_json(self.params@, i as int),
            decreases n - i,
        {
            if i > 0 {
                out.append(",");
            }
            append_quoted(self.params[i].0.as_str(), &mut out);
            out.append(":");
            match &self.params[i].1 {
                ParamValue::Bool(b) => {
                    if *b {
                        out.append("true");
                    } else {
                        out.append("false");
                    }
                }
                ParamValue::UInt(u) => {
                    let ds = u64_to_string(*u);
                    out.append(ds.as_str());
                }
                ParamValue::Str(s) => {
                    append_quoted(s.as_str(), &mut out);
                }
            }
            proof {
                assert(out@ =~= head + params_json(self.params@, i as int + 1));
            }
            i = i + 1;
        }
        out.append("}}");
        proof {
            assert(out@ =~= request_json(*self));
        }
        out
    }
}

/// A response received from the worker's output stream: the id of the job
/// it answers, its event, and an opaque data bag.
#[derive(Debug)]
pub struct IPCResponse {
    pub task_id: String,
    pub event: IPCEvent,
    pub data: serde_json::Value,
}

/// A line holds a well-formed response envelope: it parses as one JSON
/// document carrying a string `task_id` and a string `event` equal to one
/// of the closed event tokens.
pub open spec fn wire_envelope_ok(line: Seq<char>) -> bool {
    jsonval::parsed_doc(line) matches Some(doc) && {
        &&& jsonval::str_field_of(doc, "task_id"@) is Some
        &&& (jsonval::str_field_of(doc, "event"@) matches Some(tok) && (exists|e: IPCEvent|
            tok == e.spec_token()))
    }
}

/// The envelope `resp` is what the line holds: the document's `task_id`
/// text, its `event` token, and its `data` member — an empty bag when the
/// line carries none.
pub open spec fn wire_envelope_matches(line: Seq<char>, resp: IPCResponse) -> bool {
    jsonval::parsed_doc(line) matches Some(doc) && {
        &&& jsonval::str_field_of(doc, "task_id"@) == Some(resp.task_id@)
        &&& jsonval::str_field_of(doc, "event"@) == Some(resp.event.spec_token())
        &&& match jsonval::field_of(doc, "data"@) {
            Some(d) => resp.data == d,
            None => jsonval::empty_bag(resp.data),
        }
    }
}

impl IPCResponse {
    /// Parse one output line into a response envelope. Succeeds exactly on
    /// a well-formed envelope line — a JSON object with a string `task_id`
    /// and a known `event` token — and returns its fields; a missing
    /// `data` member parses as an empty bag. Purely syntactic: the
    /// progress-then-terminal ordering is not this parser's business.
    pub fn from_json_line(line: &str) -> (r: Result<IPCResponse, IpcError>)
        ensures
            r is Ok <==> wire_envelope_ok(line@),
            r matches Ok(resp) ==> wire_envelope_matches(line@, resp),
    {
        let v = match jsonval::parse_value(line) {
            Ok(v) => v,
            Err(e) => {
                return Err(IpcError::InvalidJson(jsonval::json_error_message(&e)));
            }
        };
        let task_id = match jsonval::value_get(&v, "task_id") {
            Some(t) => match jsonval::value_as_string(t) {
                Some(s) => s,
                None => {
                    return Err(IpcError::InvalidJson("task_id is not a string".to_owned()));
                }
            },
            None => {
                return Err(IpcError::InvalidJson("task_id is missing".to_owned()));
            }
        };
        let event = match jsonval::value_get(&v, "event") {
            Some(t) => match jsonval::value_as_string(t) {
                Some(s) => match IPCEvent::from_token(s.as_str()) {
                    Some(e) => e,
                    None => {
                        return Err(IpcError::InvalidJson("unknown event token".to_owned()));
                    }
                },
                None => {
                    return Err(IpcError::InvalidJson("event is not a string".to_owned()));
                }
            },
            None => {
                return Err(IpcError::InvalidJson("event is missing".to_owned()));
            }
        };
        let data = match jsonval::value_get(&v, "data") {
            Some(d) => jsonval::value_clone(d),
            None => jsonval::value_null(),
        };
        Ok(IPCResponse { task_id, event, data })
    }

    /// Whether this response reports an error.
    pub fn is_error(&self) -> (r: bool)
        ensures
            r == (self.event == IPCEvent::Error),
    {
        self.event == IPCEvent::Error
    }

    /// Whether this response reports completion.
    pub fn is_done(&self) -> (r: bool)
        ensures
            r == (self.event == IPCEvent::Done),
    {
        self.event == IPCEvent::Done
    }

    /// Whether this response is an intermediate progress report.
    pub fn is_progress(&self) -> (r: bool)
        ensures
            r == (self.event == IPCEvent::Progress),
    {
        self.event == IPCEvent::Progress
    }

    /// Whether this response carries a format list.
    pub fn is_format_list(&self) -> (r: bool)
        ensures
            r == (self.event == IPCEvent::FormatList),
    {
        self.event == IPCEvent::FormatList
    }

    /// The human message of an error response: the string under `message`
    /// in the data bag; nothing for any other event, whatever the bag
    /// holds.
    pub fn error_message(&self) -> (r: Option<String>)
        ensures
            match r {
                Some(m) => self.event == IPCEvent::Error && jsonval::str_field_of(
                    self.data,
                    "message"@,
                ) == Some(m@),
                None => self.event != IPCEvent::Error || jsonval::str_field_of(
                    self.data,
                    "message"@,
                ) is None,
            },
    {
        if self.event == IPCEvent::Error {
            match jsonval::value_get(&self.data, "message") {
                Some(m) => jsonval::value_as_string(m),
                None => None,
            }
        } else {
            None
        }
    }

    /// The machine code of an error response: the string under
    /// `error_code` in the data bag; nothing for any other event.
    pub fn error_code(&self) -> (r: Option<String>)
        ensures
            match r {
                Some(c) => self.event == IPCEvent::Error && jsonval::str_field_of(
                    self.data,
                    "error_code"@,
                ) == Some(c@),
                None => self.event != IPCEvent::Error || jsonval::str_field_of(
                    self.data,
                    "error_code"@,
                ) is None,
            },
    {
        if self.event == IPCEvent::Error {
            match jsonval::value_get(&self.data, "error_code") {
                Some(m) => jsonval::value_as_string(m),
                None => None,
            }
        } else {
            None
        }
    }

    /// The progress percentage in the data bag, clamped to one hundred:
    /// the number under `percent`, when the bag carries one.
    pub fn progress_percent(&self) -> (r: Option<u8>)
        ensures
            match r {
                Some(p) => jsonval::u64_field_of(self.data, "percent"@) matches Some(n) && p == (
                if n < 100 {
                    n as int
                } else {
                    100int
                }),
                None => jsonval::u64_field_of(self.data, "percent"@) is None,
            },
            r matches Some(p) ==> p <= 100,
    {
        match jsonval::value_get(&self.data, "percent") {
            Some(v) => match jsonval::value_as_u64(v) {
                Some(n) => Some(clamp_percent(n)),
                None => None,
            },
            None => None,
        }
    }

    /// The string member of the data bag under `key`, if it holds one.
    pub fn data_string(&self, key: &str) -> (r: Option<String>)
        ensures
            match r {
                Some(s) => jsonval::str_field_of(self.data, key@) == Some(s@),
                None => jsonval::str_field_of(self.data, key@) is None,
            },
    {
        match jsonval::value_get(&self.data, key) {
            Some(v) => jsonval::value_as_string(v),
            None => None,
        }
    }

    /// The unsigned-integer member of the data bag under `key`, if it
    /// holds one.
    pub fn data_u64(&self, key: &str) -> (r: Option<u64>)
        ensures
            r == jsonval::u64_field_of(self.data, key@),
    {
        match jsonval::value_get(&self.data, key) {
            Some(v) => jsonval::value_as_u64(v),
            None => None,
        }
    }

    /// The boolean member of the data bag under `key`, if it holds one.
    pub fn data_bool(&self, key: &str) -> (r: Option<bool>)
        ensures
            r == jsonval::bool_field_of(self.data, key@),
    {
        match jsonval::value_get(&self.data, key) {
            Some(v) => jsonval::value_as_bool(v),
            None => None,
        }
    }

    /// The array member of the data bag under `key`, if it holds one.
    pub fn data_array(&self, key: &str) -> (r: Option<&Vec<serde_json::Value>>)
        ensures
            match r {
                Some(a) => jsonval::array_field_of(self.data, key@) == Some(a@),
                None => jsonval::array_field_of(self.data, key@) is None,
            },
    {
        match jsonval::value_get(&self.data, key) {
            Some(v) => jsonval::value_as_array(v),
            None => None,
        }
    }

    /// The display speed string in the data bag: the string under `speed`,
    /// when the bag carries one.
    pub fn progress_speed(&self) -> (r: Option<String>)
        ensures
            match r {
                Some(s) => jsonval::str_field_of(self.data, "speed"@) == Some(s@),
                None => jsonval::str_field_of(self.data, "speed"@) is None,
            },
    {
        match jsonval::value_get(&self.data, "speed") {
            Some(v) => jsonval::value_as_string(v),
            None => None,
        }
    }
}

/// Clamp a reported percentage to the meaningful range.
pub fn clamp_percent(n: u64) -> (r: u8)
    ensures
        r == (if n < 100 {
            n as int
        } else {
            100int
        }),
{
    if n < 100 {
        n as u8
    } else {
        100
    }
}

/// Build a search request: the query and a result limit.
pub fn search_request(task_id: &str, query: &str, limit: u32) -> (r: IPCRequest)
    ensures
        r.task_id@ == task_id@,
        r.action == IPCAction::YoutubeSearch,
        r.url is None,
        r.params@.len() == 2,
        r.params@[0].0@ == "query"@,
        r.params@[0].1 matches ParamValue::Str(q) && q@ == query@,
        r.params@[1].0@ == "limit"@,
        r.params@[1].1 == ParamValue::UInt(limit as u64),
{
    let mut params: Vec<(String, ParamValue)> = Vec::new();
    params.push(("query".to_owned(), ParamValue::Str(query.to_owned())));
    params.push(("limit".to_owned(), ParamValue::UInt(limit as u64)));
    IPCRequest::new(task_id, IPCAction::YoutubeSearch).with_params(params)
}

/// Build a single-item download request.
pub fn download_request(task_id: &str, url: &str, extract_audio: bool, output_dir: &str) -> (r:
    IPCRequest)
    ensures
        r.task_id@ == task_id@,
        r.action == IPCAction::YoutubeDl,
        r.url matches Some(u) && u@ == url@,
        r.params@.len() == 4,
        r.params@[0].0@ == "extract_audio"@,
        r.params@[0].1 == ParamValue::Bool(extract_audio),
        r.params@[1].0@ == "audio_format"@,
        r.params@[1].1 matches ParamValue::Str(s) && s@ == "mp3"@,
        r.params@[2].0@ == "audio_quality"@,
        r.params@[2].1 matches ParamValue::Str(s) && s@ == "192"@,
        r.params@[3].0@ == "output_dir"@,
        r.params@[3].1 matches ParamValue::Str(s) && s@ == output_dir@,
{
    let mut params: Vec<(String, ParamValue)> = Vec::new();
    params.push(("extract_audio".to_owned(), ParamValue::Bool(extract_audio)));
    params.push(("audio_format".to_owned(), ParamValue::Str("mp3".to_owned())));
    params.push(("audio_quality".to_owned(), ParamValue::Str("192".to_owned())));
    params.push(("output_dir".to_owned(), ParamValue::Str(output_dir.to_owned())));
    IPCRequest::new(task_id, IPCAction::YoutubeDl).with_url(url).with_params(params)
}

/// Build a playlist download request.
pub fn playlist_request(task_id: &str, url: &str, output_dir: &str) -> (r: IPCRequest)
    ensures
        r.task_id@ == task_id@,
        r.action == IPCAction::Playlist,
        r.url matches Some(u) && u@ == url@,
        r.params@.len() == 4,
        r.params@[0].0@ == "extract_audio"@,
        r.params@[0].1 == ParamValue::Bool(true),
        r.params@[1].0@ == "audio_format"@,
        r.params@[1].1 matches ParamValue::Str(s) && s@ == "mp3"@,
        r.params@[2].0@ == "output_dir"@,
        r.params@[2].1 matches ParamValue::Str(s) && s@ == output_dir@,
        r.params@[3].0@ == "archive_max_size_mb"@,
        r.params@[3].1 == ParamValue::UInt(100),
{
    let mut params: Vec<(String, ParamValue)> = Vec::new();
    params.push(("extract_audio".to_owned(), ParamValue::Bool(true)));
    params.push(("audio_format".to_owned(), ParamValue::Str("mp3".to_owned())));
    params.push(("output_dir".to_owned(), ParamValue::Str(output_dir.to_owned())));
    params.push(("archive_max_size_mb".to_owned(), ParamValue::UInt(100)));
    IPCRequest::new(task_id, IPCAction::Playlist).with_url(url).with_params(params)
}

/// Build a health-check request.
pub fn health_check_request(task_id: &str) -> (r: IPCRequest)
    ensures
        r.task_id@ == task_id@,
        r.action == IPCAction::HealthCheck,
        r.url is None,
        r.params@.len() == 0,
{
    IPCRequest::new(task_id, IPCAction::HealthCheck)
}

/// Build a video-info request.
pub fn video_info_request(task_id: &str, url: &str) -> (r: IPCRequest)
    ensures
        r.task_id@ == task_id@,
        r.action == IPCAction::GetVideoInfo,
        r.url matches Some(u) && u@ == url@,
        r.params@.len() == 0,
{
    IPCRequest::new(task_id, IPCAction::GetVideoInfo).with_url(url)
}

/// Build a format-listing request for a quality-selection menu.
pub fn get_formats_request(task_id: &str, url: &str, mode: &str) -> (r: IPCRequest)
    ensures
        r.task_id@ == task_id@,
        r.action == IPCAction::GetFormats,
        r.url matches Some(u) && u@ == url@,
        r.params@.len() == 1,
        r.params@[0].0@ == "mode"@,
        r.params@[0].1 matches ParamValue::Str(s) && s@ == mode@,
{
    let mut params: Vec<(String, ParamValue)> = Vec::new();
    params.push(("mode".to_owned(), ParamValue::Str(mode.to_owned())));
    IPCRequest::new(task_id, IPCAction::GetFormats).with_url(url).with_params(params)
}

/// Build a download request pinned to one selected format.
pub fn download_request_with_format(
    task_id: &str,
    url: &str,
    format_id: &str,
    extract_audio: bool,
    audio_format: Option<&str>,
    audio_quality: Option<&str>,
    output_dir: &str,
) -> (r: IPCRequest)
    ensures
        r.task_id@ == task_id@,
        r.action == IPCAction::YoutubeDl,
        r.url matches Some(u) && u@ == url@,
        r.params@.len() == 3 + (if audio_format is Some {
            1int
        } else {
            0int
        }) + (if audio_quality is Some {
            1int
        } else {
            0int
        }),
        r.params@[0].0@ == "format"@,
        r.params@[0].1 matches ParamValue::Str(s) && s@ == format_id@,
        r.params@[1].0@ == "extract_audio"@,
        r.params@[1].1 == ParamValue::Bool(extract_audio),
        r.params@[2].0@ == "output_dir"@,
        r.params@[2].1 matches ParamValue::Str(s) && s@ == output_dir@,
        audio_format matches Some(af) ==> r.params@[3].0@ == "audio_format"@
            && (r.params@[3].1 matches ParamValue::Str(s) && s@ == af@),
        audio_quality matches Some(aq) ==> ({
            let qi: int = if audio_format is Some {
                4
            } else {
                3
            };
            &&& r.params@[qi].0@ == "audio_quality"@
            &&& (r.params@[qi].1 matches ParamValue::Str(s) && s@ == aq@)
        }),
{
    let mut params: Vec<(String, ParamValue)> = Vec::new();
    params.push(("format".to_owned(), ParamValue::Str(format_id.to_owned())));
    params.push(("extract_audio".to_owned(), ParamValue::Bool(extract_audio)));
    params.push(("output_dir".to_owned(), ParamValue::Str(output_dir.to_owned())));
    match audio_format {
        Some(af) => {
            params.push(("audio_format".to_owned(), ParamValue::Str(af.to_owned())));
        }
        None => {}
    }
    match audio_quality {
        Some(aq) => {
            params.push(("audio_quality".to_owned(), ParamValue::Str(aq.to_owned())));
        }
        None => {}
    }
    IPCRequest::new(task_id, IPCAction::YoutubeDl).with_url(url).with_params(params)
}

} // verus!
