//! Error taxonomy: transport-level failures local to the dispatcher, and
//! protocol-level errors reported by the worker, classified by code.
use vstd::prelude::*;

verus! {

/// Transport and process failures around the worker IPC channel. These are
/// always local to the dispatcher and returned, never swallowed.
#[derive(Debug)]
pub enum IpcError {
    /// The worker process is not running; every send fails fast.
    NotRunning,
    /// The worker process could not be spawned.
    SpawnFailed(String),
    /// A write to the worker's input stream failed.
    WriteFailed(String),
    /// A read from the worker's output stream failed.
    ReadFailed(String),
    /// A line from the worker was not a valid protocol message.
    InvalidJson(String),
    /// No terminal response arrived within the given number of seconds.
    Timeout(u64),
    /// The worker exited with the given status code.
    WorkerExited(i32),
    /// The worker crashed.
    WorkerCrashed(String),
}

/// Errors the worker reports inside an error response, classified by its
/// machine-readable code.
#[derive(Debug)]
pub enum WorkerError {
    /// Any other remote error, with its code, message and retriable flag.
    Remote { code: String, message: String, retriable: bool },
    /// The remote service timed out or was unavailable.
    NetworkTimeout,
    /// The remote service asked to slow down.
    RateLimited { retry_after_secs: u64 },
    /// The remote content requires authentication.
    AuthRequired,
    /// The content is private, deleted, missing or geo-restricted.
    VideoUnavailable(String),
    /// An error that carried no classification at all.
    Unknown(String),
}

/// How an error code, message, retriable flag and retry delay classify
/// into a `WorkerError`. Classification is pure given the code.
pub open spec fn classifies(
    code: Seq<char>,
    message: Seq<char>,
    retriable: bool,
    retry_after_secs: u64,
    r: WorkerError,
) -> bool {
    if code == "NETWORK_TIMEOUT"@ || code == "SERVICE_UNAVAILABLE"@ {
        r == WorkerError::NetworkTimeout
    } else if code == "RATE_LIMITED"@ {
        r == (WorkerError::RateLimited { retry_after_secs })
    } else if code == "REQUIRE_AUTH"@ || code == "COOKIE_EXPIRED"@ {
        r == WorkerError::AuthRequired
    } else if code == "VIDEO_PRIVATE"@ || code == "VIDEO_DELETED"@ || code == "VIDEO_NOT_FOUND"@
        || code == "GEO_RESTRICTED"@ {
        r matches WorkerError::VideoUnavailable(m) && m@ == message
    } else {
        r matches WorkerError::Remote { code: c, message: m, retriable: rb } && c@ == code && m@
            == message && rb == retriable
    }
}

/// Classify a worker error from its extracted fields. The mapping follows
/// the code alone; the message and flags are carried through.
pub fn classify_worker_error(
    code: &str,
    message: &str,
    retriable: bool,
    retry_after_secs: u64,
) -> (r: WorkerError)
    ensures
        classifies(code@, message@, retriable, retry_after_secs, r),
{
    if crate::util::str_eq(code, "NETWORK_TIMEOUT") || crate::util::str_eq(
        code,
        "SERVICE_UNAVAILABLE",
    ) {
        WorkerError::NetworkTimeout
    } else if crate::util::str_eq(code, "RATE_LIMITED") {
        WorkerError::RateLimited { retry_after_secs }
    } else if crate::util::str_eq(code, "REQUIRE_AUTH") || crate::util::str_eq(
        code,
        "COOKIE_EXPIRED",
    ) {
        WorkerError::AuthRequired
    } else if crate::util::str_eq(code, "VIDEO_PRIVATE") || crate::util::str_eq(
        code,
        "VIDEO_DELETED",
    ) || crate::util::str_eq(code, "VIDEO_NOT_FOUND") || crate::util::str_eq(
        code,
        "GEO_RESTRICTED",
    ) {
        WorkerError::VideoUnavailable(message.to_owned())
    } else {
        WorkerError::Remote {
            code: code.to_owned(),
            message: message.to_owned(),
            retriable,
        }
    }
}

/// The error code a data bag carries: its `error_code` string, or the
/// unknown marker when it has none.
pub open spec fn bag_code(data: serde_json::Value) -> Seq<char> {
    match crate::jsonval::str_field_of(data, "error_code"@) {
        Some(s) => s,
        None => "UNKNOWN"@,
    }
}

/// The message a data bag carries: its `message` string, or a placeholder
/// when it has none.
pub open spec fn bag_message(data: serde_json::Value) -> Seq<char> {
    match crate::jsonval::str_field_of(data, "message"@) {
        Some(s) => s,
        None => "Unknown error"@,
    }
}

/// The retriable flag a data bag carries; absent means not retriable.
pub open spec fn bag_retriable(data: serde_json::Value) -> bool {
    match crate::jsonval::bool_field_of(data, "retriable"@) {
        Some(b) => b,
        None => false,
    }
}

/// The retry delay a data bag carries; absent means one minute.
pub open spec fn bag_retry_after(data: serde_json::Value) -> u64 {
    match crate::jsonval::u64_field_of(data, "retry_after"@) {
        Some(n) => n,
        None => 60,
    }
}

impl WorkerError {
    /// Build a worker error from the data bag of an error response: the
    /// bag's code, message, retriable flag and retry delay — with their
    /// stated defaults where the bag leaves a field out — classified by
    /// the code.
    pub fn from_ipc_data(data: &serde_json::Value) -> (r: WorkerError)
        ensures
            classifies(bag_code(*data), bag_message(*data), bag_retriable(*data), bag_retry_after(*data), r),
    {
        let code = match crate::jsonval::value_get(data, "error_code") {
            Some(v) => match crate::jsonval::value_as_string(v) {
                Some(s) => s,
                None => "UNKNOWN".to_owned(),
            },
            None => "UNKNOWN".to_owned(),
        };
        let message = match crate::jsonval::value_get(data, "message") {
            Some(v) => match crate::jsonval::value_as_string(v) {
                Some(s) => s,
                None => "Unknown error".to_owned(),
            },
            None => "Unknown error".to_owned(),
        };
        let retriable = match crate::jsonval::value_get(data, "retriable") {
            Some(v) => match crate::jsonval::value_as_bool(v) {
                Some(b) => b,
                None => false,
            },
            None => false,
        };
        let retry_after = match crate::jsonval::value_get(data, "retry_after") {
            Some(v) => match crate::jsonval::value_as_u64(v) {
                Some(n) => n,
                None => 60,
            },
            None => 60,
        };
        let r = classify_worker_error(code.as_str(), message.as_str(), retriable, retry_after);
        proof {
            assert(code@ == bag_code(*data));
            assert(message@ == bag_message(*data));
            assert(retriable == bag_retriable(*data));
            assert(retry_after == bag_retry_after(*data));
        }
        r
    }

    /// Whether a caller may usefully retry after this error: network
    /// timeouts, rate limits, and remote errors flagged retriable.
    pub fn is_retriable(&self) -> (r: bool)
        ensures
            r == (self matches WorkerError::NetworkTimeout || self matches WorkerError::RateLimited {
                ..
            } || (self matches WorkerError::Remote { retriable, .. } && *retriable)),
    {
        match self {
            WorkerError::NetworkTimeout => true,
            WorkerError::RateLimited { .. } => true,
            WorkerError::Remote { retriable, .. } => *retriable,
            _ => false,
        }
    }
}

} // verus!
