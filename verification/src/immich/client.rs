//! The parts of the Immich API this crate uses, and which failures of a
//! request are worth retrying.
use vstd::prelude::*;
use vstd::string::*;

verus! {

/// An Immich API key.
#[derive(Clone)]
pub struct ApiKey(pub String);

impl ApiKey {
    /// The key is the text as given.
    pub fn from_str(s: &str) -> (r: ApiKey)
        ensures
            r.0@ == s@,
    {
        ApiKey(s.to_owned())
    }

    /// What the key shows of itself when printed: a placeholder, never its
    /// value.
    pub fn redacted(&self) -> (r: ApiKey)
        ensures
            r.0@ == "<value redacted for security>"@,
    {
        ApiKey("<value redacted for security>".to_owned())
    }
}

/// The id of an Immich user.
#[derive(Debug, Clone, PartialEq, Eq, PartialOrd, Ord)]
pub struct UserId(pub String);

/// The id of an Immich library.
#[derive(Debug, Clone, PartialEq, Eq, PartialOrd, Ord)]
pub struct LibraryId(pub String);

impl UserId {
    /// The empty id, used until the real one is known.
    pub fn zero() -> (r: UserId)
        ensures
            r.0@ == Seq::<char>::empty(),
    {
        UserId(String::new())
    }

    pub fn same_as(&self, other: &UserId) -> (r: bool)
        ensures
            r == (self.0@ == other.0@),
    {
        crate::text::str_eq(self.0.as_str(), other.0.as_str())
    }
}

impl LibraryId {
    /// The empty id.
    pub fn zero() -> (r: LibraryId)
        ensures
            r.0@ == Seq::<char>::empty(),
    {
        LibraryId(String::new())
    }

    pub fn same_as(&self, other: &LibraryId) -> (r: bool)
        ensures
            r == (self.0@ == other.0@),
    {
        crate::text::str_eq(self.0.as_str(), other.0.as_str())
    }
}

/// An Immich library (Immich sends more fields; these are the ones used).
#[derive(Debug, Clone)]
pub struct Library {
    pub id: LibraryId,
    /// Paths Immich checks for images.
    pub import_paths: Vec<String>,
    pub name: String,
    pub owner_id: UserId,
}

/// The request that creates a library.
#[derive(Debug, Clone)]
pub struct CreateLibrary {
    pub exclusion_patterns: Vec<String>,
    pub import_paths: Vec<String>,
    pub name: String,
    pub owner_id: UserId,
}

impl CreateLibrary {
    /// A library of `owner` named `name` that imports the one path `path`.
    pub fn new(exclusion_patterns: Vec<String>, path: &str, name: String, owner: &UserId) -> (r: CreateLibrary)
        ensures
            r.exclusion_patterns == exclusion_patterns,
            r.import_paths@.len() == 1,
            r.import_paths@[0]@ == path@,
            r.name == name,
            r.owner_id.0@ == owner.0@,
    {
        let mut import_paths = Vec::new();
        import_paths.push(path.to_owned());
        CreateLibrary { exclusion_patterns, import_paths, name, owner_id: owner.clone_id() }
    }
}

impl UserId {
    fn clone_id(&self) -> (r: UserId)
        ensures
            r.0@ == self.0@,
    {
        UserId(self.0.clone())
    }
}

/// Why retrying a request stopped.
#[derive(Debug)]
pub enum RetryError<E> {
    /// Timed out.
    TimedOut,
    /// Unrecoverable error.
    Unrecoverable(E),
}

/// Why a request to the Immich API failed.
#[derive(Debug, Clone)]
pub enum ApiError {
    /// Could not send request.
    FailedToSend(String),
    /// Bad status code.
    BadStatus(u16),
    /// Could not decode response body as json.
    InvalidJson { error: String, response: String },
    /// Could not receive response.
    FailedToReceive(String),
}

/// Status codes that a retry will not fix: bad request, forbidden, not found,
/// method not allowed, not implemented.
pub open spec fn is_final_status(code: u16) -> bool {
    code == 400 || code == 403 || code == 404 || code == 405 || code == 501
}

impl ApiError {
    /// Failures to send or receive and unexpected statuses may pass; a
    /// status that a retry will not fix and an unreadable answer will not.
    pub fn is_recoverable(&self) -> (r: bool)
        ensures
            r == match self {
                ApiError::FailedToSend(_) => true,
                ApiError::FailedToReceive(_) => true,
                ApiError::BadStatus(code) => !is_final_status(*code),
                ApiError::InvalidJson { .. } => false,
            },
    {
        match self {
            ApiError::FailedToSend(_) => true,
            ApiError::FailedToReceive(_) => true,
            ApiError::BadStatus(code) => !(*code == 400 || *code == 403 || *code == 404 || *code == 405
                || *code == 501),
            ApiError::InvalidJson { .. } => false,
        }
    }
}

/// What to log after waiting `period_ms` before another try.
#[derive(Debug, Clone, Copy, PartialEq, Eq, Structural)]
pub enum RetryLog {
    /// The first long wait: warn.
    Warn,
    /// Later long waits.
    Debug,
    /// Short waits go unmentioned.
    Quiet,
}

/// Waits over five seconds are logged: the first one as a warning, the
/// others for debugging. Returns what to log and whether no warning was given
/// yet.
pub fn log_after_wait(period_ms: u64, not_warned: bool) -> (r: (RetryLog, bool))
    ensures
        period_ms > 5000 && not_warned ==> r == (RetryLog::Warn, false),
        period_ms > 5000 && !not_warned ==> r == (RetryLog::Debug, false),
        period_ms <= 5000 ==> r == (RetryLog::Quiet, not_warned),
{
    if period_ms > 5000 {
        if not_warned {
            (RetryLog::Warn, false)
        } else {
            (RetryLog::Debug, false)
        }
    } else {
        (RetryLog::Quiet, not_warned)
    }
}

/// What a retry loop does after a try failed with `error`: give up on an
/// error a retry will not fix, otherwise wait for the next period.
pub fn give_up_after(error: ApiError) -> (r: Result<ApiError, RetryError<ApiError>>)
    ensures
        error.is_recoverable_spec() ==> r == Ok::<ApiError, RetryError<ApiError>>(error),
        !error.is_recoverable_spec() ==> r == Err::<ApiError, RetryError<ApiError>>(RetryError::Unrecoverable(error)),
{
    if error.is_recoverable() {
        Ok(error)
    } else {
        Err(RetryError::Unrecoverable(error))
    }
}

impl ApiError {
    pub open spec fn is_recoverable_spec(&self) -> bool {
        match self {
            ApiError::FailedToSend(_) => true,
            ApiError::FailedToReceive(_) => true,
            ApiError::BadStatus(code) => !is_final_status(*code),
            ApiError::InvalidJson { .. } => false,
        }
    }
}

/// The HTTP methods the Immich API is called with.
#[derive(Debug, Clone, Copy, PartialEq, Eq, Structural)]
pub enum Method {
    Get,
    Post,
    Delete,
}

/// A request to the Immich API: its method and its path below `api/`.
#[derive(Debug, Clone)]
pub struct ApiRequest {
    pub method: Method,
    pub path: String,
}

/// Who the API key belongs to.
pub fn current_user_request() -> (r: ApiRequest)
    ensures
        r.method == Method::Get,
        r.path@ == "users/me"@,
{
    ApiRequest { method: Method::Get, path: "users/me".to_owned() }
}

/// All libraries.
pub fn all_libraries_request() -> (r: ApiRequest)
    ensures
        r.method == Method::Get,
        r.path@ == "libraries"@,
{
    ApiRequest { method: Method::Get, path: "libraries".to_owned() }
}

/// Create a library (the body is a [`CreateLibrary`]).
pub fn create_library_request() -> (r: ApiRequest)
    ensures
        r.method == Method::Post,
        r.path@ == "libraries"@,
{
    ApiRequest { method: Method::Post, path: "libraries".to_owned() }
}

/// Scan library `id` for new and changed files.
pub fn scan_library_request(id: &LibraryId) -> (r: ApiRequest)
    ensures
        r.method == Method::Post,
        r.path@ == "libraries/"@ + id.0@ + "/scan"@,
{
    let mut path = String::from_str("libraries/");
    path.append(id.0.as_str());
    path.append("/scan");
    ApiRequest { method: Method::Post, path }
}

/// Delete library `id`.
pub fn delete_library_request(id: &LibraryId) -> (r: ApiRequest)
    ensures
        r.method == Method::Delete,
        r.path@ == "libraries/"@ + id.0@,
{
    let mut path = String::from_str("libraries/");
    path.append(id.0.as_str());
    ApiRequest { method: Method::Delete, path }
}

/// Whether an HTTP status is a success (2xx), as `StatusCode::is_success` says.
pub fn is_success_status(code: u16) -> (r: bool)
    ensures
        r == (200 <= code < 300),
{
    200 <= code && code < 300
}

} // verus!
