//! Failures to obtain a complete, trustworthy wheel index.

use crate::model::{FilePath, FilePathView};
use crate::text::{concat2, concat3, concat4, concat5, decimal, decimal_text};
use vstd::prelude::*;

verus! {

/// Failure to obtain a complete, trustworthy wheel-index snapshot.
#[derive(Debug)]
pub enum IndexError {
    /// An option combination or value was invalid.
    InvalidOptions(String),
    /// No platform cache directory was available.
    CacheDirectoryUnavailable,
    /// A cache filesystem operation failed.
    CacheIo {
        /// Affected filesystem path.
        path: FilePath,
        /// Underlying I/O error.
        source: String,
    },
    /// The cache JSON or its semantic schema was invalid.
    InvalidCache {
        /// Cache path.
        path: FilePath,
        /// Validation failure.
        reason: String,
    },
    /// Strict offline mode had no complete cache for the request.
    OfflineCacheUnavailable {
        /// Comma-separated requested packages.
        packages: String,
    },
    /// The HTTP client could not be built.
    Client(String),
    /// An HTTP request failed.
    Request {
        /// Requested URL.
        url: String,
        /// Underlying HTTP error.
        source: String,
    },
    /// An index returned a non-success HTTP response.
    HttpStatus {
        /// Final response URL.
        url: String,
        /// Numeric HTTP status.
        status: u16,
    },
    /// A URL violated the official-source policy.
    UrlPolicy {
        /// Rejected URL.
        url: String,
        /// Policy reason.
        reason: String,
    },
    /// A decompressed response exceeded the configured bound.
    ResponseTooLarge {
        /// Response URL.
        url: String,
        /// Configured byte limit.
        limit: usize,
    },
    /// The complete metadata refresh exceeded its deadline.
    FetchTimedOut {
        /// Configured whole-refresh timeout.
        timeout_seconds: u64,
    },
    /// An index response was not usable HTML.
    InvalidIndex {
        /// Index URL.
        url: String,
        /// Parse or validation error.
        reason: String,
    },
    /// At least one discovered package index failed; no partial snapshot exists.
    IncompleteFetch(String),
    /// A blocking cache task failed unexpectedly.
    CacheTask(String),
    /// Cache serialization failed.
    CacheSerialization(String),
    /// Another process held the cache lock beyond the bounded wait.
    CacheLockTimedOut {
        /// Lock file path.
        path: FilePath,
    },
}

/// The model of [`IndexError`].
#[verifier::ext_equal]
pub enum IndexErrorView {
    InvalidOptions(Seq<char>),
    CacheDirectoryUnavailable,
    CacheIo { path: FilePathView, source: Seq<char> },
    InvalidCache { path: FilePathView, reason: Seq<char> },
    OfflineCacheUnavailable { packages: Seq<char> },
    Client(Seq<char>),
    Request { url: Seq<char>, source: Seq<char> },
    HttpStatus { url: Seq<char>, status: u16 },
    UrlPolicy { url: Seq<char>, reason: Seq<char> },
    ResponseTooLarge { url: Seq<char>, limit: usize },
    FetchTimedOut { timeout_seconds: u64 },
    InvalidIndex { url: Seq<char>, reason: Seq<char> },
    IncompleteFetch(Seq<char>),
    CacheTask(Seq<char>),
    CacheSerialization(Seq<char>),
    CacheLockTimedOut { path: FilePathView },
}

impl DeepView for IndexError {
    type V = IndexErrorView;

    open spec fn deep_view(&self) -> IndexErrorView {
        match self {
            IndexError::InvalidOptions(text) => IndexErrorView::InvalidOptions(text@),
            IndexError::CacheDirectoryUnavailable => IndexErrorView::CacheDirectoryUnavailable,
            IndexError::CacheIo { path, source } => IndexErrorView::CacheIo {
                path: path.deep_view(),
                source: source@,
            },
            IndexError::InvalidCache { path, reason } => IndexErrorView::InvalidCache {
                path: path.deep_view(),
                reason: reason@,
            },
            IndexError::OfflineCacheUnavailable { packages } => {
                IndexErrorView::OfflineCacheUnavailable { packages: packages@ }
            },
            IndexError::Client(text) => IndexErrorView::Client(text@),
            IndexError::Request { url, source } => IndexErrorView::Request {
                url: url@,
                source: source@,
            },
            IndexError::HttpStatus { url, status } => IndexErrorView::HttpStatus {
                url: url@,
                status: *status,
            },
            IndexError::UrlPolicy { url, reason } => IndexErrorView::UrlPolicy {
                url: url@,
                reason: reason@,
            },
            IndexError::ResponseTooLarge { url, limit } => IndexErrorView::ResponseTooLarge {
                url: url@,
                limit: *limit,
            },
            IndexError::FetchTimedOut { timeout_seconds } => IndexErrorView::FetchTimedOut {
                timeout_seconds: *timeout_seconds,
            },
            IndexError::InvalidIndex { url, reason } => IndexErrorView::InvalidIndex {
                url: url@,
                reason: reason@,
            },
            IndexError::IncompleteFetch(text) => IndexErrorView::IncompleteFetch(text@),
            IndexError::CacheTask(text) => IndexErrorView::CacheTask(text@),
            IndexError::CacheSerialization(text) => IndexErrorView::CacheSerialization(text@),
            IndexError::CacheLockTimedOut { path } => IndexErrorView::CacheLockTimedOut {
                path: path.deep_view(),
            },
        }
    }
}

/// The message of an index error.
pub open spec fn index_error_text(error: IndexErrorView) -> Seq<char> {
    match error {
        IndexErrorView::InvalidOptions(text) => "invalid index options: "@ + text,
        IndexErrorView::CacheDirectoryUnavailable => {
            "could not determine an XDG cache directory"@
        },
        IndexErrorView::CacheIo { path, source } => {
            "cache operation failed at "@ + path.text + ": "@ + source
        },
        IndexErrorView::InvalidCache { path, reason } => {
            "invalid cache snapshot at "@ + path.text + ": "@ + reason
        },
        IndexErrorView::OfflineCacheUnavailable { packages } => {
            "offline mode requires a valid cache containing: "@ + packages
        },
        IndexErrorView::Client(text) => "could not build HTTP client: "@ + text,
        IndexErrorView::Request { url, source } => {
            "request failed for "@ + url + ": "@ + source
        },
        IndexErrorView::HttpStatus { url, status } => {
            "index returned HTTP "@ + decimal(status as nat) + " for "@ + url
        },
        IndexErrorView::UrlPolicy { url, reason } => {
            "rejected index URL "@ + url + ": "@ + reason
        },
        IndexErrorView::ResponseTooLarge { url, limit } => {
            "decompressed response from "@ + url + " exceeded "@ + decimal(limit as nat)
                + " bytes"@
        },
        IndexErrorView::FetchTimedOut { timeout_seconds } => {
            "complete index refresh exceeded "@ + decimal(timeout_seconds as nat) + " seconds"@
        },
        IndexErrorView::InvalidIndex { url, reason } => {
            "invalid index response from "@ + url + ": "@ + reason
        },
        IndexErrorView::IncompleteFetch(text) => "incomplete index fetch: "@ + text,
        IndexErrorView::CacheTask(text) => "cache task failed: "@ + text,
        IndexErrorView::CacheSerialization(text) => {
            "could not serialize cache snapshot: "@ + text
        },
        IndexErrorView::CacheLockTimedOut { path } => {
            "timed out waiting for cache lock at "@ + path.text
        },
    }
}

impl IndexError {
    /// The message of the error.
    pub fn to_string(&self) -> (text: String)
        ensures
            text@ == index_error_text(self.deep_view()),
    {
        match self {
            IndexError::InvalidOptions(text) => concat2("invalid index options: ", text.as_str()),
            IndexError::CacheDirectoryUnavailable => {
                "could not determine an XDG cache directory".to_owned()
            },
            IndexError::CacheIo { path, source } => concat4(
                "cache operation failed at ",
                path.text.as_str(),
                ": ",
                source.as_str(),
            ),
            IndexError::InvalidCache { path, reason } => concat4(
                "invalid cache snapshot at ",
                path.text.as_str(),
                ": ",
                reason.as_str(),
            ),
            IndexError::OfflineCacheUnavailable { packages } => concat2(
                "offline mode requires a valid cache containing: ",
                packages.as_str(),
            ),
            IndexError::Client(text) => concat2("could not build HTTP client: ", text.as_str()),
            IndexError::Request { url, source } => concat4(
                "request failed for ",
                url.as_str(),
                ": ",
                source.as_str(),
            ),
            IndexError::HttpStatus { url, status } => concat4(
                "index returned HTTP ",
                decimal_text(*status as u64).as_str(),
                " for ",
                url.as_str(),
            ),
            IndexError::UrlPolicy { url, reason } => concat4(
                "rejected index URL ",
                url.as_str(),
                ": ",
                reason.as_str(),
            ),
            IndexError::ResponseTooLarge { url, limit } => concat5(
                "decompressed response from ",
                url.as_str(),
                " exceeded ",
                decimal_text(*limit as u64).as_str(),
                " bytes",
            ),
            IndexError::FetchTimedOut { timeout_seconds } => concat3(
                "complete index refresh exceeded ",
                decimal_text(*timeout_seconds).as_str(),
                " seconds",
            ),
            IndexError::InvalidIndex { url, reason } => concat4(
                "invalid index response from ",
                url.as_str(),
                ": ",
                reason.as_str(),
            ),
            IndexError::IncompleteFetch(text) => concat2(
                "incomplete index fetch: ",
                text.as_str(),
            ),
            IndexError::CacheTask(text) => concat2("cache task failed: ", text.as_str()),
            IndexError::CacheSerialization(text) => concat2(
                "could not serialize cache snapshot: ",
                text.as_str(),
            ),
            IndexError::CacheLockTimedOut { path } => concat2(
                "timed out waiting for cache lock at ",
                path.text.as_str(),
            ),
        }
    }
}

} // verus!
