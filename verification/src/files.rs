//! Which files are read, and what is demanded of the cache directory and its entries.

use crate::address::{FetchPolicy, FetchPolicyView};
use crate::index::TimeSpan;
use crate::index_error::{index_error_text, IndexError, IndexErrorView};
use crate::model::{
    CudaVariant, FilePath, FilePathView, IndexSnapshot, IndexSnapshotView, TorchWheelView,
};
use crate::outside::{decode_owned, decode_strict, utf8_error};
use crate::snapshot::{assembled, schema_violation, snapshot_error, validate_snapshot};
use crate::text::{concat2, outcome};
use vstd::prelude::*;
use vstd::utf8::{decode_utf8, valid_utf8};

verus! {

/// The most bytes that are read of a text file.
pub const MAX_TEXT_FILE_BYTES: u64 = 1_048_576;

/// The most bytes that are read of an executable.
pub const MAX_ELF_FILE_BYTES: u64 = 67_108_864;

/// The most bytes that a cache file may have.
pub const MAX_CACHE_BYTES: u64 = 134_217_728;

/// How many seconds to wait for the lock on the cache.
pub const CACHE_LOCK_TIMEOUT_SECONDS: u64 = 5;

/// The permission bits that let others than the owner write.
pub const FOREIGN_WRITE_BITS: u32 = 0o022;

/// The permission bits that let someone execute.
pub const EXECUTE_BITS: u32 = 0o111;

/// What is known of a file before it is opened.
#[derive(Debug, Clone, Copy, PartialEq, Eq, Structural)]
pub struct FileFacts {
    /// Whether the entry is a symbolic link.
    pub symlink: bool,
    /// Whether the entry is a directory.
    pub directory: bool,
    /// Whether the entry is a regular file.
    pub regular: bool,
    /// Length in bytes.
    pub length: u64,
    /// Permission bits, where the system has them.
    pub mode: Option<u32>,
}

impl DeepView for FileFacts {
    type V = FileFacts;

    open spec fn deep_view(&self) -> FileFacts {
        *self
    }
}

// ---------------------------------------------------------------------------
// Bounded files

/// Whether a file is opened at all: it is regular and not too long.
pub fn admits_file(facts: &FileFacts, limit: u64) -> (answer: bool)
    ensures
        answer == (facts.regular && facts.length <= limit),
{
    facts.regular && facts.length <= limit
}

/// The text of a file that is not too long and is UTF-8.
pub open spec fn accepted_text(bytes: Seq<u8>) -> Option<Seq<char>> {
    if bytes.len() <= MAX_TEXT_FILE_BYTES && valid_utf8(bytes) {
        Some(decode_utf8(bytes))
    } else {
        None
    }
}

/// Reads the text of a file, unless it has grown too long or is not UTF-8.
pub fn accept_text(bytes: &Vec<u8>) -> (text: Option<String>)
    ensures
        text.deep_view() == accepted_text(bytes@),
{
    if bytes.len() as u64 > MAX_TEXT_FILE_BYTES {
        return None;
    }
    decode_strict(bytes.as_slice())
}

/// Whether the bytes of a file that was read are used: it has not grown too long.
pub fn accepts_binary(bytes: &Vec<u8>, limit: u64) -> (answer: bool)
    ensures
        answer == (bytes@.len() <= limit),
{
    bytes.len() as u64 <= limit
}

/// Whether a file can be executed: it is regular, and someone may execute it where the system
/// says who may.
pub fn is_executable(facts: &FileFacts) -> (answer: bool)
    ensures
        answer == (facts.regular && (match facts.mode {
            Some(mode) => mode & EXECUTE_BITS != 0,
            None => true,
        })),
{
    facts.regular && match facts.mode {
        Some(mode) => mode & EXECUTE_BITS != 0,
        None => true,
    }
}

// ---------------------------------------------------------------------------
// The cache

/// The error for a cache that is not as it must be.
pub open spec fn cache_fault(path: FilePathView, reason: Seq<char>) -> IndexErrorView {
    IndexErrorView::InvalidCache { path, reason }
}

fn invalid_cache(path: &FilePath, reason: &str) -> (error: IndexError)
    ensures
        error.deep_view() == cache_fault(path.deep_view(), reason@),
{
    IndexError::InvalidCache { path: path.clone(), reason: reason.to_owned() }
}

/// What is wrong with the cache directory.
pub open spec fn directory_fault(facts: FileFacts) -> Option<Seq<char>> {
    if facts.symlink || !facts.directory {
        Some("cache directory must be a real directory, not a symlink"@)
    } else if facts.mode matches Some(mode) && mode & FOREIGN_WRITE_BITS != 0 {
        Some("cache directory must not be group- or world-writable"@)
    } else {
        None
    }
}

/// Rejects a cache directory that is not a real directory or that others may write to.
pub fn check_cache_directory(path: &FilePath, facts: &FileFacts) -> (error: Option<IndexError>)
    ensures
        error.deep_view() == (match directory_fault(*facts) {
            Some(reason) => Some(cache_fault(path.deep_view(), reason)),
            None => None,
        }),
{
    if facts.symlink || !facts.directory {
        return Some(
            invalid_cache(path, "cache directory must be a real directory, not a symlink"),
        );
    }
    if let Some(mode) = facts.mode {
        if mode & FOREIGN_WRITE_BITS != 0 {
            return Some(
                invalid_cache(path, "cache directory must not be group- or world-writable"),
            );
        }
    }
    None
}

/// What is wrong with a cache entry before it is opened.
pub open spec fn entry_fault(facts: FileFacts) -> Option<Seq<char>> {
    if facts.symlink || !facts.regular {
        Some("cache entry must be a regular file"@)
    } else if facts.length > MAX_CACHE_BYTES {
        Some("cache exceeds the size limit"@)
    } else {
        None
    }
}

/// Rejects a cache entry that is not a regular file or is too long.
pub fn check_cache_entry(path: &FilePath, facts: &FileFacts) -> (error: Option<IndexError>)
    ensures
        error.deep_view() == (match entry_fault(*facts) {
            Some(reason) => Some(cache_fault(path.deep_view(), reason)),
            None => None,
        }),
{
    if facts.symlink || !facts.regular {
        return Some(invalid_cache(path, "cache entry must be a regular file"));
    }
    if facts.length > MAX_CACHE_BYTES {
        return Some(invalid_cache(path, "cache exceeds the size limit"));
    }
    None
}

/// The snapshot of a cache file of `length` bytes that was read as `parsed`, or why it is not
/// used.
pub open spec fn accepted_cache(
    path: FilePathView,
    length: u64,
    parsed: Result<IndexSnapshotView, Seq<char>>,
    policy: FetchPolicyView,
    now: u64,
) -> Result<IndexSnapshotView, IndexErrorView> {
    if length > MAX_CACHE_BYTES {
        Err(cache_fault(path, "cache exceeds the size limit"@))
    } else {
        match parsed {
            Err(reason) => Err(cache_fault(path, reason)),
            Ok(snapshot) => match snapshot_error(snapshot, policy, now) {
                Some(reason) => Err(
                    cache_fault(path, index_error_text(schema_violation(reason))),
                ),
                None => Ok(snapshot),
            },
        }
    }
}

/// Accepts what was read of a cache file, if it is not too long, parses and is valid.
pub fn accept_cache(
    path: &FilePath,
    length: u64,
    parsed: Result<IndexSnapshot, String>,
    policy: &FetchPolicy,
    now: u64,
) -> (result: Result<IndexSnapshot, IndexError>)
    ensures
        outcome(result) == accepted_cache(
            path.deep_view(),
            length,
            outcome(parsed),
            policy.deep_view(),
            now,
        ),
{
    if length > MAX_CACHE_BYTES {
        return Err(invalid_cache(path, "cache exceeds the size limit"));
    }
    match parsed {
        Err(reason) => Err(invalid_cache(path, reason.as_str())),
        Ok(snapshot) => match validate_snapshot(&snapshot, policy, now) {
            Err(error) => Err(invalid_cache(path, error.to_string().as_str())),
            Ok(_) => Ok(snapshot),
        },
    }
}

/// Refuses to replace what is not a regular file. `facts` is absent where there is nothing.
pub fn check_replaceable(path: &FilePath, facts: Option<FileFacts>) -> (error: Option<IndexError>)
    ensures
        error.deep_view() == (match facts {
            Some(known) => if !known.regular || known.symlink {
                Some(
                    cache_fault(
                        path.deep_view(),
                        "refusing to replace a non-regular cache entry"@,
                    ),
                )
            } else {
                None
            },
            None => None,
        }),
{
    if let Some(known) = facts {
        if !known.regular || known.symlink {
            return Some(invalid_cache(path, "refusing to replace a non-regular cache entry"));
        }
    }
    None
}

/// Refuses to store a snapshot that takes too many bytes.
pub fn check_written_length(path: &FilePath, length: u64) -> (error: Option<IndexError>)
    ensures
        error.deep_view() == (if length > MAX_CACHE_BYTES {
            Some(cache_fault(path.deep_view(), "serialized cache exceeds the size limit"@))
        } else {
            None
        }),
{
    if length > MAX_CACHE_BYTES {
        Some(invalid_cache(path, "serialized cache exceeds the size limit"))
    } else {
        None
    }
}

/// Gives up waiting for the lock on the cache once the time is up.
pub fn check_lock_wait(path: &FilePath, elapsed: TimeSpan) -> (error: Option<IndexError>)
    ensures
        error.deep_view() == (if elapsed.seconds >= CACHE_LOCK_TIMEOUT_SECONDS {
            Some(IndexErrorView::CacheLockTimedOut { path: path.deep_view() })
        } else {
            None
        }),
{
    if elapsed.seconds >= CACHE_LOCK_TIMEOUT_SECONDS {
        Some(IndexError::CacheLockTimedOut { path: path.clone() })
    } else {
        None
    }
}

/// A cache that others may write to is never used, and neither is a directory or an entry that
/// is a symbolic link.
pub proof fn foreign_cache_is_rejected(facts: FileFacts)
    ensures
        facts.symlink ==> directory_fault(facts) is Some && entry_fault(facts) is Some,
        facts.mode matches Some(mode) ==> (mode & FOREIGN_WRITE_BITS != 0 ==> directory_fault(facts) is Some),
{
}

/// A cached snapshot is used only if it is valid.
pub proof fn only_valid_caches_are_used(
    path: FilePathView,
    length: u64,
    parsed: Result<IndexSnapshotView, Seq<char>>,
    policy: FetchPolicyView,
    now: u64,
)
    ensures
        accepted_cache(path, length, parsed, policy, now) matches Ok(snapshot) ==> parsed == Ok::<
            IndexSnapshotView,
            Seq<char>,
        >(snapshot) && length <= MAX_CACHE_BYTES && snapshot_error(snapshot, policy, now) is None,
{
}

/// What is stored is read back: the cache file of a snapshot that a refresh assembled is accepted
/// from then on, unless it is too long.
pub proof fn stored_snapshots_are_read_back(
    path: FilePathView,
    length: u64,
    policy: FetchPolicyView,
    fetched_at: u64,
    packages: Seq<Seq<char>>,
    variants: Seq<CudaVariant>,
    pages: Seq<Result<Seq<TorchWheelView>, IndexErrorView>>,
    now: u64,
)
    requires
        fetched_at <= now,
        length <= MAX_CACHE_BYTES,
    ensures
        assembled(policy, fetched_at, packages, variants, pages) matches Ok(snapshot)
            ==> accepted_cache(path, length, Ok(snapshot), policy, now) == Ok::<
            IndexSnapshotView,
            IndexErrorView,
        >(snapshot),
{
}

// ---------------------------------------------------------------------------
// Pages

/// The text of a page, or why it has none.
pub open spec fn decoded_page(bytes: Seq<u8>, url: Seq<char>) -> Result<Seq<char>, IndexErrorView> {
    if valid_utf8(bytes) {
        Ok(decode_utf8(bytes))
    } else {
        Err(
            IndexErrorView::InvalidIndex {
                url,
                reason: "response is not UTF-8: "@ + utf8_error(bytes),
            },
        )
    }
}

/// Decodes a page.
pub fn decode_page(bytes: Vec<u8>, url: &str) -> (result: Result<String, IndexError>)
    ensures
        outcome(result) == decoded_page(bytes@, url@),
{
    match decode_owned(bytes) {
        Ok(text) => Ok(text),
        Err(message) => Err(
            IndexError::InvalidIndex {
                url: url.to_owned(),
                reason: concat2("response is not UTF-8: ", message.as_str()),
            },
        ),
    }
}

} // verus!
