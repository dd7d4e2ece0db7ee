//! All-or-nothing acquisition of official `PyTorch` wheel indexes: options, cache selection,
//! and the decisions between cache and network.

use crate::index_error::{index_error_text, IndexError, IndexErrorView};
use crate::model::{
    path_within, FilePath, FilePathView, IndexSnapshot, IndexSnapshotView, MetadataInfo,
    MetadataInfoView, MetadataOrigin,
};
use crate::order::{dedup, kept};
use crate::pieces::{
    dedup_texts, join, join_texts, sort_texts, sorted_texts, trim, trimmed,
};
use crate::text::{
    concat2, concat3, contains_text, lowercase, outcome, push_item, same, to_lowercase,
};
use vstd::prelude::*;

verus! {

/// A length of time.
#[derive(Debug, Clone, Copy, PartialEq, Eq, Structural)]
pub struct TimeSpan {
    /// Whole seconds.
    pub seconds: u64,
    /// Nanoseconds beyond the whole seconds.
    pub nanos: u32,
}

impl TimeSpan {
    /// A whole number of seconds.
    pub fn from_secs(seconds: u64) -> (span: TimeSpan)
        ensures
            span == (TimeSpan { seconds, nanos: 0 }),
    {
        TimeSpan { seconds, nanos: 0 }
    }

    /// Whether the span has no length.
    pub fn is_zero(&self) -> (answer: bool)
        ensures
            answer == (self.seconds == 0 && self.nanos == 0),
    {
        self.seconds == 0 && self.nanos == 0
    }
}

/// Configuration for official wheel-index acquisition.
#[derive(Debug)]
pub struct IndexOptions {
    /// Cache directory. The XDG cache directory is used when omitted.
    pub cache_dir: Option<FilePath>,
    /// Forbid all network access and require a complete cache snapshot.
    pub offline: bool,
    /// Bypass a fresh cache and attempt a network refresh.
    pub refresh: bool,
    /// Cache freshness duration.
    pub ttl: TimeSpan,
    /// Total timeout for each HTTP request.
    pub request_timeout: TimeSpan,
    /// Deadline for the complete root and package-index refresh.
    pub total_timeout: TimeSpan,
    /// Maximum decompressed bytes accepted for one index response.
    pub max_response_bytes: usize,
    /// Maximum number of package indexes fetched concurrently.
    pub max_concurrency: usize,
    /// Packages to fetch. Only torch, torchvision, and torchaudio are accepted.
    pub packages: Vec<String>,
}

/// The model of [`IndexOptions`].
#[verifier::ext_equal]
pub struct IndexOptionsView {
    pub cache_dir: Option<FilePathView>,
    pub offline: bool,
    pub refresh: bool,
    pub ttl: TimeSpan,
    pub request_timeout: TimeSpan,
    pub total_timeout: TimeSpan,
    pub max_response_bytes: usize,
    pub max_concurrency: usize,
    pub packages: Seq<Seq<char>>,
}

impl DeepView for IndexOptions {
    type V = IndexOptionsView;

    open spec fn deep_view(&self) -> IndexOptionsView {
        IndexOptionsView {
            cache_dir: self.cache_dir.deep_view(),
            offline: self.offline,
            refresh: self.refresh,
            ttl: self.ttl,
            request_timeout: self.request_timeout,
            total_timeout: self.total_timeout,
            max_response_bytes: self.max_response_bytes,
            max_concurrency: self.max_concurrency,
            packages: self.packages.deep_view(),
        }
    }
}

impl Default for IndexOptions {
    fn default() -> (options: IndexOptions)
        ensures
            options.deep_view() == (IndexOptionsView {
                cache_dir: None,
                offline: false,
                refresh: false,
                ttl: TimeSpan { seconds: 86400, nanos: 0 },
                request_timeout: TimeSpan { seconds: 30, nanos: 0 },
                total_timeout: TimeSpan { seconds: 120, nanos: 0 },
                max_response_bytes: 16777216,
                max_concurrency: 6,
                packages: seq!["torch"@],
            }),
    {
        let mut packages: Vec<String> = Vec::new();
        push_item(&mut packages, "torch".to_owned());
        assert(packages.deep_view() =~= seq!["torch"@]);
        IndexOptions {
            cache_dir: None,
            offline: false,
            refresh: false,
            ttl: TimeSpan::from_secs(86400),
            request_timeout: TimeSpan::from_secs(30),
            total_timeout: TimeSpan::from_secs(120),
            max_response_bytes: 16777216,
            max_concurrency: 6,
            packages,
        }
    }
}

/// A complete snapshot and its per-invocation provenance.
#[derive(Debug, PartialEq, Eq)]
pub struct LoadedIndex {
    /// Complete wheel metadata snapshot.
    pub snapshot: IndexSnapshot,
    /// Whether the snapshot came from network or cache.
    pub metadata: MetadataInfo,
}

/// The model of [`LoadedIndex`].
#[verifier::ext_equal]
pub struct LoadedIndexView {
    pub snapshot: IndexSnapshotView,
    pub metadata: MetadataInfoView,
}

impl DeepView for LoadedIndex {
    type V = LoadedIndexView;

    open spec fn deep_view(&self) -> LoadedIndexView {
        LoadedIndexView {
            snapshot: self.snapshot.deep_view(),
            metadata: self.metadata.deep_view(),
        }
    }
}

impl Clone for LoadedIndex {
    fn clone(&self) -> (copy: LoadedIndex)
        ensures
            copy.deep_view() == self.deep_view(),
    {
        LoadedIndex {
            snapshot: self.snapshot.clone(),
            metadata: self.metadata.clone(),
        }
    }
}

// ---------------------------------------------------------------------------
// Options

/// Whether an index of this package may be fetched.
pub open spec fn package_allowed(package: Seq<char>) -> bool {
    package == "torch"@ || package == "torchvision"@ || package == "torchaudio"@
}

/// Whether an index of this package may be fetched.
pub fn is_package_allowed(package: &str) -> (answer: bool)
    ensures
        answer == package_allowed(package@),
{
    same(package, "torch") || same(package, "torchvision") || same(package, "torchaudio")
}

/// Package names in normal form, in ascending order, each once.
pub open spec fn package_set(packages: Seq<Seq<char>>) -> Seq<Seq<char>> {
    dedup(sorted_texts(packages.map_values(|name: Seq<char>| lowercase(trimmed(name)))))
}

/// The first package whose index may not be fetched.
pub open spec fn first_unsupported(packages: Seq<Seq<char>>) -> Option<Seq<char>>
    decreases packages.len(),
{
    if packages.len() == 0 {
        None
    } else {
        match first_unsupported(packages.drop_last()) {
            Some(package) => Some(package),
            None => if package_allowed(packages.last()) {
                None
            } else {
                Some(packages.last())
            },
        }
    }
}

/// What is wrong with the options.
pub open spec fn options_error(options: IndexOptionsView) -> Option<Seq<char>> {
    let packages = package_set(options.packages);
    if options.offline && options.refresh {
        Some("--offline and --refresh are mutually exclusive"@)
    } else if options.request_timeout.seconds == 0 && options.request_timeout.nanos == 0 {
        Some("request timeout must be non-zero"@)
    } else if options.total_timeout.seconds == 0 && options.total_timeout.nanos == 0 {
        Some("total refresh timeout must be non-zero"@)
    } else if options.max_response_bytes == 0 {
        Some("response-size limit must be non-zero"@)
    } else if options.max_concurrency == 0 {
        Some("concurrency must be non-zero"@)
    } else if !packages.contains("torch"@) {
        Some("packages must contain torch"@)
    } else {
        match first_unsupported(packages) {
            Some(package) => Some("unsupported package index: "@ + package),
            None => None,
        }
    }
}

fn normalize_packages(packages: &Vec<String>) -> (result: Vec<String>)
    ensures
        result.deep_view() == package_set(packages.deep_view()),
{
    let ghost all = packages.deep_view();
    let ghost wanted = all.map_values(|name: Seq<char>| lowercase(trimmed(name)));
    let mut names: Vec<String> = Vec::new();
    let mut index: usize = 0;
    while index < packages.len()
        invariant
            all == packages.deep_view(),
            wanted == all.map_values(|name: Seq<char>| lowercase(trimmed(name))),
            index <= all.len(),
            names.deep_view() == wanted.take(index as int),
        decreases packages@.len() - index,
    {
        let bare = trim(packages[index].as_str());
        push_item(&mut names, to_lowercase(bare.as_str()));
        assert(wanted[index as int] == lowercase(trimmed(all[index as int])));
        assert(names.deep_view() =~= wanted.take(index + 1));
        index = index + 1;
    }
    assert(wanted.take(index as int) =~= wanted);
    sort_texts(&mut names);
    dedup_texts(&names)
}

proof fn unsupported_decides(packages: Seq<Seq<char>>, upto: int)
    requires
        0 < upto <= packages.len(),
        first_unsupported(packages.take(upto)) is Some,
    ensures
        first_unsupported(packages) == first_unsupported(packages.take(upto)),
    decreases packages.len() - upto,
{
    if upto < packages.len() {
        assert(packages.take(upto + 1).drop_last() =~= packages.take(upto));
        unsupported_decides(packages, upto + 1);
    } else {
        assert(packages.take(upto) =~= packages);
    }
}

fn find_unsupported(packages: &Vec<String>) -> (found: Option<String>)
    ensures
        found.deep_view() == first_unsupported(packages.deep_view()),
{
    let ghost all = packages.deep_view();
    let mut index: usize = 0;
    while index < packages.len()
        invariant
            all == packages.deep_view(),
            index <= all.len(),
            first_unsupported(all.take(index as int)) is None,
        decreases packages@.len() - index,
    {
        assert(all.take(index + 1).drop_last() =~= all.take(index as int));
        assert(all.take(index + 1).last() == packages@[index as int]@);
        if !is_package_allowed(packages[index].as_str()) {
            proof {
                unsupported_decides(all, index + 1);
            }
            return Some(packages[index].clone());
        }
        index = index + 1;
    }
    assert(all.take(index as int) =~= all);
    None
}

/// Validates the options and returns the packages in normal form.
pub fn validate_options(options: &IndexOptions) -> (result: Result<Vec<String>, IndexError>)
    ensures
        outcome(result) == (match options_error(options.deep_view()) {
            Some(message) => Err(IndexErrorView::InvalidOptions(message)),
            None => Ok(package_set(options.deep_view().packages)),
        }),
{
    if options.offline && options.refresh {
        return Err(
            IndexError::InvalidOptions(
                "--offline and --refresh are mutually exclusive".to_owned(),
            ),
        );
    }
    if options.request_timeout.is_zero() {
        return Err(IndexError::InvalidOptions("request timeout must be non-zero".to_owned()));
    }
    if options.total_timeout.is_zero() {
        return Err(
            IndexError::InvalidOptions("total refresh timeout must be non-zero".to_owned()),
        );
    }
    if options.max_response_bytes == 0 {
        return Err(IndexError::InvalidOptions("response-size limit must be non-zero".to_owned()));
    }
    if options.max_concurrency == 0 {
        return Err(IndexError::InvalidOptions("concurrency must be non-zero".to_owned()));
    }
    let packages = normalize_packages(&options.packages);
    if !contains_text(&packages, "torch") {
        return Err(IndexError::InvalidOptions("packages must contain torch".to_owned()));
    }
    if let Some(package) = find_unsupported(&packages) {
        return Err(
            IndexError::InvalidOptions(concat2("unsupported package index: ", package.as_str())),
        );
    }
    Ok(packages)
}

// ---------------------------------------------------------------------------
// Cache

/// The seconds between two times; none where the clock went back.
pub open spec fn seconds_since(then: u64, now: u64) -> int {
    if now >= then {
        now - then
    } else {
        0
    }
}

/// Whether a snapshot is older than it may be.
pub open spec fn too_old(snapshot: IndexSnapshotView, now: u64, ttl: TimeSpan) -> bool {
    seconds_since(snapshot.fetched_at, now) > ttl.seconds
}

/// Whether a snapshot is older than it may be.
pub fn is_stale(snapshot: &IndexSnapshot, now: u64, ttl: TimeSpan) -> (answer: bool)
    ensures
        answer == too_old(snapshot.deep_view(), now, ttl),
{
    now.saturating_sub(snapshot.fetched_at) > ttl.seconds
}

/// A snapshot with where it came from.
pub open spec fn loaded_from(
    snapshot: IndexSnapshotView,
    origin: MetadataOrigin,
    now: u64,
    ttl: TimeSpan,
) -> LoadedIndexView {
    LoadedIndexView {
        snapshot,
        metadata: MetadataInfoView {
            origin,
            fetched_at: snapshot.fetched_at,
            age_seconds: seconds_since(snapshot.fetched_at, now) as u64,
            stale: too_old(snapshot, now, ttl),
            source: snapshot.source,
        },
    }
}

/// Adds where a snapshot came from.
pub fn loaded(
    snapshot: IndexSnapshot,
    origin: MetadataOrigin,
    now: u64,
    ttl: TimeSpan,
) -> (index: LoadedIndex)
    ensures
        index.deep_view() == loaded_from(snapshot.deep_view(), origin, now, ttl),
{
    let age_seconds: u64 = now.saturating_sub(snapshot.fetched_at);
    let metadata = MetadataInfo {
        origin,
        fetched_at: snapshot.fetched_at,
        age_seconds,
        stale: age_seconds > ttl.seconds,
        source: snapshot.source.clone(),
    };
    LoadedIndex { snapshot, metadata }
}

/// Whether `have` holds every one of `wanted`.
pub open spec fn holds_all(have: Seq<Seq<char>>, wanted: Seq<Seq<char>>) -> bool {
    forall|i: int| 0 <= i < wanted.len() ==> have.contains(#[trigger] wanted[i])
}

fn contains_all(have: &Vec<String>, wanted: &Vec<String>) -> (answer: bool)
    ensures
        answer == holds_all(have.deep_view(), wanted.deep_view()),
{
    let ghost all = wanted.deep_view();
    let mut index: usize = 0;
    while index < wanted.len()
        invariant
            all == wanted.deep_view(),
            index <= all.len(),
            forall|i: int| 0 <= i < index ==> have.deep_view().contains(#[trigger] all[i]),
        decreases wanted@.len() - index,
    {
        if !contains_text(have, wanted[index].as_str()) {
            assert(!have.deep_view().contains(all[index as int]));
            return false;
        }
        index = index + 1;
    }
    true
}

/// Whether a snapshot covers every one of `packages`.
pub fn snapshot_contains(snapshot: &IndexSnapshot, packages: &Vec<String>) -> (answer: bool)
    ensures
        answer == holds_all(snapshot.deep_view().packages, packages.deep_view()),
{
    contains_all(&snapshot.packages, packages)
}

/// The name of the cache file for a set of packages.
pub open spec fn cache_name(packages: Seq<Seq<char>>) -> Seq<char> {
    "index-v1-"@ + join(packages, "-"@) + ".json"@
}

/// The name of the cache file for a set of packages.
pub fn cache_file_name(packages: &Vec<String>) -> (name: String)
    ensures
        name@ == cache_name(packages.deep_view()),
{
    concat3("index-v1-", join_texts(packages, "-").as_str(), ".json")
}

/// The path of the cache file for a set of packages.
pub fn cache_path_for(directory: &FilePath, packages: &Vec<String>) -> (path: FilePath)
    ensures
        path.deep_view() == path_within(directory.deep_view(), cache_name(packages.deep_view())),
{
    directory.join(cache_file_name(packages).as_str())
}

/// Every set of packages that can be cached, smaller ones first.
pub open spec fn cacheable_sets() -> Seq<Seq<Seq<char>>> {
    seq![
        seq!["torch"@],
        seq!["torch"@, "torchaudio"@],
        seq!["torch"@, "torchvision"@],
        seq!["torch"@, "torchaudio"@, "torchvision"@],
    ]
}

/// The sets of packages whose cache can serve a request, smaller ones first.
pub open spec fn serving_sets(requested: Seq<Seq<char>>) -> Seq<Seq<Seq<char>>> {
    kept(cacheable_sets(), |packages: Seq<Seq<char>>| holds_all(packages, requested))
}

fn package_list(audio: bool, vision: bool) -> (packages: Vec<String>)
    ensures
        packages.deep_view() == (if audio && vision {
            seq!["torch"@, "torchaudio"@, "torchvision"@]
        } else if audio {
            seq!["torch"@, "torchaudio"@]
        } else if vision {
            seq!["torch"@, "torchvision"@]
        } else {
            seq!["torch"@]
        }),
{
    let mut packages: Vec<String> = Vec::new();
    push_item(&mut packages, "torch".to_owned());
    if audio {
        push_item(&mut packages, "torchaudio".to_owned());
    }
    if vision {
        push_item(&mut packages, "torchvision".to_owned());
    }
    assert(packages.deep_view() =~= (if audio && vision {
        seq!["torch"@, "torchaudio"@, "torchvision"@]
    } else if audio {
        seq!["torch"@, "torchaudio"@]
    } else if vision {
        seq!["torch"@, "torchvision"@]
    } else {
        seq!["torch"@]
    }));
    packages
}

/// The sets of packages whose cache can serve a request, smaller ones first.
pub fn cache_package_sets(requested: &Vec<String>) -> (sets: Vec<Vec<String>>)
    ensures
        sets.deep_view() == serving_sets(requested.deep_view()),
{
    let ghost keep = |packages: Seq<Seq<char>>| holds_all(packages, requested.deep_view());
    let ghost all = cacheable_sets();
    let mut sets: Vec<Vec<String>> = Vec::new();
    let mut index: usize = 0;
    assert(all.take(0) =~= Seq::empty());
    assert(sets.deep_view() =~= kept(all.take(0), keep));
    while index < 4
        invariant
            index <= 4,
            all == cacheable_sets(),
            keep == (|packages: Seq<Seq<char>>| holds_all(packages, requested.deep_view())),
            sets.deep_view() == kept(all.take(index as int), keep),
        decreases 4 - index,
    {
        let packages = package_list(index == 1 || index == 3, index >= 2);
        assert(all.take(index + 1).drop_last() =~= all.take(index as int));
        assert(all.take(index + 1).last() == packages.deep_view());
        if contains_all(&packages, requested) {
            push_item(&mut sets, packages);
        }
        index = index + 1;
    }
    assert(all.take(4) =~= all);
    sets
}

/// A request is served from every cache that covers it: the sets are exactly the cacheable
/// ones that hold all requested packages.
pub proof fn every_covering_cache_is_considered(
    requested: Seq<Seq<char>>,
    packages: Seq<Seq<char>>,
)
    ensures
        serving_sets(requested).contains(packages) <==> cacheable_sets().contains(packages)
            && holds_all(packages, requested),
{
    crate::order::kept_members(
        cacheable_sets(),
        |packages: Seq<Seq<char>>| holds_all(packages, requested),
        packages,
    );
}

/// What was read from one cache file.
pub open spec fn read_view(read: Result<Option<IndexSnapshot>, IndexError>) -> Result<
    Option<IndexSnapshotView>,
    IndexErrorView,
> {
    match read {
        Ok(snapshot) => Ok(snapshot.deep_view()),
        Err(error) => Err(error.deep_view()),
    }
}

/// The models of what was read from the cache files.
pub open spec fn read_views(reads: Seq<Result<Option<IndexSnapshot>, IndexError>>) -> Seq<
    Result<Option<IndexSnapshotView>, IndexErrorView>,
> {
    reads.map_values(|read: Result<Option<IndexSnapshot>, IndexError>| read_view(read))
}

/// The newest snapshot among `reads` that covers the request; of equally new ones the first.
pub open spec fn newest_cache(
    reads: Seq<Result<Option<IndexSnapshotView>, IndexErrorView>>,
    requested: Seq<Seq<char>>,
) -> Option<IndexSnapshotView>
    decreases reads.len(),
{
    if reads.len() == 0 {
        None
    } else {
        let best = newest_cache(reads.drop_last(), requested);
        match reads.last() {
            Ok(Some(snapshot)) => if holds_all(snapshot.packages, requested) && (
            best matches Some(known) ==> snapshot.fetched_at > known.fetched_at) {
                Some(snapshot)
            } else {
                best
            },
            _ => best,
        }
    }
}

/// The first error among `reads`.
pub open spec fn first_read_error(
    reads: Seq<Result<Option<IndexSnapshotView>, IndexErrorView>>,
) -> Option<IndexErrorView>
    decreases reads.len(),
{
    if reads.len() == 0 {
        None
    } else {
        match first_read_error(reads.drop_last()) {
            Some(error) => Some(error),
            None => match reads.last() {
                Err(error) => Some(error),
                Ok(_) => None,
            },
        }
    }
}

/// The cache to use: the newest that covers the request; an error only where there is none.
pub open spec fn best_cache(
    reads: Seq<Result<Option<IndexSnapshotView>, IndexErrorView>>,
    requested: Seq<Seq<char>>,
) -> Result<Option<IndexSnapshotView>, IndexErrorView> {
    match newest_cache(reads, requested) {
        Some(snapshot) => Ok(Some(snapshot)),
        None => match first_read_error(reads) {
            Some(error) => Err(error),
            None => Ok(None),
        },
    }
}

proof fn newest_is_newest(
    reads: Seq<Result<Option<IndexSnapshotView>, IndexErrorView>>,
    requested: Seq<Seq<char>>,
    index: int,
    snapshot: IndexSnapshotView,
)
    requires
        0 <= index < reads.len(),
        reads[index] == Ok::<Option<IndexSnapshotView>, IndexErrorView>(Some(snapshot)),
        holds_all(snapshot.packages, requested),
    ensures
        newest_cache(reads, requested) matches Some(found) && found.fetched_at
            >= snapshot.fetched_at,
    decreases reads.len(),
{
    if index < reads.len() - 1 {
        newest_is_newest(reads.drop_last(), requested, index, snapshot);
    }
}

proof fn newest_was_read(
    reads: Seq<Result<Option<IndexSnapshotView>, IndexErrorView>>,
    requested: Seq<Seq<char>>,
)
    ensures
        newest_cache(reads, requested) matches Some(found) ==> holds_all(found.packages, requested)
            && reads.contains(Ok(Some(found))),
    decreases reads.len(),
{
    if reads.len() > 0 {
        let head = reads.drop_last();
        newest_was_read(head, requested);
        if let Some(found) = newest_cache(reads, requested) {
            let read = Ok::<Option<IndexSnapshotView>, IndexErrorView>(Some(found));
            if newest_cache(head, requested) == Some(found) {
                let at = choose|i: int| 0 <= i < head.len() && head[i] == read;
                assert(reads[at] == read);
            } else {
                assert(reads[reads.len() - 1] == read);
            }
        }
    }
}

/// Where a cache covers a request, a cache that covers it is used, and it is as new as any: what
/// is wrong with other cache files does not matter.
pub proof fn newest_covering_cache_is_used(
    reads: Seq<Result<Option<IndexSnapshotView>, IndexErrorView>>,
    requested: Seq<Seq<char>>,
    index: int,
    snapshot: IndexSnapshotView,
)
    requires
        0 <= index < reads.len(),
        reads[index] == Ok::<Option<IndexSnapshotView>, IndexErrorView>(Some(snapshot)),
        holds_all(snapshot.packages, requested),
    ensures
        best_cache(reads, requested) matches Ok(Some(found)) && holds_all(found.packages, requested)
            && found.fetched_at >= snapshot.fetched_at && reads.contains(Ok(Some(found))),
{
    newest_is_newest(reads, requested, index, snapshot);
    newest_was_read(reads, requested);
}

/// Chooses among what was read from the cache files that can serve a request.
pub fn read_best_cache(
    reads: Vec<Result<Option<IndexSnapshot>, IndexError>>,
    requested: &Vec<String>,
) -> (result: Result<Option<IndexSnapshot>, IndexError>)
    ensures
        read_view(result) == best_cache(read_views(reads@), requested.deep_view()),
{
    let ghost all = read_views(reads@);
    let mut reads = reads;
    let ghost total = reads@.len();
    let mut pending: Vec<Result<Option<IndexSnapshot>, IndexError>> = Vec::new();
    // Reverse the list, so that the first read is taken first.
    while reads.len() > 0
        invariant
            all.len() == total,
            reads@.len() + pending@.len() == total,
            forall|k: int| 0 <= k < reads@.len() ==> all[k] == read_view(#[trigger] reads@[k]),
            forall|k: int|
                0 <= k < pending@.len() ==> all[total - 1 - k] == read_view(
                    #[trigger] pending@[k],
                ),
        decreases reads@.len(),
    {
        if let Some(read) = reads.pop() {
            pending.push(read);
        }
    }
    let mut best: Option<IndexSnapshot> = None;
    let mut first_error: Option<IndexError> = None;
    assert(all.take(0) =~= Seq::empty());
    while pending.len() > 0
        invariant
            all.len() == total,
            pending@.len() <= total,
            forall|k: int|
                0 <= k < pending@.len() ==> all[total - 1 - k] == read_view(
                    #[trigger] pending@[k],
                ),
            best.deep_view() == newest_cache(
                all.take(total - pending@.len()),
                requested.deep_view(),
            ),
            first_error.deep_view() == first_read_error(all.take(total - pending@.len())),
        decreases pending@.len(),
    {
        let ghost done = total - pending@.len();
        assert(all.take(done + 1).drop_last() =~= all.take(done));
        assert(all.take(done + 1).last() == read_view(pending@[pending@.len() - 1]));
        match pending.pop() {
            Some(Ok(Some(snapshot))) => {
                if snapshot_contains(&snapshot, requested) {
                    let newer = match &best {
                        Some(known) => snapshot.fetched_at > known.fetched_at,
                        None => true,
                    };
                    if newer {
                        best = Some(snapshot);
                    }
                }
            },
            Some(Err(error)) => {
                if first_error.is_none() {
                    first_error = Some(error);
                }
            },
            _ => {},
        }
    }
    assert(all.take(total as int) =~= all);
    match best {
        Some(snapshot) => Ok(Some(snapshot)),
        None => match first_error {
            Some(error) => Err(error),
            None => Ok(None),
        },
    }
}

// ---------------------------------------------------------------------------
// Cache or network

/// What is known when a snapshot has to be fetched.
#[derive(Debug)]
pub struct FetchPlan {
    /// A cached snapshot that covers the request.
    pub cached: Option<IndexSnapshot>,
    /// Why the cache could not be used.
    pub cache_error: Option<IndexError>,
}

/// The model of [`FetchPlan`].
#[verifier::ext_equal]
pub struct FetchPlanView {
    pub cached: Option<IndexSnapshotView>,
    pub cache_error: Option<IndexErrorView>,
}

impl DeepView for FetchPlan {
    type V = FetchPlanView;

    open spec fn deep_view(&self) -> FetchPlanView {
        FetchPlanView {
            cached: self.cached.deep_view(),
            cache_error: self.cache_error.deep_view(),
        }
    }
}

/// What to do once the cache has been read.
#[derive(Debug)]
pub enum LoadStep {
    /// The index is at hand.
    Ready(LoadedIndex),
    /// There is no index to be had.
    Failed(IndexError),
    /// Fetch a snapshot from the network.
    Fetch(FetchPlan),
}

/// The model of [`LoadStep`].
#[verifier::ext_equal]
pub enum LoadStepView {
    Ready(LoadedIndexView),
    Failed(IndexErrorView),
    Fetch(FetchPlanView),
}

impl DeepView for LoadStep {
    type V = LoadStepView;

    open spec fn deep_view(&self) -> LoadStepView {
        match self {
            LoadStep::Ready(index) => LoadStepView::Ready(index.deep_view()),
            LoadStep::Failed(error) => LoadStepView::Failed(error.deep_view()),
            LoadStep::Fetch(plan) => LoadStepView::Fetch(plan.deep_view()),
        }
    }
}

/// The cached snapshot, where it covers the request.
pub open spec fn covering_cache(
    cached: Result<Option<IndexSnapshotView>, IndexErrorView>,
    packages: Seq<Seq<char>>,
) -> Option<IndexSnapshotView> {
    match cached {
        Ok(Some(snapshot)) => if holds_all(snapshot.packages, packages) {
            Some(snapshot)
        } else {
            None
        },
        _ => None,
    }
}

/// Why the cache could not be read.
pub open spec fn cache_failure(
    cached: Result<Option<IndexSnapshotView>, IndexErrorView>,
) -> Option<IndexErrorView> {
    match cached {
        Ok(_) => None,
        Err(error) => Some(error),
    }
}

/// What to do once the cache has been read.
pub open spec fn load_step(
    options: IndexOptionsView,
    packages: Seq<Seq<char>>,
    cached: Result<Option<IndexSnapshotView>, IndexErrorView>,
    now: u64,
) -> LoadStepView {
    let at_hand = covering_cache(cached, packages);
    if options.offline {
        match cached {
            Err(error) => LoadStepView::Failed(error),
            Ok(_) => match at_hand {
                Some(snapshot) => LoadStepView::Ready(
                    loaded_from(snapshot, MetadataOrigin::OfflineCache, now, options.ttl),
                ),
                None => LoadStepView::Failed(
                    IndexErrorView::OfflineCacheUnavailable { packages: join(packages, ","@) },
                ),
            },
        }
    } else if !options.refresh && (at_hand matches Some(snapshot) && !too_old(
        snapshot,
        now,
        options.ttl,
    )) {
        LoadStepView::Ready(
            loaded_from(at_hand->0, MetadataOrigin::FreshCache, now, options.ttl),
        )
    } else {
        LoadStepView::Fetch(FetchPlanView { cached: at_hand, cache_error: cache_failure(cached) })
    }
}

/// What comes of a fetch.
pub open spec fn load_outcome(
    plan: FetchPlanView,
    fetched: Result<IndexSnapshotView, IndexErrorView>,
    now: u64,
    ttl: TimeSpan,
) -> Result<LoadedIndexView, IndexErrorView> {
    match fetched {
        Ok(snapshot) => Ok(loaded_from(snapshot, MetadataOrigin::Network, now, ttl)),
        Err(error) => match plan.cached {
            Some(snapshot) => Ok(loaded_from(snapshot, MetadataOrigin::StaleIfError, now, ttl)),
            None => match plan.cache_error {
                Some(cache_error) => Err(
                    IndexErrorView::IncompleteFetch(
                        index_error_text(error) + "; cached snapshot was unusable: "@
                            + index_error_text(cache_error),
                    ),
                ),
                None => Err(error),
            },
        },
    }
}

/// Decides what to do once the cache has been read.
pub fn begin_load(
    options: &IndexOptions,
    packages: &Vec<String>,
    cached: Result<Option<IndexSnapshot>, IndexError>,
    now: u64,
) -> (step: LoadStep)
    ensures
        step.deep_view() == load_step(
            options.deep_view(),
            packages.deep_view(),
            read_view(cached),
            now,
        ),
{
    let (snapshot, cache_error) = match cached {
        Ok(snapshot) => (snapshot, None),
        Err(error) => (None, Some(error)),
    };
    let at_hand = match snapshot {
        Some(snapshot) => if snapshot_contains(&snapshot, packages) {
            Some(snapshot)
        } else {
            None
        },
        None => None,
    };
    if options.offline {
        if let Some(error) = cache_error {
            return LoadStep::Failed(error);
        }
        return match at_hand {
            Some(snapshot) => LoadStep::Ready(
                loaded(snapshot, MetadataOrigin::OfflineCache, now, options.ttl),
            ),
            None => LoadStep::Failed(
                IndexError::OfflineCacheUnavailable { packages: join_texts(packages, ",") },
            ),
        };
    }
    if !options.refresh {
        match at_hand {
            Some(snapshot) => {
                if !is_stale(&snapshot, now, options.ttl) {
                    return LoadStep::Ready(
                        loaded(snapshot, MetadataOrigin::FreshCache, now, options.ttl),
                    );
                }
                return LoadStep::Fetch(FetchPlan { cached: Some(snapshot), cache_error });
            },
            None => {
                return LoadStep::Fetch(FetchPlan { cached: None, cache_error });
            },
        }
    }
    LoadStep::Fetch(FetchPlan { cached: at_hand, cache_error })
}

/// Decides what comes of a fetch.
pub fn finish_load(
    plan: FetchPlan,
    fetched: Result<IndexSnapshot, IndexError>,
    now: u64,
    ttl: TimeSpan,
) -> (result: Result<LoadedIndex, IndexError>)
    ensures
        outcome(result) == load_outcome(plan.deep_view(), outcome(fetched), now, ttl),
{
    match fetched {
        Ok(snapshot) => Ok(loaded(snapshot, MetadataOrigin::Network, now, ttl)),
        Err(error) => match plan.cached {
            Some(snapshot) => Ok(loaded(snapshot, MetadataOrigin::StaleIfError, now, ttl)),
            None => match plan.cache_error {
                Some(cache_error) => Err(
                    IndexError::IncompleteFetch(
                        concat3(
                            error.to_string().as_str(),
                            "; cached snapshot was unusable: ",
                            cache_error.to_string().as_str(),
                        ),
                    ),
                ),
                None => Err(error),
            },
        },
    }
}

/// Offline mode never asks for a fetch.
pub proof fn offline_never_fetches(
    options: IndexOptionsView,
    packages: Seq<Seq<char>>,
    cached: Result<Option<IndexSnapshotView>, IndexErrorView>,
    now: u64,
)
    requires
        options.offline,
    ensures
        !(load_step(options, packages, cached, now) is Fetch),
{
}

/// A refresh that is not offline always asks for a fetch, however fresh the cache is.
pub proof fn refresh_always_fetches(
    options: IndexOptionsView,
    packages: Seq<Seq<char>>,
    cached: Result<Option<IndexSnapshotView>, IndexErrorView>,
    now: u64,
)
    requires
        options.refresh,
        !options.offline,
    ensures
        load_step(options, packages, cached, now) is Fetch,
{
}

/// Without offline mode, a snapshot is taken from the cache without a fetch only while it is
/// fresh, and whatever is used covers the request.
pub proof fn cache_is_used_only_while_fresh(
    options: IndexOptionsView,
    packages: Seq<Seq<char>>,
    cached: Result<Option<IndexSnapshotView>, IndexErrorView>,
    now: u64,
)
    ensures
        load_step(options, packages, cached, now) matches LoadStepView::Ready(index) ==> {
            &&& holds_all(index.snapshot.packages, packages)
            &&& !options.offline ==> !index.metadata.stale && index.metadata.origin
                == MetadataOrigin::FreshCache
            &&& options.offline ==> index.metadata.origin == MetadataOrigin::OfflineCache
        },
        load_step(options, packages, cached, now) matches LoadStepView::Fetch(plan) ==> (
        plan.cached matches Some(snapshot) ==> holds_all(snapshot.packages, packages)),
{
}

/// A failed fetch is answered from the cache exactly where the cache covers the request, and
/// the answer says so; otherwise it stays a failure.
pub proof fn failed_fetch_falls_back_to_cache(
    plan: FetchPlanView,
    error: IndexErrorView,
    now: u64,
    ttl: TimeSpan,
)
    ensures
        load_outcome(plan, Err(error), now, ttl) is Ok <==> plan.cached is Some,
        load_outcome(plan, Err(error), now, ttl) matches Ok(index) ==> Some(index.snapshot)
            == plan.cached && index.metadata.origin == MetadataOrigin::StaleIfError,
{
}

} // verus!
