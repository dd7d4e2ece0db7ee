//! Complete snapshots: the pages of a refresh, their assembly, and the validation that every
//! snapshot passes before it is used.

use crate::address::{
    joined_parts, policy_error, FetchPolicy, FetchPolicyView, OFFICIAL_ROOT,
};
use crate::index::{is_package_allowed, package_allowed};
use crate::index_error::{index_error_text, IndexError, IndexErrorView};
use crate::links::{
    linked_name, page_error, parse_wheel_link, same_wheel, wheel_link, CLOCK_SKEW_SECONDS,
    INDEX_SCHEMA_VERSION, MAX_FETCH_PAGES, MAX_TOTAL_WHEELS, MAX_VARIANTS,
};
use crate::model::{
    variant_text, CudaVariant, IndexSnapshot, IndexSnapshotView, TorchWheel, TorchWheelView,
};
use crate::order::{dedup, order_chain, sort_by, sort_values, Order};
use crate::outside::{
    decode_percent, pep440_specifier_error, specifier_error, split_url, url_parts, UrlParts,
    UrlPartsView,
};
use crate::pieces::{
    join, join_texts, order_texts, sort_texts, sorted_texts, text_order, text_order_antisymmetric,
    text_order_transitive,
};
use crate::resolver::{order_variants, variant_order};
use crate::rules::{contains_variant, texts_distinct, variants_distinct};
use crate::text::{
    clone_optional, concat2, concat4, contains_text, decimal, decimal_text, outcome, push_item,
    same,
};
use vstd::prelude::*;

verus! {

// ---------------------------------------------------------------------------
// Pages

/// Every pair of a variant and a package, variant by variant.
pub open spec fn page_pairs(variants: Seq<CudaVariant>, packages: Seq<Seq<char>>) -> Seq<
    (CudaVariant, Seq<char>),
>
    decreases variants.len(),
{
    if variants.len() == 0 {
        Seq::empty()
    } else {
        page_pairs(variants.drop_last(), packages) + packages.map_values(
            |package: Seq<char>| (variants.last(), package),
        )
    }
}

/// The pages of a refresh, or why it cannot be carried out.
pub open spec fn planned_pages(
    root: Seq<char>,
    variants: Seq<CudaVariant>,
    packages: Seq<Seq<char>>,
) -> Result<Seq<(CudaVariant, Seq<char>)>, IndexErrorView> {
    if variants.len() == 0 {
        Err(page_error(root, "no cpu or CUDA variants were discovered"@))
    } else if page_pairs(variants, packages).len() > MAX_FETCH_PAGES {
        Err(page_error(root, "index expanded to more than 192 package pages"@))
    } else {
        Ok(page_pairs(variants, packages))
    }
}

/// Plans the pages of a refresh.
pub fn plan_pages(policy: &FetchPolicy, variants: &Vec<CudaVariant>, packages: &Vec<String>) -> (result:
    Result<Vec<(CudaVariant, String)>, IndexError>)
    ensures
        outcome(result) == planned_pages(
            policy.deep_view().root.text,
            variants@,
            packages.deep_view(),
        ),
{
    let root = policy.root.text.as_str();
    if variants.len() == 0 {
        return Err(
            IndexError::InvalidIndex {
                url: root.to_owned(),
                reason: "no cpu or CUDA variants were discovered".to_owned(),
            },
        );
    }
    let ghost names = packages.deep_view();
    let mut pages: Vec<(CudaVariant, String)> = Vec::new();
    let mut i: usize = 0;
    assert(variants@.take(0) =~= Seq::empty());
    assert(pages.deep_view() =~= Seq::empty());
    while i < variants.len()
        invariant
            names == packages.deep_view(),
            i <= variants@.len(),
            pages.deep_view() == page_pairs(variants@.take(i as int), names),
        decreases variants@.len() - i,
    {
        let variant = variants[i];
        let ghost before = pages.deep_view();
        let ghost row = names.map_values(|package: Seq<char>| (variant, package));
        let mut j: usize = 0;
        assert(before + row.take(0) =~= before);
        while j < packages.len()
            invariant
                names == packages.deep_view(),
                row == names.map_values(|package: Seq<char>| (variant, package)),
                j <= names.len(),
                pages.deep_view() == before + row.take(j as int),
            decreases packages@.len() - j,
        {
            push_item(&mut pages, (variant, packages[j].clone()));
            assert(row[j as int] == (variant, packages@[j as int]@));
            assert(pages.deep_view() =~= before + row.take(j + 1));
            j = j + 1;
        }
        assert(row.take(j as int) =~= row);
        assert(variants@.take(i + 1).drop_last() =~= variants@.take(i as int));
        assert(variants@.take(i + 1).last() == variant);
        i = i + 1;
    }
    assert(variants@.take(i as int) =~= variants@);
    if pages.len() > MAX_FETCH_PAGES {
        return Err(
            IndexError::InvalidIndex {
                url: root.to_owned(),
                reason: "index expanded to more than 192 package pages".to_owned(),
            },
        );
    }
    Ok(pages)
}

/// The address of a package page, or why it has none.
pub open spec fn page_location(
    root: UrlPartsView,
    variant: CudaVariant,
    package: Seq<char>,
) -> Result<UrlPartsView, IndexErrorView> {
    match joined_parts(root, variant_text(variant) + "/"@ + package + "/"@) {
        Ok(url) => Ok(url),
        Err(message) => Err(
            page_error(root.text, "could not construct package URL: "@ + message),
        ),
    }
}

/// Finds the address of a package page.
pub fn page_address(policy: &FetchPolicy, variant: &CudaVariant, package: &str) -> (result: Result<
    UrlParts,
    IndexError,
>)
    ensures
        outcome(result) == page_location(policy.deep_view().root, *variant, package@),
{
    let relative = concat4(variant.to_string().as_str(), "/", package, "/");
    match policy.root.join(relative.as_str()) {
        Ok(url) => Ok(url),
        Err(message) => Err(
            IndexError::InvalidIndex {
                url: policy.root.text.clone(),
                reason: concat2("could not construct package URL: ", message.as_str()),
            },
        ),
    }
}

// ---------------------------------------------------------------------------
// Assembly

/// What was read from one page.
pub open spec fn page_view(page: Result<Vec<TorchWheel>, IndexError>) -> Result<
    Seq<TorchWheelView>,
    IndexErrorView,
> {
    outcome(page)
}

/// What was read from the pages.
pub open spec fn page_views(pages: Seq<Result<Vec<TorchWheel>, IndexError>>) -> Seq<
    Result<Seq<TorchWheelView>, IndexErrorView>,
> {
    pages.map_values(|page: Result<Vec<TorchWheel>, IndexError>| page_view(page))
}

/// The messages of the pages that failed.
pub open spec fn failures(pages: Seq<Result<Seq<TorchWheelView>, IndexErrorView>>) -> Seq<Seq<char>>
    decreases pages.len(),
{
    if pages.len() == 0 {
        Seq::empty()
    } else {
        match pages.last() {
            Ok(_) => failures(pages.drop_last()),
            Err(error) => failures(pages.drop_last()).push(index_error_text(error)),
        }
    }
}

/// The wheels of the pages that did not fail.
pub open spec fn contents(pages: Seq<Result<Seq<TorchWheelView>, IndexErrorView>>) -> Seq<
    TorchWheelView,
>
    decreases pages.len(),
{
    if pages.len() == 0 {
        Seq::empty()
    } else {
        match pages.last() {
            Ok(wheels) => contents(pages.drop_last()) + wheels,
            Err(_) => contents(pages.drop_last()),
        }
    }
}

/// The wheels of all pages, or the failures of those that failed.
pub open spec fn complete_pages(pages: Seq<Result<Seq<TorchWheelView>, IndexErrorView>>) -> Result<
    Seq<TorchWheelView>,
    IndexErrorView,
> {
    if failures(pages).len() == 0 {
        Ok(contents(pages))
    } else {
        Err(IndexErrorView::IncompleteFetch(join(sorted_texts(failures(pages)), " | "@)))
    }
}

proof fn failed_page_is_found(
    pages: Seq<Result<Seq<TorchWheelView>, IndexErrorView>>,
    index: int,
)
    requires
        0 <= index < pages.len(),
        pages[index] is Err,
    ensures
        failures(pages).len() > 0,
    decreases pages.len(),
{
    if index < pages.len() - 1 {
        assert(pages.drop_last()[index] == pages[index]);
        failed_page_is_found(pages.drop_last(), index);
    }
}

/// One failed page prevents a snapshot; nothing of the other pages is used.
pub proof fn one_failed_page_prevents_completion(
    pages: Seq<Result<Seq<TorchWheelView>, IndexErrorView>>,
    index: int,
)
    requires
        0 <= index < pages.len(),
        pages[index] is Err,
    ensures
        complete_pages(pages) matches Err(error) && error is IncompleteFetch,
{
    failed_page_is_found(pages, index);
}

/// Collects the wheels of all pages, or the failures of those that failed.
pub fn collect_complete_pages(pages: Vec<Result<Vec<TorchWheel>, IndexError>>) -> (result: Result<
    Vec<TorchWheel>,
    IndexError,
>)
    ensures
        outcome(result) == complete_pages(page_views(pages@)),
{
    let ghost all = page_views(pages@);
    let mut failed: Vec<String> = Vec::new();
    let mut wheels: Vec<TorchWheel> = Vec::new();
    assert(all.take(0) =~= Seq::empty());
    assert(failed.deep_view() =~= Seq::empty());
    assert(wheels.deep_view() =~= Seq::empty());
    let ghost total = pages@.len();
    for page in walk: pages
        invariant
            all == page_views(walk.seq()),
            walk.seq().len() == total,
            failed.deep_view() == failures(all.take(walk.index())),
            wheels.deep_view() == contents(all.take(walk.index())),
    {
        let ghost done = walk.index();
        assert(all.take(done + 1).drop_last() =~= all.take(done));
        assert(all.take(done + 1).last() == page_view(page));
        match page {
            Ok(page_wheels) => {
                let mut page_wheels = page_wheels;
                let ghost earlier = wheels.deep_view();
                let ghost added = page_wheels.deep_view();
                wheels.append(&mut page_wheels);
                assert(wheels.deep_view() =~= earlier + added);
            },
            Err(error) => {
                push_item(&mut failed, error.to_string());
            },
        }
    }
    assert(all.take(total as int) =~= all);
    if failed.len() == 0 {
        Ok(wheels)
    } else {
        sort_texts(&mut failed);
        Err(IndexError::IncompleteFetch(join_texts(&failed, " | ")))
    }
}

fn count_wheels(pages: &Vec<Result<Vec<TorchWheel>, IndexError>>) -> (too_many: bool)
    ensures
        too_many == (contents(page_views(pages@)).len() > MAX_TOTAL_WHEELS),
{
    let ghost all = page_views(pages@);
    let mut count: usize = 0;
    let mut index: usize = 0;
    assert(all.take(0) =~= Seq::empty());
    while index < pages.len()
        invariant
            all == page_views(pages@),
            index <= all.len(),
            count == contents(all.take(index as int)).len(),
            count <= MAX_TOTAL_WHEELS,
        decreases pages@.len() - index,
    {
        assert(all.take(index + 1).drop_last() =~= all.take(index as int));
        assert(all.take(index + 1).last() == page_view(pages@[index as int]));
        if let Ok(wheels) = &pages[index] {
            if wheels.len() > MAX_TOTAL_WHEELS - count {
                proof {
                    contents_grow(all, index + 1, all.len() as int);
                    assert(all.take(all.len() as int) =~= all);
                }
                return true;
            }
            count = count + wheels.len();
        }
        index = index + 1;
    }
    assert(all.take(index as int) =~= all);
    false
}

proof fn contents_grow(
    pages: Seq<Result<Seq<TorchWheelView>, IndexErrorView>>,
    low: int,
    high: int,
)
    requires
        0 <= low <= high <= pages.len(),
    ensures
        contents(pages.take(low)).len() <= contents(pages.take(high)).len(),
    decreases high - low,
{
    if low < high {
        contents_grow(pages, low, high - 1);
        assert(pages.take(high).drop_last() =~= pages.take(high - 1));
    }
}

/// The order of the wheels of a snapshot: by package, variant, file name and address.
pub open spec fn wheel_order(left: TorchWheelView, right: TorchWheelView) -> Order {
    order_chain(
        text_order(left.package, right.package),
        order_chain(
            variant_order(left.variant, right.variant),
            order_chain(text_order(left.filename, right.filename), text_order(left.url, right.url)),
        ),
    )
}

/// Whether a wheel of a snapshot follows another.
pub open spec fn wheel_after() -> spec_fn(TorchWheelView, TorchWheelView) -> bool {
    |left: TorchWheelView, right: TorchWheelView| wheel_order(left, right) == Order::Greater
}

/// Orders the wheels of a snapshot.
pub fn order_wheels(left: &TorchWheel, right: &TorchWheel) -> (order: Order)
    ensures
        order == wheel_order(left.deep_view(), right.deep_view()),
{
    let package = order_texts(left.package.as_str(), right.package.as_str());
    if package != Order::Equal {
        return package;
    }
    let variant = order_variants(&left.variant, &right.variant);
    if variant != Order::Equal {
        return variant;
    }
    let filename = order_texts(left.filename.as_str(), right.filename.as_str());
    if filename != Order::Equal {
        return filename;
    }
    order_texts(left.url.as_str(), right.url.as_str())
}

fn sort_wheels(wheels: &mut Vec<TorchWheel>)
    ensures
        final(wheels).deep_view() == sort_by(old(wheels).deep_view(), wheel_after()),
{
    let after = |a: &TorchWheel, b: &TorchWheel| -> (follows: bool)
        ensures
            follows == (wheel_order(a.deep_view(), b.deep_view()) == Order::Greater),
        { order_wheels(a, b) == Order::Greater };
    sort_values(wheels, after, Ghost(wheel_after()));
}

fn dedup_wheels(wheels: Vec<TorchWheel>) -> (result: Vec<TorchWheel>)
    ensures
        result.deep_view() == dedup(wheels.deep_view()),
{
    let ghost all = wheels.deep_view();
    let mut result: Vec<TorchWheel> = Vec::new();
    let mut index: usize = 0;
    while index < wheels.len()
        invariant
            all == wheels.deep_view(),
            index <= all.len(),
            result.deep_view() == dedup(all.take(index as int)),
        decreases wheels@.len() - index,
    {
        assert(all.take(index + 1).drop_last() =~= all.take(index as int));
        assert(all[index as int] == wheels@[index as int].deep_view());
        if index == 0 || !same_wheel(&wheels[index], &wheels[index - 1]) {
            push_item(&mut result, wheels[index].clone());
            assert(index == 0 ==> result.deep_view() =~= all.take(1));
        }
        index = index + 1;
    }
    assert(all.take(index as int) =~= all);
    result
}

/// The snapshot that the pages of a refresh make.
pub open spec fn snapshot_of(
    policy: FetchPolicyView,
    fetched_at: u64,
    packages: Seq<Seq<char>>,
    variants: Seq<CudaVariant>,
    wheels: Seq<TorchWheelView>,
) -> IndexSnapshotView {
    IndexSnapshotView {
        schema_version: INDEX_SCHEMA_VERSION,
        fetched_at,
        source: policy.root.text,
        packages,
        variants,
        wheels: dedup(sort_by(wheels, wheel_after())),
    }
}

/// What the pages of a refresh make: a snapshot only where every page was read, the limits
/// hold, and the snapshot is valid.
pub open spec fn assembled(
    policy: FetchPolicyView,
    fetched_at: u64,
    packages: Seq<Seq<char>>,
    variants: Seq<CudaVariant>,
    pages: Seq<Result<Seq<TorchWheelView>, IndexErrorView>>,
) -> Result<IndexSnapshotView, IndexErrorView> {
    if contents(pages).len() > MAX_TOTAL_WHEELS {
        Err(page_error(policy.root.text, "snapshot exceeds the 250000-wheel limit"@))
    } else {
        match complete_pages(pages) {
            Err(error) => Err(error),
            Ok(wheels) => {
                let snapshot = snapshot_of(policy, fetched_at, packages, variants, wheels);
                match snapshot_error(snapshot, policy, fetched_at) {
                    Some(reason) => Err(schema_violation(reason)),
                    None => Ok(snapshot),
                }
            },
        }
    }
}

/// Assembles the snapshot of a refresh from its pages.
pub fn assemble_snapshot(
    policy: &FetchPolicy,
    fetched_at: u64,
    packages: Vec<String>,
    variants: Vec<CudaVariant>,
    pages: Vec<Result<Vec<TorchWheel>, IndexError>>,
) -> (result: Result<IndexSnapshot, IndexError>)
    ensures
        outcome(result) == assembled(
            policy.deep_view(),
            fetched_at,
            packages.deep_view(),
            variants@,
            page_views(pages@),
        ),
{
    if count_wheels(&pages) {
        return Err(
            IndexError::InvalidIndex {
                url: policy.root.text.clone(),
                reason: "snapshot exceeds the 250000-wheel limit".to_owned(),
            },
        );
    }
    let mut wheels = match collect_complete_pages(pages) {
        Ok(wheels) => wheels,
        Err(error) => {
            return Err(error);
        },
    };
    sort_wheels(&mut wheels);
    let snapshot = IndexSnapshot {
        schema_version: INDEX_SCHEMA_VERSION,
        fetched_at,
        source: policy.root.text.clone(),
        packages,
        variants,
        wheels: dedup_wheels(wheels),
    };
    match validate_snapshot(&snapshot, policy, fetched_at) {
        Ok(()) => Ok(snapshot),
        Err(error) => Err(error),
    }
}

/// A refresh in which a page failed makes no snapshot.
pub proof fn one_failed_page_prevents_a_snapshot(
    policy: FetchPolicyView,
    fetched_at: u64,
    packages: Seq<Seq<char>>,
    variants: Seq<CudaVariant>,
    pages: Seq<Result<Seq<TorchWheelView>, IndexErrorView>>,
    index: int,
)
    requires
        0 <= index < pages.len(),
        pages[index] is Err,
    ensures
        assembled(policy, fetched_at, packages, variants, pages) is Err,
{
    failed_page_is_found(pages, index);
}

// ---------------------------------------------------------------------------
// Validation

/// The error that a snapshot violates its schema.
pub open spec fn schema_violation(reason: Seq<char>) -> IndexErrorView {
    IndexErrorView::InvalidIndex { url: OFFICIAL_ROOT@, reason }
}

/// The error that a snapshot violates its schema.
pub fn schema_error(reason: String) -> (error: IndexError)
    ensures
        error.deep_view() == schema_violation(reason@),
{
    IndexError::InvalidIndex { url: OFFICIAL_ROOT.to_owned(), reason }
}

/// The latest time that a snapshot may bear.
pub open spec fn latest_time(now: u64) -> int {
    if now + CLOCK_SKEW_SECONDS > u64::MAX {
        u64::MAX as int
    } else {
        now + CLOCK_SKEW_SECONDS
    }
}

/// Whether a list of packages can be that of a snapshot.
pub open spec fn packages_valid(packages: Seq<Seq<char>>) -> bool {
    packages.no_duplicates() && packages.contains("torch"@) && forall|i: int|
        0 <= i < packages.len() ==> package_allowed(#[trigger] packages[i])
}

/// Whether two wheels have the same package, variant, file name and address.
pub open spec fn same_entry(left: TorchWheelView, right: TorchWheelView) -> bool {
    left.package == right.package && left.variant == right.variant && left.filename
        == right.filename && left.url == right.url
}

/// What is wrong with a wheel that follows `earlier` ones in a snapshot.
pub open spec fn wheel_objection(
    snapshot: IndexSnapshotView,
    policy: FetchPolicyView,
    earlier: Seq<TorchWheelView>,
    wheel: TorchWheelView,
) -> Option<Seq<char>> {
    if !snapshot.packages.contains(wheel.package) || !snapshot.variants.contains(wheel.variant) {
        Some("wheel references a package or variant outside the snapshot"@)
    } else {
        match url_parts(wheel.url) {
            Err(message) => Some("invalid wheel URL: "@ + message),
            Ok(url) => match policy_error(policy, url) {
                Some(error) => Some(index_error_text(error)),
                None => match wheel_link(
                    wheel.package,
                    wheel.variant,
                    wheel.filename,
                    url,
                    wheel.yanked,
                    wheel.requires_python,
                ) {
                    Err(error) => Some(index_error_text(error)),
                    Ok(parsed) => if linked_name(url) != Some(
                        Ok::<Seq<char>, Seq<char>>(wheel.filename),
                    ) {
                        Some("wheel URL filename disagrees with "@ + wheel.filename)
                    } else if parsed != wheel {
                        Some("wheel fields disagree with "@ + wheel.filename)
                    } else {
                        let complaint = match wheel.requires_python {
                            Some(text) => pep440_specifier_error(text),
                            None => None,
                        };
                        match complaint {
                            Some(message) => Some("invalid requires-python: "@ + message),
                            None => if exists|i: int|
                                0 <= i < earlier.len() && same_entry(
                                    #[trigger] earlier[i],
                                    wheel,
                                ) {
                                Some("duplicate wheel entry"@)
                            } else {
                                None
                            },
                        }
                    },
                },
            },
        }
    }
}

/// What is wrong with the first wheel that is not valid.
pub open spec fn wheels_objection(
    snapshot: IndexSnapshotView,
    policy: FetchPolicyView,
    wheels: Seq<TorchWheelView>,
) -> Option<Seq<char>>
    decreases wheels.len(),
{
    if wheels.len() == 0 {
        None
    } else {
        match wheels_objection(snapshot, policy, wheels.drop_last()) {
            Some(reason) => Some(reason),
            None => wheel_objection(snapshot, policy, wheels.drop_last(), wheels.last()),
        }
    }
}

/// What is wrong with a snapshot.
pub open spec fn snapshot_error(
    snapshot: IndexSnapshotView,
    policy: FetchPolicyView,
    now: u64,
) -> Option<Seq<char>> {
    if snapshot.schema_version != INDEX_SCHEMA_VERSION {
        Some("unsupported schema version "@ + decimal(snapshot.schema_version as nat))
    } else if snapshot.variants.len() > MAX_VARIANTS || snapshot.wheels.len() > MAX_TOTAL_WHEELS {
        Some("snapshot exceeds a structural count limit"@)
    } else if snapshot.source != policy.root.text {
        Some("source URL does not match the official root"@)
    } else if snapshot.fetched_at > latest_time(now) {
        Some("fetch timestamp is implausibly far in the future"@)
    } else if !packages_valid(snapshot.packages) {
        Some("package list is empty, duplicated, or unsupported"@)
    } else if snapshot.variants.len() == 0 || !snapshot.variants.no_duplicates() {
        Some("variant list is empty or duplicated"@)
    } else if snapshot.wheels.len() == 0 {
        Some("snapshot contains no wheel links"@)
    } else {
        wheels_objection(snapshot, policy, snapshot.wheels)
    }
}

fn are_packages_valid(packages: &Vec<String>) -> (answer: bool)
    ensures
        answer == packages_valid(packages.deep_view()),
{
    if !texts_distinct(packages) || !contains_text(packages, "torch") {
        return false;
    }
    let ghost all = packages.deep_view();
    let mut index: usize = 0;
    while index < packages.len()
        invariant
            all == packages.deep_view(),
            index <= all.len(),
            forall|i: int| 0 <= i < index ==> package_allowed(#[trigger] all[i]),
        decreases packages@.len() - index,
    {
        assert(all[index as int] == packages@[index as int]@);
        if !is_package_allowed(packages[index].as_str()) {
            return false;
        }
        index = index + 1;
    }
    true
}

/// Whether the file name at the end of an address is `filename`.
fn leads_to(url: &UrlParts, filename: &str) -> (answer: bool)
    ensures
        answer == (linked_name(url.deep_view()) == Some(Ok::<Seq<char>, Seq<char>>(filename@))),
{
    match &url.segments {
        None => false,
        Some(segments) => {
            if segments.len() == 0 {
                return false;
            }
            let last: usize = segments.len() - 1;
            assert(segments.deep_view().last() == segments@[last as int]@);
            match decode_percent(segments[last].as_str()) {
                Ok(name) => same(name.as_str(), filename),
                Err(_) => false,
            }
        },
    }
}

/// Whether the leading `upto` wheels stand in strictly ascending order.
pub open spec fn ascending_upto(wheels: Seq<TorchWheelView>, upto: int) -> bool {
    forall|i: int, j: int| #![trigger wheels[i], wheels[j]]
        0 <= i < j < upto && j < wheels.len() ==> wheel_order(wheels[i], wheels[j]) == Order::Less
}

proof fn wheel_order_laws(a: TorchWheelView, b: TorchWheelView, c: TorchWheelView)
    ensures
        wheel_order(a, b) == Order::Equal <==> same_entry(a, b),
        wheel_order(a, b) == Order::Less && wheel_order(b, c) == Order::Less ==> wheel_order(a, c)
            == Order::Less,
{
    text_order_antisymmetric(a.package, b.package);
    text_order_antisymmetric(b.package, c.package);
    text_order_antisymmetric(a.package, c.package);
    text_order_antisymmetric(a.filename, b.filename);
    text_order_antisymmetric(b.filename, c.filename);
    text_order_antisymmetric(a.filename, c.filename);
    text_order_antisymmetric(a.url, b.url);
    text_order_antisymmetric(b.url, c.url);
    text_order_antisymmetric(a.url, c.url);
    if text_order(a.package, b.package) != Order::Greater && text_order(b.package, c.package)
        != Order::Greater {
        text_order_transitive(a.package, b.package, c.package);
    }
    if text_order(a.filename, b.filename) != Order::Greater && text_order(b.filename, c.filename)
        != Order::Greater {
        text_order_transitive(a.filename, b.filename, c.filename);
    }
    if text_order(a.url, b.url) != Order::Greater && text_order(b.url, c.url) != Order::Greater {
        text_order_transitive(a.url, b.url, c.url);
    }
}

proof fn next_is_new(wheels: Seq<TorchWheelView>, at: int)
    requires
        0 < at < wheels.len(),
        ascending_upto(wheels, at),
        wheel_order(wheels[at - 1], wheels[at]) == Order::Less,
    ensures
        ascending_upto(wheels, at + 1),
        forall|i: int| 0 <= i < at ==> !same_entry(#[trigger] wheels[i], wheels[at]),
{
    assert forall|i: int| 0 <= i < at implies wheel_order(#[trigger] wheels[i], wheels[at])
        == Order::Less by {
        if i < at - 1 {
            assert(wheel_order(wheels[i], wheels[at - 1]) == Order::Less);
            wheel_order_laws(wheels[i], wheels[at - 1], wheels[at]);
        }
    }
    assert forall|i: int| 0 <= i < at implies !same_entry(#[trigger] wheels[i], wheels[at]) by {
        wheel_order_laws(wheels[i], wheels[at], wheels[at]);
    }
    assert forall|i: int, j: int| #![trigger wheels[i], wheels[j]]
        0 <= i < j < at + 1 && j < wheels.len() implies wheel_order(wheels[i], wheels[j])
        == Order::Less by {
        if j == at {
            assert(wheel_order(wheels[i], wheels[at]) == Order::Less);
        }
    }
}

fn is_duplicate(wheels: &Vec<TorchWheel>, at: usize) -> (answer: bool)
    requires
        at < wheels@.len(),
    ensures
        answer == exists|i: int|
            0 <= i < at && same_entry(
                #[trigger] wheels.deep_view()[i],
                wheels.deep_view()[at as int],
            ),
{
    let ghost all = wheels.deep_view();
    let mut index: usize = 0;
    while index < at
        invariant
            all == wheels.deep_view(),
            index <= at < wheels@.len(),
            forall|i: int| 0 <= i < index ==> !same_entry(#[trigger] all[i], all[at as int]),
        decreases at - index,
    {
        let left = &wheels[index];
        let right = &wheels[at];
        assert(all[index as int] == left.deep_view());
        if same(left.filename.as_str(), right.filename.as_str()) && same(
            left.url.as_str(),
            right.url.as_str(),
        ) && left.variant == right.variant && same(
            left.package.as_str(),
            right.package.as_str(),
        ) {
            assert(same_entry(all[index as int], all[at as int]));
            return true;
        }
        index = index + 1;
    }
    false
}

fn object_to_wheel(
    snapshot: &IndexSnapshot,
    policy: &FetchPolicy,
    at: usize,
    duplicate: bool,
) -> (reason: Option<String>)
    requires
        at < snapshot.wheels@.len(),
        duplicate == exists|i: int|
            0 <= i < at && same_entry(
                #[trigger] snapshot.deep_view().wheels[i],
                snapshot.deep_view().wheels[at as int],
            ),
    ensures
        reason.deep_view() == wheel_objection(
            snapshot.deep_view(),
            policy.deep_view(),
            snapshot.deep_view().wheels.take(at as int),
            snapshot.deep_view().wheels[at as int],
        ),
{
    let wheel = &snapshot.wheels[at];
    let ghost earlier = snapshot.deep_view().wheels.take(at as int);
    proof {
        let all = snapshot.deep_view().wheels;
        assert(duplicate == exists|i: int|
            0 <= i < earlier.len() && same_entry(#[trigger] earlier[i], all[at as int])) by {
            if duplicate {
                let i = choose|i: int|
                    0 <= i < at && same_entry(#[trigger] all[i], all[at as int]);
                assert(same_entry(earlier[i], all[at as int]));
            }
            if exists|i: int|
                0 <= i < earlier.len() && same_entry(#[trigger] earlier[i], all[at as int]) {
                let i = choose|i: int|
                    0 <= i < earlier.len() && same_entry(#[trigger] earlier[i], all[at as int]);
                assert(same_entry(all[i], all[at as int]));
            }
        }
    }
    if !contains_text(&snapshot.packages, wheel.package.as_str()) || !contains_variant(
        &snapshot.variants,
        wheel.variant,
    ) {
        return Some("wheel references a package or variant outside the snapshot".to_owned());
    }
    let url = match split_url(wheel.url.as_str()) {
        Ok(url) => url,
        Err(message) => {
            return Some(concat2("invalid wheel URL: ", message.as_str()));
        },
    };
    if let Err(error) = policy.validate_url(&url) {
        return Some(error.to_string());
    }
    let parsed = match parse_wheel_link(
        wheel.package.as_str(),
        &wheel.variant,
        wheel.filename.clone(),
        &url,
        wheel.yanked,
        clone_optional(&wheel.requires_python),
    ) {
        Ok(parsed) => parsed,
        Err(error) => {
            return Some(error.to_string());
        },
    };
    if !leads_to(&url, wheel.filename.as_str()) {
        return Some(concat2("wheel URL filename disagrees with ", wheel.filename.as_str()));
    }
    if !same_wheel(&parsed, wheel) {
        return Some(concat2("wheel fields disagree with ", wheel.filename.as_str()));
    }
    if let Some(text) = &wheel.requires_python {
        if let Some(message) = specifier_error(text.as_str()) {
            return Some(concat2("invalid requires-python: ", message.as_str()));
        }
    }
    if duplicate {
        return Some("duplicate wheel entry".to_owned());
    }
    None
}

proof fn objection_decides(
    snapshot: IndexSnapshotView,
    policy: FetchPolicyView,
    wheels: Seq<TorchWheelView>,
    upto: int,
)
    requires
        0 < upto <= wheels.len(),
        wheels_objection(snapshot, policy, wheels.take(upto)) is Some,
    ensures
        wheels_objection(snapshot, policy, wheels) == wheels_objection(
            snapshot,
            policy,
            wheels.take(upto),
        ),
    decreases wheels.len() - upto,
{
    if upto < wheels.len() {
        assert(wheels.take(upto + 1).drop_last() =~= wheels.take(upto));
        objection_decides(snapshot, policy, wheels, upto + 1);
    } else {
        assert(wheels.take(upto) =~= wheels);
    }
}

fn object_to_wheels(snapshot: &IndexSnapshot, policy: &FetchPolicy) -> (reason: Option<String>)
    ensures
        reason.deep_view() == wheels_objection(
            snapshot.deep_view(),
            policy.deep_view(),
            snapshot.deep_view().wheels,
        ),
{
    let ghost all = snapshot.deep_view().wheels;
    let mut ascending = true;
    let mut index: usize = 0;
    while index < snapshot.wheels.len()
        invariant
            all == snapshot.deep_view().wheels,
            index <= all.len(),
            ascending ==> ascending_upto(all, index as int),
            wheels_objection(snapshot.deep_view(), policy.deep_view(), all.take(index as int))
                is None,
        decreases snapshot.wheels@.len() - index,
    {
        assert(all.take(index + 1).drop_last() =~= all.take(index as int));
        assert(all.take(index + 1).last() == all[index as int]);
        assert(all[index as int] == snapshot.wheels@[index as int].deep_view());
        let duplicate = if ascending && index == 0 {
            false
        } else if ascending && order_wheels(&snapshot.wheels[index - 1], &snapshot.wheels[index])
            == Order::Less {
            proof {
                next_is_new(all, index as int);
            }
            false
        } else {
            ascending = false;
            is_duplicate(&snapshot.wheels, index)
        };
        if let Some(reason) = object_to_wheel(snapshot, policy, index, duplicate) {
            proof {
                objection_decides(snapshot.deep_view(), policy.deep_view(), all, index + 1);
            }
            return Some(reason);
        }
        index = index + 1;
    }
    assert(all.take(index as int) =~= all);
    None
}

/// Rejects a snapshot that is not valid.
pub fn validate_snapshot(snapshot: &IndexSnapshot, policy: &FetchPolicy, now: u64) -> (result:
    Result<(), IndexError>)
    ensures
        result is Ok <==> snapshot_error(snapshot.deep_view(), policy.deep_view(), now) is None,
        result matches Err(error) ==> snapshot_error(
            snapshot.deep_view(),
            policy.deep_view(),
            now,
        ) matches Some(reason) && error.deep_view() == schema_violation(reason),
{
    if snapshot.schema_version != INDEX_SCHEMA_VERSION {
        return Err(
            schema_error(
                concat2(
                    "unsupported schema version ",
                    decimal_text(snapshot.schema_version as u64).as_str(),
                ),
            ),
        );
    }
    if snapshot.variants.len() > MAX_VARIANTS || snapshot.wheels.len() > MAX_TOTAL_WHEELS {
        return Err(schema_error("snapshot exceeds a structural count limit".to_owned()));
    }
    if !same(snapshot.source.as_str(), policy.root.text.as_str()) {
        return Err(schema_error("source URL does not match the official root".to_owned()));
    }
    if snapshot.fetched_at > now.saturating_add(CLOCK_SKEW_SECONDS) {
        return Err(schema_error("fetch timestamp is implausibly far in the future".to_owned()));
    }
    if !are_packages_valid(&snapshot.packages) {
        return Err(schema_error("package list is empty, duplicated, or unsupported".to_owned()));
    }
    if snapshot.variants.len() == 0 || !variants_distinct(&snapshot.variants) {
        return Err(schema_error("variant list is empty or duplicated".to_owned()));
    }
    if snapshot.wheels.len() == 0 {
        return Err(schema_error("snapshot contains no wheel links".to_owned()));
    }
    match object_to_wheels(snapshot, policy) {
        Some(reason) => Err(schema_error(reason)),
        None => Ok(()),
    }
}


proof fn every_wheel_is_sound(
    snapshot: IndexSnapshotView,
    policy: FetchPolicyView,
    wheels: Seq<TorchWheelView>,
    index: int,
)
    requires
        wheels_objection(snapshot, policy, wheels) is None,
        0 <= index < wheels.len(),
    ensures
        wheel_objection(snapshot, policy, wheels.take(index), wheels[index]) is None,
    decreases wheels.len(),
{
    if index < wheels.len() - 1 {
        every_wheel_is_sound(snapshot, policy, wheels.drop_last(), index);
        assert(wheels.drop_last().take(index) =~= wheels.take(index));
    } else {
        assert(wheels.drop_last() =~= wheels.take(index));
    }
}

/// A snapshot that is accepted is complete and official: each wheel belongs to a package and a
/// variant of the snapshot, its address is a URL that the policy allows and that ends with the
/// name of the file, its fields are what that name says, and no entry occurs twice.
pub proof fn accepted_snapshots_are_official(
    snapshot: IndexSnapshotView,
    policy: FetchPolicyView,
    now: u64,
    index: int,
)
    requires
        snapshot_error(snapshot, policy, now) is None,
        0 <= index < snapshot.wheels.len(),
    ensures
        ({
            let wheel = snapshot.wheels[index];
            &&& snapshot.packages.contains(wheel.package)
            &&& package_allowed(wheel.package)
            &&& snapshot.variants.contains(wheel.variant)
            &&& url_parts(wheel.url) matches Ok(url) && policy_error(policy, url) is None
                && linked_name(url) == Some(Ok::<Seq<char>, Seq<char>>(wheel.filename))
                && wheel_link(
                wheel.package,
                wheel.variant,
                wheel.filename,
                url,
                wheel.yanked,
                wheel.requires_python,
            ) == Ok::<TorchWheelView, IndexErrorView>(wheel)
            &&& forall|i: int|
                0 <= i < index ==> !same_entry(#[trigger] snapshot.wheels[i], wheel)
        }),
{
    every_wheel_is_sound(snapshot, policy, snapshot.wheels, index);
    let earlier = snapshot.wheels.take(index);
    assert forall|i: int| 0 <= i < index implies !same_entry(
        #[trigger] snapshot.wheels[i],
        snapshot.wheels[index],
    ) by {
        assert(earlier[i] == snapshot.wheels[i]);
    }
}

} // verus!
