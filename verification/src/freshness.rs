//! What a refresh gathers, and which snapshot an index is loaded from.

use crate::address::{joined_parts, policy_objection, FetchPolicyView};
use crate::index::{
    cache_name, cacheable_sets, holds_all, load_outcome, load_step, newest_cache, options_error,
    package_set, FetchPlanView, IndexOptionsView, LoadStepView, TimeSpan,
};
use crate::index_error::IndexErrorView;
use crate::links::wheel_link;
use crate::model::{CudaVariant, IndexSnapshotView, MetadataOrigin, TorchWheelView};
use crate::order::{
    all_sorted, dedup, sort_by, sort_keeps_items, sorted_is_ordered, strict_weak_order, Order,
};
use crate::outside::{pep440_specifier_error, percent_decoded, url_parts, UrlPartsView};
use crate::pieces::{
    join, sorted_texts, sorted_texts_are_in_order, text_order, text_order_antisymmetric,
    text_order_transitive, trimmed,
};
use crate::snapshot::{
    accepted_snapshots_are_official, assembled, contents, failures, page_location, page_pairs,
    planned_pages, snapshot_error, wheel_after, wheel_objection, wheel_order, wheels_objection,
};
use crate::text::{decimal, lowercase};
use vstd::prelude::*;

verus! {

/// Removing repetitions of neighbours keeps every item.
pub proof fn dedup_members<T>(items: Seq<T>, item: T)
    ensures
        dedup(items).contains(item) <==> items.contains(item),
        items.len() > 0 ==> dedup(items).len() > 0 && dedup(items).last() == items.last(),
        dedup(items).len() <= items.len(),
    decreases items.len(),
{
    if items.len() > 1 {
        let head = items.drop_last();
        dedup_members(head, item);
        let result = dedup(items);
        if items.contains(item) {
            let k = choose|k: int| 0 <= k < items.len() && items[k] == item;
            if k < head.len() {
                assert(head[k] == item);
                let m = choose|m: int| 0 <= m < dedup(head).len() && dedup(head)[m] == item;
                assert(result[m] == item);
            } else {
                assert(result.last() == item);
                assert(result[result.len() - 1] == item);
            }
        }
        if result.contains(item) {
            let m = choose|m: int| 0 <= m < result.len() && result[m] == item;
            if m < dedup(head).len() {
                assert(dedup(head)[m] == item);
                let k = choose|k: int| 0 <= k < head.len() && head[k] == item;
                assert(items[k] == item);
            } else {
                assert(items[items.len() - 1] == item);
            }
        }
    }
}

// ---------------------------------------------------------------------------
// Snapshots

proof fn contents_of_pages(
    pages: Seq<Result<Seq<TorchWheelView>, IndexErrorView>>,
    wheel: TorchWheelView,
)
    ensures
        contents(pages).contains(wheel) <==> exists|i: int|
            0 <= i < pages.len() && (#[trigger] pages[i] matches Ok(wheels) && wheels.contains(
                wheel,
            )),
        failures(pages).len() == 0 <==> forall|i: int|
            0 <= i < pages.len() ==> #[trigger] pages[i] is Ok,
    decreases pages.len(),
{
    if pages.len() > 0 {
        let head = pages.drop_last();
        let last = pages[pages.len() - 1];
        contents_of_pages(head, wheel);
        if exists|i: int|
            0 <= i < head.len() && (#[trigger] head[i] matches Ok(wheels) && wheels.contains(
                wheel,
            )) {
            let k = choose|i: int|
                0 <= i < head.len() && (#[trigger] head[i] matches Ok(wheels) && wheels.contains(
                    wheel,
                ));
            assert(pages[k] == head[k]);
        }
        if exists|i: int|
            0 <= i < pages.len() && (#[trigger] pages[i] matches Ok(wheels) && wheels.contains(
                wheel,
            )) {
            let k = choose|i: int|
                0 <= i < pages.len() && (#[trigger] pages[i] matches Ok(wheels)
                    && wheels.contains(wheel));
            if k < head.len() {
                assert(head[k] == pages[k]);
            }
        }
        if let Ok(wheels) = last {
            let lead = contents(head);
            let all = lead + wheels;
            assert(all.contains(wheel) <==> lead.contains(wheel) || wheels.contains(wheel)) by {
                if lead.contains(wheel) {
                    let k = choose|k: int| 0 <= k < lead.len() && lead[k] == wheel;
                    assert(all[k] == wheel);
                }
                if wheels.contains(wheel) {
                    let k = choose|k: int| 0 <= k < wheels.len() && wheels[k] == wheel;
                    assert(all[lead.len() + k] == wheel);
                }
                if all.contains(wheel) {
                    let k = choose|k: int| 0 <= k < all.len() && all[k] == wheel;
                    if k < lead.len() {
                        assert(lead[k] == wheel);
                    } else {
                        assert(wheels[k - lead.len()] == wheel);
                    }
                }
            }
            assert(pages[pages.len() - 1] is Ok);
        }
        if failures(head).len() == 0 && last is Ok {
            assert forall|i: int| 0 <= i < pages.len() implies #[trigger] pages[i] is Ok by {
                if i < head.len() {
                    assert(head[i] == pages[i]);
                }
            }
        }
        if failures(head).len() > 0 {
            let bad = choose|i: int| 0 <= i < head.len() && !(#[trigger] head[i] is Ok);
            assert(pages[bad] == head[bad]);
        }
    }
}

/// A snapshot holds exactly the wheels of the pages it was made of, all of which were read; it bears
/// the time of the fetch, the address of the root, and the packages and variants that were asked
/// for.
pub proof fn snapshot_holds_what_the_pages_hold(
    policy: FetchPolicyView,
    fetched_at: u64,
    packages: Seq<Seq<char>>,
    variants: Seq<CudaVariant>,
    pages: Seq<Result<Seq<TorchWheelView>, IndexErrorView>>,
    wheel: TorchWheelView,
)
    ensures
        assembled(policy, fetched_at, packages, variants, pages) matches Ok(snapshot) ==> {
            &&& snapshot.wheels.contains(wheel) <==> exists|i: int|
                0 <= i < pages.len() && (#[trigger] pages[i] matches Ok(wheels) && wheels.contains(
                    wheel,
                ))
            &&& forall|i: int| 0 <= i < pages.len() ==> #[trigger] pages[i] is Ok
            &&& snapshot.fetched_at == fetched_at
            &&& snapshot.source == policy.root.text
            &&& snapshot.packages == packages
            &&& snapshot.variants == variants
        },
{
    broadcast use vstd::seq_lib::group_to_multiset_ensures;

    if let Ok(snapshot) = assembled(policy, fetched_at, packages, variants, pages) {
        let all = contents(pages);
        let sorted = sort_by(all, wheel_after());
        contents_of_pages(pages, wheel);
        sort_keeps_items(all, wheel_after());
        dedup_members(sorted, wheel);
        assert(sorted.contains(wheel) <==> sorted.to_multiset().count(wheel) > 0);
        assert(all.contains(wheel) <==> all.to_multiset().count(wheel) > 0);
    }
}

proof fn pair_is_planned(
    variants: Seq<CudaVariant>,
    packages: Seq<Seq<char>>,
    pair: (CudaVariant, Seq<char>),
)
    ensures
        page_pairs(variants, packages).contains(pair) <==> variants.contains(pair.0)
            && packages.contains(pair.1),
        page_pairs(variants, packages).len() == variants.len() * packages.len(),
    decreases variants.len(),
{
    if variants.len() == 0 {
        assert(0 * packages.len() == 0) by (nonlinear_arith);
    } else {
        let head = variants.drop_last();
        let last = variants[variants.len() - 1];
        let row = packages.map_values(|package: Seq<char>| (variants.last(), package));
        let lead = page_pairs(head, packages);
        let all = lead + row;
        pair_is_planned(head, packages, pair);
        assert(variants.len() * packages.len() == head.len() * packages.len() + packages.len())
            by (nonlinear_arith)
            requires
                variants.len() == head.len() + 1,
        ;
        if head.contains(pair.0) {
            let k = choose|k: int| 0 <= k < head.len() && head[k] == pair.0;
            assert(variants[k] == pair.0);
        }
        if variants.contains(pair.0) {
            let k = choose|k: int| 0 <= k < variants.len() && variants[k] == pair.0;
            if k < head.len() {
                assert(head[k] == pair.0);
            }
        }
        if lead.contains(pair) {
            let k = choose|k: int| 0 <= k < lead.len() && lead[k] == pair;
            assert(all[k] == pair);
        }
        if pair.0 == last && packages.contains(pair.1) {
            let k = choose|k: int| 0 <= k < packages.len() && packages[k] == pair.1;
            assert(row[k] == pair);
            assert(all[lead.len() + k] == pair);
        }
        if all.contains(pair) {
            let k = choose|k: int| 0 <= k < all.len() && all[k] == pair;
            if k < lead.len() {
                assert(lead[k] == pair);
            } else {
                assert(row[k - lead.len()] == pair);
                assert(packages[k - lead.len()] == pair.1);
                assert(variants[variants.len() - 1] == pair.0);
            }
        }
    }
}

/// A refresh fetches the page of every package of every variant, as many as there are, and no other;
/// there is none without a variant.
pub proof fn every_page_is_planned(
    root: Seq<char>,
    variants: Seq<CudaVariant>,
    packages: Seq<Seq<char>>,
    variant: CudaVariant,
    package: Seq<char>,
)
    ensures
        planned_pages(root, variants, packages) matches Ok(pages) ==> {
            &&& pages.contains((variant, package)) <==> variants.contains(variant)
                && packages.contains(package)
            &&& pages.len() == variants.len() * packages.len()
        },
        variants.len() == 0 ==> planned_pages(root, variants, packages) is Err,
        0 < variants.len() && variants.len() * packages.len() <= 192 ==> planned_pages(
            root,
            variants,
            packages,
        ) is Ok,
{
    pair_is_planned(variants, packages, (variant, package));
}

/// What is accepted as a snapshot is of the official root, not from a time more than five minutes
/// ahead, of `torch` and at most its two companions, each once, and of at least one variant, each
/// once; each wheel is of one of these, stands at an address that may be fetched and that ends with
/// its name, and stands there once.
pub proof fn accepted_snapshots_are_sound(
    snapshot: IndexSnapshotView,
    policy: FetchPolicyView,
    now: u64,
    index: int,
)
    ensures
        snapshot_error(snapshot, policy, now) is None ==> {
            &&& snapshot.schema_version == 1
            &&& snapshot.source == policy.root.text
            &&& snapshot.fetched_at <= now + 300
            &&& snapshot.packages.contains("torch"@)
            &&& snapshot.packages.no_duplicates()
            &&& forall|i: int|
                0 <= i < snapshot.packages.len() ==> (#[trigger] snapshot.packages[i] == "torch"@
                    || snapshot.packages[i] == "torchvision"@ || snapshot.packages[i]
                    == "torchaudio"@)
            &&& 0 < snapshot.variants.len() <= 64
            &&& snapshot.variants.no_duplicates()
            &&& 0 < snapshot.wheels.len() <= 250000
            &&& 0 <= index < snapshot.wheels.len() ==> {
                let wheel = snapshot.wheels[index];
                &&& snapshot.packages.contains(wheel.package)
                &&& snapshot.variants.contains(wheel.variant)
                &&& url_parts(wheel.url) matches Ok(url) && policy_objection(policy, url) is None
                    && (url.segments matches Some(segments) && segments.len() > 0
                    && percent_decoded(segments.last()) == Ok::<Seq<char>, Seq<char>>(
                    wheel.filename,
                ))
                &&& forall|i: int|
                    0 <= i < index ==> !((#[trigger] snapshot.wheels[i]).package == wheel.package
                        && snapshot.wheels[i].variant == wheel.variant
                        && snapshot.wheels[i].filename == wheel.filename && snapshot.wheels[i].url
                        == wheel.url)
            }
        },
{
    if snapshot_error(snapshot, policy, now) is None && 0 <= index < snapshot.wheels.len() {
        accepted_snapshots_are_official(snapshot, policy, now, index);
        assert forall|i: int| 0 <= i < index implies !((#[trigger] snapshot.wheels[i]).package
            == snapshot.wheels[index].package && snapshot.wheels[i].variant
            == snapshot.wheels[index].variant && snapshot.wheels[i].filename
            == snapshot.wheels[index].filename && snapshot.wheels[i].url
            == snapshot.wheels[index].url) by {
            assert(!crate::snapshot::same_entry(snapshot.wheels[i], snapshot.wheels[index]));
        }
    }
}

/// Whether the wheel at `index` of a snapshot belongs to it, is what its file name says, stands at an
/// allowed address, can be checked against an interpreter, and is not listed before.
pub open spec fn wheel_belongs(
    snapshot: IndexSnapshotView,
    policy: FetchPolicyView,
    index: int,
) -> bool {
    let wheel = snapshot.wheels[index];
    &&& snapshot.packages.contains(wheel.package)
    &&& snapshot.variants.contains(wheel.variant)
    &&& url_parts(wheel.url) matches Ok(url) && policy_objection(policy, url) is None && (
    url.segments matches Some(segments) && segments.len() > 0 && percent_decoded(segments.last())
        == Ok::<Seq<char>, Seq<char>>(wheel.filename)) && wheel_link(
        wheel.package,
        wheel.variant,
        wheel.filename,
        url,
        wheel.yanked,
        wheel.requires_python,
    ) == Ok::<TorchWheelView, IndexErrorView>(wheel)
    &&& wheel.requires_python matches Some(text) ==> pep440_specifier_error(text) is None
    &&& forall|i: int|
        0 <= i < index ==> !((#[trigger] snapshot.wheels[i]).package == wheel.package
            && snapshot.wheels[i].variant == wheel.variant && snapshot.wheels[i].filename
            == wheel.filename && snapshot.wheels[i].url == wheel.url)
}

proof fn wheel_is_accepted(
    snapshot: IndexSnapshotView,
    policy: FetchPolicyView,
    index: int,
)
    requires
        0 <= index < snapshot.wheels.len(),
    ensures
        wheel_objection(
            snapshot,
            policy,
            snapshot.wheels.take(index),
            snapshot.wheels[index],
        ) is None <==> wheel_belongs(snapshot, policy, index),
{
    let wheel = snapshot.wheels[index];
    let earlier = snapshot.wheels.take(index);
    assert(forall|i: int| 0 <= i < index ==> #[trigger] earlier[i] == snapshot.wheels[i]);
    assert(forall|i: int| 0 <= i < index ==> earlier[i] == #[trigger] snapshot.wheels[i]);
    if wheel_belongs(snapshot, policy, index) {
        assert forall|i: int| 0 <= i < earlier.len() implies !crate::snapshot::same_entry(
            #[trigger] earlier[i],
            wheel,
        ) by {
            assert(snapshot.wheels[i] == earlier[i]);
        }
    }
    if wheel_objection(snapshot, policy, earlier, wheel) is None {
        assert forall|i: int| 0 <= i < index implies !((#[trigger] snapshot.wheels[i]).package
            == wheel.package && snapshot.wheels[i].variant == wheel.variant
            && snapshot.wheels[i].filename == wheel.filename && snapshot.wheels[i].url
            == wheel.url) by {
            assert(!crate::snapshot::same_entry(earlier[i], wheel));
        }
    }
}

proof fn wheels_are_accepted(snapshot: IndexSnapshotView, policy: FetchPolicyView, upto: int)
    requires
        0 <= upto <= snapshot.wheels.len(),
    ensures
        wheels_objection(snapshot, policy, snapshot.wheels.take(upto)) is None <==> forall|
            index: int,
        |
            0 <= index < upto ==> #[trigger] wheel_belongs(snapshot, policy, index),
    decreases upto,
{
    if upto > 0 {
        let some = snapshot.wheels.take(upto);
        wheels_are_accepted(snapshot, policy, upto - 1);
        wheel_is_accepted(snapshot, policy, upto - 1);
        assert(some.drop_last() =~= snapshot.wheels.take(upto - 1));
        assert(some.last() == snapshot.wheels[upto - 1]);
    }
}

/// A snapshot is accepted exactly where it has the known layout and its limits, comes from the
/// official root and not from the future, covers known packages with PyTorch among them and variants,
/// none of them twice, and every wheel belongs to it.
pub proof fn sound_snapshots_are_accepted(
    snapshot: IndexSnapshotView,
    policy: FetchPolicyView,
    now: u64,
)
    ensures
        snapshot_error(snapshot, policy, now) is None <==> {
            &&& snapshot.schema_version == 1
            &&& snapshot.source == policy.root.text
            &&& snapshot.fetched_at <= now + 300
            &&& snapshot.packages.contains("torch"@)
            &&& snapshot.packages.no_duplicates()
            &&& forall|i: int|
                0 <= i < snapshot.packages.len() ==> (#[trigger] snapshot.packages[i] == "torch"@
                    || snapshot.packages[i] == "torchvision"@ || snapshot.packages[i]
                    == "torchaudio"@)
            &&& 0 < snapshot.variants.len() <= 64
            &&& snapshot.variants.no_duplicates()
            &&& 0 < snapshot.wheels.len() <= 250000
            &&& forall|index: int|
                0 <= index < snapshot.wheels.len() ==> #[trigger] wheel_belongs(
                    snapshot,
                    policy,
                    index,
                )
        },
{
    wheels_are_accepted(snapshot, policy, snapshot.wheels.len() as int);
    assert(snapshot.wheels.take(snapshot.wheels.len() as int) =~= snapshot.wheels);
}

// ---------------------------------------------------------------------------
// Loading

/// The age of a snapshot in seconds: none where the clock went back.
pub open spec fn age_at(snapshot: IndexSnapshotView, now: u64) -> int {
    if snapshot.fetched_at <= now {
        now - snapshot.fetched_at
    } else {
        0
    }
}

/// Whether a snapshot has every package that was asked for.
pub open spec fn serves(snapshot: IndexSnapshotView, packages: Seq<Seq<char>>) -> bool {
    forall|i: int|
        0 <= i < packages.len() ==> snapshot.packages.contains(#[trigger] packages[i])
}

/// Which snapshot an index is loaded from. Offline it is the cached one where that has every package
/// that was asked for, and otherwise there is none. Online it is the cached one exactly where that
/// has every package, no refresh was asked for and it is not older than allowed; otherwise one is
/// fetched. What is loaded from the cache is the cached snapshot as it is, with its age, and marked
/// as stale exactly where it is older than allowed.
pub proof fn cache_serves_while_fresh(
    options: IndexOptionsView,
    packages: Seq<Seq<char>>,
    cached: Result<Option<IndexSnapshotView>, IndexErrorView>,
    now: u64,
)
    ensures
        ({
            let step = load_step(options, packages, cached, now);
            match cached {
                Ok(Some(snapshot)) if serves(snapshot, packages) => {
                    let fresh = age_at(snapshot, now) <= options.ttl.seconds;
                    if options.offline || !options.refresh && fresh {
                        step matches LoadStepView::Ready(index) && index.snapshot == snapshot
                            && index.metadata.age_seconds == age_at(snapshot, now)
                            && index.metadata.stale == !fresh && index.metadata.fetched_at
                            == snapshot.fetched_at && index.metadata.source == snapshot.source
                            && index.metadata.origin == (if options.offline {
                            MetadataOrigin::OfflineCache
                        } else {
                            MetadataOrigin::FreshCache
                        })
                    } else {
                        step matches LoadStepView::Fetch(plan) && plan.cached == Some(snapshot)
                            && plan.cache_error is None
                    }
                },
                Ok(_) => if options.offline {
                    step matches LoadStepView::Failed(error) && error is OfflineCacheUnavailable
                } else {
                    step matches LoadStepView::Fetch(plan) && plan.cached is None
                        && plan.cache_error is None
                },
                Err(error) => if options.offline {
                    step matches LoadStepView::Failed(shown) && shown == error
                } else {
                    step matches LoadStepView::Fetch(plan) && plan.cached is None
                        && plan.cache_error == Some(error)
                },
            }
        }),
{
}

/// What comes of a fetch: the snapshot that was fetched; where that failed the cached one, marked as
/// used for want of a newer one; and where there is none an error.
pub proof fn fetched_snapshot_comes_first(
    plan: FetchPlanView,
    fetched: Result<IndexSnapshotView, IndexErrorView>,
    now: u64,
    ttl: TimeSpan,
)
    ensures
        match (fetched, plan.cached) {
            (Ok(snapshot), _) => load_outcome(plan, fetched, now, ttl) matches Ok(index)
                && index.snapshot == snapshot && index.metadata.origin == MetadataOrigin::Network
                && index.metadata.age_seconds == age_at(snapshot, now) && index.metadata.stale == (
            age_at(snapshot, now) > ttl.seconds) && index.metadata.fetched_at
                == snapshot.fetched_at && index.metadata.source == snapshot.source,
            (Err(_), Some(snapshot)) => load_outcome(plan, fetched, now, ttl) matches Ok(index)
                && index.snapshot == snapshot && index.metadata.origin
                == MetadataOrigin::StaleIfError && index.metadata.age_seconds == age_at(
                snapshot,
                now,
            ) && index.metadata.stale == (age_at(snapshot, now) > ttl.seconds),
            (Err(_), None) => load_outcome(plan, fetched, now, ttl) is Err,
        },
{
}

/// Options are accepted exactly where the index is not to be both refreshed and used offline, no
/// limit is zero, and the packages, in lower case and without white space around them, are `torch`
/// and at most its two companions.
pub proof fn accepted_options_are_consistent(options: IndexOptionsView)
    ensures
        options_error(options) is None <==> {
            &&& !(options.offline && options.refresh)
            &&& options.request_timeout.seconds > 0 || options.request_timeout.nanos > 0
            &&& options.total_timeout.seconds > 0 || options.total_timeout.nanos > 0
            &&& options.max_response_bytes > 0
            &&& options.max_concurrency > 0
            &&& exists|i: int|
                0 <= i < options.packages.len() && lowercase(
                    trimmed(#[trigger] options.packages[i]),
                ) == "torch"@
            &&& forall|i: int|
                0 <= i < options.packages.len() ==> (lowercase(
                    trimmed(#[trigger] options.packages[i]),
                ) == "torch"@ || lowercase(trimmed(options.packages[i])) == "torchvision"@
                    || lowercase(trimmed(options.packages[i])) == "torchaudio"@)
        },
{
    let packages = package_set(options.packages);
    package_is_in_the_set(options.packages, "torch"@);
    unsupported_is_found(packages);
    if packages.contains("torch"@) {
        let k = choose|i: int|
            0 <= i < options.packages.len() && lowercase(trimmed(#[trigger] options.packages[i]))
                == "torch"@;
        assert(lowercase(trimmed(options.packages[k])) == "torch"@);
    }
    if crate::index::first_unsupported(packages) is None {
        assert forall|i: int| 0 <= i < options.packages.len() implies (lowercase(
            trimmed(#[trigger] options.packages[i]),
        ) == "torch"@ || lowercase(trimmed(options.packages[i])) == "torchvision"@ || lowercase(
            trimmed(options.packages[i]),
        ) == "torchaudio"@) by {
            let name = lowercase(trimmed(options.packages[i]));
            package_is_in_the_set(options.packages, name);
            let m = choose|m: int| 0 <= m < packages.len() && packages[m] == name;
            assert(crate::index::package_allowed(packages[m]));
        }
    } else {
        let bad = crate::index::first_unsupported(packages)->0;
        package_is_in_the_set(options.packages, bad);
        let k = choose|i: int|
            0 <= i < options.packages.len() && lowercase(trimmed(#[trigger] options.packages[i]))
                == bad;
        assert(!crate::index::package_allowed(lowercase(trimmed(options.packages[k]))));
    }
}

proof fn unsupported_is_found(packages: Seq<Seq<char>>)
    ensures
        crate::index::first_unsupported(packages) is None <==> forall|i: int|
            0 <= i < packages.len() ==> crate::index::package_allowed(#[trigger] packages[i]),
        crate::index::first_unsupported(packages) matches Some(bad) ==> packages.contains(bad)
            && !crate::index::package_allowed(bad),
    decreases packages.len(),
{
    if packages.len() > 0 {
        let head = packages.drop_last();
        unsupported_is_found(head);
        match crate::index::first_unsupported(head) {
            Some(bad) => {
                let k = choose|k: int| 0 <= k < head.len() && head[k] == bad;
                assert(packages[k] == bad);
            },
            None => {
                assert(packages[packages.len() - 1] == packages.last());
                assert forall|i: int|
                    0 <= i < head.len() implies crate::index::package_allowed(
                    #[trigger] packages[i],
                ) by {
                    assert(head[i] == packages[i]);
                }
            },
        }
    }
}

/// The packages that are asked for are those that were named, in lower case and without white space
/// around them, in ascending order, each once.
pub proof fn package_is_in_the_set(packages: Seq<Seq<char>>, name: Seq<char>)
    ensures
        package_set(packages).contains(name) <==> exists|i: int|
            0 <= i < packages.len() && lowercase(trimmed(#[trigger] packages[i])) == name,
        forall|i: int, j: int| #![trigger package_set(packages)[i], package_set(packages)[j]]
            0 <= i < j < package_set(packages).len() ==> text_order(
                package_set(packages)[i],
                package_set(packages)[j],
            ) == Order::Less,
{
    broadcast use vstd::seq_lib::group_to_multiset_ensures;

    let names = packages.map_values(|name: Seq<char>| lowercase(trimmed(name)));
    let sorted = sorted_texts(names);
    sort_keeps_items(names, crate::pieces::text_after());
    dedup_members(sorted, name);
    assert(sorted.contains(name) <==> sorted.to_multiset().count(name) > 0);
    assert(names.contains(name) <==> names.to_multiset().count(name) > 0);
    if names.contains(name) {
        let k = choose|k: int| 0 <= k < names.len() && names[k] == name;
        assert(lowercase(trimmed(packages[k])) == name);
    }
    if exists|i: int| 0 <= i < packages.len() && lowercase(trimmed(#[trigger] packages[i])) == name {
        let k = choose|i: int|
            0 <= i < packages.len() && lowercase(trimmed(#[trigger] packages[i])) == name;
        assert(names[k] == name);
    }
    assert forall|i: int, j: int| #![trigger sorted[i], sorted[j]]
        0 <= i < j < sorted.len() implies text_order(sorted[i], sorted[j]) != Order::Greater by {
        sorted_texts_are_in_order(names, i, j);
    }
    deduped_texts_ascend(sorted);
}

proof fn deduped_texts_ascend(sorted: Seq<Seq<char>>)
    requires
        forall|i: int, j: int| #![trigger sorted[i], sorted[j]]
            0 <= i < j < sorted.len() ==> text_order(sorted[i], sorted[j]) != Order::Greater,
    ensures
        forall|i: int, j: int| #![trigger dedup(sorted)[i], dedup(sorted)[j]]
            0 <= i < j < dedup(sorted).len() ==> text_order(dedup(sorted)[i], dedup(sorted)[j])
                == Order::Less,
    decreases sorted.len(),
{
    if sorted.len() > 1 {
        let head = sorted.drop_last();
        assert forall|i: int, j: int| #![trigger head[i], head[j]]
            0 <= i < j < head.len() implies text_order(head[i], head[j]) != Order::Greater by {
            assert(head[i] == sorted[i] && head[j] == sorted[j]);
        }
        deduped_texts_ascend(head);
        let rest = dedup(head);
        let result = dedup(sorted);
        let last = sorted[sorted.len() - 1];
        if last != sorted[sorted.len() - 2] {
            assert(result == rest.push(last));
            assert forall|i: int, j: int| #![trigger result[i], result[j]]
                0 <= i < j < result.len() implies text_order(result[i], result[j])
                == Order::Less by {
                assert(result[i] == rest[i]);
                if j < rest.len() {
                    assert(result[j] == rest[j]);
                } else {
                    dedup_members(head, rest[i]);
                    assert(rest.contains(rest[i]));
                    let k = choose|k: int| 0 <= k < head.len() && head[k] == rest[i];
                    assert(sorted[k] == rest[i]);
                    assert(text_order(sorted[k], sorted[sorted.len() - 1]) != Order::Greater);
                    text_order_antisymmetric(rest[i], last);
                    if rest[i] == last {
                        let before = sorted[sorted.len() - 2];
                        if k < sorted.len() - 2 {
                            assert(text_order(sorted[k], before) != Order::Greater);
                            assert(text_order(before, sorted[sorted.len() - 1]) != Order::Greater);
                            text_order_antisymmetric(last, before);
                        }
                    }
                }
            }
        }
    }
}

/// The cache that is used is the first of those that were fetched last, among those that can be read
/// and hold every package that was asked for; there is none where none does.
pub proof fn the_first_of_the_newest_caches_is_used(
    reads: Seq<Result<Option<IndexSnapshotView>, IndexErrorView>>,
    requested: Seq<Seq<char>>,
)
    ensures
        newest_cache(reads, requested) matches Some(found) ==> exists|place: int|
            0 <= place < reads.len() && #[trigger] reads[place] == Ok::<
                Option<IndexSnapshotView>,
                IndexErrorView,
            >(Some(found)) && serves(found, requested) && newest_at(reads, requested, place, found),
        newest_cache(reads, requested) is None ==> forall|i: int|
            0 <= i < reads.len() ==> (#[trigger] reads[i] matches Ok(Some(other)) ==> !serves(
                other,
                requested,
            )),
    decreases reads.len(),
{
    if reads.len() > 0 {
        let head = reads.drop_last();
        let last = reads.len() - 1;
        the_first_of_the_newest_caches_is_used(head, requested);
        let best = newest_cache(head, requested);
        assert(forall|i: int| 0 <= i < head.len() ==> #[trigger] reads[i] == head[i]);
        assert(forall|i: int| 0 <= i < head.len() ==> reads[i] == #[trigger] head[i]);
        if let Some(found) = newest_cache(reads, requested) {
            let before = if best is Some {
                choose|place: int|
                    0 <= place < head.len() && #[trigger] head[place] == Ok::<
                        Option<IndexSnapshotView>,
                        IndexErrorView,
                    >(best) && serves(best->0, requested) && newest_at(
                        head,
                        requested,
                        place,
                        best->0,
                    )
            } else {
                0
            };
            if reads[last] matches Ok(Some(snapshot)) && holds_all(snapshot.packages, requested)
                && (best matches Some(known) ==> snapshot.fetched_at > known.fetched_at) {
                assert(reads[last] == Ok::<Option<IndexSnapshotView>, IndexErrorView>(Some(found)));
                assert forall|i: int| 0 <= i < reads.len() implies (
                #[trigger] reads[i] matches Ok(Some(other)) ==> (serves(other, requested) ==> (i
                    < last ==> other.fetched_at < found.fetched_at) && other.fetched_at
                    <= found.fetched_at)) by {
                    if i < last {
                        assert(head[i] == reads[i]);
                    }
                }
                assert(newest_at(reads, requested, last, found));
            } else {
                assert(reads[before] == head[before]);
                assert forall|i: int| 0 <= i < reads.len() implies (
                #[trigger] reads[i] matches Ok(Some(other)) ==> (serves(other, requested) ==> (i
                    < before ==> other.fetched_at < found.fetched_at) && other.fetched_at
                    <= found.fetched_at)) by {
                    if i < last {
                        assert(head[i] == reads[i]);
                    }
                }
                assert(newest_at(reads, requested, before, found));
            }
        }
    }
}

/// Whether what was read at `place` was fetched after what was read before it, and not before what
/// was read behind it, among what holds every package that was asked for.
pub open spec fn newest_at(
    reads: Seq<Result<Option<IndexSnapshotView>, IndexErrorView>>,
    requested: Seq<Seq<char>>,
    place: int,
    found: IndexSnapshotView,
) -> bool {
    forall|i: int|
        0 <= i < reads.len() ==> (#[trigger] reads[i] matches Ok(Some(other)) ==> (serves(
            other,
            requested,
        ) ==> (i < place ==> other.fetched_at < found.fetched_at) && other.fetched_at
            <= found.fetched_at))
}

// ---------------------------------------------------------------------------
// Order

proof fn entries_are_ordered()
    ensures
        strict_weak_order(wheel_after()),
{
    let after = wheel_after();
    assert forall|a: TorchWheelView, b: TorchWheelView| #[trigger] after(a, b) implies !after(
        b,
        a,
    ) by {
        text_order_antisymmetric(a.package, b.package);
        text_order_antisymmetric(a.filename, b.filename);
        text_order_antisymmetric(a.url, b.url);
    }
    assert forall|a: TorchWheelView, b: TorchWheelView, c: TorchWheelView|
        #![trigger after(a, b), after(b, c)]
        !after(a, b) && !after(b, c) implies !after(a, c) by {
        entries_stay_in_order(a, b, c);
    }
}

proof fn entries_stay_in_order(a: TorchWheelView, b: TorchWheelView, c: TorchWheelView)
    requires
        wheel_order(a, b) != Order::Greater,
        wheel_order(b, c) != Order::Greater,
    ensures
        wheel_order(a, c) != Order::Greater,
{
    text_order_antisymmetric(a.package, b.package);
    text_order_antisymmetric(b.package, c.package);
    text_order_antisymmetric(a.package, c.package);
    text_order_antisymmetric(a.filename, b.filename);
    text_order_antisymmetric(b.filename, c.filename);
    text_order_antisymmetric(a.filename, c.filename);
    text_order_antisymmetric(a.url, b.url);
    text_order_antisymmetric(b.url, c.url);
    text_order_antisymmetric(a.url, c.url);
    text_order_transitive(a.package, b.package, c.package);
    if text_order(a.filename, b.filename) != Order::Greater && text_order(b.filename, c.filename)
        != Order::Greater {
        text_order_transitive(a.filename, b.filename, c.filename);
    }
    if text_order(a.url, b.url) != Order::Greater && text_order(b.url, c.url) != Order::Greater {
        text_order_transitive(a.url, b.url, c.url);
    }
}

proof fn dedup_keeps_order<T>(items: Seq<T>, after: spec_fn(T, T) -> bool)
    requires
        all_sorted(items, after),
    ensures
        all_sorted(dedup(items), after),
    decreases items.len(),
{
    if items.len() > 0 {
        let head = items.drop_last();
        assert(all_sorted(head, after)) by {
            assert forall|i: int, j: int| #![trigger head[i], head[j]]
                0 <= i < j < head.len() implies !after(head[i], head[j]) by {
                assert(head[i] == items[i] && head[j] == items[j]);
            }
        }
        dedup_keeps_order(head, after);
        let earlier = dedup(head);
        let all = dedup(items);
        assert forall|i: int, j: int| #![trigger all[i], all[j]]
            0 <= i < j < all.len() implies !after(all[i], all[j]) by {
            if j < earlier.len() {
                assert(all[i] == earlier[i] && all[j] == earlier[j]);
            } else {
                assert(all[i] == earlier[i] && all[j] == items.last());
                dedup_members(head, earlier[i]);
                assert(earlier.contains(earlier[i]));
                let k = choose|k: int| 0 <= k < head.len() && head[k] == earlier[i];
                assert(items[k] == earlier[i]);
                assert(!after(items[k], items[items.len() - 1]));
            }
        }
    }
}

/// The wheels of a snapshot stand by their package, those of a package by their variant, and those of
/// a variant by their file name.
pub proof fn snapshots_are_in_order(
    policy: FetchPolicyView,
    fetched_at: u64,
    packages: Seq<Seq<char>>,
    variants: Seq<CudaVariant>,
    pages: Seq<Result<Seq<TorchWheelView>, IndexErrorView>>,
    low: int,
    high: int,
)
    ensures
        assembled(policy, fetched_at, packages, variants, pages) matches Ok(snapshot) ==> (0 <= low
            < high < snapshot.wheels.len() ==> {
            let first = snapshot.wheels[low];
            let second = snapshot.wheels[high];
            &&& text_order(first.package, second.package) != Order::Greater
            &&& first.package == second.package ==> match (first.variant, second.variant) {
                (CudaVariant::Cuda { .. }, CudaVariant::Cpu) => false,
                (
                    CudaVariant::Cuda { major, minor },
                    CudaVariant::Cuda { major: other_major, minor: other_minor },
                ) => major < other_major || major == other_major && minor <= other_minor,
                _ => true,
            }
            &&& first.package == second.package && first.variant == second.variant ==> text_order(
                first.filename,
                second.filename,
            ) != Order::Greater
        }),
{
    if let Ok(snapshot) = assembled(policy, fetched_at, packages, variants, pages) {
        if 0 <= low < high < snapshot.wheels.len() {
            let all = contents(pages);
            entries_are_ordered();
            sorted_is_ordered(all, wheel_after());
            dedup_keeps_order(sort_by(all, wheel_after()), wheel_after());
            let first = snapshot.wheels[low];
            let second = snapshot.wheels[high];
            assert(!wheel_after()(first, second));
            text_order_antisymmetric(first.package, second.package);
        }
    }
}

/// Every set of packages that can be asked for can be kept: PyTorch with or without each companion
/// package, in alphabetical order. It is served by exactly those sets that hold all of it.
pub proof fn every_set_of_packages_is_kept(packages: Seq<Seq<char>>)
    ensures
        cacheable_sets().contains(packages) <==> packages == seq!["torch"@] || packages == seq![
            "torch"@,
            "torchaudio"@,
        ] || packages == seq!["torch"@, "torchvision"@] || packages == seq![
            "torch"@,
            "torchaudio"@,
            "torchvision"@,
        ],
        cache_name(packages) == "index-v1-"@ + join(packages, "-"@) + ".json"@,
{
    let sets = cacheable_sets();
    assert(sets[0] == seq!["torch"@] && sets[1] == seq!["torch"@, "torchaudio"@] && sets[2] == seq![
        "torch"@,
        "torchvision"@,
    ] && sets[3] == seq!["torch"@, "torchaudio"@, "torchvision"@]);
}

/// The page of a package stands below that of its variant.
pub proof fn pages_stand_below_their_variant(
    root: UrlPartsView,
    variant: CudaVariant,
    package: Seq<char>,
)
    ensures
        ({
            let name = match variant {
                CudaVariant::Cpu => "cpu"@,
                CudaVariant::Cuda { major, minor } => "cu"@ + decimal(major as nat) + decimal(
                    minor as nat,
                ),
            };
            match joined_parts(root, name + "/"@ + package + "/"@) {
                Ok(url) => page_location(root, variant, package) == Ok::<
                    UrlPartsView,
                    IndexErrorView,
                >(url),
                Err(_) => page_location(root, variant, package) is Err,
            }
        }),
{
}

} // verus!
