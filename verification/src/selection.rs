//! Which wheels candidates are made of, and what a recommendation promises of the host.

use crate::checks::{
    abi_fits, companion_available, companion_group, companion_pin, driver_check, gpu_check,
    platform_match, platform_result, python_wheels, tag_passes, wheel_fits,
};
use crate::guarantees::{
    groups_cover_every_torch_wheel, listed_candidates, report_lists_every_candidate_once,
};
use crate::model::{
    CandidateView, CheckStatus, CompatibilityStatus, CudaVariant, EnvironmentView,
    IndexSnapshotView, MetadataInfoView, NvidiaDetectionStatus, ReasonCode,
    RecommendationReportView, TorchWheelView,
};
use crate::order::{
    kept, kept_is_ordered, kept_members, sort_by, sort_keeps_items, sorted_is_ordered,
    strict_weak_order, Order,
};
use crate::outside::{is_pep440, pep440_contains, pep440_order, pep440_prerelease, pep440_text};
use crate::pieces::{text_order, text_order_antisymmetric, text_order_transitive, trimmed};
use crate::resolver::{
    all_candidates, companion_reasons, constraint_allows, constraint_specifiers, explanation,
    filename_after, group_candidate, group_candidates, group_keys, group_wheels, members,
    parsed_constraint, requested_wheels, resolution, with_key, ResolverOptionsView,
};
use crate::rules::{
    companion_name, covering_rule, preference, CompanionPackage, DriverRulesView, ReleaseRulesView,
    RuleSetView,
};
use crate::suitability::{
    architecture_passes_where_code_runs, platform_passes_where_a_tag_does,
    selected_wheel_passes_the_platform, some_code_runs, state_sums_up_the_dimensions,
    taken_wheels_fit,
};
use crate::text::whitespace;
use crate::verdicts::the_first_fitting_wheel_is_taken;
use vstd::prelude::*;

verus! {

/// Whether a wheel of a snapshot is the one of PyTorch that was asked for: it is of the variant,
/// and its version equals the one asked for.
pub open spec fn asked_for(wheel: TorchWheelView, version: Seq<char>, variant: CudaVariant) -> bool {
    wheel.package == "torch"@ && wheel.variant == variant && pep440_order(
        wheel.public_version,
        version,
    ) == Some(Order::Equal)
}

proof fn sorted_members<T>(items: Seq<T>, after: spec_fn(T, T) -> bool, item: T)
    ensures
        sort_by(items, after).contains(item) <==> items.contains(item),
        sort_by(items, after).len() == items.len(),
{
    broadcast use vstd::seq_lib::group_to_multiset_ensures;

    sort_keeps_items(items, after);
    assert(sort_by(items, after).contains(item) <==> sort_by(items, after).to_multiset().count(item)
        > 0);
    assert(items.contains(item) <==> items.to_multiset().count(item) > 0);
}

proof fn requested_are_asked_for(
    wheels: Seq<TorchWheelView>,
    version: Seq<char>,
    variant: CudaVariant,
    wheel: TorchWheelView,
)
    ensures
        requested_wheels(wheels, version, variant).contains(wheel) <==> wheels.contains(wheel)
            && asked_for(wheel, version, variant),
{
    let keep = |wheel: TorchWheelView|
        wheel.package == "torch"@ && pep440_order(wheel.public_version, version) == Some(
            Order::Equal,
        ) && wheel.variant == variant;
    kept_members(wheels, keep, wheel);
    sorted_members(kept(wheels, keep), filename_after(), wheel);
}

/// The wheel that a group of wheels gives its candidate is one of the group that is not withdrawn
/// and fits the interpreter.
proof fn wheel_of_a_group(
    environment: EnvironmentView,
    snapshot: IndexSnapshotView,
    metadata: MetadataInfoView,
    options: ResolverOptionsView,
    rules: RuleSetView,
    specifiers: Option<Seq<char>>,
    version: Seq<char>,
    variant: CudaVariant,
    wheels: Seq<TorchWheelView>,
)
    ensures
        group_candidate(
            environment,
            snapshot,
            metadata,
            options,
            rules,
            specifiers,
            version,
            variant,
            wheels,
        ).wheel matches Some(wheel) ==> wheels.contains(wheel) && !wheel.yanked
            && (environment.python matches Some(known) && abi_fits(wheel, known) && (
        wheel.requires_python matches Some(text) ==> pep440_contains(text, known.version.text)
            == Some(true))),
{
    let matching = python_wheels(environment.python, wheels);
    selected_wheel_passes_the_platform(environment, matching);
    if let Some(wheel) = platform_result(environment, matching).1 {
        taken_wheels_fit(environment.python, wheels, wheel);
    }
}

/// An explanation is one of what was asked for. It is of the variant that was asked for; where it
/// holds a wheel, that is a PyTorch wheel of the snapshot of this variant whose version equals the
/// one asked for, and not withdrawn. Where the snapshot has no PyTorch wheel of that version and
/// variant, the candidate is unavailable because the wheel is missing; where it has one, the
/// candidate has the version of such a wheel and says that there is one.
pub proof fn explanation_is_of_what_was_asked_for(
    environment: EnvironmentView,
    snapshot: IndexSnapshotView,
    metadata: MetadataInfoView,
    version: Seq<char>,
    variant: CudaVariant,
    options: ResolverOptionsView,
    drivers: DriverRulesView,
    releases: ReleaseRulesView,
)
    ensures
        explanation(
            environment,
            snapshot,
            metadata,
            version,
            variant,
            options,
            drivers,
            releases,
        ) matches Ok(candidate) ==> {
            &&& candidate.variant == variant
            &&& candidate.wheel matches Some(wheel) ==> snapshot.wheels.contains(wheel)
                && wheel.package == "torch"@ && wheel.variant == variant && pep440_order(
                wheel.public_version,
                version,
            ) == Some(Order::Equal) && !wheel.yanked
            &&& (forall|i: int|
                0 <= i < snapshot.wheels.len() ==> !asked_for(
                    #[trigger] snapshot.wheels[i],
                    version,
                    variant,
                )) ==> candidate.compatibility == CompatibilityStatus::Unavailable
                && candidate.wheel is None && candidate.checks.wheel.status == CheckStatus::Fail
                && candidate.checks.wheel.reasons.len() == 1
                && candidate.checks.wheel.reasons[0].code == ReasonCode::WheelMissing
                && pep440_text(version) == Some(candidate.torch_version)
            &&& (exists|i: int|
                0 <= i < snapshot.wheels.len() && asked_for(
                    #[trigger] snapshot.wheels[i],
                    version,
                    variant,
                )) ==> candidate.checks.wheel.reasons[0].code == ReasonCode::WheelExists && (
            exists|i: int|
                0 <= i < snapshot.wheels.len() && asked_for(
                    #[trigger] snapshot.wheels[i],
                    version,
                    variant,
                ) && snapshot.wheels[i].public_version == candidate.torch_version)
                && candidate.checks.gpu_architecture == gpu_check(
                environment,
                candidate.torch_version,
                variant,
                RuleSetView { drivers, releases },
            ) && candidate.checks.driver == driver_check(
                environment,
                variant,
                RuleSetView { drivers, releases },
            )
        },
{
    if let Ok(candidate) = explanation(
        environment,
        snapshot,
        metadata,
        version,
        variant,
        options,
        drivers,
        releases,
    ) {
        let wheels = requested_wheels(snapshot.wheels, version, variant);
        if exists|i: int|
            0 <= i < snapshot.wheels.len() && asked_for(
                #[trigger] snapshot.wheels[i],
                version,
                variant,
            ) {
            let k = choose|i: int|
                0 <= i < snapshot.wheels.len() && asked_for(
                    #[trigger] snapshot.wheels[i],
                    version,
                    variant,
                );
            requested_are_asked_for(snapshot.wheels, version, variant, snapshot.wheels[k]);
            assert(snapshot.wheels.contains(snapshot.wheels[k]));
            assert(wheels.len() > 0);
        }
        if wheels.len() > 0 {
            requested_are_asked_for(snapshot.wheels, version, variant, wheels[0]);
            assert(wheels.contains(wheels[0]));
            let k = choose|k: int|
                0 <= k < snapshot.wheels.len() && snapshot.wheels[k] == wheels[0];
            assert(asked_for(snapshot.wheels[k], version, variant));
            wheel_of_a_group(
                environment,
                snapshot,
                metadata,
                options,
                RuleSetView { drivers, releases },
                None,
                wheels[0].public_version,
                variant,
                wheels,
            );
            if let Some(wheel) = candidate.wheel {
                requested_are_asked_for(snapshot.wheels, version, variant, wheel);
            }
        }
    }
}

// ---------------------------------------------------------------------------
// Candidates of a resolution

proof fn keys_of_wheels(wheels: Seq<TorchWheelView>, key: (Seq<char>, CudaVariant))
    requires
        group_keys(wheels).contains(key),
    ensures
        exists|i: int|
            0 <= i < wheels.len() && (#[trigger] wheels[i]).package == "torch"@
                && wheels[i].public_version == key.0 && wheels[i].variant == key.1,
    decreases wheels.len(),
{
    if wheels.len() > 0 {
        let head = wheels.drop_last();
        let last = wheels[wheels.len() - 1];
        if last.package == "torch"@ {
            with_key_members(group_keys(head), (last.public_version, last.variant), key);
        }
        if group_keys(head).contains(key) {
            keys_of_wheels(head, key);
            let k = choose|i: int|
                0 <= i < head.len() && (#[trigger] head[i]).package == "torch"@
                    && head[i].public_version == key.0 && head[i].variant == key.1;
            assert(wheels[k] == head[k]);
        } else {
            assert(wheels[wheels.len() - 1].public_version == key.0);
        }
    }
}

proof fn with_key_members(
    keys: Seq<(Seq<char>, CudaVariant)>,
    key: (Seq<char>, CudaVariant),
    other: (Seq<char>, CudaVariant),
)
    requires
        with_key(keys, key).contains(other),
    ensures
        other == key || keys.contains(other),
    decreases keys.len(),
{
    let result = with_key(keys, key);
    let k = choose|k: int| 0 <= k < result.len() && result[k] == other;
    if keys.len() == 0 || crate::resolver::key_order(keys.last(), key) == Order::Less {
        if k < keys.len() {
            assert(keys[k] == other);
        }
    } else if keys.last() != key {
        let inner = with_key(keys.drop_last(), key);
        if k < inner.len() {
            assert(inner[k] == other);
            with_key_members(keys.drop_last(), key, other);
            if other != key {
                let m = choose|m: int|
                    0 <= m < keys.drop_last().len() && keys.drop_last()[m] == other;
                assert(keys[m] == other);
            }
        } else {
            assert(keys[keys.len() - 1] == other);
        }
    }
}

/// Whether a candidate was made of the wheels of a version and a variant.
#[verifier::opaque]
spec fn made_of(
    environment: EnvironmentView,
    snapshot: IndexSnapshotView,
    metadata: MetadataInfoView,
    options: ResolverOptionsView,
    rules: RuleSetView,
    specifiers: Option<Seq<char>>,
    key: (Seq<char>, CudaVariant),
    candidate: CandidateView,
) -> bool {
    is_pep440(key.0) && (specifiers matches Some(text) ==> pep440_contains(text, key.0) == Some(
        true,
    )) && candidate == group_candidate(
        environment,
        snapshot,
        metadata,
        options,
        rules,
        specifiers,
        key.0,
        key.1,
        group_wheels(snapshot.wheels, key),
    )
}

proof fn key_of_a_candidate(
    environment: EnvironmentView,
    snapshot: IndexSnapshotView,
    metadata: MetadataInfoView,
    options: ResolverOptionsView,
    rules: RuleSetView,
    specifiers: Option<Seq<char>>,
    keys: Seq<(Seq<char>, CudaVariant)>,
    candidates: Seq<CandidateView>,
    place: int,
) -> (key: int)
    requires
        group_candidates(environment, snapshot, metadata, options, rules, specifiers, keys) == Ok::<
            Seq<CandidateView>,
            crate::rules::ResolverErrorView,
        >(candidates),
        0 <= place < candidates.len(),
    ensures
        0 <= key < keys.len(),
        made_of(
            environment,
            snapshot,
            metadata,
            options,
            rules,
            specifiers,
            keys[key],
            candidates[place],
        ),
    decreases keys.len(),
{
    let head = keys.drop_last();
    let earlier = group_candidates(
        environment,
        snapshot,
        metadata,
        options,
        rules,
        specifiers,
        head,
    )->Ok_0;
    if place < earlier.len() {
        assert(candidates[place] == earlier[place]);
        let key = key_of_a_candidate(
            environment,
            snapshot,
            metadata,
            options,
            rules,
            specifiers,
            head,
            earlier,
            place,
        );
        assert(head[key] == keys[key]);
        key
    } else {
        reveal(made_of);
        keys.len() - 1
    }
}

proof fn candidate_of_a_key(
    environment: EnvironmentView,
    snapshot: IndexSnapshotView,
    metadata: MetadataInfoView,
    options: ResolverOptionsView,
    rules: RuleSetView,
    specifiers: Option<Seq<char>>,
    keys: Seq<(Seq<char>, CudaVariant)>,
    candidates: Seq<CandidateView>,
    key: int,
) -> (place: int)
    requires
        group_candidates(environment, snapshot, metadata, options, rules, specifiers, keys) == Ok::<
            Seq<CandidateView>,
            crate::rules::ResolverErrorView,
        >(candidates),
        0 <= key < keys.len(),
        constraint_allows(specifiers, keys[key].0),
    ensures
        0 <= place < candidates.len(),
        made_of(
            environment,
            snapshot,
            metadata,
            options,
            rules,
            specifiers,
            keys[key],
            candidates[place],
        ),
    decreases keys.len(),
{
    let head = keys.drop_last();
    let earlier = group_candidates(
        environment,
        snapshot,
        metadata,
        options,
        rules,
        specifiers,
        head,
    )->Ok_0;
    if key < head.len() {
        assert(head[key] == keys[key]);
        let place = candidate_of_a_key(
            environment,
            snapshot,
            metadata,
            options,
            rules,
            specifiers,
            head,
            earlier,
            key,
        );
        assert(candidates[place] == earlier[place]);
        place
    } else {
        assert(keys[key] == keys.last());
        reveal(made_of);
        candidates.len() - 1
    }
}

proof fn group_wheels_are_of_the_key(
    wheels: Seq<TorchWheelView>,
    key: (Seq<char>, CudaVariant),
    wheel: TorchWheelView,
)
    ensures
        group_wheels(wheels, key).contains(wheel) <==> wheels.contains(wheel) && wheel.package
            == "torch"@ && wheel.public_version == key.0 && wheel.variant == key.1,
{
    let keep = |wheel: TorchWheelView|
        wheel.package == "torch"@ && wheel.public_version == key.0 && wheel.variant == key.1;
    kept_members(wheels, keep, wheel);
    sorted_members(kept(wheels, keep), filename_after(), wheel);
}

proof fn listed_candidate_is_made_of_a_key(
    environment: EnvironmentView,
    snapshot: IndexSnapshotView,
    metadata: MetadataInfoView,
    options: ResolverOptionsView,
    drivers: DriverRulesView,
    releases: ReleaseRulesView,
    report: RecommendationReportView,
    candidate: CandidateView,
) -> (key: (Seq<char>, CudaVariant))
    requires
        resolution(environment, snapshot, metadata, options, drivers, releases) == Ok::<
            RecommendationReportView,
            crate::rules::ResolverErrorView,
        >(report),
        listed_candidates(report).count(candidate) > 0,
    ensures
        made_of(
            environment,
            snapshot,
            metadata,
            options,
            RuleSetView { drivers, releases },
            parsed_constraint(options.torch_version)->Ok_0,
            key,
            candidate,
        ),
        group_keys(snapshot.wheels).contains(key),
{
    broadcast use vstd::seq_lib::group_to_multiset_ensures;

    let rules = RuleSetView { drivers, releases };
    let specifiers = parsed_constraint(options.torch_version)->Ok_0;
    let keys = group_keys(snapshot.wheels);
    report_lists_every_candidate_once(
        environment,
        snapshot,
        metadata,
        options,
        drivers,
        releases,
    );
    let candidates = all_candidates(
        environment,
        snapshot,
        metadata,
        options,
        rules,
        specifiers,
    )->Ok_0;
    assert(candidates.contains(candidate));
    let i = choose|i: int| 0 <= i < candidates.len() && candidates[i] == candidate;
    let k = key_of_a_candidate(
        environment,
        snapshot,
        metadata,
        options,
        rules,
        specifiers,
        keys,
        candidates,
        i,
    );
    assert(keys.contains(keys[k]));
    keys[k]
}

/// Every candidate that a report lists is one of the snapshot: there is a PyTorch wheel of its
/// version and variant, and where it holds a wheel, that is one of these, is not withdrawn, and
/// fits the interpreter. Its preference, its stability and its checks are those of its version and
/// variant on this host.
pub proof fn candidates_are_of_the_snapshot(
    environment: EnvironmentView,
    snapshot: IndexSnapshotView,
    metadata: MetadataInfoView,
    options: ResolverOptionsView,
    drivers: DriverRulesView,
    releases: ReleaseRulesView,
    candidate: CandidateView,
)
    ensures
        resolution(environment, snapshot, metadata, options, drivers, releases) matches Ok(report)
            ==> listed_candidates(report).count(candidate) > 0 ==> {
            &&& exists|i: int|
                0 <= i < snapshot.wheels.len() && (#[trigger] snapshot.wheels[i]).package
                    == "torch"@ && snapshot.wheels[i].public_version == candidate.torch_version
                    && snapshot.wheels[i].variant == candidate.variant
            &&& candidate.wheel matches Some(wheel) ==> snapshot.wheels.contains(wheel)
                && wheel.package == "torch"@ && wheel.public_version == candidate.torch_version
                && wheel.variant == candidate.variant && !wheel.yanked && (
            environment.python matches Some(known) && abi_fits(wheel, known) && (
            wheel.requires_python matches Some(text) ==> pep440_contains(text, known.version.text)
                == Some(true)))
            &&& candidate.stable <==> pep440_prerelease(candidate.torch_version) == Some(false)
            &&& candidate.official_preference == preference(
                RuleSetView { drivers, releases },
                candidate.torch_version,
                candidate.variant,
            )
            &&& candidate.checks.gpu_architecture == gpu_check(
                environment,
                candidate.torch_version,
                candidate.variant,
                RuleSetView { drivers, releases },
            )
            &&& candidate.checks.driver == driver_check(
                environment,
                candidate.variant,
                RuleSetView { drivers, releases },
            )
        },
{
    if let Ok(report) = resolution(environment, snapshot, metadata, options, drivers, releases) {
        if listed_candidates(report).count(candidate) > 0 {
            let key = listed_candidate_is_made_of_a_key(
                environment,
                snapshot,
                metadata,
                options,
                drivers,
                releases,
                report,
                candidate,
            );
            reveal(made_of);
            let wheels = group_wheels(snapshot.wheels, key);
            keys_of_wheels(snapshot.wheels, key);
            wheel_of_a_group(
                environment,
                snapshot,
                metadata,
                options,
                RuleSetView { drivers, releases },
                parsed_constraint(options.torch_version)->Ok_0,
                key.0,
                key.1,
                wheels,
            );
            if let Some(wheel) = candidate.wheel {
                group_wheels_are_of_the_key(snapshot.wheels, key, wheel);
            }
        }
    }
}

/// No version and variant of the snapshot that the constraint allows is left out: where there is a
/// PyTorch wheel of it, a report lists a candidate of this version and variant.
pub proof fn no_wheel_is_left_out(
    environment: EnvironmentView,
    snapshot: IndexSnapshotView,
    metadata: MetadataInfoView,
    options: ResolverOptionsView,
    drivers: DriverRulesView,
    releases: ReleaseRulesView,
    index: int,
)
    requires
        0 <= index < snapshot.wheels.len(),
        snapshot.wheels[index].package == "torch"@,
    ensures
        resolution(environment, snapshot, metadata, options, drivers, releases) matches Ok(report)
            ==> (parsed_constraint(options.torch_version)->Ok_0 matches Some(text)
            ==> pep440_contains(text, snapshot.wheels[index].public_version) == Some(true))
            ==> exists|candidate: CandidateView| #[trigger]
            listed_candidates(report).count(candidate) > 0 && candidate.torch_version
                == snapshot.wheels[index].public_version && candidate.variant
                == snapshot.wheels[index].variant,
{
    broadcast use vstd::seq_lib::group_to_multiset_ensures;

    if let Ok(report) = resolution(environment, snapshot, metadata, options, drivers, releases) {
        let specifiers = parsed_constraint(options.torch_version)->Ok_0;
        let wheel = snapshot.wheels[index];
        if specifiers matches Some(text) ==> pep440_contains(text, wheel.public_version) == Some(
            true,
        ) {
            let rules = RuleSetView { drivers, releases };
            let keys = group_keys(snapshot.wheels);
            let key = (wheel.public_version, wheel.variant);
            groups_cover_every_torch_wheel(snapshot.wheels, index);
            report_lists_every_candidate_once(
                environment,
                snapshot,
                metadata,
                options,
                drivers,
                releases,
            );
            let candidates = all_candidates(
                environment,
                snapshot,
                metadata,
                options,
                rules,
                specifiers,
            )->Ok_0;
            let k = choose|k: int| 0 <= k < keys.len() && keys[k] == key;
            let i = candidate_of_a_key(
                environment,
                snapshot,
                metadata,
                options,
                rules,
                specifiers,
                keys,
                candidates,
                k,
            );
            assert(candidates.contains(candidates[i]));
            assert(listed_candidates(report).count(candidates[i]) > 0);
            reveal(made_of);
        }
    }
}

/// A candidate that passed every static check suits the host: it holds a wheel that is not
/// withdrawn, whose tags and `requires-python` fit the interpreter, on Linux for x86-64, with a
/// platform tag that is `any` or satisfied by the glibc of the host; a CUDA wheel has code for each
/// device and a driver that passed. It is a stable release, or pre-releases were asked for.
pub proof fn compatible_candidates_suit_the_host(
    environment: EnvironmentView,
    snapshot: IndexSnapshotView,
    metadata: MetadataInfoView,
    options: ResolverOptionsView,
    drivers: DriverRulesView,
    releases: ReleaseRulesView,
    candidate: CandidateView,
)
    requires
        candidate.compatibility == CompatibilityStatus::Verified || candidate.compatibility
            == CompatibilityStatus::DirectCompatible || candidate.compatibility
            == CompatibilityStatus::MinorCompatible,
    ensures
        resolution(environment, snapshot, metadata, options, drivers, releases) matches Ok(report)
            ==> listed_candidates(report).count(candidate) > 0 ==> {
            &&& candidate.wheel matches Some(wheel) && snapshot.wheels.contains(wheel)
                && wheel.package == "torch"@ && wheel.public_version == candidate.torch_version
                && wheel.variant == candidate.variant && !wheel.yanked && (
            environment.python matches Some(known) && abi_fits(wheel, known) && (
            wheel.requires_python matches Some(text) ==> pep440_contains(text, known.version.text)
                == Some(true))) && environment.platform.os is Linux
                && environment.platform.architecture is X86_64 && exists|i: int|
                0 <= i < wheel.platform_tags.len() && (#[trigger] wheel.platform_tags[i] == "any"@
                    || tag_passes(wheel.platform_tags[i], environment.glibc))
            &&& candidate.variant is Cuda ==> environment.nvidia.gpus.len() > 0
                && environment.nvidia.status != NvidiaDetectionStatus::NoDevices
                && driver_check(
                environment,
                candidate.variant,
                RuleSetView { drivers, releases },
            ).status == CheckStatus::Pass && (covering_rule(
                releases.gpu_architectures,
                candidate.torch_version,
                candidate.variant,
            ) matches Some(rule) && forall|i: int|
                0 <= i < environment.nvidia.gpus.len() ==> (
                #[trigger] environment.nvidia.gpus[i].compute_capability) is Some
                    && some_code_runs(rule, environment.nvidia.gpus[i].compute_capability->0))
            &&& pep440_prerelease(candidate.torch_version) == Some(false)
                || options.include_prerelease
        },
{
    if let Ok(report) = resolution(environment, snapshot, metadata, options, drivers, releases) {
        if listed_candidates(report).count(candidate) > 0 {
            let rules = RuleSetView { drivers, releases };
            let key = listed_candidate_is_made_of_a_key(
                environment,
                snapshot,
                metadata,
                options,
                drivers,
                releases,
                report,
                candidate,
            );
            reveal(made_of);
            let wheels = group_wheels(snapshot.wheels, key);
            let matching = python_wheels(environment.python, wheels);
            candidates_are_of_the_snapshot(
                environment,
                snapshot,
                metadata,
                options,
                drivers,
                releases,
                candidate,
            );
            state_sums_up_the_dimensions(candidate.checks);
            selected_wheel_passes_the_platform(environment, matching);
            assert(candidate.checks.platform == platform_result(environment, matching).0);
            let wheel = candidate.wheel->0;
            platform_passes_where_a_tag_does(wheel, environment);
            assert(platform_match(wheel, environment) is Pass);
            if candidate.variant is Cuda {
                architecture_passes_where_code_runs(
                    environment,
                    candidate.torch_version,
                    candidate.variant,
                    rules,
                );
            }
        }
    }
}

proof fn reasons_about_companions(
    environment: EnvironmentView,
    snapshot: IndexSnapshotView,
    rules: RuleSetView,
    version: Seq<char>,
    variant: CudaVariant,
    packages: Seq<CompanionPackage>,
)
    ensures
        companion_reasons(environment, snapshot, rules, version, variant, packages).len() == 0
            ==> forall|i: int|
            0 <= i < packages.len() ==> (companion_pin(
                rules,
                #[trigger] packages[i],
                version,
            ) matches Some(pin) && companion_available(
                snapshot,
                environment,
                companion_name(packages[i]),
                pin,
                variant,
            )),
    decreases packages.len(),
{
    if packages.len() > 0 {
        let head = packages.drop_last();
        reasons_about_companions(environment, snapshot, rules, version, variant, head);
        if companion_reasons(environment, snapshot, rules, version, variant, packages).len() == 0 {
            assert forall|i: int| 0 <= i < packages.len() implies (companion_pin(
                rules,
                #[trigger] packages[i],
                version,
            ) matches Some(pin) && companion_available(
                snapshot,
                environment,
                companion_name(packages[i]),
                pin,
                variant,
            )) by {
                if i < head.len() {
                    assert(head[i] == packages[i]);
                } else {
                    assert(packages[i] == packages.last());
                }
            }
        }
    }
}

/// A companion package is available only where the snapshot has a wheel of it of exactly this
/// version and variant that is not withdrawn, fits the interpreter and passes on the platform; and
/// it is where there is one.
pub proof fn available_companions_suit_the_host(
    snapshot: IndexSnapshotView,
    environment: EnvironmentView,
    package: Seq<char>,
    version: Seq<char>,
    variant: CudaVariant,
)
    ensures
        companion_available(snapshot, environment, package, version, variant) <==> exists|i: int|
            0 <= i < snapshot.wheels.len() && (#[trigger] snapshot.wheels[i]).package == package
                && snapshot.wheels[i].public_version == version && snapshot.wheels[i].variant
                == variant && !snapshot.wheels[i].yanked && (environment.python matches Some(known)
                && abi_fits(snapshot.wheels[i], known) && (
            snapshot.wheels[i].requires_python matches Some(text) ==> pep440_contains(
                text,
                known.version.text,
            ) == Some(true))) && platform_match(snapshot.wheels[i], environment) is Pass,
{
    let group = companion_group(snapshot, package, version, variant);
    let keep = |wheel: TorchWheelView|
        wheel.package == package && wheel.public_version == version && wheel.variant == variant
            && !wheel.yanked;
    let matching = python_wheels(environment.python, group);
    selected_wheel_passes_the_platform(environment, matching);
    if companion_available(snapshot, environment, package, version, variant) {
        let wheel = platform_result(environment, matching).1->0;
        taken_wheels_fit(environment.python, group, wheel);
        kept_members(snapshot.wheels, keep, wheel);
        assert(keep(wheel));
        let i = choose|i: int| 0 <= i < snapshot.wheels.len() && snapshot.wheels[i] == wheel;
        assert(snapshot.wheels[i].package == package);
    }
    if exists|i: int|
        0 <= i < snapshot.wheels.len() && (#[trigger] snapshot.wheels[i]).package == package
            && snapshot.wheels[i].public_version == version && snapshot.wheels[i].variant
            == variant && !snapshot.wheels[i].yanked && (environment.python matches Some(known)
            && abi_fits(snapshot.wheels[i], known) && (
        snapshot.wheels[i].requires_python matches Some(text) ==> pep440_contains(
            text,
            known.version.text,
        ) == Some(true))) && platform_match(snapshot.wheels[i], environment) is Pass {
        let i = choose|i: int|
            0 <= i < snapshot.wheels.len() && (#[trigger] snapshot.wheels[i]).package == package
                && snapshot.wheels[i].public_version == version && snapshot.wheels[i].variant
                == variant && !snapshot.wheels[i].yanked && (environment.python matches Some(known)
                && abi_fits(snapshot.wheels[i], known) && (
            snapshot.wheels[i].requires_python matches Some(text) ==> pep440_contains(
                text,
                known.version.text,
            ) == Some(true))) && platform_match(snapshot.wheels[i], environment) is Pass;
        let wheel = snapshot.wheels[i];
        kept_members(snapshot.wheels, keep, wheel);
        assert(snapshot.wheels.contains(wheel) && keep(wheel));
        taken_wheels_fit(environment.python, group, wheel);
        let k = choose|k: int| 0 <= k < matching.len() && matching[k] == wheel;
        assert(platform_match(matching[k], environment) is Pass);
    }
}

/// A candidate that passed every static check has every companion package that was asked for: its
/// pin is known, and a wheel of it is available for the same variant.
pub proof fn compatible_candidates_have_their_companions(
    environment: EnvironmentView,
    snapshot: IndexSnapshotView,
    metadata: MetadataInfoView,
    options: ResolverOptionsView,
    drivers: DriverRulesView,
    releases: ReleaseRulesView,
    candidate: CandidateView,
)
    requires
        candidate.compatibility == CompatibilityStatus::Verified || candidate.compatibility
            == CompatibilityStatus::DirectCompatible || candidate.compatibility
            == CompatibilityStatus::MinorCompatible,
    ensures
        resolution(environment, snapshot, metadata, options, drivers, releases) matches Ok(report)
            ==> listed_candidates(report).count(candidate) > 0 ==> {
            &&& options.companions.torchvision ==> (companion_pin(
                RuleSetView { drivers, releases },
                CompanionPackage::Torchvision,
                candidate.torch_version,
            ) matches Some(pin) && companion_available(
                snapshot,
                environment,
                "torchvision"@,
                pin,
                candidate.variant,
            ))
            &&& options.companions.torchaudio ==> (companion_pin(
                RuleSetView { drivers, releases },
                CompanionPackage::Torchaudio,
                candidate.torch_version,
            ) matches Some(pin) && companion_available(
                snapshot,
                environment,
                "torchaudio"@,
                pin,
                candidate.variant,
            ))
        },
{
    if let Ok(report) = resolution(environment, snapshot, metadata, options, drivers, releases) {
        if listed_candidates(report).count(candidate) > 0 {
            let rules = RuleSetView { drivers, releases };
            let key = listed_candidate_is_made_of_a_key(
                environment,
                snapshot,
                metadata,
                options,
                drivers,
                releases,
                report,
                candidate,
            );
            reveal(made_of);
            let packages = members(options.companions);
            compatible_candidates_suit_the_host(
                environment,
                snapshot,
                metadata,
                options,
                drivers,
                releases,
                candidate,
            );
            state_sums_up_the_dimensions(candidate.checks);
            reasons_about_companions(environment, snapshot, rules, key.0, key.1, packages);
            if options.companions.torchvision {
                assert(packages[0] == CompanionPackage::Torchvision);
            }
            if options.companions.torchaudio {
                assert(packages[packages.len() - 1] == CompanionPackage::Torchaudio);
            }
        }
    }
}

/// A constraint without white space around it is taken as it is where it begins with an operator, as
/// exact equality where it does not, and a leading `torch` makes no difference.
pub proof fn constraints_are_read_as_written(text: Seq<char>)
    requires
        text.len() > 0,
        !whitespace(text[0]),
        !whitespace(text.last()),
        !"torch"@.is_prefix_of(text),
    ensures
        text[0] == '<' || text[0] == '>' || text[0] == '=' || text[0] == '!' || text[0] == '~'
            ==> constraint_specifiers(text) == text,
        !(text[0] == '<' || text[0] == '>' || text[0] == '=' || text[0] == '!' || text[0] == '~')
            ==> constraint_specifiers(text) == "=="@ + text,
        constraint_specifiers("torch"@ + text) == constraint_specifiers(text),
{
    assert(trimmed(text) == text);
    let named = "torch"@ + text;
    reveal_strlit("torch");
    assert(named[0] == 't' && named.last() == text.last());
    assert(!whitespace('t'));
    assert(trimmed(named) == named);
    assert("torch"@.is_prefix_of(named)) by {
        assert(named.subrange(0, 5) =~= "torch"@);
    }
    assert(named.skip(5) =~= text);
}

proof fn names_are_ordered()
    ensures
        strict_weak_order(filename_after()),
{
    let after = filename_after();
    assert forall|a: TorchWheelView, b: TorchWheelView| #[trigger] after(a, b) implies !after(
        b,
        a,
    ) by {
        text_order_antisymmetric(a.filename, b.filename);
    }
    assert forall|a: TorchWheelView, b: TorchWheelView, c: TorchWheelView|
        #![trigger after(a, b), after(b, c)]
        !after(a, b) && !after(b, c) implies !after(a, c) by {
        text_order_transitive(a.filename, b.filename, c.filename);
    }
}

/// Of several wheels that could be taken for a candidate, the one with the first name is.
pub proof fn the_wheel_with_the_first_name_is_taken(
    environment: EnvironmentView,
    snapshot: IndexSnapshotView,
    metadata: MetadataInfoView,
    options: ResolverOptionsView,
    drivers: DriverRulesView,
    releases: ReleaseRulesView,
    candidate: CandidateView,
    index: int,
)
    requires
        0 <= index < snapshot.wheels.len(),
        snapshot.wheels[index].package == "torch"@,
        snapshot.wheels[index].public_version == candidate.torch_version,
        snapshot.wheels[index].variant == candidate.variant,
        !snapshot.wheels[index].yanked,
        environment.python matches Some(known) && wheel_fits(snapshot.wheels[index], known),
        platform_match(snapshot.wheels[index], environment) is Pass,
        environment.platform.os is Linux,
        environment.platform.architecture is X86_64,
    ensures
        resolution(environment, snapshot, metadata, options, drivers, releases) matches Ok(report)
            ==> listed_candidates(report).count(candidate) > 0 ==> (
        candidate.wheel matches Some(wheel) && platform_match(wheel, environment) is Pass
            && text_order(snapshot.wheels[index].filename, wheel.filename) != Order::Less),
{
    if let Ok(report) = resolution(environment, snapshot, metadata, options, drivers, releases) {
        if listed_candidates(report).count(candidate) > 0 {
            let key = listed_candidate_is_made_of_a_key(
                environment,
                snapshot,
                metadata,
                options,
                drivers,
                releases,
                report,
                candidate,
            );
            reveal(made_of);
            let other = snapshot.wheels[index];
            let known = environment.python->0;
            let group = group_wheels(snapshot.wheels, key);
            let keep = |wheel: TorchWheelView| wheel_fits(wheel, known) && !wheel.yanked;
            let matching = python_wheels(environment.python, group);
            names_are_ordered();
            assert(snapshot.wheels.contains(other));
            group_wheels_are_of_the_key(snapshot.wheels, key, other);
            assert(group.contains(other));
            kept_members(group, keep, other);
            assert(matching.contains(other));
            sorted_is_ordered(
                kept(
                    snapshot.wheels,
                    |wheel: TorchWheelView|
                        wheel.package == "torch"@ && wheel.public_version == key.0
                            && wheel.variant == key.1,
                ),
                filename_after(),
            );
            kept_is_ordered(group, keep, filename_after());
            let place = choose|place: int| 0 <= place < matching.len() && matching[place] == other;
            let first = first_passing(environment, matching, place);
            the_first_fitting_wheel_is_taken(environment, matching, first);
            let wheel = matching[first];
            assert(candidate.wheel == Some(wheel));
            text_order_antisymmetric(wheel.filename, other.filename);
            if first < place {
                assert(!filename_after()(matching[first], matching[place]));
            }
        }
    }
}

proof fn first_passing(
    environment: EnvironmentView,
    wheels: Seq<TorchWheelView>,
    place: int,
) -> (first: int)
    requires
        0 <= place < wheels.len(),
        platform_match(wheels[place], environment) is Pass,
    ensures
        0 <= first <= place,
        platform_match(wheels[first], environment) is Pass,
        forall|i: int|
            0 <= i < first ==> !(platform_match(#[trigger] wheels[i], environment) is Pass),
    decreases place,
{
    if exists|i: int|
        0 <= i < place && platform_match(#[trigger] wheels[i], environment) is Pass {
        let i = choose|i: int|
            0 <= i < place && platform_match(#[trigger] wheels[i], environment) is Pass;
        first_passing(environment, wheels, i)
    } else {
        place
    }
}

} // verus!
