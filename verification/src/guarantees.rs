//! What resolution promises as a whole.

use crate::model::{
    CandidateView, CudaVariant, DiagnosticSeverity, DiagnosticView, EnvironmentView,
    IndexSnapshotView, Installer, MetadataInfoView, RecommendationReportView, TorchWheelView,
    WarningCode,
};
use crate::order::{
    all_sorted, kept, kept_is_ordered, kept_members, kept_partition, sort_by, sort_keeps_items, Order,
};
use crate::pieces::{text_order, text_order_antisymmetric, text_order_transitive};
use crate::resolver::{
    all_candidates, all_versions, blocking_codes, candidate_after, candidate_order, companion_pins,
    constraint_allows, eligible_cpu, eligible_cuda, first_place, first_place_is_first,
    group_candidate, group_candidates, group_keys, index_address, install_parts, key_order, members,
    nvidia_usable, parsed_constraint, ranks_first, recommended, recommended_place, report_on,
    requirements, resolution, usable, with_key, ResolverOptionsView,
};
use crate::rules::{DriverRulesView, ReleaseRulesView, RuleSetView};
use crate::shell::{displayed_command_is_read_back, shell_words};
use vstd::multiset::Multiset;
use vstd::prelude::*;

verus! {

/// Every candidate that a report lists, wherever it lists it.
pub open spec fn listed_candidates(report: RecommendationReportView) -> Multiset<CandidateView> {
    (match report.recommendation {
        Some(candidate) => Multiset::empty().insert(candidate),
        None => Multiset::empty(),
    }).add(report.alternatives.to_multiset()).add(report.excluded.to_multiset())
}

proof fn choice_keeps_items(candidates: Seq<CandidateView>)
    ensures
        (match recommended(candidates).0 {
            Some(candidate) => Multiset::empty().insert(candidate),
            None => Multiset::empty(),
        }).add(recommended(candidates).1.to_multiset()) == candidates.to_multiset(),
{
    broadcast use vstd::seq_lib::group_to_multiset_ensures;

    let by_cuda = |candidate: CandidateView| eligible_cuda(candidate);
    let by_cpu = |candidate: CandidateView| eligible_cpu(candidate);
    first_place_is_first(candidates, by_cuda);
    first_place_is_first(candidates, by_cpu);
    match recommended_place(candidates) {
        Some(place) => {
            let item = candidates[place as int];
            assert(candidates.contains(item));
            assert(candidates.remove(place as int).to_multiset() =~= candidates.to_multiset().remove(
                item,
            ));
            assert(candidates.to_multiset().count(item) > 0);
            assert(Multiset::empty().insert(item).add(candidates.to_multiset().remove(item))
                =~= candidates.to_multiset());
        },
        None => {
            assert(Multiset::empty().add(candidates.to_multiset()) =~= candidates.to_multiset());
        },
    }
}

/// A report lists every candidate of the snapshot that the constraint allows exactly once,
/// as the recommendation, as an alternative, or as excluded.
pub proof fn report_lists_every_candidate_once(
    environment: EnvironmentView,
    snapshot: IndexSnapshotView,
    metadata: MetadataInfoView,
    options: ResolverOptionsView,
    drivers: DriverRulesView,
    releases: ReleaseRulesView,
)
    ensures
        resolution(environment, snapshot, metadata, options, drivers, releases) matches Ok(report)
            ==> all_candidates(
            environment,
            snapshot,
            metadata,
            options,
            RuleSetView { drivers, releases },
            parsed_constraint(options.torch_version)->Ok_0,
        ) matches Ok(candidates) && listed_candidates(report) == candidates.to_multiset(),
{
    if let Ok(report) = resolution(environment, snapshot, metadata, options, drivers, releases) {
        let rules = RuleSetView { drivers, releases };
        let specifiers = parsed_constraint(options.torch_version)->Ok_0;
        let candidates = all_candidates(
            environment,
            snapshot,
            metadata,
            options,
            rules,
            specifiers,
        )->Ok_0;
        let after = candidate_after(nvidia_usable(environment));
        let listed = sort_by(candidates, after);
        let keep = |candidate: CandidateView| usable(candidate);
        let leave = |candidate: CandidateView| !usable(candidate);
        sort_keeps_items(candidates, after);
        kept_partition(listed, keep, leave);
        choice_keeps_items(kept(listed, keep));
        assert(listed_candidates(report) =~= kept(listed, keep).to_multiset().add(
            kept(listed, leave).to_multiset(),
        ));
    }
}

proof fn removed_members<T>(items: Seq<T>, place: int, item: T)
    requires
        0 <= place < items.len(),
        items.remove(place).contains(item),
    ensures
        items.contains(item),
{
    let removed = items.remove(place);
    let k = choose|k: int| 0 <= k < removed.len() && removed[k] == item;
    if k < place {
        assert(items[k] == item);
    } else {
        assert(items[k + 1] == item);
    }
}

/// Whatever is recommended is a reviewed release configuration for which every static check
/// passed; a CPU configuration is recommended only where no reviewed CUDA configuration
/// passed. Alternatives are not ruled out by any check, and excluded candidates are.
pub proof fn recommendation_is_reviewed_and_compatible(
    environment: EnvironmentView,
    snapshot: IndexSnapshotView,
    metadata: MetadataInfoView,
    options: ResolverOptionsView,
    rules: RuleSetView,
    listed: Seq<CandidateView>,
)
    ensures
        report_on(environment, snapshot, metadata, options, rules, listed) matches Ok(report) ==> {
            &&& report.recommendation matches Some(candidate) ==> {
                &&& candidate.official_preference is Some
                &&& eligible_cuda(candidate) || eligible_cpu(candidate)
                &&& candidate.variant is Cpu ==> forall|i: int|
                    0 <= i < report.alternatives.len() ==> !eligible_cuda(
                        #[trigger] report.alternatives[i],
                    )
            }
            &&& forall|i: int|
                0 <= i < report.alternatives.len() ==> usable(#[trigger] report.alternatives[i])
            &&& forall|i: int|
                0 <= i < report.excluded.len() ==> !usable(#[trigger] report.excluded[i])
        },
{
    if let Ok(report) = report_on(environment, snapshot, metadata, options, rules, listed) {
        let keep = |candidate: CandidateView| usable(candidate);
        let leave = |candidate: CandidateView| !usable(candidate);
        let candidates = kept(listed, keep);
        let by_cuda = |candidate: CandidateView| eligible_cuda(candidate);
        let by_cpu = |candidate: CandidateView| eligible_cpu(candidate);
        first_place_is_first(candidates, by_cuda);
        first_place_is_first(candidates, by_cpu);
        assert forall|i: int| 0 <= i < report.alternatives.len() implies usable(
            #[trigger] report.alternatives[i],
        ) by {
            let item = report.alternatives[i];
            assert(report.alternatives.contains(item));
            if let Some(place) = recommended_place(candidates) {
                removed_members(candidates, place as int, item);
            }
            kept_members(listed, keep, item);
            assert(keep(item));
        }
        assert forall|i: int| 0 <= i < report.excluded.len() implies !usable(
            #[trigger] report.excluded[i],
        ) by {
            let item = report.excluded[i];
            assert(report.excluded.contains(item));
            kept_members(listed, leave, item);
            assert(leave(item));
        }
        if let Some(place) = recommended_place(candidates) {
            let candidate = candidates[place as int];
            if first_place(candidates, by_cuda) is Some {
                assert(by_cuda(candidate));
            } else {
                assert(by_cpu(candidate));
                assert forall|i: int| 0 <= i < report.alternatives.len() implies !eligible_cuda(
                    #[trigger] report.alternatives[i],
                ) by {
                    let item = report.alternatives[i];
                    assert(report.alternatives.contains(item));
                    removed_members(candidates, place as int, item);
                    let k = choose|k: int| 0 <= k < candidates.len() && candidates[k] == item;
                    assert(!by_cuda(candidates[k]));
                }
            }
        }
    }
}

proof fn candidates_satisfy_constraint(
    environment: EnvironmentView,
    snapshot: IndexSnapshotView,
    metadata: MetadataInfoView,
    options: ResolverOptionsView,
    rules: RuleSetView,
    specifiers: Option<Seq<char>>,
    keys: Seq<(Seq<char>, CudaVariant)>,
)
    ensures
        group_candidates(
            environment,
            snapshot,
            metadata,
            options,
            rules,
            specifiers,
            keys,
        ) matches Ok(candidates) ==> forall|i: int|
            0 <= i < candidates.len() ==> constraint_allows(
                specifiers,
                (#[trigger] candidates[i]).torch_version,
            ),
    decreases keys.len(),
{
    if keys.len() > 0 {
        candidates_satisfy_constraint(
            environment,
            snapshot,
            metadata,
            options,
            rules,
            specifiers,
            keys.drop_last(),
        );
    }
}

/// A version constraint is a hard filter: no candidate that a report lists, not even as
/// excluded, is outside of it.
pub proof fn constraint_is_a_hard_filter(
    environment: EnvironmentView,
    snapshot: IndexSnapshotView,
    metadata: MetadataInfoView,
    options: ResolverOptionsView,
    drivers: DriverRulesView,
    releases: ReleaseRulesView,
    candidate: CandidateView,
)
    ensures
        resolution(environment, snapshot, metadata, options, drivers, releases) matches Ok(report)
            ==> listed_candidates(report).count(candidate) > 0 ==> constraint_allows(
            parsed_constraint(options.torch_version)->Ok_0,
            candidate.torch_version,
        ),
{
    broadcast use vstd::seq_lib::group_to_multiset_ensures;

    if let Ok(report) = resolution(environment, snapshot, metadata, options, drivers, releases) {
        let rules = RuleSetView { drivers, releases };
        let specifiers = parsed_constraint(options.torch_version)->Ok_0;
        report_lists_every_candidate_once(
            environment,
            snapshot,
            metadata,
            options,
            drivers,
            releases,
        );
        candidates_satisfy_constraint(
            environment,
            snapshot,
            metadata,
            options,
            rules,
            specifiers,
            group_keys(snapshot.wheels),
        );
        if listed_candidates(report).count(candidate) > 0 {
            let candidates = all_candidates(
                environment,
                snapshot,
                metadata,
                options,
                rules,
                specifiers,
            )->Ok_0;
            assert(candidates.contains(candidate));
        }
    }
}

proof fn blocking_code_is_found(diagnostics: Seq<DiagnosticView>, index: int)
    requires
        0 <= index < diagnostics.len(),
        diagnostics[index].severity == DiagnosticSeverity::Error,
    ensures
        blocking_codes(diagnostics).len() > 0,
    decreases diagnostics.len(),
{
    if index < diagnostics.len() - 1 {
        assert(diagnostics.drop_last()[index] == diagnostics[index]);
        blocking_code_is_found(diagnostics.drop_last(), index);
    }
}

/// An environment with a blocking diagnostic is never resolved, whatever the snapshot, the
/// options and the compatibility data hold.
pub proof fn blocking_diagnostics_prevent_resolution(
    environment: EnvironmentView,
    snapshot: IndexSnapshotView,
    metadata: MetadataInfoView,
    options: ResolverOptionsView,
    drivers: DriverRulesView,
    releases: ReleaseRulesView,
    index: int,
)
    requires
        0 <= index < environment.diagnostics.len(),
        environment.diagnostics[index].severity == DiagnosticSeverity::Error,
    ensures
        resolution(environment, snapshot, metadata, options, drivers, releases) matches Err(error)
            && error is InvalidEnvironment,
{
    blocking_code_is_found(environment.diagnostics, index);
}

// ---------------------------------------------------------------------------
// Groups

/// Whether keys stand in ascending order, none of them twice.
pub open spec fn keys_ascending(keys: Seq<(Seq<char>, CudaVariant)>) -> bool {
    forall|i: int, j: int| #![trigger keys[i], keys[j]]
        0 <= i < j < keys.len() ==> key_order(keys[i], keys[j]) == Order::Less
}

proof fn key_order_laws(
    a: (Seq<char>, CudaVariant),
    b: (Seq<char>, CudaVariant),
    c: (Seq<char>, CudaVariant),
)
    ensures
        key_order(a, b) == Order::Equal <==> a == b,
        key_order(a, b) == Order::Less <==> key_order(b, a) == Order::Greater,
        key_order(a, b) == Order::Less && key_order(b, c) == Order::Less ==> key_order(a, c)
            == Order::Less,
{
    text_order_antisymmetric(a.0, b.0);
    text_order_antisymmetric(b.0, c.0);
    text_order_antisymmetric(a.0, c.0);
    if text_order(a.0, b.0) != Order::Greater && text_order(b.0, c.0) != Order::Greater {
        text_order_transitive(a.0, b.0, c.0);
    }
}

#[verifier::spinoff_prover]
#[verifier::rlimit(60)]
proof fn with_key_keeps_ascending(
    keys: Seq<(Seq<char>, CudaVariant)>,
    key: (Seq<char>, CudaVariant),
)
    requires
        keys_ascending(keys),
    ensures
        keys_ascending(with_key(keys, key)),
        with_key(keys, key).contains(key),
        forall|other: (Seq<char>, CudaVariant)|
            keys.contains(other) ==> #[trigger] with_key(keys, key).contains(other),
        forall|k: int|
            0 <= k < with_key(keys, key).len() ==> (#[trigger] with_key(keys, key)[k] == key
                || keys.contains(with_key(keys, key)[k])),
    decreases keys.len(),
{
    let result = with_key(keys, key);
    if keys.len() == 0 || key_order(keys.last(), key) == Order::Less {
        assert(result.last() == key);
        assert forall|i: int, j: int| #![trigger result[i], result[j]]
            0 <= i < j < result.len() implies key_order(result[i], result[j]) == Order::Less by {
            if j == keys.len() {
                if i < keys.len() - 1 {
                    assert(key_order(keys[i], keys[keys.len() - 1]) == Order::Less);
                    key_order_laws(keys[i], keys.last(), key);
                }
            } else {
                assert(result[i] == keys[i] && result[j] == keys[j]);
            }
        }
        assert forall|other: (Seq<char>, CudaVariant)|
            keys.contains(other) implies #[trigger] result.contains(other) by {
            let k = choose|k: int| 0 <= k < keys.len() && keys[k] == other;
            assert(result[k] == other);
        }
        assert forall|k: int| 0 <= k < result.len() implies (#[trigger] result[k] == key
            || keys.contains(result[k])) by {
            if k < keys.len() {
                assert(keys[k] == result[k]);
            }
        }
    } else if keys.last() == key {
        assert(keys[keys.len() - 1] == key);
    } else {
        let head = keys.drop_last();
        assert forall|i: int, j: int| #![trigger head[i], head[j]]
            0 <= i < j < head.len() implies key_order(head[i], head[j]) == Order::Less by {
            assert(head[i] == keys[i] && head[j] == keys[j]);
        }
        with_key_keeps_ascending(head, key);
        key_order_laws(keys.last(), key, key);
        key_order_laws(key, keys.last(), key);
        let inner = with_key(head, key);
        assert(result == inner.push(keys.last()));
        assert forall|i: int, j: int| #![trigger result[i], result[j]]
            0 <= i < j < result.len() implies key_order(result[i], result[j]) == Order::Less by {
            if j == inner.len() {
                assert(result[i] == inner[i]);
                if inner[i] != key {
                    let m = choose|m: int| 0 <= m < head.len() && head[m] == inner[i];
                    assert(keys[m] == inner[i]);
                    assert(key_order(keys[m], keys[keys.len() - 1]) == Order::Less);
                }
            } else {
                assert(result[i] == inner[i] && result[j] == inner[j]);
            }
        }
        let k = choose|k: int| 0 <= k < inner.len() && inner[k] == key;
        assert(result[k] == key);
        assert forall|other: (Seq<char>, CudaVariant)|
            keys.contains(other) implies #[trigger] result.contains(other) by {
            let m = choose|m: int| 0 <= m < keys.len() && keys[m] == other;
            if m < head.len() {
                assert(head[m] == other);
                assert(inner.contains(other));
                let n = choose|n: int| 0 <= n < inner.len() && inner[n] == other;
                assert(result[n] == other);
            } else {
                assert(result[result.len() - 1] == other);
            }
        }
        assert forall|k: int| 0 <= k < result.len() implies (#[trigger] result[k] == key
            || keys.contains(result[k])) by {
            if k < inner.len() {
                assert(result[k] == inner[k]);
                if inner[k] != key {
                    let m = choose|m: int| 0 <= m < head.len() && head[m] == inner[k];
                    assert(keys[m] == result[k]);
                }
            } else {
                assert(keys[keys.len() - 1] == result[k]);
            }
        }
    }
}

/// The groups stand in ascending order, none of them twice, and every `torch` wheel belongs
/// to one of them.
pub proof fn groups_cover_every_torch_wheel(wheels: Seq<TorchWheelView>, index: int)
    ensures
        keys_ascending(group_keys(wheels)),
        0 <= index < wheels.len() && wheels[index].package == "torch"@ ==> group_keys(
            wheels,
        ).contains((wheels[index].public_version, wheels[index].variant)),
    decreases wheels.len(),
{
    if wheels.len() > 0 {
        let head = wheels.drop_last();
        groups_cover_every_torch_wheel(head, index);
        if wheels.last().package == "torch"@ {
            with_key_keeps_ascending(
                group_keys(head),
                (wheels.last().public_version, wheels.last().variant),
            );
        }
        if 0 <= index < head.len() {
            assert(head[index] == wheels[index]);
        }
    }
}

/// The place of a warning code in the order of the codes.
pub open spec fn warning_rank(code: WarningCode) -> int {
    match code {
        WarningCode::PtxOrNewDriverFeatureMayFail => 0,
        WarningCode::GpuArchitectureUnknown => 1,
        WarningCode::StaleMetadata => 2,
        WarningCode::NvidiaDetectionIncomplete => 3,
        WarningCode::BuiltinPythonTags => 4,
        WarningCode::OfficialPreferenceUnknown => 5,
        WarningCode::NotOfficialReleaseConfiguration => 6,
    }
}

/// The warnings of a candidate stand in the order of their codes, none of them twice.
pub proof fn warnings_are_ascending(
    environment: EnvironmentView,
    snapshot: IndexSnapshotView,
    metadata: MetadataInfoView,
    options: ResolverOptionsView,
    rules: RuleSetView,
    specifiers: Option<Seq<char>>,
    version: Seq<char>,
    variant: CudaVariant,
    wheels: Seq<TorchWheelView>,
    low: int,
    high: int,
)
    ensures
        ({
            let warnings = group_candidate(
                environment,
                snapshot,
                metadata,
                options,
                rules,
                specifiers,
                version,
                variant,
                wheels,
            ).warnings;
            0 <= low < high < warnings.len() ==> warning_rank(warnings[low].code) < warning_rank(
                warnings[high].code,
            )
        }),
{
}

/// A report has an install command exactly where it has a recommendation. The command names the
/// selected interpreter, pins the recommended version, takes it from the index of the recommended
/// variant, and a shell reads its display back as its program and arguments.
pub proof fn install_command_installs_the_recommendation(
    environment: EnvironmentView,
    snapshot: IndexSnapshotView,
    metadata: MetadataInfoView,
    options: ResolverOptionsView,
    drivers: DriverRulesView,
    releases: ReleaseRulesView,
)
    ensures
        resolution(environment, snapshot, metadata, options, drivers, releases) matches Ok(report)
            ==> {
            &&& report.install is Some <==> report.recommendation is Some
            &&& report.install matches Some(command) ==> {
                let best = report.recommendation->0;
                let address = index_address(best.variant);
                let words = seq![command.program] + command.args;
                &&& environment.python matches Some(python) && words.contains(
                    python.executable.text,
                )
                &&& words.contains("torch=="@ + best.torch_version)
                &&& words.contains(address) || words.contains("pytorch="@ + address)
                &&& shell_words(command.display) == Some(words)
            }
        },
{
    if let Ok(report) = resolution(environment, snapshot, metadata, options, drivers, releases) {
        if let Some(command) = report.install {
            let best = report.recommendation->0;
            let rules = RuleSetView { drivers, releases };
            let python = environment.python->0.executable.text;
            let packages = members(options.companions);
            let pins = companion_pins(rules, best.torch_version, packages)->Ok_0;
            let address = index_address(best.variant);
            let wanted = requirements(best.torch_version, packages, pins);
            let parts = install_parts(options.installer, python, address, wanted);
            let words = seq![command.program] + command.args;
            assert(parts.0 == command.program && parts.1 == command.args);
            displayed_command_is_read_back(command.program, command.args);
            assert(wanted[0] == "torch=="@ + best.torch_version);
            match options.installer {
                Installer::Pip => {
                    assert(words[0] == python);
                    assert(words[6] == address);
                    assert(words[7] == wanted[0]);
                },
                Installer::Uv => {
                    assert(words[4] == python);
                    assert(words[6] == address);
                    assert(words[7] == wanted[0]);
                },
                Installer::UvAdd => {
                    assert(words[3] == python);
                    assert(words[5] == "pytorch="@ + address);
                    assert(words[6] == wanted[0]);
                },
            }
        }
    }
}

// ---------------------------------------------------------------------------
// Ranking

/// The candidates of a snapshot have PEP 440 versions.
pub proof fn candidates_have_versions(
    environment: EnvironmentView,
    snapshot: IndexSnapshotView,
    metadata: MetadataInfoView,
    options: ResolverOptionsView,
    rules: RuleSetView,
    specifiers: Option<Seq<char>>,
    keys: Seq<(Seq<char>, CudaVariant)>,
)
    ensures
        group_candidates(
            environment,
            snapshot,
            metadata,
            options,
            rules,
            specifiers,
            keys,
        ) matches Ok(candidates) ==> all_versions(candidates),
    decreases keys.len(),
{
    if keys.len() > 0 {
        candidates_have_versions(
            environment,
            snapshot,
            metadata,
            options,
            rules,
            specifiers,
            keys.drop_last(),
        );
    }
}

/// Of candidates that are in order the one that ranks first is recommended: no reviewed CUDA
/// configuration that passed every static check comes before it, and where it is a CPU
/// configuration, no such CPU configuration does.
pub proof fn candidates_in_order_recommend_the_first(
    environment: EnvironmentView,
    snapshot: IndexSnapshotView,
    metadata: MetadataInfoView,
    options: ResolverOptionsView,
    rules: RuleSetView,
    listed: Seq<CandidateView>,
    nvidia_detected: bool,
)
    ensures
        report_on(environment, snapshot, metadata, options, rules, listed) matches Ok(report) ==> (
        all_sorted(listed, candidate_after(nvidia_detected)) ==> ranks_first(
            report,
            nvidia_detected,
        )),
{
    if let Ok(report) = report_on(environment, snapshot, metadata, options, rules, listed) {
        if all_sorted(listed, candidate_after(nvidia_detected)) && report.recommendation is Some {
            let keep = |candidate: CandidateView| usable(candidate);
            let choices = kept(listed, keep);
            kept_is_ordered(listed, keep, candidate_after(nvidia_detected));
            let by_cuda = |candidate: CandidateView| eligible_cuda(candidate);
            let by_cpu = |candidate: CandidateView| eligible_cpu(candidate);
            first_place_is_first(choices, by_cuda);
            first_place_is_first(choices, by_cpu);
            let place = recommended_place(choices)->0 as int;
            let best = report.recommendation->0;
            assert forall|i: int|
                0 <= i < report.alternatives.len() && (eligible_cuda(
                    #[trigger] report.alternatives[i],
                ) || best.variant is Cpu && eligible_cpu(
                    report.alternatives[i],
                )) implies candidate_order(best, report.alternatives[i], nvidia_detected)
                != Order::Greater by {
                let other = report.alternatives[i];
                let at = if i < place {
                    i
                } else {
                    i + 1
                };
                assert(choices[at] == other);
                if first_place(choices, by_cuda) is None {
                    assert(!by_cuda(choices[at]));
                    assert(by_cpu(choices[at]));
                } else {
                    assert(by_cuda(choices[place]));
                    assert(by_cuda(choices[at]));
                }
                assert(at > place);
                assert(!candidate_after(nvidia_detected)(choices[place], choices[at]));
            }
        }
    }
}

} // verus!
