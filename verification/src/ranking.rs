//! What the fields of candidates say about the order in which a report lists them.

use crate::model::{
    CandidateView, CompatibilityStatus, CudaVariant, EnvironmentView, IndexSnapshotView,
    MetadataInfoView, RecommendationReportView,
};
use crate::order::{kept, kept_members, Order};
use crate::outside::pep440_order;
use crate::resolver::{
    candidate_order, eligible_cpu, eligible_cuda, first_place, first_place_is_first, newer_first,
    nvidia_usable, recommended_place, report_on, usable, ResolverOptionsView,
};
use crate::rules::RuleSetView;
use vstd::prelude::*;

verus! {

/// Whether a candidate in the state `left` is worse off than one in the state `right`: verified
/// is best, then directly compatible, compatible within the CUDA family, unverified,
/// incompatible, and unavailable last.
pub open spec fn worse_state(left: CompatibilityStatus, right: CompatibilityStatus) -> bool {
    match right {
        CompatibilityStatus::Verified => !(left is Verified),
        CompatibilityStatus::DirectCompatible => !(left is Verified || left is DirectCompatible),
        CompatibilityStatus::MinorCompatible => left is Unverified || left is Incompatible
            || left is Unavailable,
        CompatibilityStatus::Unverified => left is Incompatible || left is Unavailable,
        CompatibilityStatus::Incompatible => left is Unavailable,
        CompatibilityStatus::Unavailable => false,
    }
}

/// Whether two candidates are for the same kind of device.
pub open spec fn same_device(left: CandidateView, right: CandidateView) -> bool {
    left.variant is Cuda <==> right.variant is Cuda
}

/// Whether `first` may be listed before `second`. No pre-release stands before a stable release.
/// Among these, on a host without a usable NVIDIA device no CUDA wheel stands before a CPU wheel;
/// no older version before a newer one; and on a host with one no CPU wheel of a version before a
/// CUDA wheel of it. For one version and kind of device no worse state stands before a better
/// one; in one state no variant that the release prefers less before one that it prefers more,
/// and none that it does not name before one that it does; and where it prefers neither, no newer
/// CUDA version before an older one.
pub open spec fn rightly_before(
    first: CandidateView,
    second: CandidateView,
    nvidia_detected: bool,
) -> bool {
    let peers = first.stable == second.stable && first.torch_version == second.torch_version
        && same_device(first, second);
    let equals = peers && first.compatibility == second.compatibility;
    &&& second.stable ==> first.stable
    &&& first.stable == second.stable && !nvidia_detected && first.variant is Cuda
        ==> second.variant is Cuda
    &&& first.stable == second.stable && (nvidia_detected || same_device(first, second))
        ==> pep440_order(second.torch_version, first.torch_version) != Some(Order::Greater)
    &&& first.stable == second.stable && first.torch_version == second.torch_version
        && nvidia_detected && second.variant is Cuda ==> first.variant is Cuda
    &&& peers ==> !worse_state(first.compatibility, second.compatibility)
    &&& equals ==> match (first.official_preference, second.official_preference) {
        (Some(one), Some(other)) => one <= other,
        (None, Some(other)) => other == u16::MAX,
        _ => true,
    }
    &&& equals && first.official_preference == second.official_preference ==> match (
        first.variant,
        second.variant,
    ) {
        (CudaVariant::Cuda { major: a, minor: b }, CudaVariant::Cuda { major: c, minor: d }) => a
            < c || a == c && b <= d,
        _ => true,
    }
}

/// Whether each candidate may be listed before all that come after it.
pub open spec fn listed_by_rank(listed: Seq<CandidateView>, nvidia_detected: bool) -> bool {
    forall|i: int, j: int| #![trigger listed[i], listed[j]]
        0 <= i < j < listed.len() ==> rightly_before(listed[i], listed[j], nvidia_detected)
}

/// Whether a CUDA configuration may be recommended: it is a reviewed one, and every static check
/// passed.
pub open spec fn recommendable_cuda(candidate: CandidateView) -> bool {
    candidate.variant is Cuda && candidate.official_preference is Some && (
    candidate.compatibility is Verified || candidate.compatibility is DirectCompatible
        || candidate.compatibility is MinorCompatible)
}

/// Whether a CPU configuration may be recommended: it is a reviewed one, and every static check
/// passed.
pub open spec fn recommendable_cpu(candidate: CandidateView) -> bool {
    candidate.variant is Cpu && candidate.official_preference is Some && (
    candidate.compatibility is Verified || candidate.compatibility is DirectCompatible)
}

/// Whether a report is ranked: alternatives and excluded candidates are listed by rank, only what
/// is reviewed and passed every static check is recommended, CPU only where no CUDA configuration
/// could be, nothing only where nothing could be, and no other choice of the same kind of device
/// had to come before the recommendation.
pub open spec fn report_is_ranked(report: RecommendationReportView, nvidia_detected: bool) -> bool {
    &&& listed_by_rank(report.alternatives, nvidia_detected)
    &&& listed_by_rank(report.excluded, nvidia_detected)
    &&& forall|i: int|
        0 <= i < report.excluded.len() ==> (#[trigger] report.excluded[i]).compatibility
            is Incompatible || report.excluded[i].compatibility is Unavailable
    &&& forall|i: int|
        0 <= i < report.alternatives.len() ==> !((#[trigger] report.alternatives[i]).compatibility
            is Incompatible || report.alternatives[i].compatibility is Unavailable)
    &&& match report.recommendation {
        Some(best) => {
            &&& recommendable_cuda(best) || recommendable_cpu(best)
            &&& forall|i: int|
                0 <= i < report.alternatives.len() && recommendable_cuda(
                    #[trigger] report.alternatives[i],
                ) ==> best.variant is Cuda && rightly_before(
                    best,
                    report.alternatives[i],
                    nvidia_detected,
                )
            &&& forall|i: int|
                0 <= i < report.alternatives.len() && recommendable_cpu(
                    #[trigger] report.alternatives[i],
                ) && best.variant is Cpu ==> rightly_before(
                    best,
                    report.alternatives[i],
                    nvidia_detected,
                )
        },
        None => forall|i: int|
            0 <= i < report.alternatives.len() ==> !recommendable_cuda(
                #[trigger] report.alternatives[i],
            ) && !recommendable_cpu(report.alternatives[i]),
    }
}

/// Candidates that are in order are listed as their fields demand, provided that a version is as
/// new as itself.
pub proof fn candidates_are_ranked_by_their_fields(
    first: CandidateView,
    second: CandidateView,
    nvidia_detected: bool,
)
    ensures
        candidate_order(first, second, nvidia_detected) != Order::Greater && (first.torch_version
            == second.torch_version && first.stable == second.stable && (nvidia_detected
            || same_device(first, second)) ==> newer_first(
            first.torch_version,
            second.torch_version,
        ) == Order::Equal) ==> rightly_before(first, second, nvidia_detected),
{
}

proof fn kept_is_ranked(
    listed: Seq<CandidateView>,
    keep: spec_fn(CandidateView) -> bool,
    nvidia_detected: bool,
)
    requires
        listed_by_rank(listed, nvidia_detected),
    ensures
        listed_by_rank(kept(listed, keep), nvidia_detected),
    decreases listed.len(),
{
    if listed.len() > 0 {
        let head = listed.drop_last();
        assert forall|i: int, j: int| #![trigger head[i], head[j]]
            0 <= i < j < head.len() implies rightly_before(head[i], head[j], nvidia_detected) by {
            assert(head[i] == listed[i] && head[j] == listed[j]);
        }
        kept_is_ranked(head, keep, nvidia_detected);
        let rest = kept(head, keep);
        let result = kept(listed, keep);
        assert forall|i: int, j: int| #![trigger result[i], result[j]]
            0 <= i < j < result.len() implies rightly_before(
            result[i],
            result[j],
            nvidia_detected,
        ) by {
            assert(result[i] == rest[i]);
            if j < rest.len() {
                assert(result[j] == rest[j]);
            } else {
                assert(rest.contains(rest[i]));
                kept_members(head, keep, rest[i]);
                let at = choose|at: int| 0 <= at < head.len() && head[at] == rest[i];
                assert(listed[at] == rest[i]);
                assert(result[j] == listed[listed.len() - 1]);
            }
        }
    }
}

/// The report on candidates that are listed by rank is ranked.
pub proof fn ranked_candidates_make_a_ranked_report(
    environment: EnvironmentView,
    snapshot: IndexSnapshotView,
    metadata: MetadataInfoView,
    options: ResolverOptionsView,
    rules: RuleSetView,
    listed: Seq<CandidateView>,
    nvidia_detected: bool,
)
    ensures
        report_on(environment, snapshot, metadata, options, rules, listed) matches Ok(report) ==> (
        listed_by_rank(listed, nvidia_detected) ==> report_is_ranked(report, nvidia_detected)),
{
    if let Ok(report) = report_on(environment, snapshot, metadata, options, rules, listed) {
        if listed_by_rank(listed, nvidia_detected) {
            let keep = |candidate: CandidateView| usable(candidate);
            let leave = |candidate: CandidateView| !usable(candidate);
            let choices = kept(listed, keep);
            kept_is_ranked(listed, keep, nvidia_detected);
            kept_is_ranked(listed, leave, nvidia_detected);
            assert forall|i: int| 0 <= i < choices.len() implies usable(#[trigger] choices[i]) by {
                assert(choices.contains(choices[i]));
                kept_members(listed, keep, choices[i]);
                assert(keep(choices[i]));
            }
            assert forall|i: int| 0 <= i < report.excluded.len() implies !usable(
                #[trigger] report.excluded[i],
            ) by {
                assert(report.excluded.contains(report.excluded[i]));
                kept_members(listed, leave, report.excluded[i]);
                assert(leave(report.excluded[i]));
            }
            let by_cuda = |candidate: CandidateView| eligible_cuda(candidate);
            let by_cpu = |candidate: CandidateView| eligible_cpu(candidate);
            first_place_is_first(choices, by_cuda);
            first_place_is_first(choices, by_cpu);
            match recommended_place(choices) {
                None => {
                    assert forall|i: int|
                        0 <= i < report.alternatives.len() implies !recommendable_cuda(
                        #[trigger] report.alternatives[i],
                    ) && !recommendable_cpu(report.alternatives[i]) by {
                        assert(!by_cuda(choices[i]) && !by_cpu(choices[i]));
                    }
                },
                Some(place) => {
                    let place = place as int;
                    let others = report.alternatives;
                    let best = choices[place];
                    let by_first = first_place(choices, by_cuda) is Some;
                    if by_first {
                        assert(by_cuda(best));
                    } else {
                        assert(by_cpu(best));
                    }
                    assert forall|i: int| 0 <= i < others.len() implies #[trigger] others[i]
                        == choices[if i < place {
                        i
                    } else {
                        i + 1
                    }] by {}
                    assert forall|i: int, j: int| #![trigger others[i], others[j]]
                        0 <= i < j < others.len() implies rightly_before(
                        others[i],
                        others[j],
                        nvidia_detected,
                    ) by {}
                    assert forall|i: int|
                        0 <= i < others.len() && recommendable_cuda(
                            #[trigger] others[i],
                        ) implies best.variant is Cuda && rightly_before(
                        best,
                        others[i],
                        nvidia_detected,
                    ) by {
                        let at = if i < place {
                            i
                        } else {
                            i + 1
                        };
                        assert(choices[at] == others[i]);
                        assert(by_cuda(choices[at]));
                        assert(place < at);
                    }
                    assert forall|i: int|
                        0 <= i < others.len() && recommendable_cpu(#[trigger] others[i])
                            && best.variant is Cpu implies rightly_before(
                        best,
                        others[i],
                        nvidia_detected,
                    ) by {
                        let at = if i < place {
                            i
                        } else {
                            i + 1
                        };
                        assert(choices[at] == others[i]);
                        assert(by_cpu(choices[at]));
                        assert(place < at);
                    }
                },
            }
        }
    }
}

/// Whether a configuration gives way to `preferred`: it is of an older version, or of the same
/// version in no better state and less preferred by the release.
pub open spec fn gives_way(other: CandidateView, preferred: CandidateView) -> bool {
    other.stable == preferred.stable && (pep440_order(preferred.torch_version, other.torch_version)
        == Some(Order::Greater) || other.torch_version == preferred.torch_version && !worse_state(
        preferred.compatibility,
        other.compatibility,
    ) && preferred.official_preference->0 < other.official_preference->0)
}

/// What is recommended gives way to no alternative: where a reviewed CUDA configuration that
/// passed every static check is not the recommendation, another such configuration is, and
/// neither is that of an older version, nor of the same version in no better state and less
/// preferred by the release. So the preferred variant of the newest version is recommended where
/// it may be and no other variant is in a better state.
pub proof fn preferred_variant_of_the_newest_version_is_recommended(
    report: RecommendationReportView,
    nvidia_detected: bool,
    place: int,
)
    requires
        0 <= place < report.alternatives.len(),
        recommendable_cuda(report.alternatives[place]),
    ensures
        report_is_ranked(report, nvidia_detected) ==> (report.recommendation matches Some(best)
            && recommendable_cuda(best) && !gives_way(best, report.alternatives[place])),
{
    let preferred = report.alternatives[place];
    if report_is_ranked(report, nvidia_detected) {
        assert(recommendable_cuda(report.alternatives[place]));
        let best = report.recommendation->0;
        assert(rightly_before(best, preferred, nvidia_detected));
    }
}

/// CUDA comes first exactly where processors were detected, some of them are listed, and their driver
/// is known.
pub proof fn cuda_comes_first_where_devices_can_be_used(environment: EnvironmentView)
    ensures
        nvidia_usable(environment) <==> {
            &&& environment.nvidia.status is Detected
            &&& environment.nvidia.gpus.len() > 0
            &&& environment.nvidia.driver_version is Some
        },
{
}

} // verus!
