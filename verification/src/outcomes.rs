//! What a command answers, and the status with which it ends.

use crate::command::{
    command_result, BoundedReadView, CommandErrorView, OutputStream, ProcessStatusView,
    RunCommandOptions,
};
use crate::commands::{
    explained, inspected, planned, recommended, usable_environment, verified, AnswerView,
};
use crate::exits::{
    candidate_status, candidates_of, candidates_status, environment_status, first_unsafe,
    gpu_selection_for, recommendation_status, uuids_of, verification_status,
};
use crate::files::{directory_fault, entry_fault, FileFacts};
use crate::index::LoadedIndexView;
use crate::index_error::IndexErrorView;
use crate::model::{
    exit_number, CandidateView, CandidatesReportView, CompatibilityStatus, CudaVariant,
    DiagnosticSeverity, DiagnosticView, EnvironmentView, ErrorKind, ExitCode, MetadataInfoView,
    MetadataOrigin, NvidiaDetectionStatus, NvidiaGpuView, RecommendationReportView,
    VerificationReportView,
};
use crate::order::{kept, kept_members};
use crate::pieces::{join_split_round_trip, split_on};
use crate::resolver::{explanation, resolution, ResolverOptionsView};
use crate::rules::{DriverRulesView, ReleaseRulesView};
use vstd::prelude::*;

verus! {

// ---------------------------------------------------------------------------
// Statuses

/// Whether one of `diagnostics` is an error.
pub open spec fn is_blocked(diagnostics: Seq<DiagnosticView>) -> bool {
    exists|i: int|
        0 <= i < diagnostics.len() && (#[trigger] diagnostics[i]).severity
            == DiagnosticSeverity::Error
}

/// Whether one of `diagnostics` is a warning.
pub open spec fn is_warned(diagnostics: Seq<DiagnosticView>) -> bool {
    exists|i: int|
        0 <= i < diagnostics.len() && (#[trigger] diagnostics[i]).severity
            == DiagnosticSeverity::Warning
}

/// Whether there is nothing to warn of in a candidate: it fits without relying on the compatibility
/// of minor versions, and has no warnings.
pub open spec fn is_plain(candidate: CandidateView) -> bool {
    candidate.warnings.len() == 0 && candidate.compatibility != CompatibilityStatus::MinorCompatible
        && candidate.compatibility != CompatibilityStatus::Unverified
}

/// Whether metadata are as recent as they are asked to be.
pub open spec fn is_recent(metadata: MetadataInfoView) -> bool {
    !metadata.stale && metadata.origin != MetadataOrigin::StaleIfError
}

/// The statuses of the process are numbered from success on, in the order of their gravity.
pub proof fn statuses_are_numbered(code: ExitCode, other: ExitCode)
    ensures
        exit_number(ExitCode::Success) == 0,
        exit_number(ExitCode::Warning) == 1,
        exit_number(ExitCode::Incompatible) == 2,
        exit_number(ExitCode::MetadataFailure) == 3,
        exit_number(ExitCode::InternalError) == 4,
        exit_number(code) == exit_number(other) ==> code == other,
{
}

/// An inspection is incompatible where it found an error, and otherwise a warning where it found one.
pub proof fn inspections_end_with_what_they_found(environment: EnvironmentView)
    ensures
        environment_status(environment) == ExitCode::Incompatible <==> is_blocked(
            environment.diagnostics,
        ),
        environment_status(environment) == ExitCode::Success <==> !is_blocked(
            environment.diagnostics,
        ) && !is_warned(environment.diagnostics),
        environment_status(environment) == ExitCode::Warning <==> !is_blocked(
            environment.diagnostics,
        ) && is_warned(environment.diagnostics),
{
}

/// A candidate is incompatible where it does not fit or the environment is blocked. It succeeds where
/// nothing calls for a warning: neither the candidate, nor the environment, nor the metadata.
pub proof fn candidates_end_with_what_they_are(
    candidate: CandidateView,
    environment: EnvironmentView,
    metadata: MetadataInfoView,
)
    ensures
        ({
            let status = candidate_status(candidate, environment, metadata);
            let unfit = candidate.compatibility == CompatibilityStatus::Incompatible
                || candidate.compatibility == CompatibilityStatus::Unavailable;
            &&& status == ExitCode::Incompatible <==> unfit || is_blocked(environment.diagnostics)
            &&& status == ExitCode::Success <==> !unfit && !is_blocked(environment.diagnostics)
                && is_plain(candidate) && !is_warned(environment.diagnostics) && is_recent(metadata)
            &&& status == ExitCode::Incompatible || status == ExitCode::Success || status
                == ExitCode::Warning
        }),
{
}

/// A recommendation ends as its candidate does; but one without CUDA is a warning at least where
/// processors were detected and some candidate has CUDA. Where nothing is recommended, it is
/// incompatible.
pub proof fn recommendations_end_with_their_candidate(
    report: RecommendationReportView,
    place: int,
)
    ensures
        report.recommendation is None ==> recommendation_status(report) == ExitCode::Incompatible,
        report.recommendation matches Some(candidate) ==> {
            let status = candidate_status(candidate, report.environment, report.metadata);
            let detected = report.environment.nvidia.status == NvidiaDetectionStatus::Detected
                && report.environment.nvidia.gpus.len() > 0;
            let passed_over = (0 <= place < report.alternatives.len()
                && report.alternatives[place].variant is Cuda) || (0 <= place
                < report.excluded.len() && report.excluded[place].variant is Cuda);
            &&& status != ExitCode::Success ==> recommendation_status(report) == status
            &&& status == ExitCode::Success && (candidate.variant is Cuda || !detected)
                ==> recommendation_status(report) == ExitCode::Success
            &&& status == ExitCode::Success && candidate.variant is Cpu && detected && passed_over
                ==> recommendation_status(report) == ExitCode::Warning
            &&& status == ExitCode::Success && (forall|i: int|
                0 <= i < report.alternatives.len() ==> (#[trigger] report.alternatives[i]).variant is
                    Cpu) && (forall|i: int|
                0 <= i < report.excluded.len() ==> (#[trigger] report.excluded[i]).variant is Cpu)
                ==> recommendation_status(report) == ExitCode::Success
        },
{
    if let Some(candidate) = report.recommendation {
        if 0 <= place < report.alternatives.len() && report.alternatives[place].variant is Cuda {
            assert(crate::exits::has_cuda(report.alternatives[place].variant));
            assert(crate::exits::any_cuda(report.alternatives));
        }
        if 0 <= place < report.excluded.len() && report.excluded[place].variant is Cuda {
            assert(crate::exits::has_cuda(report.excluded[place].variant));
            assert(crate::exits::any_cuda(report.excluded));
        }
    }
}

/// A list of candidates is incompatible where none of them fits. It succeeds where nothing in it
/// calls for a warning.
pub proof fn lists_end_with_their_candidates(report: CandidatesReportView)
    ensures
        candidates_status(report) == ExitCode::Incompatible <==> forall|i: int|
            0 <= i < report.candidates.len() ==> (#[trigger] report.candidates[i]).compatibility
                == CompatibilityStatus::Incompatible || report.candidates[i].compatibility
                == CompatibilityStatus::Unavailable,
        candidates_status(report) == ExitCode::Success ==> (forall|i: int|
            0 <= i < report.candidates.len() ==> is_plain(#[trigger] report.candidates[i]))
            && !is_warned(report.environment.diagnostics) && is_recent(report.metadata),
        candidates_status(report) == ExitCode::Warning ==> is_warned(
            report.environment.diagnostics,
        ) || !is_recent(report.metadata) || exists|i: int|
            0 <= i < report.candidates.len() && !is_plain(#[trigger] report.candidates[i]),
{
    let candidates = report.candidates;
    if candidates_status(report) == ExitCode::Incompatible {
        assert forall|i: int| 0 <= i < candidates.len() implies (
        #[trigger] candidates[i]).compatibility == CompatibilityStatus::Incompatible
            || candidates[i].compatibility == CompatibilityStatus::Unavailable by {
            assert(!crate::exits::usable(candidates[i]));
        }
    } else {
        let i = choose|i: int|
            0 <= i < candidates.len() && crate::exits::usable(#[trigger] candidates[i]);
        assert(candidates[i].compatibility != CompatibilityStatus::Incompatible);
        if candidates_status(report) == ExitCode::Success {
            assert forall|k: int| 0 <= k < candidates.len() implies is_plain(
                #[trigger] candidates[k],
            ) by {
                assert(!crate::exits::candidate_warns(candidates[k]));
            }
        } else if crate::exits::any_warns(candidates) {
            let k = choose|k: int|
                0 <= k < candidates.len() && crate::exits::candidate_warns(
                    #[trigger] candidates[k],
                );
            assert(!is_plain(candidates[k]));
        }
    }
}

/// A verification is incompatible unless it verified the package, and succeeds where it has nothing to
/// warn of.
pub proof fn verifications_end_with_what_they_show(report: VerificationReportView)
    ensures
        verification_status(report) == ExitCode::Incompatible <==> report.status
            != CompatibilityStatus::Verified,
        verification_status(report) == ExitCode::Success <==> report.status
            == CompatibilityStatus::Verified && !is_warned(report.diagnostics),
{
}

// ---------------------------------------------------------------------------
// Lists

/// A list holds the candidates of a report: those that fit and were reviewed; those that were not, on
/// request; and all of them, on request.
pub proof fn lists_hold_what_was_asked_for(
    report: RecommendationReportView,
    unverified: bool,
    all: bool,
    candidate: CandidateView,
)
    ensures
        ({
            let list = candidates_of(report, unverified, all);
            let fits = candidate.compatibility == CompatibilityStatus::Verified
                || candidate.compatibility == CompatibilityStatus::DirectCompatible
                || candidate.compatibility == CompatibilityStatus::MinorCompatible;
            let open = candidate.compatibility == CompatibilityStatus::Unverified;
            &&& list.environment == report.environment
            &&& list.metadata == report.metadata
            &&& list.candidates.contains(candidate) <==> {
                &&& report.recommendation == Some(candidate) || report.alternatives.contains(
                    candidate,
                ) || (all && report.excluded.contains(candidate))
                &&& all || (fits && (candidate.official_preference is Some || unverified)) || (open
                    && unverified)
            }
        }),
{
    let ranked = crate::exits::ranked_candidates(report, all);
    let first = match report.recommendation {
        Some(best) => seq![best],
        None => Seq::empty(),
    };
    let rest = if all {
        report.excluded
    } else {
        Seq::empty()
    };
    kept_members(
        ranked,
        |candidate: CandidateView| crate::exits::listed(candidate, unverified, all),
        candidate,
    );
    assert(ranked == first + report.alternatives + rest);
    one_of_three(first, report.alternatives, rest, candidate);
    assert(first.contains(candidate) <==> report.recommendation == Some(candidate)) by {
        if let Some(best) = report.recommendation {
            assert(first[0] == best);
        }
    }
}

proof fn one_of_three<T>(first: Seq<T>, second: Seq<T>, third: Seq<T>, item: T)
    ensures
        (first + second + third).contains(item) <==> first.contains(item) || second.contains(item)
            || third.contains(item),
{
    let all = first + second + third;
    if first.contains(item) {
        let i = choose|i: int| 0 <= i < first.len() && first[i] == item;
        assert(all[i] == item);
    }
    if second.contains(item) {
        let i = choose|i: int| 0 <= i < second.len() && second[i] == item;
        assert(all[first.len() + i] == item);
    }
    if third.contains(item) {
        let i = choose|i: int| 0 <= i < third.len() && third[i] == item;
        assert(all[first.len() + second.len() + i] == item);
    }
    if all.contains(item) {
        let i = choose|i: int| 0 <= i < all.len() && all[i] == item;
        if i < first.len() {
            assert(first[i] == item);
        } else if i < first.len() + second.len() {
            assert(second[i - first.len()] == item);
        } else {
            assert(third[i - first.len() - second.len()] == item);
        }
    }
}

// ---------------------------------------------------------------------------
// Devices of a verification

/// Whether a text names a processor and can stand in a list of visible devices.
pub open spec fn plain_uuid(uuid: Seq<char>) -> bool {
    &&& uuid.len() > 4
    &&& uuid[0] == 'G' && uuid[1] == 'P' && uuid[2] == 'U' && uuid[3] == '-'
    &&& forall|i: int|
        0 <= i < uuid.len() ==> ('0' <= #[trigger] uuid[i] <= '9' || 'A' <= uuid[i] <= 'Z' || 'a'
            <= uuid[i] <= 'z' || uuid[i] == '-')
}

proof fn plain_identifiers_are_safe(uuid: Seq<char>)
    ensures
        crate::exits::safe_uuid(uuid) <==> plain_uuid(uuid),
{
    reveal_strlit("GPU-");
    if plain_uuid(uuid) {
        assert("GPU-"@.is_prefix_of(uuid));
    }
    if crate::exits::safe_uuid(uuid) {
        assert("GPU-"@.is_prefix_of(uuid));
        assert(uuid[0] == "GPU-"@[0] && uuid[1] == "GPU-"@[1] && uuid[2] == "GPU-"@[2] && uuid[3]
            == "GPU-"@[3]);
    }
}

proof fn unsafe_identifiers_are_found(gpus: Seq<NvidiaGpuView>)
    ensures
        first_unsafe(gpus) is None <==> forall|i: int|
            0 <= i < gpus.len() ==> ((#[trigger] gpus[i]).uuid matches Some(uuid) && plain_uuid(
                uuid,
            )),
    decreases gpus.len(),
{
    if gpus.len() > 0 {
        let rest = gpus.skip(1);
        unsafe_identifiers_are_found(rest);
        if gpus[0].uuid is Some {
            plain_identifiers_are_safe(gpus[0].uuid->0);
        }
        assert(forall|i: int| 0 <= i < rest.len() ==> #[trigger] rest[i] == gpus[i + 1]);
        if first_unsafe(gpus) is None {
            assert forall|i: int| 0 <= i < gpus.len() implies ((
            #[trigger] gpus[i]).uuid matches Some(uuid) && plain_uuid(uuid)) by {
                if i > 0 {
                    assert(rest[i - 1] == gpus[i]);
                }
            }
        }
        if forall|i: int|
            0 <= i < gpus.len() ==> ((#[trigger] gpus[i]).uuid matches Some(uuid) && plain_uuid(
                uuid,
            )) {
            assert forall|i: int| 0 <= i < rest.len() implies ((
            #[trigger] rest[i]).uuid matches Some(uuid) && plain_uuid(uuid)) by {
                assert(rest[i] == gpus[i + 1]);
            }
        }
    }
}

/// Where processors were asked for, a verification sees exactly them, by their identifiers and in
/// their order, and exercises all that it sees; it is refused where one of them cannot be named.
/// Where none was asked for, nothing is hidden and nothing is selected.
pub proof fn verifications_see_the_selected_devices(
    requested: Seq<u32>,
    gpus: Seq<NvidiaGpuView>,
)
    requires
        gpus.len() <= u32::MAX,
    ensures
        requested.len() == 0 ==> (gpu_selection_for(requested, gpus) matches Ok(selection)
            && selection.device_indices is None && selection.cuda_visible_devices is None
            && selection.mappings.len() == 0),
        requested.len() > 0 ==> (gpu_selection_for(requested, gpus) is Ok <==> gpus.len() > 0
            && forall|i: int|
            0 <= i < gpus.len() ==> ((#[trigger] gpus[i]).uuid matches Some(uuid) && plain_uuid(
                uuid,
            ))),
        requested.len() > 0 ==> (gpu_selection_for(requested, gpus) matches Ok(selection) ==> {
            &&& selection.cuda_visible_devices matches Some(list) && {
                let names = split_on(list, ',');
                &&& names.len() == gpus.len()
                &&& forall|i: int|
                    0 <= i < gpus.len() ==> Some(#[trigger] names[i]) == gpus[i].uuid
            }
            &&& selection.device_indices matches Some(indices) && indices.len() == gpus.len()
                && forall|i: int| 0 <= i < gpus.len() ==> (#[trigger] indices[i]) == i
            &&& selection.mappings.len() == gpus.len()
            &&& forall|i: int|
                0 <= i < gpus.len() ==> {
                    let mapping = #[trigger] selection.mappings[i];
                    mapping.physical_index == gpus[i].index && mapping.logical_index == i
                        && mapping.uuid == gpus[i].uuid
                }
        }),
{
    unsafe_identifiers_are_found(gpus);
    if requested.len() > 0 {
        if let Ok(selection) = gpu_selection_for(requested, gpus) {
            reveal_strlit(",");
            assert(","@ =~= seq![',']);
            let names = uuids_of(gpus);
            assert forall|i: int| 0 <= i < names.len() implies !(#[trigger] names[i]).contains(
                ',',
            ) by {
                let uuid = gpus[i].uuid->0;
                assert(gpus[i].uuid matches Some(uuid) && plain_uuid(uuid));
                assert(names[i] == uuid);
                assert forall|k: int| 0 <= k < uuid.len() implies #[trigger] uuid[k] != ',' by {}
            }
            join_split_round_trip(names, ',');
            assert forall|i: int| 0 <= i < gpus.len() implies Some(#[trigger] names[i])
                == gpus[i].uuid by {
                assert(gpus[i].uuid matches Some(uuid) && plain_uuid(uuid));
            }
        }
    }
}

// ---------------------------------------------------------------------------
// Answers

/// An answer that is not redacted is the report itself; what went wrong decides on the kind of a
/// failure and on its status.
pub proof fn answers_are_the_reports(
    environment: EnvironmentView,
    loaded: Result<LoadedIndexView, IndexErrorView>,
    options: ResolverOptionsView,
    drivers: DriverRulesView,
    releases: ReleaseRulesView,
    redact: bool,
)
    ensures
        ({
            let outcome = recommended(environment, loaded, options, drivers, releases, redact);
            match loaded {
                Err(_) => outcome.status == ExitCode::MetadataFailure && (
                outcome.answer matches AnswerView::Failure(failure) && failure.error.kind
                    == ErrorKind::Metadata),
                Ok(index) => match resolution(
                    environment,
                    index.snapshot,
                    index.metadata,
                    options,
                    drivers,
                    releases,
                ) {
                    Err(_) => outcome.status == ExitCode::Incompatible && (
                    outcome.answer matches AnswerView::Failure(failure) && failure.error.kind
                        == ErrorKind::Resolution),
                    Ok(report) => outcome.status == recommendation_status(report) && (
                    outcome.answer matches AnswerView::Recommendation(shown) && (!redact ==> shown
                        == report)),
                },
            }
        }),
{
}

/// An explanation is of the version and the variant that were asked for, whatever else could be
/// recommended: no constraint, no pre-release and no companion package is asked for.
pub proof fn explanations_are_of_what_was_named(
    environment: EnvironmentView,
    index: LoadedIndexView,
    version: Seq<char>,
    variant: CudaVariant,
    drivers: DriverRulesView,
    releases: ReleaseRulesView,
    options: ResolverOptionsView,
)
    requires
        options.torch_version is None,
        !options.include_prerelease,
        options.installer == crate::model::Installer::Pip,
        !options.companions.torchvision && !options.companions.torchaudio,
    ensures
        ({
            let outcome = explained(
                environment,
                Ok(index),
                version,
                variant,
                drivers,
                releases,
                false,
            );
            match explanation(
                environment,
                index.snapshot,
                index.metadata,
                version,
                variant,
                options,
                drivers,
                releases,
            ) {
                Ok(candidate) => outcome.status == candidate_status(
                    candidate,
                    environment,
                    index.metadata,
                ) && (outcome.answer matches AnswerView::Explanation(shown) && shown.candidate
                    == candidate && shown.environment == environment && shown.metadata
                    == index.metadata),
                Err(_) => outcome.status == ExitCode::Incompatible && (
                outcome.answer matches AnswerView::Failure(failure) && failure.error.kind
                    == ErrorKind::Resolution),
            }
        }),
{
    assert(options =~= crate::commands::explanation_options());
}

/// An inspection answers with the environment, blocked or not; the other commands refuse one that is
/// blocked.
pub proof fn blocked_environments_are_only_shown(environment: EnvironmentView)
    ensures
        inspected(Ok(environment), false).answer matches AnswerView::Inspection(report)
            && report.environment == environment,
        usable_environment(Ok(environment)) matches Ok(ready) ==> ready == environment,
        usable_environment(Ok(environment)) is Err <==> is_blocked(environment.diagnostics),
        usable_environment(Ok(environment)) matches Err(outcome) ==> outcome.status
            == ExitCode::Incompatible,
{
    crate::exits::rejected_environments_are_incompatible(environment);
}

/// A verification is planned for the interpreter of the environment, within a minute and a mebibyte
/// of output, on the devices that were selected.
pub proof fn verifications_are_planned(environment: EnvironmentView, requested: Seq<u32>)
    ensures
        planned(environment, requested) is Ok <==> environment.python is Some && gpu_selection_for(
            requested,
            environment.nvidia.gpus,
        ) is Ok,
        planned(environment, requested) matches Ok(plan) ==> {
            let selection = gpu_selection_for(requested, environment.nvidia.gpus)->Ok_0;
            &&& plan.python_executable == environment.python->0.executable
            &&& plan.device_indices == selection.device_indices
            &&& plan.cuda_visible_devices == selection.cuda_visible_devices
            &&& plan.mappings == selection.mappings
            &&& plan.timeout.seconds == 60 && plan.timeout.nanos == 0
            &&& plan.max_output_bytes == 1_048_576
        },
        planned(environment, requested) matches Err(outcome) ==> outcome.status
            == ExitCode::Incompatible,
{
}

// ---------------------------------------------------------------------------
// Files and commands

/// A cache directory is used exactly where it is a real directory that only its owner can write to;
/// an entry exactly where it is a regular file of at most 128 mebibytes.
pub proof fn caches_are_safe_to_use(facts: FileFacts)
    ensures
        directory_fault(facts) is None <==> facts.directory && !facts.symlink && (
        facts.mode matches Some(mode) ==> mode & 0o020 == 0 && mode & 0o002 == 0),
        entry_fault(facts) is None <==> facts.regular && !facts.symlink && facts.length
            <= 128 * 1024 * 1024,
{
    if let Some(mode) = facts.mode {
        assert(mode & 0o022 == 0 <==> mode & 0o020 == 0 && mode & 0o002 == 0) by (bit_vector);
    }
}

/// The result of a command is its output where both streams kept to their limits; else the error
/// names the stream that did not.
pub proof fn commands_keep_to_their_limits(
    program: Seq<char>,
    limits: RunCommandOptions,
    status: ProcessStatusView,
    stdout: BoundedReadView,
    stderr: BoundedReadView,
)
    ensures
        match command_result(program, limits, status, stdout, stderr) {
            Ok(output) => !stdout.exceeded && !stderr.exceeded && output.status == status
                && output.stdout == stdout.bytes && output.stderr == stderr.bytes,
            Err(error) => match error {
                CommandErrorView::OutputLimitExceeded { program: name, stream, limit } => name
                    == program && (match stream {
                    OutputStream::Stdout => stdout.exceeded && limit == limits.max_stdout_bytes,
                    OutputStream::Stderr => stderr.exceeded && !stdout.exceeded && limit
                        == limits.max_stderr_bytes,
                }),
                _ => false,
            },
        },
{
}

} // verus!
