//! What a run comes to: which candidates are listed, and with which status the process ends.

use crate::model::{
    Candidate, CandidateView, CandidatesReport, CandidatesReportView, CompatibilityStatus,
    CudaVariant, Diagnostic, DiagnosticCode, DiagnosticSeverity, DiagnosticView, Environment,
    EnvironmentView, ErrorBody, ErrorBodyView, ErrorKind, ErrorReport, ErrorReportView, ExitCode,
    MetadataInfo, MetadataInfoView, MetadataOrigin, NvidiaDetectionStatus, NvidiaGpu, NvidiaGpuView,
    RecommendationReport, RecommendationReportView, VerificationGpuMapping,
    VerificationGpuMappingView, VerificationReport, VerificationReportView, SCHEMA_VERSION,
};
use crate::order::kept;
use crate::pieces::{join, join_texts, starts_with};
use crate::rules::CompanionPackage;
use crate::text::{
    alphanumeric, clone_optional, concat2, concat3, decimal, decimal_text, is_alphanumeric,
    push_item, to_chars,
};
use vstd::prelude::*;

verus! {

// ---------------------------------------------------------------------------
// Environments

/// Whether there is a diagnostic of this severity.
pub open spec fn has_severity(
    diagnostics: Seq<DiagnosticView>,
    severity: DiagnosticSeverity,
) -> bool {
    exists|i: int| 0 <= i < diagnostics.len() && (#[trigger] diagnostics[i]).severity == severity
}

/// Whether there is a diagnostic of this severity.
pub fn any_severity(diagnostics: &Vec<Diagnostic>, severity: DiagnosticSeverity) -> (answer: bool)
    ensures
        answer == has_severity(diagnostics.deep_view(), severity),
{
    let mut index: usize = 0;
    while index < diagnostics.len()
        invariant
            index <= diagnostics@.len(),
            forall|i: int|
                0 <= i < index ==> (#[trigger] diagnostics.deep_view()[i]).severity != severity,
        decreases diagnostics@.len() - index,
    {
        assert(diagnostics.deep_view()[index as int] == diagnostics@[index as int].deep_view());
        if diagnostics[index].severity == severity {
            return true;
        }
        index = index + 1;
    }
    false
}

/// Whether the environment has a warning.
pub fn has_environment_warnings(environment: &Environment) -> (answer: bool)
    ensures
        answer == has_severity(environment.deep_view().diagnostics, DiagnosticSeverity::Warning),
{
    any_severity(&environment.diagnostics, DiagnosticSeverity::Warning)
}

/// Whether the environment has an error.
pub fn has_environment_errors(environment: &Environment) -> (answer: bool)
    ensures
        answer == has_severity(environment.deep_view().diagnostics, DiagnosticSeverity::Error),
{
    any_severity(&environment.diagnostics, DiagnosticSeverity::Error)
}

/// The status of an inspection: errors count before warnings.
pub open spec fn environment_status(environment: EnvironmentView) -> ExitCode {
    if has_severity(environment.diagnostics, DiagnosticSeverity::Error) {
        ExitCode::Incompatible
    } else if has_severity(environment.diagnostics, DiagnosticSeverity::Warning) {
        ExitCode::Warning
    } else {
        ExitCode::Success
    }
}

/// The status of an inspection.
pub fn environment_exit_code(environment: &Environment) -> (code: ExitCode)
    ensures
        code == environment_status(environment.deep_view()),
{
    if has_environment_errors(environment) {
        ExitCode::Incompatible
    } else if has_environment_warnings(environment) {
        ExitCode::Warning
    } else {
        ExitCode::Success
    }
}

/// The name of a kind of diagnostic in machine-readable output.
pub open spec fn code_name(code: DiagnosticCode) -> Seq<char> {
    match code {
        DiagnosticCode::UnsupportedOperatingSystem => "unsupported_operating_system"@,
        DiagnosticCode::UnsupportedArchitecture => "unsupported_architecture"@,
        DiagnosticCode::UnsupportedLibc => "unsupported_libc"@,
        DiagnosticCode::GlibcUnknown => "glibc_unknown"@,
        DiagnosticCode::PythonUnavailable => "python_unavailable"@,
        DiagnosticCode::UnsupportedPythonImplementation => "unsupported_python_implementation"@,
        DiagnosticCode::BuiltinPythonTags => "builtin_python_tags"@,
        DiagnosticCode::NvidiaSmiUnavailable => "nvidia_smi_unavailable"@,
        DiagnosticCode::NvidiaNoDevices => "nvidia_no_devices"@,
        DiagnosticCode::NvidiaInspectionFailed => "nvidia_inspection_failed"@,
        DiagnosticCode::NvidiaInspectionTimedOut => "nvidia_inspection_timed_out"@,
        DiagnosticCode::ComputeCapabilityUnknown => "compute_capability_unknown"@,
        DiagnosticCode::InvalidGpuSelection => "invalid_gpu_selection"@,
        DiagnosticCode::CudaVisibleDevicesSet => "cuda_visible_devices_set"@,
        DiagnosticCode::InconsistentDriverVersions => "inconsistent_driver_versions"@,
        DiagnosticCode::CudaToolkitNotFound => "cuda_toolkit_not_found"@,
        DiagnosticCode::CudnnInspectionFailed => "cudnn_inspection_failed"@,
    }
}

/// The name of a kind of diagnostic in machine-readable output.
pub fn diagnostic_code_name(code: DiagnosticCode) -> (name: &'static str)
    ensures
        name@ == code_name(code),
{
    match code {
        DiagnosticCode::UnsupportedOperatingSystem => "unsupported_operating_system",
        DiagnosticCode::UnsupportedArchitecture => "unsupported_architecture",
        DiagnosticCode::UnsupportedLibc => "unsupported_libc",
        DiagnosticCode::GlibcUnknown => "glibc_unknown",
        DiagnosticCode::PythonUnavailable => "python_unavailable",
        DiagnosticCode::UnsupportedPythonImplementation => "unsupported_python_implementation",
        DiagnosticCode::BuiltinPythonTags => "builtin_python_tags",
        DiagnosticCode::NvidiaSmiUnavailable => "nvidia_smi_unavailable",
        DiagnosticCode::NvidiaNoDevices => "nvidia_no_devices",
        DiagnosticCode::NvidiaInspectionFailed => "nvidia_inspection_failed",
        DiagnosticCode::NvidiaInspectionTimedOut => "nvidia_inspection_timed_out",
        DiagnosticCode::ComputeCapabilityUnknown => "compute_capability_unknown",
        DiagnosticCode::InvalidGpuSelection => "invalid_gpu_selection",
        DiagnosticCode::CudaVisibleDevicesSet => "cuda_visible_devices_set",
        DiagnosticCode::InconsistentDriverVersions => "inconsistent_driver_versions",
        DiagnosticCode::CudaToolkitNotFound => "cuda_toolkit_not_found",
        DiagnosticCode::CudnnInspectionFailed => "cudnn_inspection_failed",
    }
}

/// The names of the errors among diagnostics.
pub open spec fn error_names(diagnostics: Seq<DiagnosticView>) -> Seq<Seq<char>>
    decreases diagnostics.len(),
{
    if diagnostics.len() == 0 {
        Seq::empty()
    } else {
        let rest = error_names(diagnostics.drop_last());
        if diagnostics.last().severity == DiagnosticSeverity::Error {
            rest.push(code_name(diagnostics.last().code))
        } else {
            rest
        }
    }
}

/// Why an environment cannot be used; `None` where it has no error.
pub open spec fn environment_rejection(environment: EnvironmentView) -> Option<Seq<char>> {
    let names = error_names(environment.diagnostics);
    if names.len() == 0 {
        None
    } else {
        Some("environment contains blocking diagnostics: "@ + join(names, ", "@))
    }
}

/// Why an environment cannot be used; `None` where it has no error.
pub fn reject_environment_errors(environment: &Environment) -> (message: Option<String>)
    ensures
        message.deep_view() == environment_rejection(environment.deep_view()),
{
    let ghost all = environment.deep_view().diagnostics;
    let mut names: Vec<String> = Vec::new();
    assert(names.deep_view() =~= Seq::<Seq<char>>::empty());
    let mut index: usize = 0;
    while index < environment.diagnostics.len()
        invariant
            index <= environment.diagnostics@.len(),
            all == environment.diagnostics.deep_view(),
            names.deep_view() == error_names(all.take(index as int)),
        decreases environment.diagnostics@.len() - index,
    {
        let diagnostic = &environment.diagnostics[index];
        assert(all.take(index + 1).drop_last() =~= all.take(index as int));
        assert(all.take(index + 1).last() == diagnostic.deep_view());
        if diagnostic.severity == DiagnosticSeverity::Error {
            push_item(&mut names, diagnostic_code_name(diagnostic.code).to_owned());
        }
        index = index + 1;
    }
    assert(all.take(index as int) =~= all);
    assert(names.deep_view().len() == names@.len());
    if names.len() == 0 {
        None
    } else {
        Some(
            concat2(
                "environment contains blocking diagnostics: ",
                join_texts(&names, ", ").as_str(),
            ),
        )
    }
}

proof fn names_of_no_errors(diagnostics: Seq<DiagnosticView>)
    ensures
        error_names(diagnostics).len() == 0 <==> !has_severity(
            diagnostics,
            DiagnosticSeverity::Error,
        ),
    decreases diagnostics.len(),
{
    if diagnostics.len() > 0 {
        let rest = diagnostics.drop_last();
        names_of_no_errors(rest);
        assert(diagnostics[diagnostics.len() - 1] == diagnostics.last());
        if has_severity(rest, DiagnosticSeverity::Error) {
            let at = choose|i: int|
                0 <= i < rest.len() && (#[trigger] rest[i]).severity == DiagnosticSeverity::Error;
            assert(diagnostics[at] == rest[at]);
        }
        if has_severity(diagnostics, DiagnosticSeverity::Error) && diagnostics.last().severity
            != DiagnosticSeverity::Error {
            let at = choose|i: int|
                0 <= i < diagnostics.len() && (#[trigger] diagnostics[i]).severity
                    == DiagnosticSeverity::Error;
            assert(rest[at] == diagnostics[at]);
        }
    }
}

/// An environment is rejected exactly where its inspection ends as incompatible.
pub proof fn rejected_environments_are_incompatible(environment: EnvironmentView)
    ensures
        environment_rejection(environment) is Some <==> environment_status(environment)
            == ExitCode::Incompatible,
{
    names_of_no_errors(environment.diagnostics);
}

/// Whether metadata call for a warning.
pub open spec fn metadata_warns(metadata: MetadataInfoView) -> bool {
    metadata.stale || metadata.origin == MetadataOrigin::StaleIfError
}

/// Whether metadata call for a warning.
pub fn metadata_has_warning(metadata: &MetadataInfo) -> (answer: bool)
    ensures
        answer == metadata_warns(metadata.deep_view()),
{
    metadata.stale || metadata.origin == MetadataOrigin::StaleIfError
}

// ---------------------------------------------------------------------------
// Candidates

/// Whether a candidate calls for a warning.
pub open spec fn candidate_warns(candidate: CandidateView) -> bool {
    candidate.warnings.len() > 0 || candidate.compatibility == CompatibilityStatus::MinorCompatible
        || candidate.compatibility == CompatibilityStatus::Unverified
}

/// Whether a candidate calls for a warning.
pub fn candidate_has_warnings(candidate: &Candidate) -> (answer: bool)
    ensures
        answer == candidate_warns(candidate.deep_view()),
{
    assert(candidate.warnings.deep_view().len() == candidate.warnings@.len());
    candidate.warnings.len() > 0 || candidate.compatibility == CompatibilityStatus::MinorCompatible
        || candidate.compatibility == CompatibilityStatus::Unverified
}

/// Whether a candidate is unverified or has not been reviewed.
pub open spec fn needs_review(candidate: CandidateView) -> bool {
    candidate.compatibility == CompatibilityStatus::Unverified
        || candidate.official_preference is None
}

/// Whether a candidate is unverified or has not been reviewed.
pub fn candidate_needs_review(candidate: &Candidate) -> (answer: bool)
    ensures
        answer == needs_review(candidate.deep_view()),
{
    candidate.compatibility == CompatibilityStatus::Unverified
        || candidate.official_preference.is_none()
}

/// The status for one candidate: errors of the environment and an incompatible candidate count
/// before warnings.
pub open spec fn candidate_status(
    candidate: CandidateView,
    environment: EnvironmentView,
    metadata: MetadataInfoView,
) -> ExitCode {
    if has_severity(environment.diagnostics, DiagnosticSeverity::Error) || candidate.compatibility
        == CompatibilityStatus::Incompatible || candidate.compatibility
        == CompatibilityStatus::Unavailable {
        ExitCode::Incompatible
    } else if candidate_warns(candidate) || has_severity(
        environment.diagnostics,
        DiagnosticSeverity::Warning,
    ) || metadata_warns(metadata) {
        ExitCode::Warning
    } else {
        ExitCode::Success
    }
}

/// The status for one candidate.
pub fn candidate_exit_code(
    candidate: &Candidate,
    environment: &Environment,
    metadata: &MetadataInfo,
) -> (code: ExitCode)
    ensures
        code == candidate_status(
            candidate.deep_view(),
            environment.deep_view(),
            metadata.deep_view(),
        ),
{
    if has_environment_errors(environment) || candidate.compatibility
        == CompatibilityStatus::Incompatible || candidate.compatibility
        == CompatibilityStatus::Unavailable {
        ExitCode::Incompatible
    } else if candidate_has_warnings(candidate) || has_environment_warnings(environment)
        || metadata_has_warning(metadata) {
        ExitCode::Warning
    } else {
        ExitCode::Success
    }
}

/// Whether a variant has CUDA.
pub open spec fn has_cuda(variant: CudaVariant) -> bool {
    variant != CudaVariant::Cpu
}

/// Whether one of `candidates` has CUDA.
pub open spec fn any_cuda(candidates: Seq<CandidateView>) -> bool {
    exists|i: int| 0 <= i < candidates.len() && has_cuda((#[trigger] candidates[i]).variant)
}

fn find_cuda(candidates: &Vec<Candidate>) -> (answer: bool)
    ensures
        answer == any_cuda(candidates.deep_view()),
{
    let mut index: usize = 0;
    while index < candidates.len()
        invariant
            index <= candidates@.len(),
            forall|i: int|
                0 <= i < index ==> !has_cuda((#[trigger] candidates.deep_view()[i]).variant),
        decreases candidates@.len() - index,
    {
        assert(candidates.deep_view()[index as int] == candidates@[index as int].deep_view());
        if candidates[index].variant.is_cuda() {
            return true;
        }
        index = index + 1;
    }
    false
}

/// Whether the detection found processors.
pub open spec fn gpus_detected(environment: EnvironmentView) -> bool {
    environment.nvidia.status == NvidiaDetectionStatus::Detected && environment.nvidia.gpus.len()
        > 0
}

/// Whether the detection found processors.
pub fn has_detected_gpus(environment: &Environment) -> (answer: bool)
    ensures
        answer == gpus_detected(environment.deep_view()),
{
    assert(environment.nvidia.gpus.deep_view().len() == environment.nvidia.gpus@.len());
    environment.nvidia.status == NvidiaDetectionStatus::Detected && environment.nvidia.gpus.len()
        > 0
}

/// Whether a report recommends a CPU wheel although there are processors and CUDA candidates.
pub open spec fn cpu_fallback(report: RecommendationReportView) -> bool {
    match report.recommendation {
        None => false,
        Some(candidate) => !has_cuda(candidate.variant) && gpus_detected(report.environment) && (
        any_cuda(report.alternatives) || any_cuda(report.excluded)),
    }
}

/// Whether a report recommends a CPU wheel although there are processors and CUDA candidates.
pub fn is_nvidia_cpu_fallback(report: &RecommendationReport) -> (answer: bool)
    ensures
        answer == cpu_fallback(report.deep_view()),
{
    match &report.recommendation {
        None => false,
        Some(candidate) => !candidate.variant.is_cuda() && has_detected_gpus(&report.environment)
            && (find_cuda(&report.alternatives) || find_cuda(&report.excluded)),
    }
}

/// The status of a recommendation.
pub open spec fn recommendation_status(report: RecommendationReportView) -> ExitCode {
    match report.recommendation {
        None => ExitCode::Incompatible,
        Some(candidate) => {
            let status = candidate_status(candidate, report.environment, report.metadata);
            if status == ExitCode::Success && cpu_fallback(report) {
                ExitCode::Warning
            } else {
                status
            }
        },
    }
}

/// The status of a recommendation.
pub fn recommendation_exit_code(report: &RecommendationReport) -> (code: ExitCode)
    ensures
        code == recommendation_status(report.deep_view()),
{
    match &report.recommendation {
        None => ExitCode::Incompatible,
        Some(candidate) => {
            let status = candidate_exit_code(candidate, &report.environment, &report.metadata);
            if status == ExitCode::Success && is_nvidia_cpu_fallback(report) {
                ExitCode::Warning
            } else {
                status
            }
        },
    }
}

/// Whether a candidate can be used, be it unverified.
pub open spec fn usable(candidate: CandidateView) -> bool {
    candidate.compatibility != CompatibilityStatus::Incompatible && candidate.compatibility
        != CompatibilityStatus::Unavailable
}

/// Whether one of `candidates` can be used.
pub open spec fn any_usable(candidates: Seq<CandidateView>) -> bool {
    exists|i: int| 0 <= i < candidates.len() && usable(#[trigger] candidates[i])
}

/// Whether one of `candidates` calls for a warning.
pub open spec fn any_warns(candidates: Seq<CandidateView>) -> bool {
    exists|i: int| 0 <= i < candidates.len() && candidate_warns(#[trigger] candidates[i])
}

/// The status of a list of candidates.
pub open spec fn candidates_status(report: CandidatesReportView) -> ExitCode {
    if !any_usable(report.candidates) {
        ExitCode::Incompatible
    } else if any_warns(report.candidates) || has_severity(
        report.environment.diagnostics,
        DiagnosticSeverity::Warning,
    ) || metadata_warns(report.metadata) {
        ExitCode::Warning
    } else {
        ExitCode::Success
    }
}

fn find_usable(candidates: &Vec<Candidate>) -> (answer: bool)
    ensures
        answer == any_usable(candidates.deep_view()),
{
    let mut index: usize = 0;
    while index < candidates.len()
        invariant
            index <= candidates@.len(),
            forall|i: int| 0 <= i < index ==> !usable(#[trigger] candidates.deep_view()[i]),
        decreases candidates@.len() - index,
    {
        assert(candidates.deep_view()[index as int] == candidates@[index as int].deep_view());
        let status = candidates[index].compatibility;
        if status != CompatibilityStatus::Incompatible && status
            != CompatibilityStatus::Unavailable {
            return true;
        }
        index = index + 1;
    }
    false
}

fn find_warning(candidates: &Vec<Candidate>) -> (answer: bool)
    ensures
        answer == any_warns(candidates.deep_view()),
{
    let mut index: usize = 0;
    while index < candidates.len()
        invariant
            index <= candidates@.len(),
            forall|i: int| 0 <= i < index ==> !candidate_warns(#[trigger] candidates.deep_view()[i]),
        decreases candidates@.len() - index,
    {
        assert(candidates.deep_view()[index as int] == candidates@[index as int].deep_view());
        if candidate_has_warnings(&candidates[index]) {
            return true;
        }
        index = index + 1;
    }
    false
}

/// The status of a list of candidates.
pub fn candidates_exit_code(report: &CandidatesReport) -> (code: ExitCode)
    ensures
        code == candidates_status(report.deep_view()),
{
    if !find_usable(&report.candidates) {
        ExitCode::Incompatible
    } else if find_warning(&report.candidates) || has_environment_warnings(&report.environment)
        || metadata_has_warning(&report.metadata) {
        ExitCode::Warning
    } else {
        ExitCode::Success
    }
}

// ---------------------------------------------------------------------------
// Listing

/// What is asked of a list of candidates.
#[derive(Debug)]
pub struct CandidatesArgs {
    /// Also include candidates needing release review or static/runtime verification.
    pub unverified: bool,
    /// Include every compatibility status, including incompatible and unavailable candidates.
    pub all: bool,
    /// PEP 440 constraint; a bare version is exact.
    pub torch_version: Option<String>,
    /// Include pre-release/development wheels.
    pub prerelease: bool,
    /// Require companion wheels to exist for each listed candidate.
    pub companions: Vec<CompanionPackage>,
}

impl Default for CandidatesArgs {
    fn default() -> (args: CandidatesArgs)
        ensures
            !args.unverified,
            !args.all,
            args.torch_version is None,
            !args.prerelease,
            args.companions@.len() == 0,
    {
        CandidatesArgs {
            unverified: false,
            all: false,
            torch_version: None,
            prerelease: false,
            companions: Vec::new(),
        }
    }
}

/// Whether a candidate is listed: a compatible one that was reviewed always, one that still
/// needs review where that is asked for, and the others only where all are.
pub open spec fn listed(candidate: CandidateView, unverified: bool, all: bool) -> bool {
    match candidate.compatibility {
        CompatibilityStatus::Verified => !needs_review(candidate) || unverified || all,
        CompatibilityStatus::DirectCompatible => !needs_review(candidate) || unverified || all,
        CompatibilityStatus::MinorCompatible => !needs_review(candidate) || unverified || all,
        CompatibilityStatus::Unverified => unverified || all,
        CompatibilityStatus::Incompatible => all,
        CompatibilityStatus::Unavailable => all,
    }
}

/// Whether a candidate is listed.
pub fn candidate_visible_in_candidates(candidate: &Candidate, args: &CandidatesArgs) -> (answer:
    bool)
    ensures
        answer == listed(candidate.deep_view(), args.unverified, args.all),
{
    match candidate.compatibility {
        CompatibilityStatus::Verified => !candidate_needs_review(candidate) || args.unverified
            || args.all,
        CompatibilityStatus::DirectCompatible => !candidate_needs_review(candidate)
            || args.unverified || args.all,
        CompatibilityStatus::MinorCompatible => !candidate_needs_review(candidate)
            || args.unverified || args.all,
        CompatibilityStatus::Unverified => args.unverified || args.all,
        CompatibilityStatus::Incompatible => args.all,
        CompatibilityStatus::Unavailable => args.all,
    }
}

/// Asking for more lists more: what is listed by default is listed with unverified candidates,
/// and what is listed with those is listed with all.
pub proof fn listing_grows(candidate: CandidateView)
    ensures
        listed(candidate, false, false) ==> listed(candidate, true, false),
        listed(candidate, true, false) ==> listed(candidate, false, true),
        listed(candidate, false, true),
{
}

/// The candidates of a report in the order in which they are listed, before any is left out.
pub open spec fn ranked_candidates(report: RecommendationReportView, all: bool) -> Seq<
    CandidateView,
> {
    (match report.recommendation {
        Some(candidate) => seq![candidate],
        None => Seq::empty(),
    }) + report.alternatives + (if all {
        report.excluded
    } else {
        Seq::empty()
    })
}

/// The list of candidates that a report leads to.
pub open spec fn candidates_of(
    report: RecommendationReportView,
    unverified: bool,
    all: bool,
) -> CandidatesReportView {
    CandidatesReportView {
        schema_version: SCHEMA_VERSION,
        environment: report.environment,
        metadata: report.metadata,
        candidates: kept(
            ranked_candidates(report, all),
            |candidate: CandidateView| listed(candidate, unverified, all),
        ),
    }
}

fn list_visible(
    result: &mut Vec<Candidate>,
    candidates: &Vec<Candidate>,
    args: &CandidatesArgs,
    Ghost(before): Ghost<Seq<CandidateView>>,
)
    requires
        old(result).deep_view() == kept(
            before,
            |candidate: CandidateView| listed(candidate, args.unverified, args.all),
        ),
    ensures
        final(result).deep_view() == kept(
            before + candidates.deep_view(),
            |candidate: CandidateView| listed(candidate, args.unverified, args.all),
        ),
{
    let ghost all = candidates.deep_view();
    let ghost keep = |candidate: CandidateView| listed(candidate, args.unverified, args.all);
    let mut index: usize = 0;
    assert(before + all.take(0) =~= before);
    while index < candidates.len()
        invariant
            index <= candidates@.len(),
            all == candidates.deep_view(),
            keep == (|candidate: CandidateView| listed(candidate, args.unverified, args.all)),
            result.deep_view() == kept(before + all.take(index as int), keep),
        decreases candidates@.len() - index,
    {
        assert((before + all.take(index + 1)).drop_last() =~= before + all.take(index as int));
        assert((before + all.take(index + 1)).last() == candidates@[index as int].deep_view());
        if candidate_visible_in_candidates(&candidates[index], args) {
            push_item(result, candidates[index].clone());
        }
        index = index + 1;
    }
    assert(all.take(index as int) =~= all);
}

/// The list of candidates that a report leads to.
pub fn list_candidates(report: RecommendationReport, args: &CandidatesArgs) -> (result:
    CandidatesReport)
    ensures
        result.deep_view() == candidates_of(report.deep_view(), args.unverified, args.all),
{
    let mut candidates: Vec<Candidate> = Vec::new();
    let ghost keep = |candidate: CandidateView| listed(candidate, args.unverified, args.all);
    assert(candidates.deep_view() =~= kept(Seq::<CandidateView>::empty(), keep));
    let mut first: Vec<Candidate> = Vec::new();
    assert(first.deep_view() =~= Seq::<CandidateView>::empty());
    if let Some(candidate) = &report.recommendation {
        push_item(&mut first, candidate.clone());
        assert(first.deep_view() =~= seq![candidate.deep_view()]);
    }
    let ghost one = first.deep_view();
    list_visible(&mut candidates, &first, args, Ghost(Seq::empty()));
    assert(Seq::<CandidateView>::empty() + one =~= one);
    list_visible(&mut candidates, &report.alternatives, args, Ghost(one));
    if args.all {
        list_visible(
            &mut candidates,
            &report.excluded,
            args,
            Ghost(one + report.alternatives.deep_view()),
        );
    } else {
        assert(one + report.alternatives.deep_view() + Seq::<CandidateView>::empty() =~= one
            + report.alternatives.deep_view());
    }
    CandidatesReport {
        schema_version: SCHEMA_VERSION,
        environment: report.environment,
        metadata: report.metadata,
        candidates,
    }
}

// ---------------------------------------------------------------------------
// Verification

/// Whether `value` is an identifier that can be handed to CUDA.
pub open spec fn safe_uuid(value: Seq<char>) -> bool {
    &&& "GPU-"@.is_prefix_of(value)
    &&& value.len() > 4
    &&& forall|i: int|
        0 <= i < value.len() ==> alphanumeric(#[trigger] value[i]) || value[i] == '-'
}

/// Whether `value` is an identifier that can be handed to CUDA.
pub fn valid_gpu_uuid(value: &str) -> (answer: bool)
    ensures
        answer == safe_uuid(value@),
{
    if !starts_with(value, "GPU-") {
        return false;
    }
    let chars = to_chars(value);
    if chars.len() <= 4 {
        return false;
    }
    let mut index: usize = 0;
    while index < chars.len()
        invariant
            index <= chars@.len(),
            chars@ == value@,
            forall|i: int|
                0 <= i < index ==> alphanumeric(#[trigger] value@[i]) || value@[i] == '-',
        decreases chars@.len() - index,
    {
        if !(is_alphanumeric(chars[index]) || chars[index] == '-') {
            assert(!(alphanumeric(value@[index as int]) || value@[index as int] == '-'));
            return false;
        }
        index = index + 1;
    }
    true
}

/// Which devices a verification exercises, and how they are called.
#[derive(Debug, PartialEq, Eq)]
pub struct VerificationGpuSelection {
    /// Logical indices; `None` for every device.
    pub device_indices: Option<Vec<u32>>,
    /// Value of `CUDA_VISIBLE_DEVICES`; `None` to leave it.
    pub cuda_visible_devices: Option<String>,
    /// Which logical device is which physical one.
    pub mappings: Vec<VerificationGpuMapping>,
}

/// The model of [`VerificationGpuSelection`].
#[verifier::ext_equal]
pub struct VerificationGpuSelectionView {
    pub device_indices: Option<Seq<u32>>,
    pub cuda_visible_devices: Option<Seq<char>>,
    pub mappings: Seq<VerificationGpuMappingView>,
}

impl DeepView for VerificationGpuSelection {
    type V = VerificationGpuSelectionView;

    open spec fn deep_view(&self) -> VerificationGpuSelectionView {
        VerificationGpuSelectionView {
            device_indices: self.device_indices.deep_view(),
            cuda_visible_devices: self.cuda_visible_devices.deep_view(),
            mappings: self.mappings.deep_view(),
        }
    }
}

/// The first processor without a safe identifier.
pub open spec fn first_unsafe(gpus: Seq<NvidiaGpuView>) -> Option<NvidiaGpuView>
    decreases gpus.len(),
{
    if gpus.len() == 0 {
        None
    } else if gpus[0].uuid matches Some(uuid) && safe_uuid(uuid) {
        first_unsafe(gpus.skip(1))
    } else {
        Some(gpus[0])
    }
}

/// An optional identifier, or nothing.
pub open spec fn uuid_text(gpu: NvidiaGpuView) -> Seq<char> {
    match gpu.uuid {
        Some(uuid) => uuid,
        None => ""@,
    }
}

/// The identifiers of processors.
pub open spec fn uuids_of(gpus: Seq<NvidiaGpuView>) -> Seq<Seq<char>> {
    gpus.map_values(|gpu: NvidiaGpuView| uuid_text(gpu))
}

/// Each processor under the logical index of its place.
pub open spec fn mappings_of(gpus: Seq<NvidiaGpuView>) -> Seq<VerificationGpuMappingView> {
    Seq::new(
        gpus.len(),
        |i: int|
            VerificationGpuMappingView {
                physical_index: gpus[i].index,
                logical_index: i as u32,
                uuid: gpus[i].uuid,
            },
    )
}

/// The devices that a verification exercises: every one where none is asked for, and otherwise
/// the processors that were detected, by identifier and in their order.
pub open spec fn gpu_selection_for(requested: Seq<u32>, gpus: Seq<NvidiaGpuView>) -> Result<
    VerificationGpuSelectionView,
    Seq<char>,
> {
    if requested.len() == 0 {
        Ok(
            VerificationGpuSelectionView {
                device_indices: None,
                cuda_visible_devices: None,
                mappings: Seq::empty(),
            },
        )
    } else if gpus.len() == 0 {
        Err("no selected physical NVIDIA GPU was detected"@)
    } else {
        match first_unsafe(gpus) {
            Some(gpu) => Err(
                "physical GPU "@ + decimal(gpu.index as nat)
                    + " has no safe, queryable UUID for verification"@,
            ),
            None => if gpus.len() > u32::MAX {
                Err("selected CUDA device count exceeds supported range"@)
            } else {
                Ok(
                    VerificationGpuSelectionView {
                        device_indices: Some(Seq::new(gpus.len(), |i: int| i as u32)),
                        cuda_visible_devices: Some(join(uuids_of(gpus), ","@)),
                        mappings: mappings_of(gpus),
                    },
                )
            },
        }
    }
}

fn find_unsafe(gpus: &Vec<NvidiaGpu>) -> (place: Option<usize>)
    ensures
        match place {
            Some(at) => at < gpus@.len() && first_unsafe(gpus.deep_view()) == Some(
                gpus@[at as int].deep_view(),
            ),
            None => first_unsafe(gpus.deep_view()) is None,
        },
{
    let ghost all = gpus.deep_view();
    let mut index: usize = 0;
    assert(all.skip(0) =~= all);
    while index < gpus.len()
        invariant
            index <= gpus@.len(),
            all == gpus.deep_view(),
            first_unsafe(all) == first_unsafe(all.skip(index as int)),
        decreases gpus@.len() - index,
    {
        assert(all.skip(index as int)[0] == gpus@[index as int].deep_view());
        assert(all.skip(index as int).skip(1) =~= all.skip(index + 1));
        let safe = match &gpus[index].uuid {
            Some(uuid) => valid_gpu_uuid(uuid.as_str()),
            None => false,
        };
        if !safe {
            return Some(index);
        }
        index = index + 1;
    }
    None
}

/// The devices that a verification exercises.
pub fn verification_gpu_selection(requested: &[u32], environment: &Environment) -> (result: Result<
    VerificationGpuSelection,
    String,
>)
    ensures
        crate::text::outcome(result) == gpu_selection_for(
            requested@,
            environment.deep_view().nvidia.gpus,
        ),
{
    let mut mappings: Vec<VerificationGpuMapping> = Vec::new();
    assert(mappings.deep_view() =~= Seq::<VerificationGpuMappingView>::empty());
    if requested.len() == 0 {
        return Ok(
            VerificationGpuSelection { device_indices: None, cuda_visible_devices: None, mappings },
        );
    }
    let gpus = &environment.nvidia.gpus;
    let ghost all = gpus.deep_view();
    assert(all.len() == gpus@.len());
    if gpus.len() == 0 {
        return Err("no selected physical NVIDIA GPU was detected".to_owned());
    }
    if let Some(place) = find_unsafe(gpus) {
        return Err(
            concat3(
                "physical GPU ",
                decimal_text(gpus[place].index as u64).as_str(),
                " has no safe, queryable UUID for verification",
            ),
        );
    }
    if gpus.len() as u64 > u32::MAX as u64 {
        return Err("selected CUDA device count exceeds supported range".to_owned());
    }
    let ghost names = uuids_of(all);
    let ghost places = mappings_of(all);
    let ghost numbers = Seq::new(all.len(), |i: int| i as u32);
    let mut uuids: Vec<String> = Vec::new();
    let mut indices: Vec<u32> = Vec::new();
    let mut index: usize = 0;
    while index < gpus.len()
        invariant
            index <= gpus@.len() <= u32::MAX,
            all == gpus.deep_view(),
            names == uuids_of(all),
            places == mappings_of(all),
            numbers == Seq::new(all.len(), |i: int| i as u32),
            uuids.deep_view() == names.take(index as int),
            mappings.deep_view() == places.take(index as int),
            indices@ == numbers.take(index as int),
        decreases gpus@.len() - index,
    {
        let gpu = &gpus[index];
        assert(all[index as int] == gpus@[index as int].deep_view());
        let uuid = match &gpu.uuid {
            Some(uuid) => uuid.clone(),
            None => "".to_owned(),
        };
        push_item(&mut uuids, uuid);
        push_item(
            &mut mappings,
            VerificationGpuMapping {
                physical_index: gpu.index,
                logical_index: index as u32,
                uuid: clone_optional(&gpu.uuid),
            },
        );
        indices.push(index as u32);
        assert(names.take(index + 1) =~= names.take(index as int).push(names[index as int]));
        assert(places.take(index + 1) =~= places.take(index as int).push(places[index as int]));
        assert(numbers.take(index + 1) =~= numbers.take(index as int).push(numbers[index as int]));
        index = index + 1;
    }
    assert(names.take(index as int) =~= names);
    assert(places.take(index as int) =~= places);
    assert(numbers.take(index as int) =~= numbers);
    assert(indices.deep_view() =~= indices@);
    Ok(
        VerificationGpuSelection {
            device_indices: Some(indices),
            cuda_visible_devices: Some(join_texts(&uuids, ",")),
            mappings,
        },
    )
}

/// A verification report with the devices it stands for and with what is said of the
/// environment before what is said of the verification.
pub open spec fn completed_verification(
    report: VerificationReportView,
    mappings: Seq<VerificationGpuMappingView>,
    notes: Seq<DiagnosticView>,
) -> VerificationReportView {
    VerificationReportView {
        gpu_selection: mappings,
        diagnostics: notes + report.diagnostics,
        ..report
    }
}

/// Completes a verification report.
pub fn complete_verification(
    report: VerificationReport,
    mappings: Vec<VerificationGpuMapping>,
    environment: &Environment,
) -> (result: VerificationReport)
    ensures
        result.deep_view() == completed_verification(
            report.deep_view(),
            mappings.deep_view(),
            environment.deep_view().diagnostics,
        ),
{
    let mut diagnostics = environment.diagnostics.clone();
    assert(diagnostics.deep_view() =~= environment.diagnostics.deep_view());
    let ghost start = diagnostics.deep_view();
    let ghost all = report.diagnostics.deep_view();
    let mut index: usize = 0;
    while index < report.diagnostics.len()
        invariant
            index <= report.diagnostics@.len(),
            all == report.diagnostics.deep_view(),
            diagnostics.deep_view() == start + all.take(index as int),
        decreases report.diagnostics@.len() - index,
    {
        push_item(&mut diagnostics, report.diagnostics[index].clone());
        assert(all.take(index + 1) =~= all.take(index as int).push(all[index as int]));
        assert(diagnostics.deep_view() =~= start + all.take(index + 1));
        index = index + 1;
    }
    assert(all.take(index as int) =~= all);
    let mut result = report;
    result.gpu_selection = mappings;
    result.diagnostics = diagnostics;
    result
}

/// The status of a verification.
pub open spec fn verification_status(report: VerificationReportView) -> ExitCode {
    if report.status != CompatibilityStatus::Verified {
        ExitCode::Incompatible
    } else if has_severity(report.diagnostics, DiagnosticSeverity::Warning) {
        ExitCode::Warning
    } else {
        ExitCode::Success
    }
}

/// The status of a verification.
pub fn verification_exit_code(report: &VerificationReport) -> (code: ExitCode)
    ensures
        code == verification_status(report.deep_view()),
{
    if report.status != CompatibilityStatus::Verified {
        ExitCode::Incompatible
    } else if any_severity(&report.diagnostics, DiagnosticSeverity::Warning) {
        ExitCode::Warning
    } else {
        ExitCode::Success
    }
}

// ---------------------------------------------------------------------------
// Errors

/// The report of an error.
pub fn error_report(kind: ErrorKind, code: &str, message: &str) -> (report: ErrorReport)
    ensures
        report.deep_view() == (ErrorReportView {
            schema_version: SCHEMA_VERSION,
            error: ErrorBodyView { kind, code: code@, message: message@ },
        }),
{
    ErrorReport {
        schema_version: SCHEMA_VERSION,
        error: ErrorBody { kind, code: code.to_owned(), message: message.to_owned() },
    }
}

/// Success is reported only for a compatible candidate without any warning, in an environment
/// without errors and warnings, from metadata that are not stale.
pub proof fn success_means_nothing_to_warn_of(report: RecommendationReportView)
    requires
        recommendation_status(report) == ExitCode::Success,
    ensures
        report.recommendation matches Some(candidate) && !candidate_warns(candidate) && usable(
            candidate,
        ),
        !has_severity(report.environment.diagnostics, DiagnosticSeverity::Error),
        !has_severity(report.environment.diagnostics, DiagnosticSeverity::Warning),
        !metadata_warns(report.metadata),
        !cpu_fallback(report),
{
}

} // verus!
