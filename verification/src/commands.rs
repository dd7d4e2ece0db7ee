//! What each command answers, and the status with which it ends.

use crate::arguments::{
    companion_set, companions_in, exact_torch_version, exact_version, packages_for,
    wanted_packages,
};
use crate::environment::{detect_error_text, DetectError, DetectErrorView};
use crate::exits::{
    candidate_exit_code, candidate_status, candidates_exit_code, candidates_of, candidates_status,
    complete_verification, completed_verification, environment_exit_code, environment_rejection,
    environment_status, error_report, gpu_selection_for, has_severity, list_candidates,
    recommendation_exit_code, recommendation_status, reject_environment_errors,
    verification_exit_code, verification_gpu_selection, verification_status, CandidatesArgs,
};
use crate::index::{IndexOptions, IndexOptionsView, LoadedIndex, LoadedIndexView, TimeSpan};
use crate::index_error::{index_error_text, IndexError, IndexErrorView};
use crate::model::{
    CandidatesReport, CandidatesReportView, CudaVariant, DiagnosticSeverity, DiagnosticView,
    Environment, EnvironmentView, ErrorBodyView, ErrorKind, ErrorReport, ErrorReportView, ExitCode,
    ExplainReport, ExplainReportView, FilePath, FilePathView, InspectReport, InspectReportView,
    Installer, RecommendationReport, RecommendationReportView, VerificationGpuMapping,
    VerificationGpuMappingView, VerificationReport, VerificationReportView, SCHEMA_VERSION,
};
use crate::redact::{
    redact_environment, redact_recommendation, redact_verification, redacted_diagnostic,
    redacted_diagnostics, redacted_environment, redacted_report, redacted_verification,
    sensitive_values, verification_secrets,
};
use crate::render::{
    candidates_page, explanation_page, put_environment, render_candidates, render_environment,
    render_explanation, render_verification, verification_page,
};
use crate::resolver::{
    explain, explanation, resolution, resolve, CompanionSet, ResolverOptions, ResolverOptionsView,
};
use crate::rules::{
    resolver_error_text, DriverRules, DriverRulesView, ReleaseRules, ReleaseRulesView,
    ResolverErrorView,
};
use crate::summary::{recommendation_page, render_recommendation};
use crate::terminal::{shown, terminal_text};
use crate::text::{clone_optional, concat2, outcome};
use crate::verify::{VerifyOptions, DEFAULT_MAX_OUTPUT_BYTES, DEFAULT_TIMEOUT_SECONDS};
use vstd::prelude::*;

verus! {

/// What a command answers.
#[derive(Debug)]
pub enum Answer {
    /// What the environment is.
    Inspection(InspectReport),
    /// How an installation works.
    Verification(VerificationReport),
    /// What to install.
    Recommendation(RecommendationReport),
    /// What could be installed.
    Candidates(CandidatesReport),
    /// Why one candidate can or cannot be installed.
    Explanation(ExplainReport),
    /// Why there is no answer.
    Failure(ErrorReport),
}

/// The model of [`Answer`].
#[verifier::ext_equal]
pub enum AnswerView {
    Inspection(InspectReportView),
    Verification(VerificationReportView),
    Recommendation(RecommendationReportView),
    Candidates(CandidatesReportView),
    Explanation(ExplainReportView),
    Failure(ErrorReportView),
}

impl DeepView for Answer {
    type V = AnswerView;

    open spec fn deep_view(&self) -> AnswerView {
        match self {
            Answer::Inspection(report) => AnswerView::Inspection(report.deep_view()),
            Answer::Verification(report) => AnswerView::Verification(report.deep_view()),
            Answer::Recommendation(report) => AnswerView::Recommendation(report.deep_view()),
            Answer::Candidates(report) => AnswerView::Candidates(report.deep_view()),
            Answer::Explanation(report) => AnswerView::Explanation(report.deep_view()),
            Answer::Failure(report) => AnswerView::Failure(report.deep_view()),
        }
    }
}

/// An answer, and the status with which the command ends.
#[derive(Debug)]
pub struct Outcome {
    /// The answer.
    pub answer: Answer,
    /// The status.
    pub status: ExitCode,
}

/// The model of [`Outcome`].
#[verifier::ext_equal]
pub struct OutcomeView {
    pub answer: AnswerView,
    pub status: ExitCode,
}

impl DeepView for Outcome {
    type V = OutcomeView;

    open spec fn deep_view(&self) -> OutcomeView {
        OutcomeView { answer: self.answer.deep_view(), status: self.status }
    }
}

/// The outcome of a command that fails.
pub open spec fn failed(
    kind: ErrorKind,
    code: Seq<char>,
    message: Seq<char>,
    status: ExitCode,
) -> OutcomeView {
    OutcomeView {
        answer: AnswerView::Failure(
            ErrorReportView {
                schema_version: SCHEMA_VERSION,
                error: ErrorBodyView { kind, code, message },
            },
        ),
        status,
    }
}

/// The outcome of a command that fails.
pub fn failure(kind: ErrorKind, code: &str, message: &str, status: ExitCode) -> (result: Outcome)
    ensures
        result.deep_view() == failed(kind, code@, message@, status),
{
    Outcome { answer: Answer::Failure(error_report(kind, code, message)), status }
}

/// The outcome where the arguments cannot be parsed. The message may repeat the arguments, so it
/// is left out of redacted output.
pub fn usage_failure(message: &str, redact: bool) -> (result: Outcome)
    ensures
        result.deep_view() == failed(
            ErrorKind::Usage,
            "invalid_arguments"@,
            if redact {
                "invalid command-line arguments; run torch-check --help"@
            } else {
                message@
            },
            ExitCode::Incompatible,
        ),
{
    let text = if redact {
        "invalid command-line arguments; run torch-check --help"
    } else {
        message
    };
    failure(ErrorKind::Usage, "invalid_arguments", text, ExitCode::Incompatible)
}

// ---------------------------------------------------------------------------
// Inspection

/// The outcome of a detection that fails.
pub open spec fn undetected(error: DetectErrorView) -> OutcomeView {
    failed(
        ErrorKind::Detection,
        "environment_detection_failed"@,
        detect_error_text(error),
        ExitCode::InternalError,
    )
}

fn detection_failure(error: &DetectError) -> (result: Outcome)
    ensures
        result.deep_view() == undetected(error.deep_view()),
{
    failure(
        ErrorKind::Detection,
        "environment_detection_failed",
        error.to_string().as_str(),
        ExitCode::InternalError,
    )
}

/// The outcome of an inspection.
pub open spec fn inspected(detected: Result<EnvironmentView, DetectErrorView>, redact: bool) ->
    OutcomeView {
    match detected {
        Err(error) => undetected(error),
        Ok(environment) => {
            let reported = if redact {
                redacted_environment(environment)
            } else {
                environment
            };
            OutcomeView {
                answer: AnswerView::Inspection(
                    InspectReportView { schema_version: SCHEMA_VERSION, environment: reported },
                ),
                status: environment_status(reported),
            }
        },
    }
}

/// Concludes an inspection.
pub fn command_inspect(detected: Result<Environment, DetectError>, redact: bool) -> (result:
    Outcome)
    ensures
        result.deep_view() == inspected(outcome(detected), redact),
{
    match detected {
        Err(error) => detection_failure(&error),
        Ok(found) => {
            let mut environment = found;
            if redact {
                redact_environment(&mut environment);
            }
            let status = environment_exit_code(&environment);
            Outcome {
                answer: Answer::Inspection(
                    InspectReport { schema_version: SCHEMA_VERSION, environment },
                ),
                status,
            }
        },
    }
}

/// The environment to work with, or the outcome where there is none: detection failed, or found
/// an error.
pub open spec fn usable_environment(detected: Result<EnvironmentView, DetectErrorView>) -> Result<
    EnvironmentView,
    OutcomeView,
> {
    match detected {
        Err(error) => Err(undetected(error)),
        Ok(environment) => match environment_rejection(environment) {
            Some(message) => Err(
                failed(
                    ErrorKind::Detection,
                    "environment_unsupported_or_invalid"@,
                    message,
                    ExitCode::Incompatible,
                ),
            ),
            None => Ok(environment),
        },
    }
}

/// Takes the environment to work with.
pub fn ready_environment(detected: Result<Environment, DetectError>) -> (result: Result<
    Environment,
    Outcome,
>)
    ensures
        outcome(result) == usable_environment(outcome(detected)),
{
    match detected {
        Err(error) => Err(detection_failure(&error)),
        Ok(environment) => match reject_environment_errors(&environment) {
            Some(message) => Err(
                failure(
                    ErrorKind::Detection,
                    "environment_unsupported_or_invalid",
                    message.as_str(),
                    ExitCode::Incompatible,
                ),
            ),
            None => Ok(environment),
        },
    }
}

// ---------------------------------------------------------------------------
// The index

/// What is asked of the index.
pub fn index_request(
    companions: &CompanionSet,
    cache_dir: Option<FilePath>,
    offline: bool,
    refresh: bool,
) -> (options: IndexOptions)
    ensures
        options.deep_view() == (IndexOptionsView {
            cache_dir: cache_dir.deep_view(),
            offline,
            refresh,
            ttl: TimeSpan { seconds: 86400, nanos: 0 },
            request_timeout: TimeSpan { seconds: 30, nanos: 0 },
            total_timeout: TimeSpan { seconds: 120, nanos: 0 },
            max_response_bytes: 16777216,
            max_concurrency: 6,
            packages: wanted_packages(*companions),
        }),
{
    let defaults = IndexOptions::default();
    IndexOptions {
        cache_dir,
        offline,
        refresh,
        ttl: defaults.ttl,
        request_timeout: defaults.request_timeout,
        total_timeout: defaults.total_timeout,
        max_response_bytes: defaults.max_response_bytes,
        max_concurrency: defaults.max_concurrency,
        packages: packages_for(companions),
    }
}

/// The outcome where there is no index.
pub open spec fn without_index(error: IndexErrorView) -> OutcomeView {
    failed(
        ErrorKind::Metadata,
        "wheel_metadata_unavailable"@,
        index_error_text(error),
        ExitCode::MetadataFailure,
    )
}

fn index_failure(error: &IndexError) -> (result: Outcome)
    ensures
        result.deep_view() == without_index(error.deep_view()),
{
    failure(
        ErrorKind::Metadata,
        "wheel_metadata_unavailable",
        error.to_string().as_str(),
        ExitCode::MetadataFailure,
    )
}

/// The outcome where nothing can be resolved.
pub open spec fn unresolved(error: ResolverErrorView) -> OutcomeView {
    failed(
        ErrorKind::Resolution,
        "resolution_failed"@,
        resolver_error_text(error),
        ExitCode::Incompatible,
    )
}

// ---------------------------------------------------------------------------
// Recommendation

/// The outcome of a recommendation.
pub open spec fn recommended(
    environment: EnvironmentView,
    loaded: Result<LoadedIndexView, IndexErrorView>,
    options: ResolverOptionsView,
    drivers: DriverRulesView,
    releases: ReleaseRulesView,
    redact: bool,
) -> OutcomeView {
    match loaded {
        Err(error) => without_index(error),
        Ok(index) => match resolution(
            environment,
            index.snapshot,
            index.metadata,
            options,
            drivers,
            releases,
        ) {
            Err(error) => unresolved(error),
            Ok(report) => OutcomeView {
                answer: AnswerView::Recommendation(
                    if redact {
                        redacted_report(report)
                    } else {
                        report
                    },
                ),
                status: recommendation_status(report),
            },
        },
    }
}

/// Concludes a recommendation.
pub fn command_recommend(
    environment: &Environment,
    loaded: Result<LoadedIndex, IndexError>,
    options: &ResolverOptions,
    drivers: DriverRules,
    releases: ReleaseRules,
    redact: bool,
) -> (result: Outcome)
    ensures
        result.deep_view() == recommended(
            environment.deep_view(),
            outcome(loaded),
            options.deep_view(),
            drivers.deep_view(),
            releases.deep_view(),
            redact,
        ),
{
    let index = match loaded {
        Ok(index) => index,
        Err(error) => {
            return index_failure(&error);
        },
    };
    match resolve(environment, &index.snapshot, index.metadata, options, drivers, releases) {
        Err(error) => failure(
            ErrorKind::Resolution,
            "resolution_failed",
            error.to_string().as_str(),
            ExitCode::Incompatible,
        ),
        Ok(found) => {
            let mut report = found;
            let status = recommendation_exit_code(&report);
            if redact {
                redact_recommendation(&mut report);
            }
            Outcome { answer: Answer::Recommendation(report), status }
        },
    }
}

// ---------------------------------------------------------------------------
// Candidates

/// How the candidates of a listing are resolved.
pub open spec fn listing_request(args: CandidatesArgs) -> ResolverOptionsView {
    ResolverOptionsView {
        torch_version: args.torch_version.deep_view(),
        include_prerelease: args.prerelease,
        installer: Installer::Pip,
        companions: companions_in(args.companions@),
    }
}

/// How the candidates of a listing are resolved.
pub fn listing_options(args: &CandidatesArgs) -> (options: ResolverOptions)
    ensures
        options.deep_view() == listing_request(*args),
{
    ResolverOptions {
        torch_version: clone_optional(&args.torch_version),
        include_prerelease: args.prerelease,
        installer: Installer::Pip,
        companions: companion_set(args.companions.as_slice()),
    }
}

/// The outcome of a listing.
pub open spec fn listed_candidates(
    environment: EnvironmentView,
    loaded: Result<LoadedIndexView, IndexErrorView>,
    args: CandidatesArgs,
    drivers: DriverRulesView,
    releases: ReleaseRulesView,
    redact: bool,
) -> OutcomeView {
    match loaded {
        Err(error) => without_index(error),
        Ok(index) => match resolution(
            environment,
            index.snapshot,
            index.metadata,
            listing_request(args),
            drivers,
            releases,
        ) {
            Err(error) => unresolved(error),
            Ok(report) => {
                let listing = candidates_of(report, args.unverified, args.all);
                OutcomeView {
                    answer: AnswerView::Candidates(
                        if redact {
                            CandidatesReportView {
                                environment: redacted_environment(listing.environment),
                                ..listing
                            }
                        } else {
                            listing
                        },
                    ),
                    status: candidates_status(listing),
                }
            },
        },
    }
}

/// Concludes a listing.
pub fn command_candidates(
    environment: &Environment,
    loaded: Result<LoadedIndex, IndexError>,
    args: &CandidatesArgs,
    drivers: DriverRules,
    releases: ReleaseRules,
    redact: bool,
) -> (result: Outcome)
    ensures
        result.deep_view() == listed_candidates(
            environment.deep_view(),
            outcome(loaded),
            *args,
            drivers.deep_view(),
            releases.deep_view(),
            redact,
        ),
{
    let index = match loaded {
        Ok(index) => index,
        Err(error) => {
            return index_failure(&error);
        },
    };
    let options = listing_options(args);
    match resolve(environment, &index.snapshot, index.metadata, &options, drivers, releases) {
        Err(error) => failure(
            ErrorKind::Resolution,
            "resolution_failed",
            error.to_string().as_str(),
            ExitCode::Incompatible,
        ),
        Ok(report) => {
            let mut listing = list_candidates(report, args);
            let status = candidates_exit_code(&listing);
            if redact {
                redact_environment(&mut listing.environment);
            }
            Outcome { answer: Answer::Candidates(listing), status }
        },
    }
}

// ---------------------------------------------------------------------------
// Explanation

/// The version to explain, or the outcome where the requirement names none.
pub fn requested_version(requirement: &str) -> (result: Result<String, Outcome>)
    ensures
        outcome(result) == (match exact_version(requirement@) {
            Ok(version) => Ok::<Seq<char>, OutcomeView>(version),
            Err(message) => Err(
                failed(
                    ErrorKind::Usage,
                    "invalid_torch_requirement"@,
                    message,
                    ExitCode::Incompatible,
                ),
            ),
        }),
{
    match exact_torch_version(requirement) {
        Ok(version) => Ok(version),
        Err(message) => Err(
            failure(
                ErrorKind::Usage,
                "invalid_torch_requirement",
                message.as_str(),
                ExitCode::Incompatible,
            ),
        ),
    }
}

/// The options of an explanation.
pub open spec fn explanation_options() -> ResolverOptionsView {
    ResolverOptionsView {
        torch_version: None,
        include_prerelease: false,
        installer: Installer::Pip,
        companions: CompanionSet { torchvision: false, torchaudio: false },
    }
}

/// The outcome of an explanation.
pub open spec fn explained(
    environment: EnvironmentView,
    loaded: Result<LoadedIndexView, IndexErrorView>,
    version: Seq<char>,
    variant: CudaVariant,
    drivers: DriverRulesView,
    releases: ReleaseRulesView,
    redact: bool,
) -> OutcomeView {
    match loaded {
        Err(error) => without_index(error),
        Ok(index) => match explanation(
            environment,
            index.snapshot,
            index.metadata,
            version,
            variant,
            explanation_options(),
            drivers,
            releases,
        ) {
            Err(error) => failed(
                ErrorKind::Resolution,
                "explanation_failed"@,
                resolver_error_text(error),
                ExitCode::Incompatible,
            ),
            Ok(candidate) => OutcomeView {
                answer: AnswerView::Explanation(
                    ExplainReportView {
                        schema_version: SCHEMA_VERSION,
                        environment: if redact {
                            redacted_environment(environment)
                        } else {
                            environment
                        },
                        metadata: index.metadata,
                        candidate,
                    },
                ),
                status: candidate_status(candidate, environment, index.metadata),
            },
        },
    }
}

/// Concludes an explanation.
pub fn command_explain(
    environment: &Environment,
    loaded: Result<LoadedIndex, IndexError>,
    version: &str,
    variant: &CudaVariant,
    drivers: DriverRules,
    releases: ReleaseRules,
    redact: bool,
) -> (result: Outcome)
    ensures
        result.deep_view() == explained(
            environment.deep_view(),
            outcome(loaded),
            version@,
            *variant,
            drivers.deep_view(),
            releases.deep_view(),
            redact,
        ),
{
    let index = match loaded {
        Ok(index) => index,
        Err(error) => {
            return index_failure(&error);
        },
    };
    let options = ResolverOptions::default();
    match explain(
        environment,
        &index.snapshot,
        index.metadata.clone(),
        version,
        variant,
        &options,
        drivers,
        releases,
    ) {
        Err(error) => failure(
            ErrorKind::Resolution,
            "explanation_failed",
            error.to_string().as_str(),
            ExitCode::Incompatible,
        ),
        Ok(candidate) => {
            let status = candidate_exit_code(&candidate, environment, &index.metadata);
            let mut reported = environment.clone();
            if redact {
                redact_environment(&mut reported);
            }
            Outcome {
                answer: Answer::Explanation(
                    ExplainReport {
                        schema_version: SCHEMA_VERSION,
                        environment: reported,
                        metadata: index.metadata,
                        candidate,
                    },
                ),
                status,
            }
        },
    }
}

// ---------------------------------------------------------------------------
// Verification

/// How an installation is verified.
#[derive(Debug)]
pub struct VerificationPlan {
    /// The options of the verification.
    pub options: VerifyOptions,
    /// Which logical device is which physical one.
    pub mappings: Vec<VerificationGpuMapping>,
}

/// The model of [`VerificationPlan`].
#[verifier::ext_equal]
pub struct VerificationPlanView {
    pub python_executable: FilePathView,
    pub device_indices: Option<Seq<u32>>,
    pub cuda_visible_devices: Option<Seq<char>>,
    pub timeout: TimeSpan,
    pub max_output_bytes: usize,
    pub mappings: Seq<VerificationGpuMappingView>,
}

impl DeepView for VerificationPlan {
    type V = VerificationPlanView;

    open spec fn deep_view(&self) -> VerificationPlanView {
        VerificationPlanView {
            python_executable: self.options.python_executable.deep_view(),
            device_indices: self.options.device_indices.deep_view(),
            cuda_visible_devices: self.options.cuda_visible_devices.deep_view(),
            timeout: self.options.timeout,
            max_output_bytes: self.options.max_output_bytes,
            mappings: self.mappings.deep_view(),
        }
    }
}

/// How the installation of an environment is verified, or the outcome where it cannot be.
pub open spec fn planned(environment: EnvironmentView, requested: Seq<u32>) -> Result<
    VerificationPlanView,
    OutcomeView,
> {
    match environment.python {
        None => Err(
            failed(
                ErrorKind::Verification,
                "python_unavailable"@,
                "no Python interpreter was available for verification"@,
                ExitCode::Incompatible,
            ),
        ),
        Some(python) => match gpu_selection_for(requested, environment.nvidia.gpus) {
            Err(message) => Err(
                failed(
                    ErrorKind::Verification,
                    "gpu_visibility_mapping_failed"@,
                    message,
                    ExitCode::Incompatible,
                ),
            ),
            Ok(selection) => Ok(
                VerificationPlanView {
                    python_executable: python.executable,
                    device_indices: selection.device_indices,
                    cuda_visible_devices: selection.cuda_visible_devices,
                    timeout: TimeSpan { seconds: DEFAULT_TIMEOUT_SECONDS, nanos: 0 },
                    max_output_bytes: DEFAULT_MAX_OUTPUT_BYTES,
                    mappings: selection.mappings,
                },
            ),
        },
    }
}

/// Plans the verification of the installation of an environment.
pub fn plan_verification(environment: &Environment, requested: &[u32]) -> (result: Result<
    VerificationPlan,
    Outcome,
>)
    ensures
        outcome(result) == planned(environment.deep_view(), requested@),
{
    let python = match &environment.python {
        Some(python) => python,
        None => {
            return Err(
                failure(
                    ErrorKind::Verification,
                    "python_unavailable",
                    "no Python interpreter was available for verification",
                    ExitCode::Incompatible,
                ),
            );
        },
    };
    match verification_gpu_selection(requested, environment) {
        Err(message) => Err(
            failure(
                ErrorKind::Verification,
                "gpu_visibility_mapping_failed",
                message.as_str(),
                ExitCode::Incompatible,
            ),
        ),
        Ok(selection) => {
            let mut options = VerifyOptions::new(python.executable.clone());
            options.device_indices = selection.device_indices;
            options.cuda_visible_devices = selection.cuda_visible_devices;
            Ok(VerificationPlan { options, mappings: selection.mappings })
        },
    }
}

/// The outcome of a verification.
pub open spec fn verified(
    report: VerificationReportView,
    mappings: Seq<VerificationGpuMappingView>,
    environment: EnvironmentView,
    redact: bool,
) -> OutcomeView {
    let complete = completed_verification(report, mappings, environment.diagnostics);
    let reported = if redact {
        redacted_verification(complete, environment)
    } else {
        complete
    };
    OutcomeView {
        answer: AnswerView::Verification(reported),
        status: verification_status(reported),
    }
}

/// Concludes a verification.
pub fn command_verify(
    report: VerificationReport,
    mappings: Vec<VerificationGpuMapping>,
    environment: &Environment,
    redact: bool,
) -> (result: Outcome)
    ensures
        result.deep_view() == verified(
            report.deep_view(),
            mappings.deep_view(),
            environment.deep_view(),
            redact,
        ),
{
    let mut complete = complete_verification(report, mappings, environment);
    if redact {
        redact_verification(&mut complete, environment);
    }
    let status = verification_exit_code(&complete);
    Outcome { answer: Answer::Verification(complete), status }
}

// ---------------------------------------------------------------------------
// Text

/// An answer as text.
pub open spec fn answer_page(answer: AnswerView, width: nat) -> Seq<char> {
    match answer {
        AnswerView::Inspection(report) => put_environment(""@, report.environment, width),
        AnswerView::Verification(report) => verification_page(report, width),
        AnswerView::Recommendation(report) => recommendation_page(report, width),
        AnswerView::Candidates(report) => candidates_page(report, width),
        AnswerView::Explanation(report) => explanation_page(report, width),
        AnswerView::Failure(report) => "torch-check: "@ + shown(report.error.message),
    }
}

/// Shows an answer.
pub fn render_answer(answer: &Answer, width: usize) -> (text: String)
    ensures
        text@ == answer_page(answer.deep_view(), width as nat),
{
    match answer {
        Answer::Inspection(report) => render_environment(&report.environment, width),
        Answer::Verification(report) => render_verification(report, width),
        Answer::Recommendation(report) => render_recommendation(report, width),
        Answer::Candidates(report) => render_candidates(report, width),
        Answer::Explanation(report) => render_explanation(report, width),
        Answer::Failure(report) => concat2(
            "torch-check: ",
            terminal_text(report.error.message.as_str()).as_str(),
        ),
    }
}

// ---------------------------------------------------------------------------
// Laws

proof fn redaction_keeps_severities(
    diagnostics: Seq<DiagnosticView>,
    sensitive: Seq<Seq<char>>,
    severity: DiagnosticSeverity,
)
    ensures
        has_severity(redacted_diagnostics(diagnostics, sensitive), severity) == has_severity(
            diagnostics,
            severity,
        ),
{
    let changed = redacted_diagnostics(diagnostics, sensitive);
    if has_severity(diagnostics, severity) {
        let i = choose|i: int|
            0 <= i < diagnostics.len() && (#[trigger] diagnostics[i]).severity == severity;
        assert(changed[i] == redacted_diagnostic(diagnostics[i], sensitive));
        assert(changed[i].severity == severity);
    }
    if has_severity(changed, severity) {
        let i = choose|i: int| 0 <= i < changed.len() && (#[trigger] changed[i]).severity
            == severity;
        assert(changed[i] == redacted_diagnostic(diagnostics[i], sensitive));
        assert(diagnostics[i].severity == severity);
    }
}

/// Redaction does not change the status of an inspection.
pub proof fn redaction_keeps_the_status_of_an_inspection(
    detected: Result<EnvironmentView, DetectErrorView>,
)
    ensures
        inspected(detected, true).status == inspected(detected, false).status,
{
    if let Ok(environment) = detected {
        let sensitive = sensitive_values(environment);
        redaction_keeps_severities(
            environment.diagnostics,
            sensitive,
            DiagnosticSeverity::Error,
        );
        redaction_keeps_severities(
            environment.diagnostics,
            sensitive,
            DiagnosticSeverity::Warning,
        );
    }
}

/// Redaction does not change the status of a verification.
pub proof fn redaction_keeps_the_status_of_a_verification(
    report: VerificationReportView,
    mappings: Seq<VerificationGpuMappingView>,
    environment: EnvironmentView,
)
    ensures
        verified(report, mappings, environment, true).status == verified(
            report,
            mappings,
            environment,
            false,
        ).status,
{
    let complete = completed_verification(report, mappings, environment.diagnostics);
    redaction_keeps_severities(
        complete.diagnostics,
        verification_secrets(complete, environment),
        DiagnosticSeverity::Warning,
    );
}

/// Redaction does not change the status of a recommendation.
pub proof fn redaction_keeps_the_status_of_a_recommendation(
    environment: EnvironmentView,
    loaded: Result<LoadedIndexView, IndexErrorView>,
    options: ResolverOptionsView,
    drivers: DriverRulesView,
    releases: ReleaseRulesView,
)
    ensures
        recommended(environment, loaded, options, drivers, releases, true).status == recommended(
            environment,
            loaded,
            options,
            drivers,
            releases,
            false,
        ).status,
{
}

/// Without metadata no command recommends, lists or explains anything: each fails, with the
/// status for missing metadata.
pub proof fn missing_metadata_is_a_failure(
    environment: EnvironmentView,
    error: IndexErrorView,
    options: ResolverOptionsView,
    args: CandidatesArgs,
    version: Seq<char>,
    variant: CudaVariant,
    drivers: DriverRulesView,
    releases: ReleaseRulesView,
    redact: bool,
)
    ensures
        recommended(environment, Err(error), options, drivers, releases, redact) == without_index(
            error,
        ),
        listed_candidates(environment, Err(error), args, drivers, releases, redact)
            == without_index(error),
        explained(environment, Err(error), version, variant, drivers, releases, redact)
            == without_index(error),
        without_index(error).status == ExitCode::MetadataFailure,
        without_index(error).answer is Failure,
{
}

} // verus!
