//! Compatibility resolution, recommendation ranking, and install command generation.

use crate::checks::{
    absent_candidate, aggregate, aggregate_status, companion_available, companion_pin,
    companion_version, driver_check, evaluate_driver, evaluate_gpu_architecture, evaluate_platform,
    evaluate_python, gives_reason, gpu_check, has_reason, is_stable_version, mapping_missing,
    matching_companion_wheel, metadata_old, missing_candidate, platform_result, python_check,
    python_of, python_wheels, stable_version,
};
use crate::guarantees::{candidates_have_versions, candidates_in_order_recommend_the_first};
use crate::model::{
    check_of, detailed, is_unsafe_terminal_character, plain_reason, plain_warning,
    unsafe_terminal_character, variant_text, Candidate, CandidateView, CandidateWarning,
    CandidateWarningView, CheckStatus, CommandSpec, CommandSpecView, CompatibilityCheck,
    CompatibilityCheckView, CompatibilityChecks, CompatibilityChecksView, CompatibilityStatus,
    CudaVariant, DecisionReason, DecisionReasonView, DiagnosticCode, DiagnosticSeverity,
    DiagnosticView, Environment, EnvironmentView, FilePath, FilePathView, IndexSnapshot,
    IndexSnapshotView, Installer, MetadataInfo, MetadataInfoView, MetadataOrigin,
    NvidiaDetectionStatus, ReasonCode, RecommendationReport, RecommendationReportView, TorchWheel,
    TorchWheelView, WarningCode, SCHEMA_VERSION,
};
use crate::order::{
    all_sorted, compared, dedup, flip, int_order, kept, order_chain, order_u64, orders_follow,
    sort_by, sort_keeps_items, sort_values, Order,
};
use crate::outside::{
    escape_word, is_pep440, normalize_version, order_versions, pep440_contains, pep440_order,
    pep440_specifier_error, pep440_text, shell_word, specifier_error, specifiers_contain,
};
use crate::pieces::{
    after_prefix, dedup_texts, join, join_texts, order_texts, sort_texts, sorted_texts,
    strip_prefix, text_order, trim, trimmed,
};
use crate::ranking::{
    candidates_are_ranked_by_their_fields, listed_by_rank, ranked_candidates_make_a_ranked_report,
    report_is_ranked, rightly_before,
};
use crate::rules::{
    companion_name, preference, release_for, rules_error, CompanionPackage, DriverRules,
    DriverRulesView, ReleaseRules, ReleaseRulesView, ResolverError, ResolverErrorView, RuleSet,
    RuleSetView,
};
use crate::text::{concat2, concat3, decimal, decimal_text, outcome, push_item, same, to_chars};
use vstd::prelude::*;

verus! {

/// A set of companion packages.
#[derive(Debug, Clone, Copy, PartialEq, Eq, Structural)]
pub struct CompanionSet {
    /// Whether `torchvision` is in the set.
    pub torchvision: bool,
    /// Whether `torchaudio` is in the set.
    pub torchaudio: bool,
}

/// The members of a set, in ascending order.
pub open spec fn members(set: CompanionSet) -> Seq<CompanionPackage> {
    (if set.torchvision {
        seq![CompanionPackage::Torchvision]
    } else {
        Seq::empty()
    }) + (if set.torchaudio {
        seq![CompanionPackage::Torchaudio]
    } else {
        Seq::empty()
    })
}

impl CompanionSet {
    /// The empty set.
    pub fn new() -> (set: CompanionSet)
        ensures
            members(set) == Seq::<CompanionPackage>::empty(),
    {
        let set = CompanionSet { torchvision: false, torchaudio: false };
        assert(members(set) =~= Seq::empty());
        set
    }

    /// The set with `package` added.
    pub fn with(self, package: CompanionPackage) -> (set: CompanionSet)
        ensures
            set == (match package {
                CompanionPackage::Torchvision => CompanionSet { torchvision: true, ..self },
                CompanionPackage::Torchaudio => CompanionSet { torchaudio: true, ..self },
            }),
    {
        match package {
            CompanionPackage::Torchvision => CompanionSet {
                torchvision: true,
                torchaudio: self.torchaudio,
            },
            CompanionPackage::Torchaudio => CompanionSet {
                torchvision: self.torchvision,
                torchaudio: true,
            },
        }
    }

    /// How many members there are.
    pub fn len(&self) -> (count: usize)
        ensures
            count == members(*self).len(),
    {
        self.members().len()
    }

    /// The members, in ascending order.
    pub fn members(&self) -> (packages: Vec<CompanionPackage>)
        ensures
            packages@ == members(*self),
    {
        let mut packages: Vec<CompanionPackage> = Vec::new();
        if self.torchvision {
            packages.push(CompanionPackage::Torchvision);
        }
        if self.torchaudio {
            packages.push(CompanionPackage::Torchaudio);
        }
        assert(packages@ =~= members(*self));
        packages
    }
}

/// Settings that affect candidate filtering and command generation.
#[derive(Debug)]
pub struct ResolverOptions {
    /// Optional PEP 440 version specifier. A bare version means exact equality.
    pub torch_version: Option<String>,
    /// Include development/pre-release wheels in recommendation ranking.
    pub include_prerelease: bool,
    /// Installer command style.
    pub installer: Installer,
    /// Companion distributions to pin to the matching release.
    pub companions: CompanionSet,
}

/// The model of [`ResolverOptions`].
#[verifier::ext_equal]
pub struct ResolverOptionsView {
    pub torch_version: Option<Seq<char>>,
    pub include_prerelease: bool,
    pub installer: Installer,
    pub companions: CompanionSet,
}

impl DeepView for ResolverOptions {
    type V = ResolverOptionsView;

    open spec fn deep_view(&self) -> ResolverOptionsView {
        ResolverOptionsView {
            torch_version: self.torch_version.deep_view(),
            include_prerelease: self.include_prerelease,
            installer: self.installer,
            companions: self.companions,
        }
    }
}

impl Default for ResolverOptions {
    fn default() -> (options: ResolverOptions)
        ensures
            options.deep_view() == (ResolverOptionsView {
                torch_version: None,
                include_prerelease: false,
                installer: Installer::Pip,
                companions: CompanionSet { torchvision: false, torchaudio: false },
            }),
    {
        ResolverOptions {
            torch_version: None,
            include_prerelease: false,
            installer: Installer::Pip,
            companions: CompanionSet::new(),
        }
    }
}

/// `item` alone, or nothing.
pub open spec fn only_if<T>(condition: bool, item: T) -> Seq<T> {
    if condition {
        seq![item]
    } else {
        Seq::empty()
    }
}

// ---------------------------------------------------------------------------
// Environment and constraint validation

/// The identifier of a diagnostic code.
pub open spec fn code_identifier(code: DiagnosticCode) -> Seq<char> {
    match code {
        DiagnosticCode::UnsupportedOperatingSystem => "UnsupportedOperatingSystem"@,
        DiagnosticCode::UnsupportedArchitecture => "UnsupportedArchitecture"@,
        DiagnosticCode::UnsupportedLibc => "UnsupportedLibc"@,
        DiagnosticCode::GlibcUnknown => "GlibcUnknown"@,
        DiagnosticCode::PythonUnavailable => "PythonUnavailable"@,
        DiagnosticCode::UnsupportedPythonImplementation => "UnsupportedPythonImplementation"@,
        DiagnosticCode::BuiltinPythonTags => "BuiltinPythonTags"@,
        DiagnosticCode::NvidiaSmiUnavailable => "NvidiaSmiUnavailable"@,
        DiagnosticCode::NvidiaNoDevices => "NvidiaNoDevices"@,
        DiagnosticCode::NvidiaInspectionFailed => "NvidiaInspectionFailed"@,
        DiagnosticCode::NvidiaInspectionTimedOut => "NvidiaInspectionTimedOut"@,
        DiagnosticCode::ComputeCapabilityUnknown => "ComputeCapabilityUnknown"@,
        DiagnosticCode::InvalidGpuSelection => "InvalidGpuSelection"@,
        DiagnosticCode::CudaVisibleDevicesSet => "CudaVisibleDevicesSet"@,
        DiagnosticCode::InconsistentDriverVersions => "InconsistentDriverVersions"@,
        DiagnosticCode::CudaToolkitNotFound => "CudaToolkitNotFound"@,
        DiagnosticCode::CudnnInspectionFailed => "CudnnInspectionFailed"@,
    }
}

/// The identifier of a diagnostic code.
pub fn diagnostic_identifier(code: DiagnosticCode) -> (name: &'static str)
    ensures
        name@ == code_identifier(code),
{
    match code {
        DiagnosticCode::UnsupportedOperatingSystem => "UnsupportedOperatingSystem",
        DiagnosticCode::UnsupportedArchitecture => "UnsupportedArchitecture",
        DiagnosticCode::UnsupportedLibc => "UnsupportedLibc",
        DiagnosticCode::GlibcUnknown => "GlibcUnknown",
        DiagnosticCode::PythonUnavailable => "PythonUnavailable",
        DiagnosticCode::UnsupportedPythonImplementation => "UnsupportedPythonImplementation",
        DiagnosticCode::BuiltinPythonTags => "BuiltinPythonTags",
        DiagnosticCode::NvidiaSmiUnavailable => "NvidiaSmiUnavailable",
        DiagnosticCode::NvidiaNoDevices => "NvidiaNoDevices",
        DiagnosticCode::NvidiaInspectionFailed => "NvidiaInspectionFailed",
        DiagnosticCode::NvidiaInspectionTimedOut => "NvidiaInspectionTimedOut",
        DiagnosticCode::ComputeCapabilityUnknown => "ComputeCapabilityUnknown",
        DiagnosticCode::InvalidGpuSelection => "InvalidGpuSelection",
        DiagnosticCode::CudaVisibleDevicesSet => "CudaVisibleDevicesSet",
        DiagnosticCode::InconsistentDriverVersions => "InconsistentDriverVersions",
        DiagnosticCode::CudaToolkitNotFound => "CudaToolkitNotFound",
        DiagnosticCode::CudnnInspectionFailed => "CudnnInspectionFailed",
    }
}

/// The identifiers of the blocking diagnostics, in the order of the diagnostics.
pub open spec fn blocking_codes(diagnostics: Seq<DiagnosticView>) -> Seq<Seq<char>>
    decreases diagnostics.len(),
{
    if diagnostics.len() == 0 {
        Seq::empty()
    } else {
        let earlier = blocking_codes(diagnostics.drop_last());
        if diagnostics.last().severity == DiagnosticSeverity::Error {
            earlier.push(code_identifier(diagnostics.last().code))
        } else {
            earlier
        }
    }
}

/// The complaint about an environment: its blocking diagnostics, each named once, in order.
pub open spec fn environment_error(environment: EnvironmentView) -> Option<ResolverErrorView> {
    let codes = blocking_codes(environment.diagnostics);
    if codes.len() == 0 {
        None
    } else {
        Some(
            ResolverErrorView::InvalidEnvironment(join(dedup(sorted_texts(codes)), ", "@)),
        )
    }
}

/// Rejects an environment with blocking diagnostics.
pub fn validate_environment(environment: &Environment) -> (result: Result<(), ResolverError>)
    ensures
        result is Ok <==> environment_error(environment.deep_view()) is None,
        result matches Err(error) ==> environment_error(environment.deep_view()) == Some(
            error.deep_view(),
        ),
{
    let ghost all = environment.deep_view().diagnostics;
    let mut codes: Vec<String> = Vec::new();
    let mut index: usize = 0;
    assert(all.take(0) =~= Seq::empty());
    assert(codes.deep_view() =~= Seq::empty());
    while index < environment.diagnostics.len()
        invariant
            all == environment.deep_view().diagnostics,
            index <= all.len(),
            codes.deep_view() == blocking_codes(all.take(index as int)),
        decreases environment.diagnostics@.len() - index,
    {
        assert(all.take(index + 1).drop_last() =~= all.take(index as int));
        assert(all.take(index + 1).last() == environment.diagnostics@[index as int].deep_view());
        let diagnostic = &environment.diagnostics[index];
        if diagnostic.severity == DiagnosticSeverity::Error {
            push_item(&mut codes, diagnostic_identifier(diagnostic.code).to_owned());
        }
        index = index + 1;
    }
    assert(all.take(index as int) =~= all);
    if codes.len() == 0 {
        return Ok(());
    }
    sort_texts(&mut codes);
    let codes = dedup_texts(&codes);
    Err(ResolverError::InvalidEnvironment(join_texts(&codes, ", ")))
}

/// A version constraint as PEP 440 specifiers: a leading `torch` is dropped, and a bare
/// version means exact equality.
pub open spec fn constraint_value(text: Seq<char>) -> Seq<char> {
    match after_prefix(trimmed(text), "torch"@) {
        Some(rest) => rest,
        None => trimmed(text),
    }
}

/// Whether `text` begins with the operator of a version specifier.
pub open spec fn begins_with_operator(text: Seq<char>) -> bool {
    text.len() > 0 && (text[0] == '<' || text[0] == '>' || text[0] == '=' || text[0] == '!'
        || text[0] == '~')
}

/// The specifiers that a version constraint stands for.
pub open spec fn constraint_specifiers(text: Seq<char>) -> Seq<char> {
    let value = constraint_value(text);
    if begins_with_operator(value) {
        value
    } else {
        "=="@ + value
    }
}

/// The specifiers of an optional version constraint, or why they are none.
pub open spec fn parsed_constraint(value: Option<Seq<char>>) -> Result<
    Option<Seq<char>>,
    ResolverErrorView,
> {
    match value {
        None => Ok(None),
        Some(text) => match pep440_specifier_error(constraint_specifiers(text)) {
            None => Ok(Some(constraint_specifiers(text))),
            Some(message) => Err(
                ResolverErrorView::InvalidVersionSpecifier { value: text, message },
            ),
        },
    }
}

/// Parses an optional version constraint.
pub fn parse_version_specifier(value: &Option<String>) -> (result: Result<
    Option<String>,
    ResolverError,
>)
    ensures
        outcome(result) == parsed_constraint(value.deep_view()),
{
    let text = match value {
        Some(text) => text,
        None => {
            return Ok(None);
        },
    };
    let bare = trim(text.as_str());
    let bound = match strip_prefix(bare.as_str(), "torch") {
        Some(rest) => rest,
        None => bare,
    };
    let chars = to_chars(bound.as_str());
    let normalized = if chars.len() > 0 && (chars[0] == '<' || chars[0] == '>' || chars[0] == '='
        || chars[0] == '!' || chars[0] == '~') {
        bound
    } else {
        concat2("==", bound.as_str())
    };
    match specifier_error(normalized.as_str()) {
        None => Ok(Some(normalized)),
        Some(message) => Err(
            ResolverError::InvalidVersionSpecifier { value: text.clone(), message },
        ),
    }
}

// ---------------------------------------------------------------------------
// One candidate

/// Whether a version satisfies an optional constraint.
pub open spec fn constraint_allows(specifiers: Option<Seq<char>>, version: Seq<char>) -> bool {
    specifiers matches Some(text) ==> pep440_contains(text, version) == Some(true)
}

/// The reasons about the version itself: how many wheels, the constraint, stability, and the
/// reviewed release configuration.
pub open spec fn version_reasons(
    include_prerelease: bool,
    rules: RuleSetView,
    specifiers: Option<Seq<char>>,
    version: Seq<char>,
    variant: CudaVariant,
    count: nat,
) -> Seq<DecisionReasonView> {
    let stable = stable_version(version);
    seq![detailed(plain_reason(ReasonCode::WheelExists), "count"@, decimal(count))] + only_if(
        specifiers is Some,
        plain_reason(
            if constraint_allows(specifiers, version) {
                ReasonCode::VersionConstraintMatches
            } else {
                ReasonCode::VersionConstraintMismatch
            },
        ),
    ) + only_if(
        stable || !include_prerelease,
        plain_reason(
            if stable {
                ReasonCode::StableRelease
            } else {
                ReasonCode::Prerelease
            },
        ),
    ) + seq![
        match preference(rules, version, variant) {
            Some(rank) => detailed(
                plain_reason(ReasonCode::OfficialReleaseConfiguration),
                "preference"@,
                decimal(rank as nat),
            ),
            None => if release_for(rules, version) is Some {
                plain_reason(ReasonCode::NotOfficialReleaseConfiguration)
            } else {
                plain_reason(ReasonCode::OfficialPreferenceUnknown)
            },
        },
    ]
}

/// The reason that a companion package is missing, if it is.
pub open spec fn companion_reason(
    environment: EnvironmentView,
    snapshot: IndexSnapshotView,
    rules: RuleSetView,
    version: Seq<char>,
    variant: CudaVariant,
    package: CompanionPackage,
) -> Seq<DecisionReasonView> {
    let missing = detailed(
        plain_reason(ReasonCode::WheelMissing),
        "package"@,
        companion_name(package),
    );
    match companion_pin(rules, package, version) {
        None => seq![detailed(missing, "version"@, "mapping_unavailable"@)],
        Some(pin) => only_if(
            !companion_available(snapshot, environment, companion_name(package), pin, variant),
            detailed(missing, "version"@, pin),
        ),
    }
}

/// The reasons about missing companion packages, in the order of the packages.
pub open spec fn companion_reasons(
    environment: EnvironmentView,
    snapshot: IndexSnapshotView,
    rules: RuleSetView,
    version: Seq<char>,
    variant: CudaVariant,
    packages: Seq<CompanionPackage>,
) -> Seq<DecisionReasonView>
    decreases packages.len(),
{
    if packages.len() == 0 {
        Seq::empty()
    } else {
        companion_reasons(
            environment,
            snapshot,
            rules,
            version,
            variant,
            packages.drop_last(),
        ) + companion_reason(environment, snapshot, rules, version, variant, packages.last())
    }
}

/// The wheel dimension.
pub open spec fn wheel_check(
    environment: EnvironmentView,
    snapshot: IndexSnapshotView,
    options: ResolverOptionsView,
    rules: RuleSetView,
    specifiers: Option<Seq<char>>,
    version: Seq<char>,
    variant: CudaVariant,
    wheels: Seq<TorchWheelView>,
) -> CompatibilityCheckView {
    let selected = platform_result(environment, python_wheels(environment.python, wheels)).1;
    let missing = if selected is Some {
        companion_reasons(
            environment,
            snapshot,
            rules,
            version,
            variant,
            members(options.companions),
        )
    } else {
        Seq::empty()
    };
    check_of(
        if !constraint_allows(specifiers, version) || (!stable_version(version)
            && !options.include_prerelease) || missing.len() > 0 {
            CheckStatus::Fail
        } else {
            CheckStatus::Pass
        },
        version_reasons(
            options.include_prerelease,
            rules,
            specifiers,
            version,
            variant,
            wheels.len(),
        ) + missing,
    )
}

/// Every dimension of a group of wheels.
pub open spec fn group_checks(
    environment: EnvironmentView,
    snapshot: IndexSnapshotView,
    options: ResolverOptionsView,
    rules: RuleSetView,
    specifiers: Option<Seq<char>>,
    version: Seq<char>,
    variant: CudaVariant,
    wheels: Seq<TorchWheelView>,
) -> CompatibilityChecksView {
    CompatibilityChecksView {
        wheel: wheel_check(
            environment,
            snapshot,
            options,
            rules,
            specifiers,
            version,
            variant,
            wheels,
        ),
        python: python_check(environment.python, wheels),
        platform: platform_result(environment, python_wheels(environment.python, wheels)).0,
        gpu_architecture: gpu_check(environment, version, variant, rules),
        driver: driver_check(environment, variant, rules),
        runtime: check_of(CheckStatus::Unknown, seq![plain_reason(ReasonCode::RuntimeNotRun)]),
    }
}

/// Whether the NVIDIA stack could not be inspected.
pub open spec fn inspection_incomplete(status: NvidiaDetectionStatus) -> bool {
    status == NvidiaDetectionStatus::CommandUnavailable || status == NvidiaDetectionStatus::Failed
        || status == NvidiaDetectionStatus::TimedOut
}

/// The warnings of a candidate, in ascending order of their codes.
pub open spec fn group_warnings(
    environment: EnvironmentView,
    metadata: MetadataInfoView,
    rules: RuleSetView,
    checks: CompatibilityChecksView,
    version: Seq<char>,
    variant: CudaVariant,
) -> Seq<CandidateWarningView> {
    let unranked = preference(rules, version, variant) is None;
    let reviewed = release_for(rules, version) is Some;
    only_if(
        has_reason(checks.driver, ReasonCode::UsesCudaMinorCompatibility),
        plain_warning(WarningCode::PtxOrNewDriverFeatureMayFail),
    ) + only_if(
        checks.gpu_architecture.status == CheckStatus::Unknown,
        plain_warning(WarningCode::GpuArchitectureUnknown),
    ) + only_if(metadata_old(metadata), plain_warning(WarningCode::StaleMetadata)) + only_if(
        inspection_incomplete(environment.nvidia.status) && variant is Cuda,
        plain_warning(WarningCode::NvidiaDetectionIncomplete),
    ) + only_if(
        unranked && !reviewed,
        plain_warning(WarningCode::OfficialPreferenceUnknown),
    ) + only_if(
        unranked && reviewed,
        plain_warning(WarningCode::NotOfficialReleaseConfiguration),
    )
}

/// The candidate that a group of wheels of one version and variant makes.
pub open spec fn group_candidate(
    environment: EnvironmentView,
    snapshot: IndexSnapshotView,
    metadata: MetadataInfoView,
    options: ResolverOptionsView,
    rules: RuleSetView,
    specifiers: Option<Seq<char>>,
    version: Seq<char>,
    variant: CudaVariant,
    wheels: Seq<TorchWheelView>,
) -> CandidateView {
    let checks = group_checks(
        environment,
        snapshot,
        options,
        rules,
        specifiers,
        version,
        variant,
        wheels,
    );
    CandidateView {
        torch_version: version,
        variant,
        compatibility: aggregate(checks),
        checks,
        wheel: platform_result(environment, python_wheels(environment.python, wheels)).1,
        stable: stable_version(version),
        official_preference: preference(rules, version, variant),
        warnings: group_warnings(environment, metadata, rules, checks, version, variant),
    }
}

fn allows(specifiers: &Option<String>, version: &str) -> (answer: bool)
    ensures
        answer == constraint_allows(specifiers.deep_view(), version@),
{
    match specifiers {
        None => true,
        Some(text) => match specifiers_contain(text.as_str(), version) {
            Some(answer) => answer,
            None => false,
        },
    }
}

fn find_version_reasons(
    include_prerelease: bool,
    rules: &RuleSet,
    specifiers: &Option<String>,
    version: &str,
    variant: &CudaVariant,
    count: usize,
) -> (reasons: Vec<DecisionReason>)
    ensures
        reasons.deep_view() == version_reasons(
            include_prerelease,
            rules.deep_view(),
            specifiers.deep_view(),
            version@,
            *variant,
            count as nat,
        ),
{
    let mut reasons: Vec<DecisionReason> = Vec::new();
    push_item(
        &mut reasons,
        DecisionReason::new(ReasonCode::WheelExists).with_detail(
            "count",
            decimal_text(count as u64).as_str(),
        ),
    );
    if specifiers.is_some() {
        if allows(specifiers, version) {
            push_item(&mut reasons, DecisionReason::new(ReasonCode::VersionConstraintMatches));
        } else {
            push_item(&mut reasons, DecisionReason::new(ReasonCode::VersionConstraintMismatch));
        }
    }
    if is_stable_version(version) {
        push_item(&mut reasons, DecisionReason::new(ReasonCode::StableRelease));
    } else if !include_prerelease {
        push_item(&mut reasons, DecisionReason::new(ReasonCode::Prerelease));
    }
    match rules.official_preference(version, variant) {
        Some(rank) => {
            push_item(
                &mut reasons,
                DecisionReason::new(ReasonCode::OfficialReleaseConfiguration).with_detail(
                    "preference",
                    decimal_text(rank as u64).as_str(),
                ),
            );
        },
        None => {
            if rules.release_rule(version).is_some() {
                push_item(
                    &mut reasons,
                    DecisionReason::new(ReasonCode::NotOfficialReleaseConfiguration),
                );
            } else {
                push_item(&mut reasons, DecisionReason::new(ReasonCode::OfficialPreferenceUnknown));
            }
        },
    }
    assert(reasons.deep_view() =~= version_reasons(
        include_prerelease,
        rules.deep_view(),
        specifiers.deep_view(),
        version@,
        *variant,
        count as nat,
    ));
    reasons
}

fn find_companion_reasons(
    environment: &Environment,
    snapshot: &IndexSnapshot,
    rules: &RuleSet,
    version: &str,
    variant: &CudaVariant,
    companions: &CompanionSet,
) -> (reasons: Vec<DecisionReason>)
    ensures
        reasons.deep_view() == companion_reasons(
            environment.deep_view(),
            snapshot.deep_view(),
            rules.deep_view(),
            version@,
            *variant,
            members(*companions),
        ),
{
    let packages = companions.members();
    let mut reasons: Vec<DecisionReason> = Vec::new();
    let mut index: usize = 0;
    assert(packages@.take(0) =~= Seq::empty());
    assert(reasons.deep_view() =~= Seq::empty());
    while index < packages.len()
        invariant
            index <= packages@.len(),
            reasons.deep_view() == companion_reasons(
                environment.deep_view(),
                snapshot.deep_view(),
                rules.deep_view(),
                version@,
                *variant,
                packages@.take(index as int),
            ),
        decreases packages@.len() - index,
    {
        let package = packages[index];
        assert(packages@.take(index + 1).drop_last() =~= packages@.take(index as int));
        assert(packages@.take(index + 1).last() == package);
        let ghost before = reasons.deep_view();
        match companion_version(rules, package, version) {
            Err(_) => {
                push_item(
                    &mut reasons,
                    DecisionReason::new(ReasonCode::WheelMissing).with_detail(
                        "package",
                        package.as_str(),
                    ).with_detail("version", "mapping_unavailable"),
                );
            },
            Ok(pin) => {
                if !matching_companion_wheel(
                    snapshot,
                    environment,
                    package.as_str(),
                    pin.as_str(),
                    variant,
                ) {
                    push_item(
                        &mut reasons,
                        DecisionReason::new(ReasonCode::WheelMissing).with_detail(
                            "package",
                            package.as_str(),
                        ).with_detail("version", pin.as_str()),
                    );
                }
            },
        }
        assert(reasons.deep_view() =~= before + companion_reason(
            environment.deep_view(),
            snapshot.deep_view(),
            rules.deep_view(),
            version@,
            *variant,
            package,
        ));
        index = index + 1;
    }
    assert(packages@.take(index as int) =~= packages@);
    reasons
}

fn find_warnings(
    environment: &Environment,
    metadata: &MetadataInfo,
    rules: &RuleSet,
    checks: &CompatibilityChecks,
    version: &str,
    variant: &CudaVariant,
) -> (warnings: Vec<CandidateWarning>)
    ensures
        warnings.deep_view() == group_warnings(
            environment.deep_view(),
            metadata.deep_view(),
            rules.deep_view(),
            checks.deep_view(),
            version@,
            *variant,
        ),
{
    let mut warnings: Vec<CandidateWarning> = Vec::new();
    if gives_reason(&checks.driver, ReasonCode::UsesCudaMinorCompatibility) {
        push_item(&mut warnings, CandidateWarning::new(WarningCode::PtxOrNewDriverFeatureMayFail));
    }
    if checks.gpu_architecture.status == CheckStatus::Unknown {
        push_item(&mut warnings, CandidateWarning::new(WarningCode::GpuArchitectureUnknown));
    }
    if metadata.stale || metadata.origin == MetadataOrigin::StaleIfError {
        push_item(&mut warnings, CandidateWarning::new(WarningCode::StaleMetadata));
    }
    if (environment.nvidia.status == NvidiaDetectionStatus::CommandUnavailable
        || environment.nvidia.status == NvidiaDetectionStatus::Failed || environment.nvidia.status
        == NvidiaDetectionStatus::TimedOut) && variant.is_cuda() {
        push_item(&mut warnings, CandidateWarning::new(WarningCode::NvidiaDetectionIncomplete));
    }
    if rules.official_preference(version, variant).is_none() {
        if rules.release_rule(version).is_some() {
            push_item(
                &mut warnings,
                CandidateWarning::new(WarningCode::NotOfficialReleaseConfiguration),
            );
        } else {
            push_item(&mut warnings, CandidateWarning::new(WarningCode::OfficialPreferenceUnknown));
        }
    }
    assert(warnings.deep_view() =~= group_warnings(
        environment.deep_view(),
        metadata.deep_view(),
        rules.deep_view(),
        checks.deep_view(),
        version@,
        *variant,
    ));
    warnings
}

/// Evaluates every dimension of a group of wheels of one version and variant.
pub fn evaluate_group(
    environment: &Environment,
    snapshot: &IndexSnapshot,
    metadata: &MetadataInfo,
    options: &ResolverOptions,
    rules: &RuleSet,
    specifiers: &Option<String>,
    version: &str,
    variant: &CudaVariant,
    wheels: &Vec<&TorchWheel>,
) -> (result: Result<Candidate, ResolverError>)
    ensures
        outcome(result) == (if is_pep440(version@) {
            Ok(
                group_candidate(
                    environment.deep_view(),
                    snapshot.deep_view(),
                    metadata.deep_view(),
                    options.deep_view(),
                    rules.deep_view(),
                    specifiers.deep_view(),
                    version@,
                    *variant,
                    wheels.deep_view(),
                ),
            )
        } else {
            Err(ResolverErrorView::InvalidWheelVersion(version@))
        }),
{
    if normalize_version(version).is_none() {
        return Err(ResolverError::InvalidWheelVersion(version.to_owned()));
    }
    let stable = is_stable_version(version);
    let mut wheel_reasons = find_version_reasons(
        options.include_prerelease,
        rules,
        specifiers,
        version,
        variant,
        wheels.len(),
    );
    let ghost first_reasons = wheel_reasons.deep_view();
    let python = python_of(environment);
    let (python_result, matching) = evaluate_python(python, wheels);
    let (platform, selected) = evaluate_platform(environment, &matching);
    let mut missing: Vec<DecisionReason> = Vec::new();
    if selected.is_some() {
        missing = find_companion_reasons(
            environment,
            snapshot,
            rules,
            version,
            variant,
            &options.companions,
        );
    }
    let ghost missing_reasons = missing.deep_view();
    let wheel_status = if !allows(specifiers, version) || (!stable && !options.include_prerelease)
        || missing.len() > 0 {
        CheckStatus::Fail
    } else {
        CheckStatus::Pass
    };
    wheel_reasons.append(&mut missing);
    assert(wheel_reasons.deep_view() =~= first_reasons + missing_reasons);
    let checks = CompatibilityChecks {
        wheel: CompatibilityCheck::new(wheel_status, wheel_reasons),
        python: python_result,
        platform,
        gpu_architecture: evaluate_gpu_architecture(environment, version, variant, rules),
        driver: evaluate_driver(environment, variant, rules),
        runtime: CompatibilityCheck::because(
            CheckStatus::Unknown,
            DecisionReason::new(ReasonCode::RuntimeNotRun),
        ),
    };
    assert(checks.deep_view().wheel == wheel_check(
        environment.deep_view(),
        snapshot.deep_view(),
        options.deep_view(),
        rules.deep_view(),
        specifiers.deep_view(),
        version@,
        *variant,
        wheels.deep_view(),
    )) by {
        if selected.is_none() {
            assert(missing_reasons =~= Seq::empty());
        }
    }
    let compatibility = aggregate_status(&checks);
    let warnings = find_warnings(environment, metadata, rules, &checks, version, variant);
    let wheel = match selected {
        Some(wheel) => Some(wheel.clone()),
        None => None,
    };
    Ok(
        Candidate {
            torch_version: version.to_owned(),
            variant: *variant,
            compatibility,
            checks,
            wheel,
            stable,
            official_preference: rules.official_preference(version, variant),
            warnings,
        },
    )
}

// ---------------------------------------------------------------------------
// Ranking

/// The order of wheel variants: CPU first, then by CUDA version.
pub open spec fn variant_order(left: CudaVariant, right: CudaVariant) -> Order {
    match (left, right) {
        (CudaVariant::Cpu, CudaVariant::Cpu) => Order::Equal,
        (CudaVariant::Cpu, CudaVariant::Cuda { .. }) => Order::Less,
        (CudaVariant::Cuda { .. }, CudaVariant::Cpu) => Order::Greater,
        (
            CudaVariant::Cuda { major: a, minor: b },
            CudaVariant::Cuda { major: c, minor: d },
        ) => order_chain(int_order(a as int, c as int), int_order(b as int, d as int)),
    }
}

/// Orders wheel variants.
pub fn order_variants(left: &CudaVariant, right: &CudaVariant) -> (order: Order)
    ensures
        order == variant_order(*left, *right),
{
    match (left, right) {
        (CudaVariant::Cpu, CudaVariant::Cpu) => Order::Equal,
        (CudaVariant::Cpu, CudaVariant::Cuda { .. }) => Order::Less,
        (CudaVariant::Cuda { .. }, CudaVariant::Cpu) => Order::Greater,
        (
            CudaVariant::Cuda { major: a, minor: b },
            CudaVariant::Cuda { major: c, minor: d },
        ) => chain(order_u64(*a as u64, *c as u64), order_u64(*b as u64, *d as u64)),
    }
}

fn chain(first: Order, second: Order) -> (order: Order)
    ensures
        order == order_chain(first, second),
{
    if first == Order::Equal {
        second
    } else {
        first
    }
}

/// Newer versions first; versions that are not PEP 440 compare as text.
pub open spec fn newer_first(left: Seq<char>, right: Seq<char>) -> Order {
    match pep440_order(right, left) {
        Some(order) => order,
        None => text_order(right, left),
    }
}

/// Whether the order of `left` and `right` by age fits that of other versions: exchanging the two
/// reverses it, and what is not before one of them is not before what that one is not before.
pub open spec fn ages_fit(left: Seq<char>, right: Seq<char>) -> bool {
    is_pep440(left) && is_pep440(right) ==> {
        &&& newer_first(right, left) == flip(newer_first(left, right))
        &&& forall|third: Seq<char>| #[trigger]
            is_pep440(third) ==> orders_follow(
                newer_first(left, right),
                newer_first(right, third),
                newer_first(left, third),
            ) && orders_follow(
                newer_first(right, left),
                newer_first(left, third),
                newer_first(right, third),
            )
    }
}

/// Orders versions, newer ones first.
pub fn compare_versions_desc(left: &str, right: &str) -> (order: Order)
    ensures
        order == newer_first(left@, right@),
        ages_fit(left@, right@),
{
    match order_versions(right, left) {
        Some(order) => order,
        None => order_texts(right, left),
    }
}

/// One where a candidate is for the wanted kind of device, zero where it is not.
pub open spec fn device_rank(candidate: CandidateView, nvidia_detected: bool) -> int {
    if (candidate.variant is Cuda) == nvidia_detected {
        1
    } else {
        0
    }
}

/// The rank of a candidate's state; more is better.
pub open spec fn state_rank(status: CompatibilityStatus) -> int {
    match status {
        CompatibilityStatus::Verified => 5,
        CompatibilityStatus::DirectCompatible => 4,
        CompatibilityStatus::MinorCompatible => 3,
        CompatibilityStatus::Unverified => 2,
        CompatibilityStatus::Incompatible => 1,
        CompatibilityStatus::Unavailable => 0,
    }
}

/// The rank of a release preference; less is better, and none comes last.
pub open spec fn preference_rank(candidate: CandidateView) -> int {
    match candidate.official_preference {
        Some(rank) => rank as int,
        None => u16::MAX as int,
    }
}

/// The order in which candidates are listed: stable releases first; without a usable NVIDIA
/// device CPU wheels before CUDA wheels; newer versions first; with one CUDA wheels before
/// CPU wheels; then by state, by release preference, and by variant.
pub open spec fn candidate_order(
    left: CandidateView,
    right: CandidateView,
    nvidia_detected: bool,
) -> Order {
    let stability = int_order(
        if right.stable {
            1
        } else {
            0
        },
        if left.stable {
            1
        } else {
            0
        },
    );
    let device = int_order(
        device_rank(right, nvidia_detected),
        device_rank(left, nvidia_detected),
    );
    let age = newer_first(left.torch_version, right.torch_version);
    let rest = order_chain(
        int_order(state_rank(right.compatibility), state_rank(left.compatibility)),
        order_chain(
            int_order(preference_rank(left), preference_rank(right)),
            variant_order(left.variant, right.variant),
        ),
    );
    order_chain(
        stability,
        if nvidia_detected {
            order_chain(age, order_chain(device, rest))
        } else {
            order_chain(device, order_chain(age, rest))
        },
    )
}

/// Whether `left` is listed after `right`.
pub open spec fn candidate_after(nvidia_detected: bool) -> spec_fn(
    CandidateView,
    CandidateView,
) -> bool {
    |left: CandidateView, right: CandidateView|
        candidate_order(left, right, nvidia_detected) == Order::Greater
}

/// Whether a usable NVIDIA device was found.
pub open spec fn nvidia_usable(environment: EnvironmentView) -> bool {
    environment.nvidia.status == NvidiaDetectionStatus::Detected && environment.nvidia.gpus.len()
        > 0 && environment.nvidia.driver_version is Some
}

/// One where a candidate is for the wanted kind of device, zero where it is not.
pub fn accelerator_rank(candidate: &Candidate, nvidia_detected: bool) -> (rank: u8)
    ensures
        rank == device_rank(candidate.deep_view(), nvidia_detected),
{
    if candidate.variant.is_cuda() == nvidia_detected {
        1
    } else {
        0
    }
}

/// The rank of a candidate's state; more is better.
pub fn compatibility_rank(candidate: &Candidate) -> (rank: u8)
    ensures
        rank == state_rank(candidate.compatibility),
{
    match candidate.compatibility {
        CompatibilityStatus::Verified => 5,
        CompatibilityStatus::DirectCompatible => 4,
        CompatibilityStatus::MinorCompatible => 3,
        CompatibilityStatus::Unverified => 2,
        CompatibilityStatus::Incompatible => 1,
        CompatibilityStatus::Unavailable => 0,
    }
}

/// Whether the order of `left` and `right` fits that of other candidates, as far as these have
/// PEP 440 versions: exchanging the two reverses it, and what neither is after is in order too.
pub open spec fn ranks_fit(
    left: CandidateView,
    right: CandidateView,
    nvidia_detected: bool,
) -> bool {
    is_pep440(left.torch_version) && is_pep440(right.torch_version) ==> {
        &&& candidate_order(right, left, nvidia_detected) == flip(
            candidate_order(left, right, nvidia_detected),
        )
        &&& forall|third: CandidateView| #[trigger]
            is_pep440(third.torch_version) ==> passes_on(left, right, third, nvidia_detected)
                && passes_on(right, left, third, nvidia_detected)
    }
}

/// Whether `first` is not after `third` where it is not after `second`, and `second` not after
/// `third`.
pub open spec fn passes_on(
    first: CandidateView,
    second: CandidateView,
    third: CandidateView,
    nvidia_detected: bool,
) -> bool {
    candidate_order(first, second, nvidia_detected) != Order::Greater && candidate_order(
        second,
        third,
        nvidia_detected,
    ) != Order::Greater ==> candidate_order(first, third, nvidia_detected) != Order::Greater
}

proof fn ages_fit_ranks(left: CandidateView, right: CandidateView, nvidia_detected: bool)
    requires
        ages_fit(left.torch_version, right.torch_version),
    ensures
        ranks_fit(left, right, nvidia_detected),
{
    if is_pep440(left.torch_version) && is_pep440(right.torch_version) {
        assert forall|third: CandidateView| #[trigger]
            is_pep440(third.torch_version) implies passes_on(left, right, third, nvidia_detected)
            && passes_on(right, left, third, nvidia_detected) by {}
    }
}

fn order_candidates(left: &Candidate, right: &Candidate, nvidia_detected: bool) -> (order: Order)
    ensures
        order == candidate_order(left.deep_view(), right.deep_view(), nvidia_detected),
        ranks_fit(left.deep_view(), right.deep_view(), nvidia_detected),
        ages_fit(left.torch_version@, right.torch_version@),
{
    let left_stable: u64 = if left.stable {
        1
    } else {
        0
    };
    let right_stable: u64 = if right.stable {
        1
    } else {
        0
    };
    let stability = order_u64(right_stable, left_stable);
    let device = order_u64(
        accelerator_rank(right, nvidia_detected) as u64,
        accelerator_rank(left, nvidia_detected) as u64,
    );
    let age = compare_versions_desc(left.torch_version.as_str(), right.torch_version.as_str());
    proof {
        ages_fit_ranks(left.deep_view(), right.deep_view(), nvidia_detected);
    }
    let left_preference: u16 = match left.official_preference {
        Some(rank) => rank,
        None => u16::MAX,
    };
    let right_preference: u16 = match right.official_preference {
        Some(rank) => rank,
        None => u16::MAX,
    };
    let rest = chain(
        order_u64(compatibility_rank(right) as u64, compatibility_rank(left) as u64),
        chain(
            order_u64(left_preference as u64, right_preference as u64),
            order_variants(&left.variant, &right.variant),
        ),
    );
    chain(
        stability,
        if nvidia_detected {
            chain(age, chain(device, rest))
        } else {
            chain(device, chain(age, rest))
        },
    )
}

/// Whether each candidate has a PEP 440 version.
pub open spec fn all_versions(candidates: Seq<CandidateView>) -> bool {
    forall|i: int| 0 <= i < candidates.len() ==> is_pep440((#[trigger] candidates[i]).torch_version)
}

proof fn fitting_neighbours_are_sorted(
    candidates: Seq<CandidateView>,
    nvidia_detected: bool,
    low: int,
    high: int,
)
    requires
        all_versions(candidates),
        0 <= low < high < candidates.len(),
        forall|i: int, j: int| #![trigger candidates[i], candidates[j]]
            0 <= i && j == i + 1 && j < candidates.len() ==> ranks_fit(
                candidates[i],
                candidates[j],
                nvidia_detected,
            ) && candidate_order(candidates[i], candidates[j], nvidia_detected) != Order::Greater,
    ensures
        candidate_order(candidates[low], candidates[high], nvidia_detected) != Order::Greater,
    decreases high - low,
{
    let next = low + 1;
    assert(ranks_fit(candidates[low], candidates[next], nvidia_detected));
    if next < high {
        fitting_neighbours_are_sorted(candidates, nvidia_detected, next, high);
        assert(is_pep440(candidates[high].torch_version));
        assert(passes_on(candidates[low], candidates[next], candidates[high], nvidia_detected));
    }
}

proof fn equal_versions_between_others(
    candidates: Seq<CandidateView>,
    nvidia_detected: bool,
    low: int,
    high: int,
)
    requires
        all_versions(candidates),
        all_sorted(candidates, candidate_after(nvidia_detected)),
        0 <= low < high < candidates.len(),
        ages_fit(candidates[low].torch_version, candidates[low + 1].torch_version),
        candidates[low].torch_version == candidates[high].torch_version,
        candidates[low].stable == candidates[high].stable,
        nvidia_detected || (candidates[low].variant is Cuda) == (candidates[high].variant is Cuda),
    ensures
        newer_first(candidates[low].torch_version, candidates[high].torch_version) == Order::Equal,
{
    let next = low + 1;
    if next < high {
        let after = candidate_after(nvidia_detected);
        let between = candidates[next];
        assert(!after(candidates[low], between));
        assert(!after(between, candidates[high]));
        assert(is_pep440(candidates[low].torch_version) && is_pep440(between.torch_version));
        assert(is_pep440(candidates[high].torch_version));
    }
}

proof fn sorted_candidates_are_listed_by_rank(
    candidates: Seq<CandidateView>,
    nvidia_detected: bool,
)
    requires
        all_versions(candidates),
        all_sorted(candidates, candidate_after(nvidia_detected)),
        forall|i: int, j: int| #![trigger candidates[i], candidates[j]]
            0 <= i && j == i + 1 && j < candidates.len() ==> ages_fit(
                candidates[i].torch_version,
                candidates[j].torch_version,
            ),
    ensures
        listed_by_rank(candidates, nvidia_detected),
{
    let after = candidate_after(nvidia_detected);
    assert forall|i: int, j: int| #![trigger candidates[i], candidates[j]]
        0 <= i < j < candidates.len() implies rightly_before(
        candidates[i],
        candidates[j],
        nvidia_detected,
    ) by {
        let next = i + 1;
        assert(ages_fit(candidates[i].torch_version, candidates[next].torch_version));
        if candidates[i].torch_version == candidates[j].torch_version && candidates[i].stable
            == candidates[j].stable && (nvidia_detected || (candidates[i].variant is Cuda) == (
        candidates[j].variant is Cuda)) {
            equal_versions_between_others(candidates, nvidia_detected, i, j);
        }
        assert(!after(candidates[i], candidates[j]));
        candidates_are_ranked_by_their_fields(candidates[i], candidates[j], nvidia_detected);
    }
}

/// Sorts candidates into the order in which they are listed. Where all have PEP 440 versions, none
/// comes after one that it is listed before, and what their fields say of each two is heeded.
pub fn sort_candidates(candidates: &mut Vec<Candidate>, environment: &Environment)
    ensures
        final(candidates).deep_view() == sort_by(
            old(candidates).deep_view(),
            candidate_after(nvidia_usable(environment.deep_view())),
        ),
        all_versions(old(candidates).deep_view()) ==> all_sorted(
            final(candidates).deep_view(),
            candidate_after(nvidia_usable(environment.deep_view())),
        ),
        all_versions(old(candidates).deep_view()) ==> listed_by_rank(
            final(candidates).deep_view(),
            nvidia_usable(environment.deep_view()),
        ),
{
    let ghost given = candidates.deep_view();
    let detected = environment.nvidia.status == NvidiaDetectionStatus::Detected
        && environment.nvidia.gpus.len() > 0 && environment.nvidia.driver_version.is_some();
    let after = |a: &Candidate, b: &Candidate| -> (follows: bool)
        ensures
            follows == (candidate_order(a.deep_view(), b.deep_view(), detected) == Order::Greater),
            ranks_fit(a.deep_view(), b.deep_view(), detected),
            ages_fit(a.torch_version@, b.torch_version@),
        { order_candidates(a, b, detected) == Order::Greater };
    sort_values(candidates, after, Ghost(candidate_after(detected)));
    proof {
        let held = candidates@;
        let sorted = candidates.deep_view();
        sort_keeps_items(given, candidate_after(detected));
        if all_versions(given) {
            same_items_have_versions(given, sorted);
            assert forall|i: int, j: int| #![trigger sorted[i], sorted[j]]
                0 <= i && j == i + 1 && j < sorted.len() implies ranks_fit(
                sorted[i],
                sorted[j],
                detected,
            ) && ages_fit(sorted[i].torch_version, sorted[j].torch_version) && candidate_order(
                sorted[i],
                sorted[j],
                detected,
            ) != Order::Greater by {
                assert(sorted[i] == held[i].deep_view() && sorted[j] == held[j].deep_view());
                assert(compared(after, held[i], held[j]));
                assert(is_pep440(sorted[i].torch_version) && is_pep440(sorted[j].torch_version));
            }
            assert forall|i: int, j: int| #![trigger sorted[i], sorted[j]]
                0 <= i < j < sorted.len() implies !candidate_after(detected)(
                sorted[i],
                sorted[j],
            ) by {
                fitting_neighbours_are_sorted(sorted, detected, i, j);
            }
            sorted_candidates_are_listed_by_rank(sorted, detected);
        }
    }
}

proof fn same_items_have_versions(given: Seq<CandidateView>, sorted: Seq<CandidateView>)
    requires
        given.to_multiset() == sorted.to_multiset(),
        all_versions(given),
    ensures
        all_versions(sorted),
{
    broadcast use vstd::seq_lib::group_to_multiset_ensures;

    assert forall|i: int| 0 <= i < sorted.len() implies is_pep440(
        (#[trigger] sorted[i]).torch_version,
    ) by {
        assert(sorted.contains(sorted[i]));
        assert(sorted.to_multiset().count(sorted[i]) > 0);
        assert(given.to_multiset().count(sorted[i]) > 0);
        assert(given.contains(sorted[i]));
    }
}

/// Whether a candidate is a reviewed CUDA configuration that passed every static check.
pub open spec fn eligible_cuda(candidate: CandidateView) -> bool {
    candidate.variant is Cuda && candidate.official_preference is Some && (candidate.compatibility
        == CompatibilityStatus::Verified || candidate.compatibility
        == CompatibilityStatus::DirectCompatible || candidate.compatibility
        == CompatibilityStatus::MinorCompatible)
}

/// Whether a candidate is a reviewed CPU configuration that passed every static check.
pub open spec fn eligible_cpu(candidate: CandidateView) -> bool {
    candidate.variant is Cpu && candidate.official_preference is Some && (candidate.compatibility
        == CompatibilityStatus::Verified || candidate.compatibility
        == CompatibilityStatus::DirectCompatible)
}

/// Whether a candidate is a reviewed CUDA configuration that passed every static check.
pub fn is_eligible_cuda_recommendation(candidate: &Candidate) -> (answer: bool)
    ensures
        answer == eligible_cuda(candidate.deep_view()),
{
    candidate.variant.is_cuda() && candidate.official_preference.is_some() && (
    candidate.compatibility == CompatibilityStatus::Verified || candidate.compatibility
        == CompatibilityStatus::DirectCompatible || candidate.compatibility
        == CompatibilityStatus::MinorCompatible)
}

/// Whether a candidate is a reviewed CPU configuration that passed every static check.
pub fn is_reviewed_direct_cpu(candidate: &Candidate) -> (answer: bool)
    ensures
        answer == eligible_cpu(candidate.deep_view()),
{
    !candidate.variant.is_cuda() && candidate.official_preference.is_some() && (
    candidate.compatibility == CompatibilityStatus::Verified || candidate.compatibility
        == CompatibilityStatus::DirectCompatible)
}

/// Whether nothing rules a candidate out.
pub open spec fn usable(candidate: CandidateView) -> bool {
    candidate.compatibility != CompatibilityStatus::Incompatible && candidate.compatibility
        != CompatibilityStatus::Unavailable
}

/// The place of the first candidate for which `wanted` holds.
pub open spec fn first_place(
    candidates: Seq<CandidateView>,
    wanted: spec_fn(CandidateView) -> bool,
) -> Option<nat>
    decreases candidates.len(),
{
    if candidates.len() == 0 {
        None
    } else {
        match first_place(candidates.drop_last(), wanted) {
            Some(place) => Some(place),
            None => if wanted(candidates.last()) {
                Some((candidates.len() - 1) as nat)
            } else {
                None
            },
        }
    }
}

/// The place of the recommendation among usable candidates: the first reviewed CUDA
/// configuration that passed, else the first reviewed CPU configuration that did.
pub open spec fn recommended_place(candidates: Seq<CandidateView>) -> Option<nat> {
    match first_place(candidates, |candidate: CandidateView| eligible_cuda(candidate)) {
        Some(place) => Some(place),
        None => first_place(candidates, |candidate: CandidateView| eligible_cpu(candidate)),
    }
}

proof fn first_place_decides(
    candidates: Seq<CandidateView>,
    wanted: spec_fn(CandidateView) -> bool,
    upto: int,
)
    requires
        0 < upto <= candidates.len(),
        first_place(candidates.take(upto), wanted) is Some,
    ensures
        first_place(candidates, wanted) == first_place(candidates.take(upto), wanted),
    decreases candidates.len() - upto,
{
    if upto < candidates.len() {
        assert(candidates.take(upto + 1).drop_last() =~= candidates.take(upto));
        first_place_decides(candidates, wanted, upto + 1);
    } else {
        assert(candidates.take(upto) =~= candidates);
    }
}

/// The first place holds a wanted candidate, and no candidate before it is wanted; there is
/// no place exactly where no candidate is wanted.
pub proof fn first_place_is_first(
    candidates: Seq<CandidateView>,
    wanted: spec_fn(CandidateView) -> bool,
)
    ensures
        first_place(candidates, wanted) matches Some(place) ==> place < candidates.len() && wanted(
            candidates[place as int],
        ) && forall|i: int| 0 <= i < place ==> !wanted(#[trigger] candidates[i]),
        first_place(candidates, wanted) is None ==> forall|i: int|
            0 <= i < candidates.len() ==> !wanted(#[trigger] candidates[i]),
    decreases candidates.len(),
{
    if candidates.len() > 0 {
        let head = candidates.drop_last();
        first_place_is_first(head, wanted);
        assert forall|i: int| 0 <= i < head.len() implies head[i] == #[trigger] candidates[i] by {}
    }
}

fn find_recommended(candidates: &Vec<Candidate>, cuda: bool) -> (place: Option<usize>)
    ensures
        (match place {
            Some(number) => Some(number as nat),
            None => None,
        }) == (if cuda {
            first_place(
                candidates.deep_view(),
                |candidate: CandidateView| eligible_cuda(candidate),
            )
        } else {
            first_place(
                candidates.deep_view(),
                |candidate: CandidateView| eligible_cpu(candidate),
            )
        }),
        place matches Some(number) ==> number < candidates@.len(),
{
    let ghost all = candidates.deep_view();
    let ghost by_cuda = |candidate: CandidateView| eligible_cuda(candidate);
    let ghost by_cpu = |candidate: CandidateView| eligible_cpu(candidate);
    let ghost wanted = if cuda {
        by_cuda
    } else {
        by_cpu
    };
    let mut index: usize = 0;
    while index < candidates.len()
        invariant
            all == candidates.deep_view(),
            by_cuda == (|candidate: CandidateView| eligible_cuda(candidate)),
            by_cpu == (|candidate: CandidateView| eligible_cpu(candidate)),
            wanted == (if cuda {
                by_cuda
            } else {
                by_cpu
            }),
            index <= all.len(),
            first_place(all.take(index as int), wanted) is None,
        decreases candidates@.len() - index,
    {
        assert(all.take(index + 1).drop_last() =~= all.take(index as int));
        assert(all.take(index + 1).last() == candidates@[index as int].deep_view());
        let found = if cuda {
            is_eligible_cuda_recommendation(&candidates[index])
        } else {
            is_reviewed_direct_cpu(&candidates[index])
        };
        if found {
            proof {
                first_place_decides(all, wanted, index + 1);
            }
            return Some(index);
        }
        index = index + 1;
    }
    assert(all.take(index as int) =~= all);
    None
}

// ---------------------------------------------------------------------------
// Install commands

/// The text of an interpreter path, where it can stand in a command.
pub open spec fn path_text(path: FilePathView) -> Result<Seq<char>, ResolverErrorView> {
    if !path.utf8 {
        Err(ResolverErrorView::NonUtf8PythonPath)
    } else if exists|i: int|
        0 <= i < path.text.len() && unsafe_terminal_character(#[trigger] path.text[i]) {
        Err(ResolverErrorView::UnsafePythonPath)
    } else {
        Ok(path.text)
    }
}

/// The text of an interpreter path, where it can stand in a command.
pub fn path_to_string(path: &FilePath) -> (result: Result<String, ResolverError>)
    ensures
        outcome(result) == path_text(path.deep_view()),
{
    if !path.utf8 {
        return Err(ResolverError::NonUtf8PythonPath);
    }
    let chars = to_chars(path.text.as_str());
    let mut index: usize = 0;
    while index < chars.len()
        invariant
            chars@ == path.text@,
            path.utf8,
            index <= chars@.len(),
            forall|i: int| 0 <= i < index ==> !unsafe_terminal_character(#[trigger] path.text@[i]),
        decreases chars@.len() - index,
    {
        if is_unsafe_terminal_character(chars[index]) {
            assert(unsafe_terminal_character(path.deep_view().text[index as int]));
            return Err(ResolverError::UnsafePythonPath);
        }
        index = index + 1;
    }
    Ok(path.text.clone())
}

/// A command line as a POSIX shell reads it: each part one word.
pub open spec fn shell_line(program: Seq<char>, args: Seq<Seq<char>>) -> Seq<char>
    decreases args.len(),
{
    if args.len() == 0 {
        shell_word(program)
    } else {
        shell_line(program, args.drop_last()) + " "@ + shell_word(args.last())
    }
}

/// Renders a command for a POSIX shell.
pub fn shell_display(program: &str, args: &Vec<String>) -> (line: String)
    ensures
        line@ == shell_line(program@, args.deep_view()),
{
    let ghost all = args.deep_view();
    let mut line = escape_word(program);
    let mut index: usize = 0;
    assert(all.take(0) =~= Seq::empty());
    while index < args.len()
        invariant
            all == args.deep_view(),
            index <= all.len(),
            line@ == shell_line(program@, all.take(index as int)),
        decreases args@.len() - index,
    {
        assert(all.take(index + 1).drop_last() =~= all.take(index as int));
        assert(all.take(index + 1).last() == args@[index as int]@);
        line.append(" ");
        line.append(escape_word(args[index].as_str()).as_str());
        index = index + 1;
    }
    assert(all.take(index as int) =~= all);
    line
}

/// The pinned requirements of companion packages, or the first package without a pin.
pub open spec fn companion_pins(
    rules: RuleSetView,
    version: Seq<char>,
    packages: Seq<CompanionPackage>,
) -> Result<Seq<Seq<char>>, ResolverErrorView>
    decreases packages.len(),
{
    if packages.len() == 0 {
        Ok(Seq::empty())
    } else {
        match companion_pins(rules, version, packages.drop_last()) {
            Err(error) => Err(error),
            Ok(pins) => match companion_pin(rules, packages.last(), version) {
                Some(pin) => Ok(pins.push(pin)),
                None => Err(mapping_missing(packages.last(), version)),
            },
        }
    }
}

/// The first of the leading `upto` companion packages whose pinned wheel is not available.
pub open spec fn unavailable_companion(
    snapshot: IndexSnapshotView,
    environment: EnvironmentView,
    variant: CudaVariant,
    packages: Seq<CompanionPackage>,
    pins: Seq<Seq<char>>,
    upto: nat,
) -> Option<CompanionPackage>
    decreases upto,
{
    if upto == 0 {
        None
    } else {
        match unavailable_companion(
            snapshot,
            environment,
            variant,
            packages,
            pins,
            (upto - 1) as nat,
        ) {
            Some(package) => Some(package),
            None => if companion_available(
                snapshot,
                environment,
                companion_name(packages[upto - 1]),
                pins[upto - 1],
                variant,
            ) {
                None
            } else {
                Some(packages[upto - 1])
            },
        }
    }
}

/// The requirements to install: PyTorch, then the companion packages, each pinned.
pub open spec fn requirements(
    version: Seq<char>,
    packages: Seq<CompanionPackage>,
    pins: Seq<Seq<char>>,
) -> Seq<Seq<char>> {
    seq!["torch=="@ + version] + Seq::new(
        pins.len(),
        |i: int| companion_name(packages[i]) + "=="@ + pins[i],
    )
}

/// The program and arguments that install `wanted` for an interpreter.
pub open spec fn install_parts(
    installer: Installer,
    python: Seq<char>,
    index_url: Seq<char>,
    wanted: Seq<Seq<char>>,
) -> (Seq<char>, Seq<Seq<char>>) {
    match installer {
        Installer::Pip => (
            python,
            seq!["-m"@, "pip"@, "install"@, "--isolated"@, "--index-url"@, index_url] + wanted,
        ),
        Installer::Uv => (
            "uv"@,
            seq!["pip"@, "install"@, "--python"@, python, "--default-index"@, index_url] + wanted,
        ),
        Installer::UvAdd => (
            "uv"@,
            seq!["add"@, "--python"@, python, "--index"@, "pytorch="@ + index_url] + wanted,
        ),
    }
}

/// The address of a variant's wheel index.
pub open spec fn index_address(variant: CudaVariant) -> Seq<char> {
    "https://download.pytorch.org/whl/"@ + variant_text(variant)
}

/// The install command of a candidate, or why there is none.
pub open spec fn install_command(
    environment: EnvironmentView,
    snapshot: IndexSnapshotView,
    candidate: CandidateView,
    options: ResolverOptionsView,
    rules: RuleSetView,
) -> Result<CommandSpecView, ResolverErrorView> {
    let packages = members(options.companions);
    match environment.python {
        None => Err(ResolverErrorView::PythonRequired),
        Some(python) => match path_text(python.executable) {
            Err(error) => Err(error),
            Ok(executable) => match companion_pins(rules, candidate.torch_version, packages) {
                Err(error) => Err(error),
                Ok(pins) => match unavailable_companion(
                    snapshot,
                    environment,
                    candidate.variant,
                    packages,
                    pins,
                    packages.len(),
                ) {
                    Some(package) => Err(mapping_missing(package, candidate.torch_version)),
                    None => {
                        let parts = install_parts(
                            options.installer,
                            executable,
                            index_address(candidate.variant),
                            requirements(candidate.torch_version, packages, pins),
                        );
                        Ok(
                            CommandSpecView {
                                program: parts.0,
                                args: parts.1,
                                display: shell_line(parts.0, parts.1),
                            },
                        )
                    },
                },
            },
        },
    }
}

proof fn pins_decide(
    rules: RuleSetView,
    version: Seq<char>,
    packages: Seq<CompanionPackage>,
    upto: int,
)
    requires
        0 < upto <= packages.len(),
        companion_pins(rules, version, packages.take(upto)) is Err,
    ensures
        companion_pins(rules, version, packages) == companion_pins(
            rules,
            version,
            packages.take(upto),
        ),
    decreases packages.len() - upto,
{
    if upto < packages.len() {
        assert(packages.take(upto + 1).drop_last() =~= packages.take(upto));
        pins_decide(rules, version, packages, upto + 1);
    } else {
        assert(packages.take(upto) =~= packages);
    }
}

fn find_pins(rules: &RuleSet, version: &str, packages: &Vec<CompanionPackage>) -> (result: Result<
    Vec<String>,
    ResolverError,
>)
    ensures
        outcome(result) == companion_pins(rules.deep_view(), version@, packages@),
        result matches Ok(pins) ==> pins@.len() == packages@.len(),
{
    let mut pins: Vec<String> = Vec::new();
    let mut index: usize = 0;
    assert(packages@.take(0) =~= Seq::empty());
    assert(pins.deep_view() =~= Seq::empty());
    while index < packages.len()
        invariant
            index <= packages@.len(),
            pins@.len() == index,
            companion_pins(rules.deep_view(), version@, packages@.take(index as int)) == Ok::<
                Seq<Seq<char>>,
                ResolverErrorView,
            >(pins.deep_view()),
        decreases packages@.len() - index,
    {
        assert(packages@.take(index + 1).drop_last() =~= packages@.take(index as int));
        assert(packages@.take(index + 1).last() == packages@[index as int]);
        match companion_version(rules, packages[index], version) {
            Ok(pin) => {
                push_item(&mut pins, pin);
            },
            Err(error) => {
                proof {
                    pins_decide(rules.deep_view(), version@, packages@, index + 1);
                }
                return Err(error);
            },
        }
        index = index + 1;
    }
    assert(packages@.take(index as int) =~= packages@);
    Ok(pins)
}

proof fn unavailable_decides(
    snapshot: IndexSnapshotView,
    environment: EnvironmentView,
    variant: CudaVariant,
    packages: Seq<CompanionPackage>,
    pins: Seq<Seq<char>>,
    low: nat,
    high: nat,
)
    requires
        low <= high,
        unavailable_companion(snapshot, environment, variant, packages, pins, low) is Some,
    ensures
        unavailable_companion(snapshot, environment, variant, packages, pins, high)
            == unavailable_companion(snapshot, environment, variant, packages, pins, low),
    decreases high,
{
    if low < high {
        unavailable_decides(
            snapshot,
            environment,
            variant,
            packages,
            pins,
            low,
            (high - 1) as nat,
        );
    }
}

fn find_unavailable(
    snapshot: &IndexSnapshot,
    environment: &Environment,
    variant: &CudaVariant,
    packages: &Vec<CompanionPackage>,
    pins: &Vec<String>,
) -> (package: Option<CompanionPackage>)
    requires
        pins@.len() == packages@.len(),
    ensures
        package == unavailable_companion(
            snapshot.deep_view(),
            environment.deep_view(),
            *variant,
            packages@,
            pins.deep_view(),
            packages@.len(),
        ),
{
    let ghost texts = pins.deep_view();
    let mut index: usize = 0;
    while index < packages.len()
        invariant
            texts == pins.deep_view(),
            pins@.len() == packages@.len(),
            index <= packages@.len(),
            unavailable_companion(
                snapshot.deep_view(),
                environment.deep_view(),
                *variant,
                packages@,
                texts,
                index as nat,
            ) is None,
        decreases packages@.len() - index,
    {
        assert(texts[index as int] == pins@[index as int]@);
        if !matching_companion_wheel(
            snapshot,
            environment,
            packages[index].as_str(),
            pins[index].as_str(),
            variant,
        ) {
            proof {
                unavailable_decides(
                    snapshot.deep_view(),
                    environment.deep_view(),
                    *variant,
                    packages@,
                    texts,
                    (index + 1) as nat,
                    packages@.len(),
                );
            }
            return Some(packages[index]);
        }
        index = index + 1;
    }
    None
}

fn write_requirements(version: &str, packages: &Vec<CompanionPackage>, pins: &Vec<String>) -> (texts:
    Vec<String>)
    requires
        pins@.len() == packages@.len(),
    ensures
        texts.deep_view() == requirements(version@, packages@, pins.deep_view()),
{
    let ghost all = requirements(version@, packages@, pins.deep_view());
    let mut texts: Vec<String> = Vec::new();
    push_item(&mut texts, concat2("torch==", version));
    let mut index: usize = 0;
    assert(texts.deep_view() =~= all.take(1));
    while index < packages.len()
        invariant
            pins@.len() == packages@.len(),
            all == requirements(version@, packages@, pins.deep_view()),
            index <= packages@.len(),
            texts.deep_view() == all.take(index + 1),
        decreases packages@.len() - index,
    {
        push_item(&mut texts, concat3(packages[index].as_str(), "==", pins[index].as_str()));
        assert(all[index + 1] == companion_name(packages@[index as int]) + "=="@
            + pins@[index as int]@);
        assert(texts.deep_view() =~= all.take(index + 2));
        index = index + 1;
    }
    assert(all.take(index + 1) =~= all);
    texts
}

fn push_text(texts: &mut Vec<String>, text: &str)
    ensures
        final(texts).deep_view() == old(texts).deep_view().push(text@),
{
    push_item(texts, text.to_owned());
}

fn write_install_parts(
    installer: Installer,
    python: String,
    index_url: String,
    wanted: Vec<String>,
) -> (parts: (String, Vec<String>))
    ensures
        parts.0@ == install_parts(installer, python@, index_url@, wanted.deep_view()).0,
        parts.1.deep_view() == install_parts(
            installer,
            python@,
            index_url@,
            wanted.deep_view(),
        ).1,
{
    let ghost expected = install_parts(installer, python@, index_url@, wanted.deep_view());
    let mut wanted = wanted;
    let ghost tail = wanted.deep_view();
    let mut args: Vec<String> = Vec::new();
    let program = match installer {
        Installer::Pip => {
            push_text(&mut args, "-m");
            push_text(&mut args, "pip");
            push_text(&mut args, "install");
            push_text(&mut args, "--isolated");
            push_text(&mut args, "--index-url");
            push_item(&mut args, index_url);
            python
        },
        Installer::Uv => {
            push_text(&mut args, "pip");
            push_text(&mut args, "install");
            push_text(&mut args, "--python");
            push_item(&mut args, python);
            push_text(&mut args, "--default-index");
            push_item(&mut args, index_url);
            "uv".to_owned()
        },
        Installer::UvAdd => {
            push_text(&mut args, "add");
            push_text(&mut args, "--python");
            push_item(&mut args, python);
            push_text(&mut args, "--index");
            push_item(&mut args, concat2("pytorch=", index_url.as_str()));
            "uv".to_owned()
        },
    };
    let ghost head = args.deep_view();
    args.append(&mut wanted);
    assert(args.deep_view() =~= head + tail);
    assert(args.deep_view() =~= expected.1);
    (program, args)
}

/// Builds the install command of a candidate.
pub fn build_install_command(
    environment: &Environment,
    snapshot: &IndexSnapshot,
    candidate: &Candidate,
    options: &ResolverOptions,
    rules: &RuleSet,
) -> (result: Result<CommandSpec, ResolverError>)
    ensures
        outcome(result) == install_command(
            environment.deep_view(),
            snapshot.deep_view(),
            candidate.deep_view(),
            options.deep_view(),
            rules.deep_view(),
        ),
{
    let python = match &environment.python {
        Some(python) => python,
        None => {
            return Err(ResolverError::PythonRequired);
        },
    };
    let executable = match path_to_string(&python.executable) {
        Ok(executable) => executable,
        Err(error) => {
            return Err(error);
        },
    };
    let index_url = concat2(
        "https://download.pytorch.org/whl/",
        candidate.variant.to_string().as_str(),
    );
    let packages = options.companions.members();
    let pins = match find_pins(rules, candidate.torch_version.as_str(), &packages) {
        Ok(pins) => pins,
        Err(error) => {
            return Err(error);
        },
    };
    if let Some(package) = find_unavailable(
        snapshot,
        environment,
        &candidate.variant,
        &packages,
        &pins,
    ) {
        return Err(
            ResolverError::CompanionMappingMissing {
                package: package.as_str(),
                torch_version: candidate.torch_version.clone(),
            },
        );
    }
    let wanted = write_requirements(candidate.torch_version.as_str(), &packages, &pins);
    let (program, args) = write_install_parts(options.installer, executable, index_url, wanted);
    let display = shell_display(program.as_str(), &args);
    Ok(CommandSpec { program, args, display })
}

// ---------------------------------------------------------------------------
// Resolution

/// The order of groups: by version text, then by variant.
pub open spec fn key_order(
    left: (Seq<char>, CudaVariant),
    right: (Seq<char>, CudaVariant),
) -> Order {
    order_chain(text_order(left.0, right.0), variant_order(left.1, right.1))
}

/// `keys` in ascending order with `key` among them, once.
pub open spec fn with_key(
    keys: Seq<(Seq<char>, CudaVariant)>,
    key: (Seq<char>, CudaVariant),
) -> Seq<(Seq<char>, CudaVariant)>
    decreases keys.len(),
{
    if keys.len() == 0 || key_order(keys.last(), key) == Order::Less {
        keys.push(key)
    } else if keys.last() == key {
        keys
    } else {
        with_key(keys.drop_last(), key).push(keys.last())
    }
}

/// The versions and variants of the `torch` wheels, in ascending order, each once.
pub open spec fn group_keys(wheels: Seq<TorchWheelView>) -> Seq<(Seq<char>, CudaVariant)>
    decreases wheels.len(),
{
    if wheels.len() == 0 {
        Seq::empty()
    } else {
        let earlier = group_keys(wheels.drop_last());
        if wheels.last().package == "torch"@ {
            with_key(earlier, (wheels.last().public_version, wheels.last().variant))
        } else {
            earlier
        }
    }
}

/// Whether the file name of `left` follows that of `right`.
pub open spec fn filename_after() -> spec_fn(TorchWheelView, TorchWheelView) -> bool {
    |left: TorchWheelView, right: TorchWheelView|
        text_order(left.filename, right.filename) == Order::Greater
}

/// The `torch` wheels of a version and variant, in the order of their file names.
pub open spec fn group_wheels(
    wheels: Seq<TorchWheelView>,
    key: (Seq<char>, CudaVariant),
) -> Seq<TorchWheelView> {
    sort_by(
        kept(
            wheels,
            |wheel: TorchWheelView|
                wheel.package == "torch"@ && wheel.public_version == key.0 && wheel.variant
                    == key.1,
        ),
        filename_after(),
    )
}

/// The candidates of the groups `keys` that the constraint allows, or the first group whose
/// version is not PEP 440.
pub open spec fn group_candidates(
    environment: EnvironmentView,
    snapshot: IndexSnapshotView,
    metadata: MetadataInfoView,
    options: ResolverOptionsView,
    rules: RuleSetView,
    specifiers: Option<Seq<char>>,
    keys: Seq<(Seq<char>, CudaVariant)>,
) -> Result<Seq<CandidateView>, ResolverErrorView>
    decreases keys.len(),
{
    if keys.len() == 0 {
        Ok(Seq::empty())
    } else {
        let key = keys.last();
        match group_candidates(
            environment,
            snapshot,
            metadata,
            options,
            rules,
            specifiers,
            keys.drop_last(),
        ) {
            Err(error) => Err(error),
            Ok(candidates) => if !is_pep440(key.0) {
                Err(ResolverErrorView::InvalidWheelVersion(key.0))
            } else if !constraint_allows(specifiers, key.0) {
                Ok(candidates)
            } else {
                Ok(
                    candidates.push(
                        group_candidate(
                            environment,
                            snapshot,
                            metadata,
                            options,
                            rules,
                            specifiers,
                            key.0,
                            key.1,
                            group_wheels(snapshot.wheels, key),
                        ),
                    ),
                )
            },
        }
    }
}

/// The recommendation and what is left of the usable candidates.
pub open spec fn recommended(candidates: Seq<CandidateView>) -> (
    Option<CandidateView>,
    Seq<CandidateView>,
) {
    match recommended_place(candidates) {
        Some(place) => (Some(candidates[place as int]), candidates.remove(place as int)),
        None => (None, candidates),
    }
}

/// The report on candidates that are already in order.
pub open spec fn report_on(
    environment: EnvironmentView,
    snapshot: IndexSnapshotView,
    metadata: MetadataInfoView,
    options: ResolverOptionsView,
    rules: RuleSetView,
    listed: Seq<CandidateView>,
) -> Result<RecommendationReportView, ResolverErrorView> {
    let choice = recommended(kept(listed, |candidate: CandidateView| usable(candidate)));
    let install: Result<Option<CommandSpecView>, ResolverErrorView> = match choice.0 {
        None => Ok(None),
        Some(candidate) => match install_command(
            environment,
            snapshot,
            candidate,
            options,
            rules,
        ) {
            Ok(command) => Ok(Some(command)),
            Err(error) => Err(error),
        },
    };
    match install {
        Err(error) => Err(error),
        Ok(command) => Ok(
            RecommendationReportView {
                schema_version: SCHEMA_VERSION,
                environment,
                metadata,
                recommendation: choice.0,
                alternatives: choice.1,
                excluded: kept(listed, |candidate: CandidateView| !usable(candidate)),
                install: command,
            },
        ),
    }
}

/// Whether the recommendation of a report ranks first: no reviewed CUDA configuration that passed
/// every static check comes before it in the order of candidates, and where it is a CPU
/// configuration, no such CPU configuration does. In that order stable releases come before
/// pre-releases, and newer versions before older ones for the same kind of device.
pub open spec fn ranks_first(report: RecommendationReportView, nvidia_detected: bool) -> bool {
    report.recommendation matches Some(best) ==> forall|i: int|
        0 <= i < report.alternatives.len() && (eligible_cuda(#[trigger] report.alternatives[i])
            || best.variant is Cpu && eligible_cpu(report.alternatives[i])) ==> candidate_order(
            best,
            report.alternatives[i],
            nvidia_detected,
        ) != Order::Greater
}

/// The candidates of a snapshot, before they are put in order.
pub open spec fn all_candidates(
    environment: EnvironmentView,
    snapshot: IndexSnapshotView,
    metadata: MetadataInfoView,
    options: ResolverOptionsView,
    rules: RuleSetView,
    specifiers: Option<Seq<char>>,
) -> Result<Seq<CandidateView>, ResolverErrorView> {
    group_candidates(
        environment,
        snapshot,
        metadata,
        options,
        rules,
        specifiers,
        group_keys(snapshot.wheels),
    )
}

/// What resolution gives.
pub open spec fn resolution(
    environment: EnvironmentView,
    snapshot: IndexSnapshotView,
    metadata: MetadataInfoView,
    options: ResolverOptionsView,
    drivers: DriverRulesView,
    releases: ReleaseRulesView,
) -> Result<RecommendationReportView, ResolverErrorView> {
    match environment_error(environment) {
        Some(error) => Err(error),
        None => match rules_error(drivers, releases) {
            Some(message) => Err(ResolverErrorView::InvalidData(message)),
            None => match parsed_constraint(options.torch_version) {
                Err(error) => Err(error),
                Ok(specifiers) => {
                    let rules = RuleSetView { drivers, releases };
                    match all_candidates(
                        environment,
                        snapshot,
                        metadata,
                        options,
                        rules,
                        specifiers,
                    ) {
                        Err(error) => Err(error),
                        Ok(candidates) => report_on(
                            environment,
                            snapshot,
                            metadata,
                            options,
                            rules,
                            sort_by(candidates, candidate_after(nvidia_usable(environment))),
                        ),
                    }
                },
            },
        },
    }
}

/// The wheels that an exact version and variant ask for, in the order of their file names.
pub open spec fn requested_wheels(
    wheels: Seq<TorchWheelView>,
    version: Seq<char>,
    variant: CudaVariant,
) -> Seq<TorchWheelView> {
    sort_by(
        kept(
            wheels,
            |wheel: TorchWheelView|
                wheel.package == "torch"@ && pep440_order(wheel.public_version, version) == Some(
                    Order::Equal,
                ) && wheel.variant == variant,
        ),
        filename_after(),
    )
}

/// What explaining an exact version and variant gives.
pub open spec fn explanation(
    environment: EnvironmentView,
    snapshot: IndexSnapshotView,
    metadata: MetadataInfoView,
    version: Seq<char>,
    variant: CudaVariant,
    options: ResolverOptionsView,
    drivers: DriverRulesView,
    releases: ReleaseRulesView,
) -> Result<CandidateView, ResolverErrorView> {
    let wheels = requested_wheels(snapshot.wheels, version, variant);
    match environment_error(environment) {
        Some(error) => Err(error),
        None => match rules_error(drivers, releases) {
            Some(message) => Err(ResolverErrorView::InvalidData(message)),
            None => match pep440_text(version) {
                None => Err(ResolverErrorView::InvalidWheelVersion(version)),
                Some(canonical) => if wheels.len() == 0 {
                    Ok(absent_candidate(canonical, variant, metadata))
                } else {
                    Ok(
                        group_candidate(
                            environment,
                            snapshot,
                            metadata,
                            options,
                            RuleSetView { drivers, releases },
                            None,
                            wheels[0].public_version,
                            variant,
                            wheels,
                        ),
                    )
                },
            },
        },
    }
}

proof fn variant_order_equal(left: CudaVariant, right: CudaVariant)
    ensures
        variant_order(left, right) == Order::Equal <==> left == right,
{
}

proof fn key_position(
    keys: Seq<(Seq<char>, CudaVariant)>,
    key: (Seq<char>, CudaVariant),
    at: int,
)
    requires
        0 <= at <= keys.len(),
        forall|k: int|
            at <= k < keys.len() ==> key_order(#[trigger] keys[k], key) == Order::Greater,
        at == 0 || key_order(keys[at - 1], key) != Order::Greater,
    ensures
        at > 0 && keys[at - 1] == key ==> with_key(keys, key) =~= keys,
        at == 0 || keys[at - 1] != key ==> with_key(keys, key) =~= keys.insert(at, key),
    decreases keys.len() - at,
{
    if at < keys.len() {
        let head = keys.drop_last();
        assert forall|k: int| at <= k < head.len() implies key_order(#[trigger] head[k], key)
            == Order::Greater by {
            assert(head[k] == keys[k]);
        }
        key_position(head, key, at);
        assert(key_order(keys[keys.len() - 1], key) == Order::Greater);
        crate::pieces::text_order_antisymmetric(keys.last().0, key.0);
        variant_order_equal(keys.last().1, key.1);
        assert(keys.last() != key);
        assert(with_key(keys, key) == with_key(head, key).push(keys.last()));
    } else if at > 0 {
        crate::pieces::text_order_antisymmetric(keys[at - 1].0, key.0);
        variant_order_equal(keys[at - 1].1, key.1);
    }
}

fn order_keys(left: &(String, CudaVariant), right: &(String, CudaVariant)) -> (order: Order)
    ensures
        order == key_order(left.deep_view(), right.deep_view()),
{
    chain(order_texts(left.0.as_str(), right.0.as_str()), order_variants(&left.1, &right.1))
}

fn insert_key(keys: &mut Vec<(String, CudaVariant)>, key: (String, CudaVariant))
    ensures
        final(keys).deep_view() == with_key(old(keys).deep_view(), key.deep_view()),
{
    let ghost before = keys.deep_view();
    let mut at: usize = keys.len();
    while at > 0 && order_keys(&keys[at - 1], &key) == Order::Greater
        invariant
            at <= keys@.len(),
            before == keys.deep_view(),
            forall|k: int|
                at <= k < before.len() ==> key_order(#[trigger] before[k], key.deep_view())
                    == Order::Greater,
        decreases at,
    {
        at = at - 1;
    }
    proof {
        key_position(before, key.deep_view(), at as int);
    }
    if at > 0 && keys[at - 1].1 == key.1 && same(keys[at - 1].0.as_str(), key.0.as_str()) {
        assert(before[at - 1] == key.deep_view());
        return ;
    }
    keys.insert(at, key);
    assert(keys.deep_view() =~= before.insert(at as int, key.deep_view()));
}

fn find_keys(wheels: &Vec<TorchWheel>) -> (keys: Vec<(String, CudaVariant)>)
    ensures
        keys.deep_view() == group_keys(wheels.deep_view()),
{
    let ghost all = wheels.deep_view();
    let mut keys: Vec<(String, CudaVariant)> = Vec::new();
    let mut index: usize = 0;
    assert(all.take(0) =~= Seq::empty());
    assert(keys.deep_view() =~= Seq::empty());
    while index < wheels.len()
        invariant
            all == wheels.deep_view(),
            index <= all.len(),
            keys.deep_view() == group_keys(all.take(index as int)),
        decreases wheels@.len() - index,
    {
        let wheel = &wheels[index];
        assert(all.take(index + 1).drop_last() =~= all.take(index as int));
        assert(all.take(index + 1).last() == wheel.deep_view());
        if same(wheel.package.as_str(), "torch") {
            insert_key(&mut keys, (wheel.public_version.clone(), wheel.variant));
        }
        index = index + 1;
    }
    assert(all.take(index as int) =~= all);
    keys
}

fn sort_by_filename<'a>(wheels: &mut Vec<&'a TorchWheel>)
    ensures
        final(wheels).deep_view() == sort_by(old(wheels).deep_view(), filename_after()),
{
    let after = |a: &&'a TorchWheel, b: &&'a TorchWheel| -> (follows: bool)
        ensures
            follows == (text_order(a.deep_view().filename, b.deep_view().filename)
                == Order::Greater),
        { order_texts(a.filename.as_str(), b.filename.as_str()) == Order::Greater };
    sort_values(wheels, after, Ghost(filename_after()));
}

fn find_group<'a>(wheels: &'a Vec<TorchWheel>, version: &str, variant: &CudaVariant) -> (group: Vec<
    &'a TorchWheel,
>)
    ensures
        group.deep_view() == group_wheels(wheels.deep_view(), (version@, *variant)),
{
    let ghost all = wheels.deep_view();
    let ghost keep = |wheel: TorchWheelView|
        wheel.package == "torch"@ && wheel.public_version == version@ && wheel.variant == *variant;
    let mut group: Vec<&'a TorchWheel> = Vec::new();
    let mut index: usize = 0;
    assert(all.take(0) =~= Seq::empty());
    assert(group.deep_view() =~= kept(all.take(0), keep));
    while index < wheels.len()
        invariant
            all == wheels.deep_view(),
            keep == (|wheel: TorchWheelView|
                wheel.package == "torch"@ && wheel.public_version == version@ && wheel.variant
                    == *variant),
            index <= all.len(),
            group.deep_view() == kept(all.take(index as int), keep),
        decreases wheels@.len() - index,
    {
        let wheel = &wheels[index];
        assert(all.take(index + 1).drop_last() =~= all.take(index as int));
        assert(all.take(index + 1).last() == wheel.deep_view());
        if same(wheel.package.as_str(), "torch") && same(wheel.public_version.as_str(), version)
            && wheel.variant == *variant {
            push_item(&mut group, wheel);
        }
        index = index + 1;
    }
    assert(all.take(index as int) =~= all);
    sort_by_filename(&mut group);
    assert(group.deep_view() == group_wheels(all, (version@, *variant)));
    group
}

fn find_requested<'a>(
    wheels: &'a Vec<TorchWheel>,
    version: &str,
    variant: &CudaVariant,
) -> (group: Vec<&'a TorchWheel>)
    ensures
        group.deep_view() == requested_wheels(wheels.deep_view(), version@, *variant),
{
    let ghost all = wheels.deep_view();
    let ghost keep = |wheel: TorchWheelView|
        wheel.package == "torch"@ && pep440_order(wheel.public_version, version@) == Some(
            Order::Equal,
        ) && wheel.variant == *variant;
    let mut group: Vec<&'a TorchWheel> = Vec::new();
    let mut index: usize = 0;
    assert(all.take(0) =~= Seq::empty());
    assert(group.deep_view() =~= kept(all.take(0), keep));
    while index < wheels.len()
        invariant
            all == wheels.deep_view(),
            keep == (|wheel: TorchWheelView|
                wheel.package == "torch"@ && pep440_order(wheel.public_version, version@) == Some(
                    Order::Equal,
                ) && wheel.variant == *variant),
            index <= all.len(),
            group.deep_view() == kept(all.take(index as int), keep),
        decreases wheels@.len() - index,
    {
        let wheel = &wheels[index];
        assert(all.take(index + 1).drop_last() =~= all.take(index as int));
        assert(all.take(index + 1).last() == wheel.deep_view());
        if same(wheel.package.as_str(), "torch") && wheel.variant == *variant {
            match order_versions(wheel.public_version.as_str(), version) {
                Some(Order::Equal) => {
                    push_item(&mut group, wheel);
                },
                _ => {},
            }
        }
        index = index + 1;
    }
    assert(all.take(index as int) =~= all);
    sort_by_filename(&mut group);
    assert(group.deep_view() == requested_wheels(all, version@, *variant));
    group
}

proof fn candidates_decide(
    environment: EnvironmentView,
    snapshot: IndexSnapshotView,
    metadata: MetadataInfoView,
    options: ResolverOptionsView,
    rules: RuleSetView,
    specifiers: Option<Seq<char>>,
    keys: Seq<(Seq<char>, CudaVariant)>,
    upto: int,
)
    requires
        0 < upto <= keys.len(),
        group_candidates(
            environment,
            snapshot,
            metadata,
            options,
            rules,
            specifiers,
            keys.take(upto),
        ) is Err,
    ensures
        group_candidates(environment, snapshot, metadata, options, rules, specifiers, keys)
            == group_candidates(
            environment,
            snapshot,
            metadata,
            options,
            rules,
            specifiers,
            keys.take(upto),
        ),
    decreases keys.len() - upto,
{
    if upto < keys.len() {
        assert(keys.take(upto + 1).drop_last() =~= keys.take(upto));
        candidates_decide(
            environment,
            snapshot,
            metadata,
            options,
            rules,
            specifiers,
            keys,
            upto + 1,
        );
    } else {
        assert(keys.take(upto) =~= keys);
    }
}

fn find_candidates(
    environment: &Environment,
    snapshot: &IndexSnapshot,
    metadata: &MetadataInfo,
    options: &ResolverOptions,
    rules: &RuleSet,
    specifiers: &Option<String>,
) -> (result: Result<Vec<Candidate>, ResolverError>)
    ensures
        outcome(result) == all_candidates(
            environment.deep_view(),
            snapshot.deep_view(),
            metadata.deep_view(),
            options.deep_view(),
            rules.deep_view(),
            specifiers.deep_view(),
        ),
{
    let keys = find_keys(&snapshot.wheels);
    let ghost all = keys.deep_view();
    let mut candidates: Vec<Candidate> = Vec::new();
    let mut index: usize = 0;
    assert(all.take(0) =~= Seq::empty());
    assert(candidates.deep_view() =~= Seq::empty());
    while index < keys.len()
        invariant
            all == keys.deep_view(),
            all == group_keys(snapshot.deep_view().wheels),
            index <= all.len(),
            group_candidates(
                environment.deep_view(),
                snapshot.deep_view(),
                metadata.deep_view(),
                options.deep_view(),
                rules.deep_view(),
                specifiers.deep_view(),
                all.take(index as int),
            ) == Ok::<Seq<CandidateView>, ResolverErrorView>(candidates.deep_view()),
        decreases keys@.len() - index,
    {
        let version = keys[index].0.as_str();
        let variant = keys[index].1;
        assert(all.take(index + 1).drop_last() =~= all.take(index as int));
        assert(all.take(index + 1).last() == (version@, variant));
        if normalize_version(version).is_none() {
            proof {
                candidates_decide(
                    environment.deep_view(),
                    snapshot.deep_view(),
                    metadata.deep_view(),
                    options.deep_view(),
                    rules.deep_view(),
                    specifiers.deep_view(),
                    all,
                    index + 1,
                );
            }
            return Err(ResolverError::InvalidWheelVersion(version.to_owned()));
        }
        if allows(specifiers, version) {
            let wheels = find_group(&snapshot.wheels, version, &variant);
            match evaluate_group(
                environment,
                snapshot,
                metadata,
                options,
                rules,
                specifiers,
                version,
                &variant,
                &wheels,
            ) {
                Ok(candidate) => {
                    push_item(&mut candidates, candidate);
                },
                Err(error) => {
                    return Err(error);
                },
            }
        }
        index = index + 1;
    }
    assert(all.take(index as int) =~= all);
    Ok(candidates)
}

fn is_usable(candidate: &Candidate) -> (answer: bool)
    ensures
        answer == usable(candidate.deep_view()),
{
    candidate.compatibility != CompatibilityStatus::Incompatible && candidate.compatibility
        != CompatibilityStatus::Unavailable
}

fn select(candidates: &Vec<Candidate>, wanted: bool) -> (selected: Vec<Candidate>)
    ensures
        selected.deep_view() == kept(
            candidates.deep_view(),
            |candidate: CandidateView| usable(candidate) == wanted,
        ),
{
    let ghost all = candidates.deep_view();
    let ghost keep = |candidate: CandidateView| usable(candidate) == wanted;
    let mut selected: Vec<Candidate> = Vec::new();
    let mut index: usize = 0;
    assert(all.take(0) =~= Seq::empty());
    assert(selected.deep_view() =~= kept(all.take(0), keep));
    while index < candidates.len()
        invariant
            all == candidates.deep_view(),
            keep == (|candidate: CandidateView| usable(candidate) == wanted),
            index <= all.len(),
            selected.deep_view() == kept(all.take(index as int), keep),
        decreases candidates@.len() - index,
    {
        assert(all.take(index + 1).drop_last() =~= all.take(index as int));
        assert(all.take(index + 1).last() == candidates@[index as int].deep_view());
        if is_usable(&candidates[index]) == wanted {
            push_item(&mut selected, candidates[index].clone());
        }
        index = index + 1;
    }
    assert(all.take(index as int) =~= all);
    selected
}

proof fn kept_agrees(
    candidates: Seq<CandidateView>,
    left: spec_fn(CandidateView) -> bool,
    right: spec_fn(CandidateView) -> bool,
)
    requires
        forall|candidate: CandidateView| #[trigger] left(candidate) == right(candidate),
    ensures
        kept(candidates, left) == kept(candidates, right),
    decreases candidates.len(),
{
    if candidates.len() > 0 {
        kept_agrees(candidates.drop_last(), left, right);
        assert(left(candidates.last()) == right(candidates.last()));
    }
}

/// Builds the report on candidates that are already in order.
pub fn build_report(
    environment: &Environment,
    snapshot: &IndexSnapshot,
    metadata: MetadataInfo,
    options: &ResolverOptions,
    rules: &RuleSet,
    listed: &Vec<Candidate>,
) -> (result: Result<RecommendationReport, ResolverError>)
    ensures
        outcome(result) == report_on(
            environment.deep_view(),
            snapshot.deep_view(),
            metadata.deep_view(),
            options.deep_view(),
            rules.deep_view(),
            listed.deep_view(),
        ),
{
    let mut usable_candidates = select(listed, true);
    let excluded = select(listed, false);
    proof {
        let all = listed.deep_view();
        kept_agrees(
            all,
            |candidate: CandidateView| usable(candidate) == true,
            |candidate: CandidateView| usable(candidate),
        );
        kept_agrees(
            all,
            |candidate: CandidateView| usable(candidate) == false,
            |candidate: CandidateView| !usable(candidate),
        );
    }
    let ghost before = usable_candidates.deep_view();
    let place = match find_recommended(&usable_candidates, true) {
        Some(place) => Some(place),
        None => find_recommended(&usable_candidates, false),
    };
    let recommendation = match place {
        Some(place) => {
            let candidate = usable_candidates.remove(place);
            assert(usable_candidates.deep_view() =~= before.remove(place as int));
            Some(candidate)
        },
        None => None,
    };
    let install = match &recommendation {
        Some(candidate) => match build_install_command(
            environment,
            snapshot,
            candidate,
            options,
            rules,
        ) {
            Ok(command) => Some(command),
            Err(error) => {
                return Err(error);
            },
        },
        None => None,
    };
    Ok(
        RecommendationReport {
            schema_version: SCHEMA_VERSION,
            environment: environment.clone(),
            metadata,
            recommendation,
            alternatives: usable_candidates,
            excluded,
            install,
        },
    )
}

/// Resolves all candidates and constructs the recommendation report. What is recommended ranks
/// first.
pub fn resolve(
    environment: &Environment,
    snapshot: &IndexSnapshot,
    metadata: MetadataInfo,
    options: &ResolverOptions,
    drivers: DriverRules,
    releases: ReleaseRules,
) -> (result: Result<RecommendationReport, ResolverError>)
    ensures
        outcome(result) == resolution(
            environment.deep_view(),
            snapshot.deep_view(),
            metadata.deep_view(),
            options.deep_view(),
            drivers.deep_view(),
            releases.deep_view(),
        ),
        result matches Ok(report) ==> ranks_first(
            report.deep_view(),
            nvidia_usable(environment.deep_view()),
        ),
        result matches Ok(report) ==> report_is_ranked(
            report.deep_view(),
            nvidia_usable(environment.deep_view()),
        ),
{
    if let Err(error) = validate_environment(environment) {
        return Err(error);
    }
    let rules = match RuleSet::load(drivers, releases) {
        Ok(rules) => rules,
        Err(error) => {
            return Err(error);
        },
    };
    let specifiers = match parse_version_specifier(&options.torch_version) {
        Ok(specifiers) => specifiers,
        Err(error) => {
            return Err(error);
        },
    };
    let mut candidates = match find_candidates(
        environment,
        snapshot,
        &metadata,
        options,
        &rules,
        &specifiers,
    ) {
        Ok(candidates) => candidates,
        Err(error) => {
            return Err(error);
        },
    };
    proof {
        candidates_have_versions(
            environment.deep_view(),
            snapshot.deep_view(),
            metadata.deep_view(),
            options.deep_view(),
            rules.deep_view(),
            specifiers.deep_view(),
            group_keys(snapshot.deep_view().wheels),
        );
    }
    sort_candidates(&mut candidates, environment);
    proof {
        candidates_in_order_recommend_the_first(
            environment.deep_view(),
            snapshot.deep_view(),
            metadata.deep_view(),
            options.deep_view(),
            rules.deep_view(),
            candidates.deep_view(),
            nvidia_usable(environment.deep_view()),
        );
        ranked_candidates_make_a_ranked_report(
            environment.deep_view(),
            snapshot.deep_view(),
            metadata.deep_view(),
            options.deep_view(),
            rules.deep_view(),
            candidates.deep_view(),
            nvidia_usable(environment.deep_view()),
        );
    }
    build_report(environment, snapshot, metadata, options, &rules, &candidates)
}

/// Explains one exact version/variant pair, even when no official wheel exists.
pub fn explain(
    environment: &Environment,
    snapshot: &IndexSnapshot,
    metadata: MetadataInfo,
    torch_version: &str,
    variant: &CudaVariant,
    options: &ResolverOptions,
    drivers: DriverRules,
    releases: ReleaseRules,
) -> (result: Result<Candidate, ResolverError>)
    ensures
        outcome(result) == explanation(
            environment.deep_view(),
            snapshot.deep_view(),
            metadata.deep_view(),
            torch_version@,
            *variant,
            options.deep_view(),
            drivers.deep_view(),
            releases.deep_view(),
        ),
{
    if let Err(error) = validate_environment(environment) {
        return Err(error);
    }
    let rules = match RuleSet::load(drivers, releases) {
        Ok(rules) => rules,
        Err(error) => {
            return Err(error);
        },
    };
    let canonical = match normalize_version(torch_version) {
        Some(canonical) => canonical,
        None => {
            return Err(ResolverError::InvalidWheelVersion(torch_version.to_owned()));
        },
    };
    let wheels = find_requested(&snapshot.wheels, torch_version, variant);
    if wheels.len() == 0 {
        return Ok(missing_candidate(canonical.as_str(), variant, &metadata));
    }
    let version = wheels[0].public_version.clone();
    proof {
        requested_is_version(snapshot.deep_view().wheels, torch_version@, *variant);
        assert(wheels.deep_view()[0] == wheels@[0].deep_view());
    }
    // A wheel was found, so its version compared equal and is a version.
    let _order = order_versions(version.as_str(), torch_version);
    evaluate_group(
        environment,
        snapshot,
        &metadata,
        options,
        &rules,
        &None,
        version.as_str(),
        variant,
        &wheels,
    )
}

proof fn requested_is_version(
    wheels: Seq<TorchWheelView>,
    version: Seq<char>,
    variant: CudaVariant,
)
    ensures
        forall|i: int|
            0 <= i < requested_wheels(wheels, version, variant).len() ==> pep440_order(
                (#[trigger] requested_wheels(wheels, version, variant)[i]).public_version,
                version,
            ) == Some(Order::Equal),
{
    broadcast use vstd::seq_lib::group_to_multiset_ensures;

    let keep = |wheel: TorchWheelView|
        wheel.package == "torch"@ && pep440_order(wheel.public_version, version) == Some(
            Order::Equal,
        ) && wheel.variant == variant;
    let group = kept(wheels, keep);
    let sorted = requested_wheels(wheels, version, variant);
    crate::order::sort_keeps_items(group, filename_after());
    assert forall|i: int| 0 <= i < sorted.len() implies pep440_order(
        (#[trigger] sorted[i]).public_version,
        version,
    ) == Some(Order::Equal) by {
        assert(sorted.contains(sorted[i]));
        assert(sorted.to_multiset().count(sorted[i]) > 0);
        assert(group.to_multiset().count(sorted[i]) > 0);
        assert(group.contains(sorted[i]));
        crate::order::kept_members(wheels, keep, sorted[i]);
        assert(keep(sorted[i]));
    }
}

} // verus!
