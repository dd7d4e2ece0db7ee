//! What a candidate warns of, why its wheel is taken or left, and what its install command installs.

use crate::checks::{
    companion_available, companion_pin, has_reason, metadata_old, platform_result, python_wheels,
    stable_version,
};
use crate::details::{bind_updates_lookup, lookup, no_details};
use crate::model::{
    detailed, plain_reason, plain_warning, CandidateView, CandidateWarningView, CheckStatus,
    CudaVariant, DecisionReasonView, DiagnosticSeverity, DiagnosticView, EnvironmentView,
    IndexSnapshotView, Installer, MetadataInfoView, MetadataOrigin, NvidiaDetectionStatus,
    ReasonCode, TorchWheelView, WarningCode,
};
use crate::outside::{pep440_contains, pep440_prerelease};
use crate::resolver::{
    blocking_codes, companion_pins, companion_reasons, constraint_allows, environment_error,
    group_candidate, inspection_incomplete, install_command, install_parts, members, only_if,
    requirements, unavailable_companion, wheel_check, ResolverOptionsView,
};
use crate::rules::{
    companion_name, preference, release_for, CompanionPackage, ResolverErrorView, RuleSetView,
};
use crate::text::decimal;
use vstd::prelude::*;

verus! {

/// The address of the index that holds the wheels of a variant.
pub open spec fn address_of(variant: CudaVariant) -> Seq<char> {
    match variant {
        CudaVariant::Cpu => "https://download.pytorch.org/whl/"@ + "cpu"@,
        CudaVariant::Cuda { major, minor } => "https://download.pytorch.org/whl/"@ + ("cu"@
            + decimal(major as nat) + decimal(minor as nat)),
    }
}

proof fn packages_of_a_set(options: ResolverOptionsView)
    ensures
        ({
            let packages = members(options.companions);
            &&& packages.len() == (if options.companions.torchvision {
                1nat
            } else {
                0nat
            }) + (if options.companions.torchaudio {
                1nat
            } else {
                0nat
            })
            &&& options.companions.torchvision ==> packages[0] == CompanionPackage::Torchvision
            &&& options.companions.torchaudio ==> packages[packages.len() - 1]
                == CompanionPackage::Torchaudio
        }),
{
}

proof fn pins_are_looked_up(
    rules: RuleSetView,
    version: Seq<char>,
    packages: Seq<CompanionPackage>,
)
    ensures
        companion_pins(rules, version, packages) matches Ok(pins) ==> pins.len() == packages.len()
            && forall|i: int|
            0 <= i < packages.len() ==> companion_pin(rules, #[trigger] packages[i], version)
                == Some(pins[i]),
        companion_pins(rules, version, packages) is Err ==> exists|i: int|
            0 <= i < packages.len() && companion_pin(
                rules,
                #[trigger] packages[i],
                version,
            ) is None,
    decreases packages.len(),
{
    if packages.len() > 0 {
        let head = packages.drop_last();
        pins_are_looked_up(rules, version, head);
        assert(packages.last() == packages[packages.len() - 1]);
        match companion_pins(rules, version, packages) {
            Ok(pins) => {
                let earlier = companion_pins(rules, version, head)->Ok_0;
                assert forall|i: int| 0 <= i < packages.len() implies companion_pin(
                    rules,
                    #[trigger] packages[i],
                    version,
                ) == Some(pins[i]) by {
                    if i < head.len() {
                        assert(head[i] == packages[i]);
                        assert(pins[i] == earlier[i]);
                    }
                }
            },
            Err(_) => {
                if companion_pins(rules, version, head) is Err {
                    let i = choose|i: int|
                        0 <= i < head.len() && companion_pin(
                            rules,
                            #[trigger] head[i],
                            version,
                        ) is None;
                    assert(packages[i] == head[i]);
                }
            },
        }
    }
}

proof fn companions_are_looked_for(
    snapshot: IndexSnapshotView,
    environment: EnvironmentView,
    variant: CudaVariant,
    packages: Seq<CompanionPackage>,
    pins: Seq<Seq<char>>,
    upto: nat,
)
    requires
        upto <= packages.len(),
    ensures
        unavailable_companion(snapshot, environment, variant, packages, pins, upto) is None
            <==> forall|i: int|
            0 <= i < upto ==> companion_available(
                snapshot,
                environment,
                companion_name(#[trigger] packages[i]),
                pins[i],
                variant,
            ),
    decreases upto,
{
    if upto > 0 {
        companions_are_looked_for(
            snapshot,
            environment,
            variant,
            packages,
            pins,
            (upto - 1) as nat,
        );
        if forall|i: int|
            0 <= i < upto ==> companion_available(
                snapshot,
                environment,
                companion_name(#[trigger] packages[i]),
                pins[i],
                variant,
            ) {
            assert(companion_available(
                snapshot,
                environment,
                companion_name(packages[upto - 1]),
                pins[upto - 1],
                variant,
            ));
        }
    }
}

/// Whether a companion package can be installed beside a candidate.
pub open spec fn companion_is_there(
    environment: EnvironmentView,
    snapshot: IndexSnapshotView,
    candidate: CandidateView,
    rules: RuleSetView,
    package: CompanionPackage,
    name: Seq<char>,
) -> bool {
    companion_pin(rules, package, candidate.torch_version) matches Some(pin)
        && companion_available(snapshot, environment, name, pin, candidate.variant)
}

/// There is an install command exactly where there is an interpreter whose path can be shown and
/// every companion package that was asked for can be had.
pub proof fn commands_are_there_where_everything_is(
    environment: EnvironmentView,
    snapshot: IndexSnapshotView,
    candidate: CandidateView,
    options: ResolverOptionsView,
    rules: RuleSetView,
)
    ensures
        install_command(environment, snapshot, candidate, options, rules) is Ok <==> {
            &&& environment.python matches Some(python) && python.executable.utf8 && forall|i: int|
                0 <= i < python.executable.text.len()
                    ==> !crate::model::unsafe_terminal_character(
                    #[trigger] python.executable.text[i],
                )
            &&& options.companions.torchvision ==> companion_is_there(
                environment,
                snapshot,
                candidate,
                rules,
                CompanionPackage::Torchvision,
                "torchvision"@,
            )
            &&& options.companions.torchaudio ==> companion_is_there(
                environment,
                snapshot,
                candidate,
                rules,
                CompanionPackage::Torchaudio,
                "torchaudio"@,
            )
        },
        environment.python is None ==> install_command(
            environment,
            snapshot,
            candidate,
            options,
            rules,
        ) == Err::<crate::model::CommandSpecView, ResolverErrorView>(
            ResolverErrorView::PythonRequired,
        ),
{
    let packages = members(options.companions);
    packages_of_a_set(options);
    pins_are_looked_up(rules, candidate.torch_version, packages);
    if let Ok(pins) = companion_pins(rules, candidate.torch_version, packages) {
        companions_are_looked_for(
            snapshot,
            environment,
            candidate.variant,
            packages,
            pins,
            packages.len(),
        );
        if packages.len() > 0 {
            let first = packages[0];
            let last = packages[packages.len() - 1];
            assert(companion_pin(rules, first, candidate.torch_version) == Some(pins[0]));
            assert(companion_pin(rules, last, candidate.torch_version) == Some(
                pins[packages.len() - 1],
            ));
        }
        if packages.len() > 1 {
            assert(packages.len() == 2);
            assert(packages[1] == CompanionPackage::Torchaudio);
        }
    } else {
        let i = choose|i: int|
            0 <= i < packages.len() && companion_pin(
                rules,
                #[trigger] packages[i],
                candidate.torch_version,
            ) is None;
        assert(i == 0 || i == packages.len() - 1);
    }
}

/// An install command runs the installer that was chosen for the interpreter of the environment. It
/// takes wheels from the index of the candidate's variant, and installs the candidate's version and
/// the companion packages that were asked for, each in the version that belongs to it, and nothing
/// else.
pub proof fn commands_install_what_was_asked_for(
    environment: EnvironmentView,
    snapshot: IndexSnapshotView,
    candidate: CandidateView,
    options: ResolverOptionsView,
    rules: RuleSetView,
)
    ensures
        install_command(environment, snapshot, candidate, options, rules) matches Ok(command) ==> {
            let vision = options.companions.torchvision;
            let audio = options.companions.torchaudio;
            let python = environment.python->0.executable.text;
            let address = address_of(candidate.variant);
            let start: int = if options.installer == Installer::UvAdd {
                5
            } else {
                6
            };
            let wanted = command.args.skip(start);
            &&& match options.installer {
                Installer::Pip => command.program == python && command.args.take(6) == seq![
                    "-m"@,
                    "pip"@,
                    "install"@,
                    "--isolated"@,
                    "--index-url"@,
                    address,
                ],
                Installer::Uv => command.program == "uv"@ && command.args.take(6) == seq![
                    "pip"@,
                    "install"@,
                    "--python"@,
                    python,
                    "--default-index"@,
                    address,
                ],
                Installer::UvAdd => command.program == "uv"@ && command.args.take(5) == seq![
                    "add"@,
                    "--python"@,
                    python,
                    "--index"@,
                    "pytorch="@ + address,
                ],
            }
            &&& wanted.len() == 1 + (if vision {
                1int
            } else {
                0int
            }) + (if audio {
                1int
            } else {
                0int
            })
            &&& wanted[0] == "torch=="@ + candidate.torch_version
            &&& vision ==> wanted[1] == "torchvision"@ + "=="@ + companion_pin(
                rules,
                CompanionPackage::Torchvision,
                candidate.torch_version,
            )->0
            &&& audio ==> wanted.last() == "torchaudio"@ + "=="@ + companion_pin(
                rules,
                CompanionPackage::Torchaudio,
                candidate.torch_version,
            )->0
        },
{
    if let Ok(command) = install_command(environment, snapshot, candidate, options, rules) {
        let packages = members(options.companions);
        packages_of_a_set(options);
        pins_are_looked_up(rules, candidate.torch_version, packages);
        let pins = companion_pins(rules, candidate.torch_version, packages)->Ok_0;
        let all = requirements(candidate.torch_version, packages, pins);
        let python = environment.python->0.executable.text;
        let address = address_of(candidate.variant);
        assert(all.len() == 1 + packages.len());
        assert(command.args == install_parts(options.installer, python, address, all).1);
        match options.installer {
            Installer::Pip => {
                assert(command.args.skip(6) =~= all);
                assert(command.args.take(6) =~= seq![
                    "-m"@,
                    "pip"@,
                    "install"@,
                    "--isolated"@,
                    "--index-url"@,
                    address,
                ]);
            },
            Installer::Uv => {
                assert(command.args.skip(6) =~= all);
                assert(command.args.take(6) =~= seq![
                    "pip"@,
                    "install"@,
                    "--python"@,
                    python,
                    "--default-index"@,
                    address,
                ]);
            },
            Installer::UvAdd => {
                assert(command.args.skip(5) =~= all);
                assert(command.args.take(5) =~= seq![
                    "add"@,
                    "--python"@,
                    python,
                    "--index"@,
                    "pytorch="@ + address,
                ]);
            },
        }
        if options.companions.torchvision {
            assert(companion_pin(rules, packages[0], candidate.torch_version) == Some(pins[0]));
        }
        if options.companions.torchaudio {
            let last = packages.len() - 1;
            assert(companion_pin(rules, packages[last], candidate.torch_version) == Some(
                pins[last],
            ));
            assert(all.last() == all[last + 1]);
        }
    }
}

// ---------------------------------------------------------------------------
// Warnings and reasons

/// Whether one of `warnings` has `code`.
pub open spec fn warn_of(warnings: Seq<CandidateWarningView>, code: WarningCode) -> bool {
    exists|i: int| 0 <= i < warnings.len() && (#[trigger] warnings[i]).code == code
}

/// Whether one of `reasons` has `code`.
pub open spec fn gives(reasons: Seq<DecisionReasonView>, code: ReasonCode) -> bool {
    exists|i: int| 0 <= i < reasons.len() && (#[trigger] reasons[i]).code == code
}

proof fn warnings_of_two(
    left: Seq<CandidateWarningView>,
    right: Seq<CandidateWarningView>,
    code: WarningCode,
)
    ensures
        warn_of(left + right, code) <==> warn_of(left, code) || warn_of(right, code),
{
    let both = left + right;
    if warn_of(left, code) {
        let i = choose|i: int| 0 <= i < left.len() && (#[trigger] left[i]).code == code;
        assert(both[i].code == code);
    }
    if warn_of(right, code) {
        let i = choose|i: int| 0 <= i < right.len() && (#[trigger] right[i]).code == code;
        assert(both[left.len() + i].code == code);
    }
    if warn_of(both, code) {
        let i = choose|i: int| 0 <= i < both.len() && (#[trigger] both[i]).code == code;
        if i < left.len() {
            assert(left[i].code == code);
        } else {
            assert(right[i - left.len()].code == code);
        }
    }
}

proof fn optional_warning(condition: bool, given: WarningCode, code: WarningCode)
    ensures
        warn_of(only_if(condition, plain_warning(given)), code) <==> condition && given == code,
{
    let warnings = only_if(condition, plain_warning(given));
    if condition {
        assert(warnings[0].code == given);
    }
}

proof fn reasons_of_two(
    left: Seq<DecisionReasonView>,
    right: Seq<DecisionReasonView>,
    code: ReasonCode,
)
    ensures
        gives(left + right, code) <==> gives(left, code) || gives(right, code),
{
    let both = left + right;
    if gives(left, code) {
        let i = choose|i: int| 0 <= i < left.len() && (#[trigger] left[i]).code == code;
        assert(both[i].code == code);
    }
    if gives(right, code) {
        let i = choose|i: int| 0 <= i < right.len() && (#[trigger] right[i]).code == code;
        assert(both[left.len() + i].code == code);
    }
    if gives(both, code) {
        let i = choose|i: int| 0 <= i < both.len() && (#[trigger] both[i]).code == code;
        if i < left.len() {
            assert(left[i].code == code);
        } else {
            assert(right[i - left.len()].code == code);
        }
    }
}

/// An environment is rejected exactly where one of its diagnostics is an error.
pub proof fn errors_reject_the_environment(environment: EnvironmentView)
    ensures
        environment_error(environment) is Some <==> exists|i: int|
            0 <= i < environment.diagnostics.len() && (
            #[trigger] environment.diagnostics[i]).severity == DiagnosticSeverity::Error,
        environment_error(environment) matches Some(error) ==> error is InvalidEnvironment,
{
    errors_are_counted(environment.diagnostics);
}

proof fn errors_are_counted(diagnostics: Seq<DiagnosticView>)
    ensures
        blocking_codes(diagnostics).len() > 0 <==> exists|i: int|
            0 <= i < diagnostics.len() && (#[trigger] diagnostics[i]).severity
                == DiagnosticSeverity::Error,
    decreases diagnostics.len(),
{
    if diagnostics.len() > 0 {
        let head = diagnostics.drop_last();
        errors_are_counted(head);
        assert(diagnostics.last() == diagnostics[diagnostics.len() - 1]);
        if exists|i: int|
            0 <= i < head.len() && (#[trigger] head[i]).severity == DiagnosticSeverity::Error {
            let i = choose|i: int|
                0 <= i < head.len() && (#[trigger] head[i]).severity == DiagnosticSeverity::Error;
            assert(diagnostics[i].severity == DiagnosticSeverity::Error);
        }
        if exists|i: int|
            0 <= i < diagnostics.len() && (#[trigger] diagnostics[i]).severity
                == DiagnosticSeverity::Error {
            let i = choose|i: int|
                0 <= i < diagnostics.len() && (#[trigger] diagnostics[i]).severity
                    == DiagnosticSeverity::Error;
            if i < head.len() {
                assert(head[i].severity == DiagnosticSeverity::Error);
            }
        }
    }
}

/// Every warning of a candidate is there exactly where there is something to warn of: a driver that
/// only the family minimum accepts, processors of which nothing is known, old metadata, an incomplete
/// inspection of the processors, a release without reviewed configuration, and a variant that the
/// reviewed configuration does not list.
pub proof fn warnings_follow_from_the_checks(
    environment: EnvironmentView,
    snapshot: IndexSnapshotView,
    metadata: MetadataInfoView,
    options: ResolverOptionsView,
    rules: RuleSetView,
    specifiers: Option<Seq<char>>,
    version: Seq<char>,
    variant: CudaVariant,
    wheels: Seq<TorchWheelView>,
)
    ensures
        ({
            let candidate = group_candidate(
                environment,
                snapshot,
                metadata,
                options,
                rules,
                specifiers,
                version,
                variant,
                wheels,
            );
            &&& candidate.torch_version == version
            &&& candidate.variant == variant
            &&& candidate.stable <==> pep440_prerelease(version) == Some(false)
            &&& warn_of(candidate.warnings, WarningCode::PtxOrNewDriverFeatureMayFail) <==> gives(
                candidate.checks.driver.reasons,
                ReasonCode::UsesCudaMinorCompatibility,
            )
            &&& warn_of(candidate.warnings, WarningCode::GpuArchitectureUnknown) <==>
                candidate.checks.gpu_architecture.status == CheckStatus::Unknown
            &&& warn_of(candidate.warnings, WarningCode::StaleMetadata) <==> metadata.stale
                || metadata.origin == MetadataOrigin::StaleIfError
            &&& warn_of(candidate.warnings, WarningCode::NvidiaDetectionIncomplete) <==> variant is Cuda
                && (environment.nvidia.status == NvidiaDetectionStatus::CommandUnavailable
                || environment.nvidia.status == NvidiaDetectionStatus::Failed
                || environment.nvidia.status == NvidiaDetectionStatus::TimedOut)
            &&& warn_of(candidate.warnings, WarningCode::OfficialPreferenceUnknown) <==>
                candidate.official_preference is None && release_for(
                rules,
                version,
            ) is None
            &&& warn_of(candidate.warnings, WarningCode::NotOfficialReleaseConfiguration) <==>
                candidate.official_preference is None && release_for(
                rules,
                version,
            ) is Some
            &&& candidate.checks.runtime.status == CheckStatus::Unknown
        }),
{
    let candidate = group_candidate(
        environment,
        snapshot,
        metadata,
        options,
        rules,
        specifiers,
        version,
        variant,
        wheels,
    );
    let checks = candidate.checks;
    let unranked = preference(rules, version, variant) is None;
    let reviewed = release_for(rules, version) is Some;
    let one = only_if(
        has_reason(checks.driver, ReasonCode::UsesCudaMinorCompatibility),
        plain_warning(WarningCode::PtxOrNewDriverFeatureMayFail),
    );
    let two = only_if(
        checks.gpu_architecture.status == CheckStatus::Unknown,
        plain_warning(WarningCode::GpuArchitectureUnknown),
    );
    let three = only_if(metadata_old(metadata), plain_warning(WarningCode::StaleMetadata));
    let four = only_if(
        inspection_incomplete(environment.nvidia.status) && variant is Cuda,
        plain_warning(WarningCode::NvidiaDetectionIncomplete),
    );
    let five = only_if(
        unranked && !reviewed,
        plain_warning(WarningCode::OfficialPreferenceUnknown),
    );
    let six = only_if(
        unranked && reviewed,
        plain_warning(WarningCode::NotOfficialReleaseConfiguration),
    );
    assert(candidate.warnings == one + two + three + four + five + six);
    assert forall|code: WarningCode| #[trigger] warn_of(candidate.warnings, code) == (warn_of(
        one,
        code,
    ) || warn_of(two, code) || warn_of(three, code) || warn_of(four, code) || warn_of(five, code)
        || warn_of(six, code)) by {
        warnings_of_two(one, two, code);
        warnings_of_two(one + two, three, code);
        warnings_of_two(one + two + three, four, code);
        warnings_of_two(one + two + three + four, five, code);
        warnings_of_two(one + two + three + four + five, six, code);
    }
    assert forall|given: WarningCode, code: WarningCode, condition: bool| #[trigger] warn_of(
        only_if(condition, plain_warning(given)),
        code,
    ) == (condition && given == code) by {
        optional_warning(condition, given, code);
    }
    assert(has_reason(checks.driver, ReasonCode::UsesCudaMinorCompatibility) == gives(
        checks.driver.reasons,
        ReasonCode::UsesCudaMinorCompatibility,
    ));
}

/// The reasons about a wheel say what was found of its version: whether a constraint allows it,
/// whether it is stable, and whether its configuration was reviewed. The first of them counts the
/// wheels. The wheel is taken exactly where a given constraint allows the version, it is stable or
/// pre-releases were asked for, and no companion package is missing.
pub proof fn reasons_say_what_was_found(
    environment: EnvironmentView,
    snapshot: IndexSnapshotView,
    options: ResolverOptionsView,
    rules: RuleSetView,
    specifiers: Option<Seq<char>>,
    version: Seq<char>,
    variant: CudaVariant,
    wheels: Seq<TorchWheelView>,
)
    ensures
        ({
            let check = wheel_check(
                environment,
                snapshot,
                options,
                rules,
                specifiers,
                version,
                variant,
                wheels,
            );
            let allowed = specifiers matches Some(text) ==> pep440_contains(text, version) == Some(
                true,
            );
            let stable = pep440_prerelease(version) == Some(false);
            &&& check.reasons.len() > 0 && check.reasons[0].code == ReasonCode::WheelExists
                && lookup(check.reasons[0].details, "count"@) == Some(decimal(wheels.len()))
            &&& gives(check.reasons, ReasonCode::VersionConstraintMatches) <==> specifiers is Some
                && allowed
            &&& gives(check.reasons, ReasonCode::VersionConstraintMismatch) <==> !allowed
            &&& gives(check.reasons, ReasonCode::StableRelease) <==> stable
            &&& gives(check.reasons, ReasonCode::Prerelease) <==> !stable
                && !options.include_prerelease
            &&& gives(check.reasons, ReasonCode::OfficialReleaseConfiguration) <==> preference(
                rules,
                version,
                variant,
            ) is Some
            &&& gives(check.reasons, ReasonCode::NotOfficialReleaseConfiguration) <==> preference(
                rules,
                version,
                variant,
            ) is None && release_for(rules, version) is Some
            &&& gives(check.reasons, ReasonCode::OfficialPreferenceUnknown) <==> preference(
                rules,
                version,
                variant,
            ) is None && release_for(rules, version) is None
            &&& check.status == CheckStatus::Pass <==> allowed && (stable
                || options.include_prerelease) && !gives(check.reasons, ReasonCode::WheelMissing)
            &&& check.status == CheckStatus::Pass || check.status == CheckStatus::Fail
        }),
{
    let check = wheel_check(
        environment,
        snapshot,
        options,
        rules,
        specifiers,
        version,
        variant,
        wheels,
    );
    let selected = platform_result(environment, python_wheels(environment.python, wheels)).1;
    let missing = if selected is Some {
        companion_reasons(
            environment,
            snapshot,
            rules,
            version,
            variant,
            members(options.companions),
        )
    } else {
        Seq::empty()
    };
    missing_reasons_are_of_one_kind(
        environment,
        snapshot,
        rules,
        version,
        variant,
        members(options.companions),
    );
    let stable = stable_version(version);
    let one = seq![detailed(plain_reason(ReasonCode::WheelExists), "count"@, decimal(wheels.len()))];
    let two = only_if(
        specifiers is Some,
        plain_reason(
            if constraint_allows(specifiers, version) {
                ReasonCode::VersionConstraintMatches
            } else {
                ReasonCode::VersionConstraintMismatch
            },
        ),
    );
    let three = only_if(
        stable || !options.include_prerelease,
        plain_reason(
            if stable {
                ReasonCode::StableRelease
            } else {
                ReasonCode::Prerelease
            },
        ),
    );
    let four = seq![
        match preference(rules, version, variant) {
            Some(rank) => detailed(
                plain_reason(ReasonCode::OfficialReleaseConfiguration),
                "preference"@,
                decimal(rank as nat),
            ),
            None => if release_for(rules, version) is Some {
                plain_reason(ReasonCode::NotOfficialReleaseConfiguration)
            } else {
                plain_reason(ReasonCode::OfficialPreferenceUnknown)
            },
        },
    ];
    assert(check.reasons == one + two + three + four + missing);
    bind_updates_lookup(no_details(), "count"@, decimal(wheels.len()), "count"@);
    assert(check.reasons[0] == one[0]);
    assert forall|code: ReasonCode| #[trigger] gives(check.reasons, code) == (gives(one, code)
        || gives(two, code) || gives(three, code) || gives(four, code) || gives(missing, code)) by {
        reasons_of_two(one, two, code);
        reasons_of_two(one + two, three, code);
        reasons_of_two(one + two + three, four, code);
        reasons_of_two(one + two + three + four, missing, code);
    }
    assert forall|code: ReasonCode| #[trigger] gives(one, code) == (code
        == ReasonCode::WheelExists) by {
        assert(one[0].code == ReasonCode::WheelExists);
    }
    assert forall|code: ReasonCode| #[trigger] gives(two, code) == (two.len() > 0 && two[0].code
        == code) by {}
    assert forall|code: ReasonCode| #[trigger] gives(three, code) == (three.len() > 0
        && three[0].code == code) by {}
    assert forall|code: ReasonCode| #[trigger] gives(four, code) == (four[0].code == code) by {}
    assert(gives(missing, ReasonCode::WheelMissing) == (missing.len() > 0)) by {
        if missing.len() > 0 {
            assert(missing[0].code == ReasonCode::WheelMissing);
        }
    }
}

proof fn missing_reasons_are_of_one_kind(
    environment: EnvironmentView,
    snapshot: IndexSnapshotView,
    rules: RuleSetView,
    version: Seq<char>,
    variant: CudaVariant,
    packages: Seq<CompanionPackage>,
)
    ensures
        ({
            let missing = companion_reasons(
                environment,
                snapshot,
                rules,
                version,
                variant,
                packages,
            );
            forall|i: int|
                0 <= i < missing.len() ==> (#[trigger] missing[i]).code == ReasonCode::WheelMissing
        }),
    decreases packages.len(),
{
    if packages.len() > 0 {
        missing_reasons_are_of_one_kind(
            environment,
            snapshot,
            rules,
            version,
            variant,
            packages.drop_last(),
        );
    }
}

} // verus!
