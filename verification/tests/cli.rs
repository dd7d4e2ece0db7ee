//! Tests of what is shown, of exit statuses and of arguments.

use std::str::FromStr;
use torch_check::arguments::{
    companion_set, exact_torch_version, json_format_requested, prepare_arguments, redact_requested,
};
use torch_check::commands::{
    command_inspect, command_recommend, command_verify, plan_verification, ready_environment,
    render_answer, requested_version, usage_failure, Answer,
};
use torch_check::environment::DetectError;
use torch_check::exits::{
    candidate_visible_in_candidates, candidates_exit_code, diagnostic_code_name,
    environment_exit_code, is_nvidia_cpu_fallback, list_candidates, recommendation_exit_code,
    reject_environment_errors, verification_exit_code, verification_gpu_selection, CandidatesArgs,
};
use torch_check::groups::{format_gpu_indices, group_gpus};
use torch_check::index::{begin_load, IndexOptions, LoadStep};
use torch_check::model::{
    Architecture, Candidate, CandidateWarning, CandidatesReport, CheckStatus, CommandSpec,
    CompatibilityCheck, CompatibilityChecks, CompatibilityStatus, ComputeCapability,
    CudaToolkitInfo, CudaVariant, DecisionReason, Diagnostic, DiagnosticCode, DiagnosticSeverity,
    Environment, ErrorKind, ExitCode, ExplainReport, FilePath, MetadataInfo, MetadataOrigin,
    NvidiaDetectionStatus, NvidiaGpu, NvidiaInfo, OperatingSystem, PlatformInfo,
    PythonInfo, ReasonCode, RecommendationReport, TagSource, ToolkitSource, VerificationCheck,
    VerificationGpuMapping, VerificationReport, VerifiedDevice, WarningCode, SCHEMA_VERSION,
};
use torch_check::redact::{redact_environment, redact_recommendation, redact_text, redact_verification};
use torch_check::render::{
    render_candidates, render_environment, render_explanation, render_verification,
};
use torch_check::resolver::ResolverOptions;
use torch_check::rules::{CompanionPackage, DriverRules, ReleaseRules};
use torch_check::shell::write_command;
use torch_check::summary::{driver_upgrade_hint, driver_upgrade_text, render_recommendation};
use torch_check::terminal::{
    display_width, human_color_enabled, human_output_width, human_style_code, style_output,
    terminal_text, write_wrapped,
};
use torch_check::version::NumericVersion;
use torch_check::wording::{diagnostic_text, human_duration, reason_text, warning_text};

fn human_environment() -> Environment {
    let driver: NumericVersion = "575.57.08".parse().expect("fixture driver");
    Environment {
        platform: PlatformInfo {
            os: OperatingSystem::Linux,
            architecture: Architecture::X86_64,
            kernel_version: Some("5.19.0-32-generic".to_owned()),
            distribution: Some("Ubuntu 22.04.2 LTS".to_owned()),
        },
        glibc: Some("2.35".parse().expect("fixture glibc")),
        python: Some(PythonInfo {
            executable: FilePath::new("/usr/bin/python3"),
            implementation: "cpython".to_owned(),
            version: "3.10.12".parse().expect("fixture Python"),
            soabi: Some("cpython-310-x86_64-linux-gnu".to_owned()),
            cache_tag: Some("cpython-310".to_owned()),
            platform: "linux-x86_64".to_owned(),
            pointer_width: 64,
            free_threaded: false,
            virtual_environment: None,
            compatible_tags: vec!["cp310-cp310-manylinux_2_28_x86_64".to_owned()],
            tag_source: TagSource::Packaging,
        }),
        nvidia: NvidiaInfo {
            status: NvidiaDetectionStatus::Detected,
            driver_version: Some(driver.clone()),
            reported_cuda_version: Some("12.9".parse().expect("reported CUDA")),
            gpus: (0..4)
                .map(|index| NvidiaGpu {
                    index,
                    uuid: Some(format!("GPU-{index}")),
                    name: "NVIDIA RTX PRO 6000 Blackwell Max-Q Workstation Edition".to_owned(),
                    compute_capability: Some(ComputeCapability {
                        major: 12,
                        minor: 0,
                    }),
                    driver_version: driver.clone(),
                })
                .collect(),
        },
        cuda_toolkit: Some(CudaToolkitInfo {
            version: "12.1.1".parse().expect("fixture toolkit"),
            root: Some(FilePath::new("/usr/local/cuda")),
            source: ToolkitSource::Nvcc,
        }),
        diagnostics: Vec::new(),
    }
}

fn compatibility_check(
    status: CheckStatus,
    reasons: impl IntoIterator<Item = DecisionReason>,
) -> CompatibilityCheck {
    CompatibilityCheck::new(status, reasons.into_iter().collect())
}

fn human_candidate(
    version: &str,
    variant: &str,
    compatibility: CompatibilityStatus,
    official_preference: Option<u16>,
) -> Candidate {
    let variant = variant.parse().expect("fixture variant");
    let cuda = CudaVariant::is_cuda(&variant);
    Candidate {
        torch_version: version.to_owned(),
        variant,
        compatibility,
        checks: CompatibilityChecks {
            wheel: compatibility_check(
                CheckStatus::Pass,
                [DecisionReason::new(ReasonCode::WheelExists)],
            ),
            python: compatibility_check(
                CheckStatus::Pass,
                [DecisionReason::new(ReasonCode::PythonTagMatches)],
            ),
            platform: compatibility_check(
                CheckStatus::Pass,
                [DecisionReason::new(ReasonCode::PlatformTagMatches)],
            ),
            gpu_architecture: if cuda {
                compatibility_check(
                    CheckStatus::Pass,
                    [DecisionReason::new(ReasonCode::GpuArchitectureSupported)],
                )
            } else {
                compatibility_check(CheckStatus::NotApplicable, [])
            },
            driver: if cuda {
                compatibility_check(
                    CheckStatus::Pass,
                    [DecisionReason::new(ReasonCode::DriverSupportsCudaVariant)],
                )
            } else {
                compatibility_check(
                    CheckStatus::NotApplicable,
                    [DecisionReason::new(ReasonCode::DriverNotRequired)],
                )
            },
            runtime: compatibility_check(
                CheckStatus::Unknown,
                [DecisionReason::new(ReasonCode::RuntimeNotRun)],
            ),
        },
        wheel: None,
        stable: true,
        official_preference,
        warnings: Vec::new(),
    }
}

fn hestia_report() -> RecommendationReport {
    let recommendation = human_candidate(
        "2.13.0",
        "cpu",
        CompatibilityStatus::DirectCompatible,
        Some(3),
    );
    let mut unverified =
        human_candidate("2.13.0", "cu129", CompatibilityStatus::Unverified, None);
    unverified.checks.wheel.reasons.push(DecisionReason::new(
        ReasonCode::NotOfficialReleaseConfiguration,
    ));
    unverified.checks.gpu_architecture = compatibility_check(
        CheckStatus::Unknown,
        [DecisionReason::new(ReasonCode::GpuArchitectureUnknown)],
    );
    unverified.warnings = vec![
        CandidateWarning::new(WarningCode::GpuArchitectureUnknown),
        CandidateWarning::new(WarningCode::NotOfficialReleaseConfiguration),
    ];

    let mut requires_driver = human_candidate(
        "2.13.0",
        "cu130",
        CompatibilityStatus::Incompatible,
        Some(0),
    );
    requires_driver.checks.driver = compatibility_check(
        CheckStatus::Fail,
        [DecisionReason::new(ReasonCode::DriverTooOld)
            .with_detail("detected", "575.57.08")
            .with_detail("minimum", "580.65.06")],
    );

    RecommendationReport {
        schema_version: SCHEMA_VERSION,
        environment: human_environment(),
        metadata: MetadataInfo {
            origin: MetadataOrigin::FreshCache,
            fetched_at: 1,
            age_seconds: 27_330,
            stale: false,
            source: "https://download.pytorch.org/whl/".to_owned(),
        },
        recommendation: Some(recommendation),
        alternatives: vec![unverified],
        excluded: vec![requires_driver],
        install: Some(CommandSpec {
            program: "/usr/bin/python3".to_owned(),
            args: vec![
                "-m".to_owned(),
                "pip".to_owned(),
                "install".to_owned(),
                "--isolated".to_owned(),
                "--index-url".to_owned(),
                "https://download.pytorch.org/whl/cpu".to_owned(),
                "torch==2.13.0".to_owned(),
            ],
            display: String::new(),
        }),
    }
}

#[test]
fn exact_requirement_parser_accepts_documented_form() {
    assert_eq!(
        exact_torch_version("torch==2.12.1").expect("exact version"),
        "2.12.1"
    );
    assert_eq!(exact_torch_version("2.12").expect("exact version"), "2.12");
    assert_eq!(
        exact_torch_version("v2.12.0").expect("normalized exact version"),
        "2.12.0"
    );
}

#[test]
fn exact_requirement_parser_rejects_ranges() {
    assert!(exact_torch_version("torch>=2.10").is_err());
    assert!(exact_torch_version("torch==2.10,!=2.10.1").is_err());
}

#[test]
fn companion_set_is_deduplicated() {
    assert_eq!(
        companion_set(&[
            CompanionPackage::Torchvision,
            CompanionPackage::Torchvision,
            CompanionPackage::Torchaudio,
        ])
        .len(),
        2
    );
}

#[test]
fn candidate_visibility_filters_statuses_for_human_and_json_output() {
    let default = CandidatesArgs::default();
    let including_unverified = CandidatesArgs {
        unverified: true,
        ..CandidatesArgs::default()
    };
    let all = CandidatesArgs {
        all: true,
        ..CandidatesArgs::default()
    };

    for status in [
        CompatibilityStatus::Verified,
        CompatibilityStatus::DirectCompatible,
        CompatibilityStatus::MinorCompatible,
    ] {
        let candidate = human_candidate("2.10.0", "cu128", status, Some(0));
        assert!(candidate_visible_in_candidates(&candidate, &default));
        assert!(candidate_visible_in_candidates(
            &candidate,
            &including_unverified
        ));
        assert!(candidate_visible_in_candidates(&candidate, &all));
    }

    let unverified =
        human_candidate("2.10.0", "cu128", CompatibilityStatus::Unverified, Some(0));
    assert!(!candidate_visible_in_candidates(&unverified, &default));
    assert!(candidate_visible_in_candidates(
        &unverified,
        &including_unverified
    ));
    assert!(candidate_visible_in_candidates(&unverified, &all));

    let index_only_direct = human_candidate(
        "2.10.0",
        "cu129",
        CompatibilityStatus::DirectCompatible,
        None,
    );
    assert!(!candidate_visible_in_candidates(
        &index_only_direct,
        &default
    ));
    assert!(candidate_visible_in_candidates(
        &index_only_direct,
        &including_unverified
    ));
    assert!(candidate_visible_in_candidates(&index_only_direct, &all));

    for status in [
        CompatibilityStatus::Incompatible,
        CompatibilityStatus::Unavailable,
    ] {
        let candidate = human_candidate("2.10.0", "cu126", status, Some(1));
        assert!(!candidate_visible_in_candidates(&candidate, &default));
        assert!(!candidate_visible_in_candidates(
            &candidate,
            &including_unverified
        ));
        assert!(candidate_visible_in_candidates(&candidate, &all));
    }
}

#[test]
fn explicit_gpu_verification_uses_full_uuids_and_zero_based_logical_indices() {
    let mut environment = Environment {
        platform: PlatformInfo {
            os: OperatingSystem::Linux,
            architecture: Architecture::X86_64,
            kernel_version: None,
            distribution: None,
        },
        glibc: None,
        python: None,
        nvidia: NvidiaInfo {
            status: NvidiaDetectionStatus::Detected,
            driver_version: None,
            reported_cuda_version: None,
            gpus: Vec::new(),
        },
        cuda_toolkit: None,
        diagnostics: Vec::new(),
    };
    for (index, uuid) in [(0, "GPU-aaaaaaaa"), (2, "GPU-bbbbbbbb")] {
        environment.nvidia.gpus.push(NvidiaGpu {
            index,
            uuid: Some(uuid.to_owned()),
            name: format!("GPU {index}"),
            compute_capability: None,
            driver_version: NumericVersion::from_str("580.65.06")
                .expect("version"),
        });
    }

    let selection = verification_gpu_selection(&[2, 0], &environment).expect("safe selection");
    assert_eq!(selection.device_indices, Some(vec![0, 1]));
    assert_eq!(
        selection.cuda_visible_devices.as_deref(),
        Some("GPU-aaaaaaaa,GPU-bbbbbbbb")
    );
    assert_eq!(selection.mappings[0].physical_index, 0);
    assert_eq!(selection.mappings[0].logical_index, 0);
    assert_eq!(selection.mappings[1].physical_index, 2);
    assert_eq!(selection.mappings[1].logical_index, 1);
}

#[test]
fn identical_gpus_are_grouped_without_hiding_indices_or_driver_formatting() {
    let mut environment = human_environment();
    environment.nvidia.gpus[1].driver_version =
        "575.57.08.0".parse().expect("equivalent driver");
    let groups = group_gpus(&environment);
    assert_eq!(groups.len(), 1);
    assert_eq!(groups[0].indices, vec![0, 1, 2, 3]);
    assert_eq!(groups[0].driver.to_string(), "575.57.08");
    assert_eq!(format_gpu_indices(&groups[0].indices), "0–3");
    assert_eq!(format_gpu_indices(&[0, 1, 3, 5, 6]), "0–1, 3, 5–6");
}

#[test]
fn hestia_human_output_is_compact_actionable_and_free_of_raw_codes() {
    let report = hestia_report();
    let rendered = render_recommendation(&report, 80);

    for expected in [
        "4× NVIDIA RTX PRO 6000 Blackwell Max-Q Workstation Edition",
        "GPUs 0–3",
        "informational for wheels",
        "PyTorch 2.13.0 + cpu (direct-compatible)",
        "CPU fallback",
        "No reviewed CUDA candidate passed all static checks.",
        "Needs review or verification",
        "not in the reviewed PyTorch release",
        "Driver upgrade:",
        "580.65.06",
        "newer (detected 575.57.08)",
        "7h 35m old",
        "torch-check candidates --all",
    ] {
        assert!(
            rendered.contains(expected),
            "missing `{expected}`:\n{rendered}"
        );
    }
    for raw_code in [
        "gpu_architecture_unknown",
        "not_official_release_configuration",
        "warning:",
    ] {
        assert!(
            !rendered.contains(raw_code),
            "raw diagnostic code leaked: {raw_code}\n{rendered}"
        );
    }
    assert!(
        rendered.contains(" \\\n"),
        "install command was not wrapped"
    );
    assert!(
        rendered.lines().all(|line| display_width(line) <= 80),
        "rendered line exceeded width:\n{rendered}"
    );
}

#[test]
fn nvidia_summary_reserves_gpu_alternatives_and_one_cpu_fallback() {
    let mut report = hestia_report();
    report.recommendation = Some(human_candidate(
        "2.11.0",
        "cu128",
        CompatibilityStatus::DirectCompatible,
        Some(0),
    ));
    report.alternatives = vec![
        human_candidate(
            "2.13.0",
            "cpu",
            CompatibilityStatus::DirectCompatible,
            Some(3),
        ),
        human_candidate(
            "2.12.1",
            "cpu",
            CompatibilityStatus::DirectCompatible,
            Some(3),
        ),
        human_candidate(
            "2.10.0",
            "cu128",
            CompatibilityStatus::DirectCompatible,
            Some(0),
        ),
        human_candidate(
            "2.9.1",
            "cu128",
            CompatibilityStatus::DirectCompatible,
            Some(0),
        ),
        human_candidate(
            "2.11.0",
            "cpu",
            CompatibilityStatus::DirectCompatible,
            Some(3),
        ),
    ];
    let install = report.install.as_mut().expect("install command");
    install.args[5] = "https://download.pytorch.org/whl/cu128".to_owned();
    install.args[6] = "torch==2.11.0".to_owned();

    let rendered = render_recommendation(&report, 80);
    for expected in [
        "GPU alternatives",
        "PyTorch 2.10.0 + cu128 (direct-compatible)",
        "PyTorch 2.9.1 + cu128 (direct-compatible)",
        "CPU fallback",
        "PyTorch 2.13.0 + cpu (direct-compatible)",
        "Driver upgrade:",
        "PyTorch 2.13.0 + cu130",
    ] {
        assert!(
            rendered.contains(expected),
            "missing `{expected}`:\n{rendered}"
        );
    }
    for hidden_cpu in ["PyTorch 2.12.1 + cpu", "PyTorch 2.11.0 + cpu"] {
        assert!(
            !rendered.contains(hidden_cpu),
            "extra CPU fallback consumed a semantic slot: {hidden_cpu}\n{rendered}"
        );
    }
    assert!(
        rendered.find("GPU alternatives") < rendered.find("CPU fallback"),
        "GPU alternatives must precede the CPU fallback:\n{rendered}"
    );
}

#[test]
fn needs_review_prioritizes_reviewed_cuda_over_newer_index_only_wheels() {
    let mut report = hestia_report();
    let newest_index_only = report.alternatives.remove(0);
    let mut second_index_only = newest_index_only.clone();
    second_index_only.torch_version = "2.12.1".to_owned();
    let mut reviewed_cuda =
        human_candidate("2.10.0", "cu128", CompatibilityStatus::Unverified, Some(0));
    reviewed_cuda.checks.gpu_architecture = compatibility_check(
        CheckStatus::Unknown,
        [DecisionReason::new(ReasonCode::GpuArchitectureUnknown)],
    );
    reviewed_cuda.warnings = vec![CandidateWarning::new(WarningCode::GpuArchitectureUnknown)];
    report.alternatives = vec![newest_index_only, second_index_only, reviewed_cuda];

    let rendered = render_recommendation(&report, 80);
    let reviewed_position = rendered
        .find("PyTorch 2.10.0 + cu128")
        .expect("reviewed CUDA candidate");
    let index_only_position = rendered
        .find("PyTorch 2.13.0 + cu129")
        .expect("index-only CUDA candidate");
    assert!(
        reviewed_position < index_only_position,
        "reviewed CUDA must be shown first even when it is older:\n{rendered}"
    );
    assert!(
        !rendered.contains("PyTorch 2.12.1 + cu129"),
        "the semantic review limit should remain concise:\n{rendered}"
    );
    assert!(
        rendered.contains("… 1 more candidate(s) requiring review or verification."),
        "hidden review candidates must be counted:\n{rendered}"
    );
}

#[test]
fn wrapped_human_text_uses_terminal_cell_width() {
    let mut rendered = String::new();
    write_wrapped(
        &mut rendered,
        "  ",
        "    ",
        &format!("GPU {}", "画像処理装置".repeat(12)),
        44,
    );
    assert!(
        rendered.lines().all(|line| display_width(line) <= 44),
        "wide text exceeded terminal width:\n{rendered}"
    );
}

#[test]
fn terminal_text_escapes_bidi_and_unicode_line_controls() {
    let rendered =
        terminal_text("left\u{00a0}\u{061c}middle\u{1680}\u{2028}next\u{2029}\u{3000}right");
    for unsafe_character in [
        '\u{00a0}', '\u{061c}', '\u{1680}', '\u{2028}', '\u{2029}', '\u{3000}',
    ] {
        assert!(!rendered.contains(unsafe_character));
    }
    for escaped in [
        "\\u{a0}",
        "\\u{61c}",
        "\\u{1680}",
        "\\u{2028}",
        "\\u{2029}",
        "\\u{3000}",
    ] {
        assert!(rendered.contains(escaped), "missing {escaped}: {rendered}");
    }
    assert_eq!(terminal_text(&rendered), rendered);
    assert_eq!(
        terminal_text("ASCII space · 日本語 🙂"),
        "ASCII space · 日本語 🙂"
    );
}

#[test]
fn nvidia_cpu_fallback_returns_warning_exit_status() {
    let report = hestia_report();
    assert!(is_nvidia_cpu_fallback(&report));
    assert_eq!(recommendation_exit_code(&report), ExitCode::Warning);
}

#[test]
fn candidates_with_only_unverified_results_return_warning_not_incompatible() {
    let report = hestia_report();
    let candidates = CandidatesReport {
        schema_version: SCHEMA_VERSION,
        environment: report.environment.clone(),
        metadata: report.metadata.clone(),
        candidates: report.alternatives.clone(),
    };
    assert_eq!(candidates_exit_code(&candidates), ExitCode::Warning);

    let excluded_only = CandidatesReport {
        candidates: report.excluded,
        ..candidates
    };
    assert_eq!(candidates_exit_code(&excluded_only), ExitCode::Incompatible);
}

#[test]
fn unreviewed_direct_alternative_keeps_its_warning_visible() {
    let mut report = hestia_report();
    let mut future_cpu =
        human_candidate("2.14.0", "cpu", CompatibilityStatus::DirectCompatible, None);
    future_cpu.warnings = vec![CandidateWarning::new(
        WarningCode::OfficialPreferenceUnknown,
    )];
    report.recommendation = None;
    report.install = None;
    report.alternatives = vec![future_cpu];
    report.excluded.clear();

    let rendered = render_recommendation(&report, 80);
    assert!(rendered.contains("No recommendation-eligible reviewed configuration"));
    assert!(rendered.contains("constraints."));
    assert!(rendered.contains("Needs review or verification"));
    assert!(rendered.contains("No reviewed PyTorch release preference is available"));
    assert!(!rendered.contains("Other options"));
}

#[test]
fn bacchus_human_output_keeps_the_reviewed_minor_compatible_gpu_choice() {
    let mut report = hestia_report();
    report.environment.nvidia.driver_version = Some("530.30.02".parse().expect("driver"));
    report.environment.nvidia.reported_cuda_version = Some("12.1".parse().expect("CUDA"));
    report.environment.nvidia.gpus = (0..8)
        .map(|index| NvidiaGpu {
            index,
            uuid: Some(format!("GPU-{index}")),
            name: "NVIDIA RTX A6000".to_owned(),
            compute_capability: Some(ComputeCapability { major: 8, minor: 6 }),
            driver_version: "530.30.02".parse().expect("driver"),
        })
        .collect();
    let mut recommendation = human_candidate(
        "2.13.0",
        "cu126",
        CompatibilityStatus::MinorCompatible,
        Some(1),
    );
    recommendation.warnings = vec![CandidateWarning::new(
        WarningCode::PtxOrNewDriverFeatureMayFail,
    )];
    report.recommendation = Some(recommendation);
    report.alternatives = vec![human_candidate(
        "2.13.0",
        "cpu",
        CompatibilityStatus::DirectCompatible,
        Some(3),
    )];
    report.excluded.clear();
    report.install.as_mut().expect("install").args = vec![
        "-m".to_owned(),
        "pip".to_owned(),
        "install".to_owned(),
        "--isolated".to_owned(),
        "--index-url".to_owned(),
        "https://download.pytorch.org/whl/cu126".to_owned(),
        "torch==2.13.0".to_owned(),
    ];

    let rendered = render_recommendation(&report, 80);
    assert!(rendered.contains("8× NVIDIA RTX A6000"));
    assert!(rendered.contains("PyTorch 2.13.0 + cu126 (minor-compatible)"));
    assert!(rendered.contains("PTX JIT or features that require a newer driver may fail."));
    assert!(rendered.contains("CPU fallback"));
    assert!(rendered.contains("PyTorch 2.13.0 + cpu (direct-compatible)"));
    assert!(!rendered.contains("No reviewed CUDA candidate passed all static checks."));
    assert_eq!(recommendation_exit_code(&report), ExitCode::Warning);
}

#[test]
fn human_duration_uses_two_highest_useful_units() {
    assert_eq!(human_duration(27_330), "7h 35m");
    assert_eq!(human_duration(90_000), "1d 1h");
    assert_eq!(human_duration(30), "30s");
}

#[test]
fn tty_styles_distinguish_sections_and_candidate_states() {
    assert_eq!(human_style_code("Recommendation"), Some("1;36"));
    assert_eq!(human_style_code("GPU alternatives"), Some("1;36"));
    assert_eq!(human_style_code("CPU fallback"), Some("1;36"));
    assert_eq!(
        human_style_code("  PyTorch 2.13.0 + cpu (direct-compatible)"),
        Some("32")
    );
    assert_eq!(
        human_style_code("  PyTorch 2.13.0 + cu129 (unverified)"),
        Some("33")
    );
    assert_eq!(human_style_code("  ordinary detail"), None);
}

fn arguments(values: &[&str]) -> Vec<String> {
    values.iter().map(|value| (*value).to_owned()).collect()
}

#[test]
fn bare_recommendation_options_insert_the_recommend_alias() {
    let prepared = prepare_arguments(arguments(&[
        "torch-check",
        "--format=json",
        "--installer",
        "uv",
        "--with",
        "torchvision",
    ]));
    assert_eq!(
        prepared,
        arguments(&[
            "torch-check",
            "--format=json",
            "recommend",
            "--installer",
            "uv",
            "--with",
            "torchvision",
        ])
    );
}

#[test]
fn explicit_subcommands_are_not_rewritten() {
    let given = arguments(&["torch-check", "--redact", "inspect"]);
    assert_eq!(prepare_arguments(given.clone()), given);
}

#[test]
fn flags_are_found_before_the_arguments_are_parsed() {
    assert!(json_format_requested(&arguments(&["torch-check", "--format=json", "x"])));
    assert!(json_format_requested(&arguments(&["torch-check", "--format", "json"])));
    assert!(!json_format_requested(&arguments(&["torch-check", "--format", "human"])));
    assert!(redact_requested(&arguments(&["torch-check", "--redact"])));
    assert!(!redact_requested(&arguments(&["torch-check", "--refresh"])));
}

/// Splits a command line as a POSIX shell does.
fn shell_split(line: &str) -> Vec<String> {
    let mut words: Vec<String> = Vec::new();
    let mut word: Option<String> = None;
    let mut quoted = false;
    let mut characters = line.trim_end_matches('\n').chars();
    while let Some(character) = characters.next() {
        match (quoted, character) {
            (true, '\'') => quoted = false,
            (true, other) => word.get_or_insert_with(String::new).push(other),
            (false, '\'') => {
                quoted = true;
                word.get_or_insert_with(String::new);
            }
            (false, '\\') => match characters.next() {
                Some('\n') | None => {}
                Some(other) => word.get_or_insert_with(String::new).push(other),
            },
            (false, ' ') => words.extend(word.take()),
            (false, other) => word.get_or_insert_with(String::new).push(other),
        }
    }
    assert!(!quoted, "unterminated quotation: {line}");
    words.extend(word);
    words
}

#[test]
fn long_shell_tokens_wrap_without_changing_argument_boundaries() {
    let long_argument = format!(
        "/tmp/{}",
        "日本語 path with 'quotes' and $dollars\\slashes/".repeat(5)
    );
    let command = CommandSpec {
        program: "printf".to_owned(),
        args: vec!["%s".to_owned(), long_argument.clone()],
        display: String::new(),
    };
    let mut rendered = String::new();
    write_command(&mut rendered, &command, 44);

    assert!(
        rendered.lines().all(|line| display_width(line) <= 44),
        "shell command exceeded terminal width:\n{rendered}"
    );
    assert!(
        rendered.lines().any(|line| !line.starts_with(' ')),
        "an intra-token continuation must begin in column zero:\n{rendered}"
    );
    assert_eq!(
        shell_split(&rendered),
        vec!["printf".to_owned(), "%s".to_owned(), long_argument]
    );

    let long_program = CommandSpec {
        program: format!("python-{}", "x".repeat(100)),
        args: vec!["--version".to_owned()],
        display: String::new(),
    };
    let mut rendered_program = String::new();
    write_command(&mut rendered_program, &long_program, 44);
    assert!(
        rendered_program
            .lines()
            .all(|line| display_width(line) <= 44),
        "long program exceeded terminal width:\n{rendered_program}"
    );
    assert_eq!(
        shell_split(&rendered_program),
        vec![long_program.program, "--version".to_owned()]
    );
}

#[test]
fn user_facing_copy_does_not_contain_known_misleading_claims() {
    let mut copy = String::new();
    for code in [
        WarningCode::PtxOrNewDriverFeatureMayFail,
        WarningCode::GpuArchitectureUnknown,
        WarningCode::StaleMetadata,
        WarningCode::NvidiaDetectionIncomplete,
        WarningCode::BuiltinPythonTags,
        WarningCode::OfficialPreferenceUnknown,
        WarningCode::NotOfficialReleaseConfiguration,
    ] {
        copy.push_str(&warning_text(&CandidateWarning::new(code)));
        copy.push('\n');
    }
    for code in [
        ReasonCode::WheelExists,
        ReasonCode::WheelMissing,
        ReasonCode::PythonWheelMissing,
        ReasonCode::PythonTagMatches,
        ReasonCode::AbiTagMatches,
        ReasonCode::WheelYanked,
        ReasonCode::PlatformTagMatches,
        ReasonCode::PlatformMismatch,
        ReasonCode::GlibcTooOld,
        ReasonCode::GlibcUnknown,
        ReasonCode::DriverSupportsCudaFamily,
        ReasonCode::DriverSupportsCudaVariant,
        ReasonCode::UsesCudaMinorCompatibility,
        ReasonCode::DriverTooOld,
        ReasonCode::DriverUnknown,
        ReasonCode::DriverNotRequired,
        ReasonCode::GpuArchitectureSupported,
        ReasonCode::GpuArchitectureUnsupported,
        ReasonCode::GpuArchitectureUnknown,
        ReasonCode::NvidiaGpuUnavailable,
        ReasonCode::VersionConstraintMatches,
        ReasonCode::VersionConstraintMismatch,
        ReasonCode::StableRelease,
        ReasonCode::Prerelease,
        ReasonCode::OfficialReleaseConfiguration,
        ReasonCode::NotOfficialReleaseConfiguration,
        ReasonCode::OfficialPreferenceUnknown,
        ReasonCode::RuntimeVerified,
        ReasonCode::RuntimeNotRun,
        ReasonCode::RuntimeVerificationFailed,
    ] {
        copy.push_str(&reason_text(&DecisionReason::new(code)));
        copy.push('\n');
    }
    for code in [
        DiagnosticCode::UnsupportedOperatingSystem,
        DiagnosticCode::UnsupportedArchitecture,
        DiagnosticCode::UnsupportedLibc,
        DiagnosticCode::GlibcUnknown,
        DiagnosticCode::PythonUnavailable,
        DiagnosticCode::UnsupportedPythonImplementation,
        DiagnosticCode::BuiltinPythonTags,
        DiagnosticCode::NvidiaSmiUnavailable,
        DiagnosticCode::NvidiaNoDevices,
        DiagnosticCode::NvidiaInspectionFailed,
        DiagnosticCode::NvidiaInspectionTimedOut,
        DiagnosticCode::ComputeCapabilityUnknown,
        DiagnosticCode::InvalidGpuSelection,
        DiagnosticCode::CudaVisibleDevicesSet,
        DiagnosticCode::InconsistentDriverVersions,
        DiagnosticCode::CudaToolkitNotFound,
        DiagnosticCode::CudnnInspectionFailed,
    ] {
        copy.push_str(&diagnostic_text(&Diagnostic::new(code, DiagnosticSeverity::Info)));
        copy.push('\n');
    }
    copy.push_str(&render_recommendation(&hestia_report(), 80));
    for forbidden in [
        "CUDA 12.1までしか使えません",
        "cu124 requires local CUDA Toolkit 12.4",
        "CUDA toolkit not found, so CUDA PyTorch cannot be installed",
    ] {
        assert!(
            !copy.contains(forbidden),
            "misleading output phrase is forbidden: {forbidden}"
        );
    }
}

#[test]
fn an_environment_is_shown_line_by_line() {
    let rendered = render_environment(&human_environment(), 120);
    assert_eq!(
        rendered,
        [
            "System",
            "  Ubuntu 22.04.2 LTS · x86_64 · kernel 5.19.0-32-generic",
            "  CPython 3.10.12 · cp310 · glibc 2.35",
            "  Python /usr/bin/python3",
            "",
            "NVIDIA",
            "  4× NVIDIA RTX PRO 6000 Blackwell Max-Q Workstation Edition",
            "    CC 12.0 · driver 575.57.08 · GPUs 0–3",
            "  Reported CUDA 12.9 · toolkit 12.1.1 · informational for wheels",
            "",
        ]
        .join("\n")
    );
}

#[test]
fn an_environment_without_anything_is_shown() {
    let environment = Environment {
        platform: PlatformInfo {
            os: OperatingSystem::Other("plan9".to_owned()),
            architecture: Architecture::Aarch64,
            kernel_version: None,
            distribution: None,
        },
        glibc: None,
        python: None,
        nvidia: NvidiaInfo {
            status: NvidiaDetectionStatus::CommandUnavailable,
            driver_version: None,
            reported_cuda_version: None,
            gpus: Vec::new(),
        },
        cuda_toolkit: None,
        diagnostics: vec![
            Diagnostic::new(DiagnosticCode::CudaToolkitNotFound, DiagnosticSeverity::Info),
            Diagnostic::new(
                DiagnosticCode::UnsupportedOperatingSystem,
                DiagnosticSeverity::Error,
            )
            .with_detail("os", "plan9"),
        ],
    };
    assert_eq!(
        render_environment(&environment, 80),
        [
            "System",
            "  plan9 · aarch64 · kernel unknown",
            "  Python not found · glibc unknown",
            "",
            "NVIDIA",
            "  nvidia-smi is unavailable.",
            "  Driver unknown",
            "  Reported CUDA unknown · toolkit not found · informational for wheels",
            "",
            "Environment notes",
            "  Error: The operating system is unsupported. (os=plan9)",
            "",
        ]
        .join("\n")
    );
    assert_eq!(environment_exit_code(&environment), ExitCode::Incompatible);
    assert_eq!(
        reject_environment_errors(&environment).as_deref(),
        Some("environment contains blocking diagnostics: unsupported_operating_system")
    );
}

#[test]
fn groups_keep_every_index_and_stand_in_order() {
    let mut environment = human_environment();
    environment.nvidia.gpus[0].name = "Zeta".to_owned();
    environment.nvidia.gpus[3].name = "Alpha".to_owned();
    environment.nvidia.gpus[3].compute_capability = None;
    let groups = group_gpus(&environment);
    let indices = groups.iter().map(|group| group.indices.clone()).collect::<Vec<_>>();
    assert_eq!(indices, vec![vec![0], vec![1, 2], vec![3]]);
    assert_eq!(groups[0].name, "Zeta");
    assert_eq!(groups[2].capability, None);
}

#[test]
fn ranges_of_indices_cover_the_indices() {
    assert_eq!(format_gpu_indices(&[]), "none");
    assert_eq!(format_gpu_indices(&[7]), "7");
    assert_eq!(format_gpu_indices(&[4, 2, 3, 2]), "2–4");
    assert_eq!(format_gpu_indices(&[u32::MAX, u32::MAX - 1, 0]), "0, 4294967294–4294967295");
}

#[test]
fn candidates_and_explanations_are_shown() {
    let report = hestia_report();
    let explained = ExplainReport {
        schema_version: SCHEMA_VERSION,
        environment: report.environment.clone(),
        metadata: report.metadata.clone(),
        candidate: report.excluded[0].clone(),
    };
    let page = render_explanation(&explained, 80);
    assert!(page.contains("PyTorch 2.13.0 + cu130 (incompatible)\n"), "{page}");
    assert!(page.contains("  GPU architecture: pass\n"), "{page}");
    assert!(page.contains("  Driver: fail\n    - "), "{page}");
    assert!(page.ends_with("Metadata: fresh cache · 7h 35m old · download.pytorch.org\n"), "{page}");

    let args = CandidatesArgs { all: true, ..CandidatesArgs::default() };
    let listing = list_candidates(report, &args);
    assert_eq!(listing.candidates.len(), 3);
    let page = render_candidates(&listing, 80);
    assert!(page.contains("\nCandidates (3)\n"), "{page}");
    assert!(page.contains("  PyTorch 2.13.0 + cu129 (unverified)\n"), "{page}");

    let nothing = CandidatesReport { candidates: Vec::new(), ..listing };
    let page = render_candidates(&nothing, 80);
    assert!(page.contains("\nCandidates (0)\n  No candidates matched.\n"), "{page}");
}

fn verification() -> VerificationReport {
    VerificationReport {
        schema_version: SCHEMA_VERSION,
        python_executable: FilePath::new("/home/user/.venv/bin/python"),
        status: CompatibilityStatus::Verified,
        torch_version: Some("2.13.0+cu130".to_owned()),
        compiled_cuda: Some("13.0".to_owned()),
        cuda_available: Some(true),
        device_count: Some(1),
        arch_list: vec!["sm_120".to_owned()],
        devices: vec![VerifiedDevice {
            index: 0,
            name: "NVIDIA A100".to_owned(),
            capability: ComputeCapability { major: 8, minor: 0 },
            operations_ok: true,
        }],
        gpu_selection: vec![VerificationGpuMapping {
            physical_index: 2,
            logical_index: 0,
            uuid: Some("GPU-1".to_owned()),
        }],
        cudnn_available: None,
        checks: vec![VerificationCheck {
            name: "import".to_owned(),
            passed: false,
            detail: Some("from /home/user/.venv/lib".to_owned()),
        }],
        diagnostics: Vec::new(),
        error: Some("no module in /home/user/.venv/bin/python".to_owned()),
    }
}

#[test]
fn a_verification_is_shown_line_by_line() {
    assert_eq!(
        render_verification(&verification(), 80),
        [
            "Verification",
            "  verified · PyTorch 2.13.0+cu130 · compiled CUDA 13.0",
            "  Python /home/user/.venv/bin/python",
            "  CUDA available yes · devices 1 · cuDNN unknown",
            "  GPU 0: NVIDIA A100 · SM 8.0 · operations passed",
            "  GPU mapping: physical 2 → logical 0 · GPU-1",
            "",
            "Checks",
            "  fail  import · from /home/user/.venv/lib",
            "  Error: no module in /home/user/.venv/bin/python",
            "",
        ]
        .join("\n")
    );
}

#[test]
fn redaction_removes_identifiers_and_paths() {
    let mut environment = human_environment();
    environment.diagnostics = vec![
        Diagnostic::new(DiagnosticCode::CudaVisibleDevicesSet, DiagnosticSeverity::Info)
            .with_detail("value", "GPU-3"),
        Diagnostic::new(DiagnosticCode::UnsupportedLibc, DiagnosticSeverity::Warning)
            .with_detail("path", "in /usr/bin/python3!"),
    ];
    redact_environment(&mut environment);
    assert!(environment.nvidia.gpus.iter().all(|gpu| gpu.uuid.is_none()));
    let python = environment.python.as_ref().expect("python");
    assert_eq!(python.executable.text, "<redacted>");
    let toolkit = environment.cuda_toolkit.as_ref().expect("toolkit");
    assert_eq!(toolkit.root, Some(FilePath::new("<redacted>")));
    let details = |at: usize, name: &str| {
        environment.diagnostics[at].details.get(name).expect("detail").clone()
    };
    assert_eq!(details(0, "value"), "<redacted>");
    assert_eq!(details(1, "path"), "in <redacted>!");
    assert_eq!(environment_exit_code(&environment), ExitCode::Warning);

    let mut report = hestia_report();
    redact_recommendation(&mut report);
    let install = report.install.expect("install");
    assert_eq!(install.program, "<redacted>");
    assert!(install.display.starts_with("'<redacted>' -m pip install"));

    let mut verified = verification();
    redact_verification(&mut verified, &human_environment());
    assert_eq!(verified.python_executable.text, "<redacted>");
    assert_eq!(verified.gpu_selection[0].uuid, None);
    assert_eq!(verified.error.as_deref(), Some("no module in <redacted>"));
    assert_eq!(verified.checks[0].detail.as_deref(), Some("from <redacted>/lib"));
}

#[test]
fn sensitive_values_are_replaced_one_after_another() {
    let values = arguments(&["/a/b", "", "/a"]);
    assert_eq!(
        redact_text("/a/b /a/c /a /x", &values),
        "<redacted> <redacted>/c <redacted> /x"
    );
    assert_eq!(redact_text("aaa", &arguments(&["aa"])), "<redacted>a");
}

#[test]
fn commands_conclude_with_answers() {
    let outcome = command_inspect(Ok(human_environment()), true);
    assert_eq!(outcome.status, ExitCode::Success);
    let shown = render_answer(&outcome.answer, 80);
    assert!(shown.contains("  Python <redacted>\n"), "{shown}");

    let outcome = command_inspect(Err(DetectError::InvalidOption("timeout")), false);
    assert_eq!(outcome.status, ExitCode::InternalError);
    assert_eq!(
        render_answer(&outcome.answer, 80),
        "torch-check: invalid detection option: timeout"
    );

    let mut blocked = human_environment();
    blocked.diagnostics.push(Diagnostic::new(
        DiagnosticCode::UnsupportedArchitecture,
        DiagnosticSeverity::Error,
    ));
    let failed = ready_environment(Ok(blocked)).expect_err("blocked");
    assert_eq!(failed.status, ExitCode::Incompatible);
    let Answer::Failure(error) = failed.answer else {
        panic!("a failure");
    };
    assert_eq!(error.error.kind, ErrorKind::Detection);
    assert_eq!(error.error.code, "environment_unsupported_or_invalid");
    assert!(ready_environment(Ok(human_environment())).is_ok());

    let failed = requested_version("torch>=2").expect_err("a range");
    assert_eq!(failed.status, ExitCode::Incompatible);
    assert_eq!(requested_version(" torch==v2.12.0 ").expect("exact"), "2.12.0");

    let Answer::Failure(error) = usage_failure("secret value", true).answer else {
        panic!("a failure");
    };
    assert_eq!(error.error.message, "invalid command-line arguments; run torch-check --help");
}

#[test]
fn verifications_are_planned_and_concluded() {
    let environment = human_environment();
    let failed = plan_verification(&environment, &[0]).err();
    assert!(failed.is_none());
    let plan = plan_verification(&environment, &[]).expect("plan");
    assert_eq!(plan.options.python_executable.text, "/usr/bin/python3");
    assert_eq!(plan.options.device_indices, None);
    let mut without = human_environment();
    without.python = None;
    assert!(plan_verification(&without, &[]).is_err());
    without = human_environment();
    without.nvidia.gpus[1].uuid = Some("GPU 1".to_owned());
    let failed = plan_verification(&without, &[1]).expect_err("unsafe identifier");
    let Answer::Failure(error) = failed.answer else {
        panic!("a failure");
    };
    assert_eq!(error.error.code, "gpu_visibility_mapping_failed");
    assert_eq!(
        error.error.message,
        "physical GPU 1 has no safe, queryable UUID for verification"
    );

    let outcome = command_verify(verification(), Vec::new(), &environment, false);
    assert_eq!(outcome.status, ExitCode::Success);
    let mut warned = human_environment();
    warned.diagnostics.push(Diagnostic::new(
        DiagnosticCode::CudaVisibleDevicesSet,
        DiagnosticSeverity::Warning,
    ));
    let outcome = command_verify(verification(), Vec::new(), &warned, true);
    assert_eq!(outcome.status, ExitCode::Warning);
    let mut failed = verification();
    failed.status = CompatibilityStatus::Incompatible;
    assert_eq!(verification_exit_code(&failed), ExitCode::Incompatible);
}

#[test]
fn a_driver_upgrade_is_suggested_for_a_newer_release() {
    let report = hestia_report();
    let (candidate, reason) = driver_upgrade_hint(&report).expect("upgrade");
    assert_eq!(
        driver_upgrade_text(&candidate, &reason),
        "PyTorch 2.13.0 + cu130 requires NVIDIA driver 580.65.06 or newer (detected 575.57.08)."
    );
    let mut newer = hestia_report();
    newer.recommendation.as_mut().expect("recommendation").torch_version = "2.14.0".to_owned();
    assert!(driver_upgrade_hint(&newer).is_none());
    newer.recommendation.as_mut().expect("recommendation").torch_version = "odd".to_owned();
    assert!(driver_upgrade_hint(&newer).is_some());
}

#[test]
fn widths_and_colors_follow_the_terminal() {
    assert_eq!(human_output_width(&Some("100".to_owned()), Some(50)), 100);
    assert_eq!(human_output_width(&Some("x".to_owned()), Some(50)), 50);
    assert_eq!(human_output_width(&None, None), 80);
    assert_eq!(human_output_width(&None, Some(10)), 44);
    assert_eq!(human_output_width(&Some("500".to_owned()), None), 120);
    assert!(human_color_enabled(true, false, &None, &None));
    assert!(!human_color_enabled(true, false, &Some("dumb".to_owned()), &None));
    assert!(!human_color_enabled(true, true, &None, &None));
    assert!(!human_color_enabled(true, false, &None, &Some("0".to_owned())));
    assert_eq!(style_output("System\nplain\nChecks"), "\u{1b}[1;36mSystem\u{1b}[0m\nplain\n\u{1b}[1;36mChecks\u{1b}[0m");
}

#[test]
fn texts_are_wrapped_at_words_and_long_words_are_split() {
    let mut output = String::new();
    write_wrapped(&mut output, "- ", "  ", "", 44);
    assert_eq!(output, "- \n");
    let mut output = String::new();
    let long = "x".repeat(60);
    write_wrapped(&mut output, "- ", "    ", &format!("one {long} two"), 44);
    assert_eq!(
        output,
        format!("- one\n    {}\n    {} two\n", "x".repeat(40), "x".repeat(20))
    );
}

#[test]
fn codes_have_names() {
    assert_eq!(diagnostic_code_name(DiagnosticCode::UnsupportedLibc), "unsupported_libc");
    assert_eq!(ExitCode::MetadataFailure.as_i32(), 3);
}

#[test]
fn redacted_json_parse_errors_are_structured_and_do_not_echo_values() {
    let secret = "/Users/alice/private-gpu-selection";
    let arguments = ["torch-check", "--format", "json", "--redact", "--gpu", secret, "inspect"]
        .iter()
        .map(|argument| (*argument).to_owned())
        .collect::<Vec<_>>();
    assert!(json_format_requested(&arguments));
    assert!(redact_requested(&arguments));
    let message = format!("error: invalid value '{secret}' for '--gpu <INDEX>'");
    let outcome = usage_failure(&message, redact_requested(&arguments));
    assert_eq!(outcome.status.as_i32(), 2);
    let Answer::Failure(value) = outcome.answer else {
        panic!("one error document");
    };
    assert_eq!(value.schema_version, 1);
    assert_eq!(value.error.kind, ErrorKind::Usage);
    assert_eq!(value.error.code, "invalid_arguments");
    assert!(!value.error.message.contains(secret));
    assert_eq!(
        value.error.message,
        "invalid command-line arguments; run torch-check --help"
    );
    let Answer::Failure(shown) = usage_failure(&message, false).answer else {
        panic!("one error document");
    };
    assert_eq!(shown.error.message, message);
}

#[test]
fn offline_mode_without_a_cache_returns_metadata_exit_code() {
    let offline = IndexOptions { offline: true, ..IndexOptions::default() };
    let LoadStep::Failed(error) = begin_load(&offline, &vec!["torch".to_owned()], Ok(None), 5)
    else {
        panic!("nothing is cached");
    };
    let outcome = command_recommend(
        &human_environment(),
        Err(error),
        &ResolverOptions::default(),
        DriverRules { schema_version: 0, families: Vec::new(), variants: Vec::new() },
        ReleaseRules { schema_version: 0, releases: Vec::new(), gpu_architectures: Vec::new() },
        false,
    );
    assert_eq!(outcome.status.as_i32(), 3);
    let Answer::Failure(value) = outcome.answer else {
        panic!("one error document");
    };
    assert_eq!(value.error.kind, ErrorKind::Metadata);
}

#[test]
fn wrapped_lines_stay_within_the_width() {
    let text = "a word, a longwordthatdoesnotfitononelineofthewidththatisasked, \
        \u{4e16}\u{754c}\u{4e16}\u{754c}\u{4e16}\u{754c}\u{4e16}\u{754c} and the rest of it all";
    for width in [0, 44, 45, 61, 120] {
        let mut output = String::new();
        write_wrapped(&mut output, "- ", "  ", text, width);
        assert!(output.lines().all(|line| display_width(line) <= width.max(44)), "{output}");
        let kept = output.chars().filter(|character| !" -\n".contains(*character));
        assert!(kept.eq(text.chars().filter(|character| *character != ' ')), "{output}");
    }
}

#[test]
fn known_identifiers_leave_every_text_of_a_redacted_report() {
    let mut environment = human_environment();
    environment.nvidia.gpus[0].uuid = Some("GPU-aaaaaaaa".to_owned());
    environment.diagnostics = vec![Diagnostic::new(
        DiagnosticCode::NvidiaInspectionFailed,
        DiagnosticSeverity::Warning,
    )
    .with_detail("error", "GPU-aaaaaaaa is lost")];
    let known = environment.clone();
    redact_environment(&mut environment);
    assert_eq!(environment.diagnostics[0].details.get("error").expect("detail"), "<redacted> is lost");

    let mut report = verification();
    report.gpu_selection[0].uuid = Some("GPU-bbbbbbbb".to_owned());
    report.checks[0].detail = Some("GPU-aaaaaaaa and GPU-bbbbbbbb".to_owned());
    report.error = Some("GPU-bbbbbbbb in /home/user/.venv/lib".to_owned());
    let mappings = report.gpu_selection.clone();
    let Answer::Verification(shown) = command_verify(report, mappings, &known, true).answer else {
        panic!("a report");
    };
    assert_eq!(shown.checks[0].detail.as_deref(), Some("<redacted> and <redacted>"));
    assert_eq!(shown.error.as_deref(), Some("<redacted> in <redacted>/lib"));
    assert_eq!(
        shown.diagnostics[0].details.get("error").expect("detail"),
        "<redacted> is lost"
    );
}

#[test]
fn prepared_arguments_stay_as_they_are() {
    let given = arguments(&["torch-check", "--python", "/usr/bin/python3", "--offline", "--with", "x"]);
    let prepared = prepare_arguments(given);
    assert_eq!(prepared[4], "recommend");
    assert_eq!(prepare_arguments(prepared.clone()), prepared);
    let named = arguments(&["torch-check", "--gpu", "recommend", "--format=json", "verify", "--with"]);
    assert_eq!(prepare_arguments(named.clone()), named);
}

#[test]
fn notes_stand_only_where_there_is_something_to_note() {
    let mut environment = human_environment();
    environment.diagnostics = vec![Diagnostic::new(
        DiagnosticCode::CudaToolkitNotFound,
        DiagnosticSeverity::Info,
    )];
    assert!(!render_environment(&environment, 80).contains("Environment notes"));
    environment.diagnostics.push(Diagnostic::new(
        DiagnosticCode::GlibcUnknown,
        DiagnosticSeverity::Warning,
    ));
    let page = render_environment(&environment, 80);
    assert!(page.contains("\n\nEnvironment notes\n  Warning: "), "{page}");
}

#[test]
fn no_text_of_an_environment_passes_for_the_heading_of_the_notes() {
    let mut environment = human_environment();
    environment.platform.distribution = Some("Environment notes\nEnvironment notes".to_owned());
    environment.nvidia.gpus[0].name = "\nEnvironment notes\n".to_owned();
    environment.diagnostics = Vec::new();
    let page = render_environment(&environment, 80);
    assert!(page.lines().all(|line| line != "Environment notes"), "{page}");
}

#[test]
fn plain_lines_have_no_more_characters_than_columns() {
    let text = "x".repeat(200) + " and " + &"word ".repeat(60);
    for width in [44, 50, 79] {
        let prefix = " ".repeat(width - 1);
        for prefixes in [("- ", "  "), (prefix.as_str(), prefix.as_str())] {
            let mut output = String::new();
            write_wrapped(&mut output, prefixes.0, prefixes.1, &text, width);
            assert!(output.lines().all(|line| line.len() <= width), "{output}");
            assert!(output.lines().all(|line| display_width(line) == line.len()));
        }
    }
}
