//! Tests of the resolver.

use torch_check::checks::{
    aggregate_status, evaluate_driver, evaluate_gpu_architecture, evaluate_platform,
    is_stable_version,
    platform_wheel_status, PlatformMatch,
};
use torch_check::details::Details;
use torch_check::model::{
    Architecture, Candidate, CheckStatus, CompatibilityCheck, CompatibilityChecks,
    CompatibilityStatus, ComputeCapability, CudaToolkitInfo, CudaVariant, Diagnostic,
    DiagnosticCode, DiagnosticSeverity, Environment, FilePath, IndexSnapshot, Installer,
    MetadataInfo, MetadataOrigin, NvidiaDetectionStatus, NvidiaGpu, NvidiaInfo, OperatingSystem,
    PlatformInfo, PythonInfo, ReasonCode, RecommendationReport, TagSource, ToolkitSource,
    TorchWheel, WarningCode,
};
use torch_check::resolver::{
    build_install_command, parse_version_specifier, path_to_string, shell_display, sort_candidates,
    CompanionSet,
    ResolverOptions,
};
use torch_check::rules::{
    release_series, CompanionPackage, DriverFamilyRule, DriverRules, DriverVariantRule,
    GpuArchitectureRule, ReleaseRule, ReleaseRules, ResolverError, RuleSet,
};

fn family(cuda_major: u16, minimum: &str) -> DriverFamilyRule {
    DriverFamilyRule { cuda_major, linux_min_driver: minimum.parse().expect("driver") }
}

fn exact(variant: &str, minimum: &str) -> DriverVariantRule {
    DriverVariantRule {
        variant: variant.parse().expect("variant"),
        linux_min_driver: minimum.parse().expect("driver"),
    }
}

fn driver_rules() -> DriverRules {
    DriverRules {
        schema_version: 1,
        families: vec![
            family(11, "450.80.02"),
            family(12, "525.60.13"),
            family(13, "580.65.06"),
        ],
        variants: vec![
            exact("cu110", "450.36.06"),
            exact("cu121", "530.30.02"),
            exact("cu124", "550.54.14"),
            exact("cu126", "560.28.03"),
            exact("cu128", "570.26"),
            exact("cu129", "575.51.03"),
            exact("cu130", "580.65.06"),
        ],
    }
}

fn variants(names: &[&str]) -> Vec<CudaVariant> {
    names.iter().map(|name| name.parse().expect("variant")).collect()
}

fn texts(values: &[&str]) -> Vec<String> {
    values.iter().map(|value| (*value).to_owned()).collect()
}

fn release(series: &str, preferred: &str, others: &[&str], vision: Option<u16>) -> ReleaseRule {
    ReleaseRule {
        series: series.to_owned(),
        preferred_variant: preferred.parse().expect("variant"),
        variants: variants(others),
        torchvision_minor: vision,
        torchaudio_series: Some(series.to_owned()),
    }
}

fn architectures(
    series: &str,
    version: &str,
    names: &[&str],
    cubins: &[&str],
    ptx: Option<&str>,
) -> GpuArchitectureRule {
    GpuArchitectureRule {
        series: series.to_owned(),
        versions: texts(&[version]),
        variants: variants(names),
        platform: "linux_x86_64".to_owned(),
        cubin_capabilities: texts(cubins),
        ptx_capability: ptx.map(str::to_owned),
    }
}

fn release_rules() -> ReleaseRules {
    let older = ["5.0", "6.0", "7.0", "7.5", "8.0", "8.6", "9.0"];
    let newer = ["7.5", "8.0", "8.6", "9.0", "10.0", "12.0"];
    ReleaseRules {
        schema_version: 3,
        releases: vec![
            release("2.13", "cu130", &["cu126", "cu130", "cpu"], Some(28)),
            release("2.12", "cu130", &["cu126", "cu130", "cpu"], Some(27)),
            release("2.11", "cu128", &["cu126", "cu128", "cu130", "cpu"], Some(26)),
            release("2.10", "cu128", &["cu126", "cu128", "cu130", "cpu"], Some(25)),
            release("2.9", "cu128", &["cu126", "cu128", "cu130", "cpu"], Some(24)),
        ],
        gpu_architectures: vec![
            architectures("2.6", "2.6.0", &["cu121", "cu124", "cu126"], &older, None),
            architectures("2.13", "2.13.0", &["cu126"], &older, None),
            architectures("2.13", "2.13.0", &["cu130"], &newer, Some("12.0")),
            architectures("2.11", "2.11.0", &["cu126"], &older, None),
            architectures("2.11", "2.11.0", &["cu128", "cu130"], &newer, Some("12.0")),
            architectures("2.10", "2.10.0", &["cu126"], &older, None),
            architectures("2.10", "2.10.0", &["cu128", "cu130"], &newer, Some("12.0")),
            architectures("2.9", "2.9.1", &["cu126"], &older, None),
            architectures("2.9", "2.9.1", &["cu128", "cu129"], &newer, Some("12.0")),
        ],
    }
}

fn load_rules() -> Result<RuleSet, ResolverError> {
    RuleSet::load(driver_rules(), release_rules())
}

fn resolve(
    environment: &Environment,
    snapshot: &IndexSnapshot,
    metadata: MetadataInfo,
    options: &ResolverOptions,
) -> Result<RecommendationReport, ResolverError> {
    torch_check::resolver::resolve(
        environment,
        snapshot,
        metadata,
        options,
        driver_rules(),
        release_rules(),
    )
}

fn explain(
    environment: &Environment,
    snapshot: &IndexSnapshot,
    metadata: MetadataInfo,
    version: &str,
    variant: &CudaVariant,
    options: &ResolverOptions,
) -> Result<Candidate, ResolverError> {
    torch_check::resolver::explain(
        environment,
        snapshot,
        metadata,
        version,
        variant,
        options,
        driver_rules(),
        release_rules(),
    )
}

fn libc_details() -> Details {
    let mut details = Details::new();
    details.insert("libc".to_owned(), "musl".to_owned());
    details
}

fn environment(driver: &str, reported: &str) -> Environment {
    Environment {
        platform: PlatformInfo {
            os: OperatingSystem::Linux,
            architecture: Architecture::X86_64,
            kernel_version: Some("6.8.0".to_owned()),
            distribution: Some("Ubuntu 22.04".to_owned()),
        },
        glibc: Some("2.35".parse().expect("valid glibc")),
        python: Some(PythonInfo {
            executable: FilePath::new("/usr/bin/python3"),
            implementation: "cpython".to_owned(),
            version: "3.13.0".parse().expect("valid Python"),
            soabi: Some("cpython-313-x86_64-linux-gnu".to_owned()),
            cache_tag: Some("cpython-313".to_owned()),
            platform: "linux-x86_64".to_owned(),
            pointer_width: 64,
            free_threaded: false,
            virtual_environment: None,
            compatible_tags: vec![
                "cp313-cp313-manylinux_2_28_x86_64".to_owned(),
                "cp313-cp313-manylinux_2_17_x86_64".to_owned(),
            ],
            tag_source: TagSource::Packaging,
        }),
        nvidia: NvidiaInfo {
            status: NvidiaDetectionStatus::Detected,
            driver_version: Some(driver.parse().expect("valid driver")),
            reported_cuda_version: Some(reported.parse().expect("valid reported CUDA")),
            gpus: vec![NvidiaGpu {
                index: 0,
                uuid: Some("GPU-test".to_owned()),
                name: "NVIDIA A100".to_owned(),
                compute_capability: Some(ComputeCapability { major: 8, minor: 0 }),
                driver_version: driver.parse().expect("valid driver"),
            }],
        },
        cuda_toolkit: None,
        diagnostics: Vec::new(),
    }
}

fn wheel(version: &str, variant: &str) -> TorchWheel {
    TorchWheel {
        package: "torch".to_owned(),
        filename: format!("torch-{version}+{variant}-cp313-cp313-manylinux_2_28_x86_64.whl"),
        version: format!("{version}+{variant}"),
        public_version: version.to_owned(),
        variant: variant.parse().expect("valid variant"),
        python_tags: vec!["cp313".to_owned()],
        abi_tags: vec!["cp313".to_owned()],
        platform_tags: vec!["manylinux_2_28_x86_64".to_owned()],
        url: format!("https://download-r2.pytorch.org/whl/{variant}/test.whl"),
        sha256: Some("00".repeat(32)),
        yanked: false,
        requires_python: Some(">=3.9".to_owned()),
    }
}

fn metadata() -> MetadataInfo {
    MetadataInfo {
        origin: MetadataOrigin::Network,
        fetched_at: 1,
        age_seconds: 0,
        stale: false,
        source: "https://download.pytorch.org/whl/".to_owned(),
    }
}

fn snapshot(wheels: Vec<TorchWheel>) -> IndexSnapshot {
    IndexSnapshot {
        schema_version: 1,
        fetched_at: 1,
        source: "https://download.pytorch.org/whl/".to_owned(),
        packages: vec!["torch".to_owned()],
        variants: vec!["cu121".parse().expect("valid variant")],
        wheels,
    }
}

#[test]
fn case_a_normal_minimum_is_direct() {
    let env = environment("530.30.02", "12.1");
    let snapshot = snapshot(vec![wheel("2.6.0", "cu121")]);
    let report = resolve(&env, &snapshot, metadata(), &ResolverOptions::default())
        .expect("resolution succeeds");
    assert!(report.recommendation.is_none());
    assert_eq!(
        report.alternatives[0].compatibility,
        CompatibilityStatus::DirectCompatible,
        "tag-pinned 2.6 architecture evidence should complete the static checks"
    );
    let driver = evaluate_driver(
        &env,
        &"cu121".parse().expect("variant"),
        &load_rules().expect("rules"),
    );
    assert!(
        driver
            .reasons
            .iter()
            .any(|reason| { reason.code == ReasonCode::DriverSupportsCudaVariant })
    );
}

#[test]
fn case_b_reported_cuda_is_not_a_ceiling() {
    let env = environment("530.30.02", "12.1");
    let driver = evaluate_driver(
        &env,
        &"cu124".parse().expect("variant"),
        &load_rules().expect("rules"),
    );
    assert_eq!(driver.status, CheckStatus::Pass);
    assert!(
        driver
            .reasons
            .iter()
            .any(|reason| { reason.code == ReasonCode::UsesCudaMinorCompatibility })
    );
}

#[test]
fn case_c_cuda_13_requires_newer_driver_family() {
    let env = environment("530.30.02", "12.1");
    let driver = evaluate_driver(
        &env,
        &"cu130".parse().expect("variant"),
        &load_rules().expect("rules"),
    );
    assert_eq!(driver.status, CheckStatus::Fail);
    assert_eq!(driver.reasons[0].code, ReasonCode::DriverTooOld);
}

#[test]
fn local_toolkit_does_not_change_driver_compatibility() {
    let without = environment("530.30.02", "12.1");
    let mut with = without.clone();
    with.cuda_toolkit = Some(CudaToolkitInfo {
        version: "12.8".parse().expect("toolkit"),
        root: Some(FilePath::new("/usr/local/cuda")),
        source: ToolkitSource::VersionJson,
    });
    let rules = load_rules().expect("rules");
    let variant = "cu124".parse().expect("variant");
    assert_eq!(
        evaluate_driver(&without, &variant, &rules),
        evaluate_driver(&with, &variant, &rules)
    );
}

#[test]
fn cp313_environment_marks_cp312_only_wheel_unavailable() {
    let env = environment("530.30.02", "12.1");
    let mut cp312 = wheel("2.6.0", "cu121");
    cp312.filename = "torch-2.6.0+cu121-cp312-cp312-manylinux_2_28_x86_64.whl".to_owned();
    cp312.python_tags = vec!["cp312".to_owned()];
    cp312.abi_tags = vec!["cp312".to_owned()];
    let report = resolve(
        &env,
        &snapshot(vec![cp312]),
        metadata(),
        &ResolverOptions::default(),
    )
    .expect("resolution succeeds");

    assert!(report.recommendation.is_none());
    assert_eq!(
        report.excluded[0].compatibility,
        CompatibilityStatus::Unavailable
    );
    assert_eq!(report.excluded[0].checks.python.status, CheckStatus::Fail);
}

#[test]
fn resolver_rejects_blocking_detection_diagnostics() {
    let mut env = environment("530.30.02", "12.1");
    env.diagnostics.push(Diagnostic {
        code: DiagnosticCode::UnsupportedLibc,
        severity: DiagnosticSeverity::Error,
        details: libc_details(),
    });

    assert!(matches!(
        resolve(
            &env,
            &snapshot(vec![wheel("2.6.0", "cpu")]),
            metadata(),
            &ResolverOptions::default(),
        ),
        Err(ResolverError::InvalidEnvironment(_))
    ));
}

#[test]
fn reported_cuda_does_not_change_driver_compatibility() {
    let first = environment("530.30.02", "12.1");
    let second = environment("530.30.02", "12.9");
    let rules = load_rules().expect("rules");
    let variant = "cu124".parse().expect("variant");
    assert_eq!(
        evaluate_driver(&first, &variant, &rules),
        evaluate_driver(&second, &variant, &rules)
    );
}

#[test]
fn manylinux_floor_is_numeric() {
    let mut env = environment("580.65.06", "13.0");
    env.glibc = Some("2.27".parse().expect("glibc"));
    assert!(matches!(
        platform_wheel_status(&wheel("2.13.0", "cu130"), &env),
        PlatformMatch::GlibcTooOld(_)
    ));
    env.glibc = Some("2.28".parse().expect("glibc"));
    assert!(matches!(
        platform_wheel_status(&wheel("2.13.0", "cu130"), &env),
        PlatformMatch::Pass
    ));
}

#[test]
fn generated_pip_command_targets_selected_python_and_is_shell_quoted() {
    let mut env = environment("580.65.06", "13.0");
    env.python.as_mut().expect("python").executable =
        FilePath::new("/tmp/Python Env/bin/python");
    let candidate = Candidate {
        torch_version: "2.13.0".to_owned(),
        variant: "cu130".parse().expect("variant"),
        compatibility: CompatibilityStatus::DirectCompatible,
        checks: CompatibilityChecks {
            wheel: CompatibilityCheck::new(CheckStatus::Pass, Vec::new()),
            python: CompatibilityCheck::new(CheckStatus::Pass, Vec::new()),
            platform: CompatibilityCheck::new(CheckStatus::Pass, Vec::new()),
            gpu_architecture: CompatibilityCheck::new(CheckStatus::Pass, Vec::new()),
            driver: CompatibilityCheck::new(CheckStatus::Pass, Vec::new()),
            runtime: CompatibilityCheck::new(CheckStatus::Unknown, Vec::new()),
        },
        wheel: None,
        stable: true,
        official_preference: Some(1),
        warnings: Vec::new(),
    };
    let command = build_install_command(
        &env,
        &snapshot(vec![]),
        &candidate,
        &ResolverOptions::default(),
        &load_rules().expect("rules"),
    )
    .expect("command");
    assert_eq!(command.program, "/tmp/Python Env/bin/python");
    assert!(command.display.starts_with("'/tmp/Python Env/bin/python'"));
    assert!(command.args.contains(&"--index-url".to_owned()));
}

#[test]
fn non_utf8_python_paths_never_become_lossy_install_commands() {
    let path = FilePath { text: "/x\u{fffd}".to_owned(), utf8: false };
    assert!(matches!(
        path_to_string(&path),
        Err(ResolverError::NonUtf8PythonPath)
    ));
}

#[test]
fn terminal_control_characters_in_python_paths_are_rejected() {
    for path in [
        "/tmp/python\nshim",
        "/tmp/python\u{00a0}shim",
        "/tmp/python\u{061c}shim",
        "/tmp/python\u{2028}shim",
        "/tmp/python\u{3000}shim",
    ] {
        assert!(matches!(
            path_to_string(&FilePath::new(path)),
            Err(ResolverError::UnsafePythonPath)
        ));
    }
    for path in [
        "/tmp/Python Env/bin/python",
        "/tmp/python'$;shim",
        "/tmp/日本語/python",
    ] {
        assert_eq!(path_to_string(&FilePath::new(path)).expect("safe path"), path);
    }
}

#[test]
fn pep440_alpha_beta_rc_and_dev_releases_are_not_stable() {
    for version in ["2.14.0a1", "2.14.0b1", "2.14.0rc1", "2.14.0.dev1"] {
        assert!(
            !is_stable_version(version),
            "{version} must be a prerelease"
        );
    }
    assert!(is_stable_version("2.14.0"));
}

#[test]
fn cuda_11_0_exact_driver_exception_precedes_family_minimum() {
    let env = environment("450.36.06", "11.0");
    let driver = evaluate_driver(
        &env,
        &"cu110".parse().expect("variant"),
        &load_rules().expect("rules"),
    );
    assert_eq!(driver.status, CheckStatus::Pass);
    assert!(
        driver
            .reasons
            .iter()
            .any(|reason| { reason.code == ReasonCode::DriverSupportsCudaVariant })
    );
    assert!(
        !driver
            .reasons
            .iter()
            .any(|reason| { reason.code == ReasonCode::UsesCudaMinorCompatibility })
    );
}

#[test]
fn gpu_architecture_accepts_same_major_cubin_and_forward_ptx() {
    let rules = load_rules().expect("rules");
    let variant = "cu130".parse().expect("variant");
    let mut env = environment("580.65.06", "13.0");
    env.nvidia.gpus[0].compute_capability = Some(ComputeCapability { major: 8, minor: 9 });
    assert_eq!(
        evaluate_gpu_architecture(&env, "2.13.0", &variant, &rules).status,
        CheckStatus::Pass,
        "sm_86 cubin is compatible with a compute capability 8.9 device"
    );

    env.nvidia.gpus[0].compute_capability = Some(ComputeCapability {
        major: 12,
        minor: 1,
    });
    assert_eq!(
        evaluate_gpu_architecture(&env, "2.13.0", &variant, &rules).status,
        CheckStatus::Pass,
        "compute_120 PTX is forward-compatible with 12.1"
    );
}

#[test]
fn architecture_evidence_does_not_leak_to_an_unreviewed_patch_release() {
    let rules = load_rules().expect("rules");
    let variant = "cu128".parse().expect("variant");
    let mut env = environment("575.57.08", "12.9");
    env.nvidia.gpus[0].compute_capability = Some(ComputeCapability {
        major: 12,
        minor: 0,
    });

    assert_eq!(
        evaluate_gpu_architecture(&env, "2.10.0", &variant, &rules).status,
        CheckStatus::Pass
    );
    assert_eq!(
        evaluate_gpu_architecture(&env, "2.10.1", &variant, &rules).status,
        CheckStatus::Unknown,
        "a future patch must not inherit v2.10.0 build evidence"
    );
}

#[test]
fn official_default_cuda_variant_has_first_preference() {
    let rules = load_rules().expect("rules");
    assert_eq!(
        rules.official_preference("2.13.0", &"cu130".parse().expect("variant")),
        Some(0)
    );
    assert!(rules.official_preference("2.13.0", &"cu126".parse().expect("variant")) > Some(0));
}

#[test]
fn bacchus_recommends_reviewed_minor_compatible_cuda() {
    let mut env = environment("530.30.02", "12.1");
    env.nvidia.gpus[0].name = "NVIDIA RTX A6000".to_owned();
    env.nvidia.gpus[0].compute_capability = Some(ComputeCapability { major: 8, minor: 6 });
    let report = resolve(
        &env,
        &snapshot(vec![
            wheel("2.13.0", "cu126"),
            wheel("2.13.0", "cu129"),
            wheel("2.13.0", "cpu"),
        ]),
        metadata(),
        &ResolverOptions::default(),
    )
    .expect("resolution succeeds");

    let recommendation = report.recommendation.expect("reviewed CUDA candidate");
    assert_eq!(recommendation.variant, "cu126".parse().expect("variant"));
    assert_eq!(
        recommendation.compatibility,
        CompatibilityStatus::MinorCompatible
    );
    assert!(
        recommendation
            .warnings
            .iter()
            .any(|warning| { warning.code == WarningCode::PtxOrNewDriverFeatureMayFail })
    );

    let index_only = report
        .alternatives
        .iter()
        .find(|candidate| candidate.variant == "cu129".parse().expect("variant"))
        .expect("index-only CUDA candidate remains visible");
    assert!(
        index_only
            .warnings
            .iter()
            .any(|warning| { warning.code == WarningCode::NotOfficialReleaseConfiguration })
    );
    assert!(
        index_only
            .checks
            .wheel
            .reasons
            .iter()
            .any(|reason| { reason.code == ReasonCode::NotOfficialReleaseConfiguration })
    );
}

#[test]
fn hestia_recommends_newest_reviewed_cuda_with_sm120_support() {
    let mut env = environment("575.57.08", "12.9");
    env.nvidia.gpus[0].name =
        "NVIDIA RTX PRO 6000 Blackwell Max-Q Workstation Edition".to_owned();
    env.nvidia.gpus[0].compute_capability = Some(ComputeCapability {
        major: 12,
        minor: 0,
    });
    let report = resolve(
        &env,
        &snapshot(vec![
            wheel("2.13.0", "cu126"),
            wheel("2.13.0", "cu129"),
            wheel("2.13.0", "cu130"),
            wheel("2.13.0", "cpu"),
            wheel("2.11.0", "cu126"),
            wheel("2.11.0", "cu128"),
            wheel("2.11.0", "cpu"),
            wheel("2.10.0", "cu126"),
            wheel("2.10.0", "cu128"),
            wheel("2.10.0", "cpu"),
        ]),
        metadata(),
        &ResolverOptions::default(),
    )
    .expect("resolution succeeds");

    let recommendation = report.recommendation.expect("reviewed CUDA candidate");
    assert_eq!(recommendation.torch_version, "2.11.0");
    assert_eq!(recommendation.variant, "cu128".parse().expect("variant"));
    assert_eq!(
        recommendation.compatibility,
        CompatibilityStatus::DirectCompatible
    );
    assert!(
        report
            .install
            .as_ref()
            .expect("CUDA install command")
            .args
            .iter()
            .any(|argument| argument == "https://download.pytorch.org/whl/cu128")
    );

    let older_cuda = report
        .alternatives
        .iter()
        .find(|candidate| {
            candidate.torch_version == "2.10.0"
                && candidate.variant == "cu128".parse().expect("variant")
        })
        .expect("older statically compatible CUDA remains an alternative");
    assert_eq!(
        older_cuda.compatibility,
        CompatibilityStatus::DirectCompatible
    );

    let cpu_fallback = report
        .alternatives
        .iter()
        .find(|candidate| {
            candidate.torch_version == "2.13.0" && candidate.variant == CudaVariant::Cpu
        })
        .expect("newer CPU build remains available as a fallback");
    assert_eq!(
        cpu_fallback.compatibility,
        CompatibilityStatus::DirectCompatible
    );

    let index_only = report
        .alternatives
        .iter()
        .find(|candidate| {
            candidate.torch_version == "2.13.0"
                && candidate.variant == "cu129".parse().expect("variant")
        })
        .expect("cu129 remains an alternative");
    assert_eq!(index_only.compatibility, CompatibilityStatus::Unverified);
    assert!(
        index_only
            .warnings
            .iter()
            .any(|warning| { warning.code == WarningCode::NotOfficialReleaseConfiguration })
    );
    assert!(
        index_only
            .checks
            .wheel
            .reasons
            .iter()
            .any(|reason| { reason.code == ReasonCode::NotOfficialReleaseConfiguration })
    );

    for version in ["2.11.0", "2.10.0"] {
        let unsupported = report
            .excluded
            .iter()
            .find(|candidate| {
                candidate.torch_version == version
                    && candidate.variant == "cu126".parse().expect("variant")
            })
            .expect("CUDA 12.6 does not contain sm_120");
        assert_eq!(unsupported.compatibility, CompatibilityStatus::Incompatible);
        assert!(
            unsupported
                .checks
                .gpu_architecture
                .reasons
                .iter()
                .any(|reason| reason.code == ReasonCode::GpuArchitectureUnsupported)
        );
    }
}

#[test]
fn tagged_2_9_patch_evidence_covers_reviewed_and_index_only_sm120_wheels() {
    let mut env = environment("575.57.08", "12.9");
    env.nvidia.gpus[0].compute_capability = Some(ComputeCapability {
        major: 12,
        minor: 0,
    });
    let report = resolve(
        &env,
        &snapshot(vec![
            wheel("2.9.1", "cu126"),
            wheel("2.9.1", "cu128"),
            wheel("2.9.1", "cu129"),
        ]),
        metadata(),
        &ResolverOptions::default(),
    )
    .expect("resolution succeeds");

    let recommendation = report.recommendation.expect("reviewed CUDA candidate");
    assert_eq!(recommendation.torch_version, "2.9.1");
    assert_eq!(recommendation.variant, "cu128".parse().expect("variant"));
    assert_eq!(
        recommendation.compatibility,
        CompatibilityStatus::DirectCompatible
    );

    let index_only = report
        .alternatives
        .iter()
        .find(|candidate| candidate.variant == "cu129".parse().expect("variant"))
        .expect("index-only build remains inspectable");
    assert_eq!(
        index_only.compatibility,
        CompatibilityStatus::DirectCompatible
    );
    assert!(index_only.official_preference.is_none());
    assert!(
        index_only
            .warnings
            .iter()
            .any(|warning| warning.code == WarningCode::NotOfficialReleaseConfiguration)
    );

    let unsupported = report
        .excluded
        .iter()
        .find(|candidate| candidate.variant == "cu126".parse().expect("variant"))
        .expect("cu126 lacks sm_120");
    assert_eq!(
        unsupported.checks.gpu_architecture.status,
        CheckStatus::Fail
    );
}

#[test]
fn hestia_uses_cpu_fallback_when_no_reviewed_sm120_cuda_wheel_is_available() {
    let mut env = environment("575.57.08", "12.9");
    env.nvidia.gpus[0].compute_capability = Some(ComputeCapability {
        major: 12,
        minor: 0,
    });
    let report = resolve(
        &env,
        &snapshot(vec![
            wheel("2.13.0", "cu126"),
            wheel("2.13.0", "cu129"),
            wheel("2.13.0", "cu130"),
            wheel("2.13.0", "cpu"),
            wheel("2.11.0", "cu126"),
        ]),
        metadata(),
        &ResolverOptions::default(),
    )
    .expect("resolution succeeds");

    let recommendation = report.recommendation.expect("reviewed CPU fallback");
    assert_eq!(recommendation.torch_version, "2.13.0");
    assert_eq!(recommendation.variant, CudaVariant::Cpu);
    assert_eq!(
        recommendation.compatibility,
        CompatibilityStatus::DirectCompatible
    );
    assert!(
        report
            .install
            .as_ref()
            .expect("CPU install command")
            .args
            .iter()
            .any(|argument| argument == "https://download.pytorch.org/whl/cpu")
    );
}

#[test]
fn version_constraint_is_a_hard_candidate_filter() {
    let env = environment("580.65.06", "13.0");
    let options = ResolverOptions {
        torch_version: Some("2.10".to_owned()),
        ..ResolverOptions::default()
    };
    let report = resolve(
        &env,
        &snapshot(vec![
            wheel("2.13.0", "cu130"),
            wheel("2.13.0", "cpu"),
            wheel("2.10.0", "cu128"),
            wheel("2.10.0", "cpu"),
        ]),
        metadata(),
        &options,
    )
    .expect("resolution succeeds");

    let candidates = report
        .recommendation
        .iter()
        .chain(&report.alternatives)
        .chain(&report.excluded)
        .collect::<Vec<_>>();
    assert!(!candidates.is_empty());
    assert!(
        candidates
            .iter()
            .all(|candidate| candidate.torch_version == "2.10.0")
    );
    assert!(candidates.iter().all(|candidate| {
        candidate
            .checks
            .wheel
            .reasons
            .iter()
            .all(|reason| reason.code != ReasonCode::VersionConstraintMismatch)
    }));
}

#[test]
fn generic_linux_wheel_does_not_claim_a_verified_glibc_floor() {
    let env = environment("580.65.06", "13.0");
    let mut generic = wheel("2.13.0", "cu130");
    generic.platform_tags = vec!["linux_x86_64".to_owned()];
    assert!(matches!(
        platform_wheel_status(&generic, &env),
        PlatformMatch::Unknown
    ));
}

#[test]
fn unsupported_platform_cannot_pass_via_interpreter_tags() {
    let mut env = environment("580.65.06", "13.0");
    env.platform.os = OperatingSystem::Macos;
    let candidate = wheel("2.13.0", "cu130");
    let (check, selected) = evaluate_platform(&env, &vec![&candidate]);
    assert_eq!(check.status, CheckStatus::Fail);
    assert!(selected.is_none());
}

#[test]
fn cpu_fallback_beats_newer_unverified_cuda_when_nvidia_is_unavailable() {
    let mut env = environment("580.65.06", "13.0");
    env.nvidia = NvidiaInfo {
        status: NvidiaDetectionStatus::CommandUnavailable,
        driver_version: None,
        reported_cuda_version: None,
        gpus: Vec::new(),
    };
    let report = resolve(
        &env,
        &snapshot(vec![wheel("2.13.0", "cu130"), wheel("2.12.0", "cpu")]),
        metadata(),
        &ResolverOptions::default(),
    )
    .expect("resolution");
    assert_eq!(
        report.recommendation.expect("CPU fallback").variant,
        CudaVariant::Cpu
    );
}

#[test]
fn missing_legacy_companion_mapping_excludes_only_that_candidate() {
    let env = environment("580.65.06", "13.0");
    let mut vision = wheel("0.28.0", "cu130");
    vision.package = "torchvision".to_owned();
    let mut index = snapshot(vec![
        wheel("1.13.0", "cu130"),
        wheel("2.13.0", "cu130"),
        vision,
    ]);
    index.packages.push("torchvision".to_owned());
    let options = ResolverOptions {
        companions: CompanionSet::new().with(CompanionPackage::Torchvision),
        ..ResolverOptions::default()
    };

    let report = resolve(&env, &index, metadata(), &options).expect("resolution continues");

    assert_eq!(
        report
            .recommendation
            .expect("current mapped release")
            .torch_version,
        "2.13.0"
    );
    assert!(report.excluded.iter().any(|candidate| {
        candidate.torch_version == "1.13.0"
            && candidate
                .checks
                .wheel
                .reasons
                .iter()
                .any(|reason| reason.code == ReasonCode::WheelMissing)
    }));
}

#[test]
fn explain_uses_pep440_normalized_version_equality() {
    let env = environment("530.30.02", "12.1");
    let index = snapshot(vec![wheel("2.6.0", "cu121")]);
    let candidate = explain(
        &env,
        &index,
        metadata(),
        "02.06",
        &"cu121".parse().expect("variant"),
        &ResolverOptions::default(),
    )
    .expect("explanation");
    assert_eq!(candidate.torch_version, "2.6.0");
    assert!(candidate.wheel.is_some());

    let index = snapshot(vec![wheel("2.12.0", "cpu")]);
    for requested in ["2.12", "v2.12.0"] {
        let candidate = explain(
            &env,
            &index,
            metadata(),
            requested,
            &CudaVariant::Cpu,
            &ResolverOptions::default(),
        )
        .expect("normalized explanation");
        assert!(candidate.wheel.is_some(), "{requested} should equal 2.12.0");
    }
}

fn options(constraint: &str) -> ResolverOptions {
    ResolverOptions { torch_version: Some(constraint.to_owned()), ..ResolverOptions::default() }
}

#[test]
fn every_resolver_error_has_its_message() {
    let env = environment("580.65.06", "13.0");
    let index = snapshot(vec![wheel("2.13.0", "cu130")]);
    let error = resolve(&env, &index, metadata(), &options(">>2")).expect_err("no specifier");
    assert!(matches!(error, ResolverError::InvalidVersionSpecifier { .. }));
    assert!(error.to_string().starts_with("invalid PyTorch version specifier `>>2`: "));
    for given in ["torch>=bad", " >=bad "] {
        let error = parse_version_specifier(&Some(given.to_owned())).expect_err("no version");
        let ResolverError::InvalidVersionSpecifier { value, .. } = error else {
            panic!("an invalid specifier");
        };
        assert_eq!(value, given);
    }
    assert_eq!(
        parse_version_specifier(&Some(" torch>=2 ".to_owned())).expect("valid").as_deref(),
        Some(">=2")
    );

    let mut odd = wheel("2.13.0", "cu130");
    odd.public_version = "not a version".to_owned();
    let error = resolve(&env, &snapshot(vec![odd]), metadata(), &ResolverOptions::default())
        .expect_err("no version");
    assert!(matches!(error, ResolverError::InvalidWheelVersion(_)));
    assert_eq!(error.to_string(), "invalid normalized wheel version `not a version");

    let error = "torchtext".parse::<CompanionPackage>().expect_err("unsupported");
    assert_eq!(error.to_string(), "unsupported companion package: torchtext");
    assert_eq!(
        " TorchAudio ".parse::<CompanionPackage>().expect("supported"),
        CompanionPackage::Torchaudio
    );
    assert_eq!(
        ResolverError::PythonRequired.to_string(),
        "a Python interpreter is required to generate an install command"
    );
    assert_eq!(
        ResolverError::NonUtf8PythonPath.to_string(),
        "the selected Python path is not valid UTF-8"
    );
    assert_eq!(
        ResolverError::CompanionMappingMissing {
            package: "torchvision",
            torch_version: "1.0".to_owned(),
        }
        .to_string(),
        "no verified torchvision mapping for PyTorch 1.0"
    );
    let mut blocked = environment("580.65.06", "13.0");
    blocked.diagnostics.push(Diagnostic {
        code: DiagnosticCode::UnsupportedLibc,
        severity: DiagnosticSeverity::Error,
        details: libc_details(),
    });
    let error = resolve(&blocked, &index, metadata(), &ResolverOptions::default())
        .expect_err("blocked");
    assert!(error.to_string().starts_with("environment contains blocking diagnostics: "));
}

#[test]
fn malformed_rules_are_rejected() {
    let message = |drivers: DriverRules, releases: ReleaseRules| {
        match RuleSet::load(drivers, releases) {
            Err(ResolverError::InvalidData(message)) => message,
            _ => "accepted".to_owned(),
        }
    };
    assert_eq!(message(driver_rules(), release_rules()), "accepted");

    let mut drivers = driver_rules();
    drivers.schema_version = 2;
    assert_eq!(message(drivers, release_rules()), "unsupported embedded schema version");

    let mut drivers = driver_rules();
    drivers.families.push(family(12, "1.0"));
    assert_eq!(
        message(drivers, release_rules()),
        "driver rules contain duplicate families or variants"
    );

    let mut releases = release_rules();
    releases.releases.push(release("2.9", "cpu", &["cpu"], None));
    assert_eq!(message(driver_rules(), releases), "release rules contain duplicate series");

    let mut releases = release_rules();
    releases.releases[0].preferred_variant = "cu118".parse().expect("variant");
    assert_eq!(
        message(driver_rules(), releases),
        "release 2.13 has duplicate variants or an invalid preferred variant"
    );

    let mut releases = release_rules();
    releases.gpu_architectures[0].platform = "win_amd64".to_owned();
    assert_eq!(
        message(driver_rules(), releases),
        "architecture rule 2.6 has an unsupported platform, empty versions/variants, or duplicate key"
    );

    let mut releases = release_rules();
    releases.gpu_architectures[0].versions = texts(&["2.6.0", "x"]);
    assert_eq!(
        message(driver_rules(), releases),
        "architecture rule 2.6 has invalid version x"
    );

    let mut releases = release_rules();
    releases.gpu_architectures[0].versions = texts(&["2.6.0", "2.7.0"]);
    assert_eq!(
        message(driver_rules(), releases),
        "architecture rule 2.6 has duplicate versions or a version outside the series"
    );

    let mut releases = release_rules();
    releases.gpu_architectures[0].variants = variants(&["cpu"]);
    assert_eq!(
        message(driver_rules(), releases),
        "architecture rule 2.6 references a non-CUDA variant"
    );

    let mut releases = release_rules();
    releases.gpu_architectures[2].variants = variants(&["cu126", "cu130"]);
    assert_eq!(
        message(driver_rules(), releases),
        "architecture rules overlap for PyTorch 2.13.0 cu126"
    );

    let mut releases = release_rules();
    releases.gpu_architectures[0].cubin_capabilities = texts(&["8.0", "8.0"]);
    assert_eq!(
        message(driver_rules(), releases),
        "architecture rule 2.6 has empty or duplicate cubin capabilities"
    );

    let mut releases = release_rules();
    releases.gpu_architectures[0].ptx_capability = Some("12.0".to_owned());
    assert_eq!(
        message(driver_rules(), releases),
        "architecture rule 2.6 has PTX without a matching cubin capability"
    );
}

#[test]
fn a_report_lists_every_candidate_once() {
    let env = environment("575.57.08", "12.9");
    let report = resolve(
        &env,
        &snapshot(vec![
            wheel("2.13.0", "cu126"),
            wheel("2.13.0", "cu130"),
            wheel("2.13.0", "cpu"),
            wheel("2.13.0", "cpu"),
            wheel("2.12.0", "cpu"),
        ]),
        metadata(),
        &ResolverOptions::default(),
    )
    .expect("resolution");
    let mut names = report
        .recommendation
        .iter()
        .chain(&report.alternatives)
        .chain(&report.excluded)
        .map(|candidate| format!("{} {}", candidate.torch_version, candidate.variant.to_string()))
        .collect::<Vec<_>>();
    names.sort();
    assert_eq!(names, ["2.12.0 cpu", "2.13.0 cpu", "2.13.0 cu126", "2.13.0 cu130"]);
}

#[test]
fn sorting_puts_newer_versions_first() {
    let env = environment("580.65.06", "13.0");
    let mut candidates = Vec::new();
    for version in ["2.9.1", "2.13.0", "2.10.0"] {
        candidates.push(
            explain(
                &env,
                &snapshot(vec![wheel(version, "cpu")]),
                metadata(),
                version,
                &CudaVariant::Cpu,
                &ResolverOptions::default(),
            )
            .expect("explanation"),
        );
    }
    sort_candidates(&mut candidates, &env);
    let order = candidates.iter().map(|one| one.torch_version.as_str()).collect::<Vec<_>>();
    assert_eq!(order, ["2.13.0", "2.10.0", "2.9.1"]);
}

#[test]
fn install_commands_pin_exact_versions() {
    let env = environment("580.65.06", "13.0");
    let report = resolve(
        &env,
        &snapshot(vec![wheel("2.13.0", "cu130")]),
        metadata(),
        &ResolverOptions { installer: Installer::Uv, ..ResolverOptions::default() },
    )
    .expect("resolution");
    let install = report.install.expect("command");
    assert_eq!(install.program, "uv");
    assert!(install.args.contains(&"https://download.pytorch.org/whl/cu130".to_owned()));
    assert!(install.args.iter().any(|argument| argument.starts_with("torch==2.13.0")));
    assert_eq!(install.display, shell_display(&install.program, &install.args));
}

#[test]
fn shell_words_are_quoted_only_where_needed() {
    assert_eq!(
        shell_display("/opt/py", &texts(&["a b", "it's", "--plain=1", ""])),
        "/opt/py 'a b' 'it'\\''s' --plain=1 ''"
    );
}

#[test]
fn missing_versions_are_explained_as_unavailable() {
    let env = environment("580.65.06", "13.0");
    let candidate = explain(
        &env,
        &snapshot(vec![wheel("2.13.0", "cu130")]),
        metadata(),
        "2.99",
        &CudaVariant::Cpu,
        &ResolverOptions::default(),
    )
    .expect("explanation");
    assert_eq!(candidate.torch_version, "2.99");
    assert_eq!(candidate.compatibility, CompatibilityStatus::Unavailable);
    assert!(candidate.wheel.is_none());
    assert_eq!(release_series("2.99").as_deref(), Some("2.99"));
}

#[test]
fn an_unknown_interpreter_leaves_a_candidate_unverified() {
    let check = |status: CheckStatus| CompatibilityCheck::new(status, Vec::new());
    let mut checks = CompatibilityChecks {
        wheel: check(CheckStatus::Pass),
        python: check(CheckStatus::Unknown),
        platform: check(CheckStatus::Pass),
        gpu_architecture: check(CheckStatus::NotApplicable),
        driver: check(CheckStatus::NotApplicable),
        runtime: check(CheckStatus::Unknown),
    };
    assert_eq!(aggregate_status(&checks), CompatibilityStatus::Unverified);
    checks.python = check(CheckStatus::Pass);
    assert_eq!(aggregate_status(&checks), CompatibilityStatus::DirectCompatible);
    checks.driver = check(CheckStatus::Unknown);
    assert_eq!(aggregate_status(&checks), CompatibilityStatus::Unverified);
    checks.python = check(CheckStatus::Fail);
    assert_eq!(aggregate_status(&checks), CompatibilityStatus::Unavailable);
}
