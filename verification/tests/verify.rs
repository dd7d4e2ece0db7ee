//! Tests of the verification of an installation.

use torch_check::command::{CapturedOutput, ProcessStatus};
use torch_check::index::TimeSpan;
use torch_check::model::{
    CompatibilityStatus, ComputeCapability, DiagnosticCode, DiagnosticSeverity, FilePath,
};
use torch_check::verify::{
    bounded_string, describe_exit_status, extract_probe_record, normalized_device_indices,
    prepare_probe, report_from_payload, runner_failure_report, verification_arguments,
    verify_installed, wait_for_child, OutputBudget, ProbeDevice, ProbePayload, ProbeRun,
    RunnerFailure, VerifyOptions, WaitStep,
};

fn options() -> VerifyOptions {
    VerifyOptions {
        python_executable: FilePath::new("fake-python"),
        device_indices: None,
        cuda_visible_devices: None,
        timeout: TimeSpan::from_secs(5),
        max_output_bytes: 16 * 1024,
    }
}

fn exit_status(code: i32) -> ProcessStatus {
    ProcessStatus {
        success: code == 0,
        code: Some(code),
        signal: None,
        text: format!("exit status: {code}"),
    }
}

fn empty_payload(ok: bool, stage: &str) -> ProbePayload {
    ProbePayload {
        protocol_version: 1,
        ok,
        stage: stage.to_owned(),
        torch_version: None,
        compiled_cuda: None,
        cuda_available: None,
        device_count: None,
        arch_list: Vec::new(),
        devices: Vec::new(),
        cudnn_available: None,
        cudnn_enabled: None,
        cudnn_version: None,
        cudnn_error: None,
        failed_device_index: None,
        error_type: None,
        error: None,
    }
}

fn cpu_success_payload() -> ProbePayload {
    ProbePayload {
        torch_version: Some("2.9.1+cpu".to_owned()),
        cuda_available: Some(false),
        device_count: Some(0),
        cudnn_available: Some(false),
        cudnn_enabled: Some(true),
        ..empty_payload(true, "complete")
    }
}

fn device(index: u32, name: &str, capability: (u16, u16)) -> ProbeDevice {
    ProbeDevice { index, name: name.to_owned(), capability, operations_ok: true }
}

fn cuda_success_payload() -> ProbePayload {
    ProbePayload {
        torch_version: Some("2.9.1+cu128".to_owned()),
        compiled_cuda: Some("12.8".to_owned()),
        cuda_available: Some(true),
        device_count: Some(2),
        arch_list: vec!["sm_80".to_owned(), "sm_90".to_owned(), "compute_90".to_owned()],
        devices: vec![device(0, "GPU zero", (8, 0)), device(1, "GPU one", (9, 0))],
        cudnn_available: Some(true),
        cudnn_enabled: Some(true),
        cudnn_version: Some(91002),
        ..empty_payload(true, "complete")
    }
}

fn run(stdout: &str, code: i32, decoded: Result<ProbePayload, String>) -> ProbeRun {
    ProbeRun::Completed {
        output: CapturedOutput {
            status: exit_status(code),
            stdout: stdout.as_bytes().to_vec(),
            stderr: Vec::new(),
        },
        decoded,
    }
}

#[test]
fn cpu_only_build_is_verified_when_cuda_is_unavailable() {
    let report = report_from_payload(&options(), &None, &exit_status(0), &cpu_success_payload());

    assert_eq!(report.status, CompatibilityStatus::Verified);
    assert_eq!(report.cuda_available, Some(false));
    assert!(report.devices.is_empty());
    assert!(report.error.is_none());
    assert!(
        report
            .checks
            .iter()
            .find(|check| check.name == "cuda_availability")
            .is_some_and(|check| check.passed)
    );
}

#[test]
fn explicit_cuda_selection_rejects_a_cpu_only_build() {
    let report = report_from_payload(
        &options(),
        &Some(vec![0]),
        &exit_status(0),
        &cpu_success_payload(),
    );

    assert_eq!(report.status, CompatibilityStatus::Incompatible);
    assert!(
        report
            .error
            .as_deref()
            .is_some_and(|error| error.contains("CPU-only"))
    );
}

#[test]
fn optional_cudnn_query_failure_is_a_warning_not_a_failed_check() {
    let mut payload = cuda_success_payload();
    payload.cudnn_error = Some("could not load /opt/private/libcudnn.so".to_owned());
    let report = report_from_payload(&options(), &None, &exit_status(0), &payload);

    assert_eq!(report.status, CompatibilityStatus::Verified);
    assert!(
        report
            .checks
            .iter()
            .find(|check| check.name == "cudnn_info")
            .is_some_and(|check| check.passed)
    );
    assert!(report.diagnostics.iter().any(|diagnostic| {
        diagnostic.code == DiagnosticCode::CudnnInspectionFailed
            && diagnostic.severity == DiagnosticSeverity::Warning
    }));
}

#[test]
fn cuda_build_exercises_every_logical_device_by_default() {
    let report = report_from_payload(&options(), &None, &exit_status(0), &cuda_success_payload());

    assert_eq!(report.status, CompatibilityStatus::Verified);
    assert_eq!(report.devices.len(), 2);
    assert_eq!(
        report.devices[0].capability,
        ComputeCapability { major: 8, minor: 0 }
    );
    assert_eq!(
        report.devices[1].capability,
        ComputeCapability { major: 9, minor: 0 }
    );
    assert!(report.devices.iter().all(|device| device.operations_ok));
}

#[test]
fn successful_payload_must_cover_exact_selected_devices() {
    let report = report_from_payload(
        &options(),
        &Some(vec![1]),
        &exit_status(0),
        &cuda_success_payload(),
    );

    assert_eq!(report.status, CompatibilityStatus::Incompatible);
    assert!(
        report
            .error
            .as_deref()
            .is_some_and(|error| error.contains("expected [1]"))
    );
}

#[test]
fn duplicate_selected_indices_are_normalized_deterministically() {
    let normalized = normalized_device_indices(Some(&[2, 0, 2, 1]))
        .expect("indices should normalize")
        .expect("selection should remain explicit");
    assert_eq!(normalized, vec![0, 1, 2]);
}

#[test]
fn cuda_build_that_cannot_initialize_cuda_fails_structurally() {
    let failed = ProbePayload {
        torch_version: Some("2.9.1+cu128".to_owned()),
        compiled_cuda: Some("12.8".to_owned()),
        cuda_available: Some(false),
        device_count: Some(0),
        error_type: Some("RuntimeError".to_owned()),
        error: Some(
            "this PyTorch build includes CUDA, but torch.cuda.is_available() is false".to_owned(),
        ),
        ..empty_payload(false, "cuda_availability")
    };

    let report = report_from_payload(&options(), &None, &exit_status(20), &failed);

    assert_eq!(report.status, CompatibilityStatus::Incompatible);
    assert_eq!(report.cuda_available, Some(false));
    assert!(
        report
            .checks
            .iter()
            .any(|check| check.name == "runtime_probe" && !check.passed)
    );
}

#[test]
fn parser_ignores_unrelated_stdout_but_rejects_duplicate_records() {
    let json = r#"{"protocol_version":1,"ok":false,"stage":"import_torch"}"#;
    let one = format!("library noise\nTORCH_CHECK_VERIFY_JSON:{json}\n");
    assert_eq!(
        extract_probe_record(one.as_bytes()).expect("one record"),
        json.as_bytes()
    );

    let duplicate = format!("{one}TORCH_CHECK_VERIFY_JSON:{json}\n");
    assert!(
        extract_probe_record(duplicate.as_bytes())
            .expect_err("duplicate records must fail")
            .contains("multiple protocol records")
    );
    assert!(extract_probe_record(b"noise only\n").is_err());
}

#[test]
fn subprocess_parses_successful_probe() {
    let report = verify_installed(
        &options(),
        &run("TORCH_CHECK_VERIFY_JSON:{}\n", 0, Ok(cpu_success_payload())),
    );
    assert_eq!(
        report.status,
        CompatibilityStatus::Verified,
        "verification failed: {:?}",
        report.error
    );
    assert_eq!(report.torch_version.as_deref(), Some("2.9.1+cpu"));
}

#[test]
fn explicit_visibility_override_is_passed_by_uuid() {
    let mut options = options();
    options.device_indices = Some(vec![0]);
    options.cuda_visible_devices = Some("GPU-aaaaaaaa".to_owned());
    let payload = ProbePayload {
        device_count: Some(1),
        arch_list: vec!["sm_80".to_owned()],
        devices: vec![device(0, "selected GPU", (8, 0))],
        ..cuda_success_payload()
    };
    let report =
        verify_installed(&options, &run("TORCH_CHECK_VERIFY_JSON:{}\n", 0, Ok(payload)));
    assert_eq!(report.status, CompatibilityStatus::Verified);
    assert_eq!(report.devices.len(), 1);
}

#[test]
fn structured_import_failure_is_preserved() {
    let payload = ProbePayload {
        error_type: Some("ModuleNotFoundError".to_owned()),
        error: Some("No module named 'torch'".to_owned()),
        ..empty_payload(false, "import_torch")
    };
    let report =
        verify_installed(&options(), &run("TORCH_CHECK_VERIFY_JSON:{}\n", 20, Ok(payload)));

    assert_eq!(report.status, CompatibilityStatus::Incompatible);
    assert!(
        report
            .error
            .as_deref()
            .is_some_and(|error| error.contains("ModuleNotFoundError"))
    );
    assert!(
        report
            .checks
            .iter()
            .any(|check| check.name == "torch_import" && !check.passed)
    );
}

#[test]
fn invalid_json_is_a_structured_failure() {
    let report = verify_installed(
        &options(),
        &run(
            "TORCH_CHECK_VERIFY_JSON:{not-json}\n",
            0,
            Err("key must be a string at line 1 column 2".to_owned()),
        ),
    );

    assert_eq!(report.status, CompatibilityStatus::Incompatible);
    assert_eq!(report.checks[0].name, "probe_output");
    assert!(
        report
            .error
            .as_deref()
            .is_some_and(|error| error.contains("invalid JSON"))
    );
}

#[test]
fn timeout_terminates_the_subprocess() {
    let mut options = options();
    options.timeout = TimeSpan { seconds: 0, nanos: 50_000_000 };
    assert_eq!(
        wait_for_child(false, &TimeSpan { seconds: 0, nanos: 50_000_000 }, &options.timeout),
        WaitStep::TimedOut
    );

    let report = verify_installed(&options, &ProbeRun::Failed(RunnerFailure::Timeout));

    assert_eq!(report.status, CompatibilityStatus::Incompatible);
    assert_eq!(
        report.checks[0].name, "subprocess_timeout",
        "verification failed: {:?}",
        report.error
    );
}

#[test]
fn combined_output_limit_terminates_the_subprocess() {
    let mut options = options();
    options.max_output_bytes = 128;
    let mut budget = OutputBudget::new(options.max_output_bytes);
    let mut kept = 0;
    for _ in 0..1000 {
        kept += budget.retain_count(16);
    }
    assert_eq!(kept, 128);
    assert!(budget.exceeded);
    assert_eq!(
        wait_for_child(budget.exceeded, &TimeSpan::from_secs(0), &options.timeout),
        WaitStep::LimitExceeded
    );

    let failure = RunnerFailure::OutputLimit { limit: options.max_output_bytes };
    let report = verify_installed(&options, &ProbeRun::Failed(failure));

    assert_eq!(report.status, CompatibilityStatus::Incompatible);
    assert_eq!(report.checks[0].name, "subprocess_output_limit");
}

#[test]
fn a_probe_without_a_record_is_incompatible() {
    let report = verify_installed(&options(), &run("", 0, Err(String::new())));
    assert_eq!(report.status, CompatibilityStatus::Incompatible);
}

#[test]
fn probe_command_uses_isolated_mode_and_protocol_arguments() {
    let mut options = options();
    options.device_indices = Some(vec![1, 0, 1]);
    let request = prepare_probe(&options).expect("request");
    assert_eq!(
        verification_arguments("print()", &request.argument),
        ["-I", "-c", "print()", "[0,1]"]
    );
    assert_eq!(request.selected, Some(vec![0, 1]));
    assert_eq!(request.argument, "[0,1]");
    options.device_indices = None;
    assert_eq!(prepare_probe(&options).expect("request").argument, "null");
    options.device_indices = Some(Vec::new());
    assert!(prepare_probe(&options).is_err());
    options.device_indices = None;
    options.timeout = TimeSpan::from_secs(0);
    assert!(prepare_probe(&options).is_err());
}

#[test]
fn waiting_never_exceeds_the_timeout() {
    let timeout = TimeSpan::from_secs(1);
    assert_eq!(
        wait_for_child(false, &TimeSpan::from_secs(0), &timeout),
        WaitStep::Poll(10_000_000)
    );
    assert_eq!(
        wait_for_child(false, &TimeSpan { seconds: 0, nanos: 999_999_000 }, &timeout),
        WaitStep::Poll(1_000)
    );
}

#[test]
fn every_failure_of_the_runner_has_its_check() {
    for (failure, name) in [
        (RunnerFailure::Spawn("denied".to_owned()), "subprocess_spawn"),
        (RunnerFailure::Wait("lost".to_owned()), "subprocess_wait"),
        (RunnerFailure::Capture("closed".to_owned()), "subprocess_output"),
    ] {
        let report = runner_failure_report(&options(), &failure);
        assert_eq!(report.checks[0].name, name);
        assert!(!report.checks[0].passed);
    }
}

#[test]
fn statuses_and_messages_are_described() {
    assert_eq!(describe_exit_status(&exit_status(3)), "exited with status 3");
    let killed = ProcessStatus {
        success: false,
        code: None,
        signal: Some(9),
        text: "signal: 9 (SIGKILL)".to_owned(),
    };
    assert_eq!(describe_exit_status(&killed), "terminated by signal 9");
    assert_eq!(bounded_string(" short "), "short");
    assert_eq!(bounded_string(&"x".repeat(2000)), format!("{}...", "x".repeat(1024)));
}
