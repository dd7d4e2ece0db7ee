//! Tests of what is found out about the host.

use torch_check::command::{
    bounded_lossy, combined_output, finish_command, read_bounded, truncate_string, CapturedOutput,
    CommandError, OutputStream, ProcessStatus, RunCommandOptions,
};
use torch_check::environment::{
    detect_environment, detect_platform, kernel_version, DetectOptions,
};
use torch_check::files::{
    accept_text, accepts_binary, admits_file, is_executable, FileFacts, MAX_TEXT_FILE_BYTES,
};
use torch_check::host::{
    classify_libc_output, decode_os_release_value, detect_libc, elf_interpreter, examine_loader,
    first_numeric_version, loader_witness, normalize_architecture, parse_glibc_output,
    parse_numeric_version_prefix, parse_os_release, read_elf_u16, read_elf_u32, read_elf_u64,
    LibcDetection, LibcStep, LoaderVerdict,
};
use torch_check::index::TimeSpan;
use torch_check::model::{
    Architecture, ComputeCapability, CudaToolkitInfo, DiagnosticCode, DiagnosticSeverity, FilePath,
    NvidiaDetectionStatus, NvidiaGpu, TagSource, ToolkitSource,
};
use torch_check::nvidia::{
    detect_nvidia, empty_nvidia, filter_cuda_visible_devices, no_nvidia_devices,
    optional_nvidia_value, parse_nvidia_csv, parse_reported_cuda, require_requested_gpus,
    select_gpus, smi_arguments, NvidiaDetection, NvidiaStep, SmiQuery,
};
use torch_check::python::{
    builtin_compatible_tags, detect_python, infer_virtual_environment, interpreter_root, probe_arguments, python_candidates,
    python_info_from_probe, resolve_invoked_executable, valid_compatibility_tag, ProbeAttempt, PythonDetection,
    PythonProbeResult, PythonStep,
};
use torch_check::toolkit::{
    detect_cuda_toolkit, is_versioned_root, newest_toolkit, nvcc_version, parse_cuda_version_json,
    parse_nvcc_output, toolkit_version_at_root, FoundToolkit, RootStep, ToolkitAnswers, ToolkitStep,
};
use torch_check::version::NumericVersion;

fn version(value: &str) -> NumericVersion {
    value.parse().expect("valid test version")
}

#[test]
fn parses_os_release_without_shell_evaluation() {
    let input = r#"
NAME="Ubuntu"
VERSION_ID="22.04"
PRETTY_NAME="Ubuntu 22.04.4 LTS"
MALFORMED='unterminated
"#;
    assert_eq!(
        parse_os_release(input).as_deref(),
        Some("Ubuntu 22.04.4 LTS")
    );
}

#[test]
fn falls_back_to_name_and_version_id() {
    assert_eq!(
        parse_os_release("NAME=Debian\nVERSION_ID='12'\n").as_deref(),
        Some("Debian 12")
    );
}

#[test]
fn recognizes_glibc_but_not_musl() {
    assert_eq!(
        parse_glibc_output("ldd (Ubuntu GLIBC 2.35-0ubuntu3.9) 2.35"),
        Some(version("2.35"))
    );
    assert_eq!(
        parse_glibc_output("musl libc (x86_64)\nVersion 1.2.5"),
        None
    );
    assert_eq!(
        classify_libc_output("musl libc (x86_64)\nVersion 1.2.5"),
        LibcDetection::Musl(Some(version("1.2.5")))
    );
    assert_eq!(classify_libc_output("unknown ldd"), LibcDetection::Unknown);
}

#[test]
fn parses_a_bounded_elf_program_interpreter() {
    let interpreter = b"/lib64/ld-linux-x86-64.so.2\0";
    let mut elf = vec![0_u8; 128 + interpreter.len()];
    elf[..4].copy_from_slice(b"\x7fELF");
    elf[4] = 2;
    elf[5] = 1;
    elf[32..40].copy_from_slice(&64_u64.to_le_bytes());
    elf[54..56].copy_from_slice(&56_u16.to_le_bytes());
    elf[56..58].copy_from_slice(&1_u16.to_le_bytes());
    elf[64..68].copy_from_slice(&3_u32.to_le_bytes());
    elf[72..80].copy_from_slice(&128_u64.to_le_bytes());
    elf[96..104].copy_from_slice(&(interpreter.len() as u64).to_le_bytes());
    elf[128..].copy_from_slice(interpreter);

    assert_eq!(
        elf_interpreter(&elf).as_deref(),
        Some("/lib64/ld-linux-x86-64.so.2")
    );
    elf[54..56].copy_from_slice(&8_u16.to_le_bytes());
    assert!(elf_interpreter(&elf).is_none());
}

#[test]
fn validates_packaging_tags_defensively() {
    assert!(valid_compatibility_tag("cp313-cp313-manylinux_2_17_x86_64"));
    assert!(!valid_compatibility_tag("cp313-cp313"));
    assert!(!valid_compatibility_tag("cp313-cp313-manylinux-x86-64"));
    assert!(!valid_compatibility_tag("cp313-cp313-💥"));
}

#[test]
fn builtin_tags_are_conservative_and_manylinux_aware() {
    let tags = builtin_compatible_tags(
        "cpython",
        &version("3.13.2"),
        false,
        "linux-x86_64",
        Some(&version("2.35")),
    );
    assert_eq!(tags[0], "cp313-cp313-manylinux_2_35_x86_64");
    assert!(tags.contains(&"cp313-cp313-manylinux_2_17_x86_64".to_owned()));
    assert!(tags.contains(&"cp313-cp313-manylinux2014_x86_64".to_owned()));
    assert!(tags.contains(&"py3-none-any".to_owned()));
}

#[test]
fn nvidia_csv_rejects_duplicate_indices() {
    let csv = b"0, GPU-a, A100, 530.30.02, 8.0\n0, GPU-b, A100, 530.30.02, 8.0\n";
    assert!(parse_nvidia_csv(csv, true).is_err());
}

#[test]
fn parses_driver_reported_cuda_for_information_only() {
    let output = "| NVIDIA-SMI 530.30.02 Driver Version: 530.30.02 CUDA Version: 12.1 |";
    assert_eq!(parse_reported_cuda(output), Some(version("12.1")));
}

#[test]
fn gpu_selection_uses_physical_indices_and_reports_missing_values() {
    let gpus = vec![
        NvidiaGpu {
            index: 0,
            uuid: None,
            name: "A".to_owned(),
            compute_capability: None,
            driver_version: version("530.30.02"),
        },
        NvidiaGpu {
            index: 2,
            uuid: None,
            name: "B".to_owned(),
            compute_capability: None,
            driver_version: version("530.30.02"),
        },
    ];
    let (selected, invalid) = select_gpus(gpus, &[2, 9, 2]);
    assert_eq!(
        selected.iter().map(|gpu| gpu.index).collect::<Vec<_>>(),
        vec![2]
    );
    assert_eq!(invalid, vec![9]);
}

#[test]
fn parses_cuda_version_json_variants() {
    assert_eq!(
        parse_cuda_version_json(r#"{"cuda":{"name":"CUDA SDK","version":"12.4.1"}}"#),
        Some(version("12.4.1"))
    );
    assert_eq!(
        parse_cuda_version_json(r#"{"version":"11.8"}"#),
        Some(version("11.8"))
    );
}

#[test]
fn bounded_reader_retains_only_the_configured_prefix() {
    let result = read_bounded(&b"abcdefgh"[..], 4);
    assert_eq!(result.bytes, b"abcd");
    assert!(result.exceeded);
}

fn gpu(index: u32, uuid: &str) -> NvidiaGpu {
    NvidiaGpu {
        index,
        uuid: Some(uuid.to_owned()),
        name: format!("GPU {index}"),
        compute_capability: Some(ComputeCapability { major: 8, minor: 0 }),
        driver_version: version("580.65.06"),
    }
}

#[test]
fn cuda_visibility_filters_physical_gpus_in_logical_order() {
    let error = filter_cuda_visible_devices(
        vec![gpu(0, "GPU-zero"), gpu(1, "GPU-one"), gpu(2, "GPU-two")],
        "2,0",
    )
    .expect_err("numeric CUDA subset cannot be mapped safely");
    assert!(error.contains("cannot be safely mapped"));

    let complete = filter_cuda_visible_devices(
        vec![gpu(0, "GPU-zero"), gpu(1, "GPU-one")],
        "1,0",
    )
    .expect("the complete GPU union is safe");
    assert_eq!(complete.len(), 2);

    let visible_by_uuid = filter_cuda_visible_devices(
        vec![gpu(0, "GPU-zero"), gpu(1, "GPU-one")],
        "GPU-one",
    )
    .expect("UUID visibility mapping");
    assert_eq!(visible_by_uuid[0].index, 1);
}

#[test]
fn requested_gpu_is_blocking_when_no_gpu_can_be_detected() {
    let mut diagnostics = Vec::new();
    let info = require_requested_gpus(
        empty_nvidia(NvidiaDetectionStatus::NoDevices),
        &[2],
        &mut diagnostics,
    );
    assert_eq!(info.status, NvidiaDetectionStatus::Failed);
    assert!(diagnostics.iter().any(|diagnostic| {
        diagnostic.code == DiagnosticCode::InvalidGpuSelection
            && diagnostic.severity == DiagnosticSeverity::Error
    }));
}

fn probe() -> PythonProbeResult {
    PythonProbeResult {
        implementation: "CPython".to_owned(),
        version: vec![3, 11, 9],
        soabi: Some("cpython-311-x86_64-linux-gnu".to_owned()),
        cache_tag: Some("cpython-311".to_owned()),
        platform: "linux-x86_64".to_owned(),
        pointer_width: 64,
        free_threaded: false,
        virtual_environment: None,
        packaging_available: false,
        compatible_tags: Vec::new(),
    }
}

fn status(code: i32) -> ProcessStatus {
    ProcessStatus {
        success: code == 0,
        code: Some(code),
        signal: None,
        text: format!("exit status: {code}"),
    }
}

fn reply(text: &str) -> Result<CapturedOutput, CommandError> {
    Ok(CapturedOutput {
        status: status(0),
        stdout: text.as_bytes().to_vec(),
        stderr: Vec::new(),
    })
}

fn missing(program: &str) -> CommandError {
    CommandError::Spawn {
        program: program.to_owned(),
        not_found: true,
        source: "No such file or directory".to_owned(),
    }
}

#[test]
fn selected_venv_launcher_is_preserved_and_inferred_with_isolated_site_disabled() {
    let root = FilePath::new("/tmp/venv");
    let executable = FilePath::new("/tmp/venv/bin/python");
    let python = python_info_from_probe(
        &probe(),
        &executable,
        true,
        Some(&version("2.35")),
    )
    .expect("valid Python probe");

    assert_eq!(python.executable, executable);
    assert_eq!(python.virtual_environment, Some(root));
}

#[test]
fn parses_current_nvidia_csv() {
    let csv = b"0, GPU-12345678-1234-1234-1234-123456789abc, NVIDIA A100-SXM4-40GB, 530.30.02, 8.0\n";
    let gpus = parse_nvidia_csv(csv, true).expect("valid CSV");
    assert_eq!(gpus.len(), 1);
    assert_eq!(gpus[0].index, 0);
    assert_eq!(
        gpus[0].compute_capability,
        Some(ComputeCapability { major: 8, minor: 0 })
    );
    assert_eq!(gpus[0].name, "NVIDIA A100-SXM4-40GB");
    assert_eq!(gpus[0].driver_version.to_string(), "530.30.02");
}

#[test]
fn legacy_nvidia_csv_leaves_compute_capability_unknown() {
    let gpus = parse_nvidia_csv(b"0, GPU-a, Tesla V100-SXM2-16GB, 450.80.02\n", false)
        .expect("valid legacy CSV");
    assert_eq!(gpus[0].compute_capability, None);
}

#[test]
fn no_device_fixture_is_recognized() {
    assert!(no_nvidia_devices("No devices were found\n"));
}

#[test]
fn nvcc_fixture_reports_the_release_version() {
    let output = "nvcc: NVIDIA (R) Cuda compiler driver\n\
        Copyright (c) 2005-2024 NVIDIA Corporation\n\
        Built on Thu_Mar_28_02:18:24_PDT_2024\n\
        Cuda compilation tools, release 12.4, V12.4.131\n\
        Build cuda_12.4.r12.4/compiler.34097967_0\n";
    assert_eq!(parse_nvcc_output(output), Some(version("12.4")));
}

#[test]
fn cpython_fixtures_generate_native_builtin_tags() {
    for (minor, expected) in [
        (13, "cp313-cp313-manylinux_2_35_x86_64"),
        (11, "cp311-cp311-manylinux_2_35_x86_64"),
    ] {
        let mut report = probe();
        report.version = vec![3, minor, 1];
        let python = python_info_from_probe(
            &report,
            &FilePath::new("/usr/bin/python3"),
            false,
            Some(&version("2.35")),
        )
        .expect("valid Python info");
        assert_eq!(
            python.compatible_tags.first().map(String::as_str),
            Some(expected)
        );
    }
}

#[test]
fn command_runner_reports_output_limit() {
    let options = RunCommandOptions {
        timeout: TimeSpan::from_secs(2),
        max_stdout_bytes: 4,
        max_stderr_bytes: 1024,
    };
    let error = finish_command(
        "printf".to_owned(),
        &options,
        status(0),
        read_bounded(b"abcdefgh", options.max_stdout_bytes),
        read_bounded(b"", options.max_stderr_bytes),
    )
    .expect_err("must exceed limit");
    assert!(matches!(
        error,
        CommandError::OutputLimitExceeded {
            stream: OutputStream::Stdout,
            limit: 4,
            ..
        }
    ));
}

fn regular(length: u64, mode: Option<u32>) -> FileFacts {
    FileFacts { symlink: false, directory: false, regular: true, length, mode }
}

#[test]
fn non_regular_text_inputs_are_rejected() {
    let device = FileFacts { regular: false, ..regular(0, Some(0o666)) };
    assert!(!admits_file(&device, MAX_TEXT_FILE_BYTES));
    assert!(admits_file(&regular(MAX_TEXT_FILE_BYTES, None), MAX_TEXT_FILE_BYTES));
    assert!(!admits_file(&regular(MAX_TEXT_FILE_BYTES + 1, None), MAX_TEXT_FILE_BYTES));
}

#[test]
fn only_short_utf8_files_are_texts() {
    assert_eq!(accept_text(&b"caf\xc3\xa9".to_vec()).as_deref(), Some("café"));
    assert_eq!(accept_text(&vec![0xff]), None);
    assert_eq!(accept_text(&vec![b'a'; 1_048_577]), None);
    assert!(accepts_binary(&vec![0; 4], 4));
    assert!(!accepts_binary(&vec![0; 5], 4));
    assert!(is_executable(&regular(1, Some(0o755))));
    assert!(!is_executable(&regular(1, Some(0o644))));
    assert!(is_executable(&regular(1, None)));
}

#[test]
fn command_errors_have_messages() {
    let error = missing("nvidia-smi");
    assert!(error.is_not_found());
    assert!(!error.is_timeout());
    assert!(error.to_string().contains("nvidia-smi"));
    let error = CommandError::TimedOut {
        program: "sleep".to_owned(),
        timeout: TimeSpan { seconds: 0, nanos: 20_000_000 },
    };
    assert!(error.is_timeout());
    assert!(error.to_string().contains("20ms"), "{}", error.to_string());
}

#[test]
fn texts_are_cut_at_character_boundaries() {
    assert_eq!(truncate_string("abc", 3), "abc");
    assert_eq!(truncate_string("abcd", 3), "abc...");
    assert_eq!(truncate_string("aé", 2), "a...");
    assert_eq!(bounded_lossy(b"a\xffb", 3), "a...");
    assert_eq!(bounded_lossy(b"a\xffb", 8), "a\u{fffd}b");
}

#[test]
fn outputs_are_combined() {
    let output = CapturedOutput {
        status: status(1),
        stdout: b"out".to_vec(),
        stderr: b"err".to_vec(),
    };
    let text = combined_output(&output);
    assert!(text.contains("out") && text.contains("err"), "{text}");
}

#[test]
fn names_of_architectures_are_normalized() {
    assert_eq!(normalize_architecture("amd64"), Architecture::X86_64);
    assert_eq!(normalize_architecture("arm64"), Architecture::Aarch64);
    assert_eq!(normalize_architecture("riscv64"), Architecture::Other("riscv64".to_owned()));
}

#[test]
fn quoted_release_values_are_decoded() {
    assert_eq!(decode_os_release_value("plain").as_deref(), Some("plain"));
    assert_eq!(decode_os_release_value("'a b'").as_deref(), Some("a b"));
    assert_eq!(decode_os_release_value("\"a \\\"b\\\"\"").as_deref(), Some("a \"b\""));
    assert_eq!(decode_os_release_value("'open"), None);
}

#[test]
fn versions_are_found_in_texts() {
    assert_eq!(first_numeric_version("CUDA Version 11.8.0"), Some(version("11.8.0")));
    assert_eq!(first_numeric_version("no version"), None);
    assert_eq!(parse_numeric_version_prefix(" 2.35-r1"), Some(version("2.35")));
    assert_eq!(parse_numeric_version_prefix("v2.35"), None);
}

#[test]
fn the_c_library_is_searched_step_by_step() {
    assert_eq!(
        detect_libc(&Some("2.35".to_owned()), &None, &Vec::new(), &None),
        LibcStep::Done(LibcDetection::Glibc(version("2.35")))
    );
    assert_eq!(detect_libc(&None, &None, &Vec::new(), &None), LibcStep::RunLdd);
    assert_eq!(
        detect_libc(&None, &Some(reply("ldd (GNU libc) 2.31")), &Vec::new(), &None),
        LibcStep::Done(LibcDetection::Glibc(version("2.31")))
    );
    let silent = Some(Err(missing("ldd")));
    assert_eq!(detect_libc(&None, &silent, &Vec::new(), &None), LibcStep::Examine(0));
    assert_eq!(detect_libc(&None, &silent, &vec![None], &None), LibcStep::Examine(1));
    assert_eq!(
        detect_libc(&None, &silent, &vec![None, None, None], &None),
        LibcStep::Done(LibcDetection::Unknown)
    );
    assert_eq!(loader_witness(0), "/bin/sh");
}

fn elf(interpreter: &[u8]) -> Vec<u8> {
    let mut elf = vec![0_u8; 128 + interpreter.len()];
    elf[..4].copy_from_slice(b"\x7fELF");
    elf[4] = 2;
    elf[5] = 1;
    elf[32..40].copy_from_slice(&64_u64.to_le_bytes());
    elf[54..56].copy_from_slice(&56_u16.to_le_bytes());
    elf[56..58].copy_from_slice(&1_u16.to_le_bytes());
    elf[64..68].copy_from_slice(&3_u32.to_le_bytes());
    elf[72..80].copy_from_slice(&128_u64.to_le_bytes());
    elf[96..104].copy_from_slice(&(interpreter.len() as u64).to_le_bytes());
    elf[128..].copy_from_slice(interpreter);
    elf
}

#[test]
fn loaders_tell_the_c_library() {
    assert_eq!(examine_loader(b"#!/bin/sh"), LoaderVerdict::Silent);
    assert!(!matches!(
        examine_loader(&elf(b"/lib/ld-musl-x86_64.so.1\0")),
        LoaderVerdict::Silent
    ));
    assert!(matches!(
        examine_loader(&elf(b"/lib64/ld-linux-x86-64.so.2\0")),
        LoaderVerdict::Ask(_)
    ));
}

#[test]
fn numbers_are_read_in_both_byte_orders() {
    let bytes = [1, 2, 3, 4, 5, 6, 7, 8];
    assert_eq!(read_elf_u16(&bytes, 0, true), Some(0x0201));
    assert_eq!(read_elf_u16(&bytes, 7, true), None);
    assert_eq!(read_elf_u32(&bytes, 1, false), Some(0x0203_0405));
    assert_eq!(read_elf_u64(&bytes, 0, false), Some(0x0102_0304_0506_0708));
    assert_eq!(read_elf_u64(&bytes, usize::MAX, true), None);
}

#[test]
fn interpreters_are_searched_in_order() {
    let explicit = Some(FilePath::new("/opt/python"));
    assert_eq!(
        python_candidates(&explicit, &Some(FilePath::new("/venv")), false),
        vec![FilePath::new("/opt/python")]
    );
    let candidates = python_candidates(&None, &Some(FilePath::new("/venv")), false);
    assert_eq!(candidates[0], FilePath::new("/venv/bin/python"));
    assert!(candidates.contains(&FilePath::new("python3")));

    let attempts = vec![ProbeAttempt::NotRun(missing("python"))];
    assert_eq!(detect_python(false, &candidates, &Vec::new(), None), PythonStep::Probe(0));
    assert_eq!(detect_python(false, &candidates, &attempts, None), PythonStep::Probe(1));
    let PythonStep::Done(done) = detect_python(true, &vec![FilePath::new("/opt/python")], &attempts, None)
    else {
        panic!("an explicit interpreter is never replaced");
    };
    assert!(done.info.is_none());
    assert_eq!(done.diagnostics[0].code, DiagnosticCode::PythonUnavailable);
    assert_eq!(done.diagnostics[0].severity, DiagnosticSeverity::Error);
}

#[test]
fn a_probed_interpreter_is_accepted() {
    let candidates = vec![FilePath::new("python3")];
    let attempts = vec![ProbeAttempt::Completed {
        output: reply("{}").expect("output"),
        report: Ok(probe()),
        executable: FilePath::new("/usr/bin/python3"),
        configured: false,
    }];
    let glibc = version("2.35");
    let PythonStep::Done(done) = detect_python(false, &candidates, &attempts, Some(&glibc)) else {
        panic!("accepted");
    };
    let python = done.info.expect("interpreter");
    assert_eq!(python.implementation, "cpython");
    assert_eq!(python.tag_source, TagSource::Builtin);
    assert_eq!(python.cpython_abi_tag().as_deref(), Some("cp311"));
}

#[test]
fn executables_are_resolved_without_following_links() {
    let selected = FilePath::new("venv/bin/python");
    let current = Some(FilePath::new("/work"));
    assert_eq!(
        resolve_invoked_executable(&selected, false, false, &None, &current),
        FilePath::new("/work/venv/bin/python")
    );
    let absolute = FilePath::new("/venv/bin/python");
    assert_eq!(
        resolve_invoked_executable(&absolute, true, false, &None, &current),
        absolute
    );
    assert_eq!(
        resolve_invoked_executable(
            &FilePath::new("python3"),
            false,
            true,
            &Some((FilePath::new("/usr/bin/python3"), true)),
            &current,
        ),
        FilePath::new("/usr/bin/python3")
    );
}

#[test]
fn absent_values_of_the_driver_are_recognized() {
    assert_eq!(optional_nvidia_value(" [N/A] "), None);
    assert_eq!(optional_nvidia_value(" GPU-1 ").as_deref(), Some("GPU-1"));
    assert!(parse_nvidia_csv(b"", true).expect("empty table").is_empty());
    assert!(parse_nvidia_csv(b"0, GPU-a\n", true).is_err());
    assert!(parse_nvidia_csv(b"x, GPU-a, A, 530.1, 8.0\n", true).is_err());
}

#[test]
fn processors_are_detected_step_by_step() {
    assert_eq!(
        detect_nvidia(&None, &[], &None, &None, &None),
        NvidiaStep::Ask(SmiQuery::Table)
    );
    assert_eq!(
        detect_nvidia(&None, &[], &Some(reply("0, GPU-a\n")), &None, &None),
        NvidiaStep::Ask(SmiQuery::LegacyTable)
    );
    let table = Some(reply("0, GPU-a, NVIDIA A100, 530.30.02, 8.0\n"));
    assert_eq!(
        detect_nvidia(&None, &[], &table, &None, &None),
        NvidiaStep::Ask(SmiQuery::Summary)
    );
    let NvidiaStep::Done(done) = detect_nvidia(
        &None,
        &[],
        &table,
        &None,
        &Some(reply("| CUDA Version: 12.1 |")),
    ) else {
        panic!("done");
    };
    assert_eq!(done.info.status, NvidiaDetectionStatus::Detected);
    assert_eq!(done.info.reported_cuda_version, Some(version("12.1")));
    assert_eq!(done.info.driver_version, Some(version("530.30.02")));

    let NvidiaStep::Done(done) =
        detect_nvidia(&None, &[], &Some(Err(missing("nvidia-smi"))), &None, &None)
    else {
        panic!("done");
    };
    assert_eq!(done.info.status, NvidiaDetectionStatus::CommandUnavailable);
}

#[test]
fn toolkits_are_searched_step_by_step() {
    let mut answers = ToolkitAnswers {
        home: None,
        path: None,
        compiler: None,
        default_root: None,
        versioned: None,
    };
    answers.home = Some(None);
    answers.path = Some(None);
    answers.compiler = Some(None);
    answers.default_root = Some(Some(version("12.8")));
    assert_eq!(
        detect_cuda_toolkit(answers),
        ToolkitStep::Done(Some(CudaToolkitInfo {
            version: version("12.8"),
            root: Some(FilePath::new("/usr/local/cuda")),
            source: ToolkitSource::VersionJson,
        }))
    );
    let newest = newest_toolkit(vec![
        FoundToolkit { version: version("12.1"), root: FilePath::new("/usr/local/cuda-12.1") },
        FoundToolkit { version: version("12.10"), root: FilePath::new("/usr/local/cuda-12.10") },
        FoundToolkit { version: version("11.8"), root: FilePath::new("/usr/local/cuda-11.8") },
    ])
    .expect("a toolkit");
    assert_eq!(newest.version.to_string(), "12.10");
}

#[test]
fn toolkit_versions_are_read_from_files_and_the_compiler() {
    let broken = Some(Some("broken".to_owned()));
    let text = Some(Some("CUDA 11.8.0".to_owned()));
    let document = Some(Some(r#"{"version":"12.0"}"#.to_owned()));
    let compiler = Some(reply("Cuda compilation tools, release 12.4, V12.4.131"));
    assert_eq!(toolkit_version_at_root(&None, &text, &compiler), RootStep::ReadDocument);
    assert_eq!(toolkit_version_at_root(&broken, &None, &compiler), RootStep::ReadText);
    assert_eq!(toolkit_version_at_root(&broken, &Some(None), &None), RootStep::AskCompiler);
    assert_eq!(
        toolkit_version_at_root(&document, &text, &compiler),
        RootStep::Done(Some(version("12.0")))
    );
    assert_eq!(
        toolkit_version_at_root(&document, &None, &None),
        RootStep::Done(Some(version("12.0")))
    );
    assert_eq!(
        toolkit_version_at_root(&broken, &text, &compiler),
        RootStep::Done(Some(version("11.8.0")))
    );
    assert_eq!(
        toolkit_version_at_root(&Some(None), &Some(None), &compiler),
        RootStep::Done(Some(version("12.4")))
    );
    assert_eq!(
        toolkit_version_at_root(&Some(None), &Some(None), &Some(Err(missing("nvcc")))),
        RootStep::Done(None)
    );
    assert_eq!(nvcc_version(&reply("release 12.4, V12.4.131")), Some(version("12.4")));
    assert_eq!(nvcc_version(&Err(missing("nvcc"))), None);
    assert_eq!(parse_cuda_version_json("[]"), None);
}

#[test]
fn a_platform_is_described() {
    let platform = detect_platform(
        "linux",
        "x86_64",
        kernel_version(&Some(" 6.8.0 \n".to_owned()), &None),
        &vec![None, Some("NAME=Debian\nVERSION_ID='12'\n".to_owned())],
    );
    assert_eq!(platform.architecture, Architecture::X86_64);
    assert_eq!(platform.kernel_version.as_deref(), Some("6.8.0"));
    assert_eq!(platform.distribution.as_deref(), Some("Debian 12"));

    let environment = detect_environment(
        &DetectOptions::default(),
        platform,
        LibcDetection::Musl(Some(version("1.2.5"))),
        PythonDetection { info: None, diagnostics: Vec::new() },
        NvidiaDetection {
            info: empty_nvidia(NvidiaDetectionStatus::NoDevices),
            diagnostics: Vec::new(),
        },
        None,
    )
    .expect("environment");
    assert_eq!(environment.glibc, None);
    assert!(environment.diagnostics.iter().any(|diagnostic| {
        diagnostic.code == DiagnosticCode::UnsupportedLibc
            && diagnostic.severity == DiagnosticSeverity::Error
    }));
    assert!(environment.diagnostics.iter().any(|diagnostic| {
        diagnostic.code == DiagnosticCode::CudaToolkitNotFound
            && diagnostic.severity == DiagnosticSeverity::Info
    }));
}

#[test]
fn a_blank_table_lists_no_processor() {
    let unusable = Some(reply("0, GPU-a\n"));
    let NvidiaStep::Done(done) =
        detect_nvidia(&None, &[], &unusable, &Some(reply("\n\n")), &Some(reply("")))
    else {
        panic!("done");
    };
    assert_eq!(done.info.status, NvidiaDetectionStatus::NoDevices);
    assert!(done.info.gpus.is_empty());
    assert_eq!(done.info.driver_version, None);
    assert_eq!(done.diagnostics[0].code, DiagnosticCode::NvidiaNoDevices);
}

#[test]
fn the_lowest_driver_is_the_one_that_counts() {
    let table = Some(reply("1, GPU-b, B, 535.1, 8.0\n0, GPU-a, A, 530.30.02, 8.0\n"));
    let NvidiaStep::Done(done) = detect_nvidia(&None, &[], &table, &None, &Some(reply(""))) else {
        panic!("done");
    };
    assert_eq!(done.info.status, NvidiaDetectionStatus::Detected);
    assert_eq!(done.info.gpus.len(), 2);
    assert_eq!(done.info.driver_version, Some(version("530.30.02")));
}

#[test]
fn the_root_above_an_interpreter_is_found() {
    for path in [
        "/home/user/.venv/bin/python",
        "/usr//bin/./python3",
        "/usr/bin/python3/",
        "/usr/bin/python3/./.",
        "/bin/python",
        "//bin//python",
        "/python",
        "/",
        "",
        "python",
        "bin/python",
        "./python",
        "./bin/python",
        "././bin/../python",
        ".",
        "./",
        "..",
        "../python",
        "../../python",
        "a/b/c/.hidden",
        "a/b./c",
        ".venv/bin/python",
        "/./a",
        "/../a",
    ] {
        let expected = std::path::Path::new(path)
            .parent()
            .and_then(std::path::Path::parent)
            .map(|root| root.to_str().expect("text").to_owned());
        assert_eq!(interpreter_root(&FilePath::new(path)), expected, "{path:?}");
    }
    assert_eq!(
        interpreter_root(&FilePath::new("/home/user/.venv/bin/python")).as_deref(),
        Some("/home/user/.venv")
    );
}

#[test]
fn interpreters_are_probed_in_isolation() {
    assert_eq!(probe_arguments("print()"), ["-I", "-S", "-c", "print()"]);
}

#[test]
fn the_queries_of_the_driver_tool_have_fixed_arguments() {
    assert_eq!(
        smi_arguments(SmiQuery::Table),
        vec![
            "--query-gpu=index,uuid,name,driver_version,compute_cap".to_owned(),
            "--format=csv,noheader,nounits".to_owned(),
        ]
    );
    assert_eq!(
        smi_arguments(SmiQuery::LegacyTable),
        vec![
            "--query-gpu=index,uuid,name,driver_version".to_owned(),
            "--format=csv,noheader,nounits".to_owned(),
        ]
    );
    assert!(smi_arguments(SmiQuery::Summary).is_empty());
}

#[test]
fn versioned_toolkits_are_recognized_by_name() {
    assert!(is_versioned_root("cuda-12.4"));
    assert!(is_versioned_root("cuda-"));
    assert!(!is_versioned_root("cuda"));
    assert!(!is_versioned_root("my-cuda-12"));
}

#[test]
fn a_virtual_environment_stands_above_its_interpreter() {
    let executable = FilePath::new("/tmp/venv/bin/python");
    assert_eq!(infer_virtual_environment(&executable, true), Some(FilePath::new("/tmp/venv")));
    assert_eq!(infer_virtual_environment(&executable, false), None);
    assert_eq!(infer_virtual_environment(&FilePath::new("python"), true), None);
    let reported = PythonProbeResult {
        virtual_environment: Some(" /opt/env ".to_owned()),
        ..probe()
    };
    let python = python_info_from_probe(&reported, &executable, false, None).expect("interpreter");
    assert_eq!(python.virtual_environment, Some(FilePath::new("/opt/env")));
    let python = python_info_from_probe(&reported, &executable, true, None).expect("interpreter");
    assert_eq!(python.virtual_environment, Some(FilePath::new("/tmp/venv")));
}
