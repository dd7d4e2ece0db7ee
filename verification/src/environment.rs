//! The environment as a whole: options of the inspection, the platform, and the report.

use crate::command::{CapturedOutput, CapturedOutputView, RunCommandOptions,
    DEFAULT_COMMAND_TIMEOUT_SECONDS, DEFAULT_MAX_COMMAND_OUTPUT_BYTES,
};
use crate::host::{
    nonempty, nonempty_trimmed, normalize_architecture, parse_os_release, release_name,
    release_values, LibcDetection, LibcDetectionView,
};
use crate::index::TimeSpan;
use crate::model::{
    architecture_named, architecture_text, noted, os_named, os_text, plain_diagnostic, Architecture,
    ArchitectureView, CudaToolkitInfo, CudaToolkitInfoView, Diagnostic, DiagnosticCode,
    DiagnosticSeverity, DiagnosticView, Environment, EnvironmentView, FilePath, OperatingSystem,
    OperatingSystemView, PlatformInfo, PlatformInfoView,
};
use crate::nvidia::{NvidiaDetection, NvidiaDetectionView};
use crate::outside::decode_strict;
use crate::pieces::lines;
use crate::python::{PythonDetection, PythonDetectionView};
use crate::text::{concat2, lowercase, outcome, push_item};
use crate::version::NumericVersionView;
use vstd::prelude::*;
use vstd::utf8::{decode_utf8, valid_utf8};

verus! {

/// Options controlling environment detection.
#[derive(Debug)]
pub struct DetectOptions {
    /// Explicit interpreter path corresponding to `--python`.
    pub python: Option<FilePath>,
    /// Physical NVIDIA indices to inspect. An empty list selects every GPU.
    pub gpu_indices: Vec<u32>,
    /// Maximum duration of each external command.
    pub command_timeout: TimeSpan,
    /// Maximum bytes retained independently for stdout and stderr.
    pub max_command_output_bytes: usize,
}

impl Default for DetectOptions {
    fn default() -> (options: DetectOptions)
        ensures
            options.python is None,
            options.gpu_indices@.len() == 0,
            options.command_timeout == (TimeSpan {
                seconds: DEFAULT_COMMAND_TIMEOUT_SECONDS,
                nanos: 0,
            }),
            options.max_command_output_bytes == DEFAULT_MAX_COMMAND_OUTPUT_BYTES,
    {
        DetectOptions {
            python: None,
            gpu_indices: Vec::new(),
            command_timeout: TimeSpan::from_secs(DEFAULT_COMMAND_TIMEOUT_SECONDS),
            max_command_output_bytes: DEFAULT_MAX_COMMAND_OUTPUT_BYTES,
        }
    }
}

/// Invalid environment-detection configuration.
#[derive(Debug, PartialEq, Eq)]
pub enum DetectError {
    /// A command cannot be bounded with the supplied options.
    InvalidOption(&'static str),
}

/// The model of [`DetectError`].
pub enum DetectErrorView {
    InvalidOption(Seq<char>),
}

impl DeepView for DetectError {
    type V = DetectErrorView;

    open spec fn deep_view(&self) -> DetectErrorView {
        match self {
            DetectError::InvalidOption(option) => DetectErrorView::InvalidOption(option@),
        }
    }
}

/// The message of a detection error.
pub open spec fn detect_error_text(error: DetectErrorView) -> Seq<char> {
    match error {
        DetectErrorView::InvalidOption(option) => "invalid detection option: "@ + option,
    }
}

impl DetectError {
    /// The message of the error.
    pub fn to_string(&self) -> (text: String)
        ensures
            text@ == detect_error_text(self.deep_view()),
    {
        match self {
            DetectError::InvalidOption(option) => concat2("invalid detection option: ", option),
        }
    }
}

impl DeepView for RunCommandOptions {
    type V = RunCommandOptions;

    open spec fn deep_view(&self) -> RunCommandOptions {
        *self
    }
}

/// The limits that options put on every command.
pub open spec fn command_limits_of(timeout: TimeSpan, bytes: usize) -> Result<
    RunCommandOptions,
    DetectErrorView,
> {
    if timeout.seconds == 0 && timeout.nanos == 0 {
        Err(DetectErrorView::InvalidOption("command_timeout must be greater than zero"@))
    } else if bytes == 0 {
        Err(DetectErrorView::InvalidOption("max_command_output_bytes must be greater than zero"@))
    } else {
        Ok(RunCommandOptions { timeout, max_stdout_bytes: bytes, max_stderr_bytes: bytes })
    }
}

/// The limits that options put on every command.
pub fn command_limits(options: &DetectOptions) -> (result: Result<RunCommandOptions, DetectError>)
    ensures
        outcome(result) == command_limits_of(
            options.command_timeout,
            options.max_command_output_bytes,
        ),
{
    if options.command_timeout.is_zero() {
        return Err(DetectError::InvalidOption("command_timeout must be greater than zero"));
    }
    if options.max_command_output_bytes == 0 {
        return Err(DetectError::InvalidOption("max_command_output_bytes must be greater than zero"));
    }
    Ok(
        RunCommandOptions {
            timeout: options.command_timeout,
            max_stdout_bytes: options.max_command_output_bytes,
            max_stderr_bytes: options.max_command_output_bytes,
        },
    )
}

// ---------------------------------------------------------------------------
// Platform

/// The kernel release: what the file holds, or else what a successful `uname` printed.
pub open spec fn kernel_release(
    file: Option<Seq<char>>,
    uname: Option<CapturedOutputView>,
) -> Option<Seq<char>> {
    let filed = match file {
        Some(text) => nonempty(text),
        None => None,
    };
    match filed {
        Some(release) => Some(release),
        None => match uname {
            Some(output) if output.status.success && valid_utf8(output.stdout) => nonempty(
                decode_utf8(output.stdout),
            ),
            _ => None,
        },
    }
}

/// The kernel release: what the file holds, or else what a successful `uname` printed.
pub fn kernel_version(file: &Option<String>, uname: &Option<CapturedOutput>) -> (release: Option<
    String,
>)
    ensures
        release.deep_view() == kernel_release(file.deep_view(), uname.deep_view()),
{
    if let Some(text) = file {
        if let Some(release) = nonempty_trimmed(text.as_str()) {
            return Some(release);
        }
    }
    match uname {
        None => None,
        Some(output) => {
            if !output.status.success {
                return None;
            }
            match decode_strict(output.stdout.as_slice()) {
                None => None,
                Some(text) => nonempty_trimmed(text.as_str()),
            }
        },
    }
}

/// The name that the first useful of several release descriptions gives.
pub open spec fn distribution_named(releases: Seq<Option<Seq<char>>>) -> Option<Seq<char>>
    decreases releases.len(),
{
    if releases.len() == 0 {
        None
    } else {
        let first = match releases[0] {
            Some(contents) => release_name(release_values(lines(contents))),
            None => None,
        };
        match first {
            Some(name) => Some(name),
            None => distribution_named(releases.skip(1)),
        }
    }
}

/// The name that the first useful of several release descriptions gives.
pub fn distribution_name(releases: &Vec<Option<String>>) -> (name: Option<String>)
    ensures
        name.deep_view() == distribution_named(releases.deep_view()),
{
    let ghost all = releases.deep_view();
    let mut index: usize = 0;
    assert(all.skip(0) =~= all);
    while index < releases.len()
        invariant
            index <= releases@.len(),
            all == releases.deep_view(),
            distribution_named(all) == distribution_named(all.skip(index as int)),
        decreases releases@.len() - index,
    {
        assert(all.skip(index as int)[0] == releases@[index as int].deep_view());
        assert(all.skip(index as int).skip(1) =~= all.skip(index + 1));
        if let Some(contents) = &releases[index] {
            if let Some(name) = parse_os_release(contents.as_str()) {
                return Some(name);
            }
        }
        index = index + 1;
    }
    None
}

/// The platform: `releases` are the release descriptions, in the order in which they count.
pub open spec fn platform_of(
    os: Seq<char>,
    architecture: Seq<char>,
    kernel: Option<Seq<char>>,
    releases: Seq<Option<Seq<char>>>,
) -> PlatformInfoView {
    PlatformInfoView {
        os: os_named(os),
        architecture: architecture_named(lowercase(architecture)),
        kernel_version: kernel,
        distribution: if os_named(os) == OperatingSystemView::Linux {
            distribution_named(releases)
        } else {
            None
        },
    }
}

/// Describes the platform.
pub fn detect_platform(
    os: &str,
    architecture: &str,
    kernel: Option<String>,
    releases: &Vec<Option<String>>,
) -> (platform: PlatformInfo)
    ensures
        platform.deep_view() == platform_of(
            os@,
            architecture@,
            kernel.deep_view(),
            releases.deep_view(),
        ),
{
    let system = OperatingSystem::from_name(os);
    let distribution = match system {
        OperatingSystem::Linux => distribution_name(releases),
        _ => None,
    };
    PlatformInfo {
        os: system,
        architecture: normalize_architecture(architecture),
        kernel_version: kernel,
        distribution,
    }
}

// ---------------------------------------------------------------------------
// Report

/// What is said of an operating system that has no wheels.
pub open spec fn os_notes(os: OperatingSystemView) -> Seq<DiagnosticView> {
    if os == OperatingSystemView::Linux {
        Seq::empty()
    } else {
        seq![
            noted(
                plain_diagnostic(
                    DiagnosticCode::UnsupportedOperatingSystem,
                    DiagnosticSeverity::Error,
                ),
                "os"@,
                os_text(os),
            ),
        ]
    }
}

/// What is said of an architecture that has no wheels.
pub open spec fn architecture_notes(architecture: ArchitectureView) -> Seq<DiagnosticView> {
    if architecture == ArchitectureView::X86_64 {
        Seq::empty()
    } else {
        seq![
            noted(
                plain_diagnostic(
                    DiagnosticCode::UnsupportedArchitecture,
                    DiagnosticSeverity::Error,
                ),
                "architecture"@,
                architecture_text(architecture),
            ),
        ]
    }
}

/// What is said of the C library.
pub open spec fn libc_notes(os: OperatingSystemView, libc: LibcDetectionView) -> Seq<
    DiagnosticView,
> {
    if os != OperatingSystemView::Linux {
        Seq::empty()
    } else {
        match libc {
            LibcDetectionView::Glibc(_) => Seq::empty(),
            LibcDetectionView::Musl(version) => {
                let plain = noted(
                    plain_diagnostic(DiagnosticCode::UnsupportedLibc, DiagnosticSeverity::Error),
                    "libc"@,
                    "musl"@,
                );
                seq![
                    match version {
                        Some(known) => noted(plain, "version"@, known.text),
                        None => plain,
                    },
                ]
            },
            LibcDetectionView::Unknown => seq![
                plain_diagnostic(DiagnosticCode::GlibcUnknown, DiagnosticSeverity::Warning),
            ],
        }
    }
}

/// The GNU C library that a Linux host has.
pub open spec fn glibc_of(os: OperatingSystemView, libc: LibcDetectionView) -> Option<
    NumericVersionView,
> {
    match libc {
        LibcDetectionView::Glibc(version) if os == OperatingSystemView::Linux => Some(version),
        _ => None,
    }
}

/// What is said of the toolkit.
pub open spec fn toolkit_notes(toolkit: Option<CudaToolkitInfoView>) -> Seq<DiagnosticView> {
    if toolkit is Some {
        Seq::empty()
    } else {
        seq![
            noted(
                plain_diagnostic(DiagnosticCode::CudaToolkitNotFound, DiagnosticSeverity::Info),
                "wheel_compatibility"@,
                "not_required"@,
            ),
        ]
    }
}

/// The environment that the parts of an inspection make up.
pub open spec fn environment_of(
    platform: PlatformInfoView,
    libc: LibcDetectionView,
    python: PythonDetectionView,
    nvidia: NvidiaDetectionView,
    toolkit: Option<CudaToolkitInfoView>,
) -> EnvironmentView {
    EnvironmentView {
        platform,
        glibc: glibc_of(platform.os, libc),
        python: python.info,
        nvidia: nvidia.info,
        cuda_toolkit: toolkit,
        diagnostics: os_notes(platform.os) + architecture_notes(platform.architecture) + libc_notes(
            platform.os,
            libc,
        ) + python.diagnostics + nvidia.diagnostics + toolkit_notes(toolkit),
    }
}

fn append_all(diagnostics: &mut Vec<Diagnostic>, more: Vec<Diagnostic>)
    ensures
        final(diagnostics).deep_view() == old(diagnostics).deep_view() + more.deep_view(),
{
    let ghost start = diagnostics.deep_view();
    let ghost all = more.deep_view();
    let mut index: usize = 0;
    while index < more.len()
        invariant
            index <= more@.len(),
            all == more.deep_view(),
            diagnostics.deep_view() == start + all.take(index as int),
        decreases more@.len() - index,
    {
        push_item(diagnostics, more[index].clone());
        assert(all.take(index + 1) =~= all.take(index as int).push(all[index as int]));
        assert(diagnostics.deep_view() =~= start + all.take(index + 1));
        index = index + 1;
    }
    assert(all.take(index as int) =~= all);
}

/// Puts the parts of an inspection together. `libc` counts on a Linux host only.
pub fn detect_environment(
    options: &DetectOptions,
    platform: PlatformInfo,
    libc: LibcDetection,
    python: PythonDetection,
    nvidia: NvidiaDetection,
    toolkit: Option<CudaToolkitInfo>,
) -> (result: Result<Environment, DetectError>)
    ensures
        outcome(result) == (match command_limits_of(
            options.command_timeout,
            options.max_command_output_bytes,
        ) {
            Err(error) => Err(error),
            Ok(_) => Ok(
                environment_of(
                    platform.deep_view(),
                    libc.deep_view(),
                    python.deep_view(),
                    nvidia.deep_view(),
                    toolkit.deep_view(),
                ),
            ),
        }),
{
    if let Err(error) = command_limits(options) {
        return Err(error);
    }
    let mut diagnostics: Vec<Diagnostic> = Vec::new();
    let ghost system = platform.os.deep_view();
    let linux = match platform.os {
        OperatingSystem::Linux => true,
        _ => false,
    };
    if !linux {
        push_item(
            &mut diagnostics,
            Diagnostic::new(
                DiagnosticCode::UnsupportedOperatingSystem,
                DiagnosticSeverity::Error,
            ).with_detail("os", platform.os.to_string().as_str()),
        );
    }
    assert(diagnostics.deep_view() =~= os_notes(system));
    let ghost first = diagnostics.deep_view();
    let intel = match platform.architecture {
        Architecture::X86_64 => true,
        _ => false,
    };
    if !intel {
        push_item(
            &mut diagnostics,
            Diagnostic::new(
                DiagnosticCode::UnsupportedArchitecture,
                DiagnosticSeverity::Error,
            ).with_detail("architecture", platform.architecture.to_string().as_str()),
        );
    }
    assert(diagnostics.deep_view() =~= first + architecture_notes(
        platform.architecture.deep_view(),
    ));
    let ghost second = diagnostics.deep_view();
    let ghost found_libc = libc.deep_view();
    let glibc = if linux {
        match libc {
            LibcDetection::Glibc(version) => Some(version),
            LibcDetection::Musl(version) => {
                let plain = Diagnostic::new(
                    DiagnosticCode::UnsupportedLibc,
                    DiagnosticSeverity::Error,
                ).with_detail("libc", "musl");
                let diagnostic = match version {
                    Some(known) => plain.with_detail("version", known.to_string().as_str()),
                    None => plain,
                };
                push_item(&mut diagnostics, diagnostic);
                None
            },
            LibcDetection::Unknown => {
                push_item(
                    &mut diagnostics,
                    Diagnostic::new(DiagnosticCode::GlibcUnknown, DiagnosticSeverity::Warning),
                );
                None
            },
        }
    } else {
        None
    };
    assert(diagnostics.deep_view() =~= second + libc_notes(system, found_libc));
    append_all(&mut diagnostics, python.diagnostics);
    append_all(&mut diagnostics, nvidia.diagnostics);
    let ghost third = diagnostics.deep_view();
    if toolkit.is_none() {
        push_item(
            &mut diagnostics,
            Diagnostic::new(
                DiagnosticCode::CudaToolkitNotFound,
                DiagnosticSeverity::Info,
            ).with_detail("wheel_compatibility", "not_required"),
        );
    }
    assert(diagnostics.deep_view() =~= third + toolkit_notes(toolkit.deep_view()));
    Ok(
        Environment {
            platform,
            glibc,
            python: python.info,
            nvidia: nvidia.info,
            cuda_toolkit: toolkit,
            diagnostics,
        },
    )
}

/// A missing toolkit changes nothing but what is said of the toolkit: it is no error.
pub proof fn missing_toolkit_is_informational(
    platform: PlatformInfoView,
    libc: LibcDetectionView,
    python: PythonDetectionView,
    nvidia: NvidiaDetectionView,
    toolkit: CudaToolkitInfoView,
)
    ensures
        ({
            let with = environment_of(platform, libc, python, nvidia, Some(toolkit));
            let without = environment_of(platform, libc, python, nvidia, None);
            &&& without.platform == with.platform
            &&& without.glibc == with.glibc
            &&& without.python == with.python
            &&& without.nvidia == with.nvidia
            &&& without.diagnostics.drop_last() == with.diagnostics
            &&& without.diagnostics.last().severity == DiagnosticSeverity::Info
        }),
{
    let with = environment_of(platform, libc, python, nvidia, Some(toolkit));
    let without = environment_of(platform, libc, python, nvidia, None);
    assert(without.diagnostics.drop_last() =~= with.diagnostics);
}

} // verus!
