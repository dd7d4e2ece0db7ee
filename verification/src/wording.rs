//! The words of the output: what warnings, reasons and diagnostics say.

use crate::details::{lookup, Details};
use crate::model::{
    CandidateWarning, CandidateWarningView, CheckStatus, CompatibilityStatus, DecisionReason,
    DecisionReasonView, Diagnostic, DiagnosticCode, DiagnosticSeverity, DiagnosticView,
    MetadataOrigin, NvidiaDetectionStatus, ReasonCode, WarningCode,
};
use crate::pieces::{join, join_texts};
use crate::terminal::{shown, terminal_text};
use crate::text::{
    concat2, concat3, concat4, concat5, decimal, decimal_text, lowercase, push_item, same,
    to_lowercase,
};
use vstd::prelude::*;

verus! {

// ---------------------------------------------------------------------------
// Details

/// One detail, as it is shown.
pub open spec fn detail_words(entry: (Seq<char>, Seq<char>)) -> Seq<char> {
    shown(entry.0) + "="@ + shown(entry.1)
}

/// Details after a text: between parentheses, and nothing where there are none.
pub open spec fn suffix_words(details: Seq<(Seq<char>, Seq<char>)>) -> Seq<char> {
    if details.len() == 0 {
        ""@
    } else {
        " ("@ + join(
            details.map_values(|entry: (Seq<char>, Seq<char>)| detail_words(entry)),
            ", "@,
        ) + ")"@
    }
}

/// Details after a text.
pub fn details_suffix(details: &Details) -> (text: String)
    ensures
        text@ == suffix_words(details.deep_view()),
{
    if details.is_empty() {
        return "".to_owned();
    }
    let entries = details.entries();
    let ghost all = details.deep_view().map_values(
        |entry: (Seq<char>, Seq<char>)| detail_words(entry),
    );
    let mut texts: Vec<String> = Vec::new();
    let mut index: usize = 0;
    assert(entries.deep_view().len() == entries@.len());
    while index < entries.len()
        invariant
            index <= entries@.len() == all.len(),
            entries.deep_view() == details.deep_view(),
            all == details.deep_view().map_values(
                |entry: (Seq<char>, Seq<char>)| detail_words(entry),
            ),
            texts.deep_view() == all.take(index as int),
        decreases entries@.len() - index,
    {
        let name = terminal_text(entries[index].0.as_str());
        let value = terminal_text(entries[index].1.as_str());
        assert(entries.deep_view()[index as int] == entries@[index as int].deep_view());
        push_item(&mut texts, concat3(name.as_str(), "=", value.as_str()));
        assert(all.take(index + 1) =~= all.take(index as int).push(all[index as int]));
        index = index + 1;
    }
    assert(all.take(index as int) =~= all);
    concat3(" (", join_texts(&texts, ", ").as_str(), ")")
}

/// A detail as it is shown, or `default` where there is none.
pub open spec fn detail_or(
    details: Seq<(Seq<char>, Seq<char>)>,
    name: Seq<char>,
    default: Seq<char>,
) -> Seq<char> {
    match lookup(details, name) {
        Some(value) => shown(value),
        None => default,
    }
}

/// A detail as it is shown, or `default` where there is none.
pub fn show_detail(details: &Details, name: &str, default: &str) -> (text: String)
    ensures
        text@ == detail_or(details.deep_view(), name@, default@),
{
    match details.get(name) {
        Some(value) => terminal_text(value.as_str()),
        None => default.to_owned(),
    }
}

// ---------------------------------------------------------------------------
// Messages

/// What a kind of warning says.
pub open spec fn warning_message(code: WarningCode) -> Seq<char> {
    match code {
        WarningCode::PtxOrNewDriverFeatureMayFail => "PTX JIT or features that require a newer driver may fail."@,
        WarningCode::GpuArchitectureUnknown => "No reviewed architecture evidence is linked to this exact wheel version; verify after installation."@,
        WarningCode::StaleMetadata => "Wheel metadata is stale."@,
        WarningCode::NvidiaDetectionIncomplete => "NVIDIA detection was incomplete, so CUDA compatibility is uncertain."@,
        WarningCode::BuiltinPythonTags => "Python wheel tags were generated by the conservative built-in fallback."@,
        WarningCode::OfficialPreferenceUnknown => "No reviewed PyTorch release preference is available for this configuration."@,
        WarningCode::NotOfficialReleaseConfiguration => "The wheel exists in the index but is not in the reviewed PyTorch release configuration."@,
    }
}

/// What a kind of warning says.
pub fn warning_text_of(code: WarningCode) -> (text: &'static str)
    ensures
        text@ == warning_message(code),
{
    match code {
        WarningCode::PtxOrNewDriverFeatureMayFail => "PTX JIT or features that require a newer driver may fail.",
        WarningCode::GpuArchitectureUnknown => "No reviewed architecture evidence is linked to this exact wheel version; verify after installation.",
        WarningCode::StaleMetadata => "Wheel metadata is stale.",
        WarningCode::NvidiaDetectionIncomplete => "NVIDIA detection was incomplete, so CUDA compatibility is uncertain.",
        WarningCode::BuiltinPythonTags => "Python wheel tags were generated by the conservative built-in fallback.",
        WarningCode::OfficialPreferenceUnknown => "No reviewed PyTorch release preference is available for this configuration.",
        WarningCode::NotOfficialReleaseConfiguration => "The wheel exists in the index but is not in the reviewed PyTorch release configuration.",
    }
}

/// What a warning says.
pub open spec fn warning_words(warning: CandidateWarningView) -> Seq<char> {
    warning_message(warning.code) + suffix_words(warning.details)
}

/// What a warning says.
pub fn warning_text(warning: &CandidateWarning) -> (text: String)
    ensures
        text@ == warning_words(warning.deep_view()),
{
    concat2(warning_text_of(warning.code), details_suffix(&warning.details).as_str())
}

/// What a reason says.
pub open spec fn reason_words(reason: DecisionReasonView) -> Seq<char> {
    let details = reason.details;
    match reason.code {
        ReasonCode::WheelExists => "Official wheel exists"@ + (match lookup(details, "count"@) {
            Some(count) => " ("@ + shown(count) + " file(s))"@,
            None => ""@,
        }) + "."@,
        ReasonCode::WheelMissing => "No matching official wheel exists."@,
        ReasonCode::PythonWheelMissing => "No wheel matches the selected Python version and ABI."@,
        ReasonCode::PythonTagMatches => "Python tag matches."@,
        ReasonCode::AbiTagMatches => "Python ABI tag matches."@,
        ReasonCode::WheelYanked => "The wheel was yanked from the official index."@,
        ReasonCode::PlatformTagMatches => "Platform tag matches."@,
        ReasonCode::PlatformMismatch => "The wheel does not match this platform."@,
        ReasonCode::GlibcTooOld => "glibc "@ + detail_or(details, "detected"@, "unknown"@) + " is too old; requires "@ + detail_or(details, "required"@, "a newer version"@) + " or newer."@,
        ReasonCode::GlibcUnknown => "glibc compatibility could not be confirmed."@,
        ReasonCode::DriverSupportsCudaFamily => "The NVIDIA driver supports this CUDA family (minimum "@ + detail_or(details, "minimum"@, "unknown"@) + ")."@,
        ReasonCode::DriverSupportsCudaVariant => "The NVIDIA driver meets the normal CUDA variant minimum ("@ + detail_or(details, "minimum"@, "unknown"@) + ")."@,
        ReasonCode::UsesCudaMinorCompatibility => "Uses CUDA minor-version compatibility; the normal driver minimum is "@ + detail_or(details, "normal_minimum"@, "unknown"@) + "."@,
        ReasonCode::DriverTooOld => "NVIDIA driver "@ + detail_or(details, "detected"@, "unknown"@) + " is too old; requires "@ + detail_or(details, "minimum"@, "a newer driver"@) + " or newer."@,
        ReasonCode::DriverUnknown => "NVIDIA driver compatibility is unknown."@,
        ReasonCode::DriverNotRequired => "A CPU wheel does not require an NVIDIA driver."@,
        ReasonCode::GpuArchitectureSupported => "The wheel supports every selected GPU architecture."@,
        ReasonCode::GpuArchitectureUnsupported => "The wheel does not support selected GPU architecture "@ + detail_or(details, "capabilities"@, "unknown"@) + "."@,
        ReasonCode::GpuArchitectureUnknown => "Static GPU architecture coverage is not established for this exact wheel version."@,
        ReasonCode::NvidiaGpuUnavailable => "No NVIDIA GPU is available for this wheel."@,
        ReasonCode::VersionConstraintMatches => "The requested version constraint matches."@,
        ReasonCode::VersionConstraintMismatch => "The requested version constraint does not match."@,
        ReasonCode::StableRelease => "This is a stable PyTorch release."@,
        ReasonCode::Prerelease => "Pre-release wheels are disabled by default."@,
        ReasonCode::OfficialReleaseConfiguration => "This is a reviewed PyTorch release configuration."@,
        ReasonCode::NotOfficialReleaseConfiguration => "The wheel is not part of the reviewed PyTorch release configuration."@,
        ReasonCode::OfficialPreferenceUnknown => "No reviewed release preference is available for this configuration."@,
        ReasonCode::RuntimeVerified => "Runtime verification passed."@,
        ReasonCode::RuntimeNotRun => "Runtime verification has not been run."@,
        ReasonCode::RuntimeVerificationFailed => "Runtime verification failed."@,
    }
}

/// What a reason says.
pub fn reason_text(reason: &DecisionReason) -> (text: String)
    ensures
        text@ == reason_words(reason.deep_view()),
{
    let details = &reason.details;
    match reason.code {
        ReasonCode::WheelExists => match details.get("count") {
            Some(count) => concat3(
                "Official wheel exists",
                concat3(" (", terminal_text(count.as_str()).as_str(), " file(s))").as_str(),
                ".",
            ),
            None => concat3("Official wheel exists", "", "."),
        },
        ReasonCode::WheelMissing => "No matching official wheel exists.".to_owned(),
        ReasonCode::PythonWheelMissing => "No wheel matches the selected Python version and ABI.".to_owned(),
        ReasonCode::PythonTagMatches => "Python tag matches.".to_owned(),
        ReasonCode::AbiTagMatches => "Python ABI tag matches.".to_owned(),
        ReasonCode::WheelYanked => "The wheel was yanked from the official index.".to_owned(),
        ReasonCode::PlatformTagMatches => "Platform tag matches.".to_owned(),
        ReasonCode::PlatformMismatch => "The wheel does not match this platform.".to_owned(),
        ReasonCode::GlibcTooOld => concat5(
            "glibc ",
            show_detail(details, "detected", "unknown").as_str(),
            " is too old; requires ",
            show_detail(details, "required", "a newer version").as_str(),
            " or newer.",
        ),
        ReasonCode::GlibcUnknown => "glibc compatibility could not be confirmed.".to_owned(),
        ReasonCode::DriverSupportsCudaFamily => concat3(
            "The NVIDIA driver supports this CUDA family (minimum ",
            show_detail(details, "minimum", "unknown").as_str(),
            ").",
        ),
        ReasonCode::DriverSupportsCudaVariant => concat3(
            "The NVIDIA driver meets the normal CUDA variant minimum (",
            show_detail(details, "minimum", "unknown").as_str(),
            ").",
        ),
        ReasonCode::UsesCudaMinorCompatibility => concat3(
            "Uses CUDA minor-version compatibility; the normal driver minimum is ",
            show_detail(details, "normal_minimum", "unknown").as_str(),
            ".",
        ),
        ReasonCode::DriverTooOld => concat5(
            "NVIDIA driver ",
            show_detail(details, "detected", "unknown").as_str(),
            " is too old; requires ",
            show_detail(details, "minimum", "a newer driver").as_str(),
            " or newer.",
        ),
        ReasonCode::DriverUnknown => "NVIDIA driver compatibility is unknown.".to_owned(),
        ReasonCode::DriverNotRequired => "A CPU wheel does not require an NVIDIA driver.".to_owned(),
        ReasonCode::GpuArchitectureSupported => "The wheel supports every selected GPU architecture.".to_owned(),
        ReasonCode::GpuArchitectureUnsupported => concat3(
            "The wheel does not support selected GPU architecture ",
            show_detail(details, "capabilities", "unknown").as_str(),
            ".",
        ),
        ReasonCode::GpuArchitectureUnknown => "Static GPU architecture coverage is not established for this exact wheel version.".to_owned(),
        ReasonCode::NvidiaGpuUnavailable => "No NVIDIA GPU is available for this wheel.".to_owned(),
        ReasonCode::VersionConstraintMatches => "The requested version constraint matches.".to_owned(),
        ReasonCode::VersionConstraintMismatch => "The requested version constraint does not match.".to_owned(),
        ReasonCode::StableRelease => "This is a stable PyTorch release.".to_owned(),
        ReasonCode::Prerelease => "Pre-release wheels are disabled by default.".to_owned(),
        ReasonCode::OfficialReleaseConfiguration => "This is a reviewed PyTorch release configuration.".to_owned(),
        ReasonCode::NotOfficialReleaseConfiguration => "The wheel is not part of the reviewed PyTorch release configuration.".to_owned(),
        ReasonCode::OfficialPreferenceUnknown => "No reviewed release preference is available for this configuration.".to_owned(),
        ReasonCode::RuntimeVerified => "Runtime verification passed.".to_owned(),
        ReasonCode::RuntimeNotRun => "Runtime verification has not been run.".to_owned(),
        ReasonCode::RuntimeVerificationFailed => "Runtime verification failed.".to_owned(),
    }
}

/// What a kind of diagnostic says.
pub open spec fn diagnostic_message(code: DiagnosticCode) -> Seq<char> {
    match code {
        DiagnosticCode::UnsupportedOperatingSystem => "The operating system is unsupported."@,
        DiagnosticCode::UnsupportedArchitecture => "The CPU architecture is unsupported."@,
        DiagnosticCode::UnsupportedLibc => "The host C library is unsupported."@,
        DiagnosticCode::GlibcUnknown => "glibc could not be identified."@,
        DiagnosticCode::PythonUnavailable => "No usable Python interpreter was found."@,
        DiagnosticCode::UnsupportedPythonImplementation => "The selected Python implementation is unsupported."@,
        DiagnosticCode::BuiltinPythonTags => "Python tags use the conservative built-in fallback."@,
        DiagnosticCode::NvidiaSmiUnavailable => "nvidia-smi was not found."@,
        DiagnosticCode::NvidiaNoDevices => "NVIDIA reported no visible devices."@,
        DiagnosticCode::NvidiaInspectionFailed => "NVIDIA inspection failed."@,
        DiagnosticCode::NvidiaInspectionTimedOut => "NVIDIA inspection timed out."@,
        DiagnosticCode::ComputeCapabilityUnknown => "One or more GPU compute capabilities are unknown."@,
        DiagnosticCode::InvalidGpuSelection => "The requested GPU selection is invalid."@,
        DiagnosticCode::CudaVisibleDevicesSet => "CUDA_VISIBLE_DEVICES changes the visible GPU mapping."@,
        DiagnosticCode::InconsistentDriverVersions => "Selected GPUs reported inconsistent driver versions."@,
        DiagnosticCode::CudaToolkitNotFound => "A local CUDA Toolkit was not found; official wheels do not require one."@,
        DiagnosticCode::CudnnInspectionFailed => "Optional cuDNN inspection failed."@,
    }
}

/// What a kind of diagnostic says.
pub fn diagnostic_text_of(code: DiagnosticCode) -> (text: &'static str)
    ensures
        text@ == diagnostic_message(code),
{
    match code {
        DiagnosticCode::UnsupportedOperatingSystem => "The operating system is unsupported.",
        DiagnosticCode::UnsupportedArchitecture => "The CPU architecture is unsupported.",
        DiagnosticCode::UnsupportedLibc => "The host C library is unsupported.",
        DiagnosticCode::GlibcUnknown => "glibc could not be identified.",
        DiagnosticCode::PythonUnavailable => "No usable Python interpreter was found.",
        DiagnosticCode::UnsupportedPythonImplementation => "The selected Python implementation is unsupported.",
        DiagnosticCode::BuiltinPythonTags => "Python tags use the conservative built-in fallback.",
        DiagnosticCode::NvidiaSmiUnavailable => "nvidia-smi was not found.",
        DiagnosticCode::NvidiaNoDevices => "NVIDIA reported no visible devices.",
        DiagnosticCode::NvidiaInspectionFailed => "NVIDIA inspection failed.",
        DiagnosticCode::NvidiaInspectionTimedOut => "NVIDIA inspection timed out.",
        DiagnosticCode::ComputeCapabilityUnknown => "One or more GPU compute capabilities are unknown.",
        DiagnosticCode::InvalidGpuSelection => "The requested GPU selection is invalid.",
        DiagnosticCode::CudaVisibleDevicesSet => "CUDA_VISIBLE_DEVICES changes the visible GPU mapping.",
        DiagnosticCode::InconsistentDriverVersions => "Selected GPUs reported inconsistent driver versions.",
        DiagnosticCode::CudaToolkitNotFound => "A local CUDA Toolkit was not found; official wheels do not require one.",
        DiagnosticCode::CudnnInspectionFailed => "Optional cuDNN inspection failed.",
    }
}

/// What a diagnostic says.
pub open spec fn diagnostic_words(diagnostic: DiagnosticView) -> Seq<char> {
    diagnostic_message(diagnostic.code) + suffix_words(diagnostic.details)
}

/// What a diagnostic says.
pub fn diagnostic_text(diagnostic: &Diagnostic) -> (text: String)
    ensures
        text@ == diagnostic_words(diagnostic.deep_view()),
{
    concat2(diagnostic_text_of(diagnostic.code), details_suffix(&diagnostic.details).as_str())
}

// ---------------------------------------------------------------------------
// Names

/// The name of a severity.
pub open spec fn severity_words(severity: DiagnosticSeverity) -> Seq<char> {
    match severity {
        DiagnosticSeverity::Info => "Info"@,
        DiagnosticSeverity::Warning => "Warning"@,
        DiagnosticSeverity::Error => "Error"@,
    }
}

/// The name of a severity.
pub fn diagnostic_severity_name(severity: DiagnosticSeverity) -> (text: &'static str)
    ensures
        text@ == severity_words(severity),
{
    match severity {
        DiagnosticSeverity::Info => "Info",
        DiagnosticSeverity::Warning => "Warning",
        DiagnosticSeverity::Error => "Error",
    }
}

/// Where metadata come from.
pub open spec fn origin_words(origin: MetadataOrigin) -> Seq<char> {
    match origin {
        MetadataOrigin::Network => "downloaded"@,
        MetadataOrigin::FreshCache => "fresh cache"@,
        MetadataOrigin::OfflineCache => "offline cache"@,
        MetadataOrigin::StaleIfError => "stale fallback cache"@,
    }
}

/// Where metadata come from.
pub fn metadata_origin_name(origin: MetadataOrigin) -> (text: &'static str)
    ensures
        text@ == origin_words(origin),
{
    match origin {
        MetadataOrigin::Network => "downloaded",
        MetadataOrigin::FreshCache => "fresh cache",
        MetadataOrigin::OfflineCache => "offline cache",
        MetadataOrigin::StaleIfError => "stale fallback cache",
    }
}

/// What a detection without processors came to.
pub open spec fn nvidia_words(status: NvidiaDetectionStatus) -> Seq<char> {
    match status {
        NvidiaDetectionStatus::Detected => "NVIDIA detected, but no selected GPU was returned."@,
        NvidiaDetectionStatus::CommandUnavailable => "nvidia-smi is unavailable."@,
        NvidiaDetectionStatus::NoDevices => "No NVIDIA GPU was detected."@,
        NvidiaDetectionStatus::Failed => "NVIDIA inspection failed."@,
        NvidiaDetectionStatus::TimedOut => "NVIDIA inspection timed out."@,
    }
}

/// What a detection without processors came to.
pub fn nvidia_status_text(status: NvidiaDetectionStatus) -> (text: &'static str)
    ensures
        text@ == nvidia_words(status),
{
    match status {
        NvidiaDetectionStatus::Detected => "NVIDIA detected, but no selected GPU was returned.",
        NvidiaDetectionStatus::CommandUnavailable => "nvidia-smi is unavailable.",
        NvidiaDetectionStatus::NoDevices => "No NVIDIA GPU was detected.",
        NvidiaDetectionStatus::Failed => "NVIDIA inspection failed.",
        NvidiaDetectionStatus::TimedOut => "NVIDIA inspection timed out.",
    }
}

/// The name of a compatibility status.
pub open spec fn compatibility_words(status: CompatibilityStatus) -> Seq<char> {
    match status {
        CompatibilityStatus::Verified => "verified"@,
        CompatibilityStatus::DirectCompatible => "direct-compatible"@,
        CompatibilityStatus::MinorCompatible => "minor-compatible"@,
        CompatibilityStatus::Unverified => "unverified"@,
        CompatibilityStatus::Incompatible => "incompatible"@,
        CompatibilityStatus::Unavailable => "unavailable"@,
    }
}

/// The name of a compatibility status.
pub fn compatibility_name(status: CompatibilityStatus) -> (text: &'static str)
    ensures
        text@ == compatibility_words(status),
{
    match status {
        CompatibilityStatus::Verified => "verified",
        CompatibilityStatus::DirectCompatible => "direct-compatible",
        CompatibilityStatus::MinorCompatible => "minor-compatible",
        CompatibilityStatus::Unverified => "unverified",
        CompatibilityStatus::Incompatible => "incompatible",
        CompatibilityStatus::Unavailable => "unavailable",
    }
}

/// The name of the status of a check.
pub open spec fn check_words(status: CheckStatus) -> Seq<char> {
    match status {
        CheckStatus::Pass => "pass"@,
        CheckStatus::Fail => "fail"@,
        CheckStatus::Unknown => "unknown"@,
        CheckStatus::NotApplicable => "not-applicable"@,
    }
}

/// The name of the status of a check.
pub fn check_status_name(status: CheckStatus) -> (text: &'static str)
    ensures
        text@ == check_words(status),
{
    match status {
        CheckStatus::Pass => "pass",
        CheckStatus::Fail => "fail",
        CheckStatus::Unknown => "unknown",
        CheckStatus::NotApplicable => "not-applicable",
    }
}

/// An optional truth value.
pub open spec fn truth_words(value: Option<bool>) -> Seq<char> {
    match value {
        Some(true) => "yes"@,
        Some(false) => "no"@,
        None => "unknown"@,
    }
}

/// An optional truth value.
pub fn optional_bool(value: Option<bool>) -> (text: &'static str)
    ensures
        text@ == truth_words(value),
{
    match value {
        Some(true) => "yes",
        Some(false) => "no",
        None => "unknown",
    }
}

/// The name of a Python implementation.
pub open spec fn implementation_words(implementation: Seq<char>) -> Seq<char> {
    if lowercase(implementation) == "cpython"@ {
        "CPython"@
    } else {
        shown(implementation)
    }
}

/// The name of a Python implementation.
pub fn python_implementation_name(implementation: &str) -> (text: String)
    ensures
        text@ == implementation_words(implementation@),
{
    if same(to_lowercase(implementation).as_str(), "cpython") {
        "CPython".to_owned()
    } else {
        terminal_text(implementation)
    }
}

/// A length of time in its highest units: days and hours, hours and minutes, minutes, or
/// seconds; a second unit only where it is not zero.
pub open spec fn duration_words(seconds: nat) -> Seq<char> {
    let days = seconds / 86_400;
    let hours = (seconds % 86_400) / 3_600;
    let minutes = (seconds % 3_600) / 60;
    if days > 0 && hours > 0 {
        decimal(days) + "d "@ + decimal(hours) + "h"@
    } else if days > 0 {
        decimal(days) + "d"@
    } else if hours > 0 && minutes > 0 {
        decimal(hours) + "h "@ + decimal(minutes) + "m"@
    } else if hours > 0 {
        decimal(hours) + "h"@
    } else if minutes > 0 {
        decimal(minutes) + "m"@
    } else {
        decimal(seconds) + "s"@
    }
}

/// A length of time in its highest units.
pub fn human_duration(seconds: u64) -> (text: String)
    ensures
        text@ == duration_words(seconds as nat),
{
    let days: u64 = seconds / 86_400;
    let hours: u64 = (seconds % 86_400) / 3_600;
    let minutes: u64 = (seconds % 3_600) / 60;
    if days > 0 {
        if hours > 0 {
            concat4(decimal_text(days).as_str(), "d ", decimal_text(hours).as_str(), "h")
        } else {
            concat2(decimal_text(days).as_str(), "d")
        }
    } else if hours > 0 {
        if minutes > 0 {
            concat4(decimal_text(hours).as_str(), "h ", decimal_text(minutes).as_str(), "m")
        } else {
            concat2(decimal_text(hours).as_str(), "h")
        }
    } else if minutes > 0 {
        concat2(decimal_text(minutes).as_str(), "m")
    } else {
        concat2(decimal_text(seconds).as_str(), "s")
    }
}

} // verus!
