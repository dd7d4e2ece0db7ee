//! Dynamic validation of the PyTorch installation in a selected Python environment: what is
//! asked of the probe, and what its answer means.
//!
//! Verification imports and executes the installed `torch` package in a child process. Only run
//! it against Python environments whose installed code you trust.

use crate::command::{CapturedOutput, CapturedOutputView, ProcessStatus, ProcessStatusView};
use crate::index::TimeSpan;
use crate::model::{
    noted, plain_diagnostic, CompatibilityStatus, ComputeCapability, Diagnostic, DiagnosticCode,
    DiagnosticSeverity, DiagnosticView, FilePath, FilePathView, VerificationCheck,
    VerificationCheckView, VerificationGpuMapping, VerificationGpuMappingView, VerificationReport,
    VerificationReportView, VerifiedDevice, VerifiedDeviceView, SCHEMA_VERSION,
};
use crate::numbers::{
    ascending_numbers, ascending_set, decimal_texts, decimals, numbers_of, same_numbers,
};
use crate::order::kept;
use crate::outside::{decode_lossy, encode_selection, lossy_text, selection_json};
use crate::pieces::{join, join_texts, trim, trimmed};
use crate::text::{
    clone_optional, clone_texts, concat2, concat3, concat4, concat5, control, decimal, decimal_text,
    from_chars, is_control, outcome, push_item, same, to_chars, wide_decimal_text,
};
use vstd::prelude::*;

verus! {

/// Longest time a verification may take, unless another is given.
pub const DEFAULT_TIMEOUT_SECONDS: u64 = 60;

/// Most bytes captured of a verification, unless another number is given.
pub const DEFAULT_MAX_OUTPUT_BYTES: usize = 1_048_576;

/// Longest time between two looks at a running verification.
pub const WAIT_POLL_NANOS: u64 = 10_000_000;

/// Version of the protocol that the probe speaks.
pub const PROBE_PROTOCOL_VERSION: u32 = 1;

/// What marks the line of the probe's answer.
pub const PROBE_PREFIX: &'static str = "TORCH_CHECK_VERIFY_JSON:";

/// Most characters of a message.
pub const MAX_MESSAGE_CHARS: usize = 1024;

/// Options for validating the PyTorch installation in one Python environment.
#[derive(Debug)]
pub struct VerifyOptions {
    /// Exact Python executable whose installed `torch` package will be imported.
    pub python_executable: FilePath,
    /// Logical PyTorch CUDA indices to exercise. `None` exercises every logical CUDA device.
    pub device_indices: Option<Vec<u32>>,
    /// Optional CUDA visibility override, normally a comma-separated list of full GPU UUIDs.
    pub cuda_visible_devices: Option<String>,
    /// Maximum wall-clock duration for the complete child process.
    pub timeout: TimeSpan,
    /// Maximum combined stdout and stderr captured from the child process.
    pub max_output_bytes: usize,
}

impl VerifyOptions {
    /// Creates options with a 60-second timeout, a 1 MiB output limit, and all logical GPUs.
    pub fn new(python_executable: FilePath) -> (options: VerifyOptions)
        ensures
            options.python_executable.deep_view() == python_executable.deep_view(),
            options.device_indices is None,
            options.cuda_visible_devices is None,
            options.timeout == (TimeSpan { seconds: DEFAULT_TIMEOUT_SECONDS, nanos: 0 }),
            options.max_output_bytes == DEFAULT_MAX_OUTPUT_BYTES,
    {
        VerifyOptions {
            python_executable,
            device_indices: None,
            cuda_visible_devices: None,
            timeout: TimeSpan::from_secs(DEFAULT_TIMEOUT_SECONDS),
            max_output_bytes: DEFAULT_MAX_OUTPUT_BYTES,
        }
    }
}

// ---------------------------------------------------------------------------
// Device selection

/// The devices that a selection selects: all of them, or the ones listed.
pub open spec fn normalized_selection(indices: Option<Seq<u32>>) -> Result<
    Option<Seq<u32>>,
    Seq<char>,
> {
    match indices {
        None => Ok(None),
        Some(list) => if list.len() == 0 {
            Err("selected logical CUDA device list must not be empty"@)
        } else {
            Ok(Some(ascending_set(list)))
        },
    }
}

/// Puts a selection of devices in order, each device once.
pub fn normalized_device_indices(indices: Option<&[u32]>) -> (result: Result<
    Option<Vec<u32>>,
    String,
>)
    ensures
        (match result {
            Ok(selected) => Ok(numbers_of(selected)),
            Err(message) => Err(message@),
        }) == normalized_selection(
            match indices {
                Some(list) => Some(list@),
                None => None,
            },
        ),
{
    let list = match indices {
        None => {
            return Ok(None);
        },
        Some(list) => list,
    };
    if list.len() == 0 {
        return Err("selected logical CUDA device list must not be empty".to_owned());
    }
    Ok(Some(ascending_numbers(list)))
}

// ---------------------------------------------------------------------------
// Running the probe

/// How much of the output of a child may still be kept, over both of its streams.
#[derive(Debug, Clone, Copy, PartialEq, Eq, Structural)]
pub struct OutputBudget {
    /// Most bytes that are kept.
    pub max: usize,
    /// How many bytes have come.
    pub used: usize,
    /// Whether more came than is kept.
    pub exceeded: bool,
}

/// How many of `count` bytes are kept.
pub open spec fn retained(budget: OutputBudget, count: nat) -> nat {
    let room = if budget.max >= budget.used {
        (budget.max - budget.used) as nat
    } else {
        0
    };
    if count <= room {
        count
    } else {
        room
    }
}

/// The budget after `count` more bytes have come.
pub open spec fn charged(budget: OutputBudget, count: nat) -> OutputBudget {
    OutputBudget {
        max: budget.max,
        used: if budget.used + count <= usize::MAX {
            (budget.used + count) as usize
        } else {
            usize::MAX
        },
        exceeded: budget.exceeded || retained(budget, count) < count,
    }
}

impl OutputBudget {
    /// Nothing has come yet.
    pub fn new(max: usize) -> (budget: OutputBudget)
        ensures
            budget == (OutputBudget { max, used: 0, exceeded: false }),
    {
        OutputBudget { max, used: 0, exceeded: false }
    }

    /// Takes note of `read_count` more bytes, and tells how many of them are kept.
    pub fn retain_count(&mut self, read_count: usize) -> (count: usize)
        ensures
            count == retained(*old(self), read_count as nat),
            *final(self) == charged(*old(self), read_count as nat),
    {
        let room: usize = if self.max >= self.used {
            self.max - self.used
        } else {
            0
        };
        let count: usize = if read_count <= room {
            read_count
        } else {
            room
        };
        self.used = if read_count <= usize::MAX - self.used {
            self.used + read_count
        } else {
            usize::MAX
        };
        if count < read_count {
            self.exceeded = true;
        }
        count
    }
}

/// The budget after reads of the given sizes.
pub open spec fn charged_all(budget: OutputBudget, counts: Seq<nat>) -> OutputBudget
    decreases counts.len(),
{
    if counts.len() == 0 {
        budget
    } else {
        charged(charged_all(budget, counts.drop_last()), counts.last())
    }
}

/// How much is kept of reads of the given sizes.
pub open spec fn retained_all(budget: OutputBudget, counts: Seq<nat>) -> nat
    decreases counts.len(),
{
    if counts.len() == 0 {
        0
    } else {
        retained_all(budget, counts.drop_last()) + retained(
            charged_all(budget, counts.drop_last()),
            counts.last(),
        )
    }
}

/// Whatever is read, on whichever stream, no more than the budget is kept; and as long as
/// nothing was dropped, everything was kept.
pub proof fn budget_bounds_what_is_kept(max: usize, counts: Seq<nat>)
    ensures
        retained_all(OutputBudget { max, used: 0, exceeded: false }, counts) <= max,
        ({
            let after = charged_all(OutputBudget { max, used: 0, exceeded: false }, counts);
            &&& after.max == max
            &&& !after.exceeded ==> after.used == retained_all(
                OutputBudget { max, used: 0, exceeded: false },
                counts,
            )
        }),
    decreases counts.len(),
{
    let start = OutputBudget { max, used: 0, exceeded: false };
    if counts.len() > 0 {
        budget_bounds_what_is_kept(max, counts.drop_last());
        kept_is_below_used(max, counts.drop_last());
    }
}

proof fn kept_is_below_used(max: usize, counts: Seq<nat>)
    ensures
        ({
            let start = OutputBudget { max, used: 0, exceeded: false };
            let after = charged_all(start, counts);
            &&& after.max == max
            &&& retained_all(start, counts) <= after.used
            &&& retained_all(start, counts) <= max
        }),
    decreases counts.len(),
{
    if counts.len() > 0 {
        kept_is_below_used(max, counts.drop_last());
    }
}

/// A length of time in nanoseconds.
pub open spec fn span_nanos(span: TimeSpan) -> nat {
    span.seconds as nat * 1_000_000_000 + span.nanos as nat
}

fn count_nanos(span: &TimeSpan) -> (nanos: u128)
    ensures
        nanos == span_nanos(*span),
{
    span.seconds as u128 * 1_000_000_000 + span.nanos as u128
}

/// What the wait for a running child comes to.
#[derive(Debug, Clone, Copy, PartialEq, Eq, Structural)]
pub enum WaitStep {
    /// Too much output has come.
    LimitExceeded,
    /// The time is up.
    TimedOut,
    /// The child is to be waited for this many nanoseconds at most.
    Poll(u64),
}

/// What the wait comes to after `elapsed`: too much output counts first, then the time.
pub open spec fn next_wait(exceeded: bool, elapsed: TimeSpan, timeout: TimeSpan) -> WaitStep {
    let remaining = span_nanos(timeout) - span_nanos(elapsed);
    if exceeded {
        WaitStep::LimitExceeded
    } else if remaining <= 0 {
        WaitStep::TimedOut
    } else if remaining < WAIT_POLL_NANOS {
        WaitStep::Poll(remaining as u64)
    } else {
        WaitStep::Poll(WAIT_POLL_NANOS)
    }
}

/// Decides what the wait for a running child comes to.
pub fn wait_for_child(exceeded: bool, elapsed: &TimeSpan, timeout: &TimeSpan) -> (step: WaitStep)
    ensures
        step == next_wait(exceeded, *elapsed, *timeout),
{
    if exceeded {
        return WaitStep::LimitExceeded;
    }
    let passed: u128 = count_nanos(elapsed);
    let limit: u128 = count_nanos(timeout);
    if passed >= limit {
        return WaitStep::TimedOut;
    }
    let remaining: u128 = limit - passed;
    if remaining < WAIT_POLL_NANOS as u128 {
        WaitStep::Poll(remaining as u64)
    } else {
        WaitStep::Poll(WAIT_POLL_NANOS)
    }
}

/// A wait never goes on beyond the time that is left.
pub proof fn wait_ends_in_time(exceeded: bool, elapsed: TimeSpan, timeout: TimeSpan)
    ensures
        next_wait(exceeded, elapsed, timeout) matches WaitStep::Poll(nanos) ==> 0 < nanos
            && span_nanos(elapsed) + nanos <= span_nanos(timeout),
{
}

/// Why the probe could not be run to its end.
#[derive(Debug, PartialEq, Eq)]
pub enum RunnerFailure {
    /// The child could not be started.
    Spawn(String),
    /// The time was up.
    Timeout,
    /// Too much output came.
    OutputLimit {
        /// Most bytes that are kept.
        limit: usize,
    },
    /// The child could not be waited for.
    Wait(String),
    /// The output could not be captured.
    Capture(String),
}

/// The model of [`RunnerFailure`].
pub enum RunnerFailureView {
    Spawn(Seq<char>),
    Timeout,
    OutputLimit { limit: usize },
    Wait(Seq<char>),
    Capture(Seq<char>),
}

impl DeepView for RunnerFailure {
    type V = RunnerFailureView;

    open spec fn deep_view(&self) -> RunnerFailureView {
        match self {
            RunnerFailure::Spawn(error) => RunnerFailureView::Spawn(error@),
            RunnerFailure::Timeout => RunnerFailureView::Timeout,
            RunnerFailure::OutputLimit { limit } => RunnerFailureView::OutputLimit {
                limit: *limit,
            },
            RunnerFailure::Wait(error) => RunnerFailureView::Wait(error@),
            RunnerFailure::Capture(error) => RunnerFailureView::Capture(error@),
        }
    }
}

// ---------------------------------------------------------------------------
// Messages

/// Whether a character may stand in a message.
pub open spec fn message_char(character: char) -> bool {
    !control(character) || character == '\n' || character == '\t'
}

/// The characters of a text that may stand in a message.
pub open spec fn message_chars(text: Seq<char>) -> Seq<char> {
    kept(text, |character: char| message_char(character))
}

/// A text as a message: without control characters, not too long, and without surrounding white
/// space.
pub open spec fn message(text: Seq<char>) -> Seq<char> {
    let shown = message_chars(text);
    let cut = if shown.len() <= MAX_MESSAGE_CHARS {
        shown
    } else {
        shown.take(MAX_MESSAGE_CHARS as int)
    };
    trimmed(
        if text.len() > MAX_MESSAGE_CHARS {
            cut + "..."@
        } else {
            cut
        },
    )
}

/// A text as a message.
pub fn bounded_string(value: &str) -> (result: String)
    ensures
        result@ == message(value@),
{
    let chars = to_chars(value);
    let ghost keep = |character: char| message_char(character);
    let mut shown: Vec<char> = Vec::new();
    let mut index: usize = 0;
    while index < chars.len()
        invariant
            index <= chars@.len(),
            keep == (|character: char| message_char(character)),
            shown@ == kept(chars@.take(index as int), keep),
        decreases chars@.len() - index,
    {
        let character = chars[index];
        assert(chars@.take(index + 1).drop_last() =~= chars@.take(index as int));
        assert(chars@.take(index + 1).last() == character);
        if !is_control(character) || character == '\n' || character == '\t' {
            shown.push(character);
        }
        index = index + 1;
    }
    assert(chars@.take(index as int) =~= chars@);
    let count: usize = if shown.len() <= MAX_MESSAGE_CHARS {
        shown.len()
    } else {
        MAX_MESSAGE_CHARS
    };
    let cut = from_chars(&shown, 0, count);
    assert(shown@.subrange(0, count as int) =~= shown@.take(count as int));
    assert(shown@.len() <= MAX_MESSAGE_CHARS ==> shown@.take(count as int) =~= shown@);
    if chars.len() > MAX_MESSAGE_CHARS {
        trim(concat2(cut.as_str(), "...").as_str())
    } else {
        trim(cut.as_str())
    }
}

/// Bytes as a message.
pub fn bounded_bytes(bytes: &[u8]) -> (result: String)
    ensures
        result@ == message(lossy_text(bytes@)),
{
    bounded_string(decode_lossy(bytes).as_str())
}

/// The text of a signed number.
pub open spec fn signed_decimal(value: int) -> Seq<char> {
    if value < 0 {
        "-"@ + decimal((-value) as nat)
    } else {
        decimal(value as nat)
    }
}

fn signed_decimal_text(value: i32) -> (text: String)
    ensures
        text@ == signed_decimal(value as int),
{
    let wide: i64 = value as i64;
    if wide < 0 {
        concat2("-", decimal_text((-wide) as u64).as_str())
    } else {
        decimal_text(wide as u64)
    }
}

/// How a process ended, in words.
pub open spec fn exit_description(status: ProcessStatusView) -> Seq<char> {
    match status.code {
        Some(code) => "exited with status "@ + signed_decimal(code as int),
        None => match status.signal {
            Some(signal) => "terminated by signal "@ + signed_decimal(signal as int),
            None => "terminated without an exit status"@,
        },
    }
}

/// How a process ended, in words.
pub fn describe_exit_status(status: &ProcessStatus) -> (text: String)
    ensures
        text@ == exit_description(status.deep_view()),
{
    if let Some(code) = status.code {
        return concat2("exited with status ", signed_decimal_text(code).as_str());
    }
    if let Some(signal) = status.signal {
        return concat2("terminated by signal ", signed_decimal_text(signal).as_str());
    }
    "terminated without an exit status".to_owned()
}

// ---------------------------------------------------------------------------
// The answer of the probe

/// A device that the probe has exercised.
#[derive(Debug, PartialEq, Eq)]
pub struct ProbeDevice {
    /// Logical index.
    pub index: u32,
    /// Name.
    pub name: String,
    /// Compute capability, major and minor.
    pub capability: (u16, u16),
    /// Whether every operation gave the expected result.
    pub operations_ok: bool,
}

/// The model of [`ProbeDevice`].
#[verifier::ext_equal]
pub struct ProbeDeviceView {
    pub index: u32,
    pub name: Seq<char>,
    pub capability: (u16, u16),
    pub operations_ok: bool,
}

impl DeepView for ProbeDevice {
    type V = ProbeDeviceView;

    open spec fn deep_view(&self) -> ProbeDeviceView {
        ProbeDeviceView {
            index: self.index,
            name: self.name@,
            capability: self.capability,
            operations_ok: self.operations_ok,
        }
    }
}

impl Clone for ProbeDevice {
    fn clone(&self) -> (copy: ProbeDevice)
        ensures
            copy.deep_view() == self.deep_view(),
    {
        ProbeDevice {
            index: self.index,
            name: self.name.clone(),
            capability: self.capability,
            operations_ok: self.operations_ok,
        }
    }
}

/// The answer of the probe.
#[derive(Debug, PartialEq, Eq)]
pub struct ProbePayload {
    /// Version of the protocol.
    pub protocol_version: u32,
    /// Whether the probe succeeded.
    pub ok: bool,
    /// How far the probe came.
    pub stage: String,
    /// Version of `torch`.
    pub torch_version: Option<String>,
    /// CUDA version that `torch` was built with.
    pub compiled_cuda: Option<String>,
    /// Whether CUDA can be used.
    pub cuda_available: Option<bool>,
    /// Number of logical devices.
    pub device_count: Option<u32>,
    /// Architectures that `torch` was built for.
    pub arch_list: Vec<String>,
    /// The devices that were exercised.
    pub devices: Vec<ProbeDevice>,
    /// Whether cuDNN can be used.
    pub cudnn_available: Option<bool>,
    /// Whether cuDNN is enabled.
    pub cudnn_enabled: Option<bool>,
    /// Version of cuDNN.
    pub cudnn_version: Option<u64>,
    /// Why cuDNN could not be inspected.
    pub cudnn_error: Option<String>,
    /// The device at which the probe failed.
    pub failed_device_index: Option<u32>,
    /// Type of the error.
    pub error_type: Option<String>,
    /// Text of the error.
    pub error: Option<String>,
}

/// The model of [`ProbePayload`].
#[verifier::ext_equal]
pub struct ProbePayloadView {
    pub protocol_version: u32,
    pub ok: bool,
    pub stage: Seq<char>,
    pub torch_version: Option<Seq<char>>,
    pub compiled_cuda: Option<Seq<char>>,
    pub cuda_available: Option<bool>,
    pub device_count: Option<u32>,
    pub arch_list: Seq<Seq<char>>,
    pub devices: Seq<ProbeDeviceView>,
    pub cudnn_available: Option<bool>,
    pub cudnn_enabled: Option<bool>,
    pub cudnn_version: Option<u64>,
    pub cudnn_error: Option<Seq<char>>,
    pub failed_device_index: Option<u32>,
    pub error_type: Option<Seq<char>>,
    pub error: Option<Seq<char>>,
}

impl DeepView for ProbePayload {
    type V = ProbePayloadView;

    open spec fn deep_view(&self) -> ProbePayloadView {
        ProbePayloadView {
            protocol_version: self.protocol_version,
            ok: self.ok,
            stage: self.stage@,
            torch_version: self.torch_version.deep_view(),
            compiled_cuda: self.compiled_cuda.deep_view(),
            cuda_available: self.cuda_available,
            device_count: self.device_count,
            arch_list: self.arch_list.deep_view(),
            devices: self.devices.deep_view(),
            cudnn_available: self.cudnn_available,
            cudnn_enabled: self.cudnn_enabled,
            cudnn_version: self.cudnn_version,
            cudnn_error: self.cudnn_error.deep_view(),
            failed_device_index: self.failed_device_index,
            error_type: self.error_type.deep_view(),
            error: self.error.deep_view(),
        }
    }
}

impl Clone for ProbePayload {
    fn clone(&self) -> (copy: ProbePayload)
        ensures
            copy.deep_view() == self.deep_view(),
    {
        let devices = self.devices.clone();
        assert(devices.deep_view() =~= self.devices.deep_view());
        ProbePayload {
            protocol_version: self.protocol_version,
            ok: self.ok,
            stage: self.stage.clone(),
            torch_version: clone_optional(&self.torch_version),
            compiled_cuda: clone_optional(&self.compiled_cuda),
            cuda_available: self.cuda_available,
            device_count: self.device_count,
            arch_list: clone_texts(&self.arch_list),
            devices,
            cudnn_available: self.cudnn_available,
            cudnn_enabled: self.cudnn_enabled,
            cudnn_version: self.cudnn_version,
            cudnn_error: clone_optional(&self.cudnn_error),
            failed_device_index: self.failed_device_index,
            error_type: clone_optional(&self.error_type),
            error: clone_optional(&self.error),
        }
    }
}

/// The lines of an output: what stands between line feeds.
pub open spec fn byte_lines(bytes: Seq<u8>) -> Seq<Seq<u8>>
    decreases bytes.len(),
{
    if bytes.len() == 0 {
        seq![Seq::empty()]
    } else {
        let before = byte_lines(bytes.drop_last());
        if bytes.last() == 0x0a {
            before.push(Seq::empty())
        } else {
            before.drop_last().push(before.last().push(bytes.last()))
        }
    }
}

/// A line without the carriage return that ends it.
pub open spec fn without_carriage_return(line: Seq<u8>) -> Seq<u8> {
    if line.len() > 0 && line.last() == 0x0d {
        line.drop_last()
    } else {
        line
    }
}

/// What follows the mark in a line that begins with it.
pub open spec fn marked(line: Seq<u8>, mark: Seq<u8>) -> Option<Seq<u8>> {
    let text = without_carriage_return(line);
    if mark.is_prefix_of(text) {
        Some(text.skip(mark.len() as int))
    } else {
        None
    }
}

/// What follows the mark in each of the lines that begin with it.
pub open spec fn marked_records(all: Seq<Seq<u8>>, mark: Seq<u8>) -> Seq<Seq<u8>>
    decreases all.len(),
{
    if all.len() == 0 {
        Seq::empty()
    } else {
        let rest = marked_records(all.drop_last(), mark);
        match marked(all.last(), mark) {
            Some(record) => rest.push(record),
            None => rest,
        }
    }
}

/// The mark as bytes.
pub open spec fn probe_mark() -> Seq<u8> {
    vstd::utf8::encode_utf8(PROBE_PREFIX@)
}

/// The one record in an output.
pub open spec fn protocol_record(stdout: Seq<u8>) -> Result<Seq<u8>, Seq<char>> {
    let records = marked_records(byte_lines(stdout), probe_mark());
    if records.len() == 0 {
        Err("verification subprocess did not emit a protocol record"@)
    } else if records.len() > 1 {
        Err("verification subprocess emitted multiple protocol records"@)
    } else {
        Ok(records[0])
    }
}

fn split_byte_lines(bytes: &[u8]) -> (lines: Vec<Vec<u8>>)
    ensures
        lines.deep_view() == byte_lines(bytes@),
{
    let mut lines: Vec<Vec<u8>> = Vec::new();
    let mut current: Vec<u8> = Vec::new();
    let mut index: usize = 0;
    assert(lines.deep_view().push(current@) =~= byte_lines(bytes@.take(0)));
    while index < bytes.len()
        invariant
            index <= bytes@.len(),
            lines.deep_view().push(current@) == byte_lines(bytes@.take(index as int)),
        decreases bytes@.len() - index,
    {
        let byte = bytes[index];
        let ghost whole = byte_lines(bytes@.take(index as int));
        assert(bytes@.take(index + 1).drop_last() =~= bytes@.take(index as int));
        assert(bytes@.take(index + 1).last() == byte);
        assert(whole.drop_last() =~= lines.deep_view());
        assert(whole.last() == current@);
        if byte == 0x0a {
            assert(current.deep_view() =~= current@);
            push_item(&mut lines, current);
            current = Vec::new();
        } else {
            current.push(byte);
        }
        assert(lines.deep_view().push(current@) =~= byte_lines(bytes@.take(index + 1)));
        index = index + 1;
    }
    assert(bytes@.take(index as int) =~= bytes@);
    assert(current.deep_view() =~= current@);
    push_item(&mut lines, current);
    lines
}

fn take_marked(line: &Vec<u8>, mark: &[u8]) -> (record: Option<Vec<u8>>)
    ensures
        (match record {
            Some(bytes) => Some(bytes@),
            None => None,
        }) == marked(line@, mark@),
{
    let end: usize = if line.len() > 0 && line[line.len() - 1] == 0x0d {
        line.len() - 1
    } else {
        line.len()
    };
    let ghost text = without_carriage_return(line@);
    assert(text =~= line@.take(end as int));
    if end < mark.len() {
        return None;
    }
    let mut index: usize = 0;
    while index < mark.len()
        invariant
            index <= mark@.len() <= end <= line@.len(),
            text == line@.take(end as int),
            forall|i: int| 0 <= i < index ==> text[i] == mark@[i],
        decreases mark@.len() - index,
    {
        if line[index] != mark[index] {
            assert(text[index as int] != mark@[index as int]);
            assert(!mark@.is_prefix_of(text));
            return None;
        }
        index = index + 1;
    }
    assert(mark@ =~= text.subrange(0, mark@.len() as int));
    let mut bytes: Vec<u8> = Vec::new();
    while index < end
        invariant
            mark@.len() <= index <= end <= line@.len(),
            bytes@ == line@.subrange(mark@.len() as int, index as int),
        decreases end - index,
    {
        bytes.push(line[index]);
        assert(line@.subrange(mark@.len() as int, index + 1) =~= line@.subrange(
            mark@.len() as int,
            index as int,
        ).push(line@[index as int]));
        index = index + 1;
    }
    assert(bytes@ =~= text.skip(mark@.len() as int));
    Some(bytes)
}

/// The one record in an output, which is to be read as JSON.
pub fn extract_probe_record(stdout: &[u8]) -> (result: Result<Vec<u8>, String>)
    ensures
        (match result {
            Ok(bytes) => Ok(bytes@),
            Err(message) => Err(message@),
        }) == protocol_record(stdout@),
{
    let lines = split_byte_lines(stdout);
    let mark = PROBE_PREFIX.as_bytes();
    let ghost all = lines.deep_view();
    let mut records: Vec<Vec<u8>> = Vec::new();
    assert(records.deep_view() =~= Seq::<Seq<u8>>::empty());
    let mut index: usize = 0;
    while index < lines.len()
        invariant
            index <= lines@.len(),
            all == lines.deep_view(),
            mark@ == probe_mark(),
            records.deep_view() == marked_records(all.take(index as int), mark@),
        decreases lines@.len() - index,
    {
        assert(all.take(index + 1).drop_last() =~= all.take(index as int));
        assert(lines@[index as int].deep_view() =~= lines@[index as int]@);
        assert(all.take(index + 1).last() == lines@[index as int]@);
        if let Some(record) = take_marked(&lines[index], mark) {
            assert(record.deep_view() =~= record@);
            push_item(&mut records, record);
        }
        index = index + 1;
    }
    assert(all.take(index as int) =~= all);
    assert(records.deep_view().len() == records@.len());
    if records.len() == 0 {
        return Err("verification subprocess did not emit a protocol record".to_owned());
    }
    if records.len() > 1 {
        return Err("verification subprocess emitted multiple protocol records".to_owned());
    }
    assert(records.deep_view()[0] == records@[0].deep_view());
    assert(records@[0].deep_view() =~= records@[0]@);
    let record = records[0].clone();
    assert(record@ =~= records@[0]@);
    Ok(record)
}

// ---------------------------------------------------------------------------
// Validation

/// A list of numbers between brackets.
pub open spec fn bracketed(numbers: Seq<u32>) -> Seq<char> {
    "["@ + join(decimals(numbers), ", "@) + "]"@
}

fn bracket(numbers: &Vec<u32>) -> (text: String)
    ensures
        text@ == bracketed(numbers@),
{
    concat3("[", join_texts(&decimal_texts(numbers.as_slice()), ", ").as_str(), "]")
}

/// The devices that are to be exercised.
pub open spec fn expected_devices(selected: Option<Seq<u32>>, device_count: u32) -> Seq<u32> {
    match selected {
        Some(indices) => indices,
        None => Seq::new(device_count as nat, |i: int| i as u32),
    }
}

/// The indices of the devices that were exercised.
pub open spec fn exercised(devices: Seq<ProbeDeviceView>) -> Seq<u32> {
    devices.map_values(|device: ProbeDeviceView| device.index)
}

/// Whether a selected device does not exist.
pub open spec fn out_of_range(indices: Seq<u32>, device_count: u32) -> bool {
    exists|i: int| 0 <= i < indices.len() && (#[trigger] indices[i]) >= device_count
}

/// Whether an operation failed on a device.
pub open spec fn any_failed(devices: Seq<ProbeDeviceView>) -> bool {
    exists|i: int| 0 <= i < devices.len() && !(#[trigger] devices[i]).operations_ok
}

/// What is wrong with the answer of a probe that exercised CUDA devices.
pub open spec fn cuda_objection(
    payload: ProbePayloadView,
    selected: Option<Seq<u32>>,
    cuda_available: bool,
    device_count: u32,
) -> Option<Seq<char>> {
    let expected = expected_devices(selected, device_count);
    if !cuda_available {
        Some("CUDA build reported successful verification while unavailable"@)
    } else if device_count == 0 {
        Some("CUDA build reported no logical devices"@)
    } else if out_of_range(expected, device_count) {
        Some(
            "selected logical CUDA device is outside device count "@ + decimal(device_count as nat),
        )
    } else if exercised(payload.devices) != expected {
        Some(
            "probe exercised logical CUDA devices "@ + bracketed(exercised(payload.devices))
                + "; expected "@ + bracketed(expected),
        )
    } else if any_failed(payload.devices) {
        Some("probe reported an unsuccessful CUDA device operation"@)
    } else {
        None
    }
}

/// What is wrong with the answer of a probe without CUDA.
pub open spec fn cpu_objection(
    payload: ProbePayloadView,
    selected: Option<Seq<u32>>,
    cuda_available: bool,
    device_count: u32,
) -> Option<Seq<char>> {
    if selected is Some {
        Some(
            "explicit CUDA devices were requested, but the probe imported a CPU-only PyTorch build"@,
        )
    } else if cuda_available {
        Some("CPU-only probe unexpectedly reported an available CUDA device"@)
    } else if device_count != 0 || payload.devices.len() > 0 {
        Some("CPU-only probe reported CUDA devices"@)
    } else {
        None
    }
}

/// Whether a text is missing or blank.
pub open spec fn blank(text: Option<Seq<char>>) -> bool {
    match text {
        None => true,
        Some(value) => trimmed(value).len() == 0,
    }
}

/// What is wrong with an answer that reports success.
pub open spec fn success_objection(
    payload: ProbePayloadView,
    selected: Option<Seq<u32>>,
) -> Option<Seq<char>> {
    if payload.stage != "complete"@ {
        Some("successful probe stopped at unexpected stage: "@ + message(payload.stage))
    } else if blank(payload.torch_version) {
        Some("successful probe omitted the PyTorch version"@)
    } else {
        match payload.cuda_available {
            None => Some("successful probe omitted CUDA availability"@),
            Some(cuda_available) => match payload.device_count {
                None => Some("successful probe omitted the logical device count"@),
                Some(device_count) => match payload.compiled_cuda {
                    None => cpu_objection(payload, selected, cuda_available, device_count),
                    Some(version) => if trimmed(version).len() == 0 {
                        Some("probe reported an empty compiled CUDA version"@)
                    } else {
                        cuda_objection(payload, selected, cuda_available, device_count)
                    },
                },
            },
        }
    }
}

fn list_exercised(devices: &Vec<ProbeDevice>) -> (indices: Vec<u32>)
    ensures
        indices@ == exercised(devices.deep_view()),
{
    let ghost all = exercised(devices.deep_view());
    let mut indices: Vec<u32> = Vec::new();
    let mut at: usize = 0;
    while at < devices.len()
        invariant
            at <= devices@.len(),
            all == exercised(devices.deep_view()),
            indices@ == all.take(at as int),
        decreases devices@.len() - at,
    {
        indices.push(devices[at].index);
        assert(all[at as int] == devices@[at as int].index);
        assert(all.take(at + 1) =~= all.take(at as int).push(all[at as int]));
        at = at + 1;
    }
    assert(all.take(at as int) =~= all);
    indices
}

fn list_expected(selected: &Option<Vec<u32>>, device_count: u32) -> (indices: Vec<u32>)
    ensures
        indices@ == expected_devices(numbers_of(*selected), device_count),
{
    match selected {
        Some(list) => {
            let copy = list.clone();
            assert(copy@ =~= list@);
            copy
        },
        None => {
            let ghost all = Seq::new(device_count as nat, |i: int| i as u32);
            let mut indices: Vec<u32> = Vec::new();
            let mut index: u32 = 0;
            while index < device_count
                invariant
                    index <= device_count,
                    all == Seq::new(device_count as nat, |i: int| i as u32),
                    indices@ == all.take(index as int),
                decreases device_count - index,
            {
                indices.push(index);
                assert(all.take(index + 1) =~= all.take(index as int).push(all[index as int]));
                index = index + 1;
            }
            assert(all.take(index as int) =~= all);
            indices
        },
    }
}

fn is_out_of_range(indices: &Vec<u32>, device_count: u32) -> (answer: bool)
    ensures
        answer == out_of_range(indices@, device_count),
{
    let mut index: usize = 0;
    while index < indices.len()
        invariant
            index <= indices@.len(),
            forall|i: int| 0 <= i < index ==> (#[trigger] indices@[i]) < device_count,
        decreases indices@.len() - index,
    {
        if indices[index] >= device_count {
            return true;
        }
        index = index + 1;
    }
    false
}

fn has_failed(devices: &Vec<ProbeDevice>) -> (answer: bool)
    ensures
        answer == any_failed(devices.deep_view()),
{
    let mut index: usize = 0;
    while index < devices.len()
        invariant
            index <= devices@.len(),
            forall|i: int| 0 <= i < index ==> (#[trigger] devices.deep_view()[i]).operations_ok,
        decreases devices@.len() - index,
    {
        assert(devices.deep_view()[index as int] == devices@[index as int].deep_view());
        if !devices[index].operations_ok {
            return true;
        }
        index = index + 1;
    }
    false
}

/// Checks an answer that reports success against what was asked for.
pub fn validate_success_payload(payload: &ProbePayload, selected: &Option<Vec<u32>>) -> (result:
    Result<(), String>)
    ensures
        (match result {
            Ok(_) => None,
            Err(problem) => Some(problem@),
        }) == success_objection(payload.deep_view(), numbers_of(*selected)),
{
    if !same(payload.stage.as_str(), "complete") {
        return Err(
            concat2(
                "successful probe stopped at unexpected stage: ",
                bounded_string(payload.stage.as_str()).as_str(),
            ),
        );
    }
    let named = match &payload.torch_version {
        None => false,
        Some(version) => !trim(version.as_str()).as_str().is_empty(),
    };
    if !named {
        return Err("successful probe omitted the PyTorch version".to_owned());
    }
    let cuda_available = match payload.cuda_available {
        None => {
            return Err("successful probe omitted CUDA availability".to_owned());
        },
        Some(available) => available,
    };
    let device_count: u32 = match payload.device_count {
        None => {
            return Err("successful probe omitted the logical device count".to_owned());
        },
        Some(count) => count,
    };
    assert(payload.devices.deep_view().len() == payload.devices@.len());
    match &payload.compiled_cuda {
        None => {
            if selected.is_some() {
                return Err(
                    "explicit CUDA devices were requested, but the probe imported a CPU-only PyTorch build".to_owned(),
                );
            }
            if cuda_available {
                return Err(
                    "CPU-only probe unexpectedly reported an available CUDA device".to_owned(),
                );
            }
            if device_count != 0 || payload.devices.len() > 0 {
                return Err("CPU-only probe reported CUDA devices".to_owned());
            }
        },
        Some(version) => {
            if trim(version.as_str()).as_str().is_empty() {
                return Err("probe reported an empty compiled CUDA version".to_owned());
            }
            if !cuda_available {
                return Err(
                    "CUDA build reported successful verification while unavailable".to_owned(),
                );
            }
            if device_count == 0 {
                return Err("CUDA build reported no logical devices".to_owned());
            }
            let expected = list_expected(selected, device_count);
            if is_out_of_range(&expected, device_count) {
                return Err(
                    concat2(
                        "selected logical CUDA device is outside device count ",
                        decimal_text(device_count as u64).as_str(),
                    ),
                );
            }
            let actual = list_exercised(&payload.devices);
            if !same_numbers(&actual, &expected) {
                return Err(
                    concat4(
                        "probe exercised logical CUDA devices ",
                        bracket(&actual).as_str(),
                        "; expected ",
                        bracket(&expected).as_str(),
                    ),
                );
            }
            if has_failed(&payload.devices) {
                return Err("probe reported an unsuccessful CUDA device operation".to_owned());
            }
        },
    }
    Ok(())
}

// ---------------------------------------------------------------------------
// Reports

/// One check of a report.
pub open spec fn check_view(name: Seq<char>, passed: bool, detail: Seq<char>) ->
    VerificationCheckView {
    VerificationCheckView { name, passed, detail: Some(message(detail)) }
}

/// One check of a report.
pub fn check(name: &str, passed: bool, detail: &str) -> (result: VerificationCheck)
    ensures
        result.deep_view() == check_view(name@, passed, detail@),
{
    VerificationCheck { name: name.to_owned(), passed, detail: Some(bounded_string(detail)) }
}

/// The report of a verification that came to nothing.
pub open spec fn failed_report(
    python: FilePathView,
    name: Seq<char>,
    detail: Seq<char>,
) -> VerificationReportView {
    VerificationReportView {
        schema_version: SCHEMA_VERSION,
        python_executable: python,
        status: CompatibilityStatus::Incompatible,
        torch_version: None,
        compiled_cuda: None,
        cuda_available: None,
        device_count: None,
        arch_list: Seq::empty(),
        devices: Seq::empty(),
        gpu_selection: Seq::empty(),
        cudnn_available: None,
        checks: seq![check_view(name, false, message(detail))],
        diagnostics: Seq::empty(),
        error: Some(message(detail)),
    }
}

/// The report of a verification that came to nothing.
pub fn failure_report(options: &VerifyOptions, check_name: &str, detail: &str) -> (report:
    VerificationReport)
    ensures
        report.deep_view() == failed_report(
            options.python_executable.deep_view(),
            check_name@,
            detail@,
        ),
{
    let shown = bounded_string(detail);
    let mut checks: Vec<VerificationCheck> = Vec::new();
    push_item(&mut checks, check(check_name, false, shown.as_str()));
    let arch_list: Vec<String> = Vec::new();
    let devices: Vec<VerifiedDevice> = Vec::new();
    let gpu_selection: Vec<VerificationGpuMapping> = Vec::new();
    let diagnostics: Vec<Diagnostic> = Vec::new();
    assert(checks.deep_view() =~= seq![check_view(check_name@, false, message(detail@))]);
    assert(arch_list.deep_view() =~= Seq::<Seq<char>>::empty());
    assert(devices.deep_view() =~= Seq::<VerifiedDeviceView>::empty());
    assert(gpu_selection.deep_view() =~= Seq::<VerificationGpuMappingView>::empty());
    assert(diagnostics.deep_view() =~= Seq::<DiagnosticView>::empty());
    VerificationReport {
        schema_version: SCHEMA_VERSION,
        python_executable: options.python_executable.clone(),
        status: CompatibilityStatus::Incompatible,
        torch_version: None,
        compiled_cuda: None,
        cuda_available: None,
        device_count: None,
        arch_list,
        devices,
        gpu_selection,
        cudnn_available: None,
        checks,
        diagnostics,
        error: Some(shown),
    }
}

/// A device as it is reported.
pub open spec fn reported_device(device: ProbeDeviceView) -> VerifiedDeviceView {
    VerifiedDeviceView {
        index: device.index,
        name: device.name,
        capability: ComputeCapability { major: device.capability.0, minor: device.capability.1 },
        operations_ok: device.operations_ok,
    }
}

/// Devices as they are reported.
pub open spec fn reported_devices(devices: Seq<ProbeDeviceView>) -> Seq<VerifiedDeviceView> {
    devices.map_values(|device: ProbeDeviceView| reported_device(device))
}

/// Devices as they are reported.
pub fn convert_devices(devices: &Vec<ProbeDevice>) -> (result: Vec<VerifiedDevice>)
    ensures
        result.deep_view() == reported_devices(devices.deep_view()),
{
    let ghost all = reported_devices(devices.deep_view());
    let mut result: Vec<VerifiedDevice> = Vec::new();
    let mut index: usize = 0;
    while index < devices.len()
        invariant
            index <= devices@.len(),
            all == reported_devices(devices.deep_view()),
            result.deep_view() == all.take(index as int),
        decreases devices@.len() - index,
    {
        let device = &devices[index];
        push_item(
            &mut result,
            VerifiedDevice {
                index: device.index,
                name: device.name.clone(),
                capability: ComputeCapability {
                    major: device.capability.0,
                    minor: device.capability.1,
                },
                operations_ok: device.operations_ok,
            },
        );
        assert(all[index as int] == reported_device(devices@[index as int].deep_view()));
        assert(all.take(index + 1) =~= all.take(index as int).push(all[index as int]));
        index = index + 1;
    }
    assert(all.take(index as int) =~= all);
    result
}

/// The checks of the devices, each with the same words before the name of the device.
pub open spec fn device_checks(devices: Seq<ProbeDeviceView>, words: Seq<char>) -> Seq<
    VerificationCheckView,
> {
    devices.map_values(
        |device: ProbeDeviceView|
            check_view(
                "device_"@ + decimal(device.index as nat) + "_operations"@,
                device.operations_ok,
                words + device.name,
            ),
    )
}

fn push_device_checks(
    checks: &mut Vec<VerificationCheck>,
    devices: &Vec<ProbeDevice>,
    words: &str,
)
    ensures
        final(checks).deep_view() == old(checks).deep_view() + device_checks(
            devices.deep_view(),
            words@,
        ),
{
    let ghost start = checks.deep_view();
    let ghost all = device_checks(devices.deep_view(), words@);
    let mut index: usize = 0;
    while index < devices.len()
        invariant
            index <= devices@.len(),
            all == device_checks(devices.deep_view(), words@),
            checks.deep_view() == start + all.take(index as int),
        decreases devices@.len() - index,
    {
        let device = &devices[index];
        let name = concat3("device_", decimal_text(device.index as u64).as_str(), "_operations");
        let detail = concat2(words, device.name.as_str());
        assert(all[index as int] == check_view(name@, device.operations_ok, detail@)) by {
            assert(devices.deep_view()[index as int] == devices@[index as int].deep_view());
        }
        push_item(checks, check(name.as_str(), device.operations_ok, detail.as_str()));
        assert(all.take(index + 1) =~= all.take(index as int).push(all[index as int]));
        assert(checks.deep_view() =~= start + all.take(index + 1));
        index = index + 1;
    }
    assert(all.take(index as int) =~= all);
}

/// A truth value in words.
pub open spec fn truth_text(value: Option<bool>) -> Seq<char> {
    match value {
        None => "unknown"@,
        Some(true) => "true"@,
        Some(false) => "false"@,
    }
}

fn show_truth(value: Option<bool>) -> (text: &'static str)
    ensures
        text@ == truth_text(value),
{
    match value {
        None => "unknown",
        Some(true) => "true",
        Some(false) => "false",
    }
}

/// What is reported of cuDNN.
pub open spec fn cudnn_detail(payload: ProbePayloadView) -> Seq<char> {
    match payload.cudnn_error {
        Some(error) => "informational cuDNN query unavailable: "@ + message(error),
        None => "available="@ + truth_text(payload.cudnn_available) + ", enabled="@ + truth_text(
            payload.cudnn_enabled,
        ) + (", version="@ + (match payload.cudnn_version {
            None => "none"@,
            Some(version) => decimal(version as nat),
        })),
    }
}

/// The check of cuDNN, which never fails.
pub fn cudnn_check(payload: &ProbePayload) -> (result: VerificationCheck)
    ensures
        result.deep_view() == check_view("cudnn_info"@, true, cudnn_detail(payload.deep_view())),
{
    if let Some(error) = &payload.cudnn_error {
        return check(
            "cudnn_info",
            true,
            concat2(
                "informational cuDNN query unavailable: ",
                bounded_string(error.as_str()).as_str(),
            ).as_str(),
        );
    }
    let version = match payload.cudnn_version {
        None => "none".to_owned(),
        Some(version) => decimal_text(version),
    };
    let detail = concat5(
        "available=",
        show_truth(payload.cudnn_available),
        ", enabled=",
        show_truth(payload.cudnn_enabled),
        concat2(", version=", version.as_str()).as_str(),
    );
    check("cudnn_info", true, detail.as_str())
}

/// What is to be said of cuDNN.
pub open spec fn cudnn_notes(payload: ProbePayloadView) -> Seq<DiagnosticView> {
    match payload.cudnn_error {
        None => Seq::empty(),
        Some(error) => seq![
            noted(
                plain_diagnostic(
                    DiagnosticCode::CudnnInspectionFailed,
                    DiagnosticSeverity::Warning,
                ),
                "error"@,
                message(error),
            ),
        ],
    }
}

/// What is to be said of cuDNN.
pub fn cudnn_diagnostic(payload: &ProbePayload) -> (diagnostics: Vec<Diagnostic>)
    ensures
        diagnostics.deep_view() == cudnn_notes(payload.deep_view()),
{
    let mut diagnostics: Vec<Diagnostic> = Vec::new();
    if let Some(error) = &payload.cudnn_error {
        push_item(
            &mut diagnostics,
            Diagnostic::new(
                DiagnosticCode::CudnnInspectionFailed,
                DiagnosticSeverity::Warning,
            ).with_detail("error", bounded_string(error.as_str()).as_str()),
        );
    }
    assert(diagnostics.deep_view() =~= cudnn_notes(payload.deep_view()));
    diagnostics
}

/// The checks of a successful verification before those of its devices.
pub open spec fn general_checks(payload: ProbePayloadView) -> Seq<VerificationCheckView> {
    let is_cpu = payload.compiled_cuda is None;
    seq![
        check_view("subprocess_exit"@, true, "verification subprocess exited successfully"@),
        check_view(
            "torch_import"@,
            true,
            "imported torch "@ + (match payload.torch_version {
                Some(version) => version,
                None => "unknown"@,
            }),
        ),
        check_view(
            "torch_metadata"@,
            true,
            match payload.compiled_cuda {
                Some(cuda) => "compiled CUDA "@ + cuda,
                None => "CPU-only PyTorch build"@,
            },
        ),
        check_view(
            "cuda_availability"@,
            true,
            if is_cpu {
                "CUDA unavailable as expected for a CPU-only build"@
            } else {
                "CUDA runtime and driver initialized"@
            },
        ),
        check_view(
            "device_count"@,
            true,
            decimal(
                match payload.device_count {
                    Some(count) => count as nat,
                    None => 0,
                },
            ) + " logical CUDA device(s)"@,
        ),
        check_view(
            "architecture_list"@,
            true,
            if is_cpu {
                "not applicable to a CPU-only build"@
            } else if payload.arch_list.len() == 0 {
                "PyTorch returned an empty architecture list; runtime operations passed"@
            } else {
                join(payload.arch_list, ", "@)
            },
        ),
    ]
}

/// The words of a device check in a successful verification.
pub const EXERCISED_WORDS: &'static str =
    "allocation, deterministic elementwise, matmul, and synchronization on ";

/// The words of a device check in a failed verification.
pub const COMPLETED_WORDS: &'static str = "completed runtime operations on ";

/// The report of a successful verification.
pub open spec fn successful_report(
    python: FilePathView,
    payload: ProbePayloadView,
) -> VerificationReportView {
    VerificationReportView {
        schema_version: SCHEMA_VERSION,
        python_executable: python,
        status: CompatibilityStatus::Verified,
        torch_version: payload.torch_version,
        compiled_cuda: payload.compiled_cuda,
        cuda_available: payload.cuda_available,
        device_count: payload.device_count,
        arch_list: payload.arch_list,
        devices: reported_devices(payload.devices),
        gpu_selection: Seq::empty(),
        cudnn_available: payload.cudnn_available,
        checks: (general_checks(payload) + device_checks(
            payload.devices,
            EXERCISED_WORDS@,
        )).push(check_view("cudnn_info"@, true, cudnn_detail(payload))),
        diagnostics: cudnn_notes(payload),
        error: None,
    }
}

fn list_general_checks(payload: &ProbePayload) -> (checks: Vec<VerificationCheck>)
    ensures
        checks.deep_view() == general_checks(payload.deep_view()),
{
    let mut checks: Vec<VerificationCheck> = Vec::new();
    push_item(
        &mut checks,
        check("subprocess_exit", true, "verification subprocess exited successfully"),
    );
    let imported = match &payload.torch_version {
        Some(version) => concat2("imported torch ", version.as_str()),
        None => concat2("imported torch ", "unknown"),
    };
    push_item(&mut checks, check("torch_import", true, imported.as_str()));
    let is_cpu = payload.compiled_cuda.is_none();
    let metadata = match &payload.compiled_cuda {
        Some(cuda) => concat2("compiled CUDA ", cuda.as_str()),
        None => "CPU-only PyTorch build".to_owned(),
    };
    push_item(&mut checks, check("torch_metadata", true, metadata.as_str()));
    push_item(
        &mut checks,
        check(
            "cuda_availability",
            true,
            if is_cpu {
                "CUDA unavailable as expected for a CPU-only build"
            } else {
                "CUDA runtime and driver initialized"
            },
        ),
    );
    let count: u32 = match payload.device_count {
        Some(count) => count,
        None => 0,
    };
    push_item(
        &mut checks,
        check(
            "device_count",
            true,
            concat2(decimal_text(count as u64).as_str(), " logical CUDA device(s)").as_str(),
        ),
    );
    assert(payload.arch_list.deep_view().len() == payload.arch_list@.len());
    let architectures = if is_cpu {
        "not applicable to a CPU-only build".to_owned()
    } else if payload.arch_list.len() == 0 {
        "PyTorch returned an empty architecture list; runtime operations passed".to_owned()
    } else {
        join_texts(&payload.arch_list, ", ")
    };
    push_item(&mut checks, check("architecture_list", true, architectures.as_str()));
    assert(checks.deep_view() =~= general_checks(payload.deep_view()));
    checks
}

/// The report of a successful verification.
pub fn success_report(options: &VerifyOptions, payload: &ProbePayload) -> (report:
    VerificationReport)
    ensures
        report.deep_view() == successful_report(
            options.python_executable.deep_view(),
            payload.deep_view(),
        ),
{
    let mut checks = list_general_checks(payload);
    push_device_checks(&mut checks, &payload.devices, EXERCISED_WORDS);
    push_item(&mut checks, cudnn_check(payload));
    let gpu_selection: Vec<VerificationGpuMapping> = Vec::new();
    assert(gpu_selection.deep_view() =~= Seq::<VerificationGpuMappingView>::empty());
    VerificationReport {
        schema_version: SCHEMA_VERSION,
        python_executable: options.python_executable.clone(),
        status: CompatibilityStatus::Verified,
        torch_version: clone_optional(&payload.torch_version),
        compiled_cuda: clone_optional(&payload.compiled_cuda),
        cuda_available: payload.cuda_available,
        device_count: payload.device_count,
        arch_list: clone_texts(&payload.arch_list),
        devices: convert_devices(&payload.devices),
        gpu_selection,
        cudnn_available: payload.cudnn_available,
        checks,
        diagnostics: cudnn_diagnostic(payload),
        error: None,
    }
}

/// The checks of a verification that failed on its way.
pub open spec fn partial_checks(
    payload: ProbePayloadView,
    name: Seq<char>,
    detail: Seq<char>,
) -> Seq<VerificationCheckView> {
    let imported = match payload.torch_version {
        Some(version) => seq![check_view("torch_import"@, true, "imported torch "@ + version)],
        None => if payload.stage == "import_torch"@ {
            seq![check_view("torch_import"@, false, detail)]
        } else {
            Seq::empty()
        },
    };
    (imported + device_checks(payload.devices, COMPLETED_WORDS@)).push(
        check_view(name, false, detail),
    )
}

/// The report of a verification that failed on its way.
pub open spec fn partial_report(
    python: FilePathView,
    name: Seq<char>,
    detail: Seq<char>,
    error: Seq<char>,
    payload: ProbePayloadView,
) -> VerificationReportView {
    VerificationReportView {
        schema_version: SCHEMA_VERSION,
        python_executable: python,
        status: CompatibilityStatus::Incompatible,
        torch_version: payload.torch_version,
        compiled_cuda: payload.compiled_cuda,
        cuda_available: payload.cuda_available,
        device_count: payload.device_count,
        arch_list: payload.arch_list,
        devices: reported_devices(payload.devices),
        gpu_selection: Seq::empty(),
        cudnn_available: payload.cudnn_available,
        checks: partial_checks(payload, name, detail),
        diagnostics: Seq::empty(),
        error: Some(message(error)),
    }
}

/// The report of a verification that failed on its way.
pub fn partial_failure_report_with_status(
    options: &VerifyOptions,
    check_name: &str,
    detail: &str,
    error: &str,
    payload: &ProbePayload,
) -> (report: VerificationReport)
    ensures
        report.deep_view() == partial_report(
            options.python_executable.deep_view(),
            check_name@,
            detail@,
            error@,
            payload.deep_view(),
        ),
{
    let mut checks: Vec<VerificationCheck> = Vec::new();
    assert(checks.deep_view() =~= Seq::<VerificationCheckView>::empty());
    match &payload.torch_version {
        Some(version) => {
            push_item(
                &mut checks,
                check("torch_import", true, concat2("imported torch ", version.as_str()).as_str()),
            );
            assert(checks.deep_view() =~= seq![
                check_view("torch_import"@, true, "imported torch "@ + version@),
            ]);
        },
        None => {
            if same(payload.stage.as_str(), "import_torch") {
                push_item(&mut checks, check("torch_import", false, detail));
                assert(checks.deep_view() =~= seq![check_view("torch_import"@, false, detail@)]);
            }
        },
    }
    push_device_checks(&mut checks, &payload.devices, COMPLETED_WORDS);
    push_item(&mut checks, check(check_name, false, detail));
    assert(checks.deep_view() =~= partial_checks(payload.deep_view(), check_name@, detail@));
    let gpu_selection: Vec<VerificationGpuMapping> = Vec::new();
    assert(gpu_selection.deep_view() =~= Seq::<VerificationGpuMappingView>::empty());
    let diagnostics: Vec<Diagnostic> = Vec::new();
    assert(diagnostics.deep_view() =~= Seq::<DiagnosticView>::empty());
    VerificationReport {
        schema_version: SCHEMA_VERSION,
        python_executable: options.python_executable.clone(),
        status: CompatibilityStatus::Incompatible,
        torch_version: clone_optional(&payload.torch_version),
        compiled_cuda: clone_optional(&payload.compiled_cuda),
        cuda_available: payload.cuda_available,
        device_count: payload.device_count,
        arch_list: clone_texts(&payload.arch_list),
        devices: convert_devices(&payload.devices),
        gpu_selection,
        cudnn_available: payload.cudnn_available,
        checks,
        diagnostics,
        error: Some(bounded_string(error)),
    }
}

/// What a probe that failed says of its failure.
pub open spec fn probe_error(payload: ProbePayloadView) -> Seq<char> {
    "verification failed at "@ + message(payload.stage) + (match payload.failed_device_index {
        None => ""@,
        Some(index) => " on logical CUDA device "@ + decimal(index as nat),
    }) + ": "@ + (message(
        match payload.error_type {
            Some(kind) => kind,
            None => "runtime error"@,
        },
    ) + ": "@ + message(
        match payload.error {
            Some(text) => text,
            None => "probe failed without a message"@,
        },
    ))
}

/// The report of a probe that failed.
pub fn payload_failure_report(
    options: &VerifyOptions,
    status: &ProcessStatus,
    payload: &ProbePayload,
) -> (report: VerificationReport)
    ensures
        report.deep_view() == partial_report(
            options.python_executable.deep_view(),
            "runtime_probe"@,
            probe_error(payload.deep_view()) + "; subprocess "@ + exit_description(
                status.deep_view(),
            ),
            probe_error(payload.deep_view()),
            payload.deep_view(),
        ),
{
    let stage = bounded_string(payload.stage.as_str());
    let kind = match &payload.error_type {
        Some(kind) => bounded_string(kind.as_str()),
        None => bounded_string("runtime error"),
    };
    let text = match &payload.error {
        Some(text) => bounded_string(text.as_str()),
        None => bounded_string("probe failed without a message"),
    };
    let device = match payload.failed_device_index {
        None => concat2("", ""),
        Some(index) => concat2(
            " on logical CUDA device ",
            decimal_text(index as u64).as_str(),
        ),
    };
    assert(payload.failed_device_index is None ==> device@ =~= ""@) by {
        reveal_strlit("");
    }
    let error = concat5(
        "verification failed at ",
        stage.as_str(),
        device.as_str(),
        ": ",
        concat3(kind.as_str(), ": ", text.as_str()).as_str(),
    );
    let detail = concat3(error.as_str(), "; subprocess ", describe_exit_status(status).as_str());
    partial_failure_report_with_status(
        options,
        "runtime_probe",
        detail.as_str(),
        error.as_str(),
        payload,
    )
}

/// The report that the answer of a probe leads to.
pub open spec fn payload_report(
    python: FilePathView,
    selected: Option<Seq<u32>>,
    status: ProcessStatusView,
    payload: ProbePayloadView,
) -> VerificationReportView {
    if payload.protocol_version != PROBE_PROTOCOL_VERSION {
        failed_report(
            python,
            "probe_protocol"@,
            "unsupported verification protocol version "@ + decimal(payload.protocol_version as nat)
                + "; expected "@ + decimal(PROBE_PROTOCOL_VERSION as nat),
        )
    } else if !payload.ok {
        partial_report(
            python,
            "runtime_probe"@,
            probe_error(payload) + "; subprocess "@ + exit_description(status),
            probe_error(payload),
            payload,
        )
    } else if !status.success {
        let detail = "verification subprocess "@ + exit_description(status)
            + " despite reporting success"@;
        partial_report(python, "subprocess_exit"@, detail, detail, payload)
    } else {
        match success_objection(payload, selected) {
            Some(problem) => partial_report(python, "probe_output"@, problem, problem, payload),
            None => successful_report(python, payload),
        }
    }
}

/// The report that the answer of a probe leads to.
pub fn report_from_payload(
    options: &VerifyOptions,
    selected: &Option<Vec<u32>>,
    status: &ProcessStatus,
    payload: &ProbePayload,
) -> (report: VerificationReport)
    ensures
        report.deep_view() == payload_report(
            options.python_executable.deep_view(),
            numbers_of(*selected),
            status.deep_view(),
            payload.deep_view(),
        ),
{
    if payload.protocol_version != PROBE_PROTOCOL_VERSION {
        return failure_report(
            options,
            "probe_protocol",
            concat4(
                "unsupported verification protocol version ",
                decimal_text(payload.protocol_version as u64).as_str(),
                "; expected ",
                decimal_text(PROBE_PROTOCOL_VERSION as u64).as_str(),
            ).as_str(),
        );
    }
    if !payload.ok {
        return payload_failure_report(options, status, payload);
    }
    if !status.success {
        let detail = concat3(
            "verification subprocess ",
            describe_exit_status(status).as_str(),
            " despite reporting success",
        );
        return partial_failure_report_with_status(
            options,
            "subprocess_exit",
            detail.as_str(),
            detail.as_str(),
            payload,
        );
    }
    match validate_success_payload(payload, selected) {
        Err(problem) => partial_failure_report_with_status(
            options,
            "probe_output",
            problem.as_str(),
            problem.as_str(),
            payload,
        ),
        Ok(_) => success_report(options, payload),
    }
}

/// A length of time in whole milliseconds.
pub open spec fn span_millis(span: TimeSpan) -> nat {
    span.seconds as nat * 1000 + span.nanos as nat / 1_000_000
}

/// The report where the probe could not be run to its end.
pub open spec fn runner_report(
    python: FilePathView,
    timeout: TimeSpan,
    failure: RunnerFailureView,
) -> VerificationReportView {
    match failure {
        RunnerFailureView::Spawn(error) => failed_report(
            python,
            "subprocess_spawn"@,
            "could not start selected Python: "@ + error,
        ),
        RunnerFailureView::Timeout => failed_report(
            python,
            "subprocess_timeout"@,
            "verification subprocess exceeded "@ + decimal(span_millis(timeout)) + " ms"@,
        ),
        RunnerFailureView::OutputLimit { limit } => failed_report(
            python,
            "subprocess_output_limit"@,
            "verification subprocess exceeded the "@ + decimal(limit as nat)
                + "-byte output limit"@,
        ),
        RunnerFailureView::Wait(error) => failed_report(
            python,
            "subprocess_wait"@,
            "could not wait for verification subprocess: "@ + error,
        ),
        RunnerFailureView::Capture(error) => failed_report(
            python,
            "subprocess_output"@,
            "could not capture verification output: "@ + error,
        ),
    }
}

/// The report where the probe could not be run to its end.
pub fn runner_failure_report(options: &VerifyOptions, failure: &RunnerFailure) -> (report:
    VerificationReport)
    ensures
        report.deep_view() == runner_report(
            options.python_executable.deep_view(),
            options.timeout,
            failure.deep_view(),
        ),
{
    match failure {
        RunnerFailure::Spawn(error) => failure_report(
            options,
            "subprocess_spawn",
            concat2("could not start selected Python: ", error.as_str()).as_str(),
        ),
        RunnerFailure::Timeout => {
            let millis: u128 = options.timeout.seconds as u128 * 1000 + (options.timeout.nanos
                / 1_000_000) as u128;
            failure_report(
                options,
                "subprocess_timeout",
                concat3(
                    "verification subprocess exceeded ",
                    wide_decimal_text(millis).as_str(),
                    " ms",
                ).as_str(),
            )
        },
        RunnerFailure::OutputLimit { limit } => failure_report(
            options,
            "subprocess_output_limit",
            concat3(
                "verification subprocess exceeded the ",
                decimal_text(*limit as u64).as_str(),
                "-byte output limit",
            ).as_str(),
        ),
        RunnerFailure::Wait(error) => failure_report(
            options,
            "subprocess_wait",
            concat2("could not wait for verification subprocess: ", error.as_str()).as_str(),
        ),
        RunnerFailure::Capture(error) => failure_report(
            options,
            "subprocess_output",
            concat2("could not capture verification output: ", error.as_str()).as_str(),
        ),
    }
}

// ---------------------------------------------------------------------------
// The whole verification

/// What is asked of the probe.
#[derive(Debug, PartialEq, Eq)]
pub struct ProbeRequest {
    /// The devices to exercise, in order; `None` for all of them.
    pub selected: Option<Vec<u32>>,
    /// The devices as the probe reads them from its argument.
    pub argument: String,
}

/// What is wrong with options.
pub open spec fn options_objection(
    indices: Option<Seq<u32>>,
    timeout: TimeSpan,
    max_output_bytes: usize,
) -> Option<Seq<char>> {
    match normalized_selection(indices) {
        Err(problem) => Some(problem),
        Ok(_) => if timeout.seconds == 0 && timeout.nanos == 0 {
            Some("verification timeout must be greater than zero"@)
        } else if max_output_bytes == 0 {
            Some("verification output limit must be greater than zero"@)
        } else {
            None
        },
    }
}

/// The arguments with which the installed package is verified: isolated from the environment and
/// the current directory, with the program itself and the selected devices.
pub fn verification_arguments(script: &str, selected: &str) -> (arguments: Vec<String>)
    ensures
        arguments.deep_view() == seq!["-I"@, "-c"@, script@, selected@],
{
    let mut arguments: Vec<String> = Vec::new();
    push_item(&mut arguments, "-I".to_owned());
    push_item(&mut arguments, "-c".to_owned());
    push_item(&mut arguments, script.to_owned());
    push_item(&mut arguments, selected.to_owned());
    assert(arguments.deep_view() =~= seq!["-I"@, "-c"@, script@, selected@]);
    arguments
}

/// What is asked of the probe, or the report where the options do not allow to ask anything.
pub fn prepare_probe(options: &VerifyOptions) -> (result: Result<ProbeRequest, VerificationReport>)
    ensures
        match result {
            Err(report) => options_objection(
                numbers_of(options.device_indices),
                options.timeout,
                options.max_output_bytes,
            ) matches Some(problem) && report.deep_view() == failed_report(
                options.python_executable.deep_view(),
                "verify_options"@,
                problem,
            ),
            Ok(request) => {
                &&& options_objection(
                    numbers_of(options.device_indices),
                    options.timeout,
                    options.max_output_bytes,
                ) is None
                &&& normalized_selection(numbers_of(options.device_indices)) == Ok::<
                    Option<Seq<u32>>,
                    Seq<char>,
                >(numbers_of(request.selected))
                &&& request.argument@ == selection_json(numbers_of(request.selected))
            },
        },
{
    let indices = match &options.device_indices {
        Some(list) => Some(list.as_slice()),
        None => None,
    };
    let selected = match normalized_device_indices(indices) {
        Ok(selected) => selected,
        Err(problem) => {
            return Err(failure_report(options, "verify_options", problem.as_str()));
        },
    };
    if options.timeout.is_zero() {
        return Err(
            failure_report(
                options,
                "verify_options",
                "verification timeout must be greater than zero",
            ),
        );
    }
    if options.max_output_bytes == 0 {
        return Err(
            failure_report(
                options,
                "verify_options",
                "verification output limit must be greater than zero",
            ),
        );
    }
    match encode_selection(&selected) {
        Some(argument) => Ok(ProbeRequest { selected, argument }),
        None => {
            assert(false);
            Err(
                failure_report(
                    options,
                    "verify_options",
                    "could not encode selected CUDA devices",
                ),
            )
        },
    }
}

/// What came of running the probe.
#[derive(Debug, PartialEq, Eq)]
pub enum ProbeRun {
    /// The probe could not be run to its end.
    Failed(RunnerFailure),
    /// The probe ran to its end.
    Completed {
        /// Its output.
        output: CapturedOutput,
        /// What its record says, or why that is not the expected JSON; of no account where the
        /// output holds no single record.
        decoded: Result<ProbePayload, String>,
    },
}

/// The model of [`ProbeRun`].
pub enum ProbeRunView {
    Failed(RunnerFailureView),
    Completed { output: CapturedOutputView, decoded: Result<ProbePayloadView, Seq<char>> },
}

impl DeepView for ProbeRun {
    type V = ProbeRunView;

    open spec fn deep_view(&self) -> ProbeRunView {
        match self {
            ProbeRun::Failed(failure) => ProbeRunView::Failed(failure.deep_view()),
            ProbeRun::Completed { output, decoded } => ProbeRunView::Completed {
                output: output.deep_view(),
                decoded: outcome(*decoded),
            },
        }
    }
}

/// The answer in an output.
pub open spec fn probe_answer(
    stdout: Seq<u8>,
    decoded: Result<ProbePayloadView, Seq<char>>,
) -> Result<ProbePayloadView, Seq<char>> {
    match protocol_record(stdout) {
        Err(problem) => Err(problem),
        Ok(_) => match decoded {
            Ok(payload) => Ok(payload),
            Err(problem) => Err("verification subprocess emitted invalid JSON: "@ + problem),
        },
    }
}

/// The report that a run of the probe leads to.
pub open spec fn run_report(
    python: FilePathView,
    selected: Option<Seq<u32>>,
    timeout: TimeSpan,
    run: ProbeRunView,
) -> VerificationReportView {
    match run {
        ProbeRunView::Failed(failure) => runner_report(python, timeout, failure),
        ProbeRunView::Completed { output, decoded } => match probe_answer(output.stdout, decoded) {
            Ok(payload) => payload_report(python, selected, output.status, payload),
            Err(problem) => if !output.status.success {
                failed_report(
                    python,
                    "subprocess_exit"@,
                    "verification subprocess "@ + exit_description(output.status) + "; "@ + problem
                        + ("; stderr: "@ + message(lossy_text(output.stderr))),
                )
            } else {
                failed_report(python, "probe_output"@, problem)
            },
        },
    }
}

/// The report of a whole verification.
pub open spec fn verification_of(
    python: FilePathView,
    indices: Option<Seq<u32>>,
    timeout: TimeSpan,
    max_output_bytes: usize,
    run: ProbeRunView,
) -> VerificationReportView {
    match options_objection(indices, timeout, max_output_bytes) {
        Some(problem) => failed_report(python, "verify_options"@, problem),
        None => match normalized_selection(indices) {
            Ok(selected) => run_report(python, selected, timeout, run),
            Err(problem) => failed_report(python, "verify_options"@, problem),
        },
    }
}

/// Reports what a run of the probe shows of the installed PyTorch package.
pub fn verify_installed(options: &VerifyOptions, run: &ProbeRun) -> (report: VerificationReport)
    ensures
        report.deep_view() == verification_of(
            options.python_executable.deep_view(),
            numbers_of(options.device_indices),
            options.timeout,
            options.max_output_bytes,
            run.deep_view(),
        ),
{
    let request = match prepare_probe(options) {
        Ok(request) => request,
        Err(report) => {
            return report;
        },
    };
    match run {
        ProbeRun::Failed(failure) => runner_failure_report(options, failure),
        ProbeRun::Completed { output, decoded } => {
            let problem = match extract_probe_record(output.stdout.as_slice()) {
                Err(problem) => problem,
                Ok(_) => match decoded {
                    Ok(payload) => {
                        return report_from_payload(
                            options,
                            &request.selected,
                            &output.status,
                            payload,
                        );
                    },
                    Err(problem) => concat2(
                        "verification subprocess emitted invalid JSON: ",
                        problem.as_str(),
                    ),
                },
            };
            if output.status.success {
                return failure_report(options, "probe_output", problem.as_str());
            }
            let stderr = bounded_bytes(output.stderr.as_slice());
            failure_report(
                options,
                "subprocess_exit",
                concat5(
                    "verification subprocess ",
                    describe_exit_status(&output.status).as_str(),
                    "; ",
                    problem.as_str(),
                    concat2("; stderr: ", stderr.as_str()).as_str(),
                ).as_str(),
            )
        },
    }
}

/// A report is that of a verified installation exactly where it holds no error.
pub proof fn verified_means_no_error(
    python: FilePathView,
    indices: Option<Seq<u32>>,
    timeout: TimeSpan,
    max_output_bytes: usize,
    run: ProbeRunView,
)
    ensures
        ({
            let report = verification_of(python, indices, timeout, max_output_bytes, run);
            &&& report.status == CompatibilityStatus::Verified <==> report.error is None
            &&& report.status != CompatibilityStatus::Verified ==> report.status
                == CompatibilityStatus::Incompatible
            &&& report.status != CompatibilityStatus::Verified ==> report.checks.len() > 0
                && !report.checks.last().passed
        }),
{
}

/// Every check of a verified installation has passed.
pub proof fn verified_means_every_check_passed(
    python: FilePathView,
    indices: Option<Seq<u32>>,
    timeout: TimeSpan,
    max_output_bytes: usize,
    run: ProbeRunView,
    place: int,
)
    requires
        verification_of(python, indices, timeout, max_output_bytes, run).status
            == CompatibilityStatus::Verified,
        0 <= place < verification_of(
            python,
            indices,
            timeout,
            max_output_bytes,
            run,
        ).checks.len(),
    ensures
        verification_of(python, indices, timeout, max_output_bytes, run).checks[place].passed,
{
    let report = verification_of(python, indices, timeout, max_output_bytes, run);
    if let ProbeRunView::Completed { output, decoded } = run {
        if let Ok(payload) = probe_answer(output.stdout, decoded) {
            let general = general_checks(payload);
            let devices = device_checks(payload.devices, EXERCISED_WORDS@);
            if place < general.len() {
                assert(report.checks[place] == general[place]);
            } else if place < general.len() + devices.len() {
                let at = place - general.len();
                assert(report.checks[place] == devices[at]);
                if payload.compiled_cuda is Some {
                    assert(payload.devices[at].operations_ok);
                }
            }
        }
    }
}

/// A verified installation with CUDA has passed its operations on exactly the devices that were
/// asked for: the selected ones, or else every logical device.
pub proof fn verified_devices_are_the_selected_ones(
    python: FilePathView,
    selected: Option<Seq<u32>>,
    status: ProcessStatusView,
    payload: ProbePayloadView,
)
    requires
        payload_report(python, selected, status, payload).status == CompatibilityStatus::Verified,
    ensures
        status.success,
        payload.ok,
        payload.compiled_cuda is Some ==> (payload.device_count matches Some(count) && exercised(
            payload.devices,
        ) == expected_devices(selected, count) && !any_failed(payload.devices)),
        payload.compiled_cuda is None ==> selected is None && payload.devices.len() == 0,
{
}

/// What the probe says of cuDNN decides nothing.
pub proof fn cudnn_is_informational(
    python: FilePathView,
    selected: Option<Seq<u32>>,
    status: ProcessStatusView,
    payload: ProbePayloadView,
    available: Option<bool>,
    error: Option<Seq<char>>,
)
    ensures
        payload_report(
            python,
            selected,
            status,
            ProbePayloadView { cudnn_available: available, cudnn_error: error, ..payload },
        ).status == payload_report(python, selected, status, payload).status,
{
    let other = ProbePayloadView { cudnn_available: available, cudnn_error: error, ..payload };
    assert(success_objection(other, selected) == success_objection(payload, selected));
}

} // verus!
