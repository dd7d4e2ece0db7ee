//! What running a command yields, and how much of its output is kept.

use crate::index::TimeSpan;
use crate::outside::{decode_lossy, lossy_text, show_span, span_text};
use crate::text::{concat2, concat4, concat5, decimal, decimal_text, from_chars, outcome, to_chars};
use vstd::prelude::*;
use vstd::utf8::{encode_scalar, encode_utf8};

verus! {

/// Longest time an external command may take, unless another is given.
pub const DEFAULT_COMMAND_TIMEOUT_SECONDS: u64 = 8;

/// Most bytes kept of an output stream, unless another number is given.
pub const DEFAULT_MAX_COMMAND_OUTPUT_BYTES: usize = 1_048_576;

/// Limits applied to a subprocess invocation.
#[derive(Debug, Clone, Copy, PartialEq, Eq, Structural)]
pub struct RunCommandOptions {
    /// Hard wall-clock timeout.
    pub timeout: TimeSpan,
    /// Maximum retained stdout bytes.
    pub max_stdout_bytes: usize,
    /// Maximum retained stderr bytes.
    pub max_stderr_bytes: usize,
}

impl Default for RunCommandOptions {
    fn default() -> (options: RunCommandOptions)
        ensures
            options == (RunCommandOptions {
                timeout: TimeSpan { seconds: DEFAULT_COMMAND_TIMEOUT_SECONDS, nanos: 0 },
                max_stdout_bytes: DEFAULT_MAX_COMMAND_OUTPUT_BYTES,
                max_stderr_bytes: DEFAULT_MAX_COMMAND_OUTPUT_BYTES,
            }),
    {
        RunCommandOptions {
            timeout: TimeSpan::from_secs(DEFAULT_COMMAND_TIMEOUT_SECONDS),
            max_stdout_bytes: DEFAULT_MAX_COMMAND_OUTPUT_BYTES,
            max_stderr_bytes: DEFAULT_MAX_COMMAND_OUTPUT_BYTES,
        }
    }
}

/// How a process ended.
#[derive(Debug, PartialEq, Eq)]
pub struct ProcessStatus {
    /// Whether it reported success.
    pub success: bool,
    /// Its exit code, unless a signal ended it.
    pub code: Option<i32>,
    /// The signal that ended it.
    pub signal: Option<i32>,
    /// The status as the operating system's conventions display it.
    pub text: String,
}

/// The model of [`ProcessStatus`].
#[verifier::ext_equal]
pub struct ProcessStatusView {
    pub success: bool,
    pub code: Option<i32>,
    pub signal: Option<i32>,
    pub text: Seq<char>,
}

impl DeepView for ProcessStatus {
    type V = ProcessStatusView;

    open spec fn deep_view(&self) -> ProcessStatusView {
        ProcessStatusView {
            success: self.success,
            code: self.code,
            signal: self.signal,
            text: self.text@,
        }
    }
}

/// Output captured from a subprocess without invoking a shell.
#[derive(Debug, PartialEq, Eq)]
pub struct CapturedOutput {
    /// Process exit status.
    pub status: ProcessStatus,
    /// Exact stdout bytes.
    pub stdout: Vec<u8>,
    /// Exact stderr bytes.
    pub stderr: Vec<u8>,
}

/// The model of [`CapturedOutput`].
#[verifier::ext_equal]
pub struct CapturedOutputView {
    pub status: ProcessStatusView,
    pub stdout: Seq<u8>,
    pub stderr: Seq<u8>,
}

impl DeepView for CapturedOutput {
    type V = CapturedOutputView;

    open spec fn deep_view(&self) -> CapturedOutputView {
        CapturedOutputView {
            status: self.status.deep_view(),
            stdout: self.stdout@,
            stderr: self.stderr@,
        }
    }
}

/// Captured subprocess stream.
#[derive(Debug, Clone, Copy, PartialEq, Eq, Structural)]
pub enum OutputStream {
    /// Standard output.
    Stdout,
    /// Standard error.
    Stderr,
}

/// The name of a stream.
pub open spec fn stream_text(stream: OutputStream) -> Seq<char> {
    match stream {
        OutputStream::Stdout => "stdout"@,
        OutputStream::Stderr => "stderr"@,
    }
}

impl OutputStream {
    /// The name of the stream.
    pub fn to_string(&self) -> (text: String)
        ensures
            text@ == stream_text(*self),
    {
        match self {
            OutputStream::Stdout => "stdout".to_owned(),
            OutputStream::Stderr => "stderr".to_owned(),
        }
    }
}

/// Failure from a bounded subprocess invocation.
#[derive(Debug, PartialEq, Eq)]
pub enum CommandError {
    /// The process could not be created.
    Spawn {
        /// Display form of the executable.
        program: String,
        /// Whether there is no such executable.
        not_found: bool,
        /// Operating-system error.
        source: String,
    },
    /// A reader thread could not be created.
    ReaderSpawn {
        /// Display form of the executable.
        program: String,
        /// Stream being captured.
        stream: OutputStream,
        /// Operating-system error.
        source: String,
    },
    /// Waiting for the process failed.
    Wait {
        /// Display form of the executable.
        program: String,
        /// Operating-system error.
        source: String,
    },
    /// Reading one of the output streams failed.
    Read {
        /// Display form of the executable.
        program: String,
        /// Stream that failed.
        stream: OutputStream,
        /// Operating-system error.
        source: String,
    },
    /// A reader thread panicked unexpectedly.
    ReaderPanicked {
        /// Display form of the executable.
        program: String,
        /// Stream that failed.
        stream: OutputStream,
    },
    /// The process did not exit before its deadline.
    TimedOut {
        /// Display form of the executable.
        program: String,
        /// Configured timeout.
        timeout: TimeSpan,
    },
    /// An output stream exceeded its configured bound.
    OutputLimitExceeded {
        /// Display form of the executable.
        program: String,
        /// Stream that exceeded the limit.
        stream: OutputStream,
        /// Configured limit.
        limit: usize,
    },
}

/// The model of [`CommandError`].
pub enum CommandErrorView {
    Spawn { program: Seq<char>, not_found: bool, source: Seq<char> },
    ReaderSpawn { program: Seq<char>, stream: OutputStream, source: Seq<char> },
    Wait { program: Seq<char>, source: Seq<char> },
    Read { program: Seq<char>, stream: OutputStream, source: Seq<char> },
    ReaderPanicked { program: Seq<char>, stream: OutputStream },
    TimedOut { program: Seq<char>, timeout: TimeSpan },
    OutputLimitExceeded { program: Seq<char>, stream: OutputStream, limit: usize },
}

impl DeepView for CommandError {
    type V = CommandErrorView;

    open spec fn deep_view(&self) -> CommandErrorView {
        match self {
            CommandError::Spawn { program, not_found, source } => CommandErrorView::Spawn {
                program: program@,
                not_found: *not_found,
                source: source@,
            },
            CommandError::ReaderSpawn { program, stream, source } => CommandErrorView::ReaderSpawn {
                program: program@,
                stream: *stream,
                source: source@,
            },
            CommandError::Wait { program, source } => CommandErrorView::Wait {
                program: program@,
                source: source@,
            },
            CommandError::Read { program, stream, source } => CommandErrorView::Read {
                program: program@,
                stream: *stream,
                source: source@,
            },
            CommandError::ReaderPanicked { program, stream } => CommandErrorView::ReaderPanicked {
                program: program@,
                stream: *stream,
            },
            CommandError::TimedOut { program, timeout } => CommandErrorView::TimedOut {
                program: program@,
                timeout: *timeout,
            },
            CommandError::OutputLimitExceeded { program, stream, limit } =>
                CommandErrorView::OutputLimitExceeded {
                program: program@,
                stream: *stream,
                limit: *limit,
            },
        }
    }
}

/// The message of a command error.
pub open spec fn command_error_text(error: CommandErrorView) -> Seq<char> {
    match error {
        CommandErrorView::Spawn { program, not_found: _, source } => "failed to spawn "@ + program
            + ": "@ + source,
        CommandErrorView::ReaderSpawn { program, stream, source } => "failed to create the "@
            + stream_text(stream) + " reader for "@ + program + (": "@ + source),
        CommandErrorView::Wait { program, source } => "failed while waiting for "@ + program + ": "@
            + source,
        CommandErrorView::Read { program, stream, source } => "failed to read "@ + stream_text(
            stream,
        ) + " from "@ + program + (": "@ + source),
        CommandErrorView::ReaderPanicked { program, stream } => "the "@ + stream_text(stream)
            + " reader for "@ + program + " panicked"@,
        CommandErrorView::TimedOut { program, timeout } => program + " timed out after "@
            + span_text(timeout.seconds, timeout.nanos),
        CommandErrorView::OutputLimitExceeded { program, stream, limit } => program
            + " exceeded the "@ + stream_text(stream) + " limit of "@ + (decimal(limit as nat)
            + " bytes"@),
    }
}

impl CommandError {
    /// Whether the executable does not exist.
    pub fn is_not_found(&self) -> (answer: bool)
        ensures
            answer == (self.deep_view() matches CommandErrorView::Spawn { not_found, .. }
                && not_found),
    {
        match self {
            CommandError::Spawn { not_found, .. } => *not_found,
            _ => false,
        }
    }

    /// Whether the process ran out of time.
    pub fn is_timeout(&self) -> (answer: bool)
        ensures
            answer == (self.deep_view() is TimedOut),
    {
        match self {
            CommandError::TimedOut { .. } => true,
            _ => false,
        }
    }

    /// The message of the error.
    pub fn to_string(&self) -> (text: String)
        ensures
            text@ == command_error_text(self.deep_view()),
    {
        match self {
            CommandError::Spawn { program, source, .. } => concat4(
                "failed to spawn ",
                program.as_str(),
                ": ",
                source.as_str(),
            ),
            CommandError::ReaderSpawn { program, stream, source } => concat5(
                "failed to create the ",
                stream.to_string().as_str(),
                " reader for ",
                program.as_str(),
                concat2(": ", source.as_str()).as_str(),
            ),
            CommandError::Wait { program, source } => concat4(
                "failed while waiting for ",
                program.as_str(),
                ": ",
                source.as_str(),
            ),
            CommandError::Read { program, stream, source } => concat5(
                "failed to read ",
                stream.to_string().as_str(),
                " from ",
                program.as_str(),
                concat2(": ", source.as_str()).as_str(),
            ),
            CommandError::ReaderPanicked { program, stream } => concat5(
                "the ",
                stream.to_string().as_str(),
                " reader for ",
                program.as_str(),
                " panicked",
            ),
            CommandError::TimedOut { program, timeout } => crate::text::concat3(
                program.as_str(),
                " timed out after ",
                show_span(timeout.seconds, timeout.nanos).as_str(),
            ),
            CommandError::OutputLimitExceeded { program, stream, limit } => concat5(
                program.as_str(),
                " exceeded the ",
                stream.to_string().as_str(),
                " limit of ",
                concat2(decimal_text(*limit as u64).as_str(), " bytes").as_str(),
            ),
        }
    }
}

// ---------------------------------------------------------------------------
// Bounded reading

/// What has been kept of a stream.
#[derive(Debug, PartialEq, Eq)]
pub struct BoundedRead {
    /// The first bytes of the stream.
    pub bytes: Vec<u8>,
    /// Whether more bytes came than were kept.
    pub exceeded: bool,
}

/// The model of [`BoundedRead`].
#[verifier::ext_equal]
pub struct BoundedReadView {
    pub bytes: Seq<u8>,
    pub exceeded: bool,
}

impl DeepView for BoundedRead {
    type V = BoundedReadView;

    open spec fn deep_view(&self) -> BoundedReadView {
        BoundedReadView { bytes: self.bytes@, exceeded: self.exceeded }
    }
}

/// What is kept of a whole stream: its first `limit` bytes.
pub open spec fn bounded(stream: Seq<u8>, limit: nat) -> BoundedReadView {
    BoundedReadView {
        bytes: if stream.len() <= limit {
            stream
        } else {
            stream.take(limit as int)
        },
        exceeded: stream.len() > limit,
    }
}

/// What is kept after `chunk` has arrived.
pub open spec fn chunk_accepted(
    so_far: BoundedReadView,
    chunk: Seq<u8>,
    limit: nat,
) -> BoundedReadView {
    let remaining = if limit >= so_far.bytes.len() {
        limit - so_far.bytes.len()
    } else {
        0
    };
    let retained = if remaining <= chunk.len() {
        remaining
    } else {
        chunk.len() as int
    };
    BoundedReadView {
        bytes: so_far.bytes + chunk.take(retained),
        exceeded: so_far.exceeded || retained < chunk.len(),
    }
}

/// However a stream is cut into chunks, what is kept of it is its bounded prefix: accepting a
/// chunk after `before` has been read leaves what reading both at once would leave.
pub proof fn chunks_do_not_matter(before: Seq<u8>, chunk: Seq<u8>, limit: nat)
    ensures
        chunk_accepted(bounded(before, limit), chunk, limit) == bounded(before + chunk, limit),
{
    let stepwise = chunk_accepted(bounded(before, limit), chunk, limit);
    let whole = bounded(before + chunk, limit);
    assert(stepwise.bytes =~= whole.bytes);
    assert(stepwise =~= whole);
}

/// No more than the limit is ever kept.
pub proof fn bounded_stays_within_limit(stream: Seq<u8>, limit: nat)
    ensures
        bounded(stream, limit).bytes.len() <= limit,
        bounded(stream, limit).bytes.is_prefix_of(stream),
        !bounded(stream, limit).exceeded ==> bounded(stream, limit).bytes == stream,
{
}

impl BoundedRead {
    /// Nothing read yet.
    pub fn new() -> (read: BoundedRead)
        ensures
            read.deep_view() == (BoundedReadView { bytes: Seq::empty(), exceeded: false }),
    {
        BoundedRead { bytes: Vec::new(), exceeded: false }
    }

    /// Keeps what fits of the next `chunk` of the stream.
    pub fn accept(&mut self, chunk: &[u8], limit: usize)
        ensures
            final(self).deep_view() == chunk_accepted(old(self).deep_view(), chunk@, limit as nat),
    {
        let held: usize = self.bytes.len();
        let remaining: usize = if limit >= held {
            limit - held
        } else {
            0
        };
        let retained: usize = if remaining <= chunk.len() {
            remaining
        } else {
            chunk.len()
        };
        let ghost start = self.bytes@;
        let mut index: usize = 0;
        while index < retained
            invariant
                index <= retained <= chunk@.len(),
                self.bytes@ == start + chunk@.take(index as int),
                self.exceeded == old(self).exceeded,
            decreases retained - index,
        {
            self.bytes.push(chunk[index]);
            assert(chunk@.take(index + 1) =~= chunk@.take(index as int).push(chunk@[index as int]));
            assert(self.bytes@ =~= start + chunk@.take(index + 1));
            index = index + 1;
        }
        if retained < chunk.len() {
            self.exceeded = true;
        }
    }
}

/// Reads a whole stream that is already in memory.
pub fn read_bounded(stream: &[u8], limit: usize) -> (read: BoundedRead)
    ensures
        read.deep_view() == bounded(stream@, limit as nat),
{
    let mut read = BoundedRead::new();
    read.accept(stream, limit);
    proof {
        chunks_do_not_matter(Seq::empty(), stream@, limit as nat);
        assert(Seq::<u8>::empty() + stream@ =~= stream@);
    }
    read
}

/// What a command that ran to its end yields: its output, unless one of the streams was too
/// long.
pub open spec fn command_result(
    program: Seq<char>,
    limits: RunCommandOptions,
    status: ProcessStatusView,
    stdout: BoundedReadView,
    stderr: BoundedReadView,
) -> Result<CapturedOutputView, CommandErrorView> {
    if stdout.exceeded {
        Err(
            CommandErrorView::OutputLimitExceeded {
                program,
                stream: OutputStream::Stdout,
                limit: limits.max_stdout_bytes,
            },
        )
    } else if stderr.exceeded {
        Err(
            CommandErrorView::OutputLimitExceeded {
                program,
                stream: OutputStream::Stderr,
                limit: limits.max_stderr_bytes,
            },
        )
    } else {
        Ok(CapturedOutputView { status, stdout: stdout.bytes, stderr: stderr.bytes })
    }
}

/// Puts together the result of a command that ran to its end.
pub fn finish_command(
    program: String,
    limits: &RunCommandOptions,
    status: ProcessStatus,
    stdout: BoundedRead,
    stderr: BoundedRead,
) -> (result: Result<CapturedOutput, CommandError>)
    ensures
        outcome(result) == command_result(
            program@,
            *limits,
            status.deep_view(),
            stdout.deep_view(),
            stderr.deep_view(),
        ),
{
    if stdout.exceeded {
        return Err(
            CommandError::OutputLimitExceeded {
                program,
                stream: OutputStream::Stdout,
                limit: limits.max_stdout_bytes,
            },
        );
    }
    if stderr.exceeded {
        return Err(
            CommandError::OutputLimitExceeded {
                program,
                stream: OutputStream::Stderr,
                limit: limits.max_stderr_bytes,
            },
        );
    }
    Ok(CapturedOutput { status, stdout: stdout.bytes, stderr: stderr.bytes })
}

// ---------------------------------------------------------------------------
// Output as text

/// Both streams as one text, standard output first.
pub open spec fn combined(output: CapturedOutputView) -> Seq<char> {
    lossy_text(output.stdout) + "\n"@ + lossy_text(output.stderr)
}

/// Both streams as one text, standard output first.
pub fn combined_output(output: &CapturedOutput) -> (text: String)
    ensures
        text@ == combined(output.deep_view()),
{
    let stdout = decode_lossy(output.stdout.as_slice());
    let stderr = decode_lossy(output.stderr.as_slice());
    crate::text::concat3(stdout.as_str(), "\n", stderr.as_str())
}

/// The longest beginning of `text` that takes at most `max` bytes.
pub open spec fn fitting(text: Seq<char>, max: nat) -> Seq<char>
    decreases text.len(),
{
    if text.len() == 0 || encode_utf8(text).len() <= max {
        text
    } else {
        fitting(text.drop_last(), max)
    }
}

/// `text`, cut to `max` bytes between characters and marked as cut where it is longer.
pub open spec fn truncated(text: Seq<char>, max: nat) -> Seq<char> {
    if encode_utf8(text).len() <= max {
        text
    } else {
        fitting(text, max) + "..."@
    }
}

proof fn encoding_of_push(text: Seq<char>, character: char)
    ensures
        encode_utf8(text.push(character)) == encode_utf8(text) + encode_scalar(character as u32),
    decreases text.len(),
{
    let longer = text.push(character);
    if text.len() == 0 {
        assert(longer.drop_first() =~= Seq::empty());
        assert(encode_utf8(longer.drop_first()) =~= Seq::empty());
        assert(encode_utf8(text) =~= Seq::empty());
        assert(encode_utf8(longer) =~= encode_scalar(character as u32));
        assert(Seq::<u8>::empty() + encode_scalar(character as u32) =~= encode_scalar(
            character as u32,
        ));
    } else {
        encoding_of_push(text.drop_first(), character);
        assert(longer.drop_first() =~= text.drop_first().push(character));
        assert(encode_utf8(longer) =~= encode_utf8(text) + encode_scalar(character as u32));
    }
}

/// What is kept of a truncated text fits, and is a beginning of the text.
pub proof fn fitting_fits(text: Seq<char>, max: nat)
    ensures
        encode_utf8(fitting(text, max)).len() <= max,
        fitting(text, max).is_prefix_of(text),
    decreases text.len(),
{
    if text.len() == 0 {
        assert(encode_utf8(text) =~= Seq::empty());
    } else if encode_utf8(text).len() > max {
        fitting_fits(text.drop_last(), max);
    }
}

proof fn fitting_from_longer(text: Seq<char>, count: int, max: nat)
    requires
        0 <= count <= text.len(),
        encode_utf8(text.take(count)).len() <= max,
        count < text.len() ==> encode_utf8(text.take(count + 1)).len() > max,
    ensures
        fitting(text, max) == text.take(count),
    decreases text.len(),
{
    if count == text.len() {
        assert(text.take(count) =~= text);
    } else {
        encoding_grows(text, count + 1);
        let shorter = text.drop_last();
        assert(shorter.take(count) =~= text.take(count));
        if count < shorter.len() {
            assert(shorter.take(count + 1) =~= text.take(count + 1));
        }
        fitting_from_longer(shorter, count, max);
    }
}

proof fn encoding_grows(text: Seq<char>, count: int)
    requires
        0 <= count <= text.len(),
    ensures
        encode_utf8(text.take(count)).len() <= encode_utf8(text).len(),
    decreases text.len() - count,
{
    if count == text.len() {
        assert(text.take(count) =~= text);
    } else {
        encoding_grows(text, count + 1);
        assert(text.take(count + 1) =~= text.take(count).push(text[count]));
        encoding_of_push(text.take(count), text[count]);
    }
}

/// How many bytes a character takes.
fn encoded_width(character: char) -> (width: usize)
    ensures
        width == encode_scalar(character as u32).len(),
        1 <= width <= 4,
{
    let code: u32 = character as u32;
    if code <= 0x7f {
        1
    } else if code <= 0x7ff {
        2
    } else if code <= 0xffff {
        3
    } else {
        4
    }
}

/// Cuts `value` to `max_bytes` bytes, between characters.
pub fn truncate_string(value: &str, max_bytes: usize) -> (text: String)
    ensures
        text@ == truncated(value@, max_bytes as nat),
{
    if value.as_bytes().len() <= max_bytes {
        return value.to_owned();
    }
    let chars = to_chars(value);
    let mut count: usize = 0;
    let mut size: usize = 0;
    assert(encode_utf8(chars@.take(0)) =~= Seq::empty());
    while count < chars.len() && size <= max_bytes && encoded_width(chars[count]) <= max_bytes
        - size
        invariant
            count <= chars@.len(),
            size <= max_bytes,
            size == encode_utf8(chars@.take(count as int)).len(),
        decreases chars@.len() - count,
    {
        proof {
            encoding_of_push(chars@.take(count as int), chars@[count as int]);
            assert(chars@.take(count + 1) =~= chars@.take(count as int).push(
                chars@[count as int],
            ));
        }
        size = size + encoded_width(chars[count]);
        count = count + 1;
    }
    proof {
        if count < chars@.len() {
            encoding_of_push(chars@.take(count as int), chars@[count as int]);
            assert(chars@.take(count + 1) =~= chars@.take(count as int).push(
                chars@[count as int],
            ));
        }
        fitting_from_longer(chars@, count as int, max_bytes as nat);
        assert(chars@.subrange(0, count as int) =~= chars@.take(count as int));
    }
    concat2(from_chars(&chars, 0, count).as_str(), "...")
}

/// The first `limit` bytes as text.
pub open spec fn bounded_text(bytes: Seq<u8>, limit: nat) -> Seq<char> {
    truncated(
        lossy_text(
            if bytes.len() <= limit {
                bytes
            } else {
                bytes.take(limit as int)
            },
        ),
        limit,
    )
}

/// The first `limit` bytes as text.
pub fn bounded_lossy(bytes: &[u8], limit: usize) -> (text: String)
    ensures
        text@ == bounded_text(bytes@, limit as nat),
{
    let retained = read_bounded(bytes, limit);
    let text = decode_lossy(retained.bytes.as_slice());
    truncate_string(text.as_str(), limit)
}

} // verus!
