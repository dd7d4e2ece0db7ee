//! Stable data types shared by detection, index, resolution, and verification, each with
//! the model that contracts speak of.

use crate::details::{bind, no_details, Details};
use crate::pieces::{
    after_prefix, join, strip_prefix, trim, trimmed, trimming_removes_what_is_around,
};
use crate::text::{
    all_digits, clone_optional, clone_texts, concat2, concat3, concat4, control, decimal,
    decimal_round_trip, decimal_text, decimal_value, digit, from_chars, is_control, is_digit,
    is_whitespace, lower, lowercase, outcome, parse_unsigned, same, to_chars, to_lowercase,
    whitespace,
};
use crate::version::{
    component_at, component_texts, parsed_version, version_round_trip, NumericVersion,
    NumericVersionView, VersionParseError, VersionParseErrorView,
};
use std::str::FromStr;
use vstd::prelude::*;

verus! {

/// Version of the machine-readable output contract.
pub const SCHEMA_VERSION: u32 = 1;

/// The characters that can alter terminal layout or displayed text, or that look like an
/// ordinary ASCII space without being one: controls, other white space, and the assigned
/// format controls.
pub open spec fn unsafe_terminal_character(character: char) -> bool {
    ||| control(character)
    ||| whitespace(character) && character != ' '
    ||| character == '\u{00ad}'
    ||| '\u{0600}' <= character <= '\u{0605}'
    ||| character == '\u{061c}'
    ||| character == '\u{06dd}'
    ||| character == '\u{070f}'
    ||| '\u{0890}' <= character <= '\u{0891}'
    ||| character == '\u{08e2}'
    ||| character == '\u{180e}'
    ||| '\u{200b}' <= character <= '\u{200f}'
    ||| '\u{2028}' <= character <= '\u{202e}'
    ||| '\u{2060}' <= character <= '\u{2064}'
    ||| '\u{2066}' <= character <= '\u{206f}'
    ||| character == '\u{feff}'
    ||| '\u{fff9}' <= character <= '\u{fffb}'
    ||| character == '\u{110bd}'
    ||| character == '\u{110cd}'
    ||| '\u{13430}' <= character <= '\u{1343f}'
    ||| '\u{1bca0}' <= character <= '\u{1bca3}'
    ||| '\u{1d173}' <= character <= '\u{1d17a}'
    ||| character == '\u{e0001}'
    ||| '\u{e0020}' <= character <= '\u{e007f}'
}

/// Returns whether a character can alter terminal layout or displayed text,
/// or is visually confusable with an ordinary ASCII space.
///
/// Callers either escape these characters for diagnostics or reject them where exact
/// copy/paste semantics are required.
pub fn is_unsafe_terminal_character(character: char) -> (answer: bool)
    ensures
        answer == unsafe_terminal_character(character),
{
    is_control(character) || (is_whitespace(character) && character != ' ')
        || matches!(
            character,
            '\u{00ad}'
                | '\u{0600}'..='\u{0605}'
                | '\u{061c}'
                | '\u{06dd}'
                | '\u{070f}'
                | '\u{0890}'..='\u{0891}'
                | '\u{08e2}'
                | '\u{180e}'
                | '\u{200b}'..='\u{200f}'
                | '\u{2028}'..='\u{202e}'
                | '\u{2060}'..='\u{2064}'
                | '\u{2066}'..='\u{206f}'
                | '\u{feff}'
                | '\u{fff9}'..='\u{fffb}'
                | '\u{110bd}'
                | '\u{110cd}'
                | '\u{13430}'..='\u{1343f}'
                | '\u{1bca0}'..='\u{1bca3}'
                | '\u{1d173}'..='\u{1d17a}'
                | '\u{e0001}'
                | '\u{e0020}'..='\u{e007f}'
        )
}

// ---------------------------------------------------------------------------
// Wheel variants

/// A PyTorch wheel accelerator index.
#[derive(Debug, Clone, Copy, PartialEq, Eq, PartialOrd, Ord, Hash, Structural)]
pub enum CudaVariant {
    /// CPU-only wheels.
    Cpu,
    /// A CUDA runtime wheel, for example CUDA 12.4 (`cu124`).
    Cuda {
        /// CUDA major version.
        major: u16,
        /// CUDA minor version.
        minor: u16,
    },
}

impl DeepView for CudaVariant {
    type V = CudaVariant;

    open spec fn deep_view(&self) -> CudaVariant {
        *self
    }
}

/// The name of a variant's wheel index.
pub open spec fn variant_text(variant: CudaVariant) -> Seq<char> {
    match variant {
        CudaVariant::Cpu => "cpu"@,
        CudaVariant::Cuda { major, minor } => "cu"@ + decimal(major as nat) + decimal(minor as nat),
    }
}

/// The variant that the digits after `cu` write: the first two digits are the major version
/// where there are at least three, the first one where there are two.
pub open spec fn variant_of_digits(digits: Seq<char>) -> Option<CudaVariant> {
    let split: int = if digits.len() >= 3 {
        2
    } else {
        1
    };
    if digits.len() < 2 || !all_digits(digits) || decimal_value(digits.skip(split)) > u16::MAX {
        None
    } else {
        Some(
            CudaVariant::Cuda {
                major: decimal_value(digits.take(split)) as u16,
                minor: decimal_value(digits.skip(split)) as u16,
            },
        )
    }
}

/// The variant that `text` names, ignoring case and white space around it.
pub open spec fn parsed_variant(text: Seq<char>) -> Option<CudaVariant> {
    let name = lowercase(trimmed(text));
    if name == "cpu"@ {
        Some(CudaVariant::Cpu)
    } else {
        match after_prefix(name, "cu"@) {
            Some(digits) => variant_of_digits(digits),
            None => None,
        }
    }
}

/// The CUDA version of a variant.
pub open spec fn variant_cuda(variant: CudaVariant) -> Option<(u16, u16)> {
    match variant {
        CudaVariant::Cpu => None,
        CudaVariant::Cuda { major, minor } => Some((major, minor)),
    }
}

/// Error returned for an invalid CUDA wheel index name.
#[derive(Debug, Clone, PartialEq, Eq)]
pub struct CudaVariantParseError(pub String);

impl CudaVariantParseError {
    /// The message of the error.
    pub fn to_string(&self) -> (text: String)
        ensures
            text@ == "invalid CUDA variant: "@ + self.0@,
    {
        crate::text::concat2("invalid CUDA variant: ", self.0.as_str())
    }
}

fn digits_of(chars: &Vec<char>, start: usize, end: usize, max: u64) -> (value: Option<u64>)
    requires
        start < end <= chars@.len(),
        all_digits(chars@.subrange(start as int, end as int)),
    ensures
        value matches Some(number) ==> number == decimal_value(
            chars@.subrange(start as int, end as int),
        ) && number <= max,
        value is None ==> decimal_value(chars@.subrange(start as int, end as int)) > max,
{
    let part = from_chars(chars, start, end);
    assert(digit(part@[0]));
    parse_unsigned(part.as_str(), max)
}

proof fn two_digits_are_small(digits: Seq<char>)
    requires
        0 < digits.len() <= 2,
        all_digits(digits),
    ensures
        decimal_value(digits) <= 99,
{
    reveal_with_fuel(decimal_value, 3);
    assert(digit(digits[0]));
    assert(digit(digits[digits.len() - 1]));
}

impl CudaVariant {
    /// Parses the name of a wheel index.
    pub fn parse(value: &str) -> (result: Result<CudaVariant, CudaVariantParseError>)
        ensures
            result matches Ok(variant) ==> parsed_variant(value@) == Some(variant),
            result matches Err(error) ==> parsed_variant(value@) is None && error.0@ == value@,
    {
        let bare = trim(value);
        let normalized = to_lowercase(bare.as_str());
        if same(normalized.as_str(), "cpu") {
            return Ok(CudaVariant::Cpu);
        }
        let digits = match strip_prefix(normalized.as_str(), "cu") {
            Some(digits) => digits,
            None => {
                return Err(CudaVariantParseError(value.to_owned()));
            },
        };
        let chars = to_chars(digits.as_str());
        if chars.len() < 2 {
            return Err(CudaVariantParseError(value.to_owned()));
        }
        let mut index: usize = 0;
        while index < chars.len()
            invariant
                chars@ == digits@,
                index <= chars@.len(),
                forall|k: int| 0 <= k < index ==> digit(#[trigger] digits@[k]),
                parsed_variant(value@) == variant_of_digits(digits@),
            decreases chars@.len() - index,
        {
            if !is_digit(chars[index]) {
                assert(!digit(digits@[index as int]));
                return Err(CudaVariantParseError(value.to_owned()));
            }
            index = index + 1;
        }
        let split: usize = if chars.len() >= 3 {
            2
        } else {
            1
        };
        assert(all_digits(digits@));
        assert(digits@.subrange(0, split as int) =~= digits@.take(split as int));
        assert(digits@.subrange(split as int, digits@.len() as int) =~= digits@.skip(split as int));
        proof {
            two_digits_are_small(digits@.take(split as int));
        }
        let major = match digits_of(&chars, 0, split, u16::MAX as u64) {
            Some(major) => major as u16,
            None => {
                return Err(CudaVariantParseError(value.to_owned()));
            },
        };
        match digits_of(&chars, split, chars.len(), u16::MAX as u64) {
            Some(minor) => Ok(CudaVariant::Cuda { major, minor: minor as u16 }),
            None => Err(CudaVariantParseError(value.to_owned())),
        }
    }

    /// The name of the variant's wheel index.
    pub fn to_string(&self) -> (text: String)
        ensures
            text@ == variant_text(*self),
    {
        match self {
            CudaVariant::Cpu => "cpu".to_owned(),
            CudaVariant::Cuda { major, minor } => concat3(
                "cu",
                decimal_text(*major as u64).as_str(),
                decimal_text(*minor as u64).as_str(),
            ),
        }
    }

    /// Returns the CUDA major/minor pair, or `None` for a CPU wheel.
    pub fn cuda_version(&self) -> (version: Option<(u16, u16)>)
        ensures
            version == variant_cuda(*self),
    {
        match self {
            CudaVariant::Cpu => None,
            CudaVariant::Cuda { major, minor } => Some((*major, *minor)),
        }
    }

    /// Returns whether this is a CUDA wheel.
    pub fn is_cuda(&self) -> (answer: bool)
        ensures
            answer == (*self is Cuda),
    {
        matches!(self, CudaVariant::Cuda { .. })
    }
}

impl FromStr for CudaVariant {
    type Err = CudaVariantParseError;

    fn from_str(value: &str) -> (result: Result<CudaVariant, CudaVariantParseError>)
        ensures
            result matches Ok(variant) ==> parsed_variant(value@) == Some(variant),
            result matches Err(error) ==> parsed_variant(value@) is None && error.0@ == value@,
    {
        CudaVariant::parse(value)
    }
}

proof fn plain_text_is_normal(text: Seq<char>)
    requires
        text.len() > 0,
        forall|i: int| 0 <= i < text.len() ==> (digit(#[trigger] text[i]) || 'a' <= text[i] <= 'z'),
    ensures
        lowercase(trimmed(text)) == text,
{
    assert(!whitespace(text[0]));
    assert(!whitespace(text.last()));
    assert(trimmed(text) == text);
    assert(lowercase(text) =~= text);
}

proof fn decimal_width(value: nat)
    ensures
        value < 10 ==> decimal(value).len() == 1,
        10 <= value < 100 ==> decimal(value).len() == 2,
{
    reveal_with_fuel(decimal, 3);
}

/// Reading the name of a variant gives the variant back, wherever its digits can be told
/// apart: a major version of two digits, or one digit each.
pub proof fn variant_round_trip(variant: CudaVariant)
    requires
        variant matches CudaVariant::Cuda { major, minor } ==> 10 <= major <= 99 || (major < 10
            && minor < 10),
    ensures
        parsed_variant(variant_text(variant)) == Some(variant),
{
    reveal_strlit("cpu");
    reveal_strlit("cu");
    let name = variant_text(variant);
    match variant {
        CudaVariant::Cpu => {
            plain_text_is_normal(name);
        },
        CudaVariant::Cuda { major, minor } => {
            decimal_round_trip(major as nat);
            decimal_round_trip(minor as nat);
            decimal_width(major as nat);
            decimal_width(minor as nat);
            let head = decimal(major as nat);
            let tail = decimal(minor as nat);
            variant_name_is_plain(variant);
            plain_text_is_normal(name);
            let digits = name.skip(2);
            assert(digits =~= head + tail);
            assert("cu"@.is_prefix_of(name));
            assert(digit(name[2]));
            assert(name != "cpu"@) by {
                assert(name[1] == 'u');
            }
            assert(all_digits(digits)) by {
                assert forall|i: int| 0 <= i < digits.len() implies digit(#[trigger] digits[i]) by {
                    if i < head.len() {
                        assert(digits[i] == head[i]);
                    } else {
                        assert(digits[i] == tail[i - head.len()]);
                    }
                }
            }
            assert(digits.take(head.len() as int) =~= head);
            assert(digits.skip(head.len() as int) =~= tail);
        },
    }
}

/// The name of a variant is read in any case and with white space around it.
pub proof fn variant_is_read_in_any_case(
    variant: CudaVariant,
    before: Seq<char>,
    name: Seq<char>,
    after: Seq<char>,
)
    requires
        variant matches CudaVariant::Cuda { major, minor } ==> 10 <= major <= 99 || (major < 10
            && minor < 10),
        lowercase(name) == variant_text(variant),
        forall|i: int| 0 <= i < before.len() ==> whitespace(#[trigger] before[i]),
        forall|i: int| 0 <= i < after.len() ==> whitespace(#[trigger] after[i]),
    ensures
        parsed_variant(before + name + after) == Some(variant),
{
    let plain = variant_text(variant);
    variant_round_trip(variant);
    variant_name_is_plain(variant);
    assert(plain.len() == name.len());
    assert(plain[0] == lower(name[0]));
    assert(plain[plain.len() - 1] == lower(name[name.len() - 1]));
    trimming_removes_what_is_around(before, name, after);
    plain_text_is_normal(plain);
}

proof fn variant_name_is_plain(variant: CudaVariant)
    ensures
        variant_text(variant).len() > 0,
        forall|i: int|
            0 <= i < variant_text(variant).len() ==> (digit(#[trigger] variant_text(variant)[i])
                || 'a' <= variant_text(variant)[i] <= 'z'),
{
    reveal_strlit("cpu");
    reveal_strlit("cu");
    if let CudaVariant::Cuda { major, minor } = variant {
        let name = variant_text(variant);
        let head = decimal(major as nat);
        let tail = decimal(minor as nat);
        decimal_round_trip(major as nat);
        decimal_round_trip(minor as nat);
        assert forall|i: int| 0 <= i < name.len() implies (digit(#[trigger] name[i]) || 'a'
            <= name[i] <= 'z') by {
            if 2 <= i < 2 + head.len() {
                assert(name[i] == head[i - 2]);
            } else if i >= 2 + head.len() {
                assert(name[i] == tail[i - 2 - head.len()]);
            }
        }
    }
}

// ---------------------------------------------------------------------------
// Host

/// A file system path: its text, and whether that text is exact. A path that is not valid
/// UTF-8 holds the text with replacement characters.
#[derive(Debug, PartialEq, Eq)]
pub struct FilePath {
    /// The path as text.
    pub text: String,
    /// Whether the path is valid UTF-8, so that `text` is the path itself.
    pub utf8: bool,
}

/// The model of [`FilePath`].
#[verifier::ext_equal]
pub struct FilePathView {
    pub text: Seq<char>,
    pub utf8: bool,
}

impl DeepView for FilePath {
    type V = FilePathView;

    open spec fn deep_view(&self) -> FilePathView {
        FilePathView { text: self.text@, utf8: self.utf8 }
    }
}

impl Clone for FilePath {
    fn clone(&self) -> (copy: FilePath)
        ensures
            copy.deep_view() == self.deep_view(),
    {
        FilePath { text: self.text.clone(), utf8: self.utf8 }
    }
}

/// The path that `text` writes.
pub open spec fn path_of(text: Seq<char>) -> FilePathView {
    FilePathView { text, utf8: true }
}

/// The path of `name` within a directory.
pub open spec fn path_within(directory: FilePathView, name: Seq<char>) -> FilePathView {
    FilePathView {
        text: if directory.text.len() == 0 || directory.text.last() == '/' {
            directory.text + name
        } else {
            directory.text + "/"@ + name
        },
        utf8: directory.utf8,
    }
}

impl FilePath {
    /// The path that `text` writes.
    pub fn new(text: &str) -> (path: FilePath)
        ensures
            path.deep_view() == path_of(text@),
    {
        FilePath { text: text.to_owned(), utf8: true }
    }

    /// The path of `name`, which is not absolute, within this directory.
    pub fn join(&self, name: &str) -> (path: FilePath)
        ensures
            path.deep_view() == path_within(self.deep_view(), name@),
    {
        let chars = to_chars(self.text.as_str());
        let text = if chars.len() == 0 || chars[chars.len() - 1] == '/' {
            concat2(self.text.as_str(), name)
        } else {
            concat3(self.text.as_str(), "/", name)
        };
        FilePath { text, utf8: self.utf8 }
    }
}

/// Operating-system family detected for the target interpreter.
#[derive(Debug, PartialEq, Eq)]
pub enum OperatingSystem {
    /// Linux.
    Linux,
    /// Windows.
    Windows,
    /// macOS.
    Macos,
    /// An OS outside the currently supported matrix.
    Other(String),
}

/// The model of [`OperatingSystem`].
#[verifier::ext_equal]
pub enum OperatingSystemView {
    Linux,
    Windows,
    Macos,
    Other(Seq<char>),
}

impl DeepView for OperatingSystem {
    type V = OperatingSystemView;

    open spec fn deep_view(&self) -> OperatingSystemView {
        match self {
            OperatingSystem::Linux => OperatingSystemView::Linux,
            OperatingSystem::Windows => OperatingSystemView::Windows,
            OperatingSystem::Macos => OperatingSystemView::Macos,
            OperatingSystem::Other(name) => OperatingSystemView::Other(name@),
        }
    }
}

/// The name of an operating system.
pub open spec fn os_text(os: OperatingSystemView) -> Seq<char> {
    match os {
        OperatingSystemView::Linux => "linux"@,
        OperatingSystemView::Windows => "windows"@,
        OperatingSystemView::Macos => "macos"@,
        OperatingSystemView::Other(name) => name,
    }
}

/// The operating system of a name.
pub open spec fn os_named(name: Seq<char>) -> OperatingSystemView {
    if name == "linux"@ {
        OperatingSystemView::Linux
    } else if name == "windows"@ {
        OperatingSystemView::Windows
    } else if name == "macos"@ {
        OperatingSystemView::Macos
    } else {
        OperatingSystemView::Other(name)
    }
}

impl OperatingSystem {
    /// The name of the operating system.
    pub fn to_string(&self) -> (text: String)
        ensures
            text@ == os_text(self.deep_view()),
    {
        match self {
            OperatingSystem::Linux => "linux".to_owned(),
            OperatingSystem::Windows => "windows".to_owned(),
            OperatingSystem::Macos => "macos".to_owned(),
            OperatingSystem::Other(name) => name.clone(),
        }
    }

    /// The operating system of a name.
    pub fn from_name(name: &str) -> (os: OperatingSystem)
        ensures
            os.deep_view() == os_named(name@),
    {
        if same(name, "linux") {
            OperatingSystem::Linux
        } else if same(name, "windows") {
            OperatingSystem::Windows
        } else if same(name, "macos") {
            OperatingSystem::Macos
        } else {
            OperatingSystem::Other(name.to_owned())
        }
    }
}

impl Clone for OperatingSystem {
    fn clone(&self) -> (copy: OperatingSystem)
        ensures
            copy.deep_view() == self.deep_view(),
    {
        match self {
            OperatingSystem::Linux => OperatingSystem::Linux,
            OperatingSystem::Windows => OperatingSystem::Windows,
            OperatingSystem::Macos => OperatingSystem::Macos,
            OperatingSystem::Other(name) => OperatingSystem::Other(name.clone()),
        }
    }
}

/// CPU architecture detected on the host.
#[derive(Debug, PartialEq, Eq)]
pub enum Architecture {
    /// AMD/Intel 64-bit architecture.
    X86_64,
    /// 64-bit Arm architecture.
    Aarch64,
    /// An architecture outside the currently supported matrix.
    Other(String),
}

/// The model of [`Architecture`].
#[verifier::ext_equal]
pub enum ArchitectureView {
    X86_64,
    Aarch64,
    Other(Seq<char>),
}

impl DeepView for Architecture {
    type V = ArchitectureView;

    open spec fn deep_view(&self) -> ArchitectureView {
        match self {
            Architecture::X86_64 => ArchitectureView::X86_64,
            Architecture::Aarch64 => ArchitectureView::Aarch64,
            Architecture::Other(name) => ArchitectureView::Other(name@),
        }
    }
}

/// The name of an architecture.
pub open spec fn architecture_text(architecture: ArchitectureView) -> Seq<char> {
    match architecture {
        ArchitectureView::X86_64 => "x86_64"@,
        ArchitectureView::Aarch64 => "aarch64"@,
        ArchitectureView::Other(name) => name,
    }
}

/// The architecture of a name, under either of the names in use.
pub open spec fn architecture_named(name: Seq<char>) -> ArchitectureView {
    if name == "x86_64"@ || name == "amd64"@ {
        ArchitectureView::X86_64
    } else if name == "aarch64"@ || name == "arm64"@ {
        ArchitectureView::Aarch64
    } else {
        ArchitectureView::Other(name)
    }
}

impl Architecture {
    /// The name of the architecture.
    pub fn to_string(&self) -> (text: String)
        ensures
            text@ == architecture_text(self.deep_view()),
    {
        match self {
            Architecture::X86_64 => "x86_64".to_owned(),
            Architecture::Aarch64 => "aarch64".to_owned(),
            Architecture::Other(name) => name.clone(),
        }
    }

    /// The architecture of a name.
    pub fn from_name(name: &str) -> (architecture: Architecture)
        ensures
            architecture.deep_view() == architecture_named(name@),
    {
        if same(name, "x86_64") || same(name, "amd64") {
            Architecture::X86_64
        } else if same(name, "aarch64") || same(name, "arm64") {
            Architecture::Aarch64
        } else {
            Architecture::Other(name.to_owned())
        }
    }
}

impl Clone for Architecture {
    fn clone(&self) -> (copy: Architecture)
        ensures
            copy.deep_view() == self.deep_view(),
    {
        match self {
            Architecture::X86_64 => Architecture::X86_64,
            Architecture::Aarch64 => Architecture::Aarch64,
            Architecture::Other(name) => Architecture::Other(name.clone()),
        }
    }
}

/// GPU compute capability.
#[derive(Debug, Clone, Copy, PartialEq, Eq, PartialOrd, Ord, Hash, Structural)]
pub struct ComputeCapability {
    /// Compute-capability major number.
    pub major: u16,
    /// Compute-capability minor number.
    pub minor: u16,
}

impl DeepView for ComputeCapability {
    type V = ComputeCapability;

    open spec fn deep_view(&self) -> ComputeCapability {
        *self
    }
}

/// The text of a compute capability.
pub open spec fn capability_text(capability: ComputeCapability) -> Seq<char> {
    decimal(capability.major as nat) + "."@ + decimal(capability.minor as nat)
}

/// The compute capability that `text` writes: the first two components of a numeric version.
pub open spec fn parsed_capability(text: Seq<char>) -> Result<
    ComputeCapability,
    VersionParseErrorView,
> {
    match parsed_version(text) {
        Err(error) => Err(error),
        Ok(version) => {
            let major = component_at(version.components, 0);
            let minor = component_at(version.components, 1);
            if major > u16::MAX || minor > u16::MAX {
                Err(VersionParseErrorView::Overflow(text))
            } else {
                Ok(ComputeCapability { major: major as u16, minor: minor as u16 })
            }
        },
    }
}

/// Whether `left` is not below `right`.
pub open spec fn capability_at_least(left: ComputeCapability, right: ComputeCapability) -> bool {
    left.major > right.major || (left.major == right.major && left.minor >= right.minor)
}

/// Reading the text of a compute capability gives the capability back.
pub proof fn capability_round_trip(capability: ComputeCapability)
    ensures
        parsed_capability(capability_text(capability)) == Ok::<
            ComputeCapability,
            VersionParseErrorView,
        >(capability),
{
    let components = seq![capability.major as u32, capability.minor as u32];
    let texts = component_texts(components);
    version_round_trip(components);
    assert(texts.drop_last() =~= seq![decimal(capability.major as nat)]);
    assert(join(texts.drop_last(), "."@) == decimal(capability.major as nat));
    assert(join(texts, "."@) == capability_text(capability));
}

impl ComputeCapability {
    /// Parses a compute capability.
    pub fn parse(value: &str) -> (result: Result<ComputeCapability, VersionParseError>)
        ensures
            outcome(result) == parsed_capability(value@),
    {
        match NumericVersion::parse(value) {
            Err(error) => Err(error),
            Ok(version) => {
                let major: u32 = version.component(0);
                let minor: u32 = version.component(1);
                if major > 65535 || minor > 65535 {
                    Err(VersionParseError::Overflow(value.to_owned()))
                } else {
                    Ok(ComputeCapability { major: major as u16, minor: minor as u16 })
                }
            },
        }
    }

    /// The text of the capability.
    pub fn to_string(&self) -> (text: String)
        ensures
            text@ == capability_text(*self),
    {
        concat3(
            decimal_text(self.major as u64).as_str(),
            ".",
            decimal_text(self.minor as u64).as_str(),
        )
    }

    /// Whether the capability is not below `minimum`.
    pub fn at_least(&self, minimum: &ComputeCapability) -> (answer: bool)
        ensures
            answer == capability_at_least(*self, *minimum),
    {
        self.major > minimum.major || (self.major == minimum.major && self.minor >= minimum.minor)
    }
}

impl FromStr for ComputeCapability {
    type Err = VersionParseError;

    fn from_str(value: &str) -> (result: Result<ComputeCapability, VersionParseError>)
        ensures
            outcome(result) == parsed_capability(value@),
    {
        ComputeCapability::parse(value)
    }
}

/// Host platform details.
#[derive(Debug, PartialEq, Eq)]
pub struct PlatformInfo {
    /// OS family.
    pub os: OperatingSystem,
    /// CPU architecture.
    pub architecture: Architecture,
    /// Kernel release, when available.
    pub kernel_version: Option<String>,
    /// Human-readable Linux distribution name, when available.
    pub distribution: Option<String>,
}

/// The model of [`PlatformInfo`].
#[verifier::ext_equal]
pub struct PlatformInfoView {
    pub os: OperatingSystemView,
    pub architecture: ArchitectureView,
    pub kernel_version: Option<Seq<char>>,
    pub distribution: Option<Seq<char>>,
}

impl DeepView for PlatformInfo {
    type V = PlatformInfoView;

    open spec fn deep_view(&self) -> PlatformInfoView {
        PlatformInfoView {
            os: self.os.deep_view(),
            architecture: self.architecture.deep_view(),
            kernel_version: self.kernel_version.deep_view(),
            distribution: self.distribution.deep_view(),
        }
    }
}

impl Clone for PlatformInfo {
    fn clone(&self) -> (copy: PlatformInfo)
        ensures
            copy.deep_view() == self.deep_view(),
    {
        PlatformInfo {
            os: self.os.clone(),
            architecture: self.architecture.clone(),
            kernel_version: clone_optional(&self.kernel_version),
            distribution: clone_optional(&self.distribution),
        }
    }
}

/// How compatible tags were obtained for a Python interpreter.
#[derive(Debug, Clone, Copy, PartialEq, Eq, Structural)]
pub enum TagSource {
    /// Supplied by a library caller from `packaging.tags.sys_tags()`.
    /// 
    /// The built-in detector deliberately does not import site packages in its isolated probe.
    Packaging,
    /// Produced by the dependency-free built-in tag implementation.
    Builtin,
}

/// Properties of the selected Python interpreter.
#[derive(Debug, PartialEq, Eq)]
pub struct PythonInfo {
    /// Exact executable used for probes and generated commands.
    pub executable: FilePath,
    /// Python implementation name, normalized to lowercase.
    pub implementation: String,
    /// Interpreter version.
    pub version: NumericVersion,
    /// `SOABI`, if supplied by the interpreter.
    pub soabi: Option<String>,
    /// `sys.implementation.cache_tag`.
    pub cache_tag: Option<String>,
    /// `sysconfig.get_platform()`.
    pub platform: String,
    /// Pointer width in bits.
    pub pointer_width: u16,
    /// Whether this is a free-threaded CPython build.
    pub free_threaded: bool,
    /// Active virtual-environment prefix, if any.
    pub virtual_environment: Option<FilePath>,
    /// Compatible PEP 425 tag triples, in interpreter preference order.
    pub compatible_tags: Vec<String>,
    /// Source used for `compatible_tags`.
    pub tag_source: TagSource,
}

/// The model of [`PythonInfo`].
#[verifier::ext_equal]
pub struct PythonInfoView {
    pub executable: FilePathView,
    pub implementation: Seq<char>,
    pub version: NumericVersionView,
    pub soabi: Option<Seq<char>>,
    pub cache_tag: Option<Seq<char>>,
    pub platform: Seq<char>,
    pub pointer_width: u16,
    pub free_threaded: bool,
    pub virtual_environment: Option<FilePathView>,
    pub compatible_tags: Seq<Seq<char>>,
    pub tag_source: TagSource,
}

impl DeepView for PythonInfo {
    type V = PythonInfoView;

    open spec fn deep_view(&self) -> PythonInfoView {
        PythonInfoView {
            executable: self.executable.deep_view(),
            implementation: self.implementation@,
            version: self.version.deep_view(),
            soabi: self.soabi.deep_view(),
            cache_tag: self.cache_tag.deep_view(),
            platform: self.platform@,
            pointer_width: self.pointer_width,
            free_threaded: self.free_threaded,
            virtual_environment: self.virtual_environment.deep_view(),
            compatible_tags: self.compatible_tags.deep_view(),
            tag_source: self.tag_source,
        }
    }
}

impl Clone for PythonInfo {
    fn clone(&self) -> (copy: PythonInfo)
        ensures
            copy.deep_view() == self.deep_view(),
    {
        let virtual_environment = match &self.virtual_environment {
            Some(value) => Some(value.clone()),
            None => None,
        };
        PythonInfo {
            executable: self.executable.clone(),
            implementation: self.implementation.clone(),
            version: self.version.clone(),
            soabi: clone_optional(&self.soabi),
            cache_tag: clone_optional(&self.cache_tag),
            platform: self.platform.clone(),
            pointer_width: self.pointer_width,
            free_threaded: self.free_threaded,
            virtual_environment,
            compatible_tags: clone_texts(&self.compatible_tags),
            tag_source: self.tag_source,
        }
    }
}

/// The native CPython ABI tag of an interpreter, such as `cp313` or `cp313t`.
pub open spec fn abi_tag(python: PythonInfoView) -> Option<Seq<char>> {
    if python.implementation == "cpython"@ {
        Some(
            "cp"@ + decimal(component_at(python.version.components, 0) as nat) + decimal(
                component_at(python.version.components, 1) as nat,
            ) + (if python.free_threaded {
                "t"@
            } else {
                ""@
            }),
        )
    } else {
        None
    }
}

impl PythonInfo {
    /// Returns the native CPython ABI tag, such as `cp313` or `cp313t`.
    pub fn cpython_abi_tag(&self) -> (tag: Option<String>)
        ensures
            tag.deep_view() == abi_tag(self.deep_view()),
    {
        if !same(self.implementation.as_str(), "cpython") {
            return None;
        }
        let suffix = if self.free_threaded {
            "t"
        } else {
            ""
        };
        Some(
            concat4(
                "cp",
                decimal_text(self.version.component(0) as u64).as_str(),
                decimal_text(self.version.component(1) as u64).as_str(),
                suffix,
            ),
        )
    }
}

/// A GPU returned by `nvidia-smi`.
#[derive(Debug, PartialEq, Eq)]
pub struct NvidiaGpu {
    /// Physical index reported by NVIDIA.
    pub index: u32,
    /// NVIDIA UUID, when available.
    pub uuid: Option<String>,
    /// Product name.
    pub name: String,
    /// Compute capability, if the installed query interface exposes it.
    pub compute_capability: Option<ComputeCapability>,
    /// Driver version reported for the device.
    pub driver_version: NumericVersion,
}

/// The model of [`NvidiaGpu`].
#[verifier::ext_equal]
pub struct NvidiaGpuView {
    pub index: u32,
    pub uuid: Option<Seq<char>>,
    pub name: Seq<char>,
    pub compute_capability: Option<ComputeCapability>,
    pub driver_version: NumericVersionView,
}

impl DeepView for NvidiaGpu {
    type V = NvidiaGpuView;

    open spec fn deep_view(&self) -> NvidiaGpuView {
        NvidiaGpuView {
            index: self.index,
            uuid: self.uuid.deep_view(),
            name: self.name@,
            compute_capability: self.compute_capability,
            driver_version: self.driver_version.deep_view(),
        }
    }
}

impl Clone for NvidiaGpu {
    fn clone(&self) -> (copy: NvidiaGpu)
        ensures
            copy.deep_view() == self.deep_view(),
    {
        NvidiaGpu {
            index: self.index,
            uuid: clone_optional(&self.uuid),
            name: self.name.clone(),
            compute_capability: self.compute_capability,
            driver_version: self.driver_version.clone(),
        }
    }
}

/// Result of trying to inspect the NVIDIA stack.
#[derive(Debug, Clone, Copy, PartialEq, Eq, Structural)]
pub enum NvidiaDetectionStatus {
    /// At least one device was queried successfully.
    Detected,
    /// `nvidia-smi` was not found.
    CommandUnavailable,
    /// NVIDIA explicitly reported that there were no devices.
    NoDevices,
    /// The command was present but inspection failed.
    Failed,
    /// Inspection exceeded its timeout.
    TimedOut,
}

/// NVIDIA driver and device information.
#[derive(Debug, PartialEq, Eq)]
pub struct NvidiaInfo {
    /// Detection outcome.
    pub status: NvidiaDetectionStatus,
    /// Lowest driver version across selected devices.
    pub driver_version: Option<NumericVersion>,
    /// The informational `CUDA Version` field shown by `nvidia-smi`.
    pub reported_cuda_version: Option<NumericVersion>,
    /// Selected devices.
    pub gpus: Vec<NvidiaGpu>,
}

/// The model of [`NvidiaInfo`].
#[verifier::ext_equal]
pub struct NvidiaInfoView {
    pub status: NvidiaDetectionStatus,
    pub driver_version: Option<NumericVersionView>,
    pub reported_cuda_version: Option<NumericVersionView>,
    pub gpus: Seq<NvidiaGpuView>,
}

impl DeepView for NvidiaInfo {
    type V = NvidiaInfoView;

    open spec fn deep_view(&self) -> NvidiaInfoView {
        NvidiaInfoView {
            status: self.status,
            driver_version: self.driver_version.deep_view(),
            reported_cuda_version: self.reported_cuda_version.deep_view(),
            gpus: self.gpus.deep_view(),
        }
    }
}

impl Clone for NvidiaInfo {
    fn clone(&self) -> (copy: NvidiaInfo)
        ensures
            copy.deep_view() == self.deep_view(),
    {
        let driver_version = match &self.driver_version {
            Some(value) => Some(value.clone()),
            None => None,
        };
        let reported_cuda_version = match &self.reported_cuda_version {
            Some(value) => Some(value.clone()),
            None => None,
        };
        let gpus = self.gpus.clone();
        assert(gpus.deep_view() =~= self.gpus.deep_view());
        NvidiaInfo {
            status: self.status,
            driver_version,
            reported_cuda_version,
            gpus,
        }
    }
}

/// Where a local CUDA Toolkit version was obtained.
#[derive(Debug, Clone, Copy, PartialEq, Eq, Structural)]
pub enum ToolkitSource {
    /// `CUDA_HOME`.
    CudaHome,
    /// `CUDA_PATH`.
    CudaPath,
    /// An `nvcc` found through `PATH`.
    Nvcc,
    /// A CUDA `version.json` file.
    VersionJson,
}

/// Optional local CUDA Toolkit installation.
#[derive(Debug, PartialEq, Eq)]
pub struct CudaToolkitInfo {
    /// Toolkit version.
    pub version: NumericVersion,
    /// Toolkit root, when known.
    pub root: Option<FilePath>,
    /// Detection source.
    pub source: ToolkitSource,
}

/// The model of [`CudaToolkitInfo`].
#[verifier::ext_equal]
pub struct CudaToolkitInfoView {
    pub version: NumericVersionView,
    pub root: Option<FilePathView>,
    pub source: ToolkitSource,
}

impl DeepView for CudaToolkitInfo {
    type V = CudaToolkitInfoView;

    open spec fn deep_view(&self) -> CudaToolkitInfoView {
        CudaToolkitInfoView {
            version: self.version.deep_view(),
            root: self.root.deep_view(),
            source: self.source,
        }
    }
}

impl Clone for CudaToolkitInfo {
    fn clone(&self) -> (copy: CudaToolkitInfo)
        ensures
            copy.deep_view() == self.deep_view(),
    {
        let root = match &self.root {
            Some(value) => Some(value.clone()),
            None => None,
        };
        CudaToolkitInfo {
            version: self.version.clone(),
            root,
            source: self.source,
        }
    }
}

/// Stable diagnostic code emitted during environment detection.
#[derive(Debug, Clone, Copy, PartialEq, Eq, Structural)]
pub enum DiagnosticCode {
    /// Host OS is outside the supported resolution target.
    UnsupportedOperatingSystem,
    /// Host architecture is outside the supported resolution target.
    UnsupportedArchitecture,
    /// Host C library is known to be unsupported by the available wheel policy.
    UnsupportedLibc,
    /// The C library could not be identified.
    GlibcUnknown,
    /// No Python interpreter could be selected.
    PythonUnavailable,
    /// The selected Python is not CPython.
    UnsupportedPythonImplementation,
    /// Legacy code retained for schema compatibility with reports that treated built-in tags as a
    /// fallback.
    BuiltinPythonTags,
    /// `nvidia-smi` was unavailable.
    NvidiaSmiUnavailable,
    /// NVIDIA reported no devices.
    NvidiaNoDevices,
    /// NVIDIA inspection failed.
    NvidiaInspectionFailed,
    /// NVIDIA inspection timed out.
    NvidiaInspectionTimedOut,
    /// Compute capability was unavailable from an older query interface.
    ComputeCapabilityUnknown,
    /// Selected GPU indices were invalid.
    InvalidGpuSelection,
    /// CUDA visibility may differ from physical NVIDIA indices.
    CudaVisibleDevicesSet,
    /// Multiple driver versions were returned unexpectedly.
    InconsistentDriverVersions,
    /// Local CUDA Toolkit was not found; this is informational for wheels.
    CudaToolkitNotFound,
    /// The optional cuDNN information query failed after core verification passed.
    CudnnInspectionFailed,
}

/// Severity of an environment diagnostic.
#[derive(Debug, Clone, Copy, PartialEq, Eq, Structural)]
pub enum DiagnosticSeverity {
    /// Additional context only.
    Info,
    /// A condition that reduces confidence without proving incompatibility.
    Warning,
    /// An explicit unsupported or invalid condition.
    Error,
}

/// Structured diagnostic with stable parameters.
#[derive(Debug, PartialEq, Eq)]
pub struct Diagnostic {
    /// Stable code.
    pub code: DiagnosticCode,
    /// Severity.
    pub severity: DiagnosticSeverity,
    /// Machine-readable parameters.
    pub details: Details,
}

/// The model of [`Diagnostic`].
#[verifier::ext_equal]
pub struct DiagnosticView {
    pub code: DiagnosticCode,
    pub severity: DiagnosticSeverity,
    pub details: Seq<(Seq<char>, Seq<char>)>,
}

impl DeepView for Diagnostic {
    type V = DiagnosticView;

    open spec fn deep_view(&self) -> DiagnosticView {
        DiagnosticView {
            code: self.code,
            severity: self.severity,
            details: self.details.deep_view(),
        }
    }
}

impl Clone for Diagnostic {
    fn clone(&self) -> (copy: Diagnostic)
        ensures
            copy.deep_view() == self.deep_view(),
    {
        Diagnostic {
            code: self.code,
            severity: self.severity,
            details: self.details.clone(),
        }
    }
}

/// A diagnostic without details.
pub open spec fn plain_diagnostic(
    code: DiagnosticCode,
    severity: DiagnosticSeverity,
) -> DiagnosticView {
    DiagnosticView { code, severity, details: no_details() }
}

/// `diagnostic` with one more detail.
pub open spec fn noted(
    diagnostic: DiagnosticView,
    name: Seq<char>,
    value: Seq<char>,
) -> DiagnosticView {
    DiagnosticView { details: bind(diagnostic.details, name, value), ..diagnostic }
}

impl Diagnostic {
    /// A diagnostic without details.
    pub fn new(code: DiagnosticCode, severity: DiagnosticSeverity) -> (diagnostic: Diagnostic)
        ensures
            diagnostic.deep_view() == plain_diagnostic(code, severity),
    {
        Diagnostic { code, severity, details: Details::new() }
    }

    /// The diagnostic with one more detail.
    pub fn with_detail(self, name: &str, value: &str) -> (diagnostic: Diagnostic)
        ensures
            diagnostic.deep_view() == noted(self.deep_view(), name@, value@),
    {
        let mut details = self.details;
        details.insert(name.to_owned(), value.to_owned());
        Diagnostic { code: self.code, severity: self.severity, details }
    }
}

/// Complete environment snapshot.
#[derive(Debug, PartialEq, Eq)]
pub struct Environment {
    /// Platform details.
    pub platform: PlatformInfo,
    /// glibc version on GNU/Linux, when known.
    pub glibc: Option<NumericVersion>,
    /// Selected Python interpreter, when detected.
    pub python: Option<PythonInfo>,
    /// NVIDIA stack result.
    pub nvidia: NvidiaInfo,
    /// Local toolkit; not required to run official PyTorch CUDA wheels.
    pub cuda_toolkit: Option<CudaToolkitInfo>,
    /// Structured detection diagnostics.
    pub diagnostics: Vec<Diagnostic>,
}

/// The model of [`Environment`].
#[verifier::ext_equal]
pub struct EnvironmentView {
    pub platform: PlatformInfoView,
    pub glibc: Option<NumericVersionView>,
    pub python: Option<PythonInfoView>,
    pub nvidia: NvidiaInfoView,
    pub cuda_toolkit: Option<CudaToolkitInfoView>,
    pub diagnostics: Seq<DiagnosticView>,
}

impl DeepView for Environment {
    type V = EnvironmentView;

    open spec fn deep_view(&self) -> EnvironmentView {
        EnvironmentView {
            platform: self.platform.deep_view(),
            glibc: self.glibc.deep_view(),
            python: self.python.deep_view(),
            nvidia: self.nvidia.deep_view(),
            cuda_toolkit: self.cuda_toolkit.deep_view(),
            diagnostics: self.diagnostics.deep_view(),
        }
    }
}

impl Clone for Environment {
    fn clone(&self) -> (copy: Environment)
        ensures
            copy.deep_view() == self.deep_view(),
    {
        let glibc = match &self.glibc {
            Some(value) => Some(value.clone()),
            None => None,
        };
        let python = match &self.python {
            Some(value) => Some(value.clone()),
            None => None,
        };
        let cuda_toolkit = match &self.cuda_toolkit {
            Some(value) => Some(value.clone()),
            None => None,
        };
        let diagnostics = self.diagnostics.clone();
        assert(diagnostics.deep_view() =~= self.diagnostics.deep_view());
        Environment {
            platform: self.platform.clone(),
            glibc,
            python,
            nvidia: self.nvidia.clone(),
            cuda_toolkit,
            diagnostics,
        }
    }
}

/// One official wheel link normalized from the PyTorch package index.
#[derive(Debug, PartialEq, Eq)]
pub struct TorchWheel {
    /// Normalized package name (`torch`, `torchvision`, or `torchaudio`).
    pub package: String,
    /// Wheel filename after percent-decoding.
    pub filename: String,
    /// Full PEP 440 version, including any local CUDA label.
    pub version: String,
    /// Public PEP 440 version used in install commands.
    pub public_version: String,
    /// Index variant from which the wheel was obtained.
    pub variant: CudaVariant,
    /// Compressed Python tags expanded to individual values.
    pub python_tags: Vec<String>,
    /// Compressed ABI tags expanded to individual values.
    pub abi_tags: Vec<String>,
    /// Compressed platform tags expanded to individual values.
    pub platform_tags: Vec<String>,
    /// Official HTTPS wheel URL.
    pub url: String,
    /// SHA-256 from the URL fragment, when supplied.
    pub sha256: Option<String>,
    /// Whether the simple index marks this file as yanked.
    pub yanked: bool,
    /// Optional `data-requires-python` value.
    pub requires_python: Option<String>,
}

/// The model of [`TorchWheel`].
#[verifier::ext_equal]
pub struct TorchWheelView {
    pub package: Seq<char>,
    pub filename: Seq<char>,
    pub version: Seq<char>,
    pub public_version: Seq<char>,
    pub variant: CudaVariant,
    pub python_tags: Seq<Seq<char>>,
    pub abi_tags: Seq<Seq<char>>,
    pub platform_tags: Seq<Seq<char>>,
    pub url: Seq<char>,
    pub sha256: Option<Seq<char>>,
    pub yanked: bool,
    pub requires_python: Option<Seq<char>>,
}

impl DeepView for TorchWheel {
    type V = TorchWheelView;

    open spec fn deep_view(&self) -> TorchWheelView {
        TorchWheelView {
            package: self.package@,
            filename: self.filename@,
            version: self.version@,
            public_version: self.public_version@,
            variant: self.variant,
            python_tags: self.python_tags.deep_view(),
            abi_tags: self.abi_tags.deep_view(),
            platform_tags: self.platform_tags.deep_view(),
            url: self.url@,
            sha256: self.sha256.deep_view(),
            yanked: self.yanked,
            requires_python: self.requires_python.deep_view(),
        }
    }
}

impl Clone for TorchWheel {
    fn clone(&self) -> (copy: TorchWheel)
        ensures
            copy.deep_view() == self.deep_view(),
    {
        TorchWheel {
            package: self.package.clone(),
            filename: self.filename.clone(),
            version: self.version.clone(),
            public_version: self.public_version.clone(),
            variant: self.variant,
            python_tags: clone_texts(&self.python_tags),
            abi_tags: clone_texts(&self.abi_tags),
            platform_tags: clone_texts(&self.platform_tags),
            url: self.url.clone(),
            sha256: clone_optional(&self.sha256),
            yanked: self.yanked,
            requires_python: clone_optional(&self.requires_python),
        }
    }
}

/// Complete, all-or-nothing metadata snapshot.
#[derive(Debug, PartialEq, Eq)]
pub struct IndexSnapshot {
    /// Cache schema version.
    pub schema_version: u32,
    /// UNIX timestamp at the start of the successful fetch.
    pub fetched_at: u64,
    /// Root source URL.
    pub source: String,
    /// Package indexes included in this complete snapshot.
    pub packages: Vec<String>,
    /// Variants fetched successfully.
    pub variants: Vec<CudaVariant>,
    /// Parsed official wheels.
    pub wheels: Vec<TorchWheel>,
}

/// The model of [`IndexSnapshot`].
#[verifier::ext_equal]
pub struct IndexSnapshotView {
    pub schema_version: u32,
    pub fetched_at: u64,
    pub source: Seq<char>,
    pub packages: Seq<Seq<char>>,
    pub variants: Seq<CudaVariant>,
    pub wheels: Seq<TorchWheelView>,
}

impl DeepView for IndexSnapshot {
    type V = IndexSnapshotView;

    open spec fn deep_view(&self) -> IndexSnapshotView {
        IndexSnapshotView {
            schema_version: self.schema_version,
            fetched_at: self.fetched_at,
            source: self.source@,
            packages: self.packages.deep_view(),
            variants: self.variants@,
            wheels: self.wheels.deep_view(),
        }
    }
}

impl Clone for IndexSnapshot {
    fn clone(&self) -> (copy: IndexSnapshot)
        ensures
            copy.deep_view() == self.deep_view(),
    {
        let variants = self.variants.clone();
        assert(variants@ =~= self.variants@);
        let wheels = self.wheels.clone();
        assert(wheels.deep_view() =~= self.wheels.deep_view());
        IndexSnapshot {
            schema_version: self.schema_version,
            fetched_at: self.fetched_at,
            source: self.source.clone(),
            packages: clone_texts(&self.packages),
            variants,
            wheels,
        }
    }
}

/// How metadata was obtained for a command invocation.
#[derive(Debug, Clone, Copy, PartialEq, Eq, Structural)]
pub enum MetadataOrigin {
    /// Downloaded during this invocation.
    Network,
    /// Loaded from a fresh cache entry.
    FreshCache,
    /// Loaded from stale cache in explicit offline mode.
    OfflineCache,
    /// Loaded from stale cache after a network error.
    StaleIfError,
}

/// Metadata provenance attached to resolver output.
#[derive(Debug, PartialEq, Eq)]
pub struct MetadataInfo {
    /// Origin used for this invocation.
    pub origin: MetadataOrigin,
    /// Fetch timestamp from the snapshot.
    pub fetched_at: u64,
    /// Age at resolution time.
    pub age_seconds: u64,
    /// Whether the age exceeds the configured TTL.
    pub stale: bool,
    /// Official root URL.
    pub source: String,
}

/// The model of [`MetadataInfo`].
#[verifier::ext_equal]
pub struct MetadataInfoView {
    pub origin: MetadataOrigin,
    pub fetched_at: u64,
    pub age_seconds: u64,
    pub stale: bool,
    pub source: Seq<char>,
}

impl DeepView for MetadataInfo {
    type V = MetadataInfoView;

    open spec fn deep_view(&self) -> MetadataInfoView {
        MetadataInfoView {
            origin: self.origin,
            fetched_at: self.fetched_at,
            age_seconds: self.age_seconds,
            stale: self.stale,
            source: self.source@,
        }
    }
}

impl Clone for MetadataInfo {
    fn clone(&self) -> (copy: MetadataInfo)
        ensures
            copy.deep_view() == self.deep_view(),
    {
        MetadataInfo {
            origin: self.origin,
            fetched_at: self.fetched_at,
            age_seconds: self.age_seconds,
            stale: self.stale,
            source: self.source.clone(),
        }
    }
}

/// A single compatibility dimension.
#[derive(Debug, Clone, Copy, PartialEq, Eq, Structural)]
pub enum CheckStatus {
    /// The dimension is satisfied.
    Pass,
    /// The dimension proves the candidate cannot be used.
    Fail,
    /// There is not enough trustworthy information.
    Unknown,
    /// The dimension does not apply, for example GPU coverage on CPU wheels.
    NotApplicable,
}

/// Stable reason code used by JSON output and human rendering.
#[derive(Debug, Clone, Copy, PartialEq, Eq, Structural)]
pub enum ReasonCode {
    /// The exact official wheel exists.
    WheelExists,
    /// No wheel exists for the requested version/variant.
    WheelMissing,
    /// Matching files exist, but none supports the selected Python tag.
    PythonWheelMissing,
    /// Python tag matched.
    PythonTagMatches,
    /// ABI tag matched.
    AbiTagMatches,
    /// The wheel is yanked and is excluded from recommendations.
    WheelYanked,
    /// Platform tag matched.
    PlatformTagMatches,
    /// Platform tag is incompatible.
    PlatformMismatch,
    /// glibc is below a manylinux floor.
    GlibcTooOld,
    /// glibc could not be checked.
    GlibcUnknown,
    /// CUDA family minimum driver is met.
    DriverSupportsCudaFamily,
    /// Normal driver minimum for the exact CUDA release is met.
    DriverSupportsCudaVariant,
    /// Candidate relies on CUDA minor-version compatibility.
    UsesCudaMinorCompatibility,
    /// Driver is below the CUDA-family minimum.
    DriverTooOld,
    /// NVIDIA driver information is unavailable.
    DriverUnknown,
    /// CPU wheel does not need an NVIDIA driver.
    DriverNotRequired,
    /// GPU architecture coverage is explicitly known.
    GpuArchitectureSupported,
    /// At least one selected GPU is explicitly unsupported.
    GpuArchitectureUnsupported,
    /// Static wheel GPU coverage is not trustworthy for this pair.
    GpuArchitectureUnknown,
    /// No NVIDIA device was found for a CUDA candidate.
    NvidiaGpuUnavailable,
    /// User-supplied version constraint matched.
    VersionConstraintMatches,
    /// User-supplied version constraint did not match.
    VersionConstraintMismatch,
    /// Stable release preferred.
    StableRelease,
    /// Pre-release is not selected by default.
    Prerelease,
    /// This configuration is listed by the official PyTorch release matrix.
    OfficialReleaseConfiguration,
    /// The wheel exists in the index but is absent from the reviewed release matrix.
    NotOfficialReleaseConfiguration,
    /// No release-matrix preference was available.
    OfficialPreferenceUnknown,
    /// Dynamic verification passed in this invocation.
    RuntimeVerified,
    /// Dynamic verification was not run.
    RuntimeNotRun,
    /// Dynamic verification failed.
    RuntimeVerificationFailed,
}

/// Stable warning code for a candidate.
#[derive(Debug, Clone, Copy, PartialEq, Eq, Structural)]
pub enum WarningCode {
    /// PTX JIT or newer driver-dependent features may still fail.
    PtxOrNewDriverFeatureMayFail,
    /// Static GPU architecture coverage is unknown.
    GpuArchitectureUnknown,
    /// Metadata is older than the configured TTL.
    StaleMetadata,
    /// The NVIDIA query interface was unavailable or failed.
    NvidiaDetectionIncomplete,
    /// Legacy code retained for schema compatibility with candidates that treated built-in tags as
    /// a fallback.
    BuiltinPythonTags,
    /// Official release preference is not known for this pair.
    OfficialPreferenceUnknown,
    /// The indexed wheel is not part of the reviewed official release configuration.
    NotOfficialReleaseConfiguration,
}

/// A structured reason or warning parameter map.
#[derive(Debug, PartialEq, Eq)]
pub struct DecisionReason {
    /// Stable code.
    pub code: ReasonCode,
    /// Machine-readable parameters.
    pub details: Details,
}

/// The model of [`DecisionReason`].
#[verifier::ext_equal]
pub struct DecisionReasonView {
    pub code: ReasonCode,
    pub details: Seq<(Seq<char>, Seq<char>)>,
}

impl DeepView for DecisionReason {
    type V = DecisionReasonView;

    open spec fn deep_view(&self) -> DecisionReasonView {
        DecisionReasonView {
            code: self.code,
            details: self.details.deep_view(),
        }
    }
}

impl Clone for DecisionReason {
    fn clone(&self) -> (copy: DecisionReason)
        ensures
            copy.deep_view() == self.deep_view(),
    {
        DecisionReason {
            code: self.code,
            details: self.details.clone(),
        }
    }
}

/// A reason without parameters.
pub open spec fn plain_reason(code: ReasonCode) -> DecisionReasonView {
    DecisionReasonView { code, details: no_details() }
}

/// `reason` with one more parameter.
pub open spec fn detailed(
    reason: DecisionReasonView,
    name: Seq<char>,
    value: Seq<char>,
) -> DecisionReasonView {
    DecisionReasonView { code: reason.code, details: bind(reason.details, name, value) }
}

impl DecisionReason {
    /// Creates a reason without parameters.
    pub fn new(code: ReasonCode) -> (reason: DecisionReason)
        ensures
            reason.deep_view() == plain_reason(code),
    {
        DecisionReason { code, details: Details::new() }
    }

    /// Adds one parameter.
    pub fn with_detail(self, name: &str, value: &str) -> (reason: DecisionReason)
        ensures
            reason.deep_view() == detailed(self.deep_view(), name@, value@),
    {
        let mut details = self.details;
        details.insert(name.to_owned(), value.to_owned());
        DecisionReason { code: self.code, details }
    }
}

/// Candidate warning with stable parameters.
#[derive(Debug, PartialEq, Eq)]
pub struct CandidateWarning {
    /// Stable code.
    pub code: WarningCode,
    /// Machine-readable parameters.
    pub details: Details,
}

/// The model of [`CandidateWarning`].
#[verifier::ext_equal]
pub struct CandidateWarningView {
    pub code: WarningCode,
    pub details: Seq<(Seq<char>, Seq<char>)>,
}

impl DeepView for CandidateWarning {
    type V = CandidateWarningView;

    open spec fn deep_view(&self) -> CandidateWarningView {
        CandidateWarningView {
            code: self.code,
            details: self.details.deep_view(),
        }
    }
}

impl Clone for CandidateWarning {
    fn clone(&self) -> (copy: CandidateWarning)
        ensures
            copy.deep_view() == self.deep_view(),
    {
        CandidateWarning {
            code: self.code,
            details: self.details.clone(),
        }
    }
}

/// A warning without parameters.
pub open spec fn plain_warning(code: WarningCode) -> CandidateWarningView {
    CandidateWarningView { code, details: no_details() }
}

impl CandidateWarning {
    /// Creates a warning without parameters.
    pub fn new(code: WarningCode) -> (warning: CandidateWarning)
        ensures
            warning.deep_view() == plain_warning(code),
    {
        CandidateWarning { code, details: Details::new() }
    }
}

/// Result for one orthogonal compatibility dimension.
#[derive(Debug, PartialEq, Eq)]
pub struct CompatibilityCheck {
    /// Pass/fail/unknown/not-applicable status.
    pub status: CheckStatus,
    /// Ordered reasons for this dimension.
    pub reasons: Vec<DecisionReason>,
}

/// The model of [`CompatibilityCheck`].
#[verifier::ext_equal]
pub struct CompatibilityCheckView {
    pub status: CheckStatus,
    pub reasons: Seq<DecisionReasonView>,
}

impl DeepView for CompatibilityCheck {
    type V = CompatibilityCheckView;

    open spec fn deep_view(&self) -> CompatibilityCheckView {
        CompatibilityCheckView {
            status: self.status,
            reasons: self.reasons.deep_view(),
        }
    }
}

impl Clone for CompatibilityCheck {
    fn clone(&self) -> (copy: CompatibilityCheck)
        ensures
            copy.deep_view() == self.deep_view(),
    {
        let reasons = self.reasons.clone();
        assert(reasons.deep_view() =~= self.reasons.deep_view());
        CompatibilityCheck {
            status: self.status,
            reasons,
        }
    }
}

/// A check result.
pub open spec fn check_of(
    status: CheckStatus,
    reasons: Seq<DecisionReasonView>,
) -> CompatibilityCheckView {
    CompatibilityCheckView { status, reasons }
}

impl CompatibilityCheck {
    /// Creates a check result.
    pub fn new(status: CheckStatus, reasons: Vec<DecisionReason>) -> (check: CompatibilityCheck)
        ensures
            check.deep_view() == check_of(status, reasons.deep_view()),
            check.status == status,
            check.reasons == reasons,
    {
        CompatibilityCheck { status, reasons }
    }

    /// Creates a check result with one reason.
    pub fn because(status: CheckStatus, reason: DecisionReason) -> (check: CompatibilityCheck)
        ensures
            check.deep_view() == check_of(status, seq![reason.deep_view()]),
    {
        let mut reasons: Vec<DecisionReason> = Vec::new();
        reasons.push(reason);
        assert(reasons.deep_view() =~= seq![reason.deep_view()]);
        CompatibilityCheck { status, reasons }
    }
}

/// Orthogonal checks retained for every candidate.
#[derive(Debug, PartialEq, Eq)]
pub struct CompatibilityChecks {
    /// Official wheel existence.
    pub wheel: CompatibilityCheck,
    /// Python and ABI tags.
    pub python: CompatibilityCheck,
    /// OS, architecture, and libc tags.
    pub platform: CompatibilityCheck,
    /// Static GPU architecture coverage.
    pub gpu_architecture: CompatibilityCheck,
    /// NVIDIA driver compatibility.
    pub driver: CompatibilityCheck,
    /// Dynamic verification; normally not run during static resolution.
    pub runtime: CompatibilityCheck,
}

/// The model of [`CompatibilityChecks`].
#[verifier::ext_equal]
pub struct CompatibilityChecksView {
    pub wheel: CompatibilityCheckView,
    pub python: CompatibilityCheckView,
    pub platform: CompatibilityCheckView,
    pub gpu_architecture: CompatibilityCheckView,
    pub driver: CompatibilityCheckView,
    pub runtime: CompatibilityCheckView,
}

impl DeepView for CompatibilityChecks {
    type V = CompatibilityChecksView;

    open spec fn deep_view(&self) -> CompatibilityChecksView {
        CompatibilityChecksView {
            wheel: self.wheel.deep_view(),
            python: self.python.deep_view(),
            platform: self.platform.deep_view(),
            gpu_architecture: self.gpu_architecture.deep_view(),
            driver: self.driver.deep_view(),
            runtime: self.runtime.deep_view(),
        }
    }
}

impl Clone for CompatibilityChecks {
    fn clone(&self) -> (copy: CompatibilityChecks)
        ensures
            copy.deep_view() == self.deep_view(),
    {
        CompatibilityChecks {
            wheel: self.wheel.clone(),
            python: self.python.clone(),
            platform: self.platform.clone(),
            gpu_architecture: self.gpu_architecture.clone(),
            driver: self.driver.clone(),
            runtime: self.runtime.clone(),
        }
    }
}

/// User-facing aggregate candidate state derived from orthogonal checks.
#[derive(Debug, Clone, Copy, PartialEq, Eq, Structural)]
pub enum CompatibilityStatus {
    /// Dynamic validation succeeded for this exact environment.
    Verified,
    /// All static checks pass with the normal exact-variant driver minimum.
    DirectCompatible,
    /// All static checks pass using CUDA minor-version compatibility.
    MinorCompatible,
    /// Nothing disproves compatibility, but at least one dimension is unknown.
    Unverified,
    /// A known environment constraint fails.
    Incompatible,
    /// No official wheel exists for the requested version/variant/Python ABI.
    Unavailable,
}

/// A resolved PyTorch configuration.
#[derive(Debug, PartialEq, Eq)]
pub struct Candidate {
    /// Public PyTorch version.
    pub torch_version: String,
    /// CUDA or CPU wheel index.
    pub variant: CudaVariant,
    /// Aggregate state.
    pub compatibility: CompatibilityStatus,
    /// Orthogonal evidence.
    pub checks: CompatibilityChecks,
    /// The best exact wheel for the selected interpreter, when present.
    pub wheel: Option<TorchWheel>,
    /// Whether this is a stable PEP 440 release.
    pub stable: bool,
    /// Rank in the maintained official release configuration, if known.
    pub official_preference: Option<u16>,
    /// Ordered warnings.
    pub warnings: Vec<CandidateWarning>,
}

/// The model of [`Candidate`].
#[verifier::ext_equal]
pub struct CandidateView {
    pub torch_version: Seq<char>,
    pub variant: CudaVariant,
    pub compatibility: CompatibilityStatus,
    pub checks: CompatibilityChecksView,
    pub wheel: Option<TorchWheelView>,
    pub stable: bool,
    pub official_preference: Option<u16>,
    pub warnings: Seq<CandidateWarningView>,
}

impl DeepView for Candidate {
    type V = CandidateView;

    open spec fn deep_view(&self) -> CandidateView {
        CandidateView {
            torch_version: self.torch_version@,
            variant: self.variant,
            compatibility: self.compatibility,
            checks: self.checks.deep_view(),
            wheel: self.wheel.deep_view(),
            stable: self.stable,
            official_preference: self.official_preference,
            warnings: self.warnings.deep_view(),
        }
    }
}

impl Clone for Candidate {
    fn clone(&self) -> (copy: Candidate)
        ensures
            copy.deep_view() == self.deep_view(),
    {
        let wheel = match &self.wheel {
            Some(value) => Some(value.clone()),
            None => None,
        };
        let warnings = self.warnings.clone();
        assert(warnings.deep_view() =~= self.warnings.deep_view());
        Candidate {
            torch_version: self.torch_version.clone(),
            variant: self.variant,
            compatibility: self.compatibility,
            checks: self.checks.clone(),
            wheel,
            stable: self.stable,
            official_preference: self.official_preference,
            warnings,
        }
    }
}

/// An executable command represented without shell evaluation.
#[derive(Debug, PartialEq, Eq)]
pub struct CommandSpec {
    /// Executable name/path.
    pub program: String,
    /// Exact argument vector.
    pub args: Vec<String>,
    /// POSIX-shell display rendering for humans.
    pub display: String,
}

/// The model of [`CommandSpec`].
#[verifier::ext_equal]
pub struct CommandSpecView {
    pub program: Seq<char>,
    pub args: Seq<Seq<char>>,
    pub display: Seq<char>,
}

impl DeepView for CommandSpec {
    type V = CommandSpecView;

    open spec fn deep_view(&self) -> CommandSpecView {
        CommandSpecView {
            program: self.program@,
            args: self.args.deep_view(),
            display: self.display@,
        }
    }
}

impl Clone for CommandSpec {
    fn clone(&self) -> (copy: CommandSpec)
        ensures
            copy.deep_view() == self.deep_view(),
    {
        CommandSpec {
            program: self.program.clone(),
            args: clone_texts(&self.args),
            display: self.display.clone(),
        }
    }
}

/// Installer mode selected by the user.
#[derive(Debug, Clone, Copy, PartialEq, Eq, Structural)]
pub enum Installer {
    /// `<python> -m pip install`, or `pip install` only for a caller-proven active target.
    Pip,
    /// `uv pip install`, with `--python <python>` unless the active target is proven.
    Uv,
    /// `uv add --index ...` for a project dependency, normally with `--python <python>`.
    UvAdd,
}

/// Recommendation and alternatives produced from one complete snapshot.
#[derive(Debug, PartialEq, Eq)]
pub struct RecommendationReport {
    /// Output schema version.
    pub schema_version: u32,
    /// Environment used for resolution.
    pub environment: Environment,
    /// Metadata provenance.
    pub metadata: MetadataInfo,
    /// Highest-ranked usable candidate, if any.
    pub recommendation: Option<Candidate>,
    /// Remaining usable candidates.
    pub alternatives: Vec<Candidate>,
    /// Incompatible or unavailable candidates requested for explanation.
    pub excluded: Vec<Candidate>,
    /// Install command for the recommendation.
    pub install: Option<CommandSpec>,
}

/// The model of [`RecommendationReport`].
#[verifier::ext_equal]
pub struct RecommendationReportView {
    pub schema_version: u32,
    pub environment: EnvironmentView,
    pub metadata: MetadataInfoView,
    pub recommendation: Option<CandidateView>,
    pub alternatives: Seq<CandidateView>,
    pub excluded: Seq<CandidateView>,
    pub install: Option<CommandSpecView>,
}

impl DeepView for RecommendationReport {
    type V = RecommendationReportView;

    open spec fn deep_view(&self) -> RecommendationReportView {
        RecommendationReportView {
            schema_version: self.schema_version,
            environment: self.environment.deep_view(),
            metadata: self.metadata.deep_view(),
            recommendation: self.recommendation.deep_view(),
            alternatives: self.alternatives.deep_view(),
            excluded: self.excluded.deep_view(),
            install: self.install.deep_view(),
        }
    }
}

impl Clone for RecommendationReport {
    fn clone(&self) -> (copy: RecommendationReport)
        ensures
            copy.deep_view() == self.deep_view(),
    {
        let recommendation = match &self.recommendation {
            Some(value) => Some(value.clone()),
            None => None,
        };
        let alternatives = self.alternatives.clone();
        assert(alternatives.deep_view() =~= self.alternatives.deep_view());
        let excluded = self.excluded.clone();
        assert(excluded.deep_view() =~= self.excluded.deep_view());
        let install = match &self.install {
            Some(value) => Some(value.clone()),
            None => None,
        };
        RecommendationReport {
            schema_version: self.schema_version,
            environment: self.environment.clone(),
            metadata: self.metadata.clone(),
            recommendation,
            alternatives,
            excluded,
            install,
        }
    }
}

/// `candidates` JSON envelope.
#[derive(Debug, PartialEq, Eq)]
pub struct CandidatesReport {
    /// Output schema version.
    pub schema_version: u32,
    /// Environment used for resolution.
    pub environment: Environment,
    /// Metadata provenance.
    pub metadata: MetadataInfo,
    /// Ordered candidates selected for display.
    pub candidates: Vec<Candidate>,
}

/// The model of [`CandidatesReport`].
#[verifier::ext_equal]
pub struct CandidatesReportView {
    pub schema_version: u32,
    pub environment: EnvironmentView,
    pub metadata: MetadataInfoView,
    pub candidates: Seq<CandidateView>,
}

impl DeepView for CandidatesReport {
    type V = CandidatesReportView;

    open spec fn deep_view(&self) -> CandidatesReportView {
        CandidatesReportView {
            schema_version: self.schema_version,
            environment: self.environment.deep_view(),
            metadata: self.metadata.deep_view(),
            candidates: self.candidates.deep_view(),
        }
    }
}

impl Clone for CandidatesReport {
    fn clone(&self) -> (copy: CandidatesReport)
        ensures
            copy.deep_view() == self.deep_view(),
    {
        let candidates = self.candidates.clone();
        assert(candidates.deep_view() =~= self.candidates.deep_view());
        CandidatesReport {
            schema_version: self.schema_version,
            environment: self.environment.clone(),
            metadata: self.metadata.clone(),
            candidates,
        }
    }
}

/// `explain` JSON envelope.
#[derive(Debug, PartialEq, Eq)]
pub struct ExplainReport {
    /// Output schema version.
    pub schema_version: u32,
    /// Environment used for resolution.
    pub environment: Environment,
    /// Metadata provenance.
    pub metadata: MetadataInfo,
    /// Exact requested candidate and all orthogonal checks.
    pub candidate: Candidate,
}

/// The model of [`ExplainReport`].
#[verifier::ext_equal]
pub struct ExplainReportView {
    pub schema_version: u32,
    pub environment: EnvironmentView,
    pub metadata: MetadataInfoView,
    pub candidate: CandidateView,
}

impl DeepView for ExplainReport {
    type V = ExplainReportView;

    open spec fn deep_view(&self) -> ExplainReportView {
        ExplainReportView {
            schema_version: self.schema_version,
            environment: self.environment.deep_view(),
            metadata: self.metadata.deep_view(),
            candidate: self.candidate.deep_view(),
        }
    }
}

impl Clone for ExplainReport {
    fn clone(&self) -> (copy: ExplainReport)
        ensures
            copy.deep_view() == self.deep_view(),
    {
        ExplainReport {
            schema_version: self.schema_version,
            environment: self.environment.clone(),
            metadata: self.metadata.clone(),
            candidate: self.candidate.clone(),
        }
    }
}

/// `inspect` JSON envelope.
#[derive(Debug, PartialEq, Eq)]
pub struct InspectReport {
    /// Output schema version.
    pub schema_version: u32,
    /// Environment snapshot.
    pub environment: Environment,
}

/// The model of [`InspectReport`].
#[verifier::ext_equal]
pub struct InspectReportView {
    pub schema_version: u32,
    pub environment: EnvironmentView,
}

impl DeepView for InspectReport {
    type V = InspectReportView;

    open spec fn deep_view(&self) -> InspectReportView {
        InspectReportView {
            schema_version: self.schema_version,
            environment: self.environment.deep_view(),
        }
    }
}

impl Clone for InspectReport {
    fn clone(&self) -> (copy: InspectReport)
        ensures
            copy.deep_view() == self.deep_view(),
    {
        InspectReport {
            schema_version: self.schema_version,
            environment: self.environment.clone(),
        }
    }
}

/// Stable top-level error category for machine-readable failures.
#[derive(Debug, Clone, Copy, PartialEq, Eq, Structural)]
pub enum ErrorKind {
    /// Invalid command input that was not rejected directly by the argument parser.
    Usage,
    /// Environment detection could not complete.
    Detection,
    /// Network or cached metadata was unavailable.
    Metadata,
    /// Compatibility resolution failed.
    Resolution,
    /// Runtime verification failed before it could produce a normal report.
    Verification,
    /// Unexpected internal failure.
    Internal,
}

/// Machine-readable error body.
#[derive(Debug, PartialEq, Eq)]
pub struct ErrorBody {
    /// Stable category.
    pub kind: ErrorKind,
    /// Stable, lower-snake-case error code.
    pub code: String,
    /// Human-readable context. Consumers should branch on `kind` and `code`.
    pub message: String,
}

/// The model of [`ErrorBody`].
#[verifier::ext_equal]
pub struct ErrorBodyView {
    pub kind: ErrorKind,
    pub code: Seq<char>,
    pub message: Seq<char>,
}

impl DeepView for ErrorBody {
    type V = ErrorBodyView;

    open spec fn deep_view(&self) -> ErrorBodyView {
        ErrorBodyView {
            kind: self.kind,
            code: self.code@,
            message: self.message@,
        }
    }
}

impl Clone for ErrorBody {
    fn clone(&self) -> (copy: ErrorBody)
        ensures
            copy.deep_view() == self.deep_view(),
    {
        ErrorBody {
            kind: self.kind,
            code: self.code.clone(),
            message: self.message.clone(),
        }
    }
}

/// JSON error envelope used by every subcommand.
#[derive(Debug, PartialEq, Eq)]
pub struct ErrorReport {
    /// Output schema version.
    pub schema_version: u32,
    /// Structured error.
    pub error: ErrorBody,
}

/// The model of [`ErrorReport`].
#[verifier::ext_equal]
pub struct ErrorReportView {
    pub schema_version: u32,
    pub error: ErrorBodyView,
}

impl DeepView for ErrorReport {
    type V = ErrorReportView;

    open spec fn deep_view(&self) -> ErrorReportView {
        ErrorReportView {
            schema_version: self.schema_version,
            error: self.error.deep_view(),
        }
    }
}

impl Clone for ErrorReport {
    fn clone(&self) -> (copy: ErrorReport)
        ensures
            copy.deep_view() == self.deep_view(),
    {
        ErrorReport {
            schema_version: self.schema_version,
            error: self.error.clone(),
        }
    }
}

/// One runtime validation step.
#[derive(Debug, PartialEq, Eq)]
pub struct VerificationCheck {
    /// Stable step name.
    pub name: String,
    /// Whether the step passed.
    pub passed: bool,
    /// Optional non-sensitive detail.
    pub detail: Option<String>,
}

/// The model of [`VerificationCheck`].
#[verifier::ext_equal]
pub struct VerificationCheckView {
    pub name: Seq<char>,
    pub passed: bool,
    pub detail: Option<Seq<char>>,
}

impl DeepView for VerificationCheck {
    type V = VerificationCheckView;

    open spec fn deep_view(&self) -> VerificationCheckView {
        VerificationCheckView {
            name: self.name@,
            passed: self.passed,
            detail: self.detail.deep_view(),
        }
    }
}

impl Clone for VerificationCheck {
    fn clone(&self) -> (copy: VerificationCheck)
        ensures
            copy.deep_view() == self.deep_view(),
    {
        VerificationCheck {
            name: self.name.clone(),
            passed: self.passed,
            detail: clone_optional(&self.detail),
        }
    }
}

/// One device exercised by the verification subprocess.
#[derive(Debug, PartialEq, Eq)]
pub struct VerifiedDevice {
    /// Logical PyTorch device index.
    pub index: u32,
    /// Device name.
    pub name: String,
    /// Device capability.
    pub capability: ComputeCapability,
    /// Whether allocation, elementwise, matmul, and synchronization passed.
    pub operations_ok: bool,
}

/// The model of [`VerifiedDevice`].
#[verifier::ext_equal]
pub struct VerifiedDeviceView {
    pub index: u32,
    pub name: Seq<char>,
    pub capability: ComputeCapability,
    pub operations_ok: bool,
}

impl DeepView for VerifiedDevice {
    type V = VerifiedDeviceView;

    open spec fn deep_view(&self) -> VerifiedDeviceView {
        VerifiedDeviceView {
            index: self.index,
            name: self.name@,
            capability: self.capability,
            operations_ok: self.operations_ok,
        }
    }
}

impl Clone for VerifiedDevice {
    fn clone(&self) -> (copy: VerifiedDevice)
        ensures
            copy.deep_view() == self.deep_view(),
    {
        VerifiedDevice {
            index: self.index,
            name: self.name.clone(),
            capability: self.capability,
            operations_ok: self.operations_ok,
        }
    }
}

/// Mapping applied when a physical `nvidia-smi` selection is pinned for verification.
#[derive(Debug, PartialEq, Eq)]
pub struct VerificationGpuMapping {
    /// Physical index reported by `nvidia-smi`.
    pub physical_index: u32,
    /// Logical CUDA index after UUID-based visibility narrowing.
    pub logical_index: u32,
    /// Full NVIDIA GPU UUID, omitted by `--redact`.
    pub uuid: Option<String>,
}

/// The model of [`VerificationGpuMapping`].
#[verifier::ext_equal]
pub struct VerificationGpuMappingView {
    pub physical_index: u32,
    pub logical_index: u32,
    pub uuid: Option<Seq<char>>,
}

impl DeepView for VerificationGpuMapping {
    type V = VerificationGpuMappingView;

    open spec fn deep_view(&self) -> VerificationGpuMappingView {
        VerificationGpuMappingView {
            physical_index: self.physical_index,
            logical_index: self.logical_index,
            uuid: self.uuid.deep_view(),
        }
    }
}

impl Clone for VerificationGpuMapping {
    fn clone(&self) -> (copy: VerificationGpuMapping)
        ensures
            copy.deep_view() == self.deep_view(),
    {
        VerificationGpuMapping {
            physical_index: self.physical_index,
            logical_index: self.logical_index,
            uuid: clone_optional(&self.uuid),
        }
    }
}

/// Dynamic validation result tied to an exact interpreter and device set.
#[derive(Debug, PartialEq, Eq)]
pub struct VerificationReport {
    /// Output schema version.
    pub schema_version: u32,
    /// Selected interpreter.
    pub python_executable: FilePath,
    /// Aggregate runtime result.
    pub status: CompatibilityStatus,
    /// Imported PyTorch version.
    pub torch_version: Option<String>,
    /// CUDA version compiled into PyTorch.
    pub compiled_cuda: Option<String>,
    /// `torch.cuda.is_available()`.
    pub cuda_available: Option<bool>,
    /// Logical CUDA device count reported by PyTorch.
    pub device_count: Option<u32>,
    /// Device architecture list compiled into PyTorch.
    pub arch_list: Vec<String>,
    /// Devices actually exercised.
    pub devices: Vec<VerifiedDevice>,
    /// Physical-to-logical mapping used for an explicit `--gpu` selection.
    pub gpu_selection: Vec<VerificationGpuMapping>,
    /// cuDNN availability, treated as informational.
    pub cudnn_available: Option<bool>,
    /// Ordered validation steps.
    pub checks: Vec<VerificationCheck>,
    /// Non-fatal environment and runtime diagnostics relevant to this verification.
    pub diagnostics: Vec<Diagnostic>,
    /// Failure detail suitable for diagnostics, if validation failed.
    pub error: Option<String>,
}

/// The model of [`VerificationReport`].
#[verifier::ext_equal]
pub struct VerificationReportView {
    pub schema_version: u32,
    pub python_executable: FilePathView,
    pub status: CompatibilityStatus,
    pub torch_version: Option<Seq<char>>,
    pub compiled_cuda: Option<Seq<char>>,
    pub cuda_available: Option<bool>,
    pub device_count: Option<u32>,
    pub arch_list: Seq<Seq<char>>,
    pub devices: Seq<VerifiedDeviceView>,
    pub gpu_selection: Seq<VerificationGpuMappingView>,
    pub cudnn_available: Option<bool>,
    pub checks: Seq<VerificationCheckView>,
    pub diagnostics: Seq<DiagnosticView>,
    pub error: Option<Seq<char>>,
}

impl DeepView for VerificationReport {
    type V = VerificationReportView;

    open spec fn deep_view(&self) -> VerificationReportView {
        VerificationReportView {
            schema_version: self.schema_version,
            python_executable: self.python_executable.deep_view(),
            status: self.status,
            torch_version: self.torch_version.deep_view(),
            compiled_cuda: self.compiled_cuda.deep_view(),
            cuda_available: self.cuda_available,
            device_count: self.device_count,
            arch_list: self.arch_list.deep_view(),
            devices: self.devices.deep_view(),
            gpu_selection: self.gpu_selection.deep_view(),
            cudnn_available: self.cudnn_available,
            checks: self.checks.deep_view(),
            diagnostics: self.diagnostics.deep_view(),
            error: self.error.deep_view(),
        }
    }
}

impl Clone for VerificationReport {
    fn clone(&self) -> (copy: VerificationReport)
        ensures
            copy.deep_view() == self.deep_view(),
    {
        let devices = self.devices.clone();
        assert(devices.deep_view() =~= self.devices.deep_view());
        let gpu_selection = self.gpu_selection.clone();
        assert(gpu_selection.deep_view() =~= self.gpu_selection.deep_view());
        let checks = self.checks.clone();
        assert(checks.deep_view() =~= self.checks.deep_view());
        let diagnostics = self.diagnostics.clone();
        assert(diagnostics.deep_view() =~= self.diagnostics.deep_view());
        VerificationReport {
            schema_version: self.schema_version,
            python_executable: self.python_executable.clone(),
            status: self.status,
            torch_version: clone_optional(&self.torch_version),
            compiled_cuda: clone_optional(&self.compiled_cuda),
            cuda_available: self.cuda_available,
            device_count: self.device_count,
            arch_list: clone_texts(&self.arch_list),
            devices,
            gpu_selection,
            cudnn_available: self.cudnn_available,
            checks,
            diagnostics,
            error: clone_optional(&self.error),
        }
    }
}

/// Documented process exit codes.
#[derive(Debug, Clone, Copy, PartialEq, Eq, Structural)]
pub enum ExitCode {
    /// Successful result with no warnings.
    Success,
    /// Successful result with diagnostic warnings.
    Warning,
    /// Incompatible environment or failed runtime verification.
    Incompatible,
    /// Required metadata could not be obtained.
    MetadataFailure,
    /// Unexpected internal error.
    InternalError,
}

/// The integer process status of an exit code.
pub open spec fn exit_number(code: ExitCode) -> int {
    match code {
        ExitCode::Success => 0,
        ExitCode::Warning => 1,
        ExitCode::Incompatible => 2,
        ExitCode::MetadataFailure => 3,
        ExitCode::InternalError => 4,
    }
}

impl ExitCode {
    /// Returns the integer process status.
    pub fn as_i32(self) -> (number: i32)
        ensures
            number == exit_number(self),
    {
        match self {
            ExitCode::Success => 0,
            ExitCode::Warning => 1,
            ExitCode::Incompatible => 2,
            ExitCode::MetadataFailure => 3,
            ExitCode::InternalError => 4,
        }
    }
}

} // verus!
