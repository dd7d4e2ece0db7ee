//! The host: operating system release, C library and program loader.

use crate::command::{
    combined, combined_output, CapturedOutput, CapturedOutputView, CommandError, CommandErrorView,
};
use crate::details::{bind, lookup, no_details, Details};
use crate::model::{architecture_named, Architecture};
use crate::outside::{
    capture_each, capture_first, decode_strict, pattern_capture, pattern_captures,
};
use crate::pieces::{
    after_prefix, before_suffix, contains, lines, occurs, split_first, split_lines, split_once,
    starts_with, strip_prefix, strip_suffix, trim, trimmed,
};
use crate::text::{concat3, digit, is_digit, lowercase, outcome, same, to_chars, to_lowercase};
use crate::version::{parsed_version, NumericVersion, NumericVersionView};
use vstd::prelude::*;
use vstd::utf8::{decode_utf8, valid_utf8};

verus! {

/// The architecture of a name, whatever its case.
pub fn normalize_architecture(value: &str) -> (architecture: Architecture)
    ensures
        architecture.deep_view() == architecture_named(lowercase(value@)),
{
    Architecture::from_name(to_lowercase(value).as_str())
}

/// `text` without surrounding white space, unless nothing is left.
pub open spec fn nonempty(text: Seq<char>) -> Option<Seq<char>> {
    if trimmed(text).len() == 0 {
        None
    } else {
        Some(trimmed(text))
    }
}

/// Removes surrounding white space; `None` where nothing is left.
pub fn nonempty_trimmed(value: &str) -> (result: Option<String>)
    ensures
        result.deep_view() == nonempty(value@),
{
    let text = trim(value);
    if text.as_str().is_empty() {
        None
    } else {
        Some(text)
    }
}

// ---------------------------------------------------------------------------
// Release description

/// Whether a backslash before `character` is dropped between double quotes.
pub open spec fn escapable(character: char) -> bool {
    character == '"' || character == '\\' || character == '$' || character == '`'
}

/// What stands between double quotes, with its escapes resolved.
pub open spec fn unescaped(text: Seq<char>) -> Seq<char>
    decreases text.len(),
{
    if text.len() == 0 {
        Seq::empty()
    } else if text[0] != '\\' {
        seq![text[0]] + unescaped(text.skip(1))
    } else if text.len() == 1 {
        seq!['\\']
    } else if escapable(text[1]) {
        seq![text[1]] + unescaped(text.skip(2))
    } else {
        seq!['\\', text[1]] + unescaped(text.skip(2))
    }
}

/// Resolves the escapes of a text that stood between double quotes.
fn unescape(text: &str) -> (decoded: String)
    ensures
        decoded@ == unescaped(text@),
{
    let chars = to_chars(text);
    let total: usize = chars.len();
    let mut decoded = String::new();
    let mut index: usize = 0;
    assert(chars@.skip(0) =~= chars@);
    assert(Seq::<char>::empty() + unescaped(chars@) =~= unescaped(chars@));
    while index < total
        invariant
            index <= total == chars@.len(),
            chars@ == text@,
            decoded@ + unescaped(chars@.skip(index as int)) == unescaped(text@),
        decreases total - index,
    {
        let ghost rest = chars@.skip(index as int);
        let ghost earlier = decoded@;
        let character = chars[index];
        assert(rest[0] == character);
        if character != '\\' {
            decoded.push(character);
            assert(rest.skip(1) =~= chars@.skip(index + 1));
            assert(decoded@ + unescaped(rest.skip(1)) =~= earlier + unescaped(rest));
            index = index + 1;
        } else if index + 1 == total {
            decoded.push('\\');
            assert(chars@.skip(index + 1) =~= Seq::empty());
            assert(decoded@ + unescaped(chars@.skip(index + 1)) =~= earlier + unescaped(rest));
            index = index + 1;
        } else {
            let next = chars[index + 1];
            assert(rest[1] == next);
            if !(next == '"' || next == '\\' || next == '$' || next == '`') {
                decoded.push('\\');
            }
            decoded.push(next);
            assert(rest.skip(2) =~= chars@.skip(index + 2));
            assert(decoded@ + unescaped(rest.skip(2)) =~= earlier + unescaped(rest));
            index = index + 2;
        }
    }
    assert(chars@.skip(index as int) =~= Seq::empty());
    assert(decoded@ + Seq::<char>::empty() =~= decoded@);
    decoded
}

/// What stands between two of the same quotes.
pub open spec fn between(text: Seq<char>, quote: Seq<char>) -> Option<Seq<char>> {
    match after_prefix(text, quote) {
        None => None,
        Some(rest) => before_suffix(rest, quote),
    }
}

fn strip_quotes(text: &str, quote: &str) -> (inner: Option<String>)
    ensures
        inner.deep_view() == between(text@, quote@),
{
    match strip_prefix(text, quote) {
        None => None,
        Some(rest) => strip_suffix(rest.as_str(), quote),
    }
}

/// The value that the right-hand side of an assignment writes, without evaluating it: quoted,
/// or bare where no quote stands at either end.
pub open spec fn release_value(text: Seq<char>) -> Option<Seq<char>> {
    if let Some(inner) = between(text, "\""@) {
        Some(unescaped(inner))
    } else if let Some(inner) = between(text, "'"@) {
        Some(inner)
    } else if text.len() > 0 && (text[0] == '"' || text[0] == '\'' || text.last() == '"'
        || text.last() == '\'') {
        None
    } else {
        Some(text)
    }
}

/// Decodes the right-hand side of an assignment.
pub fn decode_os_release_value(value: &str) -> (decoded: Option<String>)
    ensures
        decoded.deep_view() == release_value(value@),
{
    if let Some(inner) = strip_quotes(value, "\"") {
        return Some(unescape(inner.as_str()));
    }
    if let Some(inner) = strip_quotes(value, "'") {
        return Some(inner);
    }
    let chars = to_chars(value);
    if chars.len() > 0 {
        let first = chars[0];
        let last = chars[chars.len() - 1];
        if first == '"' || first == '\'' || last == '"' || last == '\'' {
            return None;
        }
    }
    Some(value.to_owned())
}

/// Whether `key` can name a value of a release description.
pub open spec fn release_key(key: Seq<char>) -> bool {
    &&& key.len() > 0
    &&& forall|i: int| 0 <= i < key.len() ==> release_key_char(#[trigger] key[i])
}

/// The characters of the name of a value.
pub open spec fn release_key_char(character: char) -> bool {
    'A' <= character <= 'Z' || digit(character) || character == '_'
}

fn is_release_key(key: &str) -> (answer: bool)
    ensures
        answer == release_key(key@),
{
    let chars = to_chars(key);
    if chars.len() == 0 {
        return false;
    }
    let mut index: usize = 0;
    while index < chars.len()
        invariant
            index <= chars@.len(),
            chars@ == key@,
            forall|i: int| 0 <= i < index ==> release_key_char(#[trigger] key@[i]),
        decreases chars@.len() - index,
    {
        let character = chars[index];
        if !(('A' <= character && character <= 'Z') || is_digit(character) || character == '_') {
            assert(!release_key_char(key@[index as int]));
            return false;
        }
        index = index + 1;
    }
    true
}

/// What one line of a release description assigns; `None` where it assigns nothing.
pub open spec fn release_line(line: Seq<char>) -> Option<(Seq<char>, Seq<char>)> {
    let text = trimmed(line);
    if text.len() == 0 || text[0] == '#' {
        None
    } else {
        match split_first(text, '=') {
            None => None,
            Some((key, raw)) => if !release_key(key) {
                None
            } else {
                match release_value(trimmed(raw)) {
                    None => None,
                    Some(value) => Some((key, value)),
                }
            },
        }
    }
}

fn parse_release_line(line: &str) -> (assignment: Option<(String, String)>)
    ensures
        assignment.deep_view() == release_line(line@),
{
    let text = trim(line);
    let chars = to_chars(text.as_str());
    if chars.len() == 0 || chars[0] == '#' {
        return None;
    }
    match split_once(text.as_str(), '=') {
        None => None,
        Some((key, raw)) => {
            if !is_release_key(key.as_str()) {
                return None;
            }
            match decode_os_release_value(trim(raw.as_str()).as_str()) {
                None => None,
                Some(value) => Some((key, value)),
            }
        },
    }
}

/// The values that lines assign, each name bound by its last line.
pub open spec fn release_values(all: Seq<Seq<char>>) -> Seq<(Seq<char>, Seq<char>)>
    decreases all.len(),
{
    if all.len() == 0 {
        no_details()
    } else {
        let rest = release_values(all.drop_last());
        match release_line(all.last()) {
            None => rest,
            Some((key, value)) => bind(rest, key, value),
        }
    }
}

/// The name of a distribution, from the values of its release description: its pretty name, or
/// its name and, where there is one, its version.
pub open spec fn release_name(values: Seq<(Seq<char>, Seq<char>)>) -> Option<Seq<char>> {
    let pretty = lookup(values, "PRETTY_NAME"@);
    if pretty matches Some(text) && text.len() > 0 {
        pretty
    } else {
        match lookup(values, "NAME"@) {
            None => None,
            Some(name) => if trimmed(name).len() == 0 {
                None
            } else {
                match lookup(values, "VERSION_ID"@) {
                    Some(version) if trimmed(version).len() > 0 => Some(
                        trimmed(name) + " "@ + trimmed(version),
                    ),
                    _ => Some(trimmed(name)),
                }
            },
        }
    }
}

/// The name of the distribution that a release description describes.
pub fn parse_os_release(contents: &str) -> (name: Option<String>)
    ensures
        name.deep_view() == release_name(release_values(lines(contents@))),
{
    let all = split_lines(contents);
    let ghost texts = all.deep_view();
    let mut values = Details::new();
    let mut index: usize = 0;
    while index < all.len()
        invariant
            index <= all@.len(),
            texts == all.deep_view(),
            values.deep_view() == release_values(texts.take(index as int)),
        decreases all@.len() - index,
    {
        assert(texts.take(index + 1).drop_last() =~= texts.take(index as int));
        assert(texts.take(index + 1).last() == all@[index as int]@);
        if let Some((key, value)) = parse_release_line(all[index].as_str()) {
            values.insert(key, value);
        }
        index = index + 1;
    }
    assert(texts.take(index as int) =~= texts);
    if let Some(pretty) = values.get("PRETTY_NAME") {
        if !pretty.as_str().is_empty() {
            return Some(pretty.clone());
        }
    }
    match values.get("NAME") {
        None => None,
        Some(found) => {
            let name = trim(found.as_str());
            if name.as_str().is_empty() {
                return None;
            }
            if let Some(version) = values.get("VERSION_ID") {
                let version = trim(version.as_str());
                if !version.as_str().is_empty() {
                    return Some(concat3(name.as_str(), " ", version.as_str()));
                }
            }
            Some(name)
        },
    }
}

// ---------------------------------------------------------------------------
// Versions in free text

/// A dotted version that no digit precedes.
pub const VERSION_PATTERN: &'static str = "(?m)(?:^|[^0-9])([0-9]+(?:\\.[0-9]+)+)";

/// A dotted version at the beginning of a text.
pub const VERSION_PREFIX_PATTERN: &'static str = "^\\s*([0-9]+(?:\\.[0-9]+)+)";

/// The version that `text` writes.
pub open spec fn version_in(text: Option<Seq<char>>) -> Option<NumericVersionView> {
    match text {
        None => None,
        Some(found) => match parsed_version(found) {
            Ok(version) => Some(version),
            Err(_) => None,
        },
    }
}

/// The version that `candidate` writes.
pub fn captured_version(candidate: &Option<String>) -> (version: Option<NumericVersion>)
    ensures
        version.deep_view() == version_in(candidate.deep_view()),
{
    match candidate {
        None => None,
        Some(text) => match NumericVersion::parse(text.as_str()) {
            Ok(version) => Some(version),
            Err(_) => None,
        },
    }
}

/// The first of `candidates` that is a version.
pub open spec fn first_version(candidates: Seq<Option<Seq<char>>>) -> Option<NumericVersionView>
    decreases candidates.len(),
{
    if candidates.len() == 0 {
        None
    } else if version_in(candidates[0]) is Some {
        version_in(candidates[0])
    } else {
        first_version(candidates.skip(1))
    }
}

/// The first of `candidates` that is a version.
pub fn first_captured_version(candidates: &Vec<Option<String>>) -> (version: Option<
    NumericVersion,
>)
    ensures
        version.deep_view() == first_version(candidates.deep_view()),
{
    let ghost all = candidates.deep_view();
    let mut index: usize = 0;
    assert(all.skip(0) =~= all);
    while index < candidates.len()
        invariant
            index <= candidates@.len(),
            all == candidates.deep_view(),
            first_version(all) == first_version(all.skip(index as int)),
        decreases candidates@.len() - index,
    {
        assert(all.skip(index as int)[0] == candidates@[index as int].deep_view());
        assert(all.skip(index as int).skip(1) =~= all.skip(index + 1));
        let version = captured_version(&candidates[index]);
        if version.is_some() {
            return version;
        }
        index = index + 1;
    }
    None
}

/// The first dotted version in a text.
pub open spec fn first_numeric(text: Seq<char>) -> Option<NumericVersionView> {
    first_version(pattern_captures(VERSION_PATTERN@, text))
}

/// The first dotted version in `value`.
pub fn first_numeric_version(value: &str) -> (version: Option<NumericVersion>)
    ensures
        version.deep_view() == first_numeric(value@),
{
    let candidates = capture_each(VERSION_PATTERN, value);
    first_captured_version(&candidates)
}

/// The dotted version with which a text begins.
pub open spec fn numeric_prefix(text: Seq<char>) -> Option<NumericVersionView> {
    version_in(pattern_capture(VERSION_PREFIX_PATTERN@, text))
}

/// The dotted version with which `value` begins.
pub fn parse_numeric_version_prefix(value: &str) -> (version: Option<NumericVersion>)
    ensures
        version.deep_view() == numeric_prefix(value@),
{
    let candidate = capture_first(VERSION_PREFIX_PATTERN, value);
    captured_version(&candidate)
}

// ---------------------------------------------------------------------------
// C library

/// The C library of the host.
#[derive(Debug, PartialEq, Eq)]
pub enum LibcDetection {
    /// The GNU C library.
    Glibc(NumericVersion),
    /// musl, with its version where it is known.
    Musl(Option<NumericVersion>),
    /// Neither was recognized.
    Unknown,
}

/// The model of [`LibcDetection`].
pub enum LibcDetectionView {
    Glibc(NumericVersionView),
    Musl(Option<NumericVersionView>),
    Unknown,
}

impl DeepView for LibcDetection {
    type V = LibcDetectionView;

    open spec fn deep_view(&self) -> LibcDetectionView {
        match self {
            LibcDetection::Glibc(version) => LibcDetectionView::Glibc(version.deep_view()),
            LibcDetection::Musl(version) => LibcDetectionView::Musl(version.deep_view()),
            LibcDetection::Unknown => LibcDetectionView::Unknown,
        }
    }
}

/// The C library of which a text speaks, with `version` the first version in that text.
pub open spec fn libc_named(
    text: Seq<char>,
    version: Option<NumericVersionView>,
) -> LibcDetectionView {
    let name = lowercase(text);
    if occurs(name, "musl"@) {
        LibcDetectionView::Musl(version)
    } else if occurs(name, "glibc"@) || occurs(name, "gnu libc"@) || occurs(
        name,
        "gnu c library"@,
    ) {
        match version {
            Some(found) => LibcDetectionView::Glibc(found),
            None => LibcDetectionView::Unknown,
        }
    } else {
        LibcDetectionView::Unknown
    }
}

/// Recognizes the C library of which `output` speaks.
pub fn name_libc(output: &str, version: Option<NumericVersion>) -> (libc: LibcDetection)
    ensures
        libc.deep_view() == libc_named(output@, version.deep_view()),
{
    let name = to_lowercase(output);
    if contains(name.as_str(), "musl") {
        return LibcDetection::Musl(version);
    }
    if contains(name.as_str(), "glibc") || contains(name.as_str(), "gnu libc") || contains(
        name.as_str(),
        "gnu c library",
    ) {
        return match version {
            Some(found) => LibcDetection::Glibc(found),
            None => LibcDetection::Unknown,
        };
    }
    LibcDetection::Unknown
}

/// The C library that the version output of `ldd` or of a loader names.
pub open spec fn classified_libc(output: Seq<char>) -> LibcDetectionView {
    libc_named(output, first_numeric(output))
}

/// Recognizes the C library from the version output of `ldd` or of a loader.
pub fn classify_libc_output(output: &str) -> (libc: LibcDetection)
    ensures
        libc.deep_view() == classified_libc(output@),
{
    name_libc(output, first_numeric_version(output))
}

/// The version of the GNU C library that `output` names.
pub fn parse_glibc_output(output: &str) -> (version: Option<NumericVersion>)
    ensures
        version.deep_view() == (match classified_libc(output@) {
            LibcDetectionView::Glibc(found) => Some(found),
            _ => None,
        }),
{
    match classify_libc_output(output) {
        LibcDetection::Glibc(found) => Some(found),
        _ => None,
    }
}

/// What the library's own version function settles.
pub open spec fn libc_of_runtime(reported: Option<Seq<char>>) -> Option<LibcDetectionView> {
    match reported {
        None => None,
        Some(text) => match numeric_prefix(text) {
            None => None,
            Some(version) => Some(LibcDetectionView::Glibc(version)),
        },
    }
}

/// The C library, where its own version function already tells.
pub fn libc_from_runtime(reported: &Option<String>) -> (libc: Option<LibcDetection>)
    ensures
        libc.deep_view() == libc_of_runtime(reported.deep_view()),
{
    match reported {
        None => None,
        Some(text) => match parse_numeric_version_prefix(text.as_str()) {
            None => None,
            Some(version) => Some(LibcDetection::Glibc(version)),
        },
    }
}

/// What `ldd --version` settles; `None` where the search goes on.
pub open spec fn libc_of_ldd(output: CapturedOutputView) -> Option<LibcDetectionView> {
    match classified_libc(combined(output)) {
        LibcDetectionView::Unknown => None,
        libc => Some(libc),
    }
}

/// The C library, where `ldd --version` tells.
pub fn libc_from_ldd(output: &CapturedOutput) -> (libc: Option<LibcDetection>)
    ensures
        libc.deep_view() == libc_of_ldd(output.deep_view()),
{
    match classify_libc_output(combined_output(output).as_str()) {
        LibcDetection::Unknown => None,
        libc => Some(libc),
    }
}

/// What the loader of an executable says about the C library.
#[derive(Debug, PartialEq, Eq)]
pub enum LoaderVerdict {
    /// Nothing: the next executable is to be examined.
    Silent,
    /// The loader's name settles the library.
    Settled(LibcDetection),
    /// The loader at this path is to be asked for its version.
    Ask(String),
}

/// The model of [`LoaderVerdict`].
pub enum LoaderVerdictView {
    Silent,
    Settled(LibcDetectionView),
    Ask(Seq<char>),
}

impl DeepView for LoaderVerdict {
    type V = LoaderVerdictView;

    open spec fn deep_view(&self) -> LoaderVerdictView {
        match self {
            LoaderVerdict::Silent => LoaderVerdictView::Silent,
            LoaderVerdict::Settled(libc) => LoaderVerdictView::Settled(libc.deep_view()),
            LoaderVerdict::Ask(path) => LoaderVerdictView::Ask(path@),
        }
    }
}

/// What the loader named in an executable says about the C library.
pub open spec fn loader_verdict(executable: Seq<u8>) -> LoaderVerdictView {
    match program_interpreter(executable) {
        None => LoaderVerdictView::Silent,
        Some(path) => {
            let name = lowercase(path);
            if occurs(name, "musl"@) {
                LoaderVerdictView::Settled(LibcDetectionView::Musl(None))
            } else if occurs(name, "ld-linux"@) || occurs(name, "ld64.so"@) {
                LoaderVerdictView::Ask(path)
            } else {
                LoaderVerdictView::Silent
            }
        },
    }
}

/// Examines the loader of an executable.
pub fn examine_loader(executable: &[u8]) -> (verdict: LoaderVerdict)
    ensures
        verdict.deep_view() == loader_verdict(executable@),
{
    match elf_interpreter(executable) {
        None => LoaderVerdict::Silent,
        Some(path) => {
            let name = to_lowercase(path.as_str());
            if contains(name.as_str(), "musl") {
                LoaderVerdict::Settled(LibcDetection::Musl(None))
            } else if contains(name.as_str(), "ld-linux") || contains(name.as_str(), "ld64.so") {
                LoaderVerdict::Ask(path)
            } else {
                LoaderVerdict::Silent
            }
        },
    }
}

/// What the version output of a loader settles.
pub open spec fn libc_of_loader(
    reply: Result<CapturedOutputView, CommandErrorView>,
) -> LibcDetectionView {
    match reply {
        Ok(output) => classified_libc(combined(output)),
        Err(_) => LibcDetectionView::Unknown,
    }
}

/// The C library that the version output of a loader names.
pub fn libc_from_loader(reply: &Result<CapturedOutput, CommandError>) -> (libc: LibcDetection)
    ensures
        libc.deep_view() == libc_of_loader(outcome(*reply)),
{
    match reply {
        Ok(output) => classify_libc_output(combined_output(output).as_str()),
        Err(_) => LibcDetection::Unknown,
    }
}

/// How many executables are examined for their loader.
pub const LOADER_WITNESSES: usize = 3;

/// The executables that are examined for their loader, in order.
pub open spec fn witness_path(index: int) -> Seq<char> {
    if index == 0 {
        "/bin/sh"@
    } else if index == 1 {
        "/usr/bin/env"@
    } else {
        "/usr/bin/python3"@
    }
}

/// The executable at `index` among those that are examined for their loader.
pub fn loader_witness(index: usize) -> (path: &'static str)
    ensures
        path@ == witness_path(index as int),
{
    if index == 0 {
        "/bin/sh"
    } else if index == 1 {
        "/usr/bin/env"
    } else {
        "/usr/bin/python3"
    }
}

/// What the search for the C library does next.
#[derive(Debug, PartialEq, Eq)]
pub enum LibcStep {
    /// `ldd --version` is to be run.
    RunLdd,
    /// The executable at this place is to be read.
    Examine(usize),
    /// The loader at this path is to be asked for its version.
    RunLoader(String),
    /// The search is over.
    Done(LibcDetection),
}

/// The model of [`LibcStep`].
pub enum LibcStepView {
    RunLdd,
    Examine(nat),
    RunLoader(Seq<char>),
    Done(LibcDetectionView),
}

impl DeepView for LibcStep {
    type V = LibcStepView;

    open spec fn deep_view(&self) -> LibcStepView {
        match self {
            LibcStep::RunLdd => LibcStepView::RunLdd,
            LibcStep::Examine(place) => LibcStepView::Examine(*place as nat),
            LibcStep::RunLoader(path) => LibcStepView::RunLoader(path@),
            LibcStep::Done(libc) => LibcStepView::Done(libc.deep_view()),
        }
    }
}

/// What the first executable with a telling loader says.
pub open spec fn first_verdict(executables: Seq<Option<Seq<u8>>>) -> LoaderVerdictView
    decreases executables.len(),
{
    if executables.len() == 0 {
        LoaderVerdictView::Silent
    } else {
        let first = match executables[0] {
            Some(bytes) => loader_verdict(bytes),
            None => LoaderVerdictView::Silent,
        };
        if first is Silent {
            first_verdict(executables.skip(1))
        } else {
            first
        }
    }
}

fn find_verdict(executables: &Vec<Option<Vec<u8>>>) -> (verdict: LoaderVerdict)
    ensures
        verdict.deep_view() == first_verdict(executables.deep_view()),
{
    let ghost all = executables.deep_view();
    let mut index: usize = 0;
    assert(all.skip(0) =~= all);
    while index < executables.len()
        invariant
            index <= executables@.len(),
            all == executables.deep_view(),
            first_verdict(all) == first_verdict(all.skip(index as int)),
        decreases executables@.len() - index,
    {
        assert(all.skip(index as int)[0] == executables@[index as int].deep_view());
        assert(all.skip(index as int).skip(1) =~= all.skip(index + 1));
        if let Some(bytes) = &executables[index] {
            assert(bytes.deep_view() =~= bytes@);
            let verdict = examine_loader(bytes.as_slice());
            match verdict {
                LoaderVerdict::Silent => {},
                _ => {
                    return verdict;
                },
            }
        }
        index = index + 1;
    }
    LoaderVerdict::Silent
}

/// What the search does after what it knows: the version that the C library reports of itself,
/// the reply of `ldd`, the executables read so far, and the reply of a loader.
pub open spec fn next_libc_step(
    reported: Option<Seq<char>>,
    ldd: Option<Result<CapturedOutputView, CommandErrorView>>,
    executables: Seq<Option<Seq<u8>>>,
    loader: Option<Result<CapturedOutputView, CommandErrorView>>,
) -> LibcStepView {
    match libc_of_runtime(reported) {
        Some(libc) => LibcStepView::Done(libc),
        None => match ldd {
            None => LibcStepView::RunLdd,
            Some(reply) => {
                let told = match reply {
                    Ok(output) => libc_of_ldd(output),
                    Err(_) => None,
                };
                match told {
                    Some(libc) => LibcStepView::Done(libc),
                    None => match first_verdict(executables) {
                        LoaderVerdictView::Settled(libc) => LibcStepView::Done(libc),
                        LoaderVerdictView::Ask(path) => match loader {
                            None => LibcStepView::RunLoader(path),
                            Some(answer) => LibcStepView::Done(libc_of_loader(answer)),
                        },
                        LoaderVerdictView::Silent => if executables.len() < LOADER_WITNESSES {
                            LibcStepView::Examine(executables.len())
                        } else {
                            LibcStepView::Done(LibcDetectionView::Unknown)
                        },
                    },
                }
            },
        },
    }
}

/// Decides what the search for the C library does after what it knows.
pub fn detect_libc(
    reported: &Option<String>,
    ldd: &Option<Result<CapturedOutput, CommandError>>,
    executables: &Vec<Option<Vec<u8>>>,
    loader: &Option<Result<CapturedOutput, CommandError>>,
) -> (step: LibcStep)
    ensures
        step.deep_view() == next_libc_step(
            reported.deep_view(),
            match ldd {
                Some(reply) => Some(outcome(*reply)),
                None => None,
            },
            executables.deep_view(),
            match loader {
                Some(reply) => Some(outcome(*reply)),
                None => None,
            },
        ),
{
    if let Some(libc) = libc_from_runtime(reported) {
        return LibcStep::Done(libc);
    }
    match ldd {
        None => {
            return LibcStep::RunLdd;
        },
        Some(Err(_)) => {},
        Some(Ok(output)) => {
            if let Some(libc) = libc_from_ldd(output) {
                return LibcStep::Done(libc);
            }
        },
    }
    assert(executables.deep_view().len() == executables@.len());
    match find_verdict(executables) {
        LoaderVerdict::Settled(libc) => LibcStep::Done(libc),
        LoaderVerdict::Ask(path) => match loader {
            None => LibcStep::RunLoader(path),
            Some(answer) => LibcStep::Done(libc_from_loader(answer)),
        },
        LoaderVerdict::Silent => if executables.len() < LOADER_WITNESSES {
            LibcStep::Examine(executables.len())
        } else {
            LibcStep::Done(LibcDetection::Unknown)
        },
    }
}

// ---------------------------------------------------------------------------
// Executables

/// The number that `bytes` write, most significant byte first.
pub open spec fn big_endian(bytes: Seq<u8>) -> nat
    decreases bytes.len(),
{
    if bytes.len() == 0 {
        0
    } else {
        big_endian(bytes.drop_last()) * 256 + bytes.last() as nat
    }
}

/// The number that `bytes` write, in either byte order.
pub open spec fn number_of(bytes: Seq<u8>, little: bool) -> nat {
    if little {
        big_endian(bytes.reverse())
    } else {
        big_endian(bytes)
    }
}

/// The number in the `width` bytes at `offset`; `None` where the file ends before.
pub open spec fn elf_number(bytes: Seq<u8>, offset: int, width: nat, little: bool) -> Option<nat> {
    if 0 <= offset && offset + width <= bytes.len() {
        Some(number_of(bytes.subrange(offset, offset + width), little))
    } else {
        None
    }
}

/// The powers of 256.
spec fn power_256(exponent: nat) -> nat
    decreases exponent,
{
    if exponent == 0 {
        1
    } else {
        256 * power_256((exponent - 1) as nat)
    }
}

proof fn big_endian_bound(bytes: Seq<u8>)
    ensures
        big_endian(bytes) < power_256(bytes.len()),
    decreases bytes.len(),
{
    if bytes.len() > 0 {
        big_endian_bound(bytes.drop_last());
    }
}

proof fn power_256_bounds(exponent: nat)
    requires
        exponent <= 8,
    ensures
        power_256(exponent) <= 0x1_0000_0000_0000_0000,
        exponent <= 4 ==> power_256(exponent) <= 0x1_0000_0000,
        exponent <= 2 ==> power_256(exponent) <= 0x1_0000,
{
    reveal_with_fuel(power_256, 9);
}

/// Reads the number in the `width` bytes at `offset`.
fn read_number(bytes: &[u8], offset: u64, width: usize, little: bool) -> (value: Option<u64>)
    requires
        width <= 8,
    ensures
        (match value {
            Some(number) => Some(number as nat),
            None => None,
        }) == elf_number(bytes@, offset as int, width as nat, little),
        value matches Some(number) ==> {
            &&& width <= 4 ==> number <= 0xffff_ffff
            &&& width <= 2 ==> number <= 0xffff
        },
{
    let total: usize = bytes.len();
    if offset > total as u64 {
        return None;
    }
    let start: usize = offset as usize;
    if width > total - start {
        return None;
    }
    let ghost field = bytes@.subrange(offset as int, offset + width);
    let ghost ordered = if little {
        field.reverse()
    } else {
        field
    };
    let mut value: u64 = 0;
    let mut index: usize = 0;
    while index < width
        invariant
            index <= width <= 8,
            start == offset,
            start + width <= total == bytes@.len(),
            field == bytes@.subrange(offset as int, offset + width),
            ordered == (if little {
                field.reverse()
            } else {
                field
            }),
            value == big_endian(ordered.take(index as int)),
        decreases width - index,
    {
        let byte: u8 = if little {
            bytes[start + (width - 1 - index)]
        } else {
            bytes[start + index]
        };
        proof {
            assert(ordered.take(index + 1).drop_last() =~= ordered.take(index as int));
            assert(ordered.take(index + 1).last() == byte);
            big_endian_bound(ordered.take(index + 1));
            power_256_bounds((index + 1) as nat);
        }
        value = value * 256 + byte as u64;
        index = index + 1;
    }
    proof {
        assert(ordered.take(width as int) =~= ordered);
        big_endian_bound(ordered);
        power_256_bounds(width as nat);
    }
    Some(value)
}

/// Reads a two-byte number.
pub fn read_elf_u16(bytes: &[u8], offset: usize, little_endian: bool) -> (value: Option<u16>)
    ensures
        (match value {
            Some(number) => Some(number as nat),
            None => None,
        }) == elf_number(bytes@, offset as int, 2, little_endian),
{
    match read_number(bytes, offset as u64, 2, little_endian) {
        Some(number) => Some(number as u16),
        None => None,
    }
}

/// Reads a four-byte number.
pub fn read_elf_u32(bytes: &[u8], offset: usize, little_endian: bool) -> (value: Option<u32>)
    ensures
        (match value {
            Some(number) => Some(number as nat),
            None => None,
        }) == elf_number(bytes@, offset as int, 4, little_endian),
{
    match read_number(bytes, offset as u64, 4, little_endian) {
        Some(number) => Some(number as u32),
        None => None,
    }
}

/// Reads an eight-byte number.
pub fn read_elf_u64(bytes: &[u8], offset: usize, little_endian: bool) -> (value: Option<u64>)
    ensures
        (match value {
            Some(number) => Some(number as nat),
            None => None,
        }) == elf_number(bytes@, offset as int, 8, little_endian),
{
    read_number(bytes, offset as u64, 8, little_endian)
}

/// Where the program headers of an executable stand.
pub struct ProgramTable {
    /// Whether addresses take eight bytes.
    pub wide: bool,
    /// Whether the least significant byte comes first.
    pub little: bool,
    /// Where the table begins.
    pub offset: nat,
    /// How many bytes an entry takes.
    pub entry_size: nat,
    /// How many entries there are.
    pub entry_count: nat,
}

/// The program header table that the header of an executable describes. An entry must be large
/// enough for its fields, and the table is neither long nor beyond the end of the file.
pub open spec fn program_table(bytes: Seq<u8>) -> Option<ProgramTable> {
    if !(bytes.len() >= 6 && bytes.take(4) == seq![0x7fu8, 0x45u8, 0x4cu8, 0x46u8]) {
        None
    } else if !(bytes[4] == 1 || bytes[4] == 2) || !(bytes[5] == 1 || bytes[5] == 2) {
        None
    } else {
        let wide = bytes[4] == 2;
        let little = bytes[5] == 1;
        let offset = if wide {
            elf_number(bytes, 32, 8, little)
        } else {
            elf_number(bytes, 28, 4, little)
        };
        let entry_size = elf_number(
            bytes,
            if wide {
                54
            } else {
                42
            },
            2,
            little,
        );
        let entry_count = elf_number(
            bytes,
            if wide {
                56
            } else {
                44
            },
            2,
            little,
        );
        match (offset, entry_size, entry_count) {
            (Some(offset), Some(entry_size), Some(entry_count)) => if entry_size < (if wide {
                40
            } else {
                20nat
            }) || entry_count > 4096 || offset + entry_count * entry_size > bytes.len() {
                None
            } else {
                Some(ProgramTable { wide, little, offset, entry_size, entry_count })
            },
            _ => None,
        }
    }
}

/// Where the segment of the first entry from `index` on stands that names the loader.
pub open spec fn interpreter_segment(
    bytes: Seq<u8>,
    table: ProgramTable,
    index: nat,
) -> Option<(nat, nat)>
    decreases table.entry_count - index,
{
    if index >= table.entry_count {
        None
    } else {
        let entry = (table.offset + index * table.entry_size) as int;
        if elf_number(bytes, entry, 4, table.little) != Some(3nat) {
            interpreter_segment(bytes, table, index + 1)
        } else if table.wide {
            match (
                elf_number(bytes, entry + 8, 8, table.little),
                elf_number(bytes, entry + 32, 8, table.little),
            ) {
                (Some(offset), Some(size)) => Some((offset, size)),
                _ => None,
            }
        } else {
            match (
                elf_number(bytes, entry + 4, 4, table.little),
                elf_number(bytes, entry + 16, 4, table.little),
            ) {
                (Some(offset), Some(size)) => Some((offset, size)),
                _ => None,
            }
        }
    }
}

/// `bytes` without one zero byte at the end.
pub open spec fn without_terminator(bytes: Seq<u8>) -> Seq<u8> {
    if bytes.len() > 0 && bytes.last() == 0 {
        bytes.drop_last()
    } else {
        bytes
    }
}

/// The absolute path that a segment holds.
pub open spec fn segment_path(bytes: Seq<u8>, segment: (nat, nat)) -> Option<Seq<char>> {
    let (offset, size) = segment;
    if size == 0 || size > 4096 || offset + size > bytes.len() {
        None
    } else {
        let value = without_terminator(bytes.subrange(offset as int, (offset + size) as int));
        if !valid_utf8(value) {
            None
        } else {
            match nonempty(decode_utf8(value)) {
                Some(path) if path[0] == '/' => Some(path),
                _ => None,
            }
        }
    }
}

/// The program loader that an executable names.
pub open spec fn program_interpreter(bytes: Seq<u8>) -> Option<Seq<char>> {
    match program_table(bytes) {
        None => None,
        Some(table) => match interpreter_segment(bytes, table, 0) {
            None => None,
            Some(segment) => segment_path(bytes, segment),
        },
    }
}

/// The path that the segment at `offset` holds.
fn read_segment_path(bytes: &[u8], offset: u64, size: u64) -> (path: Option<String>)
    ensures
        path.deep_view() == segment_path(bytes@, (offset as nat, size as nat)),
{
    let total: usize = bytes.len();
    if size == 0 || size > 4096 {
        return None;
    }
    if offset > total as u64 || size > total as u64 - offset {
        return None;
    }
    let start: usize = offset as usize;
    let end: usize = start + size as usize;
    let mut value: Vec<u8> = Vec::new();
    let stop: usize = if bytes[end - 1] == 0 {
        end - 1
    } else {
        end
    };
    let mut index: usize = start;
    while index < stop
        invariant
            start <= index <= stop <= bytes@.len(),
            value@ == bytes@.subrange(start as int, index as int),
        decreases stop - index,
    {
        value.push(bytes[index]);
        assert(bytes@.subrange(start as int, index + 1) =~= bytes@.subrange(
            start as int,
            index as int,
        ).push(bytes@[index as int]));
        index = index + 1;
    }
    assert(value@ =~= without_terminator(bytes@.subrange(offset as int, offset + size)));
    match decode_strict(value.as_slice()) {
        None => None,
        Some(text) => match nonempty_trimmed(text.as_str()) {
            None => None,
            Some(path) => {
                proof {
                    reveal_strlit("/");
                    if path@[0] == '/' {
                        assert(path@.subrange(0, 1) =~= "/"@);
                    }
                }
                if starts_with(path.as_str(), "/") {
                    assert("/"@[0] == '/');
                    assert(path@[0] == '/');
                    Some(path)
                } else {
                    None
                }
            },
        },
    }
}

proof fn entry_within_table(index: nat, count: nat, size: nat)
    requires
        index < count,
    ensures
        index * size + size <= count * size,
{
    assert((index + 1) * size <= count * size) by (nonlinear_arith)
        requires
            index + 1 <= count,
    ;
    assert((index + 1) * size == index * size + size) by (nonlinear_arith);
}

/// The program loader that an executable names, within the bounds of the file.
pub fn elf_interpreter(bytes: &[u8]) -> (path: Option<String>)
    ensures
        path.deep_view() == program_interpreter(bytes@),
{
    let total: usize = bytes.len();
    if total < 6 {
        return None;
    }
    if !(bytes[0] == 0x7f && bytes[1] == 0x45 && bytes[2] == 0x4c && bytes[3] == 0x46) {
        assert(bytes@.take(4) != seq![0x7fu8, 0x45u8, 0x4cu8, 0x46u8]) by {
            assert(bytes@.take(4)[0] == bytes@[0] && bytes@.take(4)[1] == bytes@[1]
                && bytes@.take(4)[2] == bytes@[2] && bytes@.take(4)[3] == bytes@[3]);
        }
        return None;
    }
    assert(bytes@.take(4) =~= seq![0x7fu8, 0x45u8, 0x4cu8, 0x46u8]);
    let class = bytes[4];
    let order = bytes[5];
    if !(class == 1 || class == 2) || !(order == 1 || order == 2) {
        return None;
    }
    let wide = class == 2;
    let little = order == 1;
    let found_offset = if wide {
        read_number(bytes, 32, 8, little)
    } else {
        read_number(bytes, 28, 4, little)
    };
    let found_size = read_number(
        bytes,
        if wide {
            54
        } else {
            42
        },
        2,
        little,
    );
    let found_count = read_number(
        bytes,
        if wide {
            56
        } else {
            44
        },
        2,
        little,
    );
    let (offset, entry_size, entry_count) = match (found_offset, found_size, found_count) {
        (Some(offset), Some(entry_size), Some(entry_count)) => (offset, entry_size, entry_count),
        _ => {
            return None;
        },
    };
    let minimum: u64 = if wide {
        40
    } else {
        20
    };
    if entry_size < minimum || entry_count > 4096 {
        return None;
    }
    assert(0 <= entry_count * entry_size <= 4096 * 0xffff) by (nonlinear_arith)
        requires
            0 <= entry_count <= 4096,
            0 <= entry_size <= 0xffff,
    ;
    let table_size: u64 = entry_count * entry_size;
    if offset > total as u64 || table_size > total as u64 - offset {
        return None;
    }
    let ghost table = ProgramTable {
        wide,
        little,
        offset: offset as nat,
        entry_size: entry_size as nat,
        entry_count: entry_count as nat,
    };
    assert(program_table(bytes@) == Some(table));
    let mut index: u64 = 0;
    while index < entry_count
        invariant
            index <= entry_count <= 4096,
            minimum <= entry_size <= 0xffff,
            minimum == (if wide {
                40u64
            } else {
                20u64
            }),
            table_size == entry_count * entry_size,
            offset + table_size <= total == bytes@.len(),
            table == (ProgramTable {
                wide,
                little,
                offset: offset as nat,
                entry_size: entry_size as nat,
                entry_count: entry_count as nat,
            }),
            program_table(bytes@) == Some(table),
            interpreter_segment(bytes@, table, 0) == interpreter_segment(
                bytes@,
                table,
                index as nat,
            ),
        decreases entry_count - index,
    {
        proof {
            entry_within_table(index as nat, entry_count as nat, entry_size as nat);
        }
        let entry: u64 = offset + index * entry_size;
        let kind = read_number(bytes, entry, 4, little);
        if let Some(3) = kind {
            let place = if wide {
                read_number(bytes, entry + 8, 8, little)
            } else {
                read_number(bytes, entry + 4, 4, little)
            };
            let size = if wide {
                read_number(bytes, entry + 32, 8, little)
            } else {
                read_number(bytes, entry + 16, 4, little)
            };
            return match (place, size) {
                (Some(place), Some(size)) => read_segment_path(bytes, place, size),
                _ => None,
            };
        }
        index = index + 1;
    }
    None
}

} // verus!
