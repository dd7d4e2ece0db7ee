//! Redaction: output without identifiers of processors and without local paths.

use crate::model::{
    path_of, CommandSpec, CommandSpecView, CudaToolkitInfoView, Diagnostic, DiagnosticCode,
    DiagnosticView, Environment, EnvironmentView, FilePath, NvidiaGpu, NvidiaGpuView,
    NvidiaInfoView, PythonInfoView, RecommendationReport, RecommendationReportView,
    VerificationCheck, VerificationCheckView, VerificationGpuMapping, VerificationGpuMappingView,
    VerificationReport, VerificationReportView,
};
use crate::pieces::{matches_at, occurs, stands_at};
use crate::python::{interpreter_root, root_above};
use crate::resolver::{shell_display, shell_line};
use crate::text::{push_item, same, to_chars};
use vstd::prelude::*;

verus! {

/// What stands in the place of what is redacted.
pub const REDACTED: &'static str = "<redacted>";

// ---------------------------------------------------------------------------
// Texts

/// `text` with each occurrence of `pattern`, from the left and without overlap, replaced.
pub open spec fn replaced(text: Seq<char>, pattern: Seq<char>, with: Seq<char>) -> Seq<char>
    decreases text.len(),
{
    if text.len() == 0 || pattern.len() == 0 {
        text
    } else if pattern.is_prefix_of(text) {
        with + replaced(text.skip(pattern.len() as int), pattern, with)
    } else {
        seq![text[0]] + replaced(text.skip(1), pattern, with)
    }
}

/// Replaces each occurrence of `pattern`.
pub fn replace(text: &str, pattern: &str, with: &str) -> (result: String)
    ensures
        result@ == replaced(text@, pattern@, with@),
{
    let chars = to_chars(text);
    let wanted = to_chars(pattern);
    if wanted.len() == 0 {
        return text.to_owned();
    }
    let size: usize = wanted.len();
    let total: usize = chars.len();
    let mut result = String::new();
    let mut at: usize = 0;
    assert(chars@.skip(0) =~= chars@);
    assert(result@ + replaced(chars@, pattern@, with@) =~= replaced(text@, pattern@, with@));
    while at < total
        invariant
            at <= total == chars@.len(),
            size == wanted@.len(),
            size > 0,
            chars@ == text@,
            wanted@ == pattern@,
            result@ + replaced(chars@.skip(at as int), pattern@, with@) == replaced(
                text@,
                pattern@,
                with@,
            ),
        decreases total - at,
    {
        let ghost rest = chars@.skip(at as int);
        let ghost earlier = result@;
        assert(stands_at(chars@, pattern@, at as int) <==> pattern@.is_prefix_of(rest)) by {
            if at + size <= total {
                assert(chars@.subrange(at as int, at + size) =~= rest.subrange(0, size as int));
            }
        }
        if matches_at(&chars, &wanted, at) {
            result.append(with);
            assert(rest.skip(size as int) =~= chars@.skip(at + size));
            assert(result@ + replaced(chars@.skip(at + size), pattern@, with@) =~= earlier
                + replaced(rest, pattern@, with@));
            at = at + size;
        } else {
            result.push(chars[at]);
            assert(rest[0] == chars@[at as int]);
            assert(rest.skip(1) =~= chars@.skip(at + 1));
            assert(result@ + replaced(chars@.skip(at + 1), pattern@, with@) =~= earlier + replaced(
                rest,
                pattern@,
                with@,
            ));
            at = at + 1;
        }
    }
    assert(chars@.skip(at as int) =~= Seq::<char>::empty());
    assert(result@ + Seq::<char>::empty() =~= result@);
    result
}

/// `text` with every sensitive value replaced, one after another.
pub open spec fn redacted(text: Seq<char>, sensitive: Seq<Seq<char>>) -> Seq<char>
    decreases sensitive.len(),
{
    if sensitive.len() == 0 {
        text
    } else {
        replaced(redacted(text, sensitive.drop_last()), sensitive.last(), REDACTED@)
    }
}

/// Replaces every sensitive value, one after another.
pub fn redact_text(value: &str, sensitive_values: &Vec<String>) -> (result: String)
    ensures
        result@ == redacted(value@, sensitive_values.deep_view()),
{
    let ghost all = sensitive_values.deep_view();
    let mut result = value.to_owned();
    let mut index: usize = 0;
    while index < sensitive_values.len()
        invariant
            index <= sensitive_values@.len(),
            all == sensitive_values.deep_view(),
            result@ == redacted(value@, all.take(index as int)),
        decreases sensitive_values@.len() - index,
    {
        assert(all.take(index + 1).drop_last() =~= all.take(index as int));
        assert(all.take(index + 1).last() == sensitive_values@[index as int]@);
        result = replace(result.as_str(), sensitive_values[index].as_str(), REDACTED);
        index = index + 1;
    }
    assert(all.take(index as int) =~= all);
    result
}

/// Whether a text, moved `shift` characters to the right, and the mark hold the same characters
/// where both stand.
pub open spec fn agrees_with_mark(text: Seq<char>, shift: int) -> bool {
    forall|i: int|
        0 <= i < text.len() && 0 <= shift + i < REDACTED@.len() ==> #[trigger] text[i]
            == REDACTED@[shift + i]
}

/// Whether a text can neither stand in the mark nor begin or end in it.
pub open spec fn apart_from_mark(text: Seq<char>) -> bool {
    &&& text.len() > 0
    &&& forall|shift: int|
        -text.len() < shift < REDACTED@.len() ==> !#[trigger] agrees_with_mark(text, shift)
}

/// A text without an opening angle bracket that begins with a character that the mark lacks is
/// apart from the mark: an absolute path, for one, and the identifier of a processor, which
/// begins with `GPU-`.
pub proof fn paths_and_identifiers_are_apart_from_the_mark(text: Seq<char>)
    requires
        text.len() > 0,
        !REDACTED@.contains(text[0]),
        !text.contains('<'),
    ensures
        apart_from_mark(text),
        !REDACTED@.contains('/'),
        !REDACTED@.contains('G'),
{
    reveal_strlit("<redacted>");
    assert forall|shift: int| -text.len() < shift < REDACTED@.len() implies !#[trigger]
    agrees_with_mark(text, shift) by {
        if agrees_with_mark(text, shift) {
            let i = if shift >= 0 {
                0
            } else {
                -shift
            };
            assert(text[i] == REDACTED@[shift + i]);
            assert(text.contains(text[i]));
        }
    }
}

proof fn copied_tail(path: Seq<char>, from: int, text: Seq<char>, pattern: Seq<char>)
    requires
        apart_from_mark(path),
        0 <= from <= path.len(),
        path.skip(from).is_prefix_of(replaced(text, pattern, REDACTED@)),
    ensures
        path.skip(from).is_prefix_of(text),
    decreases text.len(),
{
    let wanted = path.skip(from);
    let result = replaced(text, pattern, REDACTED@);
    if wanted.len() > 0 && text.len() > 0 && pattern.len() > 0 {
        assert(wanted =~= result.subrange(0, wanted.len() as int));
        assert(wanted[0] == result[0]);
        if !pattern.is_prefix_of(text) {
            let rest = path.skip(from + 1);
            let later = replaced(text.skip(1), pattern, REDACTED@);
            assert(result.skip(1) =~= later);
            assert(rest =~= later.subrange(0, rest.len() as int)) by {
                assert forall|i: int| 0 <= i < rest.len() implies rest[i] == later[i] by {
                    assert(rest[i] == wanted[i + 1]);
                    assert(wanted[i + 1] == result[i + 1]);
                }
            }
            copied_tail(path, from + 1, text.skip(1), pattern);
            assert(wanted =~= text.subrange(0, wanted.len() as int)) by {
                assert forall|i: int| 0 <= i < wanted.len() implies wanted[i] == text[i] by {
                    if i > 0 {
                        assert(wanted[i] == rest[i - 1]);
                        assert(rest[i - 1] == text.skip(1)[i - 1]);
                    }
                }
            }
        } else {
            assert forall|i: int|
                0 <= i < path.len() && 0 <= -from + i < REDACTED@.len() implies #[trigger] path[i]
                == REDACTED@[-from + i] by {
                assert(path[i] == wanted[i - from]);
                assert(wanted[i - from] == result[i - from]);
            }
            reveal_strlit("<redacted>");
            assert(agrees_with_mark(path, -from));
        }
    }
}

proof fn follows_the_mark(path: Seq<char>, later: Seq<char>, at: int)
    requires
        apart_from_mark(path),
        stands_at(REDACTED@ + later, path, at),
    ensures
        at >= REDACTED@.len(),
        stands_at(later, path, at - REDACTED@.len()),
{
    let size = REDACTED@.len() as int;
    let whole = REDACTED@ + later;
    if at < size {
        assert forall|i: int| 0 <= i < path.len() && 0 <= at + i < size implies #[trigger] path[i]
            == REDACTED@[at + i] by {
            assert(path[i] == whole.subrange(at, at + path.len())[i]);
        }
        assert(agrees_with_mark(path, at));
    }
    assert(later.subrange(at - size, at - size + path.len()) =~= whole.subrange(
        at,
        at + path.len(),
    ));
}

proof fn occurs_later(text: Seq<char>, pattern: Seq<char>, from: int)
    requires
        0 <= from <= text.len(),
        occurs(text.skip(from), pattern),
    ensures
        occurs(text, pattern),
{
    let at = choose|at: int| #[trigger] stands_at(text.skip(from), pattern, at);
    assert(text.subrange(from + at, from + at + pattern.len()) =~= text.skip(from).subrange(
        at,
        at + pattern.len(),
    ));
    assert(stands_at(text, pattern, from + at));
}

proof fn replacing_adds_no_path(text: Seq<char>, pattern: Seq<char>, path: Seq<char>)
    requires
        apart_from_mark(path),
        occurs(replaced(text, pattern, REDACTED@), path),
    ensures
        occurs(text, path),
    decreases text.len(),
{
    if text.len() > 0 && pattern.len() > 0 {
        let result = replaced(text, pattern, REDACTED@);
        let at = choose|at: int| #[trigger] stands_at(result, path, at);
        if pattern.is_prefix_of(text) {
            let later = replaced(text.skip(pattern.len() as int), pattern, REDACTED@);
            follows_the_mark(path, later, at);
            replacing_adds_no_path(text.skip(pattern.len() as int), pattern, path);
            occurs_later(text, path, pattern.len() as int);
        } else {
            let later = replaced(text.skip(1), pattern, REDACTED@);
            assert(result.skip(1) =~= later);
            if at == 0 {
                assert(path =~= result.subrange(0, path.len() as int));
                assert(path.skip(0) =~= path);
                copied_tail(path, 0, text, pattern);
                assert(stands_at(text, path, 0));
            } else {
                assert(later.subrange(at - 1, at - 1 + path.len()) =~= result.subrange(
                    at,
                    at + path.len(),
                ));
                assert(stands_at(later, path, at - 1));
                replacing_adds_no_path(text.skip(1), pattern, path);
                occurs_later(text, path, 1);
            }
        }
    }
}

proof fn replacing_removes_the_path(text: Seq<char>, path: Seq<char>)
    requires
        apart_from_mark(path),
    ensures
        !occurs(replaced(text, path, REDACTED@), path),
    decreases text.len(),
{
    let result = replaced(text, path, REDACTED@);
    if text.len() > 0 && occurs(result, path) {
        let at = choose|at: int| #[trigger] stands_at(result, path, at);
        if path.is_prefix_of(text) {
            let later = replaced(text.skip(path.len() as int), path, REDACTED@);
            follows_the_mark(path, later, at);
            replacing_removes_the_path(text.skip(path.len() as int), path);
        } else {
            let later = replaced(text.skip(1), path, REDACTED@);
            assert(result.skip(1) =~= later);
            if at == 0 {
                assert(path =~= result.subrange(0, path.len() as int));
                assert(path.skip(0) =~= path);
                copied_tail(path, 0, text, path);
            } else {
                assert(later.subrange(at - 1, at - 1 + path.len()) =~= result.subrange(
                    at,
                    at + path.len(),
                ));
                assert(stands_at(later, path, at - 1));
                replacing_removes_the_path(text.skip(1), path);
            }
        }
    }
    if text.len() == 0 && occurs(result, path) {
        let at = choose|at: int| #[trigger] stands_at(result, path, at);
        assert(result.len() == 0);
    }
}

/// A redacted text holds no sensitive path that is apart from the mark.
pub proof fn redacted_text_holds_no_path(text: Seq<char>, sensitive: Seq<Seq<char>>, path: Seq<char>)
    requires
        apart_from_mark(path),
        sensitive.contains(path),
    ensures
        !occurs(redacted(text, sensitive), path),
    decreases sensitive.len(),
{
    let earlier = redacted(text, sensitive.drop_last());
    if sensitive.last() == path {
        replacing_removes_the_path(earlier, path);
    } else {
        let at = choose|i: int| 0 <= i < sensitive.len() && sensitive[i] == path;
        assert(sensitive.drop_last()[at] == path);
        redacted_text_holds_no_path(text, sensitive.drop_last(), path);
        if occurs(redacted(text, sensitive), path) {
            replacing_adds_no_path(earlier, sensitive.last(), path);
        }
    }
}

// ---------------------------------------------------------------------------
// Diagnostics

/// Whether nothing of the details of a diagnostic may be shown.
pub open spec fn wholly_sensitive(code: DiagnosticCode) -> bool {
    code == DiagnosticCode::CudaVisibleDevicesSet || code == DiagnosticCode::PythonUnavailable
}

/// One detail, redacted.
pub open spec fn redacted_entry(
    entry: (Seq<char>, Seq<char>),
    code: DiagnosticCode,
    sensitive: Seq<Seq<char>>,
) -> (Seq<char>, Seq<char>) {
    (
        entry.0,
        if wholly_sensitive(code) {
            REDACTED@
        } else {
            redacted(entry.1, sensitive)
        },
    )
}

/// A diagnostic, redacted.
pub open spec fn redacted_diagnostic(
    diagnostic: DiagnosticView,
    sensitive: Seq<Seq<char>>,
) -> DiagnosticView {
    DiagnosticView {
        details: diagnostic.details.map_values(
            |entry: (Seq<char>, Seq<char>)| redacted_entry(entry, diagnostic.code, sensitive),
        ),
        ..diagnostic
    }
}

/// Diagnostics, redacted.
pub open spec fn redacted_diagnostics(
    diagnostics: Seq<DiagnosticView>,
    sensitive: Seq<Seq<char>>,
) -> Seq<DiagnosticView> {
    diagnostics.map_values(
        |diagnostic: DiagnosticView| redacted_diagnostic(diagnostic, sensitive),
    )
}

fn redact_diagnostic(diagnostic: &Diagnostic, sensitive: &Vec<String>) -> (result: Diagnostic)
    ensures
        result.deep_view() == redacted_diagnostic(diagnostic.deep_view(), sensitive.deep_view()),
{
    let ghost code = diagnostic.code;
    let ghost values = sensitive.deep_view();
    let ghost entries = diagnostic.deep_view().details;
    let ghost wanted = entries.map_values(
        |entry: (Seq<char>, Seq<char>)| redacted_entry(entry, code, values),
    );
    let hidden = diagnostic.code == DiagnosticCode::CudaVisibleDevicesSet || diagnostic.code
        == DiagnosticCode::PythonUnavailable;
    let source = diagnostic.details.entries();
    let mut details = diagnostic.details.clone();
    let mut index: usize = 0;
    assert(source.deep_view().len() == source@.len());
    assert(details.deep_view() =~= wanted.take(0) + entries.skip(0));
    while index < source.len()
        invariant
            index <= source@.len() == entries.len(),
            source.deep_view() == entries,
            values == sensitive.deep_view(),
            code == diagnostic.code,
            hidden == wholly_sensitive(code),
            wanted == entries.map_values(
                |entry: (Seq<char>, Seq<char>)| redacted_entry(entry, code, values),
            ),
            details.deep_view() == wanted.take(index as int) + entries.skip(index as int),
        decreases source@.len() - index,
    {
        assert(entries[index as int] == source@[index as int].deep_view());
        let value = if hidden {
            REDACTED.to_owned()
        } else {
            redact_text(source[index].1.as_str(), sensitive)
        };
        let ghost before = details.deep_view();
        assert(before[index as int] == entries[index as int]);
        details.set_value(index, value);
        assert(wanted[index as int] == (entries[index as int].0, value@));
        assert(details.deep_view() =~= wanted.take(index + 1) + entries.skip(index + 1));
        index = index + 1;
    }
    assert(details.deep_view() =~= wanted);
    Diagnostic { code: diagnostic.code, severity: diagnostic.severity, details }
}

fn redact_diagnostics(diagnostics: &Vec<Diagnostic>, sensitive: &Vec<String>) -> (result: Vec<
    Diagnostic,
>)
    ensures
        result.deep_view() == redacted_diagnostics(
            diagnostics.deep_view(),
            sensitive.deep_view(),
        ),
{
    let ghost values = sensitive.deep_view();
    let ghost all = redacted_diagnostics(diagnostics.deep_view(), values);
    let mut result: Vec<Diagnostic> = Vec::new();
    let mut index: usize = 0;
    while index < diagnostics.len()
        invariant
            index <= diagnostics@.len(),
            values == sensitive.deep_view(),
            all == redacted_diagnostics(diagnostics.deep_view(), values),
            result.deep_view() == all.take(index as int),
        decreases diagnostics@.len() - index,
    {
        push_item(&mut result, redact_diagnostic(&diagnostics[index], sensitive));
        assert(all[index as int] == redacted_diagnostic(
            diagnostics@[index as int].deep_view(),
            values,
        ));
        assert(all.take(index + 1) =~= all.take(index as int).push(all[index as int]));
        index = index + 1;
    }
    assert(all.take(index as int) =~= all);
    result
}

// ---------------------------------------------------------------------------
// Environments

/// The identifiers of processors.
pub open spec fn gpu_identifiers(gpus: Seq<NvidiaGpuView>) -> Seq<Seq<char>>
    decreases gpus.len(),
{
    if gpus.len() == 0 {
        Seq::empty()
    } else {
        match gpus.last().uuid {
            Some(uuid) => gpu_identifiers(gpus.drop_last()).push(uuid),
            None => gpu_identifiers(gpus.drop_last()),
        }
    }
}

/// The sensitive values of an environment: the paths of the interpreter, of its virtual
/// environment and of the toolkit, and the identifiers of the processors.
pub open spec fn sensitive_values(environment: EnvironmentView) -> Seq<Seq<char>> {
    (match environment.python {
        None => Seq::empty(),
        Some(python) => seq![python.executable.text] + (match python.virtual_environment {
            Some(root) => seq![root.text],
            None => Seq::empty(),
        }),
    }) + (match environment.cuda_toolkit {
        Some(toolkit) => match toolkit.root {
            Some(root) => seq![root.text],
            None => Seq::empty(),
        },
        None => Seq::empty(),
    }) + gpu_identifiers(environment.nvidia.gpus)
}

/// An interpreter without its paths.
pub open spec fn redacted_python(python: PythonInfoView) -> PythonInfoView {
    PythonInfoView {
        executable: path_of(REDACTED@),
        virtual_environment: match python.virtual_environment {
            Some(_) => Some(path_of(REDACTED@)),
            None => None,
        },
        ..python
    }
}

/// A processor without its identifier.
pub open spec fn redacted_gpu(gpu: NvidiaGpuView) -> NvidiaGpuView {
    NvidiaGpuView { uuid: None, ..gpu }
}

/// A toolkit without its path.
pub open spec fn redacted_toolkit(toolkit: CudaToolkitInfoView) -> CudaToolkitInfoView {
    CudaToolkitInfoView {
        root: match toolkit.root {
            Some(_) => Some(path_of(REDACTED@)),
            None => None,
        },
        ..toolkit
    }
}

/// An environment, redacted.
pub open spec fn redacted_environment(environment: EnvironmentView) -> EnvironmentView {
    EnvironmentView {
        python: match environment.python {
            Some(python) => Some(redacted_python(python)),
            None => None,
        },
        nvidia: NvidiaInfoView {
            gpus: environment.nvidia.gpus.map_values(|gpu: NvidiaGpuView| redacted_gpu(gpu)),
            ..environment.nvidia
        },
        cuda_toolkit: match environment.cuda_toolkit {
            Some(toolkit) => Some(redacted_toolkit(toolkit)),
            None => None,
        },
        diagnostics: redacted_diagnostics(
            environment.diagnostics,
            sensitive_values(environment),
        ),
        ..environment
    }
}

fn list_identifiers(gpus: &Vec<NvidiaGpu>) -> (values: Vec<String>)
    ensures
        values.deep_view() == gpu_identifiers(gpus.deep_view()),
{
    let ghost all = gpus.deep_view();
    let mut values: Vec<String> = Vec::new();
    let mut index: usize = 0;
    assert(all.take(0) =~= Seq::empty());
    assert(values.deep_view() =~= gpu_identifiers(all.take(0)));
    while index < gpus.len()
        invariant
            all == gpus.deep_view(),
            index <= gpus@.len(),
            values.deep_view() == gpu_identifiers(all.take(index as int)),
        decreases gpus@.len() - index,
    {
        assert(all.take(index + 1).drop_last() =~= all.take(index as int));
        assert(all.take(index + 1).last() == gpus@[index as int].deep_view());
        if let Some(uuid) = &gpus[index].uuid {
            push_item(&mut values, uuid.clone());
        }
        index = index + 1;
    }
    assert(all.take(index as int) =~= all);
    values
}

fn list_sensitive(environment: &Environment) -> (values: Vec<String>)
    ensures
        values.deep_view() == sensitive_values(environment.deep_view()),
{
    let mut values: Vec<String> = Vec::new();
    if let Some(python) = &environment.python {
        push_item(&mut values, python.executable.text.clone());
        if let Some(root) = &python.virtual_environment {
            push_item(&mut values, root.text.clone());
        }
    }
    if let Some(toolkit) = &environment.cuda_toolkit {
        if let Some(root) = &toolkit.root {
            push_item(&mut values, root.text.clone());
        }
    }
    let mut identifiers = list_identifiers(&environment.nvidia.gpus);
    append_texts(&mut values, &mut identifiers);
    assert(values.deep_view() =~= sensitive_values(environment.deep_view()));
    values
}

fn append_texts(values: &mut Vec<String>, more: &mut Vec<String>)
    ensures
        final(values).deep_view() == old(values).deep_view() + old(more).deep_view(),
{
    let ghost first = values.deep_view();
    let ghost second = more.deep_view();
    values.append(more);
    assert(values.deep_view() =~= first + second);
}

fn redact_gpus(gpus: &Vec<NvidiaGpu>) -> (result: Vec<NvidiaGpu>)
    ensures
        result.deep_view() == gpus.deep_view().map_values(|gpu: NvidiaGpuView| redacted_gpu(gpu)),
{
    let ghost all = gpus.deep_view().map_values(|gpu: NvidiaGpuView| redacted_gpu(gpu));
    let mut result: Vec<NvidiaGpu> = Vec::new();
    let mut index: usize = 0;
    while index < gpus.len()
        invariant
            index <= gpus@.len(),
            all == gpus.deep_view().map_values(|gpu: NvidiaGpuView| redacted_gpu(gpu)),
            result.deep_view() == all.take(index as int),
        decreases gpus@.len() - index,
    {
        let mut gpu = gpus[index].clone();
        gpu.uuid = None;
        assert(all[index as int] == redacted_gpu(gpus@[index as int].deep_view()));
        push_item(&mut result, gpu);
        assert(all.take(index + 1) =~= all.take(index as int).push(all[index as int]));
        index = index + 1;
    }
    assert(all.take(index as int) =~= all);
    result
}

/// Removes the identifiers of processors and the local paths from an environment.
pub fn redact_environment(environment: &mut Environment)
    ensures
        final(environment).deep_view() == redacted_environment(old(environment).deep_view()),
{
    let sensitive = list_sensitive(environment);
    let mut result = environment.clone();
    result.diagnostics = redact_diagnostics(&environment.diagnostics, &sensitive);
    result.python = match &environment.python {
        Some(python) => {
            let mut hidden = python.clone();
            hidden.executable = FilePath::new(REDACTED);
            hidden.virtual_environment = match &python.virtual_environment {
                Some(_) => Some(FilePath::new(REDACTED)),
                None => None,
            };
            Some(hidden)
        },
        None => None,
    };
    let mut nvidia = environment.nvidia.clone();
    nvidia.gpus = redact_gpus(&environment.nvidia.gpus);
    result.nvidia = nvidia;
    result.cuda_toolkit = match &environment.cuda_toolkit {
        Some(toolkit) => {
            let mut hidden = toolkit.clone();
            hidden.root = match &toolkit.root {
                Some(_) => Some(FilePath::new(REDACTED)),
                None => None,
            };
            Some(hidden)
        },
        None => None,
    };
    *environment = result;
}

proof fn identifiers_are_listed(gpus: Seq<NvidiaGpuView>, gpu: int)
    requires
        0 <= gpu < gpus.len(),
    ensures
        gpus[gpu].uuid matches Some(uuid) ==> gpu_identifiers(gpus).contains(uuid),
    decreases gpus.len(),
{
    let rest = gpu_identifiers(gpus.drop_last());
    let all = gpu_identifiers(gpus);
    if gpu < gpus.len() - 1 {
        identifiers_are_listed(gpus.drop_last(), gpu);
        if let Some(uuid) = gpus[gpu].uuid {
            let at = choose|i: int| 0 <= i < rest.len() && rest[i] == uuid;
            assert(all[at] == uuid);
        }
    } else if let Some(uuid) = gpus[gpu].uuid {
        assert(all[rest.len() as int] == uuid);
    }
}

/// Every identifier of a processor is a sensitive value of the environment.
pub proof fn identifiers_are_sensitive(environment: EnvironmentView, gpu: int)
    requires
        0 <= gpu < environment.nvidia.gpus.len(),
    ensures
        environment.nvidia.gpus[gpu].uuid matches Some(uuid) ==> sensitive_values(
            environment,
        ).contains(uuid),
{
    identifiers_are_listed(environment.nvidia.gpus, gpu);
    if let Some(uuid) = environment.nvidia.gpus[gpu].uuid {
        let identifiers = gpu_identifiers(environment.nvidia.gpus);
        let all = sensitive_values(environment);
        let at = choose|i: int| 0 <= i < identifiers.len() && identifiers[i] == uuid;
        assert(all[all.len() - identifiers.len() + at] == uuid);
    }
}

/// A redacted environment holds no identifier of a processor and no path of the interpreter, of
/// its virtual environment or of the toolkit; and no detail of its diagnostics holds one of those
/// identifiers and paths that is apart from the mark.
pub proof fn redaction_hides_identifiers_and_paths(
    environment: EnvironmentView,
    gpu: int,
    diagnostic: int,
    detail: int,
    path: Seq<char>,
)
    ensures
        ({
            let result = redacted_environment(environment);
            let known = sensitive_values(environment).contains(path) || (exists|i: int|
                0 <= i < environment.nvidia.gpus.len() && (
                #[trigger] environment.nvidia.gpus[i]).uuid == Some(path));
            &&& 0 <= gpu < result.nvidia.gpus.len() ==> result.nvidia.gpus[gpu].uuid is None
            &&& result.python matches Some(python) ==> python.executable == path_of(REDACTED@) && (
            python.virtual_environment matches Some(root) ==> root == path_of(REDACTED@))
            &&& result.cuda_toolkit matches Some(toolkit) ==> (toolkit.root matches Some(root)
                ==> root == path_of(REDACTED@))
            &&& (0 <= diagnostic < result.diagnostics.len() && 0 <= detail
                < result.diagnostics[diagnostic].details.len() && apart_from_mark(path) && known)
                ==> !occurs(
                result.diagnostics[diagnostic].details[detail].1,
                path,
            )
        }),
{
    let result = redacted_environment(environment);
    let sensitive = sensitive_values(environment);
    if exists|i: int|
        0 <= i < environment.nvidia.gpus.len() && (#[trigger] environment.nvidia.gpus[i]).uuid
            == Some(path) {
        identifiers_are_sensitive(
            environment,
            choose|i: int|
                0 <= i < environment.nvidia.gpus.len() && (
                #[trigger] environment.nvidia.gpus[i]).uuid == Some(path),
        );
    }
    if 0 <= diagnostic < result.diagnostics.len() && 0 <= detail
        < result.diagnostics[diagnostic].details.len() && apart_from_mark(path)
        && sensitive.contains(path) {
        let before = environment.diagnostics[diagnostic];
        assert(result.diagnostics[diagnostic] == redacted_diagnostic(before, sensitive));
        let entry = before.details[detail];
        assert(result.diagnostics[diagnostic].details[detail] == redacted_entry(
            entry,
            before.code,
            sensitive,
        ));
        if wholly_sensitive(before.code) {
            no_path_in_the_mark(path);
        } else {
            redacted_text_holds_no_path(entry.1, sensitive, path);
        }
    }
}

proof fn no_path_in_the_mark(path: Seq<char>)
    requires
        apart_from_mark(path),
    ensures
        !occurs(REDACTED@, path),
{
    if occurs(REDACTED@, path) {
        let at = choose|at: int| #[trigger] stands_at(REDACTED@, path, at);
        assert(REDACTED@ + Seq::<char>::empty() =~= REDACTED@);
        follows_the_mark(path, Seq::empty(), at);
    }
}

// ---------------------------------------------------------------------------
// Reports

/// `text`, or the mark where it is the path of the interpreter.
pub open spec fn without_path(text: Seq<char>, path: Option<Seq<char>>) -> Seq<char> {
    if path == Some(text) {
        REDACTED@
    } else {
        text
    }
}

/// A command without the path of the interpreter.
pub open spec fn redacted_command(command: CommandSpecView, path: Option<Seq<char>>) ->
    CommandSpecView {
    let program = without_path(command.program, path);
    let args = command.args.map_values(|argument: Seq<char>| without_path(argument, path));
    CommandSpecView { program, args, display: shell_line(program, args) }
}

/// A recommendation, redacted.
pub open spec fn redacted_report(report: RecommendationReportView) -> RecommendationReportView {
    RecommendationReportView {
        environment: redacted_environment(report.environment),
        install: match report.install {
            None => None,
            Some(command) => Some(
                redacted_command(
                    command,
                    match report.environment.python {
                        Some(python) => Some(python.executable.text),
                        None => None,
                    },
                ),
            ),
        },
        ..report
    }
}

fn hide_path(text: &str, path: &Option<String>) -> (result: String)
    ensures
        result@ == without_path(text@, path.deep_view()),
{
    let hidden = match path {
        Some(secret) => same(secret.as_str(), text),
        None => false,
    };
    if hidden {
        REDACTED.to_owned()
    } else {
        text.to_owned()
    }
}

fn redact_command(command: &CommandSpec, path: &Option<String>) -> (result: CommandSpec)
    ensures
        result.deep_view() == redacted_command(command.deep_view(), path.deep_view()),
{
    let ghost hidden = path.deep_view();
    let ghost all = command.deep_view().args.map_values(
        |argument: Seq<char>| without_path(argument, hidden),
    );
    let program = hide_path(command.program.as_str(), path);
    let mut args: Vec<String> = Vec::new();
    let mut index: usize = 0;
    while index < command.args.len()
        invariant
            index <= command.args@.len(),
            hidden == path.deep_view(),
            all == command.deep_view().args.map_values(
                |argument: Seq<char>| without_path(argument, hidden),
            ),
            args.deep_view() == all.take(index as int),
        decreases command.args@.len() - index,
    {
        assert(command.deep_view().args[index as int] == command.args@[index as int]@);
        push_item(&mut args, hide_path(command.args[index].as_str(), path));
        assert(all.take(index + 1) =~= all.take(index as int).push(all[index as int]));
        index = index + 1;
    }
    assert(all.take(index as int) =~= all);
    let display = shell_display(program.as_str(), &args);
    CommandSpec { program, args, display }
}

/// Removes the identifiers of processors and the local paths from a recommendation. Candidates
/// hold only public package metadata and stay as they are.
pub fn redact_recommendation(report: &mut RecommendationReport)
    ensures
        final(report).deep_view() == redacted_report(old(report).deep_view()),
{
    let path = match &report.environment.python {
        Some(python) => Some(python.executable.text.clone()),
        None => None,
    };
    let mut result = report.clone();
    redact_environment(&mut result.environment);
    result.install = match &report.install {
        Some(command) => Some(redact_command(command, &path)),
        None => None,
    };
    *report = result;
}

/// A check, redacted.
pub open spec fn redacted_check(
    check: VerificationCheckView,
    sensitive: Seq<Seq<char>>,
) -> VerificationCheckView {
    VerificationCheckView {
        detail: match check.detail {
            Some(detail) => Some(redacted(detail, sensitive)),
            None => None,
        },
        ..check
    }
}

/// A mapping without the identifier of the processor.
pub open spec fn redacted_mapping(mapping: VerificationGpuMappingView) ->
    VerificationGpuMappingView {
    VerificationGpuMappingView { uuid: None, ..mapping }
}

/// The identifiers of the processors of a selection.
pub open spec fn selected_identifiers(mappings: Seq<VerificationGpuMappingView>) -> Seq<Seq<char>>
    decreases mappings.len(),
{
    if mappings.len() == 0 {
        Seq::empty()
    } else {
        match mappings.last().uuid {
            Some(uuid) => selected_identifiers(mappings.drop_last()).push(uuid),
            None => selected_identifiers(mappings.drop_last()),
        }
    }
}

/// The sensitive values of a verification: the path of the interpreter, the root of the
/// installation that it stands in, the identifiers of the selected processors, and the sensitive
/// values of the environment.
pub open spec fn verification_secrets(
    report: VerificationReportView,
    environment: EnvironmentView,
) -> Seq<Seq<char>> {
    seq![report.python_executable.text] + (match root_above(report.python_executable.text) {
        Some(text) => seq![text],
        None => Seq::empty(),
    }) + selected_identifiers(report.gpu_selection) + sensitive_values(environment)
}

/// A verification of an environment, redacted.
pub open spec fn redacted_verification(
    report: VerificationReportView,
    environment: EnvironmentView,
) -> VerificationReportView {
    let sensitive = verification_secrets(report, environment);
    VerificationReportView {
        python_executable: path_of(REDACTED@),
        gpu_selection: report.gpu_selection.map_values(
            |mapping: VerificationGpuMappingView| redacted_mapping(mapping),
        ),
        checks: report.checks.map_values(
            |check: VerificationCheckView| redacted_check(check, sensitive),
        ),
        diagnostics: redacted_diagnostics(report.diagnostics, sensitive),
        error: match report.error {
            Some(error) => Some(redacted(error, sensitive)),
            None => None,
        },
        ..report
    }
}

fn redact_checks(checks: &Vec<VerificationCheck>, sensitive: &Vec<String>) -> (result: Vec<
    VerificationCheck,
>)
    ensures
        result.deep_view() == checks.deep_view().map_values(
            |check: VerificationCheckView| redacted_check(check, sensitive.deep_view()),
        ),
{
    let ghost values = sensitive.deep_view();
    let ghost all = checks.deep_view().map_values(
        |check: VerificationCheckView| redacted_check(check, values),
    );
    let mut result: Vec<VerificationCheck> = Vec::new();
    let mut index: usize = 0;
    while index < checks.len()
        invariant
            index <= checks@.len(),
            values == sensitive.deep_view(),
            all == checks.deep_view().map_values(
                |check: VerificationCheckView| redacted_check(check, values),
            ),
            result.deep_view() == all.take(index as int),
        decreases checks@.len() - index,
    {
        let check = &checks[index];
        let detail = match &check.detail {
            Some(detail) => Some(redact_text(detail.as_str(), sensitive)),
            None => None,
        };
        push_item(
            &mut result,
            VerificationCheck { name: check.name.clone(), passed: check.passed, detail },
        );
        assert(all[index as int] == redacted_check(checks@[index as int].deep_view(), values));
        assert(all.take(index + 1) =~= all.take(index as int).push(all[index as int]));
        index = index + 1;
    }
    assert(all.take(index as int) =~= all);
    result
}

fn redact_mappings(mappings: &Vec<VerificationGpuMapping>) -> (result: Vec<VerificationGpuMapping>)
    ensures
        result.deep_view() == mappings.deep_view().map_values(
            |mapping: VerificationGpuMappingView| redacted_mapping(mapping),
        ),
{
    let ghost all = mappings.deep_view().map_values(
        |mapping: VerificationGpuMappingView| redacted_mapping(mapping),
    );
    let mut result: Vec<VerificationGpuMapping> = Vec::new();
    let mut index: usize = 0;
    while index < mappings.len()
        invariant
            index <= mappings@.len(),
            all == mappings.deep_view().map_values(
                |mapping: VerificationGpuMappingView| redacted_mapping(mapping),
            ),
            result.deep_view() == all.take(index as int),
        decreases mappings@.len() - index,
    {
        push_item(
            &mut result,
            VerificationGpuMapping {
                physical_index: mappings[index].physical_index,
                logical_index: mappings[index].logical_index,
                uuid: None,
            },
        );
        assert(all[index as int] == redacted_mapping(mappings@[index as int].deep_view()));
        assert(all.take(index + 1) =~= all.take(index as int).push(all[index as int]));
        index = index + 1;
    }
    assert(all.take(index as int) =~= all);
    result
}

fn list_selected(mappings: &Vec<VerificationGpuMapping>) -> (values: Vec<String>)
    ensures
        values.deep_view() == selected_identifiers(mappings.deep_view()),
{
    let ghost all = mappings.deep_view();
    let mut values: Vec<String> = Vec::new();
    let mut index: usize = 0;
    assert(all.take(0) =~= Seq::empty());
    assert(values.deep_view() =~= selected_identifiers(all.take(0)));
    while index < mappings.len()
        invariant
            all == mappings.deep_view(),
            index <= mappings@.len(),
            values.deep_view() == selected_identifiers(all.take(index as int)),
        decreases mappings@.len() - index,
    {
        assert(all.take(index + 1).drop_last() =~= all.take(index as int));
        assert(all.take(index + 1).last() == mappings@[index as int].deep_view());
        if let Some(uuid) = &mappings[index].uuid {
            push_item(&mut values, uuid.clone());
        }
        index = index + 1;
    }
    assert(all.take(index as int) =~= all);
    values
}

/// Removes the identifiers of processors and the local paths from a verification of an
/// environment.
pub fn redact_verification(report: &mut VerificationReport, environment: &Environment)
    ensures
        final(report).deep_view() == redacted_verification(
            old(report).deep_view(),
            environment.deep_view(),
        ),
{
    let mut sensitive: Vec<String> = Vec::new();
    push_item(&mut sensitive, report.python_executable.text.clone());
    if let Some(text) = interpreter_root(&report.python_executable) {
        push_item(&mut sensitive, text);
    }
    let mut selected = list_selected(&report.gpu_selection);
    append_texts(&mut sensitive, &mut selected);
    let mut known = list_sensitive(environment);
    append_texts(&mut sensitive, &mut known);
    assert(sensitive.deep_view() =~= verification_secrets(
        report.deep_view(),
        environment.deep_view(),
    ));
    let mut result = report.clone();
    result.python_executable = FilePath::new(REDACTED);
    result.gpu_selection = redact_mappings(&report.gpu_selection);
    result.checks = redact_checks(&report.checks, &sensitive);
    result.diagnostics = redact_diagnostics(&report.diagnostics, &sensitive);
    result.error = match &report.error {
        Some(error) => Some(redact_text(error.as_str(), &sensitive)),
        None => None,
    };
    *report = result;
}

/// A redacted recommendation never names the path of the interpreter in its install command, nor
/// as the interpreter of its environment.
pub proof fn redacted_command_hides_the_interpreter(report: RecommendationReportView, argument: int)
    ensures
        ({
            let result = redacted_report(report);
            (report.environment.python matches Some(python) && python.executable.text != REDACTED@)
                ==> {
                &&& result.environment.python matches Some(shown)
                &&& shown.executable == path_of(REDACTED@)
                &&& result.install matches Some(command) ==> {
                    &&& command.program != report.environment.python->0.executable.text
                    &&& 0 <= argument < command.args.len() ==> command.args[argument]
                        != report.environment.python->0.executable.text
                    &&& command.display == shell_line(command.program, command.args)
                }
            }
        }),
{
}

proof fn selected_identifiers_are_listed(mappings: Seq<VerificationGpuMappingView>, gpu: int)
    requires
        0 <= gpu < mappings.len(),
    ensures
        mappings[gpu].uuid matches Some(uuid) ==> selected_identifiers(mappings).contains(uuid),
    decreases mappings.len(),
{
    let rest = selected_identifiers(mappings.drop_last());
    let all = selected_identifiers(mappings);
    if gpu < mappings.len() - 1 {
        selected_identifiers_are_listed(mappings.drop_last(), gpu);
        if let Some(uuid) = mappings[gpu].uuid {
            let at = choose|i: int| 0 <= i < rest.len() && rest[i] == uuid;
            assert(all[at] == uuid);
        }
    } else if let Some(uuid) = mappings[gpu].uuid {
        assert(all[rest.len() as int] == uuid);
    }
}

/// What is to be hidden of a verification: the path of the interpreter, the root of its
/// installation, the identifiers of the selected processors and of those of the environment, and
/// the paths of the environment.
pub proof fn secrets_of_a_verification(
    report: VerificationReportView,
    environment: EnvironmentView,
    value: Seq<char>,
    gpu: int,
)
    ensures
        ({
            let secrets = verification_secrets(report, environment);
            &&& secrets.contains(report.python_executable.text)
            &&& root_above(report.python_executable.text) == Some(value) ==> secrets.contains(value)
            &&& 0 <= gpu < report.gpu_selection.len() && report.gpu_selection[gpu].uuid == Some(
                value,
            ) ==> secrets.contains(value)
            &&& 0 <= gpu < environment.nvidia.gpus.len() && environment.nvidia.gpus[gpu].uuid
                == Some(value) ==> secrets.contains(value)
            &&& sensitive_values(environment).contains(value) ==> secrets.contains(value)
        }),
{
    let secrets = verification_secrets(report, environment);
    let selected = selected_identifiers(report.gpu_selection);
    let known = sensitive_values(environment);
    assert(secrets[0] == report.python_executable.text);
    if root_above(report.python_executable.text) == Some(value) {
        assert(secrets[1] == value);
    }
    if 0 <= gpu < report.gpu_selection.len() && report.gpu_selection[gpu].uuid == Some(value) {
        selected_identifiers_are_listed(report.gpu_selection, gpu);
        let at = choose|i: int| 0 <= i < selected.len() && selected[i] == value;
        assert(secrets[secrets.len() - known.len() - selected.len() + at] == value);
    }
    if 0 <= gpu < environment.nvidia.gpus.len() && environment.nvidia.gpus[gpu].uuid == Some(
        value,
    ) {
        identifiers_are_sensitive(environment, gpu);
    }
    if known.contains(value) {
        let at = choose|i: int| 0 <= i < known.len() && known[i] == value;
        assert(secrets[secrets.len() - known.len() + at] == value);
    }
}

/// A redacted verification holds no identifier of a processor and not the path of the
/// interpreter; and neither the details of its checks and diagnostics nor its error hold one of
/// its sensitive values that is apart from the mark.
pub proof fn redacted_verification_hides_identifiers_and_paths(
    report: VerificationReportView,
    environment: EnvironmentView,
    gpu: int,
    check: int,
    diagnostic: int,
    detail: int,
    path: Seq<char>,
)
    requires
        apart_from_mark(path),
        verification_secrets(report, environment).contains(path),
    ensures
        ({
            let result = redacted_verification(report, environment);
            &&& result.python_executable == path_of(REDACTED@)
            &&& 0 <= gpu < result.gpu_selection.len() ==> result.gpu_selection[gpu].uuid is None
            &&& 0 <= check < result.checks.len() ==> (result.checks[check].detail matches Some(text)
                ==> !occurs(text, path))
            &&& 0 <= diagnostic < result.diagnostics.len() && 0 <= detail
                < result.diagnostics[diagnostic].details.len() ==> !occurs(
                result.diagnostics[diagnostic].details[detail].1,
                path,
            )
            &&& result.error matches Some(error) ==> !occurs(error, path)
        }),
{
    let result = redacted_verification(report, environment);
    let sensitive = verification_secrets(report, environment);
    if 0 <= check < result.checks.len() {
        if let Some(text) = report.checks[check].detail {
            redacted_text_holds_no_path(text, sensitive, path);
        }
    }
    if 0 <= diagnostic < result.diagnostics.len() && 0 <= detail
        < result.diagnostics[diagnostic].details.len() {
        let before = report.diagnostics[diagnostic];
        assert(result.diagnostics[diagnostic] == redacted_diagnostic(before, sensitive));
        let entry = before.details[detail];
        assert(result.diagnostics[diagnostic].details[detail] == redacted_entry(
            entry,
            before.code,
            sensitive,
        ));
        if wholly_sensitive(before.code) {
            no_path_in_the_mark(path);
        } else {
            redacted_text_holds_no_path(entry.1, sensitive, path);
        }
    }
    if let Some(error) = report.error {
        redacted_text_holds_no_path(error, sensitive, path);
    }
}

} // verus!
