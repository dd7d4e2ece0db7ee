//! Reports as text for people.

use crate::groups::{
    format_gpu_indices, gpu_groups, group_gpus, indices_words, HumanGpuGroup, HumanGpuGroupView,
};
use crate::model::{
    abi_tag, architecture_text, capability_text, os_text, variant_text, Candidate, CandidateView,
    CandidateWarning, CandidateWarningView, CandidatesReport, CandidatesReportView, CheckStatus,
    CompatibilityCheck, CompatibilityCheckView, CompatibilityStatus, ComputeCapability,
    DecisionReason, DecisionReasonView, Diagnostic, DiagnosticCode, DiagnosticSeverity,
    DiagnosticView, Environment, EnvironmentView, ExplainReport, ExplainReportView, MetadataInfo,
    MetadataInfoView, PythonInfo, PythonInfoView, VerificationCheck, VerificationCheckView,
    VerificationGpuMapping, VerificationGpuMappingView, VerificationReport, VerificationReportView,
    VerifiedDevice, VerifiedDeviceView,
};
use crate::order::{kept, kept_members};
use crate::outside::{split_url, url_parts};
use crate::pieces::split_of_one_piece;
use crate::terminal::{
    begins_otherwise, has_line, is_ended, line, line_appends, line_is_added, shown, terminal_text,
    wrapped, wrapped_appends, wrapped_lines_are_others, write_line, write_wrapped,
};
use crate::text::{concat2, decimal, decimal_text, push_item};
use crate::version::{NumericVersion, NumericVersionView};
use crate::wording::{
    check_status_name, check_words, compatibility_name, compatibility_words,
    diagnostic_severity_name, diagnostic_text, diagnostic_words, duration_words, human_duration,
    implementation_words, metadata_origin_name, nvidia_status_text, nvidia_words, optional_bool,
    origin_words, python_implementation_name, reason_text, reason_words, severity_words,
    truth_words, warning_text, warning_words,
};
use vstd::prelude::*;

verus! {

// ---------------------------------------------------------------------------
// Lists of texts

/// `out` followed by texts, each wrapped.
pub open spec fn put_each(
    out: Seq<char>,
    texts: Seq<Seq<char>>,
    first: Seq<char>,
    next: Seq<char>,
    width: nat,
) -> Seq<char>
    decreases texts.len(),
{
    if texts.len() == 0 {
        out
    } else {
        wrapped(
            put_each(out, texts.drop_last(), first, next, width),
            first,
            next,
            texts.last(),
            width,
        )
    }
}

/// Appends texts, each wrapped.
pub fn write_each(output: &mut String, texts: &Vec<String>, first: &str, next: &str, width: usize)
    ensures
        final(output)@ == put_each(
            old(output)@,
            texts.deep_view(),
            first@,
            next@,
            width as nat,
        ),
{
    let ghost start = output@;
    let ghost all = texts.deep_view();
    let mut index: usize = 0;
    while index < texts.len()
        invariant
            index <= texts@.len(),
            all == texts.deep_view(),
            output@ == put_each(start, all.take(index as int), first@, next@, width as nat),
        decreases texts@.len() - index,
    {
        assert(all.take(index + 1).drop_last() =~= all.take(index as int));
        assert(all.take(index + 1).last() == texts@[index as int]@);
        write_wrapped(output, first, next, texts[index].as_str(), width);
        index = index + 1;
    }
    assert(all.take(index as int) =~= all);
}

/// `out` followed by texts, each wrapped after a mark of its own.
pub open spec fn put_marked(
    out: Seq<char>,
    items: Seq<(Seq<char>, Seq<char>)>,
    next: Seq<char>,
    width: nat,
) -> Seq<char>
    decreases items.len(),
{
    if items.len() == 0 {
        out
    } else {
        wrapped(
            put_marked(out, items.drop_last(), next, width),
            items.last().0,
            next,
            items.last().1,
            width,
        )
    }
}

/// Appends texts, each wrapped after a mark of its own.
pub fn write_marked(output: &mut String, items: &Vec<(String, String)>, next: &str, width: usize)
    ensures
        final(output)@ == put_marked(old(output)@, items.deep_view(), next@, width as nat),
{
    let ghost start = output@;
    let ghost all = items.deep_view();
    let mut index: usize = 0;
    while index < items.len()
        invariant
            index <= items@.len(),
            all == items.deep_view(),
            output@ == put_marked(start, all.take(index as int), next@, width as nat),
        decreases items@.len() - index,
    {
        assert(all.take(index + 1).drop_last() =~= all.take(index as int));
        assert(all.take(index + 1).last() == items@[index as int].deep_view());
        write_wrapped(output, items[index].0.as_str(), next, items[index].1.as_str(), width);
        index = index + 1;
    }
    assert(all.take(index as int) =~= all);
}

/// An optional text, or that it is not known.
pub open spec fn or_unknown(value: Option<Seq<char>>) -> Seq<char> {
    match value {
        Some(text) => text,
        None => "unknown"@,
    }
}

/// An optional text, or that it is not known.
pub fn optional(value: &Option<String>) -> (text: String)
    ensures
        text@ == or_unknown(value.deep_view()),
{
    match value {
        Some(text) => text.clone(),
        None => "unknown".to_owned(),
    }
}

/// An optional version, or that it is not known.
pub open spec fn version_or_unknown(version: Option<NumericVersionView>) -> Seq<char> {
    match version {
        Some(known) => known.text,
        None => "unknown"@,
    }
}

fn optional_version(version: &Option<NumericVersion>) -> (text: String)
    ensures
        text@ == version_or_unknown(version.deep_view()),
{
    match version {
        Some(known) => known.to_string(),
        None => "unknown".to_owned(),
    }
}

/// Diagnostics as marked texts.
pub open spec fn diagnostic_items(diagnostics: Seq<DiagnosticView>) -> Seq<(Seq<char>, Seq<char>)> {
    diagnostics.map_values(
        |diagnostic: DiagnosticView|
            ("  "@ + severity_words(diagnostic.severity) + ": "@, diagnostic_words(diagnostic)),
    )
}

/// Diagnostics as marked texts.
pub fn list_diagnostics(diagnostics: &Vec<Diagnostic>) -> (items: Vec<(String, String)>)
    ensures
        items.deep_view() == diagnostic_items(diagnostics.deep_view()),
{
    let ghost all = diagnostic_items(diagnostics.deep_view());
    let mut items: Vec<(String, String)> = Vec::new();
    let mut index: usize = 0;
    while index < diagnostics.len()
        invariant
            index <= diagnostics@.len(),
            all == diagnostic_items(diagnostics.deep_view()),
            items.deep_view() == all.take(index as int),
        decreases diagnostics@.len() - index,
    {
        let diagnostic = &diagnostics[index];
        let mut mark = "  ".to_owned();
        mark.append(diagnostic_severity_name(diagnostic.severity));
        mark.append(": ");
        let item = (mark, diagnostic_text(diagnostic));
        assert(item.deep_view() == all[index as int]);
        push_item(&mut items, item);
        assert(all.take(index + 1) =~= all.take(index as int).push(all[index as int]));
        index = index + 1;
    }
    assert(all.take(index as int) =~= all);
    items
}

// ---------------------------------------------------------------------------
// Environments

/// The line on the system.
pub open spec fn system_words(environment: EnvironmentView) -> Seq<char> {
    shown(
        match environment.platform.distribution {
            Some(name) => name,
            None => os_text(environment.platform.os),
        },
    ) + " · "@ + shown(architecture_text(environment.platform.architecture)) + " · kernel "@
        + shown(or_unknown(environment.platform.kernel_version))
}

/// The line on the interpreter.
pub open spec fn python_words(python: PythonInfoView, glibc: Option<NumericVersionView>) -> Seq<
    char,
> {
    implementation_words(python.implementation) + " "@ + python.version.text + " · "@ + shown(
        match abi_tag(python) {
            Some(tag) => tag,
            None => or_unknown(python.soabi),
        },
    ) + " · glibc "@ + version_or_unknown(glibc)
}

/// `out` followed by the section on the system.
pub open spec fn put_system(out: Seq<char>, environment: EnvironmentView, width: nat) -> Seq<char> {
    let titled = line(out, "System"@);
    let described = wrapped(titled, "  "@, "  "@, system_words(environment), width);
    match environment.python {
        Some(python) => wrapped(
            wrapped(described, "  "@, "  "@, python_words(python, environment.glibc), width),
            "  Python "@,
            "    "@,
            shown(python.executable.text),
            width,
        ),
        None => wrapped(
            described,
            "  "@,
            "  "@,
            "Python not found · glibc "@ + version_or_unknown(environment.glibc),
            width,
        ),
    }
}

fn system_text(environment: &Environment) -> (text: String)
    ensures
        text@ == system_words(environment.deep_view()),
{
    let name = match &environment.platform.distribution {
        Some(name) => name.clone(),
        None => environment.platform.os.to_string(),
    };
    let architecture = environment.platform.architecture.to_string();
    let kernel = optional(&environment.platform.kernel_version);
    let mut text = terminal_text(name.as_str());
    text.append(" · ");
    text.append(terminal_text(architecture.as_str()).as_str());
    text.append(" · kernel ");
    text.append(terminal_text(kernel.as_str()).as_str());
    text
}

fn python_text(python: &PythonInfo, glibc: &Option<NumericVersion>) -> (text: String)
    ensures
        text@ == python_words(python.deep_view(), glibc.deep_view()),
{
    let abi = match python.cpython_abi_tag() {
        Some(tag) => tag,
        None => optional(&python.soabi),
    };
    let version = python.version.to_string();
    let glibc_version = optional_version(glibc);
    let mut text = python_implementation_name(python.implementation.as_str());
    text.append(" ");
    text.append(version.as_str());
    text.append(" · ");
    text.append(terminal_text(abi.as_str()).as_str());
    text.append(" · glibc ");
    text.append(glibc_version.as_str());
    text
}

fn write_system(output: &mut String, environment: &Environment, width: usize)
    ensures
        final(output)@ == put_system(old(output)@, environment.deep_view(), width as nat),
{
    write_line(output, "System");
    write_wrapped(output, "  ", "  ", system_text(environment).as_str(), width);
    match &environment.python {
        Some(python) => {
            let description = python_text(python, &environment.glibc);
            write_wrapped(output, "  ", "  ", description.as_str(), width);
            let path = terminal_text(python.executable.text.as_str());
            write_wrapped(output, "  Python ", "    ", path.as_str(), width);
        },
        None => {
            let glibc = optional_version(&environment.glibc);
            let missing = concat2("Python not found · glibc ", glibc.as_str());
            write_wrapped(output, "  ", "  ", missing.as_str(), width);
        },
    }
}

/// The first line on a group of processors.
pub open spec fn group_words(group: HumanGpuGroupView) -> Seq<char> {
    if group.indices.len() > 1 {
        decimal(group.indices.len()) + "× "@ + shown(group.name)
    } else {
        shown(group.name)
    }
}

/// An optional compute capability, or that it is not known.
pub open spec fn capability_or_unknown(capability: Option<ComputeCapability>) -> Seq<char> {
    match capability {
        Some(known) => capability_text(known),
        None => "unknown"@,
    }
}

/// The second line on a group of processors.
pub open spec fn group_details(group: HumanGpuGroupView) -> Seq<char> {
    "CC "@ + capability_or_unknown(group.capability) + " · driver "@ + group.driver.text + " · "@
        + (if group.indices.len() > 1 {
        "GPUs"@
    } else {
        "GPU"@
    }) + " "@ + indices_words(group.indices)
}

/// `out` followed by the groups of processors.
pub open spec fn put_groups(out: Seq<char>, groups: Seq<HumanGpuGroupView>, width: nat) -> Seq<char>
    decreases groups.len(),
{
    if groups.len() == 0 {
        out
    } else {
        wrapped(
            wrapped(
                put_groups(out, groups.drop_last(), width),
                "  "@,
                "    "@,
                group_words(groups.last()),
                width,
            ),
            "    "@,
            "    "@,
            group_details(groups.last()),
            width,
        )
    }
}

fn group_text(group: &HumanGpuGroup) -> (text: String)
    ensures
        text@ == group_words(group.deep_view()),
{
    let name = terminal_text(group.name.as_str());
    if group.indices.len() > 1 {
        let mut text = decimal_text(group.indices.len() as u64);
        text.append("× ");
        text.append(name.as_str());
        text
    } else {
        name
    }
}

fn group_details_text(group: &HumanGpuGroup) -> (text: String)
    ensures
        text@ == group_details(group.deep_view()),
{
    let capability = match &group.capability {
        Some(known) => known.to_string(),
        None => "unknown".to_owned(),
    };
    let driver = group.driver.to_string();
    let mut text = "CC ".to_owned();
    text.append(capability.as_str());
    text.append(" · driver ");
    text.append(driver.as_str());
    text.append(" · ");
    text.append(
        if group.indices.len() > 1 {
            "GPUs"
        } else {
            "GPU"
        },
    );
    text.append(" ");
    text.append(format_gpu_indices(group.indices.as_slice()).as_str());
    text
}

fn write_groups(output: &mut String, groups: &Vec<HumanGpuGroup>, width: usize)
    ensures
        final(output)@ == put_groups(old(output)@, groups.deep_view(), width as nat),
{
    let ghost start = output@;
    let ghost all = groups.deep_view();
    let mut index: usize = 0;
    while index < groups.len()
        invariant
            index <= groups@.len(),
            all == groups.deep_view(),
            output@ == put_groups(start, all.take(index as int), width as nat),
        decreases groups@.len() - index,
    {
        assert(all.take(index + 1).drop_last() =~= all.take(index as int));
        assert(all.take(index + 1).last() == groups@[index as int].deep_view());
        let group = &groups[index];
        write_wrapped(output, "  ", "    ", group_text(group).as_str(), width);
        write_wrapped(output, "    ", "    ", group_details_text(group).as_str(), width);
        index = index + 1;
    }
    assert(all.take(index as int) =~= all);
}

/// The line on what CUDA the driver and the toolkit report.
pub open spec fn cuda_words(environment: EnvironmentView) -> Seq<char> {
    "Reported CUDA "@ + version_or_unknown(environment.nvidia.reported_cuda_version)
        + " · toolkit "@ + (match environment.cuda_toolkit {
        Some(toolkit) => toolkit.version.text,
        None => "not found"@,
    }) + " · informational for wheels"@
}

/// `out` followed by the section on the processors.
pub open spec fn put_nvidia(out: Seq<char>, environment: EnvironmentView, width: nat) -> Seq<char> {
    let titled = line(line(out, ""@), "NVIDIA"@);
    let groups = gpu_groups(environment.nvidia.gpus);
    let described = if groups.len() == 0 {
        wrapped(
            wrapped(titled, "  "@, "  "@, nvidia_words(environment.nvidia.status), width),
            "  "@,
            "  "@,
            "Driver "@ + version_or_unknown(environment.nvidia.driver_version),
            width,
        )
    } else {
        put_groups(titled, groups, width)
    };
    wrapped(described, "  "@, "  "@, cuda_words(environment), width)
}

fn cuda_text(environment: &Environment) -> (text: String)
    ensures
        text@ == cuda_words(environment.deep_view()),
{
    let reported = optional_version(&environment.nvidia.reported_cuda_version);
    let toolkit = match &environment.cuda_toolkit {
        Some(toolkit) => toolkit.version.to_string(),
        None => "not found".to_owned(),
    };
    let mut text = "Reported CUDA ".to_owned();
    text.append(reported.as_str());
    text.append(" · toolkit ");
    text.append(toolkit.as_str());
    text.append(" · informational for wheels");
    text
}

fn write_nvidia(output: &mut String, environment: &Environment, width: usize)
    ensures
        final(output)@ == put_nvidia(old(output)@, environment.deep_view(), width as nat),
{
    write_line(output, "");
    write_line(output, "NVIDIA");
    let groups = group_gpus(environment);
    if groups.len() == 0 {
        write_wrapped(output, "  ", "  ", nvidia_status_text(environment.nvidia.status), width);
        let version = optional_version(&environment.nvidia.driver_version);
        let driver = concat2("Driver ", version.as_str());
        write_wrapped(output, "  ", "  ", driver.as_str(), width);
    } else {
        write_groups(output, &groups, width);
    }
    write_wrapped(output, "  ", "  ", cuda_text(environment).as_str(), width);
}

/// Whether a diagnostic is listed among the notes.
pub open spec fn noteworthy() -> spec_fn(DiagnosticView) -> bool {
    |diagnostic: DiagnosticView| diagnostic.code != DiagnosticCode::CudaToolkitNotFound
}

/// `out` followed by the notes on the environment, if there are any.
pub open spec fn put_notes(out: Seq<char>, environment: EnvironmentView, width: nat) -> Seq<char> {
    let notes = kept(environment.diagnostics, noteworthy());
    if notes.len() == 0 {
        out
    } else {
        put_marked(
            line(line(out, ""@), "Environment notes"@),
            diagnostic_items(notes),
            "    "@,
            width,
        )
    }
}

fn noteworthy_diagnostics(diagnostics: &Vec<Diagnostic>) -> (notes: Vec<Diagnostic>)
    ensures
        notes.deep_view() == kept(diagnostics.deep_view(), noteworthy()),
{
    let ghost all = diagnostics.deep_view();
    let mut notes: Vec<Diagnostic> = Vec::new();
    let mut index: usize = 0;
    assert(all.take(0) =~= Seq::<DiagnosticView>::empty());
    while index < diagnostics.len()
        invariant
            index <= diagnostics@.len(),
            all == diagnostics.deep_view(),
            notes.deep_view() == kept(all.take(index as int), noteworthy()),
        decreases diagnostics@.len() - index,
    {
        assert(all.take(index + 1).drop_last() =~= all.take(index as int));
        assert(all.take(index + 1).last() == diagnostics@[index as int].deep_view());
        if diagnostics[index].code != DiagnosticCode::CudaToolkitNotFound {
            push_item(&mut notes, diagnostics[index].clone());
        }
        index = index + 1;
    }
    assert(all.take(index as int) =~= all);
    notes
}

/// `out` followed by an environment.
#[verifier::opaque]
pub open spec fn put_environment(out: Seq<char>, environment: EnvironmentView, width: nat) -> Seq<
    char,
> {
    put_notes(
        put_nvidia(put_system(out, environment, width), environment, width),
        environment,
        width,
    )
}

/// Appends an environment. What is appended does not depend on what stands before it.
pub fn write_environment(output: &mut String, environment: &Environment, width: usize)
    ensures
        final(output)@ == put_environment(old(output)@, environment.deep_view(), width as nat),
        final(output)@ == old(output)@ + put_environment(
            ""@,
            environment.deep_view(),
            width as nat,
        ),
{
    proof {
        reveal(put_environment);
        reveal_strlit("");
        assert(""@ =~= Seq::<char>::empty());
        environment_is_appended(output@, environment.deep_view(), width as nat);
    }
    write_system(output, environment, width);
    write_nvidia(output, environment, width);
    let notes = noteworthy_diagnostics(&environment.diagnostics);
    if notes.len() > 0 {
        write_line(output, "");
        write_line(output, "Environment notes");
        write_marked(output, &list_diagnostics(&notes), "    ", width);
    }
}

proof fn groups_are_appended(
    out: Seq<char>,
    more: Seq<char>,
    groups: Seq<HumanGpuGroupView>,
    width: nat,
)
    ensures
        put_groups(out + more, groups, width) == out + put_groups(more, groups, width),
    decreases groups.len(),
{
    if groups.len() > 0 {
        let group = groups.last();
        let head = put_groups(more, groups.drop_last(), width);
        groups_are_appended(out, more, groups.drop_last(), width);
        wrapped_appends(out, head, "  "@, "    "@, group_words(group), width);
        wrapped_appends(
            out,
            wrapped(head, "  "@, "    "@, group_words(group), width),
            "    "@,
            "    "@,
            group_details(group),
            width,
        );
    }
}

proof fn marked_are_appended(
    out: Seq<char>,
    more: Seq<char>,
    items: Seq<(Seq<char>, Seq<char>)>,
    next: Seq<char>,
    width: nat,
)
    ensures
        put_marked(out + more, items, next, width) == out + put_marked(more, items, next, width),
    decreases items.len(),
{
    if items.len() > 0 {
        marked_are_appended(out, more, items.drop_last(), next, width);
        wrapped_appends(
            out,
            put_marked(more, items.drop_last(), next, width),
            items.last().0,
            next,
            items.last().1,
            width,
        );
    }
}

proof fn system_is_appended(
    out: Seq<char>,
    more: Seq<char>,
    environment: EnvironmentView,
    width: nat,
)
    ensures
        put_system(out + more, environment, width) == out + put_system(more, environment, width),
{
    let titled = line(more, "System"@);
    let described = wrapped(titled, "  "@, "  "@, system_words(environment), width);
    line_appends(out, more, "System"@);
    wrapped_appends(out, titled, "  "@, "  "@, system_words(environment), width);
    match environment.python {
        Some(python) => {
            let words = python_words(python, environment.glibc);
            wrapped_appends(out, described, "  "@, "  "@, words, width);
            wrapped_appends(
                out,
                wrapped(described, "  "@, "  "@, words, width),
                "  Python "@,
                "    "@,
                shown(python.executable.text),
                width,
            );
        },
        None => {
            wrapped_appends(
                out,
                described,
                "  "@,
                "  "@,
                "Python not found · glibc "@ + version_or_unknown(environment.glibc),
                width,
            );
        },
    }
}

proof fn nvidia_is_appended(
    out: Seq<char>,
    more: Seq<char>,
    environment: EnvironmentView,
    width: nat,
)
    ensures
        put_nvidia(out + more, environment, width) == out + put_nvidia(more, environment, width),
{
    let titled = line(line(more, ""@), "NVIDIA"@);
    let groups = gpu_groups(environment.nvidia.gpus);
    line_appends(out, more, ""@);
    line_appends(out, line(more, ""@), "NVIDIA"@);
    if groups.len() == 0 {
        let status = wrapped(titled, "  "@, "  "@, nvidia_words(environment.nvidia.status), width);
        let driver = "Driver "@ + version_or_unknown(environment.nvidia.driver_version);
        wrapped_appends(
            out,
            titled,
            "  "@,
            "  "@,
            nvidia_words(environment.nvidia.status),
            width,
        );
        wrapped_appends(out, status, "  "@, "  "@, driver, width);
        wrapped_appends(
            out,
            wrapped(status, "  "@, "  "@, driver, width),
            "  "@,
            "  "@,
            cuda_words(environment),
            width,
        );
    } else {
        groups_are_appended(out, titled, groups, width);
        wrapped_appends(
            out,
            put_groups(titled, groups, width),
            "  "@,
            "  "@,
            cuda_words(environment),
            width,
        );
    }
}

/// An environment is only appended: what stands before it stays, and does not change it.
pub proof fn environment_is_appended(out: Seq<char>, environment: EnvironmentView, width: nat)
    ensures
        put_environment(out, environment, width) == out + put_environment(
            Seq::empty(),
            environment,
            width,
        ),
{
    reveal(put_environment);
    let none = Seq::<char>::empty();
    let notes = kept(environment.diagnostics, noteworthy());
    let system = put_system(none, environment, width);
    let body = put_nvidia(system, environment, width);
    assert(out + none =~= out);
    system_is_appended(out, none, environment, width);
    nvidia_is_appended(out, system, environment, width);
    line_appends(out, body, ""@);
    line_appends(out, line(body, ""@), "Environment notes"@);
    marked_are_appended(
        out,
        line(line(body, ""@), "Environment notes"@),
        diagnostic_items(notes),
        "    "@,
        width,
    );
}

proof fn marked_keep_what_stands(
    out: Seq<char>,
    items: Seq<(Seq<char>, Seq<char>)>,
    next: Seq<char>,
    width: nat,
)
    ensures
        out.is_prefix_of(put_marked(out, items, next, width)),
{
    let none = Seq::<char>::empty();
    assert(out + none =~= out);
    marked_are_appended(out, none, items, next, width);
    assert(out =~= (out + put_marked(none, items, next, width)).subrange(0, out.len() as int));
}

/// The heading of the notes stands after the processors exactly where there is a diagnostic other
/// than the missing toolkit; without one the environment ends with the processors.
pub proof fn notes_stand_where_there_is_something_to_note(
    out: Seq<char>,
    environment: EnvironmentView,
    width: nat,
)
    ensures
        ({
            let body = put_nvidia(put_system(out, environment, width), environment, width);
            let page = put_environment(out, environment, width);
            if exists|i: int|
                0 <= i < environment.diagnostics.len() && (
                #[trigger] environment.diagnostics[i]).code
                    != DiagnosticCode::CudaToolkitNotFound {
                line(line(body, ""@), "Environment notes"@).is_prefix_of(page)
            } else {
                page == body
            }
        }),
{
    reveal(put_environment);
    let diagnostics = environment.diagnostics;
    let notes = kept(diagnostics, noteworthy());
    let body = put_nvidia(put_system(out, environment, width), environment, width);
    if exists|i: int|
        0 <= i < diagnostics.len() && (#[trigger] diagnostics[i]).code
            != DiagnosticCode::CudaToolkitNotFound {
        let i = choose|i: int|
            0 <= i < diagnostics.len() && (#[trigger] diagnostics[i]).code
                != DiagnosticCode::CudaToolkitNotFound;
        assert(diagnostics.contains(diagnostics[i]));
        kept_members(diagnostics, noteworthy(), diagnostics[i]);
        assert(notes.len() > 0);
        marked_keep_what_stands(
            line(line(body, ""@), "Environment notes"@),
            diagnostic_items(notes),
            "    "@,
            width,
        );
    } else if notes.len() > 0 {
        assert(notes.contains(notes[0]));
        kept_members(diagnostics, noteworthy(), notes[0]);
        let i = choose|i: int| 0 <= i < diagnostics.len() && diagnostics[i] == notes[0];
        assert(diagnostics[i].code != DiagnosticCode::CudaToolkitNotFound);
    }
}

/// Whether nothing of an environment but a heading begins as `wanted` does.
spec fn is_a_heading(wanted: Seq<char>) -> bool {
    wanted.len() > 0 && wanted[0] != ' '
}

proof fn indents_begin_otherwise(wanted: Seq<char>)
    requires
        is_a_heading(wanted),
    ensures
        begins_otherwise("  "@, wanted),
        begins_otherwise("    "@, wanted),
        begins_otherwise("  Python "@, wanted),
{
    reveal_strlit("  ");
    reveal_strlit("    ");
    reveal_strlit("  Python ");
}

proof fn marks_begin_otherwise(severity: DiagnosticSeverity, wanted: Seq<char>)
    requires
        is_a_heading(wanted),
    ensures
        begins_otherwise("  "@ + severity_words(severity) + ": "@, wanted),
{
    reveal_strlit("  ");
    reveal_strlit(": ");
    reveal_strlit("Info");
    reveal_strlit("Warning");
    reveal_strlit("Error");
    let mark = "  "@ + severity_words(severity) + ": "@;
    let words = severity_words(severity);
    assert(mark[0] == ' ');
    assert forall|i: int| 0 <= i < mark.len() implies mark[i] != '\n' by {
        if 2 <= i < 2 + words.len() {
            assert(mark[i] == words[i - 2]);
        } else if i >= 2 + words.len() {
            assert(mark[i] == ": "@[i - 2 - words.len()]);
        }
    }
}

proof fn groups_add_no_heading(
    out: Seq<char>,
    groups: Seq<HumanGpuGroupView>,
    width: nat,
    wanted: Seq<char>,
)
    requires
        is_ended(out),
        is_a_heading(wanted),
    ensures
        is_ended(put_groups(out, groups, width)),
        has_line(put_groups(out, groups, width), wanted) == has_line(out, wanted),
    decreases groups.len(),
{
    indents_begin_otherwise(wanted);
    if groups.len() > 0 {
        let group = groups.last();
        let head = put_groups(out, groups.drop_last(), width);
        groups_add_no_heading(out, groups.drop_last(), width, wanted);
        wrapped_lines_are_others(head, "  "@, "    "@, group_words(group), width, wanted);
        wrapped_lines_are_others(
            wrapped(head, "  "@, "    "@, group_words(group), width),
            "    "@,
            "    "@,
            group_details(group),
            width,
            wanted,
        );
    }
}

proof fn diagnostics_add_no_heading(
    out: Seq<char>,
    diagnostics: Seq<DiagnosticView>,
    width: nat,
    wanted: Seq<char>,
)
    requires
        is_ended(out),
        is_a_heading(wanted),
    ensures
        is_ended(put_marked(out, diagnostic_items(diagnostics), "    "@, width)),
        has_line(put_marked(out, diagnostic_items(diagnostics), "    "@, width), wanted)
            == has_line(out, wanted),
    decreases diagnostics.len(),
{
    let items = diagnostic_items(diagnostics);
    if diagnostics.len() > 0 {
        let head = diagnostics.drop_last();
        assert(items.drop_last() =~= diagnostic_items(head));
        diagnostics_add_no_heading(out, head, width, wanted);
        indents_begin_otherwise(wanted);
        marks_begin_otherwise(diagnostics.last().severity, wanted);
        wrapped_lines_are_others(
            put_marked(out, items.drop_last(), "    "@, width),
            items.last().0,
            "    "@,
            items.last().1,
            width,
            wanted,
        );
    }
}

proof fn system_adds_its_heading(
    out: Seq<char>,
    environment: EnvironmentView,
    width: nat,
    wanted: Seq<char>,
)
    requires
        is_ended(out),
        is_a_heading(wanted),
    ensures
        is_ended(put_system(out, environment, width)),
        has_line(put_system(out, environment, width), wanted) <==> has_line(out, wanted) || wanted
            == "System"@,
{
    reveal_strlit("System");
    let titled = line(out, "System"@);
    let described = wrapped(titled, "  "@, "  "@, system_words(environment), width);
    indents_begin_otherwise(wanted);
    line_is_added(out, "System"@, wanted);
    wrapped_lines_are_others(titled, "  "@, "  "@, system_words(environment), width, wanted);
    match environment.python {
        Some(python) => {
            let words = python_words(python, environment.glibc);
            wrapped_lines_are_others(described, "  "@, "  "@, words, width, wanted);
            wrapped_lines_are_others(
                wrapped(described, "  "@, "  "@, words, width),
                "  Python "@,
                "    "@,
                shown(python.executable.text),
                width,
                wanted,
            );
        },
        None => {
            wrapped_lines_are_others(
                described,
                "  "@,
                "  "@,
                "Python not found · glibc "@ + version_or_unknown(environment.glibc),
                width,
                wanted,
            );
        },
    }
}

proof fn nvidia_adds_its_heading(
    out: Seq<char>,
    environment: EnvironmentView,
    width: nat,
    wanted: Seq<char>,
)
    requires
        is_ended(out),
        is_a_heading(wanted),
    ensures
        is_ended(put_nvidia(out, environment, width)),
        has_line(put_nvidia(out, environment, width), wanted) <==> has_line(out, wanted) || wanted
            == "NVIDIA"@,
{
    reveal_strlit("NVIDIA");
    reveal_strlit("");
    let titled = line(line(out, ""@), "NVIDIA"@);
    let groups = gpu_groups(environment.nvidia.gpus);
    indents_begin_otherwise(wanted);
    line_is_added(out, ""@, wanted);
    line_is_added(line(out, ""@), "NVIDIA"@, wanted);
    let described = if groups.len() == 0 {
        let words = nvidia_words(environment.nvidia.status);
        let driver = "Driver "@ + version_or_unknown(environment.nvidia.driver_version);
        let status = wrapped(titled, "  "@, "  "@, words, width);
        wrapped_lines_are_others(titled, "  "@, "  "@, words, width, wanted);
        wrapped_lines_are_others(status, "  "@, "  "@, driver, width, wanted);
        wrapped(status, "  "@, "  "@, driver, width)
    } else {
        groups_add_no_heading(titled, groups, width, wanted);
        put_groups(titled, groups, width)
    };
    wrapped_lines_are_others(described, "  "@, "  "@, cuda_words(environment), width, wanted);
}

/// Of the lines of an environment one is the heading of the notes exactly where there is a
/// diagnostic other than the missing toolkit, whatever the texts in the environment say.
pub proof fn notes_have_a_heading_where_there_is_something_to_note(
    environment: EnvironmentView,
    width: nat,
)
    ensures
        has_line(put_environment(Seq::empty(), environment, width), "Environment notes"@) <==> (
        exists|i: int|
            0 <= i < environment.diagnostics.len() && (#[trigger] environment.diagnostics[i]).code
                != DiagnosticCode::CudaToolkitNotFound),
{
    reveal(put_environment);
    reveal_strlit("Environment notes");
    reveal_strlit("System");
    reveal_strlit("NVIDIA");
    reveal_strlit("");
    let heading = "Environment notes"@;
    let none = Seq::<char>::empty();
    let diagnostics = environment.diagnostics;
    let notes = kept(diagnostics, noteworthy());
    let system = put_system(none, environment, width);
    let body = put_nvidia(system, environment, width);
    assert(heading.len() != "System"@.len() && heading.len() != "NVIDIA"@.len());
    assert(!none.contains('\n'));
    split_of_one_piece(none, '\n');
    assert(!has_line(none, heading));
    system_adds_its_heading(none, environment, width, heading);
    nvidia_adds_its_heading(system, environment, width, heading);
    if notes.len() > 0 {
        assert(notes.contains(notes[0]));
        kept_members(diagnostics, noteworthy(), notes[0]);
        let i = choose|i: int| 0 <= i < diagnostics.len() && diagnostics[i] == notes[0];
        assert(diagnostics[i].code != DiagnosticCode::CudaToolkitNotFound);
        line_is_added(body, ""@, heading);
        line_is_added(line(body, ""@), heading, heading);
        diagnostics_add_no_heading(line(line(body, ""@), heading), notes, width, heading);
    } else if exists|i: int|
        0 <= i < diagnostics.len() && (#[trigger] diagnostics[i]).code
            != DiagnosticCode::CudaToolkitNotFound {
        let i = choose|i: int|
            0 <= i < diagnostics.len() && (#[trigger] diagnostics[i]).code
                != DiagnosticCode::CudaToolkitNotFound;
        assert(diagnostics.contains(diagnostics[i]));
        kept_members(diagnostics, noteworthy(), diagnostics[i]);
    }
}

/// Shows an environment. The notes have their heading exactly where there is a diagnostic other
/// than the missing toolkit.
pub fn render_environment(environment: &Environment, width: usize) -> (text: String)
    ensures
        text@ == put_environment(""@, environment.deep_view(), width as nat),
        has_line(text@, "Environment notes"@) <==> (exists|i: int|
            0 <= i < environment.deep_view().diagnostics.len() && (
            #[trigger] environment.deep_view().diagnostics[i]).code
                != DiagnosticCode::CudaToolkitNotFound),
{
    let mut output = "".to_owned();
    write_environment(&mut output, environment, width);
    proof {
        reveal_strlit("");
        assert(""@ =~= Seq::<char>::empty());
        notes_have_a_heading_where_there_is_something_to_note(
            environment.deep_view(),
            width as nat,
        );
    }
    output
}

// ---------------------------------------------------------------------------
// Candidates

/// What a candidate is.
pub open spec fn candidate_words(candidate: CandidateView) -> Seq<char> {
    "PyTorch "@ + candidate.torch_version + " + "@ + variant_text(candidate.variant) + " ("@
        + compatibility_words(candidate.compatibility) + ")"@
}

/// The texts of warnings.
pub open spec fn warnings_words(warnings: Seq<CandidateWarningView>) -> Seq<Seq<char>> {
    warnings.map_values(|warning: CandidateWarningView| warning_words(warning))
}

/// The texts of reasons.
pub open spec fn reasons_words(reasons: Seq<DecisionReasonView>) -> Seq<Seq<char>> {
    reasons.map_values(|reason: DecisionReasonView| reason_words(reason))
}

/// The reasons of a check that failed.
pub open spec fn reasons_of_failure(check: CompatibilityCheckView) -> Seq<DecisionReasonView> {
    if check.status == CheckStatus::Fail {
        check.reasons
    } else {
        Seq::empty()
    }
}

/// The reasons of the checks that a candidate fails.
pub open spec fn failures(candidate: CandidateView) -> Seq<DecisionReasonView> {
    reasons_of_failure(candidate.checks.wheel) + reasons_of_failure(candidate.checks.python)
        + reasons_of_failure(candidate.checks.platform) + reasons_of_failure(
        candidate.checks.gpu_architecture,
    ) + reasons_of_failure(candidate.checks.driver)
}

/// `out` followed by the summary of a candidate.
pub open spec fn put_summary(
    out: Seq<char>,
    candidate: CandidateView,
    indent: Seq<char>,
    width: nat,
    details: bool,
) -> Seq<char> {
    let headed = wrapped(out, indent, indent + "  "@, candidate_words(candidate), width);
    let warned = if details {
        put_each(
            headed,
            warnings_words(candidate.warnings),
            indent + "  - "@,
            indent + "    "@,
            width,
        )
    } else {
        headed
    };
    if candidate.compatibility == CompatibilityStatus::Incompatible || candidate.compatibility
        == CompatibilityStatus::Unavailable {
        put_each(
            warned,
            reasons_words(failures(candidate)),
            indent + "  - "@,
            indent + "    "@,
            width,
        )
    } else {
        warned
    }
}

/// What a candidate is.
pub fn candidate_text(candidate: &Candidate) -> (text: String)
    ensures
        text@ == candidate_words(candidate.deep_view()),
{
    let mut text = "PyTorch ".to_owned();
    text.append(candidate.torch_version.as_str());
    text.append(" + ");
    text.append(candidate.variant.to_string().as_str());
    text.append(" (");
    text.append(compatibility_name(candidate.compatibility));
    text.append(")");
    text
}

/// The texts of warnings.
pub fn warning_texts(warnings: &Vec<CandidateWarning>) -> (texts: Vec<String>)
    ensures
        texts.deep_view() == warnings_words(warnings.deep_view()),
{
    let ghost all = warnings_words(warnings.deep_view());
    let mut texts: Vec<String> = Vec::new();
    let mut index: usize = 0;
    while index < warnings.len()
        invariant
            index <= warnings@.len(),
            all == warnings_words(warnings.deep_view()),
            texts.deep_view() == all.take(index as int),
        decreases warnings@.len() - index,
    {
        push_item(&mut texts, warning_text(&warnings[index]));
        assert(all[index as int] == warning_words(warnings@[index as int].deep_view()));
        assert(all.take(index + 1) =~= all.take(index as int).push(all[index as int]));
        index = index + 1;
    }
    assert(all.take(index as int) =~= all);
    texts
}

/// The texts of reasons.
pub fn reason_texts(reasons: &Vec<DecisionReason>) -> (texts: Vec<String>)
    ensures
        texts.deep_view() == reasons_words(reasons.deep_view()),
{
    let ghost all = reasons_words(reasons.deep_view());
    let mut texts: Vec<String> = Vec::new();
    let mut index: usize = 0;
    while index < reasons.len()
        invariant
            index <= reasons@.len(),
            all == reasons_words(reasons.deep_view()),
            texts.deep_view() == all.take(index as int),
        decreases reasons@.len() - index,
    {
        push_item(&mut texts, reason_text(&reasons[index]));
        assert(all[index as int] == reason_words(reasons@[index as int].deep_view()));
        assert(all.take(index + 1) =~= all.take(index as int).push(all[index as int]));
        index = index + 1;
    }
    assert(all.take(index as int) =~= all);
    texts
}

fn add_failure(reasons: &mut Vec<DecisionReason>, check: &CompatibilityCheck)
    ensures
        final(reasons).deep_view() == old(reasons).deep_view() + reasons_of_failure(
            check.deep_view(),
        ),
{
    let ghost start = reasons.deep_view();
    if check.status == CheckStatus::Fail {
        let ghost all = check.reasons.deep_view();
        let mut index: usize = 0;
        assert(start + all.take(0) =~= start);
        while index < check.reasons.len()
            invariant
                index <= check.reasons@.len(),
                all == check.reasons.deep_view(),
                reasons.deep_view() == start + all.take(index as int),
            decreases check.reasons@.len() - index,
        {
            push_item(reasons, check.reasons[index].clone());
            assert(start + all.take(index + 1) =~= (start + all.take(index as int)).push(
                all[index as int],
            ));
            index = index + 1;
        }
        assert(all.take(index as int) =~= all);
    } else {
        assert(start + Seq::<DecisionReasonView>::empty() =~= start);
    }
}

/// The reasons of the checks that a candidate fails.
pub fn failing_reasons(candidate: &Candidate) -> (reasons: Vec<DecisionReason>)
    ensures
        reasons.deep_view() == failures(candidate.deep_view()),
{
    let mut reasons: Vec<DecisionReason> = Vec::new();
    add_failure(&mut reasons, &candidate.checks.wheel);
    assert(reasons.deep_view() =~= reasons_of_failure(candidate.deep_view().checks.wheel));
    add_failure(&mut reasons, &candidate.checks.python);
    add_failure(&mut reasons, &candidate.checks.platform);
    add_failure(&mut reasons, &candidate.checks.gpu_architecture);
    add_failure(&mut reasons, &candidate.checks.driver);
    reasons
}

/// Appends the summary of a candidate.
pub fn write_candidate_summary(
    output: &mut String,
    candidate: &Candidate,
    indent: &str,
    width: usize,
    include_details: bool,
)
    ensures
        final(output)@ == put_summary(
            old(output)@,
            candidate.deep_view(),
            indent@,
            width as nat,
            include_details,
        ),
{
    let next = concat2(indent, "  ");
    let mark = concat2(indent, "  - ");
    let within = concat2(indent, "    ");
    write_wrapped(output, indent, next.as_str(), candidate_text(candidate).as_str(), width);
    if include_details {
        let warnings = warning_texts(&candidate.warnings);
        write_each(output, &warnings, mark.as_str(), within.as_str(), width);
    }
    if candidate.compatibility == CompatibilityStatus::Incompatible || candidate.compatibility
        == CompatibilityStatus::Unavailable {
        let reasons = reason_texts(&failing_reasons(candidate));
        write_each(output, &reasons, mark.as_str(), within.as_str(), width);
    }
}

/// `out` followed by the summaries of candidates.
pub open spec fn put_summaries(
    out: Seq<char>,
    candidates: Seq<CandidateView>,
    width: nat,
    details: bool,
) -> Seq<char>
    decreases candidates.len(),
{
    if candidates.len() == 0 {
        out
    } else {
        put_summary(
            put_summaries(out, candidates.drop_last(), width, details),
            candidates.last(),
            "  "@,
            width,
            details,
        )
    }
}

/// Appends the summaries of candidates.
pub fn write_summaries(output: &mut String, candidates: &Vec<Candidate>, width: usize, details: bool)
    ensures
        final(output)@ == put_summaries(
            old(output)@,
            candidates.deep_view(),
            width as nat,
            details,
        ),
{
    let ghost start = output@;
    let ghost all = candidates.deep_view();
    let mut index: usize = 0;
    while index < candidates.len()
        invariant
            index <= candidates@.len(),
            all == candidates.deep_view(),
            output@ == put_summaries(start, all.take(index as int), width as nat, details),
        decreases candidates@.len() - index,
    {
        assert(all.take(index + 1).drop_last() =~= all.take(index as int));
        assert(all.take(index + 1).last() == candidates@[index as int].deep_view());
        write_candidate_summary(output, &candidates[index], "  ", width, details);
        index = index + 1;
    }
    assert(all.take(index as int) =~= all);
}

// ---------------------------------------------------------------------------
// Metadata

/// Where the metadata comes from: the host, where the source is a URL that has one.
pub open spec fn source_words(metadata: MetadataInfoView) -> Seq<char> {
    shown(
        match url_parts(metadata.source) {
            Ok(parts) => match parts.host {
                Some(host) => host,
                None => shown(metadata.source),
            },
            Err(_) => shown(metadata.source),
        },
    )
}

/// `out` followed by a line on the metadata.
pub open spec fn put_footer(out: Seq<char>, metadata: MetadataInfoView, width: nat) -> Seq<char> {
    wrapped(
        out,
        "Metadata: "@,
        "  "@,
        origin_words(metadata.origin) + " · "@ + duration_words(metadata.age_seconds as nat)
            + " old · "@ + source_words(metadata),
        width,
    )
}

fn source_text(metadata: &MetadataInfo) -> (text: String)
    ensures
        text@ == source_words(metadata.deep_view()),
{
    let source = match split_url(metadata.source.as_str()) {
        Ok(parts) => match parts.host {
            Some(host) => host,
            None => terminal_text(metadata.source.as_str()),
        },
        Err(_) => terminal_text(metadata.source.as_str()),
    };
    terminal_text(source.as_str())
}

/// Appends a line on the metadata.
pub fn write_metadata_footer(output: &mut String, metadata: &MetadataInfo, width: usize)
    ensures
        final(output)@ == put_footer(old(output)@, metadata.deep_view(), width as nat),
{
    let mut text = metadata_origin_name(metadata.origin).to_owned();
    text.append(" · ");
    text.append(human_duration(metadata.age_seconds).as_str());
    text.append(" old · ");
    text.append(source_text(metadata).as_str());
    write_wrapped(output, "Metadata: ", "  ", text.as_str(), width);
}


// ---------------------------------------------------------------------------
// Listings

/// A listing of candidates.
#[verifier::opaque]
pub open spec fn candidates_page(report: CandidatesReportView, width: nat) -> Seq<char> {
    let began = line(put_environment(""@, report.environment, width), ""@);
    let titled = line(began, "Candidates ("@ + decimal(report.candidates.len()) + ")"@);
    let listed = if report.candidates.len() == 0 {
        line(titled, "  No candidates matched."@)
    } else {
        put_summaries(titled, report.candidates, width, true)
    };
    put_footer(line(listed, ""@), report.metadata, width)
}

/// Shows a listing of candidates.
pub fn render_candidates(report: &CandidatesReport, width: usize) -> (text: String)
    ensures
        text@ == candidates_page(report.deep_view(), width as nat),
{
    proof {
        reveal(candidates_page);
    }
    let mut output = render_environment(&report.environment, width);
    write_line(&mut output, "");
    let mut title = "Candidates (".to_owned();
    title.append(decimal_text(report.candidates.len() as u64).as_str());
    title.append(")");
    write_line(&mut output, title.as_str());
    if report.candidates.len() == 0 {
        write_line(&mut output, "  No candidates matched.");
    } else {
        write_summaries(&mut output, &report.candidates, width, true);
    }
    write_line(&mut output, "");
    write_metadata_footer(&mut output, &report.metadata, width);
    output
}

/// `out` followed by a check.
pub open spec fn put_check(
    out: Seq<char>,
    name: Seq<char>,
    check: CompatibilityCheckView,
    width: nat,
) -> Seq<char> {
    put_each(
        line(out, "  "@ + name + ": "@ + check_words(check.status)),
        reasons_words(check.reasons),
        "    - "@,
        "      "@,
        width,
    )
}

/// Appends a check.
pub fn write_check(output: &mut String, name: &str, check: &CompatibilityCheck, width: usize)
    ensures
        final(output)@ == put_check(old(output)@, name@, check.deep_view(), width as nat),
{
    let mut title = "  ".to_owned();
    title.append(name);
    title.append(": ");
    title.append(check_status_name(check.status));
    write_line(output, title.as_str());
    let reasons = reason_texts(&check.reasons);
    write_each(output, &reasons, "    - ", "      ", width);
}

/// An explanation of one candidate.
#[verifier::opaque]
pub open spec fn explanation_page(report: ExplainReportView, width: nat) -> Seq<char> {
    let checks = report.candidate.checks;
    let began = line(put_environment(""@, report.environment, width), ""@);
    let titled = line(began, candidate_words(report.candidate));
    let wheel = put_check(titled, "Wheel"@, checks.wheel, width);
    let python = put_check(wheel, "Python"@, checks.python, width);
    let platform = put_check(python, "Platform"@, checks.platform, width);
    let gpu = put_check(platform, "GPU architecture"@, checks.gpu_architecture, width);
    let driver = put_check(gpu, "Driver"@, checks.driver, width);
    let runtime = put_check(driver, "Runtime"@, checks.runtime, width);
    let warned = put_each(
        runtime,
        warnings_words(report.candidate.warnings),
        "  Warning: "@,
        "    "@,
        width,
    );
    put_footer(line(warned, ""@), report.metadata, width)
}

/// Shows an explanation of one candidate.
pub fn render_explanation(report: &ExplainReport, width: usize) -> (text: String)
    ensures
        text@ == explanation_page(report.deep_view(), width as nat),
{
    proof {
        reveal(explanation_page);
    }
    let mut output = render_environment(&report.environment, width);
    write_line(&mut output, "");
    write_line(&mut output, candidate_text(&report.candidate).as_str());
    write_check(&mut output, "Wheel", &report.candidate.checks.wheel, width);
    write_check(&mut output, "Python", &report.candidate.checks.python, width);
    write_check(&mut output, "Platform", &report.candidate.checks.platform, width);
    write_check(
        &mut output,
        "GPU architecture",
        &report.candidate.checks.gpu_architecture,
        width,
    );
    write_check(&mut output, "Driver", &report.candidate.checks.driver, width);
    write_check(&mut output, "Runtime", &report.candidate.checks.runtime, width);
    let warnings = warning_texts(&report.candidate.warnings);
    write_each(&mut output, &warnings, "  Warning: ", "    ", width);
    write_line(&mut output, "");
    write_metadata_footer(&mut output, &report.metadata, width);
    output
}

// ---------------------------------------------------------------------------
// Verifications

/// The line on what was verified.
pub open spec fn verified_words(report: VerificationReportView) -> Seq<char> {
    compatibility_words(report.status) + " · PyTorch "@ + shown(or_unknown(report.torch_version))
        + " · compiled CUDA "@ + shown(or_unknown(report.compiled_cuda))
}

/// The line on what is available.
pub open spec fn available_words(report: VerificationReportView) -> Seq<char> {
    "CUDA available "@ + truth_words(report.cuda_available) + " · devices "@ + (
    match report.device_count {
        Some(count) => decimal(count as nat),
        None => "unknown"@,
    }) + " · cuDNN "@ + truth_words(report.cudnn_available)
}

/// The line on a device.
pub open spec fn device_words(device: VerifiedDeviceView) -> Seq<char> {
    "GPU "@ + decimal(device.index as nat) + ": "@ + shown(device.name) + " · SM "@
        + capability_text(device.capability) + " · operations "@ + (if device.operations_ok {
        "passed"@
    } else {
        "failed"@
    })
}

/// The line on the mapping of a processor.
pub open spec fn mapping_words(mapping: VerificationGpuMappingView) -> Seq<char> {
    let numbers = "GPU mapping: physical "@ + decimal(mapping.physical_index as nat)
        + " → logical "@ + decimal(mapping.logical_index as nat);
    match mapping.uuid {
        Some(uuid) => numbers + " · "@ + shown(uuid),
        None => numbers,
    }
}

/// A check as a marked text.
pub open spec fn check_item(check: VerificationCheckView) -> (Seq<char>, Seq<char>) {
    (
        if check.passed {
            "  pass  "@
        } else {
            "  fail  "@
        },
        match check.detail {
            Some(detail) => shown(check.name) + " · "@ + shown(detail),
            None => shown(check.name),
        },
    )
}

/// `out` followed by the section on the checks, if there are any.
pub open spec fn put_checks(out: Seq<char>, checks: Seq<VerificationCheckView>, width: nat) -> Seq<
    char,
> {
    if checks.len() == 0 {
        out
    } else {
        put_marked(
            line(line(out, ""@), "Checks"@),
            checks.map_values(|check: VerificationCheckView| check_item(check)),
            "        "@,
            width,
        )
    }
}

/// A verification.
#[verifier::opaque]
pub open spec fn verification_page(report: VerificationReportView, width: nat) -> Seq<char> {
    let titled = line(""@, "Verification"@);
    let verified = wrapped(titled, "  "@, "  "@, verified_words(report), width);
    let located = wrapped(
        verified,
        "  Python "@,
        "    "@,
        shown(report.python_executable.text),
        width,
    );
    let available = wrapped(located, "  "@, "  "@, available_words(report), width);
    let devices = put_each(
        available,
        report.devices.map_values(|device: VerifiedDeviceView| device_words(device)),
        "  "@,
        "    "@,
        width,
    );
    let mapped = put_each(
        devices,
        report.gpu_selection.map_values(
            |mapping: VerificationGpuMappingView| mapping_words(mapping),
        ),
        "  "@,
        "    "@,
        width,
    );
    let checked = put_checks(mapped, report.checks, width);
    let noted = put_marked(checked, diagnostic_items(report.diagnostics), "    "@, width);
    match report.error {
        Some(error) => wrapped(noted, "  Error: "@, "    "@, shown(error), width),
        None => noted,
    }
}

fn verified_text(report: &VerificationReport) -> (text: String)
    ensures
        text@ == verified_words(report.deep_view()),
{
    let torch = optional(&report.torch_version);
    let cuda = optional(&report.compiled_cuda);
    let mut text = compatibility_name(report.status).to_owned();
    text.append(" · PyTorch ");
    text.append(terminal_text(torch.as_str()).as_str());
    text.append(" · compiled CUDA ");
    text.append(terminal_text(cuda.as_str()).as_str());
    text
}

fn available_text(report: &VerificationReport) -> (text: String)
    ensures
        text@ == available_words(report.deep_view()),
{
    let count = match report.device_count {
        Some(count) => decimal_text(count as u64),
        None => "unknown".to_owned(),
    };
    let mut text = "CUDA available ".to_owned();
    text.append(optional_bool(report.cuda_available));
    text.append(" · devices ");
    text.append(count.as_str());
    text.append(" · cuDNN ");
    text.append(optional_bool(report.cudnn_available));
    text
}

fn device_text(device: &VerifiedDevice) -> (text: String)
    ensures
        text@ == device_words(device.deep_view()),
{
    let mut text = "GPU ".to_owned();
    text.append(decimal_text(device.index as u64).as_str());
    text.append(": ");
    text.append(terminal_text(device.name.as_str()).as_str());
    text.append(" · SM ");
    text.append(device.capability.to_string().as_str());
    text.append(" · operations ");
    text.append(
        if device.operations_ok {
            "passed"
        } else {
            "failed"
        },
    );
    text
}

fn device_texts(devices: &Vec<VerifiedDevice>) -> (texts: Vec<String>)
    ensures
        texts.deep_view() == devices.deep_view().map_values(
            |device: VerifiedDeviceView| device_words(device),
        ),
{
    let ghost all = devices.deep_view().map_values(
        |device: VerifiedDeviceView| device_words(device),
    );
    let mut texts: Vec<String> = Vec::new();
    let mut index: usize = 0;
    while index < devices.len()
        invariant
            index <= devices@.len(),
            all == devices.deep_view().map_values(
                |device: VerifiedDeviceView| device_words(device),
            ),
            texts.deep_view() == all.take(index as int),
        decreases devices@.len() - index,
    {
        push_item(&mut texts, device_text(&devices[index]));
        assert(all[index as int] == device_words(devices@[index as int].deep_view()));
        assert(all.take(index + 1) =~= all.take(index as int).push(all[index as int]));
        index = index + 1;
    }
    assert(all.take(index as int) =~= all);
    texts
}

fn mapping_text(mapping: &VerificationGpuMapping) -> (text: String)
    ensures
        text@ == mapping_words(mapping.deep_view()),
{
    let mut text = "GPU mapping: physical ".to_owned();
    text.append(decimal_text(mapping.physical_index as u64).as_str());
    text.append(" → logical ");
    text.append(decimal_text(mapping.logical_index as u64).as_str());
    if let Some(uuid) = &mapping.uuid {
        text.append(" · ");
        text.append(terminal_text(uuid.as_str()).as_str());
    }
    text
}

fn mapping_texts(mappings: &Vec<VerificationGpuMapping>) -> (texts: Vec<String>)
    ensures
        texts.deep_view() == mappings.deep_view().map_values(
            |mapping: VerificationGpuMappingView| mapping_words(mapping),
        ),
{
    let ghost all = mappings.deep_view().map_values(
        |mapping: VerificationGpuMappingView| mapping_words(mapping),
    );
    let mut texts: Vec<String> = Vec::new();
    let mut index: usize = 0;
    while index < mappings.len()
        invariant
            index <= mappings@.len(),
            all == mappings.deep_view().map_values(
                |mapping: VerificationGpuMappingView| mapping_words(mapping),
            ),
            texts.deep_view() == all.take(index as int),
        decreases mappings@.len() - index,
    {
        push_item(&mut texts, mapping_text(&mappings[index]));
        assert(all[index as int] == mapping_words(mappings@[index as int].deep_view()));
        assert(all.take(index + 1) =~= all.take(index as int).push(all[index as int]));
        index = index + 1;
    }
    assert(all.take(index as int) =~= all);
    texts
}

fn check_items(checks: &Vec<VerificationCheck>) -> (items: Vec<(String, String)>)
    ensures
        items.deep_view() == checks.deep_view().map_values(
            |check: VerificationCheckView| check_item(check),
        ),
{
    let ghost all = checks.deep_view().map_values(
        |check: VerificationCheckView| check_item(check),
    );
    let mut items: Vec<(String, String)> = Vec::new();
    let mut index: usize = 0;
    while index < checks.len()
        invariant
            index <= checks@.len(),
            all == checks.deep_view().map_values(|check: VerificationCheckView| check_item(check)),
            items.deep_view() == all.take(index as int),
        decreases checks@.len() - index,
    {
        let check = &checks[index];
        let mark = if check.passed {
            "  pass  ".to_owned()
        } else {
            "  fail  ".to_owned()
        };
        let mut text = terminal_text(check.name.as_str());
        if let Some(detail) = &check.detail {
            text.append(" · ");
            text.append(terminal_text(detail.as_str()).as_str());
        }
        let item = (mark, text);
        assert(item.deep_view() == check_item(check.deep_view()));
        assert(all[index as int] == check_item(checks@[index as int].deep_view()));
        push_item(&mut items, item);
        assert(all.take(index + 1) =~= all.take(index as int).push(all[index as int]));
        index = index + 1;
    }
    assert(all.take(index as int) =~= all);
    items
}

/// Shows a verification.
pub fn render_verification(report: &VerificationReport, width: usize) -> (text: String)
    ensures
        text@ == verification_page(report.deep_view(), width as nat),
{
    proof {
        reveal(verification_page);
    }
    let mut output = "".to_owned();
    write_line(&mut output, "Verification");
    write_wrapped(&mut output, "  ", "  ", verified_text(report).as_str(), width);
    let path = terminal_text(report.python_executable.text.as_str());
    write_wrapped(&mut output, "  Python ", "    ", path.as_str(), width);
    write_wrapped(&mut output, "  ", "  ", available_text(report).as_str(), width);
    write_each(&mut output, &device_texts(&report.devices), "  ", "    ", width);
    write_each(&mut output, &mapping_texts(&report.gpu_selection), "  ", "    ", width);
    if report.checks.len() > 0 {
        write_line(&mut output, "");
        write_line(&mut output, "Checks");
        write_marked(&mut output, &check_items(&report.checks), "        ", width);
    }
    write_marked(&mut output, &list_diagnostics(&report.diagnostics), "    ", width);
    if let Some(error) = &report.error {
        let message = terminal_text(error.as_str());
        write_wrapped(&mut output, "  Error: ", "    ", message.as_str(), width);
    }
    output
}

} // verus!
