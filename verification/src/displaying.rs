//! What is shown says what is known.

use crate::command::{fitting, fitting_fits, truncated};
use crate::details::lookup;
use crate::groups::run_words;
use crate::model::{
    CandidateView, CandidatesReportView, CheckStatus, CompatibilityCheckView, CompatibilityStatus,
    CudaVariant, DecisionReasonView, DiagnosticSeverity, ExplainReportView, ReasonCode,
};
use crate::pieces::{occurs, stands_at};
use crate::render::{
    candidate_words, candidates_page, explanation_page, failures, put_check, put_each,
    put_environment, put_footer, put_summaries, put_summary, reasons_words, warnings_words,
};
use crate::terminal::{
    escaped, hex_char, hexadecimal, line, output_width, shown, style_of, styled_line, wrapped,
    wrapped_appends,
};
use crate::text::{decimal, decimal_round_trip, unsigned};
use crate::wording::{
    check_words, compatibility_words, duration_words, origin_words, reason_words, severity_words,
    truth_words,
};
use vstd::prelude::*;
use vstd::utf8::encode_utf8;

verus! {

// ---------------------------------------------------------------------------
// Words

/// A length of time is said in its two largest units of days, hours and minutes, without those that
/// are zero, and in seconds where it is below a minute.
pub proof fn durations_are_said_in_their_largest_units(
    days: nat,
    hours: nat,
    minutes: nat,
    seconds: nat,
)
    requires
        hours < 24,
        minutes < 60,
        seconds < 60,
    ensures
        ({
            let said = duration_words(
                (days * 86_400 + hours * 3_600 + minutes * 60 + seconds) as nat,
            );
            &&& days > 0 && hours > 0 ==> said == decimal(days) + "d "@ + decimal(hours) + "h"@
            &&& days > 0 && hours == 0 ==> said == decimal(days) + "d"@
            &&& days == 0 && hours > 0 && minutes > 0 ==> said == decimal(hours) + "h "@ + decimal(
                minutes,
            ) + "m"@
            &&& days == 0 && hours > 0 && minutes == 0 ==> said == decimal(hours) + "h"@
            &&& days == 0 && hours == 0 && minutes > 0 ==> said == decimal(minutes) + "m"@
            &&& days == 0 && hours == 0 && minutes == 0 ==> said == decimal(seconds) + "s"@
        }),
{
    let all = (days * 86_400 + hours * 3_600 + minutes * 60 + seconds) as nat;
    let rest = (hours * 3_600 + minutes * 60 + seconds) as nat;
    assert(rest < 86_400);
    assert(all / 86_400 == days);
    assert(all % 86_400 == rest);
    assert(rest / 3_600 == hours);
    assert(all % 3_600 == (minutes * 60 + seconds) as nat) by {
        assert(all == 3_600 * (days * 24 + hours) + (minutes * 60 + seconds));
    }
    assert(((minutes * 60 + seconds) as nat) / 60 == minutes);
}

/// The words for states and for the results of checks are those of their names.
pub proof fn states_have_their_words(
    state: CompatibilityStatus,
    status: CheckStatus,
    severity: DiagnosticSeverity,
    value: Option<bool>,
)
    ensures
        compatibility_words(state) == (match state {
            CompatibilityStatus::Unavailable => "unavailable"@,
            CompatibilityStatus::Incompatible => "incompatible"@,
            CompatibilityStatus::Unverified => "unverified"@,
            CompatibilityStatus::MinorCompatible => "minor-compatible"@,
            CompatibilityStatus::DirectCompatible => "direct-compatible"@,
            CompatibilityStatus::Verified => "verified"@,
        }),
        check_words(status) == (match status {
            CheckStatus::NotApplicable => "not-applicable"@,
            CheckStatus::Unknown => "unknown"@,
            CheckStatus::Fail => "fail"@,
            CheckStatus::Pass => "pass"@,
        }),
        severity_words(severity) == (match severity {
            DiagnosticSeverity::Error => "Error"@,
            DiagnosticSeverity::Warning => "Warning"@,
            DiagnosticSeverity::Info => "Info"@,
        }),
        truth_words(value) == (match value {
            None => "unknown"@,
            Some(truth) => if truth {
                "yes"@
            } else {
                "no"@
            },
        }),
{
}

/// A reason says what was found before what is asked for, and each in the words of its parameters.
pub proof fn reasons_say_what_was_found(
    reason: DecisionReasonView,
    found: Seq<char>,
    asked: Seq<char>,
)
    ensures
        reason.code == ReasonCode::GlibcTooOld && lookup(reason.details, "detected"@) == Some(found)
            && lookup(reason.details, "required"@) == Some(asked) ==> reason_words(reason)
            == "glibc "@ + shown(found) + (" is too old; requires "@ + shown(asked)
            + " or newer."@),
        reason.code == ReasonCode::DriverTooOld && lookup(reason.details, "detected"@) == Some(
            found,
        ) && lookup(reason.details, "minimum"@) == Some(asked) ==> reason_words(reason)
            == "NVIDIA driver "@ + shown(found) + (" is too old; requires "@ + shown(asked)
            + " or newer."@),
        reason.code == ReasonCode::UsesCudaMinorCompatibility && lookup(
            reason.details,
            "normal_minimum"@,
        ) == Some(asked) ==> occurs(
            reason_words(reason),
            "the normal driver minimum is "@ + shown(asked),
        ),
        reason.code == ReasonCode::DriverSupportsCudaFamily && lookup(reason.details, "minimum"@)
            == Some(asked) ==> occurs(reason_words(reason), "(minimum "@ + shown(asked) + ")"@),
        reason.code == ReasonCode::GpuArchitectureUnsupported && lookup(
            reason.details,
            "capabilities"@,
        ) == Some(found) ==> occurs(
            reason_words(reason),
            "selected GPU architecture "@ + shown(found),
        ),
        reason.code == ReasonCode::WheelExists && lookup(reason.details, "count"@) == Some(found)
            ==> occurs(reason_words(reason), "("@ + shown(found) + " file(s))"@),
{
    let said = reason_words(reason);
    if reason.code == ReasonCode::GlibcTooOld {
        assert("glibc "@ + shown(found) + (" is too old; requires "@ + shown(asked)
            + " or newer."@) =~= "glibc "@ + shown(found) + " is too old; requires "@ + shown(asked)
            + " or newer."@);
    }
    if reason.code == ReasonCode::DriverTooOld {
        assert("NVIDIA driver "@ + shown(found) + (" is too old; requires "@ + shown(asked)
            + " or newer."@) =~= "NVIDIA driver "@ + shown(found) + " is too old; requires "@
            + shown(asked) + " or newer."@);
    }
    if reason.code == ReasonCode::UsesCudaMinorCompatibility && lookup(
        reason.details,
        "normal_minimum"@,
    ) == Some(asked) {
        reveal_strlit("Uses CUDA minor-version compatibility; the normal driver minimum is ");
        reveal_strlit("Uses CUDA minor-version compatibility; ");
        reveal_strlit("the normal driver minimum is ");
        assert("Uses CUDA minor-version compatibility; the normal driver minimum is "@
            =~= "Uses CUDA minor-version compatibility; "@ + "the normal driver minimum is "@);
        let part = "the normal driver minimum is "@ + shown(asked);
        assert(said =~= "Uses CUDA minor-version compatibility; "@ + part + "."@);
        parts_occur("Uses CUDA minor-version compatibility; "@, part, "."@);
    }
    if reason.code == ReasonCode::DriverSupportsCudaFamily && lookup(reason.details, "minimum"@)
        == Some(asked) {
        reveal_strlit("The NVIDIA driver supports this CUDA family (minimum ");
        reveal_strlit("The NVIDIA driver supports this CUDA family ");
        reveal_strlit("(minimum ");
        reveal_strlit(").");
        reveal_strlit(")");
        reveal_strlit(".");
        assert("The NVIDIA driver supports this CUDA family (minimum "@
            =~= "The NVIDIA driver supports this CUDA family "@ + "(minimum "@);
        assert(")."@ =~= ")"@ + "."@);
        let part = "(minimum "@ + shown(asked) + ")"@;
        assert(said =~= "The NVIDIA driver supports this CUDA family "@ + part + "."@);
        parts_occur("The NVIDIA driver supports this CUDA family "@, part, "."@);
    }
    if reason.code == ReasonCode::GpuArchitectureUnsupported && lookup(
        reason.details,
        "capabilities"@,
    ) == Some(found) {
        reveal_strlit("The wheel does not support selected GPU architecture ");
        reveal_strlit("The wheel does not support ");
        reveal_strlit("selected GPU architecture ");
        assert("The wheel does not support selected GPU architecture "@
            =~= "The wheel does not support "@ + "selected GPU architecture "@);
        let part = "selected GPU architecture "@ + shown(found);
        assert(said =~= "The wheel does not support "@ + part + "."@);
        parts_occur("The wheel does not support "@, part, "."@);
    }
    if reason.code == ReasonCode::WheelExists && lookup(reason.details, "count"@) == Some(found) {
        reveal_strlit(" (");
        reveal_strlit(" ");
        reveal_strlit("(");
        assert(" ("@ =~= " "@ + "("@);
        let part = "("@ + shown(found) + " file(s))"@;
        assert(said =~= ("Official wheel exists"@ + " "@) + part + "."@);
        parts_occur("Official wheel exists"@ + " "@, part, "."@);
    }
}

proof fn parts_occur(before: Seq<char>, part: Seq<char>, after: Seq<char>)
    ensures
        occurs(before + part + after, part),
{
    let whole = before + part + after;
    assert(whole.subrange(before.len() as int, (before.len() + part.len()) as int) =~= part);
    assert(stands_at(whole, part, before.len() as int));
}

/// The reasons for which a candidate is left out are those of the dimensions that fail.
pub proof fn failures_are_those_of_failed_checks(
    candidate: CandidateView,
    reason: DecisionReasonView,
)
    ensures
        failures(candidate).contains(reason) <==> {
            let checks = candidate.checks;
            ||| checks.wheel.status == CheckStatus::Fail && checks.wheel.reasons.contains(reason)
            ||| checks.python.status == CheckStatus::Fail && checks.python.reasons.contains(reason)
            ||| checks.platform.status == CheckStatus::Fail && checks.platform.reasons.contains(
                reason,
            )
            ||| checks.gpu_architecture.status == CheckStatus::Fail
                && checks.gpu_architecture.reasons.contains(reason)
            ||| checks.driver.status == CheckStatus::Fail && checks.driver.reasons.contains(reason)
        },
{
    let checks = candidate.checks;
    let one = crate::render::reasons_of_failure(checks.wheel);
    let two = crate::render::reasons_of_failure(checks.python);
    let three = crate::render::reasons_of_failure(checks.platform);
    let four = crate::render::reasons_of_failure(checks.gpu_architecture);
    let five = crate::render::reasons_of_failure(checks.driver);
    members_of_two(one, two, reason);
    members_of_two(one + two, three, reason);
    members_of_two(one + two + three, four, reason);
    members_of_two(one + two + three + four, five, reason);
    assert(!Seq::<DecisionReasonView>::empty().contains(reason));
}

proof fn members_of_two<T>(left: Seq<T>, right: Seq<T>, item: T)
    ensures
        (left + right).contains(item) <==> left.contains(item) || right.contains(item),
{
    let both = left + right;
    if left.contains(item) {
        let i = choose|i: int| 0 <= i < left.len() && left[i] == item;
        assert(both[i] == item);
    }
    if right.contains(item) {
        let i = choose|i: int| 0 <= i < right.len() && right[i] == item;
        assert(both[left.len() + i] == item);
    }
    if both.contains(item) {
        let i = choose|i: int| 0 <= i < both.len() && both[i] == item;
        if i < left.len() {
            assert(left[i] == item);
        } else {
            assert(right[i - left.len()] == item);
        }
    }
}

/// The width of the output is what was configured, else what the terminal has, else eighty columns;
/// but never below 44 columns nor above 120.
pub proof fn widths_stay_within_their_bounds(configured: u32, detected: u16)
    ensures
        ({
            let within = |width: nat|
                if width < 44 {
                    44nat
                } else if width > 120 {
                    120nat
                } else {
                    width
                };
            &&& output_width(Some(decimal(configured as nat)), Some(detected)) == within(
                configured as nat,
            )
            &&& output_width(None, Some(detected)) == within(detected as nat)
            &&& output_width(None, None) == 80
        }),
{
    decimal_round_trip(configured as nat);
    let text = decimal(configured as nat);
    assert(crate::text::digit(text[0]));
    assert(unsigned(text, usize::MAX as nat) == Some(configured as nat));
}

// ---------------------------------------------------------------------------
// Pages

proof fn each_appends(
    out: Seq<char>,
    texts: Seq<Seq<char>>,
    first: Seq<char>,
    next: Seq<char>,
    width: nat,
)
    ensures
        put_each(out, texts, first, next, width) == out + put_each(
            Seq::empty(),
            texts,
            first,
            next,
            width,
        ),
    decreases texts.len(),
{
    if texts.len() == 0 {
        assert(out + Seq::<char>::empty() =~= out);
    } else {
        let head = texts.drop_last();
        each_appends(out, head, first, next, width);
        wrapped_appends(
            out,
            put_each(Seq::empty(), head, first, next, width),
            first,
            next,
            texts.last(),
            width,
        );
    }
}

proof fn text_is_wrapped(
    out: Seq<char>,
    first: Seq<char>,
    next: Seq<char>,
    text: Seq<char>,
    width: nat,
)
    ensures
        wrapped(out, first, next, text, width) == out + wrapped(
            Seq::empty(),
            first,
            next,
            text,
            width,
        ),
{
    wrapped_appends(out, Seq::empty(), first, next, text, width);
    assert(out + Seq::<char>::empty() =~= out);
}

proof fn each_is_put(
    out: Seq<char>,
    texts: Seq<Seq<char>>,
    first: Seq<char>,
    next: Seq<char>,
    width: nat,
    place: int,
)
    requires
        0 <= place < texts.len(),
    ensures
        occurs(
            put_each(out, texts, first, next, width),
            wrapped(Seq::empty(), first, next, texts[place], width),
        ),
    decreases texts.len(),
{
    let head = texts.drop_last();
    let before = put_each(out, head, first, next, width);
    let last = wrapped(Seq::empty(), first, next, texts.last(), width);
    text_is_wrapped(before, first, next, texts.last(), width);
    if place < head.len() {
        each_is_put(out, head, first, next, width, place);
        longer_texts_hold_it(
            Seq::empty(),
            before,
            last,
            wrapped(Seq::empty(), first, next, texts[place], width),
        );
        assert(Seq::<char>::empty() + before + last =~= before + last);
    } else {
        parts_occur(before, last, Seq::empty());
        assert(before + last + Seq::<char>::empty() =~= before + last);
    }
}

proof fn longer_texts_hold_it(
    before: Seq<char>,
    text: Seq<char>,
    after: Seq<char>,
    part: Seq<char>,
)
    requires
        occurs(text, part),
    ensures
        occurs(before + text + after, part),
{
    let at = choose|at: int| #[trigger] stands_at(text, part, at);
    let whole = before + text + after;
    let there = before.len() + at;
    assert(whole.subrange(there, there + part.len()) =~= text.subrange(at, at + part.len()));
    assert(stands_at(whole, part, there));
}

/// The line that names a candidate.
pub open spec fn heading_of(candidate: CandidateView) -> Seq<char> {
    "PyTorch "@ + candidate.torch_version + " + "@ + (match candidate.variant {
        CudaVariant::Cpu => "cpu"@,
        CudaVariant::Cuda { major, minor } => "cu"@ + decimal(major as nat) + decimal(
            minor as nat,
        ),
    }) + " ("@ + compatibility_words(candidate.compatibility) + ")"@
}

proof fn summary_names_the_candidate(
    out: Seq<char>,
    candidate: CandidateView,
    width: nat,
    details: bool,
) -> (rest: Seq<char>)
    ensures
        put_summary(out, candidate, "  "@, width, details) == out + wrapped(
            Seq::empty(),
            "  "@,
            "    "@,
            heading_of(candidate),
            width,
        ) + rest,
        (candidate.compatibility == CompatibilityStatus::Incompatible || candidate.compatibility
            == CompatibilityStatus::Unavailable) ==> forall|i: int|
            0 <= i < failures(candidate).len() ==> occurs(
                rest,
                wrapped(
                    Seq::empty(),
                    "    - "@,
                    "      "@,
                    reason_words(#[trigger] failures(candidate)[i]),
                    width,
                ),
            ),
        details ==> forall|i: int|
            0 <= i < candidate.warnings.len() ==> occurs(
                rest,
                wrapped(
                    Seq::empty(),
                    "    - "@,
                    "      "@,
                    crate::wording::warning_words(#[trigger] candidate.warnings[i]),
                    width,
                ),
            ),
{
    reveal_strlit("  ");
    reveal_strlit("    ");
    reveal_strlit("  - ");
    reveal_strlit("    - ");
    reveal_strlit("      ");
    assert("  "@ + "  "@ =~= "    "@);
    assert("  "@ + "  - "@ =~= "    - "@);
    assert("  "@ + "    "@ =~= "      "@);
    assert(candidate_words(candidate) == heading_of(candidate));
    text_is_wrapped(out, "  "@, "    "@, heading_of(candidate), width);
    let headed = wrapped(out, "  "@, "    "@, heading_of(candidate), width);
    let warnings = warnings_words(candidate.warnings);
    let reasons = reasons_words(failures(candidate));
    each_appends(headed, warnings, "    - "@, "      "@, width);
    let warned = if details {
        put_each(Seq::empty(), warnings, "    - "@, "      "@, width)
    } else {
        Seq::empty()
    };
    let left_out = candidate.compatibility == CompatibilityStatus::Incompatible
        || candidate.compatibility == CompatibilityStatus::Unavailable;
    let told = if left_out {
        put_each(Seq::empty(), reasons, "    - "@, "      "@, width)
    } else {
        Seq::empty()
    };
    each_appends(headed + warned, reasons, "    - "@, "      "@, width);
    assert(headed + Seq::<char>::empty() =~= headed);
    assert(headed + warned + told =~= headed + (warned + told));
    assert(put_summary(out, candidate, "  "@, width, details) =~= headed + (warned + told));
    assert forall|i: int| left_out && 0 <= i < failures(candidate).len() implies occurs(
        warned + told,
        wrapped(
            Seq::empty(),
            "    - "@,
            "      "@,
            reason_words(#[trigger] failures(candidate)[i]),
            width,
        ),
    ) by {
        each_is_put(Seq::empty(), reasons, "    - "@, "      "@, width, i);
        assert(reasons[i] == reason_words(failures(candidate)[i]));
        longer_texts_hold_it(
            warned,
            told,
            Seq::empty(),
            wrapped(Seq::empty(), "    - "@, "      "@, reasons[i], width),
        );
        assert(warned + told + Seq::<char>::empty() =~= warned + told);
    }
    assert forall|i: int| details && 0 <= i < candidate.warnings.len() implies occurs(
        warned + told,
        wrapped(
            Seq::empty(),
            "    - "@,
            "      "@,
            crate::wording::warning_words(#[trigger] candidate.warnings[i]),
            width,
        ),
    ) by {
        each_is_put(Seq::empty(), warnings, "    - "@, "      "@, width, i);
        assert(warnings[i] == crate::wording::warning_words(candidate.warnings[i]));
        longer_texts_hold_it(
            Seq::empty(),
            warned,
            told,
            wrapped(Seq::empty(), "    - "@, "      "@, warnings[i], width),
        );
        assert(Seq::<char>::empty() + warned + told =~= warned + told);
    }
    warned + told
}

proof fn summaries_name_the_candidates(
    out: Seq<char>,
    candidates: Seq<CandidateView>,
    width: nat,
    details: bool,
    place: int,
)
    requires
        0 <= place < candidates.len(),
    ensures
        occurs(
            put_summaries(out, candidates, width, details),
            wrapped(Seq::empty(), "  "@, "    "@, heading_of(candidates[place]), width),
        ),
    decreases candidates.len(),
{
    let head = candidates.drop_last();
    let before = put_summaries(out, head, width, details);
    let rest = summary_names_the_candidate(before, candidates.last(), width, details);
    let heading = wrapped(
        Seq::empty(),
        "  "@,
        "    "@,
        heading_of(candidates.last()),
        width,
    );
    if place < head.len() {
        summaries_name_the_candidates(out, head, width, details, place);
        longer_texts_hold_it(
            Seq::empty(),
            before,
            heading + rest,
            wrapped(Seq::empty(), "  "@, "    "@, heading_of(candidates[place]), width),
        );
        assert(Seq::<char>::empty() + before + (heading + rest) =~= before + heading + rest);
    } else {
        parts_occur(before, heading, rest);
    }
}

/// A list shows every one of its candidates by its version, its variant and its state.
pub proof fn lists_show_every_candidate(report: CandidatesReportView, width: nat, place: int)
    requires
        0 <= place < report.candidates.len(),
    ensures
        occurs(
            candidates_page(report, width),
            wrapped(Seq::empty(), "  "@, "    "@, heading_of(report.candidates[place]), width),
        ),
{
    let began = line(put_environment(""@, report.environment, width), ""@);
    let titled = line(began, "Candidates ("@ + decimal(report.candidates.len()) + ")"@);
    let listed = put_summaries(titled, report.candidates, width, true);
    summaries_name_the_candidates(titled, report.candidates, width, true, place);
    let part = wrapped(
        Seq::empty(),
        "  "@,
        "    "@,
        heading_of(report.candidates[place]),
        width,
    );
    footer_is_appended(line(listed, ""@), report.metadata, width);
    let footer = put_footer(Seq::empty(), report.metadata, width);
    let end = ""@ + "\n"@ + footer;
    assert(line(listed, ""@) + footer =~= listed + end);
    reveal(candidates_page);
    assert(candidates_page(report, width) == put_footer(
        line(listed, ""@),
        report.metadata,
        width,
    ));
    followed(listed, end, part);
}

proof fn footer_is_appended(
    out: Seq<char>,
    metadata: crate::model::MetadataInfoView,
    width: nat,
)
    ensures
        put_footer(out, metadata, width) == out + put_footer(Seq::empty(), metadata, width),
{
    text_is_wrapped(
        out,
        "Metadata: "@,
        "  "@,
        origin_words(metadata.origin) + " · "@ + duration_words(metadata.age_seconds as nat)
            + " old · "@ + crate::render::source_words(metadata),
        width,
    );
}

proof fn check_is_shown(
    out: Seq<char>,
    name: Seq<char>,
    check: CompatibilityCheckView,
    width: nat,
) -> (rest: Seq<char>)
    ensures
        put_check(out, name, check, width) == out + ("  "@ + name + ": "@ + check_words(
            check.status,
        ) + "\n"@) + rest,
{
    let headed = line(out, "  "@ + name + ": "@ + check_words(check.status));
    each_appends(headed, reasons_words(check.reasons), "    - "@, "      "@, width);
    let rest = put_each(
        Seq::empty(),
        reasons_words(check.reasons),
        "    - "@,
        "      "@,
        width,
    );
    assert(headed =~= out + ("  "@ + name + ": "@ + check_words(check.status) + "\n"@));
    rest
}

/// An explanation shows how each dimension came out.
pub proof fn explanations_show_every_dimension(report: ExplainReportView, width: nat)
    ensures
        ({
            let page = explanation_page(report, width);
            let checks = report.candidate.checks;
            &&& occurs(page, "  "@ + "Wheel"@ + ": "@ + check_words(checks.wheel.status) + "\n"@)
            &&& occurs(page, "  "@ + "Python"@ + ": "@ + check_words(checks.python.status) + "\n"@)
            &&& occurs(
                page,
                "  "@ + "Platform"@ + ": "@ + check_words(checks.platform.status) + "\n"@,
            )
            &&& occurs(
                page,
                "  "@ + "GPU architecture"@ + ": "@ + check_words(checks.gpu_architecture.status)
                    + "\n"@,
            )
            &&& occurs(page, "  "@ + "Driver"@ + ": "@ + check_words(checks.driver.status) + "\n"@)
            &&& occurs(
                page,
                "  "@ + "Runtime"@ + ": "@ + check_words(checks.runtime.status) + "\n"@,
            )
        }),
{
    let checks = report.candidate.checks;
    let items = seq![
        ("Wheel"@, checks.wheel),
        ("Python"@, checks.python),
        ("Platform"@, checks.platform),
        ("GPU architecture"@, checks.gpu_architecture),
        ("Driver"@, checks.driver),
        ("Runtime"@, checks.runtime),
    ];
    let began = line(put_environment(""@, report.environment, width), ""@);
    let titled = line(began, candidate_words(report.candidate));
    let runtime = put_all(titled, items, width);
    let warnings = warnings_words(report.candidate.warnings);
    each_appends(runtime, warnings, "  Warning: "@, "    "@, width);
    let warned = put_each(Seq::empty(), warnings, "  Warning: "@, "    "@, width);
    footer_is_appended(line(runtime + warned, ""@), report.metadata, width);
    let footer = put_footer(Seq::empty(), report.metadata, width);
    let end = warned + ""@ + "\n"@ + footer;
    six_are_put(titled, checks, width);
    assert(line(runtime + warned, ""@) + footer =~= runtime + end);
    reveal(explanation_page);
    assert(explanation_page(report, width) == runtime + end);
    assert forall|i: int| 0 <= i < items.len() implies occurs(
        runtime + end,
        #[trigger] outcome_line(items[i]),
    ) by {
        all_are_shown(titled, items, width, i);
        followed(runtime, end, outcome_line(items[i]));
    }
    assert(occurs(runtime + end, outcome_line(items[0])));
    assert(occurs(runtime + end, outcome_line(items[1])));
    assert(occurs(runtime + end, outcome_line(items[2])));
    assert(occurs(runtime + end, outcome_line(items[3])));
    assert(occurs(runtime + end, outcome_line(items[4])));
    assert(occurs(runtime + end, outcome_line(items[5])));
}

spec fn outcome_line(item: (Seq<char>, CompatibilityCheckView)) -> Seq<char> {
    "  "@ + item.0 + ": "@ + check_words(item.1.status) + "\n"@
}

spec fn put_all(
    out: Seq<char>,
    items: Seq<(Seq<char>, CompatibilityCheckView)>,
    width: nat,
) -> Seq<char>
    decreases items.len(),
{
    if items.len() == 0 {
        out
    } else {
        put_check(
            put_all(out, items.drop_last(), width),
            items.last().0,
            items.last().1,
            width,
        )
    }
}

proof fn six_are_put(
    out: Seq<char>,
    checks: crate::model::CompatibilityChecksView,
    width: nat,
)
    ensures
        ({
            let wheel = put_check(out, "Wheel"@, checks.wheel, width);
            let python = put_check(wheel, "Python"@, checks.python, width);
            let platform = put_check(python, "Platform"@, checks.platform, width);
            let gpu = put_check(platform, "GPU architecture"@, checks.gpu_architecture, width);
            let driver = put_check(gpu, "Driver"@, checks.driver, width);
            put_all(
                out,
                seq![
                    ("Wheel"@, checks.wheel),
                    ("Python"@, checks.python),
                    ("Platform"@, checks.platform),
                    ("GPU architecture"@, checks.gpu_architecture),
                    ("Driver"@, checks.driver),
                    ("Runtime"@, checks.runtime),
                ],
                width,
            ) == put_check(driver, "Runtime"@, checks.runtime, width)
        }),
{
    let one = seq![("Wheel"@, checks.wheel)];
    let two = one.push(("Python"@, checks.python));
    let three = two.push(("Platform"@, checks.platform));
    let four = three.push(("GPU architecture"@, checks.gpu_architecture));
    let five = four.push(("Driver"@, checks.driver));
    let six = five.push(("Runtime"@, checks.runtime));
    assert(one.drop_last() =~= Seq::empty());
    assert(two.drop_last() =~= one);
    assert(three.drop_last() =~= two);
    assert(four.drop_last() =~= three);
    assert(five.drop_last() =~= four);
    assert(six.drop_last() =~= five);
    assert(put_all(out, one.drop_last(), width) == out);
    assert(put_all(out, one, width) == put_check(out, "Wheel"@, checks.wheel, width));
    assert(put_all(out, two, width) == put_check(
        put_all(out, one, width),
        "Python"@,
        checks.python,
        width,
    ));
    assert(put_all(out, three, width) == put_check(
        put_all(out, two, width),
        "Platform"@,
        checks.platform,
        width,
    ));
    assert(put_all(out, four, width) == put_check(
        put_all(out, three, width),
        "GPU architecture"@,
        checks.gpu_architecture,
        width,
    ));
    assert(put_all(out, five, width) == put_check(
        put_all(out, four, width),
        "Driver"@,
        checks.driver,
        width,
    ));
    assert(six =~= seq![
        ("Wheel"@, checks.wheel),
        ("Python"@, checks.python),
        ("Platform"@, checks.platform),
        ("GPU architecture"@, checks.gpu_architecture),
        ("Driver"@, checks.driver),
        ("Runtime"@, checks.runtime),
    ]);
}

proof fn all_are_shown(
    out: Seq<char>,
    items: Seq<(Seq<char>, CompatibilityCheckView)>,
    width: nat,
    place: int,
)
    requires
        0 <= place < items.len(),
    ensures
        occurs(put_all(out, items, width), outcome_line(items[place])),
    decreases items.len(),
{
    let head = items.drop_last();
    let before = put_all(out, head, width);
    let rest = check_is_shown(before, items.last().0, items.last().1, width);
    let said = outcome_line(items.last());
    if place < head.len() {
        all_are_shown(out, head, width, place);
        followed(before, said + rest, outcome_line(items[place]));
        assert(before + (said + rest) =~= before + said + rest);
    } else {
        parts_occur(before, said, rest);
    }
}

proof fn followed(text: Seq<char>, after: Seq<char>, part: Seq<char>)
    requires
        occurs(text, part),
    ensures
        occurs(text + after, part),
{
    longer_texts_hold_it(Seq::empty(), text, after, part);
    assert(Seq::<char>::empty() + text + after =~= text + after);
}

// ---------------------------------------------------------------------------
// Texts

/// The number that hexadecimal digits write.
pub open spec fn hexadecimal_value(digits: Seq<char>) -> nat
    decreases digits.len(),
{
    if digits.len() == 0 {
        0
    } else {
        let last = digits.last();
        16 * hexadecimal_value(digits.drop_last()) + (if '0' <= last <= '9' {
            (last as int - '0' as int) as nat
        } else {
            (last as int - 'a' as int + 10) as nat
        })
    }
}

proof fn hexadecimal_is_read_back(value: nat)
    ensures
        hexadecimal_value(hexadecimal(value)) == value,
        hexadecimal(value).len() > 0,
    decreases value,
{
    let digit = hex_char(value % 16);
    if value >= 16 {
        hexadecimal_is_read_back(value / 16);
        assert(hexadecimal(value).drop_last() =~= hexadecimal(value / 16));
    } else {
        assert(hexadecimal(value).drop_last() =~= Seq::empty());
        assert(hexadecimal_value(hexadecimal(value).drop_last()) == 0);
    }
    assert(hexadecimal(value).last() == digit);
}

/// A character that must not be shown is shown by its number, but for the three that have their own
/// escapes.
pub proof fn escapes_name_their_character(character: char)
    ensures
        character == '\n' ==> escaped(character) == seq!['\\', 'n'],
        character == '\r' ==> escaped(character) == seq!['\\', 'r'],
        character == '\t' ==> escaped(character) == seq!['\\', 't'],
        character != '\n' && character != '\r' && character != '\t' ==> {
            let shown = escaped(character);
            &&& shown.len() > 4
            &&& shown.take(3) == seq!['\\', 'u', '{']
            &&& shown.last() == '}'
            &&& hexadecimal_value(shown.subrange(3, shown.len() - 1)) == character as nat
        },
{
    reveal_strlit("\\n");
    reveal_strlit("\\r");
    reveal_strlit("\\t");
    reveal_strlit("\\u{");
    reveal_strlit("}");
    assert("\\n"@ =~= seq!['\\', 'n']);
    assert("\\r"@ =~= seq!['\\', 'r']);
    assert("\\t"@ =~= seq!['\\', 't']);
    assert("\\u{"@ =~= seq!['\\', 'u', '{']);
    if character != '\n' && character != '\r' && character != '\t' {
        let digits = hexadecimal((character as u32) as nat);
        hexadecimal_is_read_back((character as u32) as nat);
        let shown = escaped(character);
        assert(shown.take(3) =~= "\\u{"@);
        assert(shown.subrange(3, shown.len() - 1) =~= digits);
    }
}

/// A text that fits is left as it is; one that does not is cut and marked.
pub proof fn only_long_texts_are_cut(text: Seq<char>, max: nat)
    ensures
        encode_utf8(text).len() <= max ==> truncated(text, max) == text,
        encode_utf8(text).len() > max ==> exists|count: int|
            0 <= count < text.len() && truncated(text, max) == #[trigger] text.take(count) + "..."@
                && encode_utf8(text.take(count)).len() <= max,
{
    if encode_utf8(text).len() > max {
        fitting_fits(text, max);
        let cut = fitting(text, max);
        let count = cut.len() as int;
        assert(text.take(count) =~= cut);
        assert(cut != text);
        if count == text.len() {
            assert(text.take(count) =~= text);
        }
    }
}

/// A range of processors is said by its ends, and a single one by itself.
pub proof fn ranges_are_said_by_their_ends(low: u32, high: u32)
    ensures
        run_words((low, low)) == decimal(low as nat),
        low != high ==> decimal(low as nat).is_prefix_of(run_words((low, high))) && decimal(
            high as nat,
        ).is_suffix_of(run_words((low, high))),
{
    if low != high {
        let said = run_words((low, high));
        let end = decimal(high as nat);
        assert(said.skip(said.len() - end.len()) =~= end);
    }
}

/// A line is shown with a style around it or as it is, and its text is never changed.
pub proof fn styles_stand_around_their_line(text: Seq<char>)
    ensures
        styled_line(text) == text || (exists|code: Seq<char>|
            styled_line(text) == "\u{1b}["@ + code + "m"@ + (text + "\u{1b}[0m"@)
                && #[trigger] is_style(code)),
{
    if style_of(text) is Some {
        assert(is_style(style_of(text)->0));
    }
}

/// The styles that lines are shown in: bold cyan, green, yellow, red and dim.
pub open spec fn is_style(code: Seq<char>) -> bool {
    code == "1;36"@ || code == "32"@ || code == "33"@ || code == "31"@ || code == "2"@
}

} // verus!
