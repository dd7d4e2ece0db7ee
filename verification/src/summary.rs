//! The recommendation as text: the choice, how to install it, and the most useful alternatives.

use crate::exits::{
    candidate_needs_review, cpu_fallback, gpus_detected, has_cuda, has_detected_gpus,
    is_nvidia_cpu_fallback, needs_review,
};
use crate::model::{
    variant_text, Candidate, CandidateView, CheckStatus, CompatibilityStatus, DecisionReason,
    DecisionReasonView, ReasonCode, RecommendationReport, RecommendationReportView,
};
use crate::order::{
    kept, kept_members, sort_by, sort_keeps_items, sort_orders_all, sort_values,
    strict_weak_order, Order,
};
use crate::outside::{is_pep440, normalize_version, order_versions, pep440_order};
use crate::render::{
    failing_reasons, failures, put_environment, put_footer, put_summaries, put_summary,
    render_environment, write_candidate_summary, write_metadata_footer, write_summaries,
};
use crate::shell::{put_command, write_command};
use crate::terminal::{line, wrapped, write_line, write_wrapped};
use crate::text::{decimal, decimal_text, push_item, wide_decimal_text};
use crate::wording::{detail_or, show_detail};
use vstd::prelude::*;

verus! {

/// How many of the other options are shown.
pub const OTHER_OPTIONS_LIMIT: usize = 3;

/// How many alternatives for a processor are shown.
pub const GPU_ALTERNATIVES_LIMIT: usize = 2;

/// How many CPU alternatives are shown beside a processor.
pub const CPU_FALLBACK_LIMIT: usize = 1;

/// How many candidates that need a review are shown.
pub const NEEDS_VERIFICATION_LIMIT: usize = 2;

// ---------------------------------------------------------------------------
// Which candidates are shown

/// The first items, at most `limit`.
pub open spec fn at_most<T>(items: Seq<T>, limit: nat) -> Seq<T> {
    if items.len() <= limit {
        items
    } else {
        items.take(limit as int)
    }
}

/// Whether a candidate needs no review.
pub open spec fn reviewed() -> spec_fn(CandidateView) -> bool {
    |candidate: CandidateView| !needs_review(candidate)
}

/// Whether a candidate needs a review.
pub open spec fn unreviewed() -> spec_fn(CandidateView) -> bool {
    |candidate: CandidateView| needs_review(candidate)
}

/// Whether a candidate is for a processor.
pub open spec fn with_cuda() -> spec_fn(CandidateView) -> bool {
    |candidate: CandidateView| has_cuda(candidate.variant)
}

/// Whether a candidate is for the CPU.
pub open spec fn without_cuda() -> spec_fn(CandidateView) -> bool {
    |candidate: CandidateView| !has_cuda(candidate.variant)
}

/// The alternatives that need no review.
pub open spec fn safe_alternatives(report: RecommendationReportView) -> Seq<CandidateView> {
    kept(report.alternatives, reviewed())
}

/// The alternatives for a processor that are shown.
pub open spec fn gpu_alternatives(report: RecommendationReportView) -> Seq<CandidateView> {
    if gpus_detected(report.environment) {
        at_most(kept(safe_alternatives(report), with_cuda()), GPU_ALTERNATIVES_LIMIT as nat)
    } else {
        Seq::empty()
    }
}

/// The CPU alternatives that are shown beside a processor.
pub open spec fn cpu_alternatives(report: RecommendationReportView) -> Seq<CandidateView> {
    match report.recommendation {
        Some(candidate) => if gpus_detected(report.environment) && has_cuda(candidate.variant) {
            at_most(kept(safe_alternatives(report), without_cuda()), CPU_FALLBACK_LIMIT as nat)
        } else {
            Seq::empty()
        },
        None => Seq::empty(),
    }
}

/// The other alternatives that are shown where there is no processor.
pub open spec fn other_alternatives(report: RecommendationReportView) -> Seq<CandidateView> {
    if gpus_detected(report.environment) {
        Seq::empty()
    } else {
        at_most(safe_alternatives(report), OTHER_OPTIONS_LIMIT as nat)
    }
}

/// Whether what is recommended has not passed every check.
pub open spec fn unverified_choice(report: RecommendationReportView) -> bool {
    match report.recommendation {
        Some(candidate) => candidate.compatibility == CompatibilityStatus::Unverified,
        None => false,
    }
}

/// Where a candidate stands among those that need a review: a reviewed release for a processor
/// first, another release for a processor next, and releases for the CPU last.
pub open spec fn review_priority(candidate: CandidateView) -> u8 {
    if !has_cuda(candidate.variant) {
        2
    } else if candidate.official_preference is Some {
        0
    } else {
        1
    }
}

/// Whether `left` is shown after `right` among those that need a review.
pub open spec fn review_after() -> spec_fn(CandidateView, CandidateView) -> bool {
    |left: CandidateView, right: CandidateView| review_priority(left) > review_priority(right)
}

/// Everything that needs a review, in the order in which it is shown.
pub open spec fn review_list(report: RecommendationReportView) -> Seq<CandidateView> {
    let alternatives = kept(report.alternatives, unreviewed());
    sort_by(
        match report.recommendation {
            Some(candidate) => if candidate.compatibility == CompatibilityStatus::Unverified {
                alternatives.push(candidate)
            } else {
                alternatives
            },
            None => alternatives,
        },
        review_after(),
    )
}

/// Where a candidate stands among those that need a review.
pub fn review_display_priority(candidate: &Candidate) -> (priority: u8)
    ensures
        priority == review_priority(candidate.deep_view()),
{
    if !candidate.variant.is_cuda() {
        2
    } else if candidate.official_preference.is_some() {
        0
    } else {
        1
    }
}

fn filter_candidates(candidates: &Vec<Candidate>, review: bool) -> (result: Vec<Candidate>)
    ensures
        result.deep_view() == kept(
            candidates.deep_view(),
            if review {
                unreviewed()
            } else {
                reviewed()
            },
        ),
{
    let ghost all = candidates.deep_view();
    let ghost wanted = if review {
        unreviewed()
    } else {
        reviewed()
    };
    let mut result: Vec<Candidate> = Vec::new();
    let mut index: usize = 0;
    assert(all.take(0) =~= Seq::<CandidateView>::empty());
    while index < candidates.len()
        invariant
            index <= candidates@.len(),
            all == candidates.deep_view(),
            wanted == (if review {
                unreviewed()
            } else {
                reviewed()
            }),
            result.deep_view() == kept(all.take(index as int), wanted),
        decreases candidates@.len() - index,
    {
        assert(all.take(index + 1).drop_last() =~= all.take(index as int));
        assert(all.take(index + 1).last() == candidates@[index as int].deep_view());
        if candidate_needs_review(&candidates[index]) == review {
            push_item(&mut result, candidates[index].clone());
        }
        index = index + 1;
    }
    assert(all.take(index as int) =~= all);
    result
}

fn filter_variants(candidates: &Vec<Candidate>, cuda: bool) -> (result: Vec<Candidate>)
    ensures
        result.deep_view() == kept(
            candidates.deep_view(),
            if cuda {
                with_cuda()
            } else {
                without_cuda()
            },
        ),
{
    let ghost all = candidates.deep_view();
    let ghost wanted = if cuda {
        with_cuda()
    } else {
        without_cuda()
    };
    let mut result: Vec<Candidate> = Vec::new();
    let mut index: usize = 0;
    assert(all.take(0) =~= Seq::<CandidateView>::empty());
    while index < candidates.len()
        invariant
            index <= candidates@.len(),
            all == candidates.deep_view(),
            wanted == (if cuda {
                with_cuda()
            } else {
                without_cuda()
            }),
            result.deep_view() == kept(all.take(index as int), wanted),
        decreases candidates@.len() - index,
    {
        assert(all.take(index + 1).drop_last() =~= all.take(index as int));
        assert(all.take(index + 1).last() == candidates@[index as int].deep_view());
        if candidates[index].variant.is_cuda() == cuda {
            push_item(&mut result, candidates[index].clone());
        }
        index = index + 1;
    }
    assert(all.take(index as int) =~= all);
    result
}

fn first_candidates(candidates: &Vec<Candidate>, limit: usize) -> (result: Vec<Candidate>)
    ensures
        result.deep_view() == at_most(candidates.deep_view(), limit as nat),
{
    let ghost all = candidates.deep_view();
    let mut result: Vec<Candidate> = Vec::new();
    let mut index: usize = 0;
    while index < candidates.len() && index < limit
        invariant
            index <= candidates@.len(),
            index <= limit,
            all == candidates.deep_view(),
            result.deep_view() == all.take(index as int),
        decreases candidates@.len() - index,
    {
        push_item(&mut result, candidates[index].clone());
        assert(all.take(index + 1) =~= all.take(index as int).push(all[index as int]));
        index = index + 1;
    }
    if index == candidates.len() {
        assert(all.take(index as int) =~= all);
    }
    result
}

fn list_gpu_alternatives(report: &RecommendationReport) -> (result: Vec<Candidate>)
    ensures
        result.deep_view() == gpu_alternatives(report.deep_view()),
{
    if has_detected_gpus(&report.environment) {
        let safe = filter_candidates(&report.alternatives, false);
        first_candidates(&filter_variants(&safe, true), GPU_ALTERNATIVES_LIMIT)
    } else {
        let none: Vec<Candidate> = Vec::new();
        assert(none.deep_view() =~= Seq::<CandidateView>::empty());
        none
    }
}

fn list_cpu_alternatives(report: &RecommendationReport) -> (result: Vec<Candidate>)
    ensures
        result.deep_view() == cpu_alternatives(report.deep_view()),
{
    let cuda = match &report.recommendation {
        Some(candidate) => candidate.variant.is_cuda(),
        None => false,
    };
    if cuda && has_detected_gpus(&report.environment) {
        let safe = filter_candidates(&report.alternatives, false);
        first_candidates(&filter_variants(&safe, false), CPU_FALLBACK_LIMIT)
    } else {
        let none: Vec<Candidate> = Vec::new();
        assert(none.deep_view() =~= Seq::<CandidateView>::empty());
        none
    }
}

fn list_other_alternatives(report: &RecommendationReport) -> (result: Vec<Candidate>)
    ensures
        result.deep_view() == other_alternatives(report.deep_view()),
{
    if has_detected_gpus(&report.environment) {
        let none: Vec<Candidate> = Vec::new();
        assert(none.deep_view() =~= Seq::<CandidateView>::empty());
        none
    } else {
        let safe = filter_candidates(&report.alternatives, false);
        first_candidates(&safe, OTHER_OPTIONS_LIMIT)
    }
}

fn list_reviews(report: &RecommendationReport) -> (result: Vec<Candidate>)
    ensures
        result.deep_view() == review_list(report.deep_view()),
{
    let mut result = filter_candidates(&report.alternatives, true);
    if let Some(candidate) = &report.recommendation {
        if candidate.compatibility == CompatibilityStatus::Unverified {
            push_item(&mut result, candidate.clone());
        }
    }
    let after = |left: &Candidate, right: &Candidate| -> (follows: bool)
        ensures
            follows == (review_priority(left.deep_view()) > review_priority(right.deep_view())),
        { review_display_priority(left) > review_display_priority(right) };
    sort_values(&mut result, after, Ghost(review_after()));
    result
}

// ---------------------------------------------------------------------------
// The driver upgrade

/// Whether a candidate is no older than what is recommended, where that can be told.
pub open spec fn not_older(candidate: CandidateView, recommended: Option<CandidateView>) -> bool {
    match recommended {
        Some(choice) => is_pep440(choice.torch_version) ==> (match pep440_order(
            candidate.torch_version,
            choice.torch_version,
        ) {
            Some(order) => order != Order::Less,
            None => false,
        }),
        None => true,
    }
}

/// Whether nothing but the driver stands against a reviewed candidate for a processor.
pub open spec fn all_but_driver(candidate: CandidateView) -> bool {
    &&& has_cuda(candidate.variant)
    &&& candidate.official_preference is Some
    &&& candidate.checks.wheel.status == CheckStatus::Pass
    &&& candidate.checks.python.status == CheckStatus::Pass
    &&& candidate.checks.platform.status == CheckStatus::Pass
    &&& candidate.checks.gpu_architecture.status == CheckStatus::Pass
}

/// The first reason that says that the driver is too old.
pub open spec fn driver_reason(reasons: Seq<DecisionReasonView>) -> Option<DecisionReasonView>
    decreases reasons.len(),
{
    if reasons.len() == 0 {
        None
    } else if reasons[0].code == ReasonCode::DriverTooOld {
        Some(reasons[0])
    } else {
        driver_reason(reasons.skip(1))
    }
}

/// What a driver upgrade would make possible: the first of `excluded` that is worth it, and why
/// it was excluded.
pub open spec fn first_upgrade(
    excluded: Seq<CandidateView>,
    recommended: Option<CandidateView>,
) -> Option<(CandidateView, DecisionReasonView)>
    decreases excluded.len(),
{
    if excluded.len() == 0 {
        None
    } else if not_older(excluded[0], recommended) && all_but_driver(excluded[0]) && driver_reason(
        failures(excluded[0]),
    ) is Some {
        Some((excluded[0], driver_reason(failures(excluded[0]))->0))
    } else {
        first_upgrade(excluded.skip(1), recommended)
    }
}

/// What a driver upgrade would make possible.
pub open spec fn upgrade_hint(report: RecommendationReportView) -> Option<
    (CandidateView, DecisionReasonView),
> {
    first_upgrade(report.excluded, report.recommendation)
}

/// The text on a driver upgrade.
pub open spec fn upgrade_words(candidate: CandidateView, reason: DecisionReasonView) -> Seq<char> {
    "PyTorch "@ + candidate.torch_version + " + "@ + variant_text(candidate.variant)
        + " requires NVIDIA driver "@ + detail_or(reason.details, "minimum"@, "unknown"@)
        + " or newer (detected "@ + detail_or(reason.details, "detected"@, "unknown"@) + ")."@
}

fn is_not_older(candidate: &Candidate, recommended: &Option<Candidate>) -> (answer: bool)
    ensures
        answer == not_older(candidate.deep_view(), recommended.deep_view()),
{
    match recommended {
        Some(choice) => {
            if normalize_version(choice.torch_version.as_str()).is_none() {
                return true;
            }
            match order_versions(candidate.torch_version.as_str(), choice.torch_version.as_str()) {
                Some(order) => order != Order::Less,
                None => false,
            }
        },
        None => true,
    }
}

fn passes_all_but_driver(candidate: &Candidate) -> (answer: bool)
    ensures
        answer == all_but_driver(candidate.deep_view()),
{
    candidate.variant.is_cuda() && candidate.official_preference.is_some()
        && candidate.checks.wheel.status == CheckStatus::Pass && candidate.checks.python.status
        == CheckStatus::Pass && candidate.checks.platform.status == CheckStatus::Pass
        && candidate.checks.gpu_architecture.status == CheckStatus::Pass
}

fn find_driver_reason(candidate: &Candidate) -> (found: Option<DecisionReason>)
    ensures
        found.deep_view() == driver_reason(failures(candidate.deep_view())),
{
    let reasons = failing_reasons(candidate);
    let ghost all = reasons.deep_view();
    let mut index: usize = 0;
    assert(all.skip(0) =~= all);
    while index < reasons.len()
        invariant
            index <= reasons@.len(),
            all == reasons.deep_view(),
            all == failures(candidate.deep_view()),
            driver_reason(all.skip(index as int)) == driver_reason(all),
        decreases reasons@.len() - index,
    {
        assert(all.skip(index as int)[0] == reasons@[index as int].deep_view());
        assert(all.skip(index as int).skip(1) =~= all.skip(index + 1));
        if reasons[index].code == ReasonCode::DriverTooOld {
            return Some(reasons[index].clone());
        }
        index = index + 1;
    }
    None
}

/// Finds what a driver upgrade would make possible.
pub fn driver_upgrade_hint(report: &RecommendationReport) -> (hint: Option<
    (Candidate, DecisionReason),
>)
    ensures
        hint.deep_view() == upgrade_hint(report.deep_view()),
{
    let ghost all = report.excluded.deep_view();
    let ghost choice = report.recommendation.deep_view();
    let mut index: usize = 0;
    assert(all.skip(0) =~= all);
    while index < report.excluded.len()
        invariant
            index <= report.excluded@.len(),
            all == report.excluded.deep_view(),
            choice == report.recommendation.deep_view(),
            first_upgrade(all.skip(index as int), choice) == first_upgrade(all, choice),
        decreases report.excluded@.len() - index,
    {
        let candidate = &report.excluded[index];
        assert(all.skip(index as int)[0] == candidate.deep_view());
        assert(all.skip(index as int).skip(1) =~= all.skip(index + 1));
        if is_not_older(candidate, &report.recommendation) && passes_all_but_driver(candidate) {
            if let Some(reason) = find_driver_reason(candidate) {
                return Some((candidate.clone(), reason));
            }
        }
        index = index + 1;
    }
    None
}

/// The text on a driver upgrade.
pub fn driver_upgrade_text(candidate: &Candidate, reason: &DecisionReason) -> (text: String)
    ensures
        text@ == upgrade_words(candidate.deep_view(), reason.deep_view()),
{
    let minimum = show_detail(&reason.details, "minimum", "unknown");
    let detected = show_detail(&reason.details, "detected", "unknown");
    let mut text = "PyTorch ".to_owned();
    text.append(candidate.torch_version.as_str());
    text.append(" + ");
    text.append(candidate.variant.to_string().as_str());
    text.append(" requires NVIDIA driver ");
    text.append(minimum.as_str());
    text.append(" or newer (detected ");
    text.append(detected.as_str());
    text.append(").");
    text
}

// ---------------------------------------------------------------------------
// The page

/// `out` followed by the choice and how to install it.
pub open spec fn put_choice(out: Seq<char>, report: RecommendationReportView, width: nat) -> Seq<
    char,
> {
    if unverified_choice(report) {
        wrapped(
            line(out, "Recommendation"@),
            "  "@,
            "  "@,
            "No configuration passed every static safety check."@,
            width,
        )
    } else {
        let fallback = cpu_fallback(report);
        let titled = line(
            out,
            if fallback {
                "CPU fallback"@
            } else {
                "Recommendation"@
            },
        );
        match report.recommendation {
            None => wrapped(
                titled,
                "  "@,
                "  "@,
                "No recommendation-eligible reviewed configuration matched the selected constraints."@,
                width,
            ),
            Some(candidate) => {
                let chosen = put_summary(titled, candidate, "  "@, width, true);
                let noted = if fallback {
                    wrapped(
                        chosen,
                        "  Note: "@,
                        "    "@,
                        "No reviewed CUDA candidate passed all static checks."@,
                        width,
                    )
                } else {
                    chosen
                };
                match report.install {
                    Some(command) => put_command(
                        line(line(noted, ""@), "Install"@),
                        command,
                        width,
                    ),
                    None => noted,
                }
            },
        }
    }
}

/// `out` followed by a section of candidates, if there are any.
pub open spec fn put_section(
    out: Seq<char>,
    title: Seq<char>,
    candidates: Seq<CandidateView>,
    width: nat,
) -> Seq<char> {
    if candidates.len() == 0 {
        out
    } else {
        put_summaries(line(line(out, ""@), title), candidates, width, false)
    }
}

/// `out` followed by what needs a review, if there is anything.
pub open spec fn put_reviews(out: Seq<char>, reviews: Seq<CandidateView>, width: nat) -> Seq<char> {
    if reviews.len() == 0 {
        out
    } else {
        let listed = put_summaries(
            line(line(out, ""@), "Needs review or verification"@),
            at_most(reviews, NEEDS_VERIFICATION_LIMIT as nat),
            width,
            true,
        );
        if reviews.len() > NEEDS_VERIFICATION_LIMIT {
            wrapped(
                listed,
                "  "@,
                "  "@,
                "… "@ + decimal((reviews.len() - NEEDS_VERIFICATION_LIMIT) as nat)
                    + " more candidate(s) requiring review or verification."@,
                width,
            )
        } else {
            listed
        }
    }
}

/// `out` followed by the other options, if there are any.
pub open spec fn put_options(out: Seq<char>, report: RecommendationReportView, width: nat) -> Seq<
    char,
> {
    let others = other_alternatives(report);
    let hint = upgrade_hint(report);
    let titled = if others.len() > 0 || hint is Some {
        line(line(out, ""@), "Other options"@)
    } else {
        out
    };
    let listed = put_summaries(titled, others, width, false);
    match hint {
        Some(found) => wrapped(
            listed,
            "  Driver upgrade: "@,
            "    "@,
            upgrade_words(found.0, found.1),
            width,
        ),
        None => listed,
    }
}

/// How many candidates are shown.
pub open spec fn displayed(report: RecommendationReportView) -> nat {
    (if report.recommendation is Some && !unverified_choice(report) {
        1nat
    } else {
        0nat
    }) + gpu_alternatives(report).len() + at_most(
        review_list(report),
        NEEDS_VERIFICATION_LIMIT as nat,
    ).len() + cpu_alternatives(report).len() + other_alternatives(report).len()
}

/// How many candidates there are.
pub open spec fn total(report: RecommendationReportView) -> nat {
    (if report.recommendation is Some {
        1nat
    } else {
        0nat
    }) + report.alternatives.len() + report.excluded.len()
}

/// `out` followed by a hint at the candidates that are not shown, if there are any.
pub open spec fn put_rest(out: Seq<char>, report: RecommendationReportView, width: nat) -> Seq<
    char,
> {
    if total(report) > displayed(report) {
        wrapped(
            line(out, ""@),
            "  "@,
            "  "@,
            "Showing a summary of "@ + decimal(total(report))
                + " candidates. Run `torch-check candidates --all` for every option and exclusion reason."@,
            width,
        )
    } else {
        out
    }
}

/// A recommendation.
#[verifier::opaque]
pub open spec fn recommendation_page(report: RecommendationReportView, width: nat) -> Seq<char> {
    let began = line(put_environment(""@, report.environment, width), ""@);
    let chosen = put_choice(began, report, width);
    let gpus = put_section(chosen, "GPU alternatives"@, gpu_alternatives(report), width);
    let reviews = put_reviews(gpus, review_list(report), width);
    let cpus = put_section(reviews, "CPU fallback"@, cpu_alternatives(report), width);
    let options = put_options(cpus, report, width);
    let rest = put_rest(options, report, width);
    put_footer(line(rest, ""@), report.metadata, width)
}

fn write_choice(output: &mut String, report: &RecommendationReport, width: usize)
    ensures
        final(output)@ == put_choice(old(output)@, report.deep_view(), width as nat),
{
    let unverified = match &report.recommendation {
        Some(candidate) => candidate.compatibility == CompatibilityStatus::Unverified,
        None => false,
    };
    if unverified {
        write_line(output, "Recommendation");
        write_wrapped(
            output,
            "  ",
            "  ",
            "No configuration passed every static safety check.",
            width,
        );
        return;
    }
    let fallback = is_nvidia_cpu_fallback(report);
    write_line(
        output,
        if fallback {
            "CPU fallback"
        } else {
            "Recommendation"
        },
    );
    match &report.recommendation {
        Some(candidate) => {
            write_candidate_summary(output, candidate, "  ", width, true);
            if fallback {
                write_wrapped(
                    output,
                    "  Note: ",
                    "    ",
                    "No reviewed CUDA candidate passed all static checks.",
                    width,
                );
            }
            if let Some(install) = &report.install {
                write_line(output, "");
                write_line(output, "Install");
                write_command(output, install, width);
            }
        },
        None => {
            write_wrapped(
                output,
                "  ",
                "  ",
                "No recommendation-eligible reviewed configuration matched the selected constraints.",
                width,
            );
        },
    }
}

fn write_section(output: &mut String, title: &str, candidates: &Vec<Candidate>, width: usize)
    ensures
        final(output)@ == put_section(
            old(output)@,
            title@,
            candidates.deep_view(),
            width as nat,
        ),
{
    if candidates.len() > 0 {
        write_line(output, "");
        write_line(output, title);
        write_summaries(output, candidates, width, false);
    }
}

fn write_reviews(output: &mut String, reviews: &Vec<Candidate>, width: usize)
    ensures
        final(output)@ == put_reviews(old(output)@, reviews.deep_view(), width as nat),
{
    if reviews.len() == 0 {
        return;
    }
    write_line(output, "");
    write_line(output, "Needs review or verification");
    let listed = first_candidates(reviews, NEEDS_VERIFICATION_LIMIT);
    write_summaries(output, &listed, width, true);
    if reviews.len() > NEEDS_VERIFICATION_LIMIT {
        let mut text = "… ".to_owned();
        let more: usize = reviews.len() - NEEDS_VERIFICATION_LIMIT;
        text.append(decimal_text(more as u64).as_str());
        text.append(" more candidate(s) requiring review or verification.");
        write_wrapped(output, "  ", "  ", text.as_str(), width);
    }
}

fn write_options(
    output: &mut String,
    report: &RecommendationReport,
    others: &Vec<Candidate>,
    width: usize,
)
    requires
        others.deep_view() == other_alternatives(report.deep_view()),
    ensures
        final(output)@ == put_options(old(output)@, report.deep_view(), width as nat),
{
    let hint = driver_upgrade_hint(report);
    if others.len() > 0 || hint.is_some() {
        write_line(output, "");
        write_line(output, "Other options");
    }
    write_summaries(output, others, width, false);
    if let Some(found) = hint {
        let text = driver_upgrade_text(&found.0, &found.1);
        write_wrapped(output, "  Driver upgrade: ", "    ", text.as_str(), width);
    }
}

fn write_rest(output: &mut String, report: &RecommendationReport, shown_count: usize, width: usize)
    requires
        shown_count == displayed(report.deep_view()),
    ensures
        final(output)@ == put_rest(old(output)@, report.deep_view(), width as nat),
{
    let chosen: u128 = if report.recommendation.is_some() {
        1
    } else {
        0
    };
    let count: u128 = chosen + report.alternatives.len() as u128 + report.excluded.len() as u128;
    if count > shown_count as u128 {
        write_line(output, "");
        let mut text = "Showing a summary of ".to_owned();
        text.append(wide_decimal_text(count).as_str());
        text.append(
            " candidates. Run `torch-check candidates --all` for every option and exclusion reason.",
        );
        write_wrapped(output, "  ", "  ", text.as_str(), width);
    }
}

/// Shows a recommendation.
pub fn render_recommendation(report: &RecommendationReport, width: usize) -> (text: String)
    ensures
        text@ == recommendation_page(report.deep_view(), width as nat),
{
    proof {
        reveal(recommendation_page);
    }
    let mut output = render_environment(&report.environment, width);
    write_line(&mut output, "");
    write_choice(&mut output, report, width);
    let chosen: usize = match &report.recommendation {
        Some(candidate) => if candidate.compatibility == CompatibilityStatus::Unverified {
            0
        } else {
            1
        },
        None => 0,
    };
    let gpus = list_gpu_alternatives(report);
    write_section(&mut output, "GPU alternatives", &gpus, width);
    let reviews = list_reviews(report);
    write_reviews(&mut output, &reviews, width);
    let reviews_shown: usize = if reviews.len() > NEEDS_VERIFICATION_LIMIT {
        NEEDS_VERIFICATION_LIMIT
    } else {
        reviews.len()
    };
    let cpus = list_cpu_alternatives(report);
    write_section(&mut output, "CPU fallback", &cpus, width);
    let others = list_other_alternatives(report);
    write_options(&mut output, report, &others, width);
    let shown_count: usize = chosen + gpus.len() + reviews_shown + cpus.len() + others.len();
    write_rest(&mut output, report, shown_count, width);
    write_line(&mut output, "");
    write_metadata_footer(&mut output, &report.metadata, width);
    output
}


// ---------------------------------------------------------------------------
// Laws

proof fn parts_count<T>(items: Seq<T>, keep: spec_fn(T) -> bool, leave: spec_fn(T) -> bool)
    requires
        forall|item: T| #[trigger] keep(item) == !leave(item),
    ensures
        kept(items, keep).len() + kept(items, leave).len() == items.len(),
    decreases items.len(),
{
    if items.len() > 0 {
        parts_count(items.drop_last(), keep, leave);
        assert(keep(items.last()) == !leave(items.last()));
    }
}

/// No candidate is shown twice: at most as many are shown as there are.
pub proof fn no_more_is_shown_than_there_is(report: RecommendationReportView)
    ensures
        displayed(report) <= total(report),
{
    parts_count(report.alternatives, reviewed(), unreviewed());
    parts_count(safe_alternatives(report), with_cuda(), without_cuda());
    let alternatives = kept(report.alternatives, unreviewed());
    let unordered = match report.recommendation {
        Some(candidate) => if candidate.compatibility == CompatibilityStatus::Unverified {
            alternatives.push(candidate)
        } else {
            alternatives
        },
        None => alternatives,
    };
    sort_keeps_items(unordered, review_after());
}

proof fn at_most_members<T>(items: Seq<T>, limit: nat, item: T)
    requires
        at_most(items, limit).contains(item),
    ensures
        items.contains(item),
{
    let i = choose|i: int| 0 <= i < at_most(items, limit).len() && at_most(items, limit)[i] == item;
    assert(items[i] == item);
}

/// Every alternative that is shown outside the section on reviews is one of the alternatives and
/// needs no review; those for a processor are for one, and the CPU fallbacks are for none.
pub proof fn shown_alternatives_are_reviewed(
    report: RecommendationReportView,
    candidate: CandidateView,
)
    ensures
        gpu_alternatives(report).contains(candidate) ==> report.alternatives.contains(candidate)
            && !needs_review(candidate) && has_cuda(candidate.variant),
        cpu_alternatives(report).contains(candidate) ==> report.alternatives.contains(candidate)
            && !needs_review(candidate) && !has_cuda(candidate.variant),
        other_alternatives(report).contains(candidate) ==> report.alternatives.contains(candidate)
            && !needs_review(candidate),
{
    let safe = safe_alternatives(report);
    kept_members(report.alternatives, reviewed(), candidate);
    kept_members(safe, with_cuda(), candidate);
    kept_members(safe, without_cuda(), candidate);
    if gpu_alternatives(report).contains(candidate) {
        at_most_members(kept(safe, with_cuda()), GPU_ALTERNATIVES_LIMIT as nat, candidate);
    }
    if cpu_alternatives(report).contains(candidate) {
        at_most_members(kept(safe, without_cuda()), CPU_FALLBACK_LIMIT as nat, candidate);
    }
    if other_alternatives(report).contains(candidate) {
        at_most_members(safe, OTHER_OPTIONS_LIMIT as nat, candidate);
    }
}

/// Among those that need a review, reviewed releases for a processor come before other releases
/// for a processor, and these before releases for the CPU.
pub proof fn reviews_are_shown_by_priority(report: RecommendationReportView, low: int, high: int)
    requires
        0 <= low < high < review_list(report).len(),
    ensures
        review_priority(review_list(report)[low]) <= review_priority(review_list(report)[high]),
{
    let alternatives = kept(report.alternatives, unreviewed());
    let unordered = match report.recommendation {
        Some(candidate) => if candidate.compatibility == CompatibilityStatus::Unverified {
            alternatives.push(candidate)
        } else {
            alternatives
        },
        None => alternatives,
    };
    assert(strict_weak_order(review_after()));
    sort_keeps_items(unordered, review_after());
    sort_orders_all(unordered, review_after(), low, high);
}

/// Exactly the alternatives that need a review, and a choice that has not passed every check,
/// stand in the section on reviews.
pub proof fn everything_unreviewed_is_listed(
    report: RecommendationReportView,
    candidate: CandidateView,
)
    ensures
        review_list(report).contains(candidate) <==> (report.alternatives.contains(candidate)
            && needs_review(candidate)) || (unverified_choice(report) && report.recommendation
            == Some(candidate)),
{
    broadcast use vstd::seq_lib::group_to_multiset_ensures;

    let alternatives = kept(report.alternatives, unreviewed());
    kept_members(report.alternatives, unreviewed(), candidate);
    let unordered = match report.recommendation {
        Some(choice) => if choice.compatibility == CompatibilityStatus::Unverified {
            alternatives.push(choice)
        } else {
            alternatives
        },
        None => alternatives,
    };
    sort_keeps_items(unordered, review_after());
    let list = review_list(report);
    assert(unordered.contains(candidate) <==> unordered.to_multiset().count(candidate) > 0);
    assert(list.contains(candidate) <==> list.to_multiset().count(candidate) > 0);
    if unverified_choice(report) {
        let choice = report.recommendation->0;
        assert(unordered[alternatives.len() as int] == choice);
        if alternatives.contains(candidate) {
            let i = choose|i: int| 0 <= i < alternatives.len() && alternatives[i] == candidate;
            assert(unordered[i] == candidate);
        }
        if unordered.contains(candidate) && candidate != choice {
            let i = choose|i: int| 0 <= i < unordered.len() && unordered[i] == candidate;
            assert(alternatives[i] == candidate);
        }
    }
}

proof fn driver_reason_is_a_failure(reasons: Seq<DecisionReasonView>)
    requires
        driver_reason(reasons) is Some,
    ensures
        reasons.contains(driver_reason(reasons)->0),
        (driver_reason(reasons)->0).code == ReasonCode::DriverTooOld,
    decreases reasons.len(),
{
    if reasons[0].code == ReasonCode::DriverTooOld {
        assert(reasons.contains(reasons[0]));
    } else {
        driver_reason_is_a_failure(reasons.skip(1));
        let rest = reasons.skip(1);
        let i = choose|i: int| 0 <= i < rest.len() && rest[i] == driver_reason(reasons)->0;
        assert(reasons[i + 1] == driver_reason(reasons)->0);
    }
}

/// A driver upgrade is suggested only for an excluded candidate that is reviewed, is for a
/// processor, is no older than what is recommended, and fails for no other reason than the
/// driver.
pub proof fn upgrade_is_worth_it(
    excluded: Seq<CandidateView>,
    recommended: Option<CandidateView>,
)
    requires
        first_upgrade(excluded, recommended) is Some,
    ensures
        ({
            let found = first_upgrade(excluded, recommended)->0;
            &&& excluded.contains(found.0)
            &&& not_older(found.0, recommended)
            &&& all_but_driver(found.0)
            &&& failures(found.0).contains(found.1)
            &&& found.1.code == ReasonCode::DriverTooOld
            &&& found.0.checks.driver.status == CheckStatus::Fail
        }),
    decreases excluded.len(),
{
    if not_older(excluded[0], recommended) && all_but_driver(excluded[0]) && driver_reason(
        failures(excluded[0]),
    ) is Some {
        assert(excluded.contains(excluded[0]));
        driver_reason_is_a_failure(failures(excluded[0]));
    } else {
        upgrade_is_worth_it(excluded.skip(1), recommended);
        let rest = excluded.skip(1);
        let found = first_upgrade(excluded, recommended)->0;
        let i = choose|i: int| 0 <= i < rest.len() && rest[i] == found.0;
        assert(excluded[i + 1] == found.0);
    }
}

} // verus!
