//! What is asked for on the command line, what is hidden on request, and what is shown of a report.

use crate::arguments::{
    asks_for_json, asks_to_redact, companions_in, exact_version, for_recommend, insertion_point,
    is_command, is_flag, is_option, prepared, takes_value, wanted_packages,
};
use crate::model::{
    CandidateView, CheckStatus, CompatibilityStatus, DecisionReasonView, DiagnosticCode,
    EnvironmentView, NvidiaDetectionStatus, ReasonCode, RecommendationReportView,
    VerificationReportView,
};
use crate::order::{kept, kept_members};
use crate::outside::pep440_text;
use crate::pieces::{occurs, stands_at, trimmed};
use crate::redact::{
    redacted, redacted_environment, redacted_report, redacted_verification, replaced,
    sensitive_values,
};
use crate::render::failures;
use crate::rules::CompanionPackage;
use crate::summary::{
    all_but_driver, at_most, cpu_alternatives, driver_reason, first_upgrade, gpu_alternatives,
    not_older, other_alternatives, review_list, reviews_are_shown_by_priority, safe_alternatives,
};
use crate::text::whitespace;
use vstd::prelude::*;

verus! {

// ---------------------------------------------------------------------------
// Arguments

/// Whether an argument is one of the options that only a recommendation has.
pub open spec fn asks_for_recommendation(argument: Seq<char>) -> bool {
    ||| argument == "--torch-version"@ || ("--torch-version"@ + "="@).is_prefix_of(argument)
    ||| argument == "--prerelease"@ || ("--prerelease"@ + "="@).is_prefix_of(argument)
    ||| argument == "--installer"@ || ("--installer"@ + "="@).is_prefix_of(argument)
    ||| argument == "--with"@ || ("--with"@ + "="@).is_prefix_of(argument)
}

/// Whether an argument is an option of every command that takes no value.
pub open spec fn is_global_flag(argument: Seq<char>) -> bool {
    argument == "--refresh"@ || argument == "--offline"@ || argument == "--redact"@
}

proof fn known_words_differ()
    ensures
        forall|flag: Seq<char>| #[trigger]
            is_global_flag(flag) ==> is_flag(flag) && !is_command(flag) && !for_recommend(flag)
                && !takes_value(flag) && flag != "--"@,
{
    reveal_strlit("--refresh");
    reveal_strlit("--offline");
    reveal_strlit("--redact");
    reveal_strlit("--torch-version");
    reveal_strlit("--prerelease");
    reveal_strlit("--installer");
    reveal_strlit("--with");
    reveal_strlit("--python");
    reveal_strlit("--gpu");
    reveal_strlit("--format");
    reveal_strlit("--cache-dir");
    reveal_strlit("--");
    reveal_strlit("=");
    reveal_strlit("inspect");
    reveal_strlit("recommend");
    reveal_strlit("candidates");
    reveal_strlit("explain");
    reveal_strlit("verify");
    reveal_strlit("completions");
    reveal_strlit("man");
    assert forall|flag: Seq<char>| #[trigger] is_global_flag(flag) implies is_flag(flag)
        && !is_command(flag) && !for_recommend(flag) && !takes_value(flag) && flag != "--"@ by {
        assert(flag[0] == '-');
        assert(flag.len() <= 9);
        let others = seq![
            "--torch-version"@,
            "--prerelease"@,
            "--installer"@,
            "--with"@,
            "--python"@,
            "--gpu"@,
            "--format"@,
            "--cache-dir"@,
        ];
        assert forall|i: int| 0 <= i < others.len() implies !is_option(
            flag,
            #[trigger] others[i],
        ) by {
            let other = others[i];
            assert(other[2] != flag[2] || other[3] != flag[3] || other.len() > flag.len());
            if (other + "="@).is_prefix_of(flag) {
                assert((other + "="@)[2] == flag[2]);
                assert((other + "="@)[3] == flag[3]);
            }
        }
        assert(!is_option(flag, others[0]) && !is_option(flag, others[1]) && !is_option(
            flag,
            others[2],
        ) && !is_option(flag, others[3]) && !is_option(flag, others[4]) && !is_option(
            flag,
            others[5],
        ) && !is_option(flag, others[6]) && !is_option(flag, others[7]));
    }
}

proof fn insertion_moves_along(arguments: Seq<Seq<char>>, flag: Seq<char>, from: int)
    requires
        arguments.len() >= 1,
        from >= 1,
    ensures
        insertion_point(arguments.insert(1, flag), from + 1) == (match insertion_point(
            arguments,
            from,
        ) {
            Some(place) => Some(place + 1),
            None => None,
        }),
    decreases arguments.len() + 2 - from,
{
    let longer = arguments.insert(1, flag);
    if from < arguments.len() {
        assert(longer[from + 1] == arguments[from]);
        insertion_moves_along(arguments, flag, from + 1);
        insertion_moves_along(arguments, flag, from + 2);
    }
}

proof fn insertion_is_behind(arguments: Seq<Seq<char>>, from: int)
    ensures
        insertion_point(arguments, from) matches Some(place) ==> from <= place < arguments.len(),
    decreases arguments.len() + 2 - from,
{
    if 0 <= from < arguments.len() {
        insertion_is_behind(arguments, from + 1);
        insertion_is_behind(arguments, from + 2);
    }
}

/// An option of a recommendation that comes before any command asks for a recommendation. Options of
/// every command make no difference to that.
pub proof fn a_recommendation_is_what_its_options_ask_for(
    arguments: Seq<Seq<char>>,
    flag: Seq<char>,
)
    requires
        arguments.len() >= 1,
    ensures
        arguments.len() > 1 && asks_for_recommendation(arguments[1]) && !is_command(arguments[1]) ==> prepared(
            arguments,
        ) == arguments.insert(1, "recommend"@),
        arguments.len() > 1 && is_command(arguments[1]) ==> prepared(arguments) == arguments,
        arguments.len() == 1 ==> prepared(arguments) == arguments,
        is_global_flag(flag) ==> prepared(arguments.insert(1, flag)) == prepared(arguments).insert(
            1,
            flag,
        ),
{
    if is_global_flag(flag) {
        known_words_differ();
        let longer = arguments.insert(1, flag);
        assert(longer[1] == flag);
        insertion_moves_along(arguments, flag, 1);
        insertion_is_behind(arguments, 1);
        assert(insertion_point(longer, 1) == insertion_point(longer, 2));
        match insertion_point(arguments, 1) {
            Some(place) => {
                assert(longer.insert(place + 1, "recommend"@) =~= arguments.insert(
                    place,
                    "recommend"@,
                ).insert(1, flag));
            },
            None => {},
        }
    }
}

/// The words that name the commands.
pub proof fn commands_have_their_names(argument: Seq<char>)
    ensures
        is_command(argument) <==> argument == "inspect"@ || argument == "recommend"@ || argument
            == "candidates"@ || argument == "explain"@ || argument == "verify"@ || argument
            == "completions"@ || argument == "man"@,
{
}

/// JSON is asked for by one argument or by two that follow each other, and hiding by the option for
/// it, wherever they stand; more arguments never take that back.
pub proof fn requests_stand_anywhere(
    before: Seq<Seq<char>>,
    after: Seq<Seq<char>>,
)
    ensures
        asks_for_json(before.push("--format=json"@) + after),
        asks_for_json(before.push("--format"@).push("json"@) + after),
        asks_to_redact(before.push("--redact"@) + after),
        asks_for_json(before) ==> asks_for_json(before + after),
        asks_to_redact(before) ==> asks_to_redact(before + after),
        !asks_for_json(Seq::empty()) && !asks_to_redact(Seq::empty()),
{
    let one = before.push("--format=json"@) + after;
    assert(one[before.len() as int] == "--format=json"@);
    let two = before.push("--format"@).push("json"@) + after;
    assert(two[before.len() as int] == "--format"@);
    assert(two[before.len() as int + 1] == "json"@);
    let three = before.push("--redact"@) + after;
    assert(three[before.len() as int] == "--redact"@);
    let all = before + after;
    if asks_for_json(before) {
        if before.contains("--format=json"@) {
            let i = choose|i: int| 0 <= i < before.len() && before[i] == "--format=json"@;
            assert(all[i] == "--format=json"@);
        } else {
            let i = choose|i: int|
                0 <= i && i + 1 < before.len() && #[trigger] before[i] == "--format"@ && before[i
                    + 1] == "json"@;
            assert(all[i] == "--format"@ && all[i + 1] == "json"@);
        }
    }
    if asks_to_redact(before) {
        let i = choose|i: int|
            0 <= i < before.len() && crate::arguments::redacts(#[trigger] before[i]);
        assert(crate::arguments::redacts(all[i]));
    }
}

/// The packages that are fetched are PyTorch and the companion packages that were asked for.
pub proof fn wanted_packages_are_fetched(values: Seq<CompanionPackage>, package: Seq<char>)
    ensures
        wanted_packages(companions_in(values)).contains(package) <==> {
            ||| package == "torch"@
            ||| package == "torchvision"@ && values.contains(CompanionPackage::Torchvision)
            ||| package == "torchaudio"@ && values.contains(CompanionPackage::Torchaudio)
        },
{
    let set = companions_in(values);
    let all = wanted_packages(set);
    assert(all[0] == "torch"@);
    if set.torchvision {
        assert(all[1] == "torchvision"@);
    }
    if set.torchaudio {
        assert(all[all.len() - 1] == "torchaudio"@);
    }
    if all.contains(package) {
        let i = choose|i: int| 0 <= i < all.len() && all[i] == package;
        assert(i == 0 || i == 1 || i == 2);
    }
}

/// Whether a text can be the version in an exact requirement.
pub open spec fn plain_version(version: Seq<char>) -> bool {
    &&& version.len() > 0
    &&& '0' <= version[0] <= '9'
    &&& !version.contains(',')
    &&& !whitespace(version.last())
}

/// An exact version is read with or without the name of the package and the sign of equality before
/// it; a range is none.
pub proof fn exact_requirements_name_their_version(version: Seq<char>, text: Seq<char>)
    requires
        plain_version(version),
        pep440_text(version) == Some(text),
    ensures
        exact_version(version) == Ok::<Seq<char>, Seq<char>>(text),
        exact_version("=="@ + version) == Ok::<Seq<char>, Seq<char>>(text),
        exact_version("torch=="@ + version) == Ok::<Seq<char>, Seq<char>>(text),
        exact_version(">="@ + version) is Err,
        exact_version("<"@ + version) is Err,
        exact_version("~="@ + version) is Err,
        exact_version("!="@ + version) is Err,
        exact_version(version + ","@) is Err,
{
    reveal_strlit("==");
    reveal_strlit("torch==");
    reveal_strlit(">=");
    reveal_strlit("<");
    reveal_strlit("~=");
    reveal_strlit("!=");
    reveal_strlit(",");
    let bare = version;
    assert(trimmed(bare) == bare);
    assert(!"torch=="@.is_prefix_of(bare)) by {
        if "torch=="@.is_prefix_of(bare) {
            assert(bare[0] == "torch=="@[0]);
        }
    }
    assert(!"=="@.is_prefix_of(bare)) by {
        if "=="@.is_prefix_of(bare) {
            assert(bare[0] == "=="@[0]);
        }
    }
    let equal = "=="@ + version;
    assert(equal[0] == '=' && equal.last() == version.last());
    assert(trimmed(equal) == equal);
    assert("=="@.is_prefix_of(equal));
    assert(equal.skip(2) =~= version);
    assert(!"torch=="@.is_prefix_of(equal)) by {
        if "torch=="@.is_prefix_of(equal) {
            assert(equal[0] == "torch=="@[0]);
        }
    }
    let named = "torch=="@ + version;
    assert(named[0] == 't' && named.last() == version.last());
    assert(trimmed(named) == named);
    assert("torch=="@.is_prefix_of(named));
    assert(named.skip(7) =~= version);
    let signs = seq![">="@, "<"@, "~="@, "!="@];
    assert forall|i: int| 0 <= i < signs.len() implies exact_version(
        #[trigger] signs[i] + version,
    ) is Err by {
        let range = signs[i] + version;
        assert(range[0] == signs[i][0] && range.last() == version.last());
        assert(trimmed(range) == range);
        assert(!"torch=="@.is_prefix_of(range)) by {
            if "torch=="@.is_prefix_of(range) {
                assert(range[0] == "torch=="@[0]);
            }
        }
        assert(!"=="@.is_prefix_of(range)) by {
            if "=="@.is_prefix_of(range) {
                assert(range[0] == "=="@[0]);
            }
        }
    }
    assert(exact_version(signs[0] + version) is Err && exact_version(signs[1] + version) is Err
        && exact_version(signs[2] + version) is Err && exact_version(signs[3] + version) is Err);
    let several = version + ","@;
    assert(several[0] == version[0] && several.last() == ',');
    assert(trimmed(several) == several);
    assert(!"torch=="@.is_prefix_of(several)) by {
        if "torch=="@.is_prefix_of(several) {
            assert(several[0] == "torch=="@[0]);
        }
    }
    assert(!"=="@.is_prefix_of(several)) by {
        if "=="@.is_prefix_of(several) {
            assert(several[0] == "=="@[0]);
        }
    }
    assert(several[version.len() as int] == ',');
    assert(several.contains(','));
}

// ---------------------------------------------------------------------------
// Redaction

proof fn absent_text_is_not_replaced(text: Seq<char>, pattern: Seq<char>, with: Seq<char>)
    requires
        pattern.len() == 0 || !occurs(text, pattern),
    ensures
        replaced(text, pattern, with) == text,
    decreases text.len(),
{
    if text.len() > 0 && pattern.len() > 0 {
        if pattern.is_prefix_of(text) {
            assert(text.subrange(0, pattern.len() as int) =~= pattern);
            assert(stands_at(text, pattern, 0));
        }
        let rest = text.skip(1);
        assert(!occurs(rest, pattern)) by {
            if occurs(rest, pattern) {
                let at = choose|at: int| #[trigger] stands_at(rest, pattern, at);
                assert(text.subrange(at + 1, at + 1 + pattern.len()) =~= rest.subrange(
                    at,
                    at + pattern.len(),
                ));
                assert(stands_at(text, pattern, at + 1));
            }
        }
        absent_text_is_not_replaced(rest, pattern, with);
        assert(seq![text[0]] + rest =~= text);
    }
}

/// What is secret is replaced by a mark, and a text that holds no secret is left as it is.
pub proof fn only_secrets_are_replaced(text: Seq<char>, secrets: Seq<Seq<char>>, secret: Seq<char>)
    ensures
        (forall|i: int|
            0 <= i < secrets.len() ==> (#[trigger] secrets[i]).len() == 0 || !occurs(
                text,
                secrets[i],
            )) ==> redacted(text, secrets) == text,
        secret.len() > 0 ==> redacted(secret, seq![secret]) == "<redacted>"@,
    decreases secrets.len(),
{
    if forall|i: int|
        0 <= i < secrets.len() ==> (#[trigger] secrets[i]).len() == 0 || !occurs(text, secrets[i]) {
        if secrets.len() > 0 {
            let head = secrets.drop_last();
            assert forall|i: int| 0 <= i < head.len() implies (#[trigger] head[i]).len() == 0
                || !occurs(text, head[i]) by {
                assert(head[i] == secrets[i]);
            }
            only_secrets_are_replaced(text, head, secret);
            assert(secrets.last() == secrets[secrets.len() - 1]);
            absent_text_is_not_replaced(text, secrets.last(), crate::redact::REDACTED@);
        }
    }
    if secret.len() > 0 {
        let one = seq![secret];
        assert(one.drop_last() =~= Seq::empty());
        assert(redacted(secret, one.drop_last()) == secret);
        assert(secret.is_prefix_of(secret));
        assert(secret.skip(secret.len() as int) =~= Seq::empty());
        assert(replaced(Seq::empty(), secret, "<redacted>"@) == Seq::<char>::empty());
        assert("<redacted>"@ + Seq::<char>::empty() =~= "<redacted>"@);
    }
}

/// The secrets of an environment are the paths of its interpreter, of its virtual environment and of
/// its toolkit, and the identifiers of its processors.
pub proof fn paths_and_identifiers_are_secret(environment: EnvironmentView, gpu: int)
    ensures
        ({
            let secrets = sensitive_values(environment);
            &&& environment.python matches Some(python) ==> secrets.contains(python.executable.text)
                && (python.virtual_environment matches Some(root) ==> secrets.contains(root.text))
            &&& environment.cuda_toolkit matches Some(toolkit) ==> (
            toolkit.root matches Some(root) ==> secrets.contains(root.text))
            &&& 0 <= gpu < environment.nvidia.gpus.len() ==> (
            environment.nvidia.gpus[gpu].uuid matches Some(uuid) ==> secrets.contains(uuid))
            &&& environment.python is None && environment.cuda_toolkit is None
                && environment.nvidia.gpus.len() == 0 ==> secrets.len() == 0
        }),
{
    let secrets = sensitive_values(environment);
    if let Some(python) = environment.python {
        assert(secrets[0] == python.executable.text);
        if let Some(root) = python.virtual_environment {
            assert(secrets[1] == root.text);
        }
    }
    if let Some(toolkit) = environment.cuda_toolkit {
        if let Some(root) = toolkit.root {
            let place: int = match environment.python {
                None => 0,
                Some(python) => if python.virtual_environment is Some {
                    2
                } else {
                    1
                },
            };
            assert(secrets[place] == root.text);
        }
    }
    if 0 <= gpu < environment.nvidia.gpus.len() {
        crate::redact::identifiers_are_sensitive(environment, gpu);
    }
}

/// Hiding secrets changes nothing else of an environment.
pub proof fn redaction_keeps_the_rest_of_an_environment(environment: EnvironmentView)
    ensures
        ({
            let shown = redacted_environment(environment);
            &&& shown.platform == environment.platform
            &&& shown.glibc == environment.glibc
            &&& shown.nvidia.status == environment.nvidia.status
            &&& shown.nvidia.driver_version == environment.nvidia.driver_version
            &&& shown.nvidia.reported_cuda_version == environment.nvidia.reported_cuda_version
            &&& shown.nvidia.gpus.len() == environment.nvidia.gpus.len()
            &&& forall|i: int|
                0 <= i < environment.nvidia.gpus.len() ==> {
                    let gpu = #[trigger] shown.nvidia.gpus[i];
                    let known = environment.nvidia.gpus[i];
                    gpu.index == known.index && gpu.name == known.name && gpu.compute_capability
                        == known.compute_capability && gpu.driver_version == known.driver_version
                }
            &&& shown.python is Some <==> environment.python is Some
            &&& shown.python matches Some(python) ==> {
                let known = environment.python->0;
                &&& python.implementation == known.implementation
                &&& python.version == known.version
                &&& python.soabi == known.soabi
                &&& python.cache_tag == known.cache_tag
                &&& python.platform == known.platform
                &&& python.pointer_width == known.pointer_width
                &&& python.free_threaded == known.free_threaded
                &&& python.compatible_tags == known.compatible_tags
                &&& python.tag_source == known.tag_source
                &&& python.virtual_environment is Some <==> known.virtual_environment is Some
            }
            &&& shown.cuda_toolkit is Some <==> environment.cuda_toolkit is Some
            &&& shown.cuda_toolkit matches Some(toolkit) ==> toolkit.version
                == environment.cuda_toolkit->0.version && toolkit.source
                == environment.cuda_toolkit->0.source && (toolkit.root is Some
                <==> environment.cuda_toolkit->0.root is Some)
            &&& shown.diagnostics.len() == environment.diagnostics.len()
            &&& forall|i: int|
                0 <= i < environment.diagnostics.len() ==> {
                    let diagnostic = #[trigger] shown.diagnostics[i];
                    let known = environment.diagnostics[i];
                    diagnostic.code == known.code && diagnostic.severity == known.severity
                        && diagnostic.details.len() == known.details.len()
                }
        }),
{
}

/// Hiding secrets changes nothing of a recommendation but its environment and the path of the
/// interpreter in its command.
pub proof fn redaction_keeps_the_rest_of_a_recommendation(report: RecommendationReportView)
    ensures
        ({
            let shown = redacted_report(report);
            &&& shown.recommendation == report.recommendation
            &&& shown.alternatives == report.alternatives
            &&& shown.excluded == report.excluded
            &&& shown.metadata == report.metadata
            &&& shown.install is Some <==> report.install is Some
            &&& shown.install matches Some(command) ==> {
                let known = report.install->0;
                let path = match report.environment.python {
                    Some(python) => Some(python.executable.text),
                    None => None,
                };
                &&& command.args.len() == known.args.len()
                &&& command.program == (if path == Some(known.program) {
                    "<redacted>"@
                } else {
                    known.program
                })
                &&& forall|i: int|
                    0 <= i < known.args.len() ==> #[trigger] command.args[i] == (if path == Some(
                        known.args[i],
                    ) {
                        "<redacted>"@
                    } else {
                        known.args[i]
                    })
            }
        }),
{
}

/// Hiding secrets changes nothing of what a verification found.
pub proof fn redaction_keeps_the_rest_of_a_verification(
    report: VerificationReportView,
    environment: EnvironmentView,
)
    ensures
        ({
            let shown = redacted_verification(report, environment);
            &&& shown.status == report.status
            &&& shown.torch_version == report.torch_version
            &&& shown.compiled_cuda == report.compiled_cuda
            &&& shown.cuda_available == report.cuda_available
            &&& shown.device_count == report.device_count
            &&& shown.arch_list == report.arch_list
            &&& shown.devices == report.devices
            &&& shown.cudnn_available == report.cudnn_available
            &&& shown.error is Some <==> report.error is Some
            &&& shown.checks.len() == report.checks.len()
            &&& forall|i: int|
                0 <= i < report.checks.len() ==> (#[trigger] shown.checks[i]).name
                    == report.checks[i].name && shown.checks[i].passed == report.checks[i].passed
            &&& shown.gpu_selection.len() == report.gpu_selection.len()
            &&& forall|i: int|
                0 <= i < report.gpu_selection.len() ==> (
                #[trigger] shown.gpu_selection[i]).physical_index
                    == report.gpu_selection[i].physical_index
                    && shown.gpu_selection[i].logical_index
                    == report.gpu_selection[i].logical_index
        }),
{
}

// ---------------------------------------------------------------------------
// Summary

proof fn at_most_so_many<T>(items: Seq<T>, limit: nat, item: T)
    requires
        items.contains(item),
    ensures
        at_most(items, limit).contains(item) || at_most(items, limit).len() == limit,
        at_most(items, limit).len() <= limit,
{
}

/// A reviewed alternative is shown in its section unless as many are shown there as may be: two with
/// CUDA and one without it where processors were detected, and three where none was.
pub proof fn reviewed_alternatives_are_shown(
    report: RecommendationReportView,
    candidate: CandidateView,
)
    requires
        report.alternatives.contains(candidate),
        candidate.official_preference is Some,
        candidate.compatibility != CompatibilityStatus::Unverified,
    ensures
        ({
            let detected = report.environment.nvidia.status == NvidiaDetectionStatus::Detected
                && report.environment.nvidia.gpus.len() > 0;
            &&& detected && candidate.variant is Cuda ==> gpu_alternatives(report).contains(
                candidate,
            ) || gpu_alternatives(report).len() == 2
            &&& detected && candidate.variant is Cpu && (
            report.recommendation matches Some(best) && best.variant is Cuda) ==> cpu_alternatives(
                report,
            ).contains(candidate) || cpu_alternatives(report).len() == 1
            &&& !detected ==> other_alternatives(report).contains(candidate) || other_alternatives(
                report,
            ).len() == 3
            &&& detected ==> other_alternatives(report).len() == 0
            &&& !detected ==> gpu_alternatives(report).len() == 0 && cpu_alternatives(report).len()
                == 0
        }),
{
    let safe = safe_alternatives(report);
    kept_members(report.alternatives, crate::summary::reviewed(), candidate);
    assert(safe.contains(candidate));
    kept_members(safe, crate::summary::with_cuda(), candidate);
    kept_members(safe, crate::summary::without_cuda(), candidate);
    if candidate.variant is Cuda {
        at_most_so_many(kept(safe, crate::summary::with_cuda()), 2, candidate);
    } else {
        at_most_so_many(kept(safe, crate::summary::without_cuda()), 1, candidate);
    }
    at_most_so_many(safe, 3, candidate);
}

/// What needs review is shown in this order: CUDA candidates of a reviewed configuration, other CUDA
/// candidates, and those without CUDA.
pub proof fn reviews_begin_with_cuda(report: RecommendationReportView, low: int, high: int)
    requires
        0 <= low < high < review_list(report).len(),
    ensures
        ({
            let first = review_list(report)[low];
            let second = review_list(report)[high];
            &&& second.variant is Cuda ==> first.variant is Cuda
            &&& second.variant is Cuda && second.official_preference is Some
                ==> first.official_preference is Some
        }),
{
    reviews_are_shown_by_priority(report, low, high);
}

/// Nothing is said of what was asked to be visible or of where interpreters were looked for.
pub proof fn requests_are_hidden_whole(environment: EnvironmentView, place: int, detail: int)
    requires
        0 <= place < environment.diagnostics.len(),
        environment.diagnostics[place].code == DiagnosticCode::CudaVisibleDevicesSet
            || environment.diagnostics[place].code == DiagnosticCode::PythonUnavailable,
        0 <= detail < environment.diagnostics[place].details.len(),
    ensures
        ({
            let shown = redacted_environment(environment).diagnostics[place].details[detail];
            shown.0 == environment.diagnostics[place].details[detail].0 && shown.1
                == "<redacted>"@
        }),
{
}

/// Whether only the driver keeps a reviewed CUDA candidate from being taken.
pub open spec fn only_the_driver_fails(candidate: CandidateView) -> bool {
    let checks = candidate.checks;
    &&& candidate.variant is Cuda
    &&& candidate.official_preference is Some
    &&& checks.wheel.status == CheckStatus::Pass
    &&& checks.python.status == CheckStatus::Pass
    &&& checks.platform.status == CheckStatus::Pass
    &&& checks.gpu_architecture.status == CheckStatus::Pass
    &&& checks.driver.status == CheckStatus::Fail && exists|i: int|
        0 <= i < checks.driver.reasons.len() && (#[trigger] checks.driver.reasons[i]).code
            == ReasonCode::DriverTooOld
}

/// The upgrade that is hinted at would make a candidate compatible which is not older than the one
/// that is recommended. Nothing is hinted at exactly where there is no such candidate.
pub proof fn upgrades_are_worth_their_while(
    excluded: Seq<CandidateView>,
    recommended: Option<CandidateView>,
)
    ensures
        first_upgrade(excluded, recommended) matches Some(found) ==> excluded.contains(found.0)
            && only_the_driver_fails(found.0) && not_older(found.0, recommended)
            && found.0.checks.driver.reasons.contains(found.1) && found.1.code
            == ReasonCode::DriverTooOld,
        first_upgrade(excluded, recommended) is None ==> forall|i: int|
            0 <= i < excluded.len() ==> !(only_the_driver_fails(#[trigger] excluded[i])
                && not_older(excluded[i], recommended)),
    decreases excluded.len(),
{
    if excluded.len() > 0 {
        let rest = excluded.skip(1);
        upgrades_are_worth_their_while(rest, recommended);
        driver_reasons_are_found(excluded[0]);
        assert(forall|i: int| 0 <= i < rest.len() ==> #[trigger] rest[i] == excluded[i + 1]);
        if let Some(found) = first_upgrade(excluded, recommended) {
            if first_upgrade(rest, recommended) == Some(found) && rest.contains(found.0) {
                let k = choose|k: int| 0 <= k < rest.len() && rest[k] == found.0;
                assert(excluded[k + 1] == found.0);
            }
            assert(excluded.contains(excluded[0]));
        } else {
            assert forall|i: int| 0 <= i < excluded.len() implies !(only_the_driver_fails(
                #[trigger] excluded[i],
            ) && not_older(excluded[i], recommended)) by {
                if i > 0 {
                    assert(rest[i - 1] == excluded[i]);
                }
            }
        }
    }
}

proof fn first_driver_reason(reasons: Seq<DecisionReasonView>)
    ensures
        driver_reason(reasons) matches Some(reason) ==> reasons.contains(reason) && reason.code
            == ReasonCode::DriverTooOld,
        driver_reason(reasons) is None <==> forall|i: int|
            0 <= i < reasons.len() ==> (#[trigger] reasons[i]).code != ReasonCode::DriverTooOld,
    decreases reasons.len(),
{
    if reasons.len() > 0 {
        let rest = reasons.skip(1);
        first_driver_reason(rest);
        assert(forall|i: int| 0 <= i < rest.len() ==> #[trigger] rest[i] == reasons[i + 1]);
        assert(reasons.contains(reasons[0]));
        if let Some(reason) = driver_reason(reasons) {
            if rest.contains(reason) {
                let k = choose|k: int| 0 <= k < rest.len() && rest[k] == reason;
                assert(reasons[k + 1] == reason);
            }
        }
        if driver_reason(reasons) is None {
            assert forall|i: int| 0 <= i < reasons.len() implies (#[trigger] reasons[i]).code
                != ReasonCode::DriverTooOld by {
                if i > 0 {
                    assert(rest[i - 1] == reasons[i]);
                }
            }
        }
    }
}

proof fn driver_reasons_are_found(candidate: CandidateView)
    ensures
        all_but_driver(candidate) ==> (driver_reason(failures(candidate)) is Some
            <==> only_the_driver_fails(candidate)),
        all_but_driver(candidate) ==> (driver_reason(failures(candidate)) matches Some(reason)
            ==> candidate.checks.driver.reasons.contains(reason) && reason.code
            == ReasonCode::DriverTooOld),
        only_the_driver_fails(candidate) ==> all_but_driver(candidate),
{
    if all_but_driver(candidate) {
        let reasons = candidate.checks.driver.reasons;
        let told = failures(candidate);
        first_driver_reason(told);
        assert(told =~= (if candidate.checks.driver.status == CheckStatus::Fail {
            reasons
        } else {
            Seq::empty()
        }));
        if driver_reason(told) is Some {
            let reason = driver_reason(told)->0;
            let k = choose|k: int| 0 <= k < told.len() && told[k] == reason;
            assert(reasons[k].code == ReasonCode::DriverTooOld);
        }
    }
}

} // verus!
