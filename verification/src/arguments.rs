//! The command line: what a bare invocation means, and what its words ask for.

use crate::outside::{normalize_version, pep440_error, pep440_text, version_error_message};
use crate::pieces::{after_prefix, contains, starts_with, strip_prefix, trim, trimmed};
use crate::resolver::{members, CompanionSet};
use crate::rules::CompanionPackage;
use crate::text::{concat2, contains_text, outcome, push_item, same, to_chars};
use vstd::prelude::*;

verus! {

// ---------------------------------------------------------------------------
// Options

/// Whether an argument is an option, on its own or with a value after an equals sign.
pub open spec fn is_option(argument: Seq<char>, option: Seq<char>) -> bool {
    argument == option || (option + "="@).is_prefix_of(argument)
}

fn matches_option(argument: &str, option: &str) -> (answer: bool)
    ensures
        answer == is_option(argument@, option@),
{
    same(argument, option) || starts_with(argument, concat2(option, "=").as_str())
}

/// Whether an argument is an option of the recommendation.
pub open spec fn for_recommend(argument: Seq<char>) -> bool {
    is_option(argument, "--torch-version"@) || is_option(argument, "--prerelease"@) || is_option(
        argument,
        "--installer"@,
    ) || is_option(argument, "--with"@)
}

/// Whether an argument is an option of the recommendation.
pub fn recommend_option(argument: &str) -> (answer: bool)
    ensures
        answer == for_recommend(argument@),
{
    matches_option(argument, "--torch-version") || matches_option(argument, "--prerelease")
        || matches_option(argument, "--installer") || matches_option(argument, "--with")
}

/// Whether an argument is a global option that takes a value.
pub open spec fn takes_value(argument: Seq<char>) -> bool {
    is_option(argument, "--python"@) || is_option(argument, "--gpu"@) || is_option(
        argument,
        "--format"@,
    ) || is_option(argument, "--cache-dir"@)
}

/// Whether an argument is a global option that takes a value.
pub fn global_value_option(argument: &str) -> (answer: bool)
    ensures
        answer == takes_value(argument@),
{
    matches_option(argument, "--python") || matches_option(argument, "--gpu") || matches_option(
        argument,
        "--format",
    ) || matches_option(argument, "--cache-dir")
}

/// Whether an argument names a command.
pub open spec fn is_command(argument: Seq<char>) -> bool {
    argument == "inspect"@ || argument == "recommend"@ || argument == "candidates"@ || argument
        == "explain"@ || argument == "verify"@ || argument == "completions"@ || argument == "man"@
}

fn names_command(argument: &str) -> (answer: bool)
    ensures
        answer == is_command(argument@),
{
    same(argument, "inspect") || same(argument, "recommend") || same(argument, "candidates")
        || same(argument, "explain") || same(argument, "verify") || same(argument, "completions")
        || same(argument, "man")
}

/// Whether an argument is a global option without a value.
pub open spec fn is_flag(argument: Seq<char>) -> bool {
    argument == "--refresh"@ || argument == "--offline"@ || argument == "--redact"@ || argument
        == "--help"@ || argument == "-h"@ || argument == "--version"@ || argument == "-V"@
}

fn names_flag(argument: &str) -> (answer: bool)
    ensures
        answer == is_flag(argument@),
{
    same(argument, "--refresh") || same(argument, "--offline") || same(argument, "--redact")
        || same(argument, "--help") || same(argument, "-h") || same(argument, "--version") || same(
        argument,
        "-V",
    )
}

// ---------------------------------------------------------------------------
// The default command

/// Where the name of the recommendation is to stand: before the first of its options, as long as
/// only global options come before.
pub open spec fn insertion_point(arguments: Seq<Seq<char>>, from: int) -> Option<int>
    decreases arguments.len() + 2 - from,
{
    if from < 0 || from >= arguments.len() {
        None
    } else {
        let argument = arguments[from];
        if is_command(argument) {
            None
        } else if for_recommend(argument) {
            Some(from)
        } else if takes_value(argument) && !argument.contains('=') {
            insertion_point(arguments, from + 2)
        } else if argument == "--"@ || (!takes_value(argument) && !is_flag(argument)) {
            None
        } else {
            insertion_point(arguments, from + 1)
        }
    }
}

/// The arguments with the name of the recommendation, where that is left out.
pub open spec fn prepared(arguments: Seq<Seq<char>>) -> Seq<Seq<char>> {
    match insertion_point(arguments, 1) {
        Some(place) => arguments.insert(place, "recommend"@),
        None => arguments,
    }
}

fn contains_char(text: &str, character: char) -> (found: bool)
    ensures
        found == text@.contains(character),
{
    let chars = to_chars(text);
    let mut index: usize = 0;
    while index < chars.len()
        invariant
            index <= chars@.len(),
            chars@ == text@,
            forall|i: int| 0 <= i < index ==> text@[i] != character,
        decreases chars@.len() - index,
    {
        if chars[index] == character {
            return true;
        }
        index = index + 1;
    }
    false
}

/// Where the name of the recommendation is to stand.
pub fn recommend_position(arguments: &Vec<String>) -> (place: Option<usize>)
    ensures
        (match place {
            Some(at) => Some(at as int),
            None => None,
        }) == insertion_point(arguments.deep_view(), 1),
        place matches Some(at) ==> at < arguments@.len(),
{
    let ghost all = arguments.deep_view();
    let total: usize = arguments.len();
    assert(all.len() == total);
    let mut index: usize = 1;
    while index < total
        invariant
            total == arguments@.len() == all.len(),
            all == arguments.deep_view(),
            insertion_point(all, 1) == insertion_point(all, index as int),
        decreases total - index,
    {
        let argument = arguments[index].as_str();
        assert(all[index as int] == argument@);
        if names_command(argument) {
            return None;
        }
        if recommend_option(argument) {
            return Some(index);
        }
        if global_value_option(argument) && !contains_char(argument, '=') {
            if index + 1 >= total {
                assert(insertion_point(all, index + 2) is None);
                return None;
            }
            index = index + 2;
            continue ;
        }
        if same(argument, "--") || (!global_value_option(argument) && !names_flag(argument)) {
            return None;
        }
        index = index + 1;
    }
    None
}

/// Puts in the name of the recommendation, where that is left out.
pub fn prepare_arguments(arguments: Vec<String>) -> (result: Vec<String>)
    ensures
        result.deep_view() == prepared(arguments.deep_view()),
{
    match recommend_position(&arguments) {
        None => arguments,
        Some(place) => {
            let mut result = arguments;
            result.insert(place, "recommend".to_owned());
            assert(result.deep_view() =~= arguments.deep_view().insert(
                place as int,
                "recommend"@,
            ));
            result
        },
    }
}

proof fn insertion_is_within(arguments: Seq<Seq<char>>, from: int)
    ensures
        insertion_point(arguments, from) matches Some(place) ==> from <= place < arguments.len()
            && for_recommend(arguments[place]),
    decreases arguments.len() + 2 - from,
{
    if 0 <= from < arguments.len() {
        insertion_is_within(arguments, from + 1);
        insertion_is_within(arguments, from + 2);
    }
}

/// Preparing arguments changes nothing but that it may add the name of the recommendation, right
/// before one of its options.
pub proof fn preparing_only_adds_the_command(arguments: Seq<Seq<char>>)
    ensures
        prepared(arguments) == arguments || exists|place: int|
            1 <= place < arguments.len() && #[trigger] prepared(arguments).remove(place)
                == arguments && prepared(arguments)[place] == "recommend"@ && for_recommend(
                arguments[place],
            ),
{
    insertion_is_within(arguments, 1);
    if let Some(place) = insertion_point(arguments, 1) {
        assert(prepared(arguments).remove(place) =~= arguments);
        assert(prepared(arguments)[place] == "recommend"@);
    }
}

/// Whether only global options, with their values, stand from `from` up to `place`.
pub open spec fn only_global(arguments: Seq<Seq<char>>, from: int, place: int) -> bool
    decreases place + 2 - from,
{
    if from >= place {
        from == place
    } else if from < 0 || from >= arguments.len() {
        false
    } else {
        let argument = arguments[from];
        if is_command(argument) || for_recommend(argument) {
            false
        } else if takes_value(argument) && !argument.contains('=') {
            only_global(arguments, from + 2, place)
        } else {
            argument != "--"@ && (takes_value(argument) || is_flag(argument)) && only_global(
                arguments,
                from + 1,
                place,
            )
        }
    }
}

proof fn command_ends_the_scan(arguments: Seq<Seq<char>>, from: int, place: int)
    requires
        0 <= from <= place < arguments.len(),
        is_command(arguments[place]),
        only_global(arguments, from, place),
    ensures
        insertion_point(arguments, from) is None,
    decreases place + 2 - from,
{
    if from < place {
        let argument = arguments[from];
        if takes_value(argument) && !argument.contains('=') {
            assert(only_global(arguments, from + 2, place));
            command_ends_the_scan(arguments, from + 2, place);
        } else {
            command_ends_the_scan(arguments, from + 1, place);
        }
    }
}

proof fn scan_passes_global_options(
    arguments: Seq<Seq<char>>,
    other: Seq<Seq<char>>,
    from: int,
    place: int,
)
    requires
        insertion_point(arguments, from) == Some(place),
        0 <= from,
        place <= other.len(),
        forall|i: int| 0 <= i < place ==> #[trigger] other[i] == arguments[i],
    ensures
        only_global(other, from, place),
    decreases arguments.len() + 2 - from,
{
    insertion_is_within(arguments, from);
    if from < place {
        let argument = arguments[from];
        assert(other[from] == argument);
        if takes_value(argument) && !argument.contains('=') {
            insertion_is_within(arguments, from + 2);
            scan_passes_global_options(arguments, other, from + 2, place);
        } else {
            scan_passes_global_options(arguments, other, from + 1, place);
        }
    }
}

/// Where a command is named after nothing but global options, the arguments are left as they are.
pub proof fn named_commands_are_kept(arguments: Seq<Seq<char>>, place: int)
    requires
        1 <= place < arguments.len(),
        is_command(arguments[place]),
        only_global(arguments, 1, place),
    ensures
        prepared(arguments) == arguments,
{
    command_ends_the_scan(arguments, 1, place);
}

/// Preparing arguments that are prepared changes nothing.
pub proof fn preparing_is_idempotent(arguments: Seq<Seq<char>>)
    ensures
        prepared(prepared(arguments)) == prepared(arguments),
{
    if let Some(place) = insertion_point(arguments, 1) {
        let result = prepared(arguments);
        insertion_is_within(arguments, 1);
        assert(result[place] == "recommend"@);
        scan_passes_global_options(arguments, result, 1, place);
        named_commands_are_kept(result, place);
    }
}

// ---------------------------------------------------------------------------
// What is asked for before the arguments are understood

/// Whether machine-readable output is asked for.
pub open spec fn asks_for_json(arguments: Seq<Seq<char>>) -> bool {
    arguments.contains("--format=json"@) || exists|i: int|
        0 <= i && i + 1 < arguments.len() && #[trigger] arguments[i] == "--format"@ && arguments[i
            + 1] == "json"@
}

/// Whether machine-readable output is asked for.
pub fn json_format_requested(arguments: &Vec<String>) -> (answer: bool)
    ensures
        answer == asks_for_json(arguments.deep_view()),
{
    let ghost all = arguments.deep_view();
    if contains_text(arguments, "--format=json") {
        return true;
    }
    let total: usize = arguments.len();
    let mut index: usize = 0;
    while index < total
        invariant
            index <= total == arguments@.len() == all.len(),
            all == arguments.deep_view(),
            forall|i: int|
                0 <= i < index && i + 1 < all.len() ==> !(#[trigger] all[i] == "--format"@ && all[i
                    + 1] == "json"@),
        decreases total - index,
    {
        assert(all[index as int] == arguments@[index as int]@);
        if index + 1 < total && same(arguments[index].as_str(), "--format") && same(
            arguments[index + 1].as_str(),
            "json",
        ) {
            assert(all[index + 1] == arguments@[index + 1]@);
            return true;
        }
        assert(index + 1 < total ==> all[index + 1] == arguments@[index + 1]@);
        index = index + 1;
    }
    false
}

/// Whether an argument asks to redact output.
pub open spec fn redacts(argument: Seq<char>) -> bool {
    argument == "--redact"@ || "--redact="@.is_prefix_of(argument)
}

/// Whether redacted output is asked for.
pub open spec fn asks_to_redact(arguments: Seq<Seq<char>>) -> bool {
    exists|i: int| 0 <= i < arguments.len() && redacts(#[trigger] arguments[i])
}

/// Whether redacted output is asked for.
pub fn redact_requested(arguments: &Vec<String>) -> (answer: bool)
    ensures
        answer == asks_to_redact(arguments.deep_view()),
{
    let ghost all = arguments.deep_view();
    let mut index: usize = 0;
    while index < arguments.len()
        invariant
            index <= arguments@.len(),
            all == arguments.deep_view(),
            forall|i: int| 0 <= i < index ==> !redacts(#[trigger] all[i]),
        decreases arguments@.len() - index,
    {
        assert(all[index as int] == arguments@[index as int]@);
        if same(arguments[index].as_str(), "--redact") || starts_with(
            arguments[index].as_str(),
            "--redact=",
        ) {
            return true;
        }
        index = index + 1;
    }
    false
}

// ---------------------------------------------------------------------------
// Values

/// The set of the packages in a list.
pub open spec fn companions_in(values: Seq<CompanionPackage>) -> CompanionSet {
    CompanionSet {
        torchvision: values.contains(CompanionPackage::Torchvision),
        torchaudio: values.contains(CompanionPackage::Torchaudio),
    }
}

/// The set of the packages in a list.
pub fn companion_set(values: &[CompanionPackage]) -> (set: CompanionSet)
    ensures
        set == companions_in(values@),
{
    let mut set = CompanionSet::new();
    let mut index: usize = 0;
    proof {
        assert(members(set) == Seq::<CompanionPackage>::empty());
        if set.torchvision {
            assert(members(set)[0] == CompanionPackage::Torchvision);
        }
        if set.torchaudio {
            assert(members(set).len() > 0);
        }
    }
    while index < values.len()
        invariant
            index <= values@.len(),
            set == companions_in(values@.take(index as int)),
        decreases values@.len() - index,
    {
        let value = values[index];
        let ghost before = values@.take(index as int);
        let ghost after = values@.take(index + 1);
        proof {
            assert(after =~= before.push(value));
            assert(after[index as int] == value);
            assert forall|other: CompanionPackage| #[trigger]
                after.contains(other) <==> before.contains(other) || other == value by {
                if before.contains(other) {
                    let at = choose|i: int| 0 <= i < before.len() && before[i] == other;
                    assert(after[at] == other);
                }
                if after.contains(other) && other != value {
                    let at = choose|i: int| 0 <= i < after.len() && after[i] == other;
                    assert(before[at] == other);
                }
            }
        }
        set = set.with(value);
        index = index + 1;
    }
    assert(values@.take(index as int) =~= values@);
    set
}

/// The version that a requirement writes, before it is parsed.
pub open spec fn version_part(requirement: Seq<char>) -> Seq<char> {
    let value = trimmed(requirement);
    match after_prefix(value, "torch=="@) {
        Some(version) => version,
        None => match after_prefix(value, "=="@) {
            Some(version) => version,
            None => value,
        },
    }
}

/// Whether a text cannot be one exact version.
pub open spec fn not_exact(version: Seq<char>) -> bool {
    version.len() == 0 || version.contains(',') || version[0] == '<' || version[0] == '>'
        || version[0] == '!' || version[0] == '~' || version[0] == '='
}

/// The normal form of the exact version that a requirement asks for.
pub open spec fn exact_version(requirement: Seq<char>) -> Result<Seq<char>, Seq<char>> {
    let version = version_part(requirement);
    if not_exact(version) {
        Err("explain requires one exact version such as `torch==2.12.1`"@)
    } else {
        match pep440_text(version) {
            Some(text) => Ok(text),
            None => Err(
                "invalid exact PyTorch version `"@ + version + "`: "@ + (match pep440_error(
                    version,
                ) {
                    Some(error) => error,
                    None => ""@,
                }),
            ),
        }
    }
}

/// The version that a requirement writes, before it is parsed.
pub fn requirement_version(requirement: &str) -> (result: Result<String, String>)
    ensures
        outcome(result) == (if not_exact(version_part(requirement@)) {
            Err("explain requires one exact version such as `torch==2.12.1`"@)
        } else {
            Ok(version_part(requirement@))
        }),
{
    let value = trim(requirement);
    let version = match strip_prefix(value.as_str(), "torch==") {
        Some(version) => version,
        None => match strip_prefix(value.as_str(), "==") {
            Some(version) => version,
            None => value,
        },
    };
    let chars = to_chars(version.as_str());
    if chars.len() == 0 || contains_char(version.as_str(), ',') || chars[0] == '<' || chars[0]
        == '>' || chars[0] == '!' || chars[0] == '~' || chars[0] == '=' {
        Err("explain requires one exact version such as `torch==2.12.1`".to_owned())
    } else {
        Ok(version)
    }
}

/// The normal form of the exact version that a requirement asks for.
pub fn exact_torch_version(requirement: &str) -> (result: Result<String, String>)
    ensures
        outcome(result) == exact_version(requirement@),
{
    let version = match requirement_version(requirement) {
        Ok(version) => version,
        Err(message) => {
            return Err(message);
        },
    };
    match normalize_version(version.as_str()) {
        Some(text) => Ok(text),
        None => {
            let error = match version_error_message(version.as_str()) {
                Some(error) => error,
                None => "".to_owned(),
            };
            Err(
                crate::text::concat4(
                    "invalid exact PyTorch version `",
                    version.as_str(),
                    "`: ",
                    error.as_str(),
                ),
            )
        },
    }
}

/// The packages whose wheels are needed.
pub open spec fn wanted_packages(companions: CompanionSet) -> Seq<Seq<char>> {
    seq!["torch"@] + (if companions.torchvision {
        seq!["torchvision"@]
    } else {
        Seq::empty()
    }) + (if companions.torchaudio {
        seq!["torchaudio"@]
    } else {
        Seq::empty()
    })
}

/// The packages whose wheels are needed.
pub fn packages_for(companions: &CompanionSet) -> (packages: Vec<String>)
    ensures
        packages.deep_view() == wanted_packages(*companions),
{
    let mut packages: Vec<String> = Vec::new();
    push_item(&mut packages, "torch".to_owned());
    if companions.torchvision {
        push_item(&mut packages, "torchvision".to_owned());
    }
    if companions.torchaudio {
        push_item(&mut packages, "torchaudio".to_owned());
    }
    assert(packages.deep_view() =~= wanted_packages(*companions));
    packages
}

} // verus!
