//! The compatibility dimensions: Python and ABI tags, platform tags, GPU architectures,
//! driver minimums, companion packages, and the state they add up to.

use crate::model::{
    abi_tag, architecture_text, capability_at_least, capability_text, check_of, detailed, os_text,
    parsed_capability, plain_reason, plain_warning, variant_cuda, Architecture, Candidate,
    CandidateView, CandidateWarning, CheckStatus, CompatibilityCheck, CompatibilityCheckView,
    CompatibilityChecks, CompatibilityChecksView, CompatibilityStatus, ComputeCapability,
    CudaVariant, DecisionReason, DecisionReasonView, Environment, EnvironmentView, IndexSnapshot,
    IndexSnapshotView, MetadataInfo, MetadataInfoView, MetadataOrigin, NvidiaDetectionStatus,
    NvidiaGpu, NvidiaGpuView, OperatingSystem, PythonInfo, PythonInfoView, ReasonCode, TorchWheel,
    TorchWheelView, WarningCode,
};
use crate::order::kept;
use crate::outside::{
    pep440_contains, pep440_prerelease, specifiers_contain, version_is_prerelease,
};
use crate::pieces::{
    after_prefix, before, before_suffix, join, join_texts, part_before, split, split_first,
    split_on, split_once, strip_prefix, strip_suffix, trim_end_char, trim_trailing,
};
use crate::rules::{
    companion_name, covering_rule, family_minimum, release_for, seen, variant_minimum,
    CompanionPackage, GpuArchitectureRule, GpuArchitectureRuleView, ResolverError,
    ResolverErrorView, RuleSet, RuleSetView,
};
use crate::text::{
    concat3, concat4, decimal, decimal_text, outcome, parse_unsigned, push_item, same, unsigned,
};
use crate::version::{
    component_at, parsed_version, version_less, version_order_transitive, NumericVersion,
    NumericVersionView,
};
use vstd::prelude::*;

verus! {

// ---------------------------------------------------------------------------
// Python and ABI tags

/// Whether the interpreter lists a tag triple that begins with this Python tag and ABI tag.
pub open spec fn lists_pair(
    python: PythonInfoView,
    python_tag: Seq<char>,
    abi: Seq<char>,
) -> bool {
    exists|i: int|
        0 <= i < python.compatible_tags.len() && tag_begins_with(
            #[trigger] python.compatible_tags[i],
            python_tag,
            abi,
        )
}

/// Whether the first two dashed parts of `tag` are `python_tag` and `abi`.
pub open spec fn tag_begins_with(tag: Seq<char>, python_tag: Seq<char>, abi: Seq<char>) -> bool {
    let parts = split_on(tag, '-');
    parts.len() >= 2 && parts[0] == python_tag && parts[1] == abi
}

/// Whether a stable-ABI wheel of an older or the same minor version fits.
pub open spec fn stable_abi_fits(
    python: PythonInfoView,
    python_tag: Seq<char>,
    abi: Seq<char>,
) -> bool {
    abi == "abi3"@ && !python.free_threaded && (match after_prefix(python_tag, "cp3"@) {
        Some(minor) => match unsigned(minor, u32::MAX as nat) {
            Some(number) => number <= component_at(python.version.components, 1),
            None => false,
        },
        None => false,
    })
}

/// Whether a pair of tags fits the interpreter by itself, whatever it lists.
pub open spec fn native_pair(
    python: PythonInfoView,
    python_tag: Seq<char>,
    abi: Seq<char>,
) -> bool {
    match abi_tag(python) {
        Some(native) => {
            ||| python_tag == trim_end_char(native, 't') && abi == native
            ||| python_tag == "py3"@ && abi == "none"@
            ||| stable_abi_fits(python, python_tag, abi)
        },
        None => false,
    }
}

/// Whether one of the wheel's Python tags and one of its ABI tags fit together.
pub open spec fn abi_fits(wheel: TorchWheelView, python: PythonInfoView) -> bool {
    exists|i: int, j: int|
        0 <= i < wheel.python_tags.len() && 0 <= j < wheel.abi_tags.len() && pair_fits(
            python,
            #[trigger] wheel.python_tags[i],
            #[trigger] wheel.abi_tags[j],
        )
}

/// Whether a Python tag and an ABI tag fit the interpreter.
pub open spec fn pair_fits(python: PythonInfoView, python_tag: Seq<char>, abi: Seq<char>) -> bool {
    lists_pair(python, python_tag, abi) || native_pair(python, python_tag, abi)
}

/// Whether the interpreter's version satisfies a wheel's `requires-python`.
pub open spec fn python_allowed(specifier: Option<Seq<char>>, python: PythonInfoView) -> bool {
    match specifier {
        None => true,
        Some(text) => pep440_contains(text, python.version.text) == Some(true),
    }
}

/// Whether a wheel is for the interpreter, yanked or not.
pub open spec fn wheel_fits(wheel: TorchWheelView, python: PythonInfoView) -> bool {
    python_allowed(wheel.requires_python, python) && abi_fits(wheel, python)
}

/// The wheels for the interpreter that are not yanked.
pub open spec fn python_wheels(
    python: Option<PythonInfoView>,
    wheels: Seq<TorchWheelView>,
) -> Seq<TorchWheelView> {
    match python {
        None => Seq::empty(),
        Some(python) => kept(
            wheels,
            |wheel: TorchWheelView| wheel_fits(wheel, python) && !wheel.yanked,
        ),
    }
}

/// The Python dimension.
pub open spec fn python_check(
    python: Option<PythonInfoView>,
    wheels: Seq<TorchWheelView>,
) -> CompatibilityCheckView {
    match python {
        None => check_of(
            CheckStatus::Unknown,
            seq![
                detailed(
                    plain_reason(ReasonCode::PythonWheelMissing),
                    "reason"@,
                    "python_unavailable"@,
                ),
            ],
        ),
        Some(known) => if python_wheels(python, wheels).len() > 0 {
            check_of(
                CheckStatus::Pass,
                seq![
                    plain_reason(ReasonCode::PythonTagMatches),
                    plain_reason(ReasonCode::AbiTagMatches),
                ],
            )
        } else {
            let missing = detailed(
                detailed(
                    plain_reason(ReasonCode::PythonWheelMissing),
                    "python"@,
                    known.version.text,
                ),
                "abi"@,
                match abi_tag(known) {
                    Some(tag) => tag,
                    None => "unknown"@,
                },
            );
            check_of(
                CheckStatus::Fail,
                if exists|i: int|
                    0 <= i < wheels.len() && wheel_fits(#[trigger] wheels[i], known)
                        && wheels[i].yanked {
                    seq![missing, plain_reason(ReasonCode::WheelYanked)]
                } else {
                    seq![missing]
                },
            )
        },
    }
}

fn is_listed(python: &PythonInfo, python_tag: &str, abi: &str) -> (answer: bool)
    ensures
        answer == lists_pair(python.deep_view(), python_tag@, abi@),
{
    let ghost tags = python.deep_view().compatible_tags;
    let mut index: usize = 0;
    while index < python.compatible_tags.len()
        invariant
            tags == python.compatible_tags.deep_view(),
            tags == python.deep_view().compatible_tags,
            index <= tags.len(),
            forall|i: int|
                0 <= i < index ==> !tag_begins_with(#[trigger] tags[i], python_tag@, abi@),
        decreases python.compatible_tags@.len() - index,
    {
        let parts = split(python.compatible_tags[index].as_str(), '-');
        let ghost all = parts.deep_view();
        assert(tags[index as int] == python.compatible_tags@[index as int]@);
        if parts.len() >= 2 {
            assert(all[0] == parts@[0]@ && all[1] == parts@[1]@);
            if same(parts[0].as_str(), python_tag) && same(parts[1].as_str(), abi) {
                assert(tag_begins_with(tags[index as int], python_tag@, abi@));
                return true;
            }
        }
        index = index + 1;
    }
    false
}

/// Whether a stable-ABI wheel fits the interpreter.
pub fn abi3_matches(python_tag: &str, abi_tag: &str, python: &PythonInfo) -> (answer: bool)
    ensures
        answer == stable_abi_fits(python.deep_view(), python_tag@, abi_tag@),
{
    if !same(abi_tag, "abi3") || python.free_threaded {
        return false;
    }
    match strip_prefix(python_tag, "cp3") {
        Some(minor) => match parse_unsigned(minor.as_str(), u32::MAX as u64) {
            Some(number) => number <= python.version.component(1) as u64,
            None => false,
        },
        None => false,
    }
}

fn does_pair_fit(python: &PythonInfo, python_tag: &str, abi: &str) -> (answer: bool)
    ensures
        answer == pair_fits(python.deep_view(), python_tag@, abi@),
{
    if is_listed(python, python_tag, abi) {
        return true;
    }
    match python.cpython_abi_tag() {
        Some(native) => {
            let native_python = trim_trailing(native.as_str(), 't');
            (same(python_tag, native_python.as_str()) && same(abi, native.as_str())) || (same(
                python_tag,
                "py3",
            ) && same(abi, "none")) || abi3_matches(python_tag, abi, python)
        },
        None => false,
    }
}

/// Whether the wheel's tags fit the interpreter.
pub fn python_abi_matches(wheel: &TorchWheel, python: &PythonInfo) -> (answer: bool)
    ensures
        answer == abi_fits(wheel.deep_view(), python.deep_view()),
{
    let ghost tags = wheel.deep_view().python_tags;
    let ghost abis = wheel.deep_view().abi_tags;
    let mut i: usize = 0;
    while i < wheel.python_tags.len()
        invariant
            tags == wheel.deep_view().python_tags,
            abis == wheel.deep_view().abi_tags,
            i <= tags.len(),
            forall|a: int, b: int| #![trigger tags[a], abis[b]]
                0 <= a < i && 0 <= b < abis.len() ==> !pair_fits(
                    python.deep_view(),
                    tags[a],
                    abis[b],
                ),
        decreases wheel.python_tags@.len() - i,
    {
        let mut j: usize = 0;
        while j < wheel.abi_tags.len()
            invariant
                tags == wheel.deep_view().python_tags,
                abis == wheel.deep_view().abi_tags,
                i < tags.len(),
                j <= abis.len(),
                forall|b: int|
                    0 <= b < j ==> !pair_fits(
                        python.deep_view(),
                        tags[i as int],
                        #[trigger] abis[b],
                    ),
            decreases wheel.abi_tags@.len() - j,
        {
            assert(tags[i as int] == wheel.python_tags@[i as int]@);
            assert(abis[j as int] == wheel.abi_tags@[j as int]@);
            if does_pair_fit(python, wheel.python_tags[i].as_str(), wheel.abi_tags[j].as_str()) {
                return true;
            }
            j = j + 1;
        }
        i = i + 1;
    }
    false
}

/// Whether the interpreter's version satisfies a wheel's `requires-python`.
pub fn requires_python_matches(specifier: &Option<String>, python: &PythonInfo) -> (answer: bool)
    ensures
        answer == python_allowed(specifier.deep_view(), python.deep_view()),
{
    match specifier {
        None => true,
        Some(text) => match specifiers_contain(
            text.as_str(),
            python.version.to_string().as_str(),
        ) {
            Some(answer) => answer,
            None => false,
        },
    }
}

/// Evaluates the Python dimension and returns the wheels that pass it.
pub fn evaluate_python<'a>(
    python: Option<&PythonInfo>,
    wheels: &Vec<&'a TorchWheel>,
) -> (result: (CompatibilityCheck, Vec<&'a TorchWheel>))
    ensures
        result.0.deep_view() == python_check(seen(python), wheels.deep_view()),
        result.1.deep_view() == python_wheels(seen(python), wheels.deep_view()),
{
    let python = match python {
        Some(python) => python,
        None => {
            let none: Vec<&'a TorchWheel> = Vec::new();
            assert(none.deep_view() =~= Seq::empty());
            return (
                CompatibilityCheck::because(
                    CheckStatus::Unknown,
                    DecisionReason::new(ReasonCode::PythonWheelMissing).with_detail(
                        "reason",
                        "python_unavailable",
                    ),
                ),
                none,
            );
        },
    };
    let ghost known = python.deep_view();
    let ghost all = wheels.deep_view();
    let ghost keep = |wheel: TorchWheelView| wheel_fits(wheel, known) && !wheel.yanked;
    let mut matching: Vec<&'a TorchWheel> = Vec::new();
    let mut saw_yanked = false;
    let mut index: usize = 0;
    assert(all.take(0) =~= Seq::empty());
    assert(matching.deep_view() =~= kept(all.take(0), keep));
    while index < wheels.len()
        invariant
            all == wheels.deep_view(),
            known == python.deep_view(),
            keep == (|wheel: TorchWheelView| wheel_fits(wheel, known) && !wheel.yanked),
            index <= all.len(),
            matching.deep_view() == kept(all.take(index as int), keep),
            saw_yanked == exists|i: int|
                0 <= i < index && wheel_fits(#[trigger] all[i], known) && all[i].yanked,
        decreases wheels@.len() - index,
    {
        let wheel: &'a TorchWheel = wheels[index];
        assert(all[index as int] == wheel.deep_view());
        assert(all.take(index + 1).drop_last() =~= all.take(index as int));
        assert(all.take(index + 1).last() == all[index as int]);
        if requires_python_matches(&wheel.requires_python, python) && python_abi_matches(
            wheel,
            python,
        ) {
            assert(wheel_fits(all[index as int], known));
            if wheel.yanked {
                saw_yanked = true;
            } else {
                push_item(&mut matching, wheel);
            }
        }
        index = index + 1;
    }
    assert(all.take(index as int) =~= all);
    if matching.len() == 0 {
        let tag = match python.cpython_abi_tag() {
            Some(tag) => tag,
            None => "unknown".to_owned(),
        };
        let mut reasons: Vec<DecisionReason> = Vec::new();
        push_item(
            &mut reasons,
            DecisionReason::new(ReasonCode::PythonWheelMissing).with_detail(
                "python",
                python.version.to_string().as_str(),
            ).with_detail("abi", tag.as_str()),
        );
        if saw_yanked {
            push_item(&mut reasons, DecisionReason::new(ReasonCode::WheelYanked));
        }
        let check = CompatibilityCheck::new(CheckStatus::Fail, reasons);
        assert(check.deep_view() =~= python_check(Some(known), all)) by {
            assert(check.deep_view().reasons =~= python_check(Some(known), all).reasons);
        }
        return (check, matching);
    }
    let mut reasons: Vec<DecisionReason> = Vec::new();
    push_item(&mut reasons, DecisionReason::new(ReasonCode::PythonTagMatches));
    push_item(&mut reasons, DecisionReason::new(ReasonCode::AbiTagMatches));
    let check = CompatibilityCheck::new(CheckStatus::Pass, reasons);
    assert(check.deep_view().reasons =~= python_check(Some(known), all).reasons);
    (check, matching)
}

// ---------------------------------------------------------------------------
// Platform tags

/// The version that `text` writes, if it writes one.
pub open spec fn version_in(text: Seq<char>) -> Option<NumericVersionView> {
    match parsed_version(text) {
        Ok(version) => Some(version),
        Err(_) => None,
    }
}

/// The glibc version that a versioned manylinux tag for x86-64 names.
pub open spec fn named_floor(tag: Seq<char>) -> Option<NumericVersionView> {
    match after_prefix(tag, "manylinux_"@) {
        None => None,
        Some(rest) => match before_suffix(rest, "_x86_64"@) {
            None => None,
            Some(floor) => match split_first(floor, '_') {
                None => None,
                Some(parts) => version_in(parts.0 + "."@ + parts.1),
            },
        },
    }
}

/// The glibc version that a tag requires.
pub open spec fn glibc_floor(tag: Seq<char>) -> Option<NumericVersionView> {
    if tag == "manylinux1_x86_64"@ {
        version_in("2.5"@)
    } else if tag == "manylinux2010_x86_64"@ {
        version_in("2.12"@)
    } else if tag == "manylinux2014_x86_64"@ {
        version_in("2.17"@)
    } else {
        named_floor(tag)
    }
}

/// Whether a tag is satisfied on a host with this glibc.
pub open spec fn tag_passes(tag: Seq<char>, glibc: Option<NumericVersionView>) -> bool {
    tag == "any"@ || tag != "linux_x86_64"@ && (glibc_floor(tag) matches Some(floor)
        && glibc matches Some(known) && !version_less(known.components, floor.components))
}

/// Whether nothing is known about a tag on a host with this glibc.
pub open spec fn tag_is_open(tag: Seq<char>, glibc: Option<NumericVersionView>) -> bool {
    tag == "linux_x86_64"@ || tag != "any"@ && glibc_floor(tag) is Some && glibc is None
}

/// The requirement of the last of `tags` that states one.
pub open spec fn last_floor(tags: Seq<Seq<char>>) -> Option<NumericVersionView>
    decreases tags.len(),
{
    if tags.len() == 0 {
        None
    } else if tags.last() != "linux_x86_64"@ && glibc_floor(tags.last()) is Some {
        glibc_floor(tags.last())
    } else {
        last_floor(tags.drop_last())
    }
}

/// How a wheel's platform tags relate to the host.
#[derive(Debug)]
pub enum PlatformMatch {
    /// A tag is satisfied.
    Pass,
    /// A tag may be satisfied.
    Unknown,
    /// Every tag asks for a newer glibc; this is one of them.
    GlibcTooOld(NumericVersion),
    /// No tag is for the host.
    Fail,
}

/// The model of [`PlatformMatch`].
#[verifier::ext_equal]
pub enum PlatformMatchView {
    Pass,
    Unknown,
    GlibcTooOld(NumericVersionView),
    Fail,
}

impl DeepView for PlatformMatch {
    type V = PlatformMatchView;

    open spec fn deep_view(&self) -> PlatformMatchView {
        match self {
            PlatformMatch::Pass => PlatformMatchView::Pass,
            PlatformMatch::Unknown => PlatformMatchView::Unknown,
            PlatformMatch::GlibcTooOld(floor) => PlatformMatchView::GlibcTooOld(floor.deep_view()),
            PlatformMatch::Fail => PlatformMatchView::Fail,
        }
    }
}

/// Whether wheels can be resolved for the host at all.
pub open spec fn host_supported(environment: EnvironmentView) -> bool {
    environment.platform.os is Linux && environment.platform.architecture is X86_64
}

/// How a wheel's platform tags relate to the host.
pub open spec fn platform_match(
    wheel: TorchWheelView,
    environment: EnvironmentView,
) -> PlatformMatchView {
    let tags = wheel.platform_tags;
    if !host_supported(environment) {
        PlatformMatchView::Fail
    } else if exists|i: int|
        0 <= i < tags.len() && tag_passes(#[trigger] tags[i], environment.glibc) {
        PlatformMatchView::Pass
    } else if exists|i: int|
        0 <= i < tags.len() && tag_is_open(#[trigger] tags[i], environment.glibc) {
        PlatformMatchView::Unknown
    } else {
        match last_floor(tags) {
            Some(floor) => PlatformMatchView::GlibcTooOld(floor),
            None => PlatformMatchView::Fail,
        }
    }
}

/// The first wheel whose platform tags relate to the host as `wanted`.
pub open spec fn first_matching(
    wheels: Seq<TorchWheelView>,
    environment: EnvironmentView,
    wanted: PlatformMatchView,
) -> Option<TorchWheelView>
    decreases wheels.len(),
{
    if wheels.len() == 0 {
        None
    } else {
        match first_matching(wheels.drop_last(), environment, wanted) {
            Some(wheel) => Some(wheel),
            None => if platform_match(wheels.last(), environment) == wanted {
                Some(wheels.last())
            } else {
                None
            },
        }
    }
}

/// The oldest glibc that would do for one of `wheels`.
pub open spec fn lowest_floor(
    wheels: Seq<TorchWheelView>,
    environment: EnvironmentView,
) -> Option<NumericVersionView>
    decreases wheels.len(),
{
    if wheels.len() == 0 {
        None
    } else {
        let known = lowest_floor(wheels.drop_last(), environment);
        match platform_match(wheels.last(), environment) {
            PlatformMatchView::GlibcTooOld(floor) => match known {
                Some(lowest) => if version_less(floor.components, lowest.components) {
                    Some(floor)
                } else {
                    known
                },
                None => Some(floor),
            },
            _ => known,
        }
    }
}

/// The platform dimension, and the wheel it selects.
pub open spec fn platform_result(
    environment: EnvironmentView,
    wheels: Seq<TorchWheelView>,
) -> (CompatibilityCheckView, Option<TorchWheelView>) {
    if !host_supported(environment) {
        (
            check_of(
                CheckStatus::Fail,
                seq![
                    detailed(
                        detailed(
                            plain_reason(ReasonCode::PlatformMismatch),
                            "os"@,
                            os_text(environment.platform.os),
                        ),
                        "architecture"@,
                        architecture_text(environment.platform.architecture),
                    ),
                ],
            ),
            None,
        )
    } else if wheels.len() == 0 {
        (
            check_of(
                CheckStatus::Unknown,
                seq![
                    detailed(
                        plain_reason(ReasonCode::PlatformMismatch),
                        "reason"@,
                        "no_python_wheel"@,
                    ),
                ],
            ),
            None,
        )
    } else {
        match first_matching(wheels, environment, PlatformMatchView::Pass) {
            Some(wheel) => (
                check_of(CheckStatus::Pass, seq![plain_reason(ReasonCode::PlatformTagMatches)]),
                Some(wheel),
            ),
            None => match first_matching(wheels, environment, PlatformMatchView::Unknown) {
                Some(wheel) => (
                    check_of(CheckStatus::Unknown, seq![plain_reason(ReasonCode::GlibcUnknown)]),
                    Some(wheel),
                ),
                None => (
                    check_of(
                        CheckStatus::Fail,
                        seq![
                            match lowest_floor(wheels, environment) {
                                Some(floor) => detailed(
                                    detailed(
                                        plain_reason(ReasonCode::GlibcTooOld),
                                        "required"@,
                                        floor.text,
                                    ),
                                    "detected"@,
                                    match environment.glibc {
                                        Some(known) => known.text,
                                        None => "unknown"@,
                                    },
                                ),
                                None => plain_reason(ReasonCode::PlatformMismatch),
                            },
                        ],
                    ),
                    None,
                ),
            },
        }
    }
}

fn parse_version(text: &str) -> (version: Option<NumericVersion>)
    ensures
        version.deep_view() == version_in(text@),
{
    match NumericVersion::parse(text) {
        Ok(version) => Some(version),
        Err(_) => None,
    }
}

/// The glibc version that a versioned manylinux tag for x86-64 names.
pub fn parse_manylinux_floor(tag: &str) -> (floor: Option<NumericVersion>)
    ensures
        floor.deep_view() == named_floor(tag@),
{
    let rest = match strip_prefix(tag, "manylinux_") {
        Some(rest) => rest,
        None => {
            return None;
        },
    };
    let rest = match strip_suffix(rest.as_str(), "_x86_64") {
        Some(rest) => rest,
        None => {
            return None;
        },
    };
    match split_once(rest.as_str(), '_') {
        Some(parts) => parse_version(concat3(parts.0.as_str(), ".", parts.1.as_str()).as_str()),
        None => None,
    }
}

fn required_glibc(tag: &str) -> (floor: Option<NumericVersion>)
    ensures
        floor.deep_view() == glibc_floor(tag@),
{
    if same(tag, "manylinux1_x86_64") {
        parse_version("2.5")
    } else if same(tag, "manylinux2010_x86_64") {
        parse_version("2.12")
    } else if same(tag, "manylinux2014_x86_64") {
        parse_version("2.17")
    } else {
        parse_manylinux_floor(tag)
    }
}

/// Whether wheels can be resolved for the host at all.
pub fn is_host_supported(environment: &Environment) -> (answer: bool)
    ensures
        answer == host_supported(environment.deep_view()),
{
    matches!(environment.platform.os, OperatingSystem::Linux) && matches!(
        environment.platform.architecture,
        Architecture::X86_64
    )
}

/// Decides how a wheel's platform tags relate to the host.
pub fn platform_wheel_status(wheel: &TorchWheel, environment: &Environment) -> (result:
    PlatformMatch)
    ensures
        result.deep_view() == platform_match(wheel.deep_view(), environment.deep_view()),
{
    if !is_host_supported(environment) {
        return PlatformMatch::Fail;
    }
    let ghost tags = wheel.deep_view().platform_tags;
    let ghost glibc = environment.deep_view().glibc;
    let mut saw_unknown = false;
    let mut too_old: Option<NumericVersion> = None;
    let mut index: usize = 0;
    assert(tags.take(0) =~= Seq::empty());
    while index < wheel.platform_tags.len()
        invariant
            tags == wheel.deep_view().platform_tags,
            glibc == environment.deep_view().glibc,
            host_supported(environment.deep_view()),
            index <= tags.len(),
            forall|i: int| 0 <= i < index ==> !tag_passes(#[trigger] tags[i], glibc),
            saw_unknown == exists|i: int|
                0 <= i < index && tag_is_open(#[trigger] tags[i], glibc),
            !saw_unknown ==> too_old.deep_view() == last_floor(tags.take(index as int)),
        decreases wheel.platform_tags@.len() - index,
    {
        let tag = &wheel.platform_tags[index];
        assert(tags[index as int] == tag@);
        assert(tags.take(index + 1).drop_last() =~= tags.take(index as int));
        assert(tags.take(index + 1).last() == tag@);
        if same(tag.as_str(), "any") {
            assert(tag_passes(tags[index as int], glibc));
            return PlatformMatch::Pass;
        }
        if same(tag.as_str(), "linux_x86_64") {
            proof {
                reveal_strlit("any");
                reveal_strlit("linux_x86_64");
            }
            assert(tag_is_open(tags[index as int], glibc));
            saw_unknown = true;
        } else {
            match required_glibc(tag.as_str()) {
                Some(floor) => {
                    match &environment.glibc {
                        Some(known) => {
                            if known.at_least(&floor) {
                                assert(tag_passes(tags[index as int], glibc));
                                return PlatformMatch::Pass;
                            }
                            too_old = Some(floor);
                        },
                        None => {
                            assert(tag_is_open(tags[index as int], glibc));
                            saw_unknown = true;
                        },
                    }
                },
                None => {},
            }
        }
        index = index + 1;
    }
    assert(tags.take(index as int) =~= tags);
    if saw_unknown {
        PlatformMatch::Unknown
    } else {
        match too_old {
            Some(floor) => PlatformMatch::GlibcTooOld(floor),
            None => PlatformMatch::Fail,
        }
    }
}

proof fn first_match_decides(
    wheels: Seq<TorchWheelView>,
    environment: EnvironmentView,
    wanted: PlatformMatchView,
    upto: int,
)
    requires
        0 < upto <= wheels.len(),
        first_matching(wheels.take(upto), environment, wanted) is Some,
    ensures
        first_matching(wheels, environment, wanted) == first_matching(
            wheels.take(upto),
            environment,
            wanted,
        ),
    decreases wheels.len() - upto,
{
    if upto < wheels.len() {
        assert(wheels.take(upto + 1).drop_last() =~= wheels.take(upto));
        first_match_decides(wheels, environment, wanted, upto + 1);
    } else {
        assert(wheels.take(upto) =~= wheels);
    }
}

/// Evaluates the platform dimension and selects a wheel.
pub fn evaluate_platform<'a>(environment: &Environment, wheels: &Vec<&'a TorchWheel>) -> (result: (
    CompatibilityCheck,
    Option<&'a TorchWheel>,
))
    ensures
        result.0.deep_view() == platform_result(environment.deep_view(), wheels.deep_view()).0,
        seen(result.1) == platform_result(environment.deep_view(), wheels.deep_view()).1,
{
    if !is_host_supported(environment) {
        return (
            CompatibilityCheck::because(
                CheckStatus::Fail,
                DecisionReason::new(ReasonCode::PlatformMismatch).with_detail(
                    "os",
                    environment.platform.os.to_string().as_str(),
                ).with_detail(
                    "architecture",
                    environment.platform.architecture.to_string().as_str(),
                ),
            ),
            None,
        );
    }
    if wheels.len() == 0 {
        return (
            CompatibilityCheck::because(
                CheckStatus::Unknown,
                DecisionReason::new(ReasonCode::PlatformMismatch).with_detail(
                    "reason",
                    "no_python_wheel",
                ),
            ),
            None,
        );
    }
    let ghost all = wheels.deep_view();
    let ghost host = environment.deep_view();
    let mut unknown: Option<&'a TorchWheel> = None;
    let mut lowest: Option<NumericVersion> = None;
    let mut index: usize = 0;
    while index < wheels.len()
        invariant
            all == wheels.deep_view(),
            host == environment.deep_view(),
            host_supported(host),
            all.len() > 0,
            index <= all.len(),
            first_matching(all.take(index as int), host, PlatformMatchView::Pass) is None,
            seen(unknown) == first_matching(
                all.take(index as int),
                host,
                PlatformMatchView::Unknown,
            ),
            lowest.deep_view() == lowest_floor(all.take(index as int), host),
        decreases wheels@.len() - index,
    {
        let wheel: &'a TorchWheel = wheels[index];
        assert(all.take(index + 1).drop_last() =~= all.take(index as int));
        assert(all.take(index + 1).last() == wheel.deep_view());
        match platform_wheel_status(wheel, environment) {
            PlatformMatch::Pass => {
                proof {
                    first_match_decides(all, host, PlatformMatchView::Pass, index + 1);
                }
                return (
                    CompatibilityCheck::because(
                        CheckStatus::Pass,
                        DecisionReason::new(ReasonCode::PlatformTagMatches),
                    ),
                    Some(wheel),
                );
            },
            PlatformMatch::Unknown => {
                if unknown.is_none() {
                    unknown = Some(wheel);
                }
            },
            PlatformMatch::GlibcTooOld(floor) => {
                let lower = match &lowest {
                    Some(current) => !floor.at_least(current),
                    None => true,
                };
                if lower {
                    lowest = Some(floor);
                }
            },
            PlatformMatch::Fail => {},
        }
        index = index + 1;
    }
    assert(all.take(index as int) =~= all);
    if let Some(wheel) = unknown {
        return (
            CompatibilityCheck::because(
                CheckStatus::Unknown,
                DecisionReason::new(ReasonCode::GlibcUnknown),
            ),
            Some(wheel),
        );
    }
    let reason = match lowest {
        Some(floor) => {
            let detected = match &environment.glibc {
                Some(known) => known.to_string(),
                None => "unknown".to_owned(),
            };
            DecisionReason::new(ReasonCode::GlibcTooOld).with_detail(
                "required",
                floor.to_string().as_str(),
            ).with_detail("detected", detected.as_str())
        },
        None => DecisionReason::new(ReasonCode::PlatformMismatch),
    };
    (CompatibilityCheck::because(CheckStatus::Fail, reason), None)
}

// ---------------------------------------------------------------------------
// GPU architectures

/// Whether native code for `cubin` runs on a device of capability `device`.
pub open spec fn cubin_runs(cubin: Seq<char>, device: ComputeCapability) -> bool {
    parsed_capability(cubin) matches Ok(known) && known.major == device.major && known.minor
        <= device.minor
}

/// Whether wheels built as `rule` says run on a device of capability `device`: by native code
/// for the same major version, or by PTX for the same or an older capability.
pub open spec fn device_supported(
    rule: GpuArchitectureRuleView,
    device: ComputeCapability,
) -> bool {
    ||| exists|i: int|
        0 <= i < rule.cubin_capabilities.len() && cubin_runs(
            #[trigger] rule.cubin_capabilities[i],
            device,
        )
    ||| rule.ptx_capability matches Some(text) && parsed_capability(text) matches Ok(ptx)
        && capability_at_least(device, ptx)
}

/// The capabilities of the devices that are not supported, in the order of the devices.
pub open spec fn unsupported_devices(
    gpus: Seq<NvidiaGpuView>,
    rule: GpuArchitectureRuleView,
) -> Seq<Seq<char>>
    decreases gpus.len(),
{
    if gpus.len() == 0 {
        Seq::empty()
    } else {
        let earlier = unsupported_devices(gpus.drop_last(), rule);
        match gpus.last().compute_capability {
            Some(device) => if device_supported(rule, device) {
                earlier
            } else {
                earlier.push(capability_text(device))
            },
            None => earlier,
        }
    }
}

/// Whether the compute capability of every device is known, and there is a device.
pub open spec fn capabilities_known(gpus: Seq<NvidiaGpuView>) -> bool {
    gpus.len() > 0 && forall|i: int|
        0 <= i < gpus.len() ==> (#[trigger] gpus[i]).compute_capability is Some
}

/// The GPU architecture dimension.
pub open spec fn gpu_check(
    environment: EnvironmentView,
    version: Seq<char>,
    variant: CudaVariant,
    rules: RuleSetView,
) -> CompatibilityCheckView {
    let unknown = check_of(
        CheckStatus::Unknown,
        seq![plain_reason(ReasonCode::GpuArchitectureUnknown)],
    );
    if variant is Cpu {
        check_of(CheckStatus::NotApplicable, Seq::empty())
    } else if environment.nvidia.status == NvidiaDetectionStatus::NoDevices {
        check_of(CheckStatus::Fail, seq![plain_reason(ReasonCode::NvidiaGpuUnavailable)])
    } else if !capabilities_known(environment.nvidia.gpus) {
        unknown
    } else {
        match covering_rule(rules.releases.gpu_architectures, version, variant) {
            None => unknown,
            Some(rule) => {
                let unsupported = unsupported_devices(environment.nvidia.gpus, rule);
                if unsupported.len() == 0 {
                    check_of(
                        CheckStatus::Pass,
                        seq![plain_reason(ReasonCode::GpuArchitectureSupported)],
                    )
                } else {
                    check_of(
                        CheckStatus::Fail,
                        seq![
                            detailed(
                                plain_reason(ReasonCode::GpuArchitectureUnsupported),
                                "capabilities"@,
                                join(unsupported, ","@),
                            ),
                        ],
                    )
                }
            },
        }
    }
}

fn are_capabilities_known(gpus: &Vec<NvidiaGpu>) -> (answer: bool)
    ensures
        answer == capabilities_known(gpus.deep_view()),
{
    let ghost all = gpus.deep_view();
    let mut index: usize = 0;
    while index < gpus.len()
        invariant
            all == gpus.deep_view(),
            index <= all.len(),
            forall|i: int| 0 <= i < index ==> (#[trigger] all[i]).compute_capability is Some,
        decreases gpus@.len() - index,
    {
        assert(all[index as int] == gpus@[index as int].deep_view());
        if gpus[index].compute_capability.is_none() {
            return false;
        }
        index = index + 1;
    }
    gpus.len() > 0
}

fn is_device_supported(rule: &GpuArchitectureRule, device: ComputeCapability) -> (answer: bool)
    ensures
        answer == device_supported(rule.deep_view(), device),
{
    let ghost cubins = rule.deep_view().cubin_capabilities;
    let mut index: usize = 0;
    while index < rule.cubin_capabilities.len()
        invariant
            cubins == rule.deep_view().cubin_capabilities,
            index <= cubins.len(),
            forall|i: int| 0 <= i < index ==> !cubin_runs(#[trigger] cubins[i], device),
        decreases rule.cubin_capabilities@.len() - index,
    {
        assert(cubins[index as int] == rule.cubin_capabilities@[index as int]@);
        match ComputeCapability::parse(rule.cubin_capabilities[index].as_str()) {
            Ok(known) => {
                if known.major == device.major && known.minor <= device.minor {
                    assert(cubin_runs(cubins[index as int], device));
                    return true;
                }
            },
            Err(_) => {},
        }
        index = index + 1;
    }
    match &rule.ptx_capability {
        Some(text) => match ComputeCapability::parse(text.as_str()) {
            Ok(ptx) => device.at_least(&ptx),
            Err(_) => false,
        },
        None => false,
    }
}

fn find_unsupported(gpus: &Vec<NvidiaGpu>, rule: &GpuArchitectureRule) -> (texts: Vec<String>)
    ensures
        texts.deep_view() == unsupported_devices(gpus.deep_view(), rule.deep_view()),
{
    let ghost all = gpus.deep_view();
    let mut texts: Vec<String> = Vec::new();
    let mut index: usize = 0;
    assert(all.take(0) =~= Seq::empty());
    assert(texts.deep_view() =~= Seq::empty());
    while index < gpus.len()
        invariant
            all == gpus.deep_view(),
            index <= all.len(),
            texts.deep_view() == unsupported_devices(all.take(index as int), rule.deep_view()),
        decreases gpus@.len() - index,
    {
        assert(all.take(index + 1).drop_last() =~= all.take(index as int));
        assert(all.take(index + 1).last() == gpus@[index as int].deep_view());
        if let Some(device) = gpus[index].compute_capability {
            if !is_device_supported(rule, device) {
                push_item(&mut texts, device.to_string());
            }
        }
        index = index + 1;
    }
    assert(all.take(index as int) =~= all);
    texts
}

/// Evaluates the GPU architecture dimension.
pub fn evaluate_gpu_architecture(
    environment: &Environment,
    version: &str,
    variant: &CudaVariant,
    rules: &RuleSet,
) -> (check: CompatibilityCheck)
    ensures
        check.deep_view() == gpu_check(
            environment.deep_view(),
            version@,
            *variant,
            rules.deep_view(),
        ),
{
    if !variant.is_cuda() {
        let check = CompatibilityCheck::new(CheckStatus::NotApplicable, Vec::new());
        assert(check.deep_view().reasons =~= Seq::empty());
        return check;
    }
    if environment.nvidia.status == NvidiaDetectionStatus::NoDevices {
        return CompatibilityCheck::because(
            CheckStatus::Fail,
            DecisionReason::new(ReasonCode::NvidiaGpuUnavailable),
        );
    }
    if !are_capabilities_known(&environment.nvidia.gpus) {
        return CompatibilityCheck::because(
            CheckStatus::Unknown,
            DecisionReason::new(ReasonCode::GpuArchitectureUnknown),
        );
    }
    let rule = match rules.architecture_rule(version, variant) {
        Some(rule) => rule,
        None => {
            return CompatibilityCheck::because(
                CheckStatus::Unknown,
                DecisionReason::new(ReasonCode::GpuArchitectureUnknown),
            );
        },
    };
    let unsupported = find_unsupported(&environment.nvidia.gpus, rule);
    if unsupported.len() == 0 {
        CompatibilityCheck::because(
            CheckStatus::Pass,
            DecisionReason::new(ReasonCode::GpuArchitectureSupported),
        )
    } else {
        CompatibilityCheck::because(
            CheckStatus::Fail,
            DecisionReason::new(ReasonCode::GpuArchitectureUnsupported).with_detail(
                "capabilities",
                join_texts(&unsupported, ",").as_str(),
            ),
        )
    }
}

// ---------------------------------------------------------------------------
// Drivers

/// A reason that names a minimum.
pub open spec fn minimum_reason(code: ReasonCode, minimum: NumericVersionView) -> DecisionReasonView {
    detailed(plain_reason(code), "minimum"@, minimum.text)
}

/// The driver dimension for a CUDA wheel, where the driver is known.
pub open spec fn known_driver_check(
    driver: NumericVersionView,
    major: u16,
    family: Option<NumericVersionView>,
    exact: Option<NumericVersionView>,
) -> CompatibilityCheckView {
    let meets_family = family matches Some(minimum) && !version_less(
        driver.components,
        minimum.components,
    );
    let meets_exact = exact matches Some(minimum) && !version_less(
        driver.components,
        minimum.components,
    );
    if meets_exact {
        let direct = minimum_reason(ReasonCode::DriverSupportsCudaVariant, exact->0);
        check_of(
            CheckStatus::Pass,
            if meets_family {
                seq![minimum_reason(ReasonCode::DriverSupportsCudaFamily, family->0), direct]
            } else {
                seq![direct]
            },
        )
    } else {
        match family {
            None => check_of(
                CheckStatus::Unknown,
                seq![
                    detailed(
                        plain_reason(ReasonCode::DriverUnknown),
                        "cuda_major"@,
                        decimal(major as nat),
                    ),
                ],
            ),
            Some(minimum) => if !meets_family {
                check_of(
                    CheckStatus::Fail,
                    seq![
                        detailed(
                            detailed(
                                detailed(
                                    plain_reason(ReasonCode::DriverTooOld),
                                    "detected"@,
                                    driver.text,
                                ),
                                "minimum"@,
                                minimum.text,
                            ),
                            "cuda_major"@,
                            decimal(major as nat),
                        ),
                    ],
                )
            } else {
                let by_family = minimum_reason(ReasonCode::DriverSupportsCudaFamily, minimum);
                match exact {
                    Some(normal) => check_of(
                        CheckStatus::Pass,
                        seq![
                            by_family,
                            detailed(
                                plain_reason(ReasonCode::UsesCudaMinorCompatibility),
                                "normal_minimum"@,
                                normal.text,
                            ),
                        ],
                    ),
                    None => check_of(CheckStatus::Unknown, seq![by_family]),
                }
            },
        }
    }
}

/// The driver dimension.
pub open spec fn driver_check(
    environment: EnvironmentView,
    variant: CudaVariant,
    rules: RuleSetView,
) -> CompatibilityCheckView {
    match variant_cuda(variant) {
        None => check_of(
            CheckStatus::NotApplicable,
            seq![plain_reason(ReasonCode::DriverNotRequired)],
        ),
        Some(version) => if environment.nvidia.status == NvidiaDetectionStatus::NoDevices {
            check_of(CheckStatus::Fail, seq![plain_reason(ReasonCode::NvidiaGpuUnavailable)])
        } else {
            match environment.nvidia.driver_version {
                None => check_of(
                    CheckStatus::Unknown,
                    seq![plain_reason(ReasonCode::DriverUnknown)],
                ),
                Some(driver) => known_driver_check(
                    driver,
                    version.0,
                    family_minimum(rules.drivers.families, version.0),
                    variant_minimum(rules.drivers.variants, variant),
                ),
            }
        },
    }
}

fn minimum_met(code: ReasonCode, minimum: &NumericVersion) -> (reason: DecisionReason)
    ensures
        reason.deep_view() == minimum_reason(code, minimum.deep_view()),
{
    DecisionReason::new(code).with_detail("minimum", minimum.to_string().as_str())
}

fn check_known_driver(
    driver: &NumericVersion,
    major: u16,
    family: Option<&NumericVersion>,
    exact: Option<&NumericVersion>,
) -> (check: CompatibilityCheck)
    ensures
        check.deep_view() == known_driver_check(
            driver.deep_view(),
            major,
            seen(family),
            seen(exact),
        ),
{
    let ghost expected = known_driver_check(driver.deep_view(), major, seen(family), seen(exact));
    let mut reasons: Vec<DecisionReason> = Vec::new();
    if let Some(exact) = exact {
        if driver.at_least(exact) {
            if let Some(family) = family {
                if driver.at_least(family) {
                    push_item(
                        &mut reasons,
                        minimum_met(ReasonCode::DriverSupportsCudaFamily, family),
                    );
                }
            }
            push_item(&mut reasons, minimum_met(ReasonCode::DriverSupportsCudaVariant, exact));
            assert(reasons.deep_view() =~= expected.reasons);
            return CompatibilityCheck::new(CheckStatus::Pass, reasons);
        }
    }
    let family = match family {
        Some(family) => family,
        None => {
            return CompatibilityCheck::because(
                CheckStatus::Unknown,
                DecisionReason::new(ReasonCode::DriverUnknown).with_detail(
                    "cuda_major",
                    decimal_text(major as u64).as_str(),
                ),
            );
        },
    };
    if !driver.at_least(family) {
        return CompatibilityCheck::because(
            CheckStatus::Fail,
            DecisionReason::new(ReasonCode::DriverTooOld).with_detail(
                "detected",
                driver.to_string().as_str(),
            ).with_detail("minimum", family.to_string().as_str()).with_detail(
                "cuda_major",
                decimal_text(major as u64).as_str(),
            ),
        );
    }
    push_item(&mut reasons, minimum_met(ReasonCode::DriverSupportsCudaFamily, family));
    if let Some(exact) = exact {
        push_item(
            &mut reasons,
            DecisionReason::new(ReasonCode::UsesCudaMinorCompatibility).with_detail(
                "normal_minimum",
                exact.to_string().as_str(),
            ),
        );
        assert(reasons.deep_view() =~= expected.reasons);
        CompatibilityCheck::new(CheckStatus::Pass, reasons)
    } else {
        assert(reasons.deep_view() =~= expected.reasons);
        CompatibilityCheck::new(CheckStatus::Unknown, reasons)
    }
}

/// Evaluates the driver dimension. The CUDA version that the driver reports and a local CUDA
/// Toolkit play no part in it.
pub fn evaluate_driver(
    environment: &Environment,
    variant: &CudaVariant,
    rules: &RuleSet,
) -> (check: CompatibilityCheck)
    ensures
        check.deep_view() == driver_check(environment.deep_view(), *variant, rules.deep_view()),
{
    let major: u16 = match variant.cuda_version() {
        Some(version) => version.0,
        None => {
            return CompatibilityCheck::because(
                CheckStatus::NotApplicable,
                DecisionReason::new(ReasonCode::DriverNotRequired),
            );
        },
    };
    if environment.nvidia.status == NvidiaDetectionStatus::NoDevices {
        return CompatibilityCheck::because(
            CheckStatus::Fail,
            DecisionReason::new(ReasonCode::NvidiaGpuUnavailable),
        );
    }
    match &environment.nvidia.driver_version {
        Some(driver) => check_known_driver(
            driver,
            major,
            rules.family_driver_minimum(major),
            rules.variant_driver_minimum(variant),
        ),
        None => CompatibilityCheck::because(
            CheckStatus::Unknown,
            DecisionReason::new(ReasonCode::DriverUnknown),
        ),
    }
}

/// The CUDA version that the driver reports is no ceiling, and a local CUDA Toolkit is not
/// needed: neither changes the driver or the GPU architecture dimension.
pub proof fn reported_cuda_and_toolkit_are_informational(
    left: EnvironmentView,
    right: EnvironmentView,
    version: Seq<char>,
    variant: CudaVariant,
    rules: RuleSetView,
)
    requires
        left.nvidia.status == right.nvidia.status,
        left.nvidia.driver_version == right.nvidia.driver_version,
        left.nvidia.gpus == right.nvidia.gpus,
    ensures
        driver_check(left, variant, rules) == driver_check(right, variant, rules),
        gpu_check(left, version, variant, rules) == gpu_check(right, version, variant, rules),
{
}

/// A driver that meets the normal minimum of the exact CUDA release passes, whatever the
/// family minimum says.
pub proof fn exact_minimum_precedes_family_minimum(
    driver: NumericVersionView,
    major: u16,
    family: Option<NumericVersionView>,
    exact: NumericVersionView,
)
    requires
        !version_less(driver.components, exact.components),
    ensures
        known_driver_check(driver, major, family, Some(exact)).status == CheckStatus::Pass,
        known_driver_check(driver, major, family, Some(exact)).reasons.last() == minimum_reason(
            ReasonCode::DriverSupportsCudaVariant,
            exact,
        ),
{
}

/// A driver that is not older than one that passes passes too.
pub proof fn newer_drivers_pass_too(
    older: NumericVersionView,
    newer: NumericVersionView,
    major: u16,
    family: Option<NumericVersionView>,
    exact: Option<NumericVersionView>,
)
    requires
        !version_less(newer.components, older.components),
        known_driver_check(older, major, family, exact).status == CheckStatus::Pass,
    ensures
        known_driver_check(newer, major, family, exact).status == CheckStatus::Pass,
{
    if let Some(minimum) = family {
        if !version_less(older.components, minimum.components) {
            version_order_transitive(minimum.components, older.components, newer.components);
        }
    }
    if let Some(minimum) = exact {
        if !version_less(older.components, minimum.components) {
            version_order_transitive(minimum.components, older.components, newer.components);
        }
    }
}

// ---------------------------------------------------------------------------
// Aggregate state

/// Whether a check gives `code` as a reason.
pub open spec fn has_reason(check: CompatibilityCheckView, code: ReasonCode) -> bool {
    exists|i: int| 0 <= i < check.reasons.len() && (#[trigger] check.reasons[i]).code == code
}

/// Whether one of the dimensions other than Python has `status`.
pub open spec fn some_dimension(checks: CompatibilityChecksView, status: CheckStatus) -> bool {
    checks.wheel.status == status || checks.platform.status == status
        || checks.gpu_architecture.status == status || checks.driver.status == status
}

/// The state of a candidate with these checks.
pub open spec fn aggregate(checks: CompatibilityChecksView) -> CompatibilityStatus {
    if checks.runtime.status == CheckStatus::Pass {
        CompatibilityStatus::Verified
    } else if checks.python.status == CheckStatus::Fail || has_reason(
        checks.wheel,
        ReasonCode::WheelMissing,
    ) || has_reason(checks.wheel, ReasonCode::WheelYanked) {
        CompatibilityStatus::Unavailable
    } else if some_dimension(checks, CheckStatus::Fail) {
        CompatibilityStatus::Incompatible
    } else if checks.python.status == CheckStatus::Unknown || some_dimension(
        checks,
        CheckStatus::Unknown,
    ) {
        CompatibilityStatus::Unverified
    } else if has_reason(checks.driver, ReasonCode::UsesCudaMinorCompatibility) {
        CompatibilityStatus::MinorCompatible
    } else {
        CompatibilityStatus::DirectCompatible
    }
}

/// Whether a check gives `code` as a reason.
pub fn gives_reason(check: &CompatibilityCheck, code: ReasonCode) -> (answer: bool)
    ensures
        answer == has_reason(check.deep_view(), code),
{
    let ghost reasons = check.deep_view().reasons;
    let mut index: usize = 0;
    while index < check.reasons.len()
        invariant
            reasons == check.deep_view().reasons,
            index <= reasons.len(),
            forall|i: int| 0 <= i < index ==> (#[trigger] reasons[i]).code != code,
        decreases check.reasons@.len() - index,
    {
        assert(reasons[index as int] == check.reasons@[index as int].deep_view());
        if check.reasons[index].code == code {
            return true;
        }
        index = index + 1;
    }
    false
}

/// Derives the state of a candidate from its checks.
pub fn aggregate_status(checks: &CompatibilityChecks) -> (status: CompatibilityStatus)
    ensures
        status == aggregate(checks.deep_view()),
{
    if checks.runtime.status == CheckStatus::Pass {
        return CompatibilityStatus::Verified;
    }
    if checks.python.status == CheckStatus::Fail || gives_reason(
        &checks.wheel,
        ReasonCode::WheelMissing,
    ) || gives_reason(&checks.wheel, ReasonCode::WheelYanked) {
        return CompatibilityStatus::Unavailable;
    }
    if checks.wheel.status == CheckStatus::Fail || checks.platform.status == CheckStatus::Fail
        || checks.gpu_architecture.status == CheckStatus::Fail || checks.driver.status
        == CheckStatus::Fail {
        return CompatibilityStatus::Incompatible;
    }
    if checks.python.status == CheckStatus::Unknown || checks.wheel.status == CheckStatus::Unknown
        || checks.platform.status == CheckStatus::Unknown || checks.gpu_architecture.status
        == CheckStatus::Unknown || checks.driver.status == CheckStatus::Unknown {
        return CompatibilityStatus::Unverified;
    }
    if gives_reason(&checks.driver, ReasonCode::UsesCudaMinorCompatibility) {
        CompatibilityStatus::MinorCompatible
    } else {
        CompatibilityStatus::DirectCompatible
    }
}

/// Without a dynamic validation, a candidate is statically compatible exactly where no dimension
/// failed or stayed unknown and its wheel is neither missing nor yanked, and unverified exactly
/// where nothing failed but a dimension is unknown.
pub proof fn compatible_means_every_dimension_passed(checks: CompatibilityChecksView)
    requires
        checks.runtime.status != CheckStatus::Pass,
    ensures
        ({
            let failed = checks.python.status == CheckStatus::Fail || some_dimension(
                checks,
                CheckStatus::Fail,
            ) || has_reason(checks.wheel, ReasonCode::WheelMissing) || has_reason(
                checks.wheel,
                ReasonCode::WheelYanked,
            );
            let unknown = checks.python.status == CheckStatus::Unknown || some_dimension(
                checks,
                CheckStatus::Unknown,
            );
            &&& (aggregate(checks) == CompatibilityStatus::DirectCompatible || aggregate(checks)
                == CompatibilityStatus::MinorCompatible) <==> !failed && !unknown
            &&& aggregate(checks) == CompatibilityStatus::Unverified <==> !failed && unknown
        }),
{
}

/// A CUDA candidate is directly compatible only if the driver meets the normal minimum of the
/// exact CUDA release, and compatible within its family only if the driver meets the minimum of
/// the family and not the exact one.
pub proof fn compatibility_tells_which_minimum_is_met(
    checks: CompatibilityChecksView,
    environment: EnvironmentView,
    variant: CudaVariant,
    rules: RuleSetView,
)
    requires
        checks.driver == driver_check(environment, variant, rules),
        variant_cuda(variant) is Some,
    ensures
        ({
            let driver = environment.nvidia.driver_version;
            let family = family_minimum(rules.drivers.families, (variant_cuda(variant)->0).0);
            let exact = variant_minimum(rules.drivers.variants, variant);
            &&& aggregate(checks) == CompatibilityStatus::DirectCompatible ==> driver is Some
                && exact is Some && !version_less(driver->0.components, exact->0.components)
            &&& aggregate(checks) == CompatibilityStatus::MinorCompatible ==> driver is Some
                && family is Some && exact is Some && !version_less(
                driver->0.components,
                family->0.components,
            ) && version_less(driver->0.components, exact->0.components)
        }),
{
    let check = checks.driver;
    if let Some(driver) = environment.nvidia.driver_version {
        let family = family_minimum(rules.drivers.families, (variant_cuda(variant)->0).0);
        let exact = variant_minimum(rules.drivers.variants, variant);
        if let Some(minimum) = exact {
            if !version_less(driver.components, minimum.components) {
                assert forall|i: int| 0 <= i < check.reasons.len() implies (
                #[trigger] check.reasons[i]).code != ReasonCode::UsesCudaMinorCompatibility by {}
            } else if family is Some && check.reasons.len() == 2 {
                assert(check.reasons[1].code == ReasonCode::UsesCudaMinorCompatibility);
                assert(has_reason(check, ReasonCode::UsesCudaMinorCompatibility));
            }
        }
    }
}

/// Whether the metadata is too old to be relied on without a warning.
pub open spec fn metadata_old(metadata: MetadataInfoView) -> bool {
    metadata.stale || metadata.origin == MetadataOrigin::StaleIfError
}

/// Whether a version is a PEP 440 release that is not a pre-release.
pub open spec fn stable_version(version: Seq<char>) -> bool {
    pep440_prerelease(version) == Some(false)
}

/// Whether a version is a stable release.
pub fn is_stable_version(version: &str) -> (answer: bool)
    ensures
        answer == stable_version(version@),
{
    match version_is_prerelease(version) {
        Some(prerelease) => !prerelease,
        None => false,
    }
}

/// An empty check of unknown status.
pub open spec fn open_check() -> CompatibilityCheckView {
    check_of(CheckStatus::Unknown, Seq::empty())
}

/// The candidate for a version and variant of which there is no wheel.
pub open spec fn absent_candidate(
    version: Seq<char>,
    variant: CudaVariant,
    metadata: MetadataInfoView,
) -> CandidateView {
    CandidateView {
        torch_version: version,
        variant,
        compatibility: CompatibilityStatus::Unavailable,
        checks: CompatibilityChecksView {
            wheel: check_of(CheckStatus::Fail, seq![plain_reason(ReasonCode::WheelMissing)]),
            python: open_check(),
            platform: open_check(),
            gpu_architecture: open_check(),
            driver: open_check(),
            runtime: check_of(CheckStatus::Unknown, seq![plain_reason(ReasonCode::RuntimeNotRun)]),
        },
        wheel: None,
        stable: stable_version(version),
        official_preference: None,
        warnings: if metadata_old(metadata) {
            seq![plain_warning(WarningCode::StaleMetadata)]
        } else {
            Seq::empty()
        },
    }
}

fn empty_check() -> (check: CompatibilityCheck)
    ensures
        check.deep_view() == open_check(),
{
    let check = CompatibilityCheck::new(CheckStatus::Unknown, Vec::new());
    assert(check.deep_view().reasons =~= Seq::empty());
    check
}

/// Builds the candidate for a version and variant of which there is no wheel.
pub fn missing_candidate(
    version: &str,
    variant: &CudaVariant,
    metadata: &MetadataInfo,
) -> (candidate: Candidate)
    ensures
        candidate.deep_view() == absent_candidate(version@, *variant, metadata.deep_view()),
{
    let mut warnings: Vec<CandidateWarning> = Vec::new();
    if metadata.stale || metadata.origin == MetadataOrigin::StaleIfError {
        push_item(&mut warnings, CandidateWarning::new(WarningCode::StaleMetadata));
    }
    let candidate = Candidate {
        torch_version: version.to_owned(),
        variant: *variant,
        compatibility: CompatibilityStatus::Unavailable,
        checks: CompatibilityChecks {
            wheel: CompatibilityCheck::because(
                CheckStatus::Fail,
                DecisionReason::new(ReasonCode::WheelMissing),
            ),
            python: empty_check(),
            platform: empty_check(),
            gpu_architecture: empty_check(),
            driver: empty_check(),
            runtime: CompatibilityCheck::because(
                CheckStatus::Unknown,
                DecisionReason::new(ReasonCode::RuntimeNotRun),
            ),
        },
        wheel: None,
        stable: is_stable_version(version),
        official_preference: None,
        warnings,
    };
    assert(candidate.deep_view().warnings =~= absent_candidate(
        version@,
        *variant,
        metadata.deep_view(),
    ).warnings);
    candidate
}

// ---------------------------------------------------------------------------
// Companion packages

/// The three leading numbers of a version, without a local label.
pub open spec fn release_numbers(version: Seq<char>) -> Option<(nat, nat, nat)> {
    let parts = split_on(before(version, '+'), '.');
    if parts.len() < 3 {
        None
    } else {
        match (
            unsigned(parts[0], u16::MAX as nat),
            unsigned(parts[1], u16::MAX as nat),
            unsigned(parts[2], u16::MAX as nat),
        ) {
            (Some(major), Some(minor), Some(patch)) => Some((major, minor, patch)),
            _ => None,
        }
    }
}

/// The three leading numbers of a version.
pub fn release_components(version: &str) -> (numbers: Option<(u16, u16, u16)>)
    ensures
        (match numbers {
            Some(known) => Some((known.0 as nat, known.1 as nat, known.2 as nat)),
            None => None,
        }) == release_numbers(version@),
{
    let public = part_before(version, '+');
    let parts = split(public.as_str(), '.');
    let ghost all = parts.deep_view();
    if parts.len() < 3 {
        return None;
    }
    assert(all[0] == parts@[0]@ && all[1] == parts@[1]@ && all[2] == parts@[2]@);
    match (
        parse_unsigned(parts[0].as_str(), 65535),
        parse_unsigned(parts[1].as_str(), 65535),
        parse_unsigned(parts[2].as_str(), 65535),
    ) {
        (Some(major), Some(minor), Some(patch)) => Some((major as u16, minor as u16, patch as u16)),
        _ => None,
    }
}

/// The version of a companion package that belongs to a PyTorch version.
pub open spec fn companion_pin(
    rules: RuleSetView,
    package: CompanionPackage,
    version: Seq<char>,
) -> Option<Seq<char>> {
    match release_numbers(version) {
        None => None,
        Some(numbers) => if numbers.0 == 2 && numbers.1 == 0 {
            match package {
                CompanionPackage::Torchvision => if numbers.2 == 0 {
                    Some("0.15.1"@)
                } else if numbers.2 == 1 {
                    Some("0.15.2"@)
                } else {
                    None
                },
                CompanionPackage::Torchaudio => if numbers.2 == 0 {
                    Some("2.0.1"@)
                } else if numbers.2 == 1 {
                    Some("2.0.2"@)
                } else {
                    None
                },
            }
        } else {
            match release_for(rules, version) {
                None => None,
                Some(rule) => match package {
                    CompanionPackage::Torchvision => match rule.torchvision_minor {
                        Some(minor) => Some(
                            "0."@ + decimal(minor as nat) + "."@ + decimal(numbers.2),
                        ),
                        None => None,
                    },
                    CompanionPackage::Torchaudio => match rule.torchaudio_series {
                        Some(series) => Some(series + "."@ + decimal(numbers.2)),
                        None => None,
                    },
                },
            }
        },
    }
}

fn find_companion_pin(rules: &RuleSet, package: CompanionPackage, version: &str) -> (pin: Option<
    String,
>)
    ensures
        pin.deep_view() == companion_pin(rules.deep_view(), package, version@),
{
    let numbers = match release_components(version) {
        Some(numbers) => numbers,
        None => {
            return None;
        },
    };
    if numbers.0 == 2 && numbers.1 == 0 {
        return match package {
            CompanionPackage::Torchvision => if numbers.2 == 0 {
                Some("0.15.1".to_owned())
            } else if numbers.2 == 1 {
                Some("0.15.2".to_owned())
            } else {
                None
            },
            CompanionPackage::Torchaudio => if numbers.2 == 0 {
                Some("2.0.1".to_owned())
            } else if numbers.2 == 1 {
                Some("2.0.2".to_owned())
            } else {
                None
            },
        };
    }
    let rule = match rules.release_rule(version) {
        Some(rule) => rule,
        None => {
            return None;
        },
    };
    let patch = decimal_text(numbers.2 as u64);
    match package {
        CompanionPackage::Torchvision => match rule.torchvision_minor {
            Some(minor) => Some(
                concat4("0.", decimal_text(minor as u64).as_str(), ".", patch.as_str()),
            ),
            None => None,
        },
        CompanionPackage::Torchaudio => match &rule.torchaudio_series {
            Some(series) => Some(concat3(series.as_str(), ".", patch.as_str())),
            None => None,
        },
    }
}

/// The error that no version of a companion package is known for a PyTorch version.
pub open spec fn mapping_missing(package: CompanionPackage, version: Seq<char>) -> ResolverErrorView {
    ResolverErrorView::CompanionMappingMissing {
        package: companion_name(package),
        torch_version: version,
    }
}

/// Finds the version of a companion package that belongs to a PyTorch version.
pub fn companion_version(
    rules: &RuleSet,
    package: CompanionPackage,
    torch_version: &str,
) -> (result: Result<String, ResolverError>)
    ensures
        outcome(result) == (match companion_pin(rules.deep_view(), package, torch_version@) {
            Some(version) => Ok(version),
            None => Err(mapping_missing(package, torch_version@)),
        }),
{
    match find_companion_pin(rules, package, torch_version) {
        Some(version) => Ok(version),
        None => Err(
            ResolverError::CompanionMappingMissing {
                package: package.as_str(),
                torch_version: torch_version.to_owned(),
            },
        ),
    }
}

/// The wheels of a package, version and variant that are not yanked.
pub open spec fn companion_group(
    snapshot: IndexSnapshotView,
    package: Seq<char>,
    version: Seq<char>,
    variant: CudaVariant,
) -> Seq<TorchWheelView> {
    kept(
        snapshot.wheels,
        |wheel: TorchWheelView|
            wheel.package == package && wheel.public_version == version && wheel.variant == variant
                && !wheel.yanked,
    )
}

/// Whether a companion package has a wheel that passes both the Python and the platform
/// dimension.
pub open spec fn companion_available(
    snapshot: IndexSnapshotView,
    environment: EnvironmentView,
    package: Seq<char>,
    version: Seq<char>,
    variant: CudaVariant,
) -> bool {
    let group = companion_group(snapshot, package, version, variant);
    let result = platform_result(environment, python_wheels(environment.python, group));
    result.1 is Some && result.0.status == CheckStatus::Pass
}

/// The interpreter of an environment, by reference.
pub fn python_of(environment: &Environment) -> (python: Option<&PythonInfo>)
    ensures
        seen(python) == environment.deep_view().python,
{
    match &environment.python {
        Some(python) => Some(python),
        None => None,
    }
}

/// Decides whether a companion package has a usable wheel.
pub fn matching_companion_wheel(
    snapshot: &IndexSnapshot,
    environment: &Environment,
    package: &str,
    version: &str,
    variant: &CudaVariant,
) -> (answer: bool)
    ensures
        answer == companion_available(
            snapshot.deep_view(),
            environment.deep_view(),
            package@,
            version@,
            *variant,
        ),
{
    let ghost all = snapshot.wheels.deep_view();
    let ghost keep = |wheel: TorchWheelView|
        wheel.package == package@ && wheel.public_version == version@ && wheel.variant == *variant
            && !wheel.yanked;
    let mut group: Vec<&TorchWheel> = Vec::new();
    let mut index: usize = 0;
    assert(all.take(0) =~= Seq::empty());
    assert(group.deep_view() =~= kept(all.take(0), keep));
    while index < snapshot.wheels.len()
        invariant
            all == snapshot.wheels.deep_view(),
            keep == (|wheel: TorchWheelView|
                wheel.package == package@ && wheel.public_version == version@ && wheel.variant
                    == *variant && !wheel.yanked),
            index <= all.len(),
            group.deep_view() == kept(all.take(index as int), keep),
        decreases snapshot.wheels@.len() - index,
    {
        let wheel = &snapshot.wheels[index];
        assert(all.take(index + 1).drop_last() =~= all.take(index as int));
        assert(all.take(index + 1).last() == wheel.deep_view());
        if same(wheel.package.as_str(), package) && same(wheel.public_version.as_str(), version)
            && wheel.variant == *variant && !wheel.yanked {
            push_item(&mut group, wheel);
        }
        index = index + 1;
    }
    assert(all.take(index as int) =~= all);
    assert(group.deep_view() == companion_group(snapshot.deep_view(), package@, version@, *variant));
    let python = python_of(environment);
    let (_, matching) = evaluate_python(python, &group);
    let (platform, wheel) = evaluate_platform(environment, &matching);
    wheel.is_some() && platform.status == CheckStatus::Pass
}

} // verus!
