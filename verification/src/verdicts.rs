//! What a check says of a candidate, and why.

use crate::checks::{
    aggregate, driver_check, first_matching, glibc_floor, gpu_check, known_driver_check, last_floor,
    lowest_floor, pair_fits, platform_match, platform_result, python_check, python_wheels,
    tag_is_open, tag_passes, unsupported_devices, wheel_fits, PlatformMatchView,
};
use crate::details::{bind_keeps_ascending, bind_updates_lookup, lookup, no_details};
use crate::model::{
    capability_text, CheckStatus, CompatibilityCheckView, CompatibilityChecksView,
    CompatibilityStatus, ComputeCapability, CudaVariant, EnvironmentView, NvidiaDetectionStatus,
    NvidiaGpuView, PythonInfoView, ReasonCode, TorchWheelView,
};
use crate::pieces::join;
use crate::rules::{
    covering_rule, family_minimum, variant_minimum, GpuArchitectureRuleView, RuleSetView,
};
use crate::suitability::some_code_runs;
use crate::text::decimal;
use crate::version::{version_less, version_order_transitive, NumericVersionView};
use vstd::prelude::*;

verus! {

// ---------------------------------------------------------------------------
// States

/// Whether one of the reasons of a check has `code`.
pub open spec fn says(check: CompatibilityCheckView, code: ReasonCode) -> bool {
    exists|i: int| 0 <= i < check.reasons.len() && (#[trigger] check.reasons[i]).code == code
}

/// The state of a candidate: it is unavailable where no wheel can be installed, incompatible where
/// some dimension fails, unverified where some is unknown, and otherwise compatible, with or without
/// relying on the compatibility of minor versions.
pub proof fn states_are_told_apart(checks: CompatibilityChecksView)
    ensures
        ({
            let state = aggregate(checks);
            let absent = checks.python.status == CheckStatus::Fail || says(
                checks.wheel,
                ReasonCode::WheelMissing,
            ) || says(checks.wheel, ReasonCode::WheelYanked);
            let fails = checks.wheel.status == CheckStatus::Fail || checks.platform.status
                == CheckStatus::Fail || checks.gpu_architecture.status == CheckStatus::Fail
                || checks.driver.status == CheckStatus::Fail;
            let open = checks.wheel.status == CheckStatus::Unknown || checks.python.status
                == CheckStatus::Unknown || checks.platform.status == CheckStatus::Unknown
                || checks.gpu_architecture.status == CheckStatus::Unknown || checks.driver.status
                == CheckStatus::Unknown;
            let run = checks.runtime.status == CheckStatus::Pass;
            let minor = says(checks.driver, ReasonCode::UsesCudaMinorCompatibility);
            match state {
                CompatibilityStatus::Verified => run,
                CompatibilityStatus::Unavailable => !run && absent,
                CompatibilityStatus::Incompatible => !run && !absent && fails,
                CompatibilityStatus::Unverified => !run && !absent && !fails && open,
                CompatibilityStatus::MinorCompatible => !run && !absent && !fails && !open && minor,
                CompatibilityStatus::DirectCompatible => !run && !absent && !fails && !open
                    && !minor,
            }
        }),
{
}

// ---------------------------------------------------------------------------
// Interpreter

/// The interpreter passes exactly where some wheel can be installed into it. Where there is no
/// interpreter that is unknown. Where it fails, a wheel that would fit but was withdrawn is told.
pub proof fn interpreters_pass_where_a_wheel_fits(
    python: Option<PythonInfoView>,
    wheels: Seq<TorchWheelView>,
)
    ensures
        ({
            let check = python_check(python, wheels);
            &&& check.status == CheckStatus::Unknown <==> python is None
            &&& python matches Some(known) ==> {
                &&& check.status == CheckStatus::Pass <==> exists|i: int|
                    0 <= i < wheels.len() && wheel_fits(#[trigger] wheels[i], known)
                        && !wheels[i].yanked
                &&& check.status == CheckStatus::Pass || check.status == CheckStatus::Fail
                &&& says(check, ReasonCode::PythonTagMatches) <==> check.status
                    == CheckStatus::Pass
                &&& says(check, ReasonCode::AbiTagMatches) <==> check.status == CheckStatus::Pass
                &&& check.status == CheckStatus::Fail ==> check.reasons[0].code
                    == ReasonCode::PythonWheelMissing && lookup(
                    check.reasons[0].details,
                    "python"@,
                ) == Some(known.version.text)
                &&& check.status == CheckStatus::Fail ==> (says(check, ReasonCode::WheelYanked)
                    <==> exists|i: int|
                    0 <= i < wheels.len() && wheel_fits(#[trigger] wheels[i], known)
                        && wheels[i].yanked)
            }
        }),
{
    let check = python_check(python, wheels);
    if let Some(known) = python {
        let keep = |wheel: TorchWheelView| wheel_fits(wheel, known) && !wheel.yanked;
        let taken = python_wheels(python, wheels);
        if taken.len() > 0 {
            crate::order::kept_members(wheels, keep, taken[0]);
            assert(taken.contains(taken[0]));
            let i = choose|i: int| 0 <= i < wheels.len() && wheels[i] == taken[0];
            assert(keep(wheels[i]));
            assert(wheel_fits(wheels[i], known));
            assert(check.reasons[0].code == ReasonCode::PythonTagMatches);
            assert(check.reasons[1].code == ReasonCode::AbiTagMatches);
        } else {
            assert forall|i: int| 0 <= i < wheels.len() implies !(wheel_fits(
                #[trigger] wheels[i],
                known,
            ) && !wheels[i].yanked) by {
                crate::order::kept_members(wheels, keep, wheels[i]);
                assert(wheels.contains(wheels[i]));
                if keep(wheels[i]) {
                    assert(taken.contains(wheels[i]));
                }
            }
            let abi = match crate::model::abi_tag(known) {
                Some(tag) => tag,
                None => "unknown"@,
            };
            reveal_strlit("python");
            reveal_strlit("abi");
            assert("python"@.len() != "abi"@.len());
            bind_keeps_ascending(no_details(), "python"@, known.version.text);
            bind_updates_lookup(no_details(), "python"@, known.version.text, "python"@);
            bind_updates_lookup(
                crate::details::bind(no_details(), "python"@, known.version.text),
                "abi"@,
                abi,
                "python"@,
            );
            if exists|i: int|
                0 <= i < wheels.len() && wheel_fits(#[trigger] wheels[i], known)
                    && wheels[i].yanked {
                assert(check.reasons[1].code == ReasonCode::WheelYanked);
            }
        }
    }
}

/// A pure package of Python 3 fits every CPython.
pub proof fn pure_packages_fit(python: PythonInfoView)
    requires
        python.implementation == "cpython"@,
    ensures
        pair_fits(python, "py3"@, "none"@),
{
}

// ---------------------------------------------------------------------------
// Platform

/// The wheel that is taken is the first that passes, and where none does the first of which it is
/// unknown. The platform fails where no wheel can be taken, and names the lowest version of the GNU C
/// library that would do, where one would.
pub proof fn the_first_fitting_wheel_is_taken(
    environment: EnvironmentView,
    wheels: Seq<TorchWheelView>,
    place: int,
)
    requires
        environment.platform.os is Linux,
        environment.platform.architecture is X86_64,
    ensures
        ({
            let result = platform_result(environment, wheels);
            &&& 0 <= place < wheels.len() && platform_match(wheels[place], environment) is Pass && (
            forall|i: int|
                0 <= i < place ==> !(platform_match(#[trigger] wheels[i], environment) is Pass))
                ==> result.1 == Some(wheels[place]) && result.0.status == CheckStatus::Pass
            &&& 0 <= place < wheels.len() && platform_match(wheels[place], environment) is Unknown
                && (forall|i: int|
                0 <= i < wheels.len() ==> !(platform_match(#[trigger] wheels[i], environment)
                    is Pass)) && (forall|i: int|
                0 <= i < place ==> !(platform_match(#[trigger] wheels[i], environment) is Unknown))
                ==> result.1 == Some(wheels[place]) && result.0.status == CheckStatus::Unknown
                && says(result.0, ReasonCode::GlibcUnknown)
            &&& wheels.len() == 0 ==> result.1 is None && result.0.status == CheckStatus::Unknown
            &&& wheels.len() > 0 && (forall|i: int|
                0 <= i < wheels.len() ==> !(platform_match(#[trigger] wheels[i], environment)
                    is Pass) && !(platform_match(wheels[i], environment) is Unknown))
                ==> result.1 is None && result.0.status == CheckStatus::Fail && result.0.reasons.len()
                == 1 && match lowest_floor(wheels, environment) {
                Some(floor) => result.0.reasons[0].code == ReasonCode::GlibcTooOld && lookup(
                    result.0.reasons[0].details,
                    "required"@,
                ) == Some(floor.text),
                None => result.0.reasons[0].code == ReasonCode::PlatformMismatch,
            }
        }),
{
    first_is_first(wheels, environment, PlatformMatchView::Pass, place);
    first_is_first(wheels, environment, PlatformMatchView::Unknown, place);
    none_is_first(wheels, environment, PlatformMatchView::Pass);
    none_is_first(wheels, environment, PlatformMatchView::Unknown);
    let result = platform_result(environment, wheels);
    if result.0.status == CheckStatus::Unknown && result.1 is Some {
        assert(result.0.reasons[0].code == ReasonCode::GlibcUnknown);
    }
    if let Some(floor) = lowest_floor(wheels, environment) {
        let detected = match environment.glibc {
            Some(known) => known.text,
            None => "unknown"@,
        };
        reveal_strlit("required");
        reveal_strlit("detected");
        assert("required"@[0] != "detected"@[0]);
        bind_keeps_ascending(no_details(), "required"@, floor.text);
        bind_updates_lookup(no_details(), "required"@, floor.text, "required"@);
        bind_updates_lookup(
            crate::details::bind(no_details(), "required"@, floor.text),
            "detected"@,
            detected,
            "required"@,
        );
    }
}

proof fn first_is_first(
    wheels: Seq<TorchWheelView>,
    environment: EnvironmentView,
    wanted: PlatformMatchView,
    place: int,
)
    ensures
        0 <= place < wheels.len() && platform_match(wheels[place], environment) == wanted && (
        forall|i: int|
            0 <= i < place ==> platform_match(#[trigger] wheels[i], environment) != wanted)
            ==> first_matching(wheels, environment, wanted) == Some(wheels[place]),
    decreases wheels.len(),
{
    if 0 <= place < wheels.len() && platform_match(wheels[place], environment) == wanted && (
    forall|i: int|
        0 <= i < place ==> platform_match(#[trigger] wheels[i], environment) != wanted) {
        let head = wheels.drop_last();
        assert forall|i: int| 0 <= i < place && i < head.len() implies platform_match(
            #[trigger] head[i],
            environment,
        ) != wanted by {
            assert(head[i] == wheels[i]);
        }
        if place < head.len() {
            assert(head[place] == wheels[place]);
            first_is_first(head, environment, wanted, place);
        } else {
            none_is_first(head, environment, wanted);
        }
    }
}

proof fn none_is_first(
    wheels: Seq<TorchWheelView>,
    environment: EnvironmentView,
    wanted: PlatformMatchView,
)
    ensures
        (forall|i: int|
            0 <= i < wheels.len() ==> platform_match(#[trigger] wheels[i], environment) != wanted)
            ==> first_matching(wheels, environment, wanted) is None,
    decreases wheels.len(),
{
    if wheels.len() > 0 && forall|i: int|
        0 <= i < wheels.len() ==> platform_match(#[trigger] wheels[i], environment) != wanted {
        let head = wheels.drop_last();
        assert forall|i: int| 0 <= i < head.len() implies platform_match(
            #[trigger] head[i],
            environment,
        ) != wanted by {
            assert(head[i] == wheels[i]);
        }
        none_is_first(head, environment, wanted);
        assert(platform_match(wheels[wheels.len() - 1], environment) != wanted);
    }
}

/// The version of the GNU C library that is asked for is that of a wheel which asks for too new a
/// one, and no such wheel asks for an older one.
pub proof fn the_lowest_floor_is_named(
    environment: EnvironmentView,
    wheels: Seq<TorchWheelView>,
)
    ensures
        lowest_floor(wheels, environment) matches Some(lowest) ==> (exists|i: int|
            0 <= i < wheels.len() && platform_match(#[trigger] wheels[i], environment)
                == PlatformMatchView::GlibcTooOld(lowest)) && forall|i: int|
            0 <= i < wheels.len() ==> (platform_match(
                #[trigger] wheels[i],
                environment,
            ) matches PlatformMatchView::GlibcTooOld(floor) ==> !version_less(
                floor.components,
                lowest.components,
            )),
        lowest_floor(wheels, environment) is None ==> forall|i: int|
            0 <= i < wheels.len() ==> !(platform_match(#[trigger] wheels[i], environment)
                is GlibcTooOld),
    decreases wheels.len(),
{
    if wheels.len() > 0 {
        let head = wheels.drop_last();
        let last = wheels.len() - 1;
        the_lowest_floor_is_named(environment, head);
        assert forall|i: int| 0 <= i < head.len() implies #[trigger] wheels[i] == head[i] by {}
        let known = lowest_floor(head, environment);
        if let Some(lowest) = lowest_floor(wheels, environment) {
            if known == Some(lowest) {
                let i = choose|i: int|
                    0 <= i < head.len() && platform_match(#[trigger] head[i], environment)
                        == PlatformMatchView::GlibcTooOld(lowest);
                assert(platform_match(wheels[i], environment) == PlatformMatchView::GlibcTooOld(
                    lowest,
                ));
            } else {
                assert(platform_match(wheels[last], environment)
                    == PlatformMatchView::GlibcTooOld(lowest));
            }
            assert forall|i: int| 0 <= i < wheels.len() implies (platform_match(
                #[trigger] wheels[i],
                environment,
            ) matches PlatformMatchView::GlibcTooOld(floor) ==> !version_less(
                floor.components,
                lowest.components,
            )) by {
                if let PlatformMatchView::GlibcTooOld(floor) = platform_match(
                    wheels[i],
                    environment,
                ) {
                    crate::version::version_order_total(lowest.components, lowest.components);
                    if i < last {
                        assert(platform_match(head[i], environment)
                            == PlatformMatchView::GlibcTooOld(floor));
                        if known != Some(lowest) && known is Some {
                            crate::version::version_order_total(
                                lowest.components,
                                known->0.components,
                            );
                            version_order_transitive(
                                lowest.components,
                                known->0.components,
                                floor.components,
                            );
                        }
                    }
                }
            }
        } else {
            assert forall|i: int| 0 <= i < wheels.len() implies !(platform_match(
                #[trigger] wheels[i],
                environment,
            ) is GlibcTooOld) by {
                if i < last {
                    assert(!(platform_match(head[i], environment) is GlibcTooOld));
                }
            }
        }
    }
}

/// Where no tag of a wheel passes, it stays open where one leaves the C library open or it is not
/// known which one there is; else the library is too old for it where a tag names one, and otherwise
/// it is for another platform.
pub proof fn open_tags_leave_the_platform_open(wheel: TorchWheelView, environment: EnvironmentView)
    requires
        environment.platform.os is Linux,
        environment.platform.architecture is X86_64,
        forall|i: int|
            0 <= i < wheel.platform_tags.len() ==> !tag_passes(
                #[trigger] wheel.platform_tags[i],
                environment.glibc,
            ),
    ensures
        platform_match(wheel, environment) is Unknown <==> exists|i: int|
            0 <= i < wheel.platform_tags.len() && (#[trigger] wheel.platform_tags[i]
                == "linux_x86_64"@ || (environment.glibc is None && wheel.platform_tags[i]
                != "any"@ && glibc_floor(wheel.platform_tags[i]) is Some)),
        platform_match(wheel, environment) matches PlatformMatchView::GlibcTooOld(floor)
            ==> exists|i: int|
            0 <= i < wheel.platform_tags.len() && glibc_floor(#[trigger] wheel.platform_tags[i])
                == Some(floor),
        !(platform_match(wheel, environment) is Pass),
{
    let tags = wheel.platform_tags;
    if platform_match(wheel, environment) is Unknown {
        let i = choose|i: int|
            0 <= i < tags.len() && tag_is_open(#[trigger] tags[i], environment.glibc);
        assert(tags[i] == "linux_x86_64"@ || glibc_floor(tags[i]) is Some);
    }
    if exists|i: int|
        0 <= i < tags.len() && (#[trigger] tags[i] == "linux_x86_64"@ || (environment.glibc is None
            && tags[i] != "any"@ && glibc_floor(tags[i]) is Some)) {
        let i = choose|i: int|
            0 <= i < tags.len() && (#[trigger] tags[i] == "linux_x86_64"@ || (
            environment.glibc is None && tags[i] != "any"@ && glibc_floor(tags[i]) is Some));
        assert(tag_is_open(tags[i], environment.glibc));
    }
    floor_is_of_a_tag(tags);
}

proof fn floor_is_of_a_tag(tags: Seq<Seq<char>>)
    ensures
        last_floor(tags) matches Some(floor) ==> exists|i: int|
            0 <= i < tags.len() && glibc_floor(#[trigger] tags[i]) == Some(floor),
    decreases tags.len(),
{
    if tags.len() > 0 {
        let head = tags.drop_last();
        floor_is_of_a_tag(head);
        if let Some(floor) = last_floor(tags) {
            if last_floor(head) == Some(floor) {
                let i = choose|i: int|
                    0 <= i < head.len() && glibc_floor(#[trigger] head[i]) == Some(floor);
                assert(glibc_floor(tags[i]) == Some(floor));
            }
            if tags.last() != "linux_x86_64"@ && glibc_floor(tags.last()) is Some {
                assert(glibc_floor(tags[tags.len() - 1]) == Some(floor));
            }
        }
    }
}

// ---------------------------------------------------------------------------
// Driver

/// The driver passes where it is at least the normal minimum of the variant, or at least the minimum
/// of the family where the normal one is known too. It fails where it is below the minimum of the
/// family, unless it reaches the normal one. Otherwise it is unknown. The minimum that decided is
/// named.
pub proof fn drivers_are_held_against_their_minimums(
    driver: NumericVersionView,
    major: u16,
    family: Option<NumericVersionView>,
    exact: Option<NumericVersionView>,
)
    ensures
        ({
            let check = known_driver_check(driver, major, family, exact);
            let meets_family = family matches Some(minimum) && !version_less(
                driver.components,
                minimum.components,
            );
            let meets_exact = exact matches Some(minimum) && !version_less(
                driver.components,
                minimum.components,
            );
            &&& check.status == CheckStatus::Pass <==> meets_exact || (meets_family
                && exact is Some)
            &&& check.status == CheckStatus::Fail <==> !meets_exact && family is Some
                && !meets_family
            &&& check.status == CheckStatus::Unknown <==> !meets_exact && (family is None || (
            meets_family && exact is None))
            &&& says(check, ReasonCode::DriverSupportsCudaVariant) <==> meets_exact
            &&& says(check, ReasonCode::DriverSupportsCudaFamily) <==> meets_family
            &&& says(check, ReasonCode::UsesCudaMinorCompatibility) <==> !meets_exact
                && meets_family && exact is Some
            &&& says(check, ReasonCode::DriverTooOld) <==> check.status == CheckStatus::Fail
            &&& says(check, ReasonCode::DriverTooOld) ==> lookup(
                check.reasons[0].details,
                "minimum"@,
            ) == Some(family->0.text) && lookup(check.reasons[0].details, "detected"@) == Some(
                driver.text,
            )
            &&& meets_exact ==> lookup(check.reasons.last().details, "minimum"@) == Some(
                exact->0.text,
            )
            &&& meets_family && check.status == CheckStatus::Pass ==> lookup(
                check.reasons[0].details,
                "minimum"@,
            ) == Some(family->0.text)
            &&& says(check, ReasonCode::UsesCudaMinorCompatibility) ==> lookup(
                check.reasons.last().details,
                "normal_minimum"@,
            ) == Some(exact->0.text)
        }),
{
    let check = known_driver_check(driver, major, family, exact);
    reveal_strlit("minimum");
    reveal_strlit("detected");
    reveal_strlit("cuda_major");
    assert("minimum"@[0] == 'm' && "detected"@[0] == 'd' && "cuda_major"@[0] == 'c');
    if let Some(minimum) = family {
        bind_updates_lookup(no_details(), "minimum"@, minimum.text, "minimum"@);
        let one = crate::details::bind(no_details(), "detected"@, driver.text);
        let two = crate::details::bind(one, "minimum"@, minimum.text);
        bind_keeps_ascending(no_details(), "detected"@, driver.text);
        bind_keeps_ascending(one, "minimum"@, minimum.text);
        bind_updates_lookup(no_details(), "detected"@, driver.text, "minimum"@);
        bind_updates_lookup(one, "minimum"@, minimum.text, "detected"@);
        bind_updates_lookup(two, "cuda_major"@, decimal(major as nat), "minimum"@);
        bind_updates_lookup(two, "cuda_major"@, decimal(major as nat), "detected"@);
    }
    if let Some(minimum) = exact {
        bind_updates_lookup(no_details(), "minimum"@, minimum.text, "minimum"@);
        bind_updates_lookup(no_details(), "normal_minimum"@, minimum.text, "normal_minimum"@);
    }
    assert(check.reasons.len() == 1 || check.reasons.len() == 2);
    assert(check.reasons[0].code == check.reasons[0].code);
    assert(check.reasons.last() == check.reasons[check.reasons.len() - 1]);
}

/// The driver of an environment is held against the minimums for the variant and for its major
/// version.
pub proof fn the_minimums_are_those_of_the_variant(
    environment: EnvironmentView,
    major: u16,
    minor: u16,
    rules: RuleSetView,
)
    requires
        environment.nvidia.status != NvidiaDetectionStatus::NoDevices,
    ensures
        ({
            let variant = CudaVariant::Cuda { major, minor };
            let check = driver_check(environment, variant, rules);
            match environment.nvidia.driver_version {
                Some(driver) => check == known_driver_check(
                    driver,
                    major,
                    family_minimum(rules.drivers.families, major),
                    variant_minimum(rules.drivers.variants, variant),
                ),
                None => check.status == CheckStatus::Unknown && says(
                    check,
                    ReasonCode::DriverUnknown,
                ),
            }
        }),
{
    let variant = CudaVariant::Cuda { major, minor };
    let check = driver_check(environment, variant, rules);
    if environment.nvidia.driver_version is None {
        assert(check.reasons[0].code == ReasonCode::DriverUnknown);
    }
}

// ---------------------------------------------------------------------------
// Architecture

proof fn unsupported_are_listed(
    gpus: Seq<NvidiaGpuView>,
    rule: GpuArchitectureRuleView,
    place: int,
)
    requires
        0 <= place < gpus.len(),
        gpus[place].compute_capability matches Some(device) && !crate::checks::device_supported(
            rule,
            device,
        ),
        forall|i: int|
            0 <= i < gpus.len() && i != place ==> ((
            #[trigger] gpus[i]).compute_capability matches Some(device)
                && crate::checks::device_supported(rule, device)),
    ensures
        unsupported_devices(gpus, rule) == seq![
            capability_text(gpus[place].compute_capability->0),
        ],
    decreases gpus.len(),
{
    let head = gpus.drop_last();
    assert(gpus.last() == gpus[gpus.len() - 1]);
    if place < head.len() {
        assert(head[place] == gpus[place]);
        assert forall|i: int| 0 <= i < head.len() && i != place implies ((
        #[trigger] head[i]).compute_capability matches Some(device)
            && crate::checks::device_supported(rule, device)) by {
            assert(head[i] == gpus[i]);
        }
        unsupported_are_listed(head, rule, place);
    } else {
        all_supported(head, rule);
        assert(unsupported_devices(gpus, rule) =~= seq![
            capability_text(gpus[place].compute_capability->0),
        ]);
    }
}

proof fn all_supported(gpus: Seq<NvidiaGpuView>, rule: GpuArchitectureRuleView)
    ensures
        (forall|i: int|
            0 <= i < gpus.len() ==> ((#[trigger] gpus[i]).compute_capability matches Some(device)
                && crate::checks::device_supported(rule, device))) ==> unsupported_devices(
            gpus,
            rule,
        ) == Seq::<Seq<char>>::empty(),
    decreases gpus.len(),
{
    if gpus.len() > 0 && forall|i: int|
        0 <= i < gpus.len() ==> ((#[trigger] gpus[i]).compute_capability matches Some(device)
            && crate::checks::device_supported(rule, device)) {
        let head = gpus.drop_last();
        assert forall|i: int| 0 <= i < head.len() implies ((
        #[trigger] head[i]).compute_capability matches Some(device)
            && crate::checks::device_supported(rule, device)) by {
            assert(head[i] == gpus[i]);
        }
        all_supported(head, rule);
        assert(gpus.last() == gpus[gpus.len() - 1]);
    }
}

/// The capability of a processor for which there is no code is named.
pub proof fn unsupported_processors_are_named(
    environment: EnvironmentView,
    version: Seq<char>,
    variant: CudaVariant,
    rules: RuleSetView,
    place: int,
)
    requires
        variant is Cuda,
        environment.nvidia.status != NvidiaDetectionStatus::NoDevices,
        0 <= place < environment.nvidia.gpus.len(),
        forall|i: int|
            0 <= i < environment.nvidia.gpus.len() ==> (
            #[trigger] environment.nvidia.gpus[i]).compute_capability is Some,
    ensures
        covering_rule(rules.releases.gpu_architectures, version, variant) matches Some(rule) ==> ((
        forall|i: int|
            0 <= i < environment.nvidia.gpus.len() ==> (some_code_runs(
                rule,
                (#[trigger] environment.nvidia.gpus[i]).compute_capability->0,
            ) <==> i != place)) ==> {
            let check = gpu_check(environment, version, variant, rules);
            let device = environment.nvidia.gpus[place].compute_capability->0;
            &&& check.status == CheckStatus::Fail
            &&& check.reasons.len() == 1
            &&& check.reasons[0].code == ReasonCode::GpuArchitectureUnsupported
            &&& lookup(check.reasons[0].details, "capabilities"@) == Some(
                decimal(device.major as nat) + "."@ + decimal(device.minor as nat),
            )
        }),
{
    let gpus = environment.nvidia.gpus;
    if let Some(rule) = covering_rule(rules.releases.gpu_architectures, version, variant) {
        if forall|i: int|
            0 <= i < gpus.len() ==> (some_code_runs(
                rule,
                (#[trigger] gpus[i]).compute_capability->0,
            ) <==> i != place) {
            assert forall|i: int| 0 <= i < gpus.len() implies (
            #[trigger] crate::checks::device_supported(rule, gpus[i].compute_capability->0)
                == some_code_runs(rule, gpus[i].compute_capability->0)) by {
                code_runs_where_supported(rule, gpus[i].compute_capability->0);
            }
            assert(!some_code_runs(rule, gpus[place].compute_capability->0));
            assert(!crate::checks::device_supported(rule, gpus[place].compute_capability->0));
            assert forall|i: int| 0 <= i < gpus.len() && i != place implies ((
            #[trigger] gpus[i]).compute_capability matches Some(device)
                && crate::checks::device_supported(rule, device)) by {
                assert(some_code_runs(rule, gpus[i].compute_capability->0));
                assert(crate::checks::device_supported(rule, gpus[i].compute_capability->0));
            }
            unsupported_are_listed(gpus, rule, place);
            let text = capability_text(gpus[place].compute_capability->0);
            assert(join(seq![text], ","@) == text) by {
                assert(seq![text][0] == text);
                reveal_with_fuel(join, 2);
            }
            bind_updates_lookup(no_details(), "capabilities"@, text, "capabilities"@);
        }
    }
}

proof fn code_runs_where_supported(rule: GpuArchitectureRuleView, device: ComputeCapability)
    ensures
        crate::checks::device_supported(rule, device) == some_code_runs(rule, device),
{
    if crate::checks::device_supported(rule, device) {
        if exists|i: int|
            0 <= i < rule.cubin_capabilities.len() && crate::checks::cubin_runs(
                #[trigger] rule.cubin_capabilities[i],
                device,
            ) {
            let i = choose|i: int|
                0 <= i < rule.cubin_capabilities.len() && crate::checks::cubin_runs(
                    #[trigger] rule.cubin_capabilities[i],
                    device,
                );
            assert(crate::checks::cubin_runs(rule.cubin_capabilities[i], device));
        }
    }
}

} // verus!
