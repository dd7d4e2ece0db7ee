//! When a wheel suits a host: devices, drivers, interpreters and platforms.

use crate::checks::{
    abi_fits, aggregate, driver_check, glibc_floor, gpu_check, has_reason, pair_fits,
    platform_match, platform_result, python_wheels, tag_begins_with, tag_is_open, tag_passes,
    unsupported_devices, wheel_fits, PlatformMatchView,
};
use crate::filenames::first_separator_splits;
use crate::model::{
    parsed_capability, CheckStatus, CompatibilityChecksView, CompatibilityStatus, ComputeCapability,
    CudaVariant, EnvironmentView, NvidiaDetectionStatus, NvidiaGpuView, PythonInfoView, ReasonCode,
    TorchWheelView,
};
use crate::order::{kept_members, Order};
use crate::outside::{pep440_contains, pep440_order};
use crate::pieces::{
    after_prefix, join, join_split_round_trip, split_first, split_on, trim_end_char,
};
use crate::rules::{
    covering_rule, family_minimum, variant_minimum, DriverFamilyRuleView, DriverVariantRuleView,
    GpuArchitectureRuleView, RuleSetView,
};
use crate::text::{decimal, decimal_round_trip, digit, unsigned};
use crate::version::{
    component_at, component_texts, parsed_version, version_less, version_order_total,
    version_round_trip, NumericVersionView,
};
use vstd::prelude::*;

verus! {

// ---------------------------------------------------------------------------
// Devices

/// Whether the capability `left` is below `right`.
pub open spec fn below(left: ComputeCapability, right: ComputeCapability) -> bool {
    left.major < right.major || left.major == right.major && left.minor < right.minor
}

/// Whether native code of the capability that `text` writes runs on a device: it is of the same
/// major number, and its minor number is not above that of the device.
pub open spec fn native_code_runs(text: Seq<char>, device: ComputeCapability) -> bool {
    parsed_capability(text) matches Ok(built) && built.major == device.major && !(built.minor
        > device.minor)
}

/// Whether some code of wheels built as `rule` says runs on a device: native code, or PTX of a
/// capability that is not above that of the device.
pub open spec fn some_code_runs(rule: GpuArchitectureRuleView, device: ComputeCapability) -> bool {
    ||| exists|i: int|
        0 <= i < rule.cubin_capabilities.len() && native_code_runs(
            #[trigger] rule.cubin_capabilities[i],
            device,
        )
    ||| (rule.ptx_capability matches Some(text) && (parsed_capability(text) matches Ok(ptx)
        && !below(device, ptx)))
}

proof fn devices_without_code(gpus: Seq<NvidiaGpuView>, rule: GpuArchitectureRuleView)
    requires
        forall|i: int| 0 <= i < gpus.len() ==> (#[trigger] gpus[i]).compute_capability is Some,
    ensures
        unsupported_devices(gpus, rule).len() == 0 <==> forall|i: int|
            0 <= i < gpus.len() ==> some_code_runs(
                rule,
                (#[trigger] gpus[i]).compute_capability->0,
            ),
    decreases gpus.len(),
{
    if gpus.len() > 0 {
        let head = gpus.drop_last();
        let last = gpus[gpus.len() - 1];
        let device = last.compute_capability->0;
        assert forall|i: int| 0 <= i < head.len() implies (#[trigger] head[i]).compute_capability
            is Some by {
            assert(head[i] == gpus[i]);
        }
        devices_without_code(head, rule);
        assert(some_code_runs(rule, device) == crate::checks::device_supported(rule, device)) by {
            assert forall|i: int| 0 <= i < rule.cubin_capabilities.len() implies native_code_runs(
                #[trigger] rule.cubin_capabilities[i],
                device,
            ) == crate::checks::cubin_runs(rule.cubin_capabilities[i], device) by {}
        }
        if unsupported_devices(head, rule).len() == 0 && some_code_runs(rule, device) {
            assert forall|i: int| 0 <= i < gpus.len() implies some_code_runs(
                rule,
                (#[trigger] gpus[i]).compute_capability->0,
            ) by {
                if i < head.len() {
                    assert(head[i] == gpus[i]);
                }
            }
        }
        if unsupported_devices(head, rule).len() > 0 {
            let bad = choose|i: int|
                0 <= i < head.len() && !some_code_runs(
                    rule,
                    (#[trigger] head[i]).compute_capability->0,
                );
            assert(gpus[bad] == head[bad]);
        }
        assert(gpus.last() == gpus[gpus.len() - 1]);
    }
}

proof fn evidence_is_listed(
    rules: Seq<GpuArchitectureRuleView>,
    version: Seq<char>,
    variant: CudaVariant,
)
    ensures
        covering_rule(rules, version, variant) matches Some(rule) ==> rules.contains(rule)
            && rule.platform == "linux_x86_64"@ && rule.variants.contains(variant) && exists|i: int|
            0 <= i < rule.versions.len() && pep440_order(#[trigger] rule.versions[i], version)
                == Some(Order::Equal),
        covering_rule(rules, version, variant) is None ==> forall|k: int, i: int|
            #![trigger rules[k].versions[i]]
            0 <= k < rules.len() && 0 <= i < rules[k].versions.len() && rules[k].platform
                == "linux_x86_64"@ && rules[k].variants.contains(variant) ==> pep440_order(
                rules[k].versions[i],
                version,
            ) != Some(Order::Equal),
    decreases rules.len(),
{
    if rules.len() > 0 {
        let rest = rules.skip(1);
        evidence_is_listed(rest, version, variant);
        if crate::rules::rule_covers(rules[0], version, variant) {
            assert(rules.contains(rules[0]));
        } else if let Some(rule) = covering_rule(rest, version, variant) {
            let k = choose|k: int| 0 <= k < rest.len() && rest[k] == rule;
            assert(rules[k + 1] == rule);
        } else {
            assert forall|k: int, i: int|
                #![trigger rules[k].versions[i]]
                0 <= k < rules.len() && 0 <= i < rules[k].versions.len() && rules[k].platform
                    == "linux_x86_64"@ && rules[k].variants.contains(variant) implies pep440_order(
                rules[k].versions[i],
                version,
            ) != Some(Order::Equal) by {
                if k > 0 {
                    assert(rest[k - 1].versions[i] == rules[k].versions[i]);
                }
            }
        }
    }
}

/// The GPU architecture check of a CUDA wheel passes exactly where there is a device, the capability
/// of each is known, there is evidence for the version and the variant on this platform, and on
/// each device some code runs. It fails exactly where there are no devices, or all that is known
/// and no code runs on one of them.
pub proof fn architecture_passes_where_code_runs(
    environment: EnvironmentView,
    version: Seq<char>,
    variant: CudaVariant,
    rules: RuleSetView,
)
    requires
        variant is Cuda,
    ensures
        ({
            let gpus = environment.nvidia.gpus;
            let check = gpu_check(environment, version, variant, rules);
            let evidence = covering_rule(rules.releases.gpu_architectures, version, variant);
            let known = gpus.len() > 0 && forall|i: int|
                0 <= i < gpus.len() ==> (#[trigger] gpus[i]).compute_capability is Some;
            let none = environment.nvidia.status == NvidiaDetectionStatus::NoDevices;
            &&& check.status == CheckStatus::Pass <==> !none && known && (evidence matches Some(
                rule,
            ) && forall|i: int|
                0 <= i < gpus.len() ==> some_code_runs(
                    rule,
                    (#[trigger] gpus[i]).compute_capability->0,
                ))
            &&& check.status == CheckStatus::Fail <==> none || known && (evidence matches Some(rule)
                && exists|i: int|
                0 <= i < gpus.len() && !some_code_runs(
                    rule,
                    (#[trigger] gpus[i]).compute_capability->0,
                ))
            &&& check.status != CheckStatus::NotApplicable
        }),
        covering_rule(rules.releases.gpu_architectures, version, variant) matches Some(rule)
            ==> rules.releases.gpu_architectures.contains(rule) && rule.platform
            == "linux_x86_64"@ && rule.variants.contains(variant) && exists|i: int|
            0 <= i < rule.versions.len() && pep440_order(#[trigger] rule.versions[i], version)
                == Some(Order::Equal),
        covering_rule(rules.releases.gpu_architectures, version, variant) is None
            ==> forall|k: int, i: int|
            #![trigger rules.releases.gpu_architectures[k].versions[i]]
            0 <= k < rules.releases.gpu_architectures.len() && 0 <= i
                < rules.releases.gpu_architectures[k].versions.len()
                && rules.releases.gpu_architectures[k].platform == "linux_x86_64"@
                && rules.releases.gpu_architectures[k].variants.contains(variant) ==> pep440_order(
                rules.releases.gpu_architectures[k].versions[i],
                version,
            ) != Some(Order::Equal),
{
    let gpus = environment.nvidia.gpus;
    evidence_is_listed(rules.releases.gpu_architectures, version, variant);
    if forall|i: int| 0 <= i < gpus.len() ==> (#[trigger] gpus[i]).compute_capability is Some {
        if let Some(rule) = covering_rule(rules.releases.gpu_architectures, version, variant) {
            devices_without_code(gpus, rule);
        }
    }
}

/// A device that is below everything a wheel was built for fails the GPU architecture check.
pub proof fn device_below_all_code_fails(
    environment: EnvironmentView,
    version: Seq<char>,
    variant: CudaVariant,
    rules: RuleSetView,
    place: int,
)
    requires
        variant is Cuda,
        environment.nvidia.status != NvidiaDetectionStatus::NoDevices,
        0 <= place < environment.nvidia.gpus.len(),
        forall|i: int|
            0 <= i < environment.nvidia.gpus.len() ==> (
            #[trigger] environment.nvidia.gpus[i]).compute_capability is Some,
    ensures
        ({
            let device = environment.nvidia.gpus[place].compute_capability->0;
            covering_rule(rules.releases.gpu_architectures, version, variant) matches Some(rule)
                ==> (forall|i: int|
                0 <= i < rule.cubin_capabilities.len() ==> (parsed_capability(
                    #[trigger] rule.cubin_capabilities[i],
                ) matches Ok(built) ==> below(device, built))) && (rule.ptx_capability matches Some(
                text,
            ) ==> (parsed_capability(text) matches Ok(ptx) ==> below(device, ptx))) ==> gpu_check(
                environment,
                version,
                variant,
                rules,
            ).status == CheckStatus::Fail
        }),
{
    architecture_passes_where_code_runs(environment, version, variant, rules);
    let device = environment.nvidia.gpus[place].compute_capability->0;
    if let Some(rule) = covering_rule(rules.releases.gpu_architectures, version, variant) {
        if (forall|i: int|
            0 <= i < rule.cubin_capabilities.len() ==> (parsed_capability(
                #[trigger] rule.cubin_capabilities[i],
            ) matches Ok(built) ==> below(device, built))) && (rule.ptx_capability matches Some(
            text,
        ) ==> (parsed_capability(text) matches Ok(ptx) ==> below(device, ptx))) {
            assert(!some_code_runs(rule, device));
            assert(!some_code_runs(
                rule,
                environment.nvidia.gpus[place].compute_capability->0,
            ));
        }
    }
}

/// A CPU wheel needs neither a device nor a driver.
pub proof fn cpu_needs_no_device(
    environment: EnvironmentView,
    version: Seq<char>,
    rules: RuleSetView,
)
    ensures
        gpu_check(environment, version, CudaVariant::Cpu, rules).status
            == CheckStatus::NotApplicable,
        driver_check(environment, CudaVariant::Cpu, rules).status == CheckStatus::NotApplicable,
{
}

// ---------------------------------------------------------------------------
// Drivers

/// A version is below another one where it is smaller in a component before which all are equal,
/// whatever follows.
pub proof fn first_difference_decides(
    equal: Seq<u32>,
    low: u32,
    high: u32,
    left: Seq<u32>,
    right: Seq<u32>,
)
    requires
        low < high,
    ensures
        version_less(equal.push(low) + left, equal.push(high) + right),
        !version_less(equal.push(high) + right, equal.push(low) + left),
        !version_less(equal, equal),
{
    let one = equal.push(low) + left;
    let other = equal.push(high) + right;
    let at = equal.len() as int;
    assert(component_at(one, at) == low && component_at(other, at) == high);
    assert forall|j: int| 0 <= j < at implies #[trigger] component_at(one, j) == component_at(
        other,
        j,
    ) by {}
    assert(version_less(one, other));
    version_order_total(one, other);
    version_order_total(equal, equal);
}

proof fn family_minimum_is_of_the_family(rules: Seq<DriverFamilyRuleView>, major: u16)
    ensures
        family_minimum(rules, major) matches Some(minimum) ==> exists|i: int|
            0 <= i < rules.len() && (#[trigger] rules[i]).cuda_major == major
                && rules[i].linux_min_driver == minimum,
        family_minimum(rules, major) is None ==> forall|i: int|
            0 <= i < rules.len() ==> (#[trigger] rules[i]).cuda_major != major,
    decreases rules.len(),
{
    if rules.len() > 0 {
        let rest = rules.skip(1);
        family_minimum_is_of_the_family(rest, major);
        if rules[0].cuda_major != major {
            if let Some(minimum) = family_minimum(rest, major) {
                let k = choose|i: int|
                    0 <= i < rest.len() && (#[trigger] rest[i]).cuda_major == major
                        && rest[i].linux_min_driver == minimum;
                assert(rules[k + 1] == rest[k]);
            } else {
                assert forall|i: int| 0 <= i < rules.len() implies (#[trigger] rules[i]).cuda_major
                    != major by {
                    if i > 0 {
                        assert(rest[i - 1] == rules[i]);
                    }
                }
            }
        }
    }
}

proof fn variant_minimum_is_of_the_variant(
    rules: Seq<DriverVariantRuleView>,
    variant: CudaVariant,
)
    ensures
        variant_minimum(rules, variant) matches Some(minimum) ==> exists|i: int|
            0 <= i < rules.len() && (#[trigger] rules[i]).variant == variant
                && rules[i].linux_min_driver == minimum,
        variant_minimum(rules, variant) is None ==> forall|i: int|
            0 <= i < rules.len() ==> (#[trigger] rules[i]).variant != variant,
    decreases rules.len(),
{
    if rules.len() > 0 {
        let rest = rules.skip(1);
        variant_minimum_is_of_the_variant(rest, variant);
        if rules[0].variant != variant {
            if let Some(minimum) = variant_minimum(rest, variant) {
                let k = choose|i: int|
                    0 <= i < rest.len() && (#[trigger] rest[i]).variant == variant
                        && rest[i].linux_min_driver == minimum;
                assert(rules[k + 1] == rest[k]);
            } else {
                assert forall|i: int| 0 <= i < rules.len() implies (#[trigger] rules[i]).variant
                    != variant by {
                    if i > 0 {
                        assert(rest[i - 1] == rules[i]);
                    }
                }
            }
        }
    }
}

/// The driver check of a CUDA wheel. Where each CUDA family and each variant has one minimum, it
/// passes exactly where the driver is known and not below the minimum of the variant, or the
/// variant has a minimum and the driver is not below that of its family; only the second takes the
/// driver for compatible within the family. It fails exactly where there are no devices, or the
/// driver is known and below both what the family asks for and what the variant asks for.
pub proof fn driver_passes_where_a_minimum_is_met(
    environment: EnvironmentView,
    major: u16,
    minor: u16,
    rules: RuleSetView,
    family: int,
    exact: int,
)
    requires
        0 <= family < rules.drivers.families.len(),
        0 <= exact < rules.drivers.variants.len(),
        rules.drivers.families[family].cuda_major == major,
        rules.drivers.variants[exact].variant == (CudaVariant::Cuda { major, minor }),
        forall|i: int|
            0 <= i < rules.drivers.families.len() && (
            #[trigger] rules.drivers.families[i]).cuda_major == major ==> i == family,
        forall|i: int|
            0 <= i < rules.drivers.variants.len() && (#[trigger] rules.drivers.variants[i]).variant
                == (CudaVariant::Cuda { major, minor }) ==> i == exact,
    ensures
        ({
            let check = driver_check(environment, CudaVariant::Cuda { major, minor }, rules);
            let none = environment.nvidia.status == NvidiaDetectionStatus::NoDevices;
            let least = rules.drivers.families[family].linux_min_driver.components;
            let normal = rules.drivers.variants[exact].linux_min_driver.components;
            match environment.nvidia.driver_version {
                None => check.status == (if none {
                    CheckStatus::Fail
                } else {
                    CheckStatus::Unknown
                }),
                Some(driver) => {
                    let meets_normal = !version_less(driver.components, normal);
                    let meets_least = !version_less(driver.components, least);
                    &&& check.status == (if !none && (meets_normal || meets_least) {
                        CheckStatus::Pass
                    } else {
                        CheckStatus::Fail
                    })
                    &&& !none ==> (has_reason(check, ReasonCode::UsesCudaMinorCompatibility)
                        <==> meets_least && !meets_normal)
                },
            }
        }),
{
    let variant = CudaVariant::Cuda { major, minor };
    let check = driver_check(environment, variant, rules);
    family_minimum_is_of_the_family(rules.drivers.families, major);
    variant_minimum_is_of_the_variant(rules.drivers.variants, variant);
    let least = rules.drivers.families[family].linux_min_driver;
    let normal = rules.drivers.variants[exact].linux_min_driver;
    assert(family_minimum(rules.drivers.families, major) == Some(least));
    assert(variant_minimum(rules.drivers.variants, variant) == Some(normal));
    if environment.nvidia.status != NvidiaDetectionStatus::NoDevices {
        if let Some(driver) = environment.nvidia.driver_version {
            if version_less(driver.components, normal.components) && !version_less(
                driver.components,
                least.components,
            ) {
                assert(check.reasons[1].code == ReasonCode::UsesCudaMinorCompatibility);
            } else {
                assert forall|i: int| 0 <= i < check.reasons.len() implies (
                #[trigger] check.reasons[i]).code != ReasonCode::UsesCudaMinorCompatibility by {}
            }
        }
    }
}

/// A CUDA wheel whose variant has no minimum of its own never passes the driver check.
pub proof fn unknown_minimum_never_passes(
    environment: EnvironmentView,
    variant: CudaVariant,
    rules: RuleSetView,
)
    requires
        variant is Cuda,
        forall|i: int|
            0 <= i < rules.drivers.variants.len() ==> (#[trigger] rules.drivers.variants[i]).variant
                != variant,
    ensures
        driver_check(environment, variant, rules).status != CheckStatus::Pass,
        driver_check(environment, variant, rules).status != CheckStatus::NotApplicable,
{
    variant_minimum_is_of_the_variant(rules.drivers.variants, variant);
}

// ---------------------------------------------------------------------------
// The state

/// A candidate that was not validated dynamically is compatible only where each dimension passed or
/// does not apply; where one failed it is incompatible or unavailable, and where one is unknown
/// it is not compatible. Compatible within the family is what uses minor compatibility.
pub proof fn state_sums_up_the_dimensions(checks: CompatibilityChecksView)
    requires
        checks.runtime.status != CheckStatus::Pass,
    ensures
        ({
            let state = aggregate(checks);
            let compatible = state == CompatibilityStatus::DirectCompatible || state
                == CompatibilityStatus::MinorCompatible;
            let out = state == CompatibilityStatus::Incompatible || state
                == CompatibilityStatus::Unavailable;
            let done = |status: CheckStatus|
                status == CheckStatus::Pass || status == CheckStatus::NotApplicable;
            &&& state != CompatibilityStatus::Verified
            &&& compatible ==> done(checks.wheel.status) && done(checks.python.status) && done(
                checks.platform.status,
            ) && done(checks.gpu_architecture.status) && done(checks.driver.status)
            &&& checks.wheel.status == CheckStatus::Fail || checks.python.status
                == CheckStatus::Fail || checks.platform.status == CheckStatus::Fail
                || checks.gpu_architecture.status == CheckStatus::Fail || checks.driver.status
                == CheckStatus::Fail ==> out
            &&& checks.python.status == CheckStatus::Fail ==> state
                == CompatibilityStatus::Unavailable
            &&& compatible ==> (state == CompatibilityStatus::MinorCompatible <==> exists|i: int|
                0 <= i < checks.driver.reasons.len() && (#[trigger] checks.driver.reasons[i]).code
                    == ReasonCode::UsesCudaMinorCompatibility)
        }),
{
}

// ---------------------------------------------------------------------------
// Interpreters

proof fn dashed_tag(python_tag: Seq<char>, abi: Seq<char>, rest: Seq<char>)
    requires
        !python_tag.contains('-'),
        !abi.contains('-'),
        !rest.contains('-'),
    ensures
        split_on(python_tag + "-"@ + abi + "-"@ + rest, '-') == seq![python_tag, abi, rest],
{
    reveal_strlit("-");
    assert("-"@ =~= seq!['-']);
    let parts = seq![python_tag, abi, rest];
    assert forall|i: int| 0 <= i < parts.len() implies !(#[trigger] parts[i]).contains('-') by {}
    join_split_round_trip(parts, '-');
    assert(parts.drop_last() =~= seq![python_tag, abi]);
    assert(parts.drop_last().drop_last() =~= seq![python_tag]);
    assert(join(parts, "-"@) =~= python_tag + "-"@ + abi + "-"@ + rest) by {
        reveal_with_fuel(join, 4);
    }
}

/// A wheel fits an interpreter that lists one of its Python tags together with one of its ABI tags.
pub proof fn listed_tags_fit(
    wheel: TorchWheelView,
    python: PythonInfoView,
    i: int,
    j: int,
    rest: Seq<char>,
)
    requires
        0 <= i < wheel.python_tags.len(),
        0 <= j < wheel.abi_tags.len(),
        !wheel.python_tags[i].contains('-'),
        !wheel.abi_tags[j].contains('-'),
        !rest.contains('-'),
        python.compatible_tags.contains(
            wheel.python_tags[i] + "-"@ + wheel.abi_tags[j] + "-"@ + rest,
        ),
    ensures
        abi_fits(wheel, python),
{
    let tag = wheel.python_tags[i] + "-"@ + wheel.abi_tags[j] + "-"@ + rest;
    dashed_tag(wheel.python_tags[i], wheel.abi_tags[j], rest);
    let k = choose|k: int| 0 <= k < python.compatible_tags.len() && python.compatible_tags[k] == tag;
    assert(tag_begins_with(
        python.compatible_tags[k],
        wheel.python_tags[i],
        wheel.abi_tags[j],
    ));
    assert(pair_fits(python, wheel.python_tags[i], wheel.abi_tags[j]));
}

/// The ABI tag of CPython, without the mark of free threading.
pub open spec fn cpython_tag(python: PythonInfoView) -> Seq<char> {
    "cp"@ + decimal(component_at(python.version.components, 0) as nat) + decimal(
        component_at(python.version.components, 1) as nat,
    )
}

proof fn trimmed_tag(python: PythonInfoView)
    requires
        python.implementation == "cpython"@,
    ensures
        crate::model::abi_tag(python) == Some(
            if python.free_threaded {
                cpython_tag(python) + "t"@
            } else {
                cpython_tag(python)
            },
        ),
        trim_end_char(cpython_tag(python) + "t"@, 't') == cpython_tag(python),
        trim_end_char(cpython_tag(python), 't') == cpython_tag(python),
{
    let tag = cpython_tag(python);
    let minor = decimal(component_at(python.version.components, 1) as nat);
    reveal_strlit("t");
    reveal_strlit("");
    decimal_round_trip(component_at(python.version.components, 1) as nat);
    assert(digit(minor[minor.len() - 1]));
    assert(tag.last() == minor[minor.len() - 1]);
    assert(tag.last() != 't');
    assert((tag + "t"@).drop_last() =~= tag);
    assert(tag + ""@ =~= tag);
    reveal_with_fuel(trim_end_char, 3);
}

/// A wheel for the CPython version of the interpreter fits it: with the free-threaded ABI exactly
/// where the interpreter is free-threaded, as far as the interpreter lists nothing else.
pub proof fn native_wheels_fit(wheel: TorchWheelView, python: PythonInfoView, i: int, j: int)
    requires
        0 <= i < wheel.python_tags.len(),
        0 <= j < wheel.abi_tags.len(),
        python.implementation == "cpython"@,
        wheel.python_tags[i] == cpython_tag(python),
        wheel.abi_tags[j] == (if python.free_threaded {
            cpython_tag(python) + "t"@
        } else {
            cpython_tag(python)
        }),
    ensures
        abi_fits(wheel, python),
{
    trimmed_tag(python);
    assert(pair_fits(python, wheel.python_tags[i], wheel.abi_tags[j]));
}

/// Whether an interpreter lists a tag that begins with a Python tag and an ABI tag.
pub open spec fn lists(python: PythonInfoView, python_tag: Seq<char>, abi: Seq<char>) -> bool {
    exists|k: int, rest: Seq<char>|
        0 <= k < python.compatible_tags.len() && #[trigger] python.compatible_tags[k] == python_tag
            + "-"@ + abi + #[trigger] (""@ + rest) && (rest.len() == 0 || rest[0] == '-')
}

proof fn beginning_of_a_tag(tag: Seq<char>, python_tag: Seq<char>, abi: Seq<char>)
    requires
        tag_begins_with(tag, python_tag, abi),
    ensures
        exists|rest: Seq<char>|
            tag == python_tag + "-"@ + abi + #[trigger] (""@ + rest) && (rest.len() == 0 || rest[0]
                == '-'),
{
    reveal_strlit("-");
    reveal_strlit("");
    assert("-"@ =~= seq!['-']);
    let parts = split_on(tag, '-');
    crate::pieces::split_join_round_trip(tag, '-');
    leading_two(parts);
    let rest = choose|rest: Seq<char>|
        join(parts, "-"@) == parts[0] + "-"@ + parts[1] + rest && (rest.len() == 0 || rest[0]
            == '-');
    assert(tag =~= python_tag + "-"@ + abi + (""@ + rest));
}

proof fn leading_two(parts: Seq<Seq<char>>)
    requires
        parts.len() >= 2,
    ensures
        exists|rest: Seq<char>|
            join(parts, "-"@) == parts[0] + "-"@ + parts[1] + rest && (rest.len() == 0 || rest[0]
                == '-'),
    decreases parts.len(),
{
    reveal_strlit("-");
    let head = parts.drop_last();
    if parts.len() == 2 {
        assert(join(head, "-"@) == parts[0]);
        let rest = Seq::<char>::empty();
        assert(join(parts, "-"@) =~= parts[0] + "-"@ + parts[1] + rest);
    } else {
        leading_two(head);
        let known = choose|rest: Seq<char>|
            join(head, "-"@) == head[0] + "-"@ + head[1] + rest && (rest.len() == 0 || rest[0]
                == '-');
        let rest = known + "-"@ + parts.last();
        assert(join(parts, "-"@) =~= parts[0] + "-"@ + parts[1] + rest);
        assert(rest[0] == '-');
    }
}

/// A wheel does not fit an interpreter for which none of its tags is meant: the interpreter lists
/// none of the pairs, none of the ABI tags is its own, the stable ABI, or none at all.
pub proof fn foreign_wheels_do_not_fit(wheel: TorchWheelView, python: PythonInfoView)
    requires
        forall|i: int, j: int|
            0 <= i < wheel.python_tags.len() && 0 <= j < wheel.abi_tags.len() ==> !lists(
                python,
                #[trigger] wheel.python_tags[i],
                #[trigger] wheel.abi_tags[j],
            ),
        python.implementation != "cpython"@ || forall|j: int|
            0 <= j < wheel.abi_tags.len() ==> #[trigger] wheel.abi_tags[j] != "none"@
                && wheel.abi_tags[j] != "abi3"@ && wheel.abi_tags[j] != (if python.free_threaded {
                cpython_tag(python) + "t"@
            } else {
                cpython_tag(python)
            }),
    ensures
        !abi_fits(wheel, python),
{
    if abi_fits(wheel, python) {
        let (i, j) = choose|i: int, j: int|
            0 <= i < wheel.python_tags.len() && 0 <= j < wheel.abi_tags.len() && pair_fits(
                python,
                #[trigger] wheel.python_tags[i],
                #[trigger] wheel.abi_tags[j],
            );
        let python_tag = wheel.python_tags[i];
        let abi = wheel.abi_tags[j];
        if python.implementation == "cpython"@ {
            trimmed_tag(python);
        }
        assert(crate::checks::lists_pair(python, python_tag, abi));
        let k = choose|k: int|
            0 <= k < python.compatible_tags.len() && tag_begins_with(
                #[trigger] python.compatible_tags[k],
                python_tag,
                abi,
            );
        beginning_of_a_tag(python.compatible_tags[k], python_tag, abi);
        assert(lists(python, python_tag, abi));
    }
}

/// A stable-ABI wheel for CPython 3 fits an interpreter that is not free-threaded and lists nothing
/// else exactly where it was built for the same or an older minor version.
pub proof fn stable_abi_fits_newer_interpreters(python: PythonInfoView, minor: nat)
    requires
        python.implementation == "cpython"@,
        minor <= u32::MAX,
        !lists(python, "cp3"@ + decimal(minor), "abi3"@),
    ensures
        pair_fits(python, "cp3"@ + decimal(minor), "abi3"@) <==> !python.free_threaded && minor
            <= component_at(python.version.components, 1),
{
    let tag = "cp3"@ + decimal(minor);
    reveal_strlit("cp3");
    reveal_strlit("abi3");
    reveal_strlit("py3");
    reveal_strlit("cp");
    assert("cp3"@.is_prefix_of(tag)) by {
        assert(tag.subrange(0, 3) =~= "cp3"@);
    }
    assert(tag.skip(3) =~= decimal(minor));
    decimal_round_trip(minor);
    assert(digit(decimal(minor)[0]));
    assert(unsigned(decimal(minor), u32::MAX as nat) == Some(minor));
    trimmed_tag(python);
    let own = cpython_tag(python);
    assert(own[0] == 'c' && "abi3"@[0] == 'a');
    assert((own + "t"@)[0] == 'c');
    assert("py3"@[0] == 'p' && tag[0] == 'c');
    assert("cp3"@.len() == 3);
    if crate::checks::lists_pair(python, tag, "abi3"@) {
        let k = choose|k: int|
            0 <= k < python.compatible_tags.len() && tag_begins_with(
                #[trigger] python.compatible_tags[k],
                tag,
                "abi3"@,
            );
        beginning_of_a_tag(python.compatible_tags[k], tag, "abi3"@);
        assert(lists(python, tag, "abi3"@));
    }
}

/// The wheels that are taken for an interpreter are those given that are not withdrawn, whose
/// `requires-python` it satisfies and whose tags fit it; none is taken without an interpreter.
pub proof fn taken_wheels_fit(
    python: Option<PythonInfoView>,
    wheels: Seq<TorchWheelView>,
    wheel: TorchWheelView,
)
    ensures
        python_wheels(python, wheels).contains(wheel) <==> (python matches Some(known)
            && wheels.contains(wheel) && !wheel.yanked && abi_fits(wheel, known) && (
        wheel.requires_python matches Some(text) ==> pep440_contains(text, known.version.text)
            == Some(true))),
{
    if let Some(known) = python {
        let keep = |wheel: TorchWheelView| wheel_fits(wheel, known) && !wheel.yanked;
        kept_members(wheels, keep, wheel);
    }
}

// ---------------------------------------------------------------------------
// Platforms

/// The tag of a wheel for x86-64 that needs this version of glibc.
pub open spec fn manylinux_tag(major: nat, minor: nat) -> Seq<char> {
    "manylinux_"@ + decimal(major) + "_"@ + decimal(minor) + "_x86_64"@
}

proof fn two_components(major: u32, minor: u32)
    ensures
        parsed_version(decimal(major as nat) + "."@ + decimal(minor as nat)) matches Ok(version)
            && version.components == seq![major, minor],
{
    let components = seq![major, minor];
    let texts = component_texts(components);
    version_round_trip(components);
    assert(texts.drop_last() =~= seq![decimal(major as nat)]);
    assert(join(texts.drop_last(), "."@) == decimal(major as nat));
    assert(join(texts, "."@) == decimal(major as nat) + "."@ + decimal(minor as nat));
}

/// A `manylinux` tag for x86-64 asks for the version of glibc that it writes, and is satisfied
/// exactly where that of the host is known and not below it; where that is not known nothing is
/// known about the tag.
pub proof fn manylinux_asks_for_its_glibc(
    major: u32,
    minor: u32,
    glibc: Option<NumericVersionView>,
)
    ensures
        ({
            let tag = manylinux_tag(major as nat, minor as nat);
            &&& glibc_floor(tag) matches Some(floor) && floor.components == seq![major, minor]
            &&& tag_passes(tag, glibc) <==> (glibc matches Some(known) && !version_less(
                known.components,
                seq![major, minor],
            ))
            &&& tag_is_open(tag, glibc) <==> glibc is None
        }),
{
    let one = decimal(major as nat);
    let two = decimal(minor as nat);
    let tag = manylinux_tag(major as nat, minor as nat);
    reveal_strlit("manylinux_");
    reveal_strlit("_");
    reveal_strlit("_x86_64");
    reveal_strlit("manylinux1_x86_64");
    reveal_strlit("manylinux2010_x86_64");
    reveal_strlit("manylinux2014_x86_64");
    reveal_strlit("any");
    reveal_strlit("linux_x86_64");
    assert(tag[9] == '_');
    assert("manylinux1_x86_64"@[9] == '1');
    assert("manylinux2010_x86_64"@[9] == '2');
    assert("manylinux2014_x86_64"@[9] == '2');
    assert(tag[0] == 'm' && "any"@[0] == 'a' && "linux_x86_64"@[0] == 'l');
    assert("manylinux_"@.is_prefix_of(tag)) by {
        assert(tag.subrange(0, 10) =~= "manylinux_"@);
    }
    let rest = one + "_"@ + two + "_x86_64"@;
    assert(tag.skip(10) =~= rest);
    assert("_x86_64"@.is_suffix_of(rest)) by {
        assert(rest.subrange(rest.len() - 7, rest.len() as int) =~= "_x86_64"@);
    }
    let floor = one + "_"@ + two;
    assert(rest.take(rest.len() - 7) =~= floor);
    decimal_round_trip(major as nat);
    decimal_round_trip(minor as nat);
    first_separator_splits(floor, '_');
    assert(floor[one.len() as int] == '_');
    assert(floor.contains('_'));
    let halves = split_first(floor, '_')->0;
    assert(halves.0.len() == one.len()) by {
        if halves.0.len() < one.len() {
            assert(floor[halves.0.len() as int] == '_');
            assert(digit(one[halves.0.len() as int]));
        } else if halves.0.len() > one.len() {
            assert(halves.0[one.len() as int] == '_');
            assert(halves.0.contains('_'));
        }
    }
    assert(halves.0 =~= one) by {
        assert(floor.take(one.len() as int) =~= one);
        assert(floor.take(one.len() as int) =~= halves.0);
    }
    assert(halves.1 =~= two) by {
        assert(floor.skip(one.len() as int + 1) =~= two);
        assert(floor.skip(one.len() as int + 1) =~= halves.1);
    }
    two_components(major, minor);
}

/// A tag for another architecture or system is never satisfied, whatever the host.
pub proof fn foreign_platform_tags_never_pass(tag: Seq<char>, glibc: Option<NumericVersionView>)
    requires
        tag != "any"@,
        !"_x86_64"@.is_suffix_of(tag),
    ensures
        !tag_passes(tag, glibc),
        !tag_is_open(tag, glibc),
{
    let suffix = "_x86_64"@;
    reveal_strlit("_x86_64");
    reveal_strlit("linux_x86_64");
    reveal_strlit("manylinux1_x86_64");
    reveal_strlit("manylinux2010_x86_64");
    reveal_strlit("manylinux2014_x86_64");
    assert(suffix.is_suffix_of("linux_x86_64"@)) by {
        assert("linux_x86_64"@.subrange(5, 12) =~= suffix);
    }
    assert(suffix.is_suffix_of("manylinux1_x86_64"@)) by {
        assert("manylinux1_x86_64"@.subrange(10, 17) =~= suffix);
    }
    assert(suffix.is_suffix_of("manylinux2010_x86_64"@)) by {
        assert("manylinux2010_x86_64"@.subrange(13, 20) =~= suffix);
    }
    assert(suffix.is_suffix_of("manylinux2014_x86_64"@)) by {
        assert("manylinux2014_x86_64"@.subrange(13, 20) =~= suffix);
    }
    if let Some(rest) = after_prefix(tag, "manylinux_"@) {
        if suffix.is_suffix_of(rest) {
            assert(tag.subrange(tag.len() - 7, tag.len() as int) =~= rest.subrange(
                rest.len() - 7,
                rest.len() as int,
            ));
        }
    }
}

/// The older names of the `manylinux` tags ask for glibc 2.5, 2.12 and 2.17.
pub proof fn older_manylinux_names()
    ensures
        glibc_floor("manylinux1_x86_64"@) matches Some(floor) && floor.components == seq![2u32, 5],
        glibc_floor("manylinux2010_x86_64"@) matches Some(floor) && floor.components == seq![
            2u32,
            12,
        ],
        glibc_floor("manylinux2014_x86_64"@) matches Some(floor) && floor.components == seq![
            2u32,
            17,
        ],
{
    reveal_strlit("manylinux1_x86_64");
    reveal_strlit("manylinux2010_x86_64");
    reveal_strlit("manylinux2014_x86_64");
    reveal_strlit("2.5");
    reveal_strlit("2.12");
    reveal_strlit("2.17");
    reveal_strlit(".");
    assert("manylinux2010_x86_64"@[11] != "manylinux2014_x86_64"@[11] || "manylinux2010_x86_64"@[12]
        != "manylinux2014_x86_64"@[12]);
    assert("manylinux1_x86_64"@.len() == 17);
    assert("manylinux2010_x86_64"@.len() == 20);
    two_components(2, 5);
    two_components(2, 12);
    two_components(2, 17);
    reveal_with_fuel(decimal, 3);
    assert("2.5"@ =~= decimal(2) + "."@ + decimal(5));
    assert("2.12"@ =~= decimal(2) + "."@ + decimal(12));
    assert("2.17"@ =~= decimal(2) + "."@ + decimal(17));
}

/// A wheel passes on a host exactly where that is Linux on x86-64 and one of the platform tags is
/// `any` or satisfied.
pub proof fn platform_passes_where_a_tag_does(wheel: TorchWheelView, environment: EnvironmentView)
    ensures
        platform_match(wheel, environment) is Pass <==> environment.platform.os
            is Linux && environment.platform.architecture is X86_64 && exists|i: int|
            0 <= i < wheel.platform_tags.len() && (#[trigger] wheel.platform_tags[i] == "any"@
                || tag_passes(wheel.platform_tags[i], environment.glibc)),
        platform_match(wheel, environment) is Unknown ==> environment.platform.os
            is Linux && environment.platform.architecture is X86_64,
{
    let tags = wheel.platform_tags;
    if exists|i: int|
        0 <= i < tags.len() && (#[trigger] tags[i] == "any"@ || tag_passes(
            tags[i],
            environment.glibc,
        )) {
        let k = choose|i: int|
            0 <= i < tags.len() && (#[trigger] tags[i] == "any"@ || tag_passes(
                tags[i],
                environment.glibc,
            ));
        assert(tag_passes(tags[k], environment.glibc));
    }
    if platform_match(wheel, environment) is Pass {
        let k = choose|i: int|
            0 <= i < tags.len() && tag_passes(#[trigger] tags[i], environment.glibc);
        assert(tags[k] == "any"@ || tag_passes(tags[k], environment.glibc));
    }
}

proof fn first_match_is_given(
    wheels: Seq<TorchWheelView>,
    environment: EnvironmentView,
    wanted: PlatformMatchView,
)
    ensures
        crate::checks::first_matching(wheels, environment, wanted) matches Some(wheel)
            ==> wheels.contains(wheel) && platform_match(wheel, environment) == wanted,
        crate::checks::first_matching(wheels, environment, wanted) is None ==> forall|i: int|
            0 <= i < wheels.len() ==> platform_match(#[trigger] wheels[i], environment) != wanted,
    decreases wheels.len(),
{
    if wheels.len() > 0 {
        let head = wheels.drop_last();
        first_match_is_given(head, environment, wanted);
        match crate::checks::first_matching(head, environment, wanted) {
            Some(wheel) => {
                let k = choose|k: int| 0 <= k < head.len() && head[k] == wheel;
                assert(wheels[k] == wheel);
            },
            None => {
                assert(wheels[wheels.len() - 1] == wheels.last());
                assert forall|i: int| 0 <= i < head.len() implies platform_match(
                    #[trigger] wheels[i],
                    environment,
                ) != wanted by {
                    assert(head[i] == wheels[i]);
                }
            },
        }
    }
}

/// The platform check passes exactly where one of the wheels passes, and selects such a wheel; a
/// wheel is selected otherwise only where the check is left open.
pub proof fn selected_wheel_passes_the_platform(
    environment: EnvironmentView,
    wheels: Seq<TorchWheelView>,
)
    ensures
        ({
            let result = platform_result(environment, wheels);
            &&& result.0.status == CheckStatus::Pass <==> exists|i: int|
                0 <= i < wheels.len() && platform_match(#[trigger] wheels[i], environment) is Pass
            &&& result.1 matches Some(wheel) ==> wheels.contains(wheel) && (
            if result.0.status == CheckStatus::Pass {
                platform_match(wheel, environment) is Pass
            } else {
                result.0.status == CheckStatus::Unknown && platform_match(wheel, environment)
                    is Unknown
            })
            &&& result.0.status == CheckStatus::Pass ==> result.1 is Some
            &&& result.0.status != CheckStatus::NotApplicable
        }),
{
    first_match_is_given(wheels, environment, PlatformMatchView::Pass);
    first_match_is_given(wheels, environment, PlatformMatchView::Unknown);
    let result = platform_result(environment, wheels);
    if result.0.status == CheckStatus::Pass {
        let wheel = result.1->0;
        let k = choose|k: int| 0 <= k < wheels.len() && wheels[k] == wheel;
        assert(platform_match(wheels[k], environment) is Pass);
    }
}

} // verus!
