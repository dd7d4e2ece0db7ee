//! The compatibility data that is accepted is consistent, and what is asked of it is what it says.

use crate::model::{parsed_capability, ComputeCapability, CudaVariant};
use crate::order::{sort_by, sort_keeps_items, Order};
use crate::outside::{is_pep440, pep440_order};
use crate::rules::{
    architectures_error, capabilities, capability_error, clashes, covering_rule, family_minimum,
    first_clash, first_invalid, key_taken, overlap_error, pep440_after, release_of_series,
    releases_error, rule_error, rules_error, series_of, variant_minimum, version_error,
    DriverFamilyRuleView, DriverRulesView, DriverVariantRuleView, GpuArchitectureRuleView,
    ReleaseRuleView, ReleaseRulesView,
};
use vstd::prelude::*;

verus! {

/// Whether a rule says of a version and a variant what code their wheels hold.
pub open spec fn speaks_of(
    rule: GpuArchitectureRuleView,
    version: Seq<char>,
    variant: CudaVariant,
) -> bool {
    &&& rule.platform == "linux_x86_64"@
    &&& rule.variants.contains(variant)
    &&& exists|i: int|
        0 <= i < rule.versions.len() && pep440_order(#[trigger] rule.versions[i], version) == Some(
            Order::Equal,
        )
}

/// Whether the versions of a rule are versions of its series, none of them twice.
pub open spec fn versions_fit(rule: GpuArchitectureRuleView) -> bool {
    &&& rule.versions.len() > 0
    &&& forall|i: int|
        0 <= i < rule.versions.len() ==> is_pep440(#[trigger] rule.versions[i]) && series_of(
            rule.versions[i],
        ) == Some(rule.series)
    &&& forall|i: int, j: int| #![trigger rule.versions[i], rule.versions[j]]
        0 <= i < j < rule.versions.len() ==> pep440_order(rule.versions[i], rule.versions[j])
            != Some(Order::Equal)
}

/// Whether the variants of a rule are CUDA variants, none of them twice.
pub open spec fn variants_fit(rule: GpuArchitectureRuleView) -> bool {
    &&& rule.variants.len() > 0
    &&& rule.variants.no_duplicates()
    &&& forall|i: int| 0 <= i < rule.variants.len() ==> #[trigger] rule.variants[i] is Cuda
}

/// Whether the capabilities of a rule can be read, none is there twice, and portable code comes with
/// native code for the same capability.
pub open spec fn code_fits(rule: GpuArchitectureRuleView) -> bool {
    &&& rule.cubin_capabilities.len() > 0
    &&& forall|i: int|
        0 <= i < rule.cubin_capabilities.len() ==> parsed_capability(
            #[trigger] rule.cubin_capabilities[i],
        ) is Ok
    &&& forall|i: int, j: int| #![trigger rule.cubin_capabilities[i], rule.cubin_capabilities[j]]
        0 <= i < j < rule.cubin_capabilities.len() ==> parsed_capability(
            rule.cubin_capabilities[i],
        ) != parsed_capability(rule.cubin_capabilities[j])
    &&& rule.ptx_capability matches Some(text) ==> parsed_capability(text) is Ok && exists|i: int|
        0 <= i < rule.cubin_capabilities.len() && parsed_capability(
            #[trigger] rule.cubin_capabilities[i],
        ) == parsed_capability(text)
}

/// Whether a rule says nothing that an `earlier` one says too, and does not repeat one.
pub open spec fn adds_to(
    earlier: Seq<GpuArchitectureRuleView>,
    rule: GpuArchitectureRuleView,
) -> bool {
    &&& forall|i: int, version: int, variant: int|
        #![trigger earlier[i], rule.versions[version], rule.variants[variant]]
        0 <= i < earlier.len() && 0 <= version < rule.versions.len() && 0 <= variant
            < rule.variants.len() ==> !speaks_of(
            earlier[i],
            rule.versions[version],
            rule.variants[variant],
        )
    &&& forall|i: int|
        0 <= i < earlier.len() ==> !((#[trigger] earlier[i]).series == rule.series
            && earlier[i].platform == rule.platform && earlier[i].versions == rule.versions
            && earlier[i].variants == rule.variants)
}

/// Whether the rule at `place` is consistent in itself and with those before it.
pub open spec fn rule_fits(rules: Seq<GpuArchitectureRuleView>, place: int) -> bool {
    &&& rules[place].platform == "linux_x86_64"@
    &&& versions_fit(rules[place])
    &&& variants_fit(rules[place])
    &&& code_fits(rules[place])
    &&& adds_to(rules.take(place), rules[place])
}

proof fn invalid_versions_are_found(versions: Seq<Seq<char>>)
    ensures
        first_invalid(versions) is None <==> forall|i: int|
            0 <= i < versions.len() ==> is_pep440(#[trigger] versions[i]),
    decreases versions.len(),
{
    if versions.len() > 0 {
        let head = versions.drop_last();
        invalid_versions_are_found(head);
        assert(forall|i: int| 0 <= i < head.len() ==> #[trigger] head[i] == versions[i]);
        assert(versions.last() == versions[versions.len() - 1]);
        if first_invalid(versions) is None {
            assert forall|i: int| 0 <= i < versions.len() implies is_pep440(
                #[trigger] versions[i],
            ) by {
                if i < head.len() {
                    assert(head[i] == versions[i]);
                }
            }
        }
        if forall|i: int| 0 <= i < versions.len() ==> is_pep440(#[trigger] versions[i]) {
            assert forall|i: int| 0 <= i < head.len() implies is_pep440(#[trigger] head[i]) by {
                assert(head[i] == versions[i]);
            }
        }
    }
}

proof fn clashes_are_found(
    earlier: Seq<GpuArchitectureRuleView>,
    version: Seq<char>,
    variants: Seq<CudaVariant>,
    upto: nat,
)
    requires
        upto <= variants.len(),
    ensures
        first_clash(earlier, version, variants, upto) is None <==> forall|at: int|
            0 <= at < upto ==> !#[trigger] clashes(earlier, version, variants, at),
    decreases upto,
{
    if upto > 0 {
        clashes_are_found(earlier, version, variants, (upto - 1) as nat);
        if first_clash(earlier, version, variants, upto) is None {
            assert forall|at: int| 0 <= at < upto implies !#[trigger] clashes(
                earlier,
                version,
                variants,
                at,
            ) by {
                if at < upto - 1 {
                }
            }
        } else if forall|at: int|
            0 <= at < upto ==> !#[trigger] clashes(earlier, version, variants, at) {
            assert(!clashes(earlier, version, variants, upto - 1));
            assert forall|at: int| 0 <= at < upto - 1 implies !#[trigger] clashes(
                earlier,
                version,
                variants,
                at,
            ) by {}
        }
    }
}

proof fn overlaps_are_found(
    earlier: Seq<GpuArchitectureRuleView>,
    versions: Seq<Seq<char>>,
    variants: Seq<CudaVariant>,
)
    ensures
        overlap_error(earlier, versions, variants) is None <==> forall|i: int|
            0 <= i < versions.len() ==> first_clash(
                earlier,
                #[trigger] versions[i],
                variants,
                variants.len(),
            ) is None,
    decreases versions.len(),
{
    if versions.len() > 0 {
        let head = versions.drop_last();
        overlaps_are_found(earlier, head, variants);
        assert(versions.last() == versions[versions.len() - 1]);
        if overlap_error(earlier, versions, variants) is None {
            assert forall|i: int| 0 <= i < versions.len() implies first_clash(
                earlier,
                #[trigger] versions[i],
                variants,
                variants.len(),
            ) is None by {
                if i < head.len() {
                    assert(head[i] == versions[i]);
                }
            }
        }
        if forall|i: int|
            0 <= i < versions.len() ==> first_clash(
                earlier,
                #[trigger] versions[i],
                variants,
                variants.len(),
            ) is None {
            assert forall|i: int| 0 <= i < head.len() implies first_clash(
                earlier,
                #[trigger] head[i],
                variants,
                variants.len(),
            ) is None by {
                assert(head[i] == versions[i]);
            }
        }
    }
}

proof fn sorting_keeps_members(versions: Seq<Seq<char>>, version: Seq<char>)
    ensures
        sort_by(versions, pep440_after()).contains(version) <==> versions.contains(version),
{
    broadcast use vstd::seq_lib::group_to_multiset_ensures;

    let sorted = sort_by(versions, pep440_after());
    sort_keeps_items(versions, pep440_after());
    assert(sorted.contains(version) <==> sorted.to_multiset().count(version) > 0);
    assert(versions.contains(version) <==> versions.to_multiset().count(version) > 0);
}

proof fn overlap_is_told(earlier: Seq<GpuArchitectureRuleView>, rule: GpuArchitectureRuleView)
    requires
        rule.versions.len() > 0,
    ensures
        overlap_error(earlier, sort_by(rule.versions, pep440_after()), rule.variants) is None <==> (
        rule.variants.no_duplicates() && forall|i: int, version: int, variant: int|
            #![trigger earlier[i], rule.versions[version], rule.variants[variant]]
            0 <= i < earlier.len() && 0 <= version < rule.versions.len() && 0 <= variant
                < rule.variants.len() ==> !speaks_of(
                earlier[i],
                rule.versions[version],
                rule.variants[variant],
            )),
{
    let sorted = sort_by(rule.versions, pep440_after());
    let variants = rule.variants;
    overlaps_are_found(earlier, sorted, variants);
    if overlap_error(earlier, sorted, variants) is None {
        assert forall|version: int, at: int|
            0 <= version < rule.versions.len() && 0 <= at < variants.len() implies !#[trigger] clashes(
            earlier,
            rule.versions[version],
            variants,
            at,
        ) by {
            sorting_keeps_members(rule.versions, rule.versions[version]);
            assert(rule.versions.contains(rule.versions[version]));
            let k = choose|k: int| 0 <= k < sorted.len() && sorted[k] == rule.versions[version];
            assert(first_clash(earlier, sorted[k], variants, variants.len()) is None);
            clashes_are_found(earlier, sorted[k], variants, variants.len());
        }
        assert forall|i: int, j: int| 0 <= i < variants.len() && 0 <= j < variants.len() && i
            != j implies variants[i] != variants[j] by {
            let (low, high) = if i < j {
                (i, j)
            } else {
                (j, i)
            };
            assert(!clashes(earlier, rule.versions[0], variants, high));
            if variants[low] == variants[high] {
                assert(variants.take(high)[low] == variants[high]);
            }
        }
        assert forall|i: int, version: int, variant: int|
            #![trigger earlier[i], rule.versions[version], rule.variants[variant]]
            0 <= i < earlier.len() && 0 <= version < rule.versions.len() && 0 <= variant
                < rule.variants.len() implies !speaks_of(
            earlier[i],
            rule.versions[version],
            rule.variants[variant],
        ) by {
            assert(!clashes(earlier, rule.versions[version], variants, variant));
        }
    }
    if rule.variants.no_duplicates() && forall|i: int, version: int, variant: int|
        #![trigger earlier[i], rule.versions[version], rule.variants[variant]]
        0 <= i < earlier.len() && 0 <= version < rule.versions.len() && 0 <= variant
            < rule.variants.len() ==> !speaks_of(
            earlier[i],
            rule.versions[version],
            rule.variants[variant],
        ) {
        assert forall|k: int| 0 <= k < sorted.len() implies first_clash(
            earlier,
            #[trigger] sorted[k],
            variants,
            variants.len(),
        ) is None by {
            sorting_keeps_members(rule.versions, sorted[k]);
            assert(sorted.contains(sorted[k]));
            let version = choose|v: int|
                0 <= v < rule.versions.len() && rule.versions[v] == sorted[k];
            assert forall|at: int| 0 <= at < variants.len() implies !#[trigger] clashes(
                earlier,
                sorted[k],
                variants,
                at,
            ) by {
                let before = variants.take(at);
                if before.contains(variants[at]) {
                    let m = choose|m: int| 0 <= m < before.len() && before[m] == variants[at];
                    assert(variants[m] == variants[at]);
                }
                assert forall|i: int| 0 <= i < earlier.len() implies !crate::rules::rule_covers(
                    #[trigger] earlier[i],
                    sorted[k],
                    variants[at],
                ) by {
                    assert(!speaks_of(earlier[i], rule.versions[version], rule.variants[at]));
                }
            }
            clashes_are_found(earlier, sorted[k], variants, variants.len());
        }
    }
}

proof fn capabilities_are_read_one_by_one(texts: Seq<Seq<char>>)
    ensures
        capabilities(texts) is Ok <==> forall|i: int|
            0 <= i < texts.len() ==> parsed_capability(#[trigger] texts[i]) is Ok,
        capabilities(texts) matches Ok(read) ==> read.len() == texts.len() && forall|i: int|
            0 <= i < texts.len() ==> parsed_capability(#[trigger] texts[i]) == Ok::<
                ComputeCapability,
                crate::version::VersionParseErrorView,
            >(read[i]),
    decreases texts.len(),
{
    if texts.len() > 0 {
        let head = texts.drop_last();
        capabilities_are_read_one_by_one(head);
        assert(texts.last() == texts[texts.len() - 1]);
        if let Ok(read) = capabilities(texts) {
            let earlier = capabilities(head)->Ok_0;
            assert forall|i: int| 0 <= i < texts.len() implies parsed_capability(
                #[trigger] texts[i],
            ) == Ok::<ComputeCapability, crate::version::VersionParseErrorView>(read[i]) by {
                if i < head.len() {
                    assert(head[i] == texts[i]);
                    assert(read[i] == earlier[i]);
                }
            }
        }
        if forall|i: int| 0 <= i < texts.len() ==> parsed_capability(#[trigger] texts[i]) is Ok {
            assert forall|i: int| 0 <= i < head.len() implies parsed_capability(
                #[trigger] head[i],
            ) is Ok by {
                assert(head[i] == texts[i]);
            }
        }
    }
}

proof fn code_is_checked(rule: GpuArchitectureRuleView)
    ensures
        capability_error(rule) is None <==> code_fits(rule),
{
    let texts = rule.cubin_capabilities;
    capabilities_are_read_one_by_one(texts);
    if let Ok(read) = capabilities(texts) {
        assert(read.len() == texts.len());
        if capability_error(rule) is None {
            assert forall|i: int, j: int|
                #![trigger rule.cubin_capabilities[i], rule.cubin_capabilities[j]]
                0 <= i < j < texts.len() implies parsed_capability(texts[i]) != parsed_capability(
                texts[j],
            ) by {
                assert(read[i] != read[j]);
            }
            if let Some(text) = rule.ptx_capability {
                let ptx = parsed_capability(text)->Ok_0;
                let k = choose|k: int| 0 <= k < read.len() && read[k] == ptx;
                assert(parsed_capability(texts[k]) == parsed_capability(text));
            }
        }
        if code_fits(rule) {
            assert forall|i: int, j: int|
                0 <= i < read.len() && 0 <= j < read.len() && i != j implies read[i] != read[j] by {
                assert(parsed_capability(texts[i]) == Ok::<
                    ComputeCapability,
                    crate::version::VersionParseErrorView,
                >(read[i]));
                assert(parsed_capability(texts[j]) == Ok::<
                    ComputeCapability,
                    crate::version::VersionParseErrorView,
                >(read[j]));
            }
            assert(read.no_duplicates());
            if let Some(text) = rule.ptx_capability {
                let ptx = parsed_capability(text)->Ok_0;
                let k = choose|k: int|
                    0 <= k < texts.len() && parsed_capability(#[trigger] texts[k])
                        == parsed_capability(text);
                assert(parsed_capability(texts[k]) == parsed_capability(text));
                assert(read[k] == ptx);
                assert(read.contains(ptx));
            }
        }
    }
}

proof fn rule_is_checked(rules: Seq<GpuArchitectureRuleView>, place: int)
    requires
        0 <= place < rules.len(),
    ensures
        rule_error(rules.take(place), rules[place]) is None <==> rule_fits(rules, place),
{
    let rule = rules[place];
    let earlier = rules.take(place);
    code_is_checked(rule);
    invalid_versions_are_found(rule.versions);
    if rule.versions.len() > 0 {
        overlap_is_told(earlier, rule);
    }
    if rule_error(earlier, rule) is None {
        assert forall|i: int| 0 <= i < rule.variants.len() implies #[trigger] rule.variants[
            i] is Cuda by {
            assert(!(rule.variants[i] is Cpu));
        }
        assert forall|i: int| 0 <= i < earlier.len() implies !((#[trigger] earlier[i]).series
            == rule.series && earlier[i].platform == rule.platform && earlier[i].versions
            == rule.versions && earlier[i].variants == rule.variants) by {
            assert(!crate::rules::same_key(earlier[i], rule));
        }
        assert(versions_fit(rule));
    }
    if rule_fits(rules, place) {
        assert(!key_taken(earlier, rule));
        assert(crate::rules::versions_distinct(rule.versions));
        assert forall|i: int| 0 <= i < rule.variants.len() implies !(#[trigger] rule.variants[
            i] is Cpu) by {
            assert(rule.variants[i] is Cuda);
        }
        assert(version_error(earlier, rule) is None);
    }
}

proof fn architectures_are_checked(rules: Seq<GpuArchitectureRuleView>)
    ensures
        architectures_error(rules) is None <==> forall|place: int|
            0 <= place < rules.len() ==> #[trigger] rule_fits(rules, place),
    decreases rules.len(),
{
    if rules.len() > 0 {
        let head = rules.drop_last();
        let last = rules.len() - 1;
        architectures_are_checked(head);
        rule_is_checked(rules, last);
        assert(rules.take(last) =~= head);
        assert forall|place: int| 0 <= place < head.len() implies #[trigger] rule_fits(head, place)
            == rule_fits(rules, place) by {
            assert(head.take(place) =~= rules.take(place));
            assert(head[place] == rules[place]);
        }
        if architectures_error(rules) is None {
            assert forall|place: int| 0 <= place < rules.len() implies #[trigger] rule_fits(
                rules,
                place,
            ) by {
                if place < head.len() {
                    assert(rule_fits(head, place));
                }
            }
        }
        if forall|place: int| 0 <= place < rules.len() ==> #[trigger] rule_fits(rules, place) {
            assert(rule_fits(rules, last));
            assert forall|place: int| 0 <= place < head.len() implies #[trigger] rule_fits(
                head,
                place,
            ) by {
                assert(rule_fits(rules, place));
            }
        }
    }
}

proof fn releases_are_checked(releases: Seq<ReleaseRuleView>)
    ensures
        releases_error(releases) is None <==> forall|i: int|
            0 <= i < releases.len() ==> (#[trigger] releases[i]).variants.no_duplicates()
                && releases[i].variants.contains(releases[i].preferred_variant),
    decreases releases.len(),
{
    if releases.len() > 0 {
        let head = releases.drop_last();
        releases_are_checked(head);
        assert(releases.last() == releases[releases.len() - 1]);
        if releases_error(releases) is None {
            assert forall|i: int| 0 <= i < releases.len() implies (
            #[trigger] releases[i]).variants.no_duplicates() && releases[i].variants.contains(
                releases[i].preferred_variant,
            ) by {
                if i < head.len() {
                    assert(head[i] == releases[i]);
                }
            }
        }
        if forall|i: int|
            0 <= i < releases.len() ==> (#[trigger] releases[i]).variants.no_duplicates()
                && releases[i].variants.contains(releases[i].preferred_variant) {
            assert forall|i: int| 0 <= i < head.len() implies (
            #[trigger] head[i]).variants.no_duplicates() && head[i].variants.contains(
                head[i].preferred_variant,
            ) by {
                assert(head[i] == releases[i]);
            }
        }
    }
}

/// Compatibility data is accepted exactly where it has the known layout, says nothing twice, prefers
/// variants that it lists, and every rule on code is consistent in itself and with those before it.
pub proof fn accepted_rules_are_consistent(drivers: DriverRulesView, releases: ReleaseRulesView)
    ensures
        rules_error(drivers, releases) is None <==> {
            &&& drivers.schema_version == 1
            &&& releases.schema_version == 3
            &&& forall|i: int, j: int| #![trigger drivers.families[i], drivers.families[j]]
                0 <= i < j < drivers.families.len() ==> drivers.families[i].cuda_major
                    != drivers.families[j].cuda_major
            &&& forall|i: int, j: int| #![trigger drivers.variants[i], drivers.variants[j]]
                0 <= i < j < drivers.variants.len() ==> drivers.variants[i].variant
                    != drivers.variants[j].variant
            &&& forall|i: int, j: int| #![trigger releases.releases[i], releases.releases[j]]
                0 <= i < j < releases.releases.len() ==> releases.releases[i].series
                    != releases.releases[j].series
            &&& forall|i: int|
                0 <= i < releases.releases.len() ==> (
                #[trigger] releases.releases[i]).variants.no_duplicates()
                    && releases.releases[i].variants.contains(
                    releases.releases[i].preferred_variant,
                )
            &&& forall|place: int|
                0 <= place < releases.gpu_architectures.len() ==> #[trigger] rule_fits(
                    releases.gpu_architectures,
                    place,
                )
        },
{
    let majors = drivers.families.map_values(|rule: DriverFamilyRuleView| rule.cuda_major);
    let variants = drivers.variants.map_values(|rule: DriverVariantRuleView| rule.variant);
    let series = releases.releases.map_values(|rule: ReleaseRuleView| rule.series);
    releases_are_checked(releases.releases);
    architectures_are_checked(releases.gpu_architectures);
    assert(majors.no_duplicates() <==> forall|i: int, j: int|
        #![trigger drivers.families[i], drivers.families[j]]
        0 <= i < j < drivers.families.len() ==> drivers.families[i].cuda_major
            != drivers.families[j].cuda_major) by {
        pairs_differ(majors);
        assert(forall|i: int| 0 <= i < majors.len() ==> #[trigger] majors[i]
            == drivers.families[i].cuda_major);
        assert(forall|i: int|
            0 <= i < majors.len() ==> majors[i] == (#[trigger] drivers.families[i]).cuda_major);
    }
    assert(variants.no_duplicates() <==> forall|i: int, j: int|
        #![trigger drivers.variants[i], drivers.variants[j]]
        0 <= i < j < drivers.variants.len() ==> drivers.variants[i].variant
            != drivers.variants[j].variant) by {
        pairs_differ(variants);
        assert(forall|i: int| 0 <= i < variants.len() ==> #[trigger] variants[i]
            == drivers.variants[i].variant);
        assert(forall|i: int|
            0 <= i < variants.len() ==> variants[i] == (#[trigger] drivers.variants[i]).variant);
    }
    assert(series.no_duplicates() <==> forall|i: int, j: int|
        #![trigger releases.releases[i], releases.releases[j]]
        0 <= i < j < releases.releases.len() ==> releases.releases[i].series
            != releases.releases[j].series) by {
        pairs_differ(series);
        assert(forall|i: int| 0 <= i < series.len() ==> #[trigger] series[i]
            == releases.releases[i].series);
        assert(forall|i: int|
            0 <= i < series.len() ==> series[i] == (#[trigger] releases.releases[i]).series);
    }
}

proof fn pairs_differ<T>(items: Seq<T>)
    ensures
        items.no_duplicates() <==> forall|i: int, j: int| #![trigger items[i], items[j]]
            0 <= i < j < items.len() ==> items[i] != items[j],
{
    if forall|i: int, j: int| #![trigger items[i], items[j]]
        0 <= i < j < items.len() ==> items[i] != items[j] {
        assert forall|i: int, j: int|
            0 <= i < items.len() && 0 <= j < items.len() && i != j implies items[i] != items[j] by {
            if i > j {
                assert(items[j] != items[i]);
            }
        }
    }
}

// ---------------------------------------------------------------------------
// Queries

/// The lowest driver of a CUDA major version, and of a variant, is what the first rule on it says;
/// none is known where there is no rule on it.
pub proof fn driver_minimums_are_those_of_the_rules(
    drivers: DriverRulesView,
    major: u16,
    variant: CudaVariant,
    place: int,
)
    ensures
        0 <= place < drivers.families.len() && drivers.families[place].cuda_major == major && (
        forall|i: int| 0 <= i < place ==> (#[trigger] drivers.families[i]).cuda_major != major)
            ==> family_minimum(drivers.families, major) == Some(
            drivers.families[place].linux_min_driver,
        ),
        (forall|i: int|
            0 <= i < drivers.families.len() ==> (#[trigger] drivers.families[i]).cuda_major
                != major) ==> family_minimum(drivers.families, major) is None,
        0 <= place < drivers.variants.len() && drivers.variants[place].variant == variant && (
        forall|i: int| 0 <= i < place ==> (#[trigger] drivers.variants[i]).variant != variant)
            ==> variant_minimum(drivers.variants, variant) == Some(
            drivers.variants[place].linux_min_driver,
        ),
        (forall|i: int|
            0 <= i < drivers.variants.len() ==> (#[trigger] drivers.variants[i]).variant
                != variant) ==> variant_minimum(drivers.variants, variant) is None,
{
    family_is_found(drivers.families, major, place);
    variant_is_found(drivers.variants, variant, place);
}

proof fn family_is_found(rules: Seq<DriverFamilyRuleView>, major: u16, place: int)
    ensures
        0 <= place < rules.len() && rules[place].cuda_major == major && (forall|i: int|
            0 <= i < place ==> (#[trigger] rules[i]).cuda_major != major) ==> family_minimum(
            rules,
            major,
        ) == Some(rules[place].linux_min_driver),
        (forall|i: int| 0 <= i < rules.len() ==> (#[trigger] rules[i]).cuda_major != major)
            ==> family_minimum(rules, major) is None,
    decreases rules.len(),
{
    if rules.len() > 0 {
        let rest = rules.skip(1);
        family_is_found(rest, major, place - 1);
        assert(forall|i: int| 0 <= i < rest.len() ==> #[trigger] rest[i] == rules[i + 1]);
        if place > 0 {
            assert(place < rules.len() ==> rest[place - 1] == rules[place]);
        }
    }
}

proof fn variant_is_found(rules: Seq<DriverVariantRuleView>, variant: CudaVariant, place: int)
    ensures
        0 <= place < rules.len() && rules[place].variant == variant && (forall|i: int|
            0 <= i < place ==> (#[trigger] rules[i]).variant != variant) ==> variant_minimum(
            rules,
            variant,
        ) == Some(rules[place].linux_min_driver),
        (forall|i: int| 0 <= i < rules.len() ==> (#[trigger] rules[i]).variant != variant)
            ==> variant_minimum(rules, variant) is None,
    decreases rules.len(),
{
    if rules.len() > 0 {
        let rest = rules.skip(1);
        variant_is_found(rest, variant, place - 1);
        assert(forall|i: int| 0 <= i < rest.len() ==> #[trigger] rest[i] == rules[i + 1]);
        if place > 0 {
            assert(place < rules.len() ==> rest[place - 1] == rules[place]);
        }
    }
}

/// The rule of a release series is the first that names it; there is none where none names it.
pub proof fn release_is_that_of_the_series(
    rules: Seq<ReleaseRuleView>,
    series: Seq<char>,
    place: int,
)
    ensures
        0 <= place < rules.len() && rules[place].series == series && (forall|i: int|
            0 <= i < place ==> (#[trigger] rules[i]).series != series) ==> release_of_series(
            rules,
            series,
        ) == Some(rules[place]),
        (forall|i: int| 0 <= i < rules.len() ==> (#[trigger] rules[i]).series != series)
            ==> release_of_series(rules, series) is None,
    decreases rules.len(),
{
    if rules.len() > 0 {
        let rest = rules.skip(1);
        release_is_that_of_the_series(rest, series, place - 1);
        assert(forall|i: int| 0 <= i < rest.len() ==> #[trigger] rest[i] == rules[i + 1]);
        if place > 0 {
            assert(place < rules.len() ==> rest[place - 1] == rules[place]);
        }
    }
}

/// The evidence on a version and a variant is that of the first rule that speaks of both; there is
/// none where none does.
pub proof fn evidence_is_that_of_the_rule(
    rules: Seq<GpuArchitectureRuleView>,
    version: Seq<char>,
    variant: CudaVariant,
    place: int,
)
    ensures
        0 <= place < rules.len() && speaks_of(rules[place], version, variant) && (forall|i: int|
            0 <= i < place ==> !speaks_of(#[trigger] rules[i], version, variant)) ==> covering_rule(
            rules,
            version,
            variant,
        ) == Some(rules[place]),
        (forall|i: int|
            0 <= i < rules.len() ==> !speaks_of(#[trigger] rules[i], version, variant))
            ==> covering_rule(rules, version, variant) is None,
    decreases rules.len(),
{
    if rules.len() > 0 {
        let rest = rules.skip(1);
        evidence_is_that_of_the_rule(rest, version, variant, place - 1);
        assert(speaks_of(rules[0], version, variant) == crate::rules::rule_covers(
            rules[0],
            version,
            variant,
        ));
        assert(forall|i: int| 0 <= i < rest.len() ==> #[trigger] rest[i] == rules[i + 1]);
        if place > 0 {
            assert(place < rules.len() ==> rest[place - 1] == rules[place]);
        }
    }
}

} // verus!
