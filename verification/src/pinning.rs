//! Which release configuration a version belongs to, and which companion versions it pins.

use crate::checks::{companion_pin, release_numbers};
use crate::filenames::absent_character_is_behind_the_end;
use crate::model::CudaVariant;
use crate::pieces::{join, join_split_round_trip, split_on};
use crate::rules::{
    place_among, preference, release_for, release_of_series, CompanionPackage, ReleaseRuleView,
    RuleSetView,
};
use crate::text::{all_digits, decimal, decimal_round_trip, digit, unsigned};
use vstd::prelude::*;

verus! {

/// The text of a release version.
pub open spec fn release_text(major: nat, minor: nat, patch: nat) -> Seq<char> {
    decimal(major) + "."@ + decimal(minor) + "."@ + decimal(patch)
}

/// Numbers with the same decimal text are equal.
pub proof fn decimal_is_injective(left: nat, right: nat)
    ensures
        decimal(left) == decimal(right) ==> left == right,
{
    decimal_round_trip(left);
    decimal_round_trip(right);
}

proof fn digits_hold_no(number: nat, character: char)
    requires
        !digit(character),
    ensures
        !decimal(number).contains(character),
{
    decimal_round_trip(number);
}

proof fn release_text_is_split(major: nat, minor: nat, patch: nat)
    ensures
        split_on(release_text(major, minor, patch), '.') == seq![
            decimal(major),
            decimal(minor),
            decimal(patch),
        ],
        !release_text(major, minor, patch).contains('+'),
{
    reveal_strlit(".");
    assert("."@ =~= seq!['.']);
    let parts = seq![decimal(major), decimal(minor), decimal(patch)];
    let text = release_text(major, minor, patch);
    digits_hold_no(major, '.');
    digits_hold_no(minor, '.');
    digits_hold_no(patch, '.');
    digits_hold_no(major, '+');
    digits_hold_no(minor, '+');
    digits_hold_no(patch, '+');
    assert forall|i: int| 0 <= i < parts.len() implies !(#[trigger] parts[i]).contains('.') by {}
    join_split_round_trip(parts, '.');
    assert(parts.drop_last() =~= seq![decimal(major), decimal(minor)]);
    assert(parts.drop_last().drop_last() =~= seq![decimal(major)]);
    assert(join(parts, "."@) =~= text) by {
        reveal_with_fuel(join, 4);
    }
    assert forall|i: int| 0 <= i < text.len() implies #[trigger] text[i] != '+' by {
        let one = decimal(major).len() as int;
        let two = one + 1 + decimal(minor).len() as int;
        if i < one {
            assert(decimal(major).contains(decimal(major)[i]));
            assert(text[i] == decimal(major)[i]);
        } else if i == one || i == two {
            assert(text[i] == '.');
        } else if i < two {
            assert(decimal(minor).contains(decimal(minor)[i - one - 1]));
            assert(text[i] == decimal(minor)[i - one - 1]);
        } else {
            assert(decimal(patch).contains(decimal(patch)[i - two - 1]));
            assert(text[i] == decimal(patch)[i - two - 1]);
        }
    }
}

proof fn numbers_are_read_back(number: nat)
    ensures
        unsigned(decimal(number), u16::MAX as nat) == (if number <= u16::MAX {
            Some(number)
        } else {
            None
        }),
{
    decimal_round_trip(number);
    assert(all_digits(decimal(number)));
    assert(digit(decimal(number)[0]));
}

proof fn rule_of_a_series(rules: Seq<ReleaseRuleView>, series: Seq<char>)
    ensures
        release_of_series(rules, series) matches Some(rule) ==> rule.series == series
            && rules.contains(rule),
        release_of_series(rules, series) is None ==> forall|i: int|
            0 <= i < rules.len() ==> (#[trigger] rules[i]).series != series,
    decreases rules.len(),
{
    if rules.len() > 0 && rules[0].series != series {
        let rest = rules.skip(1);
        rule_of_a_series(rest, series);
        match release_of_series(rest, series) {
            Some(rule) => {
                let k = choose|k: int| 0 <= k < rest.len() && rest[k] == rule;
                assert(rules[k + 1] == rule);
            },
            None => {
                assert forall|i: int| 0 <= i < rules.len() implies (#[trigger] rules[i]).series
                    != series by {
                    if i > 0 {
                        assert(rest[i - 1] == rules[i]);
                    }
                }
            },
        }
    } else if rules.len() > 0 {
        assert(rules.contains(rules[0]));
    }
}

/// A release belongs to the configuration of its first two numbers, whatever its patch number, and
/// to none exactly where there is none for these.
pub proof fn release_belongs_to_its_series(rules: RuleSetView, major: nat, minor: nat, patch: nat)
    ensures
        ({
            let series = decimal(major) + "."@ + decimal(minor);
            match release_for(rules, release_text(major, minor, patch)) {
                Some(rule) => rule.series == series && rules.releases.releases.contains(rule),
                None => forall|i: int|
                    0 <= i < rules.releases.releases.len() ==> (
                    #[trigger] rules.releases.releases[i]).series != series,
            }
        }),
        forall|other: nat|
            release_for(rules, release_text(major, minor, patch)) == #[trigger] release_for(
                rules,
                release_text(major, minor, other),
            ),
{
    let version = release_text(major, minor, patch);
    release_text_is_split(major, minor, patch);
    absent_character_is_behind_the_end(version, '+');
    rule_of_a_series(rules.releases.releases, decimal(major) + "."@ + decimal(minor));
    assert forall|other: nat|
        release_for(rules, version) == #[trigger] release_for(
            rules,
            release_text(major, minor, other),
        ) by {
        release_text_is_split(major, minor, other);
        absent_character_is_behind_the_end(release_text(major, minor, other), '+');
    }
}

/// Companion versions follow the patch number of the release. Outside of the series 2.0 the
/// `torchvision` pin is 0, the minor number that the release configuration names, and the patch
/// number; the `torchaudio` pin is the series that it names and the patch number; without a
/// configuration, or where it names none, there is no pin.
pub proof fn pins_follow_the_patch_number(rules: RuleSetView, major: nat, minor: nat, patch: nat)
    requires
        major <= u16::MAX,
        minor <= u16::MAX,
        patch <= u16::MAX,
        !(major == 2 && minor == 0),
    ensures
        ({
            let version = release_text(major, minor, patch);
            let vision = companion_pin(rules, CompanionPackage::Torchvision, version);
            let audio = companion_pin(rules, CompanionPackage::Torchaudio, version);
            match release_for(rules, version) {
                None => vision is None && audio is None,
                Some(rule) => {
                    &&& match rule.torchvision_minor {
                        Some(number) => vision == Some(release_text(0, number as nat, patch)),
                        None => vision is None,
                    }
                    &&& match rule.torchaudio_series {
                        Some(series) => audio == Some(series + "."@ + decimal(patch)),
                        None => audio is None,
                    }
                },
            }
        }),
{
    let version = release_text(major, minor, patch);
    release_text_is_split(major, minor, patch);
    absent_character_is_behind_the_end(version, '+');
    numbers_are_read_back(major);
    numbers_are_read_back(minor);
    numbers_are_read_back(patch);
    assert(release_numbers(version) == Some((major, minor, patch)));
    reveal_strlit("0.");
    reveal_strlit(".");
    assert(decimal(0) =~= seq!['0']);
    assert("0."@ =~= decimal(0) + "."@);
}

/// Two patch releases of one series never share a pin.
pub proof fn patch_releases_share_no_pin(
    rules: RuleSetView,
    package: CompanionPackage,
    major: nat,
    minor: nat,
    first: nat,
    second: nat,
)
    requires
        major <= u16::MAX,
        minor <= u16::MAX,
        first <= u16::MAX,
        second <= u16::MAX,
        first != second,
    ensures
        ({
            let one = companion_pin(rules, package, release_text(major, minor, first));
            let other = companion_pin(rules, package, release_text(major, minor, second));
            one is Some && other is Some ==> one != other
        }),
{
    let one = companion_pin(rules, package, release_text(major, minor, first));
    let other = companion_pin(rules, package, release_text(major, minor, second));
    decimal_is_injective(first, second);
    if major == 2 && minor == 0 {
        release_text_is_split(major, minor, first);
        release_text_is_split(major, minor, second);
        absent_character_is_behind_the_end(release_text(major, minor, first), '+');
        absent_character_is_behind_the_end(release_text(major, minor, second), '+');
        numbers_are_read_back(major);
        numbers_are_read_back(minor);
        numbers_are_read_back(first);
        numbers_are_read_back(second);
        reveal_strlit("0.15.1");
        reveal_strlit("0.15.2");
        reveal_strlit("2.0.1");
        reveal_strlit("2.0.2");
        assert("0.15.1"@[5] != "0.15.2"@[5]);
        assert("2.0.1"@[4] != "2.0.2"@[4]);
    } else {
        pins_follow_the_patch_number(rules, major, minor, first);
        pins_follow_the_patch_number(rules, major, minor, second);
        release_belongs_to_its_series(rules, major, minor, first);
        assert(release_for(rules, release_text(major, minor, first)) == release_for(
            rules,
            release_text(major, minor, second),
        ));
        if one is Some && other is Some && one == other {
            let left = one->0;
            let rule = release_for(rules, release_text(major, minor, first))->0;
            let lead = match package {
                CompanionPackage::Torchvision => decimal(0) + "."@ + decimal(
                    rule.torchvision_minor->0 as nat,
                ) + "."@,
                CompanionPackage::Torchaudio => rule.torchaudio_series->0 + "."@,
            };
            assert(left =~= lead + decimal(first));
            assert(left =~= lead + decimal(second));
            assert(left.skip(lead.len() as int) =~= decimal(first));
            assert(left.skip(lead.len() as int) =~= decimal(second));
        }
    }
}

/// The first release of the series 2.0 pins `torchvision` 0.15.1 and `torchaudio` 2.0.1, the second
/// one the next patch of each, and no later one pins any.
pub proof fn pins_of_the_first_series(rules: RuleSetView, patch: nat)
    requires
        patch <= u16::MAX,
    ensures
        companion_pin(rules, CompanionPackage::Torchvision, release_text(2, 0, patch)) == (if patch
            <= 1 {
            Some(release_text(0, 15, patch + 1))
        } else {
            None
        }),
        companion_pin(rules, CompanionPackage::Torchaudio, release_text(2, 0, patch)) == (if patch
            <= 1 {
            Some(release_text(2, 0, patch + 1))
        } else {
            None
        }),
{
    release_text_is_split(2, 0, patch);
    absent_character_is_behind_the_end(release_text(2, 0, patch), '+');
    numbers_are_read_back(2);
    numbers_are_read_back(0);
    numbers_are_read_back(patch);
    reveal_strlit("0.15.1");
    reveal_strlit("0.15.2");
    reveal_strlit("2.0.1");
    reveal_strlit("2.0.2");
    reveal_strlit(".");
    reveal_with_fuel(decimal, 3);
    assert(decimal(15) =~= seq!['1', '5']);
    assert(decimal(0) =~= seq!['0'] && decimal(1) =~= seq!['1'] && decimal(2) =~= seq!['2']);
    assert("0.15.1"@ =~= release_text(0, 15, 1));
    assert("0.15.2"@ =~= release_text(0, 15, 2));
    assert("2.0.1"@ =~= release_text(2, 0, 1));
    assert("2.0.2"@ =~= release_text(2, 0, 2));
}

proof fn places_are_places(
    variants: Seq<CudaVariant>,
    preferred: CudaVariant,
    variant: CudaVariant,
)
    ensures
        place_among(variants, preferred, variant) is Some <==> variants.contains(variant),
        place_among(variants, preferred, variant) matches Some(place) ==> place < variants.len(),
    decreases variants.len(),
{
    if variants.len() > 0 {
        let rest = variants.skip(1);
        places_are_places(rest, preferred, variant);
        if variants[0] == variant {
            assert(variants.contains(variants[0]));
        }
        if rest.contains(variant) {
            let k = choose|k: int| 0 <= k < rest.len() && rest[k] == variant;
            assert(variants[k + 1] == variant);
        }
        if variants.contains(variant) && variants[0] != variant {
            let k = choose|k: int| 0 <= k < variants.len() && variants[k] == variant;
            assert(rest[k - 1] == variant);
        }
    }
}

proof fn earlier_places_are_lower(
    variants: Seq<CudaVariant>,
    preferred: CudaVariant,
    low: int,
    high: int,
)
    requires
        0 <= low < high < variants.len(),
        variants.no_duplicates(),
        variants[low] != preferred,
        variants[high] != preferred,
    ensures
        place_among(variants, preferred, variants[low]) matches Some(one) && place_among(
            variants,
            preferred,
            variants[high],
        ) matches Some(other) && one < other,
    decreases variants.len(),
{
    let rest = variants.skip(1);
    assert(variants.contains(variants[low]) && variants.contains(variants[high]));
    places_are_places(variants, preferred, variants[low]);
    places_are_places(variants, preferred, variants[high]);
    assert(variants[0] != variants[high]);
    if low > 0 {
        assert(rest.no_duplicates());
        assert(rest[low - 1] == variants[low] && rest[high - 1] == variants[high]);
        earlier_places_are_lower(rest, preferred, low - 1, high - 1);
        assert(variants[0] != variants[low]);
    } else {
        assert(rest.contains(variants[high])) by {
            assert(rest[high - 1] == variants[high]);
        }
        places_are_places(rest, preferred, variants[high]);
    }
}

/// The official preference of a release: zero for the variant that it prefers, more for every other
/// variant that it lists, less for an earlier one than for a later one, and none for a variant that
/// it does not list.
pub proof fn preference_follows_the_release(
    rules: RuleSetView,
    version: Seq<char>,
    low: int,
    high: int,
)
    ensures
        release_for(rules, version) is None ==> forall|variant: CudaVariant| #[trigger]
            preference(rules, version, variant) is None,
        release_for(rules, version) matches Some(rule) ==> {
            &&& preference(rules, version, rule.preferred_variant) == Some(0u16)
            &&& forall|variant: CudaVariant|
                variant != rule.preferred_variant ==> #[trigger] preference(
                    rules,
                    version,
                    variant,
                ) != Some(0u16)
            &&& forall|variant: CudaVariant|
                variant != rule.preferred_variant && !rule.variants.contains(variant)
                    ==> #[trigger] preference(rules, version, variant) is None
            &&& rule.variants.no_duplicates() && rule.variants.len() < u16::MAX && 0 <= low < high
                < rule.variants.len() && rule.variants[low] != rule.preferred_variant
                && rule.variants[high] != rule.preferred_variant ==> (preference(
                rules,
                version,
                rule.variants[low],
            ) matches Some(one) && preference(rules, version, rule.variants[high]) matches Some(
                other,
            ) && one < other)
        },
{
    if let Some(rule) = release_for(rules, version) {
        assert forall|variant: CudaVariant|
            variant != rule.preferred_variant && !rule.variants.contains(
                variant,
            ) implies #[trigger] preference(rules, version, variant) is None by {
            places_are_places(rule.variants, rule.preferred_variant, variant);
        }
        if rule.variants.no_duplicates() && 0 <= low < high < rule.variants.len()
            && rule.variants[low] != rule.preferred_variant && rule.variants[high]
            != rule.preferred_variant {
            earlier_places_are_lower(rule.variants, rule.preferred_variant, low, high);
            places_are_places(rule.variants, rule.preferred_variant, rule.variants[low]);
            places_are_places(rule.variants, rule.preferred_variant, rule.variants[high]);
        }
    }
}

proof fn places_are_counted(
    variants: Seq<CudaVariant>,
    preferred: CudaVariant,
    at: int,
    place: int,
)
    requires
        variants.no_duplicates(),
        0 <= place < variants.len(),
        place != at,
        0 <= at < variants.len() ==> variants[at] == preferred,
        at < 0 || at >= variants.len() ==> !variants.contains(preferred),
    ensures
        place_among(variants, preferred, variants[place]) == Some(
            (if 0 <= at < place {
                place - 1
            } else {
                place
            }) as nat,
        ),
    decreases variants.len(),
{
    if place > 0 {
        let rest = variants.skip(1);
        assert forall|i: int, j: int|
            0 <= i < rest.len() && 0 <= j < rest.len() && i != j implies rest[i] != rest[j] by {
            assert(rest[i] == variants[i + 1] && rest[j] == variants[j + 1]);
        }
        assert(rest[place - 1] == variants[place]);
        assert(variants[0] != variants[place]);
        if at == 0 {
            assert(!rest.contains(preferred)) by {
                if rest.contains(preferred) {
                    let k = choose|k: int| 0 <= k < rest.len() && rest[k] == preferred;
                    assert(variants[k + 1] == preferred);
                }
            }
            places_are_counted(rest, preferred, -1, place - 1);
        } else {
            if 0 <= at < variants.len() {
                assert(rest[at - 1] == preferred);
                assert(variants[0] != preferred);
                places_are_counted(rest, preferred, at - 1, place - 1);
            } else {
                assert(!rest.contains(preferred)) by {
                    if rest.contains(preferred) {
                        let k = choose|k: int| 0 <= k < rest.len() && rest[k] == preferred;
                        assert(variants[k + 1] == preferred);
                    }
                }
                assert(variants.contains(variants[0]));
                places_are_counted(rest, preferred, -1, place - 1);
            }
        }
    }
}

/// The variants of a release are numbered from zero on: the preferred one first, then the others in
/// their order.
pub proof fn variants_are_numbered(rules: RuleSetView, version: Seq<char>, at: int, place: int)
    ensures
        release_for(rules, version) matches Some(rule) ==> (rule.variants.no_duplicates()
            && rule.variants.len() < u16::MAX && 0 <= at < rule.variants.len()
            && rule.variants[at] == rule.preferred_variant && 0 <= place < rule.variants.len()
            ==> preference(rules, version, rule.variants[place]) == Some(
            (if place == at {
                0int
            } else if place < at {
                place + 1
            } else {
                place
            }) as u16,
        )),
{
    if let Some(rule) = release_for(rules, version) {
        if rule.variants.no_duplicates() && rule.variants.len() < u16::MAX && 0 <= at
            < rule.variants.len() && rule.variants[at] == rule.preferred_variant && 0 <= place
            < rule.variants.len() && place != at {
            assert(rule.variants[place] != rule.variants[at]);
            places_are_counted(rule.variants, rule.preferred_variant, at, place);
        }
    }
}

} // verus!
