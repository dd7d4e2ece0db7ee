//! What is read of the pages of the index is what stands on them.

use crate::address::{joined_parts, policy_objection, FetchPolicyView};
use crate::details::lookup;
use crate::links::{
    anchor_of, anchor_wheel, child_name, discover_step, discovered, link_after, linked_wheel,
    listed_variants, listed_wheels, page_wheels, path_names, redirect_error, response_error,
    same_link, tag_anchors, variant_after, with_wheel, IndexAnchorView,
};
use crate::model::{parsed_variant, CudaVariant, TorchWheelView};
use crate::order::{sort_keeps_items, sorted_is_ordered, strict_weak_order, Order};
use crate::outside::{percent_decoded, UrlPartsView};
use crate::pieces::{text_order, text_order_antisymmetric, text_order_transitive, trimmed};
use crate::text::lowercase;
use vstd::prelude::*;

verus! {

// ---------------------------------------------------------------------------
// Order of texts and variants

/// A text is before another one where its character is smaller at the first place in which they
/// differ, and where the other one goes on behind it.
pub proof fn first_character_decides(
    equal: Seq<char>,
    low: char,
    high: char,
    left: Seq<char>,
    right: Seq<char>,
)
    requires
        low < high,
    ensures
        text_order(equal.push(low) + left, equal.push(high) + right) == Order::Less,
        text_order(equal, equal.push(low) + left) == Order::Less,
        text_order(equal, equal) == Order::Equal,
    decreases equal.len(),
{
    let one = equal.push(low) + left;
    let other = equal.push(high) + right;
    if equal.len() > 0 {
        let rest = equal.skip(1);
        first_character_decides(rest, low, high, left, right);
        assert(one.skip(1) =~= rest.push(low) + left);
        assert(other.skip(1) =~= rest.push(high) + right);
    } else {
        assert(one[0] == low && other[0] == high);
    }
}

/// Whether variants stand in ascending order, none twice: CPU first, then by CUDA version.
pub open spec fn ascending_variants(variants: Seq<CudaVariant>) -> bool {
    forall|i: int, j: int| #![trigger variants[i], variants[j]]
        0 <= i < j < variants.len() ==> match (variants[i], variants[j]) {
            (_, CudaVariant::Cpu) => false,
            (CudaVariant::Cpu, _) => true,
            (
                CudaVariant::Cuda { major: a, minor: b },
                CudaVariant::Cuda { major: c, minor: d },
            ) => a < c || a == c && b < d,
        }
}

proof fn variants_are_ordered()
    ensures
        strict_weak_order(variant_after()),
{
    let after = variant_after();
    assert forall|a: CudaVariant, b: CudaVariant| #[trigger] after(a, b) implies !after(b, a) by {}
    assert forall|a: CudaVariant, b: CudaVariant, c: CudaVariant|
        #![trigger after(a, b), after(b, c)]
        !after(a, b) && !after(b, c) implies !after(a, c) by {}
}

// ---------------------------------------------------------------------------
// Anchors

proof fn attribute_is_found(attributes: Seq<(Seq<char>, Seq<char>)>, place: int)
    requires
        0 <= place < attributes.len(),
        forall|i: int, j: int| #![trigger attributes[i], attributes[j]]
            0 <= i < j < attributes.len() ==> attributes[i].0 != attributes[j].0,
    ensures
        lookup(attributes, attributes[place].0) == Some(attributes[place].1),
    decreases attributes.len(),
{
    let last = attributes.len() - 1;
    if place < last {
        let head = attributes.drop_last();
        assert forall|i: int, j: int| #![trigger head[i], head[j]]
            0 <= i < j < head.len() implies head[i].0 != head[j].0 by {
            assert(head[i] == attributes[i] && head[j] == attributes[j]);
        }
        assert(attributes[place].0 != attributes[last].0);
        assert(head[place] == attributes[place]);
        attribute_is_found(head, place);
    }
}

proof fn attribute_is_missing(attributes: Seq<(Seq<char>, Seq<char>)>, name: Seq<char>)
    requires
        forall|i: int| 0 <= i < attributes.len() ==> (#[trigger] attributes[i]).0 != name,
    ensures
        lookup(attributes, name) is None,
    decreases attributes.len(),
{
    if attributes.len() > 0 {
        let head = attributes.drop_last();
        assert forall|i: int| 0 <= i < head.len() implies (#[trigger] head[i]).0 != name by {
            assert(head[i] == attributes[i]);
        }
        assert(attributes[attributes.len() - 1].0 != name);
        attribute_is_missing(head, name);
    }
}

/// An `a` tag with an `href` makes an anchor that leads where the tag says; the anchor is withdrawn
/// exactly where the tag has `data-yanked`, and has the interpreter versions of
/// `data-requires-python` where the tag has that. No other tag makes one.
pub proof fn anchors_are_what_the_tags_say(
    name: Seq<char>,
    attributes: Seq<(Seq<char>, Seq<char>)>,
    place: int,
)
    requires
        forall|i: int, j: int| #![trigger attributes[i], attributes[j]]
            0 <= i < j < attributes.len() ==> attributes[i].0 != attributes[j].0,
    ensures
        anchor_of(name, attributes) is Some <==> name == "a"@ && exists|i: int|
            0 <= i < attributes.len() && (#[trigger] attributes[i]).0 == "href"@,
        0 <= place < attributes.len() ==> (anchor_of(name, attributes) matches Some(anchor) ==> {
            &&& attributes[place].0 == "href"@ ==> anchor.href == attributes[place].1
            &&& attributes[place].0 == "data-requires-python"@ ==> anchor.requires_python == Some(
                attributes[place].1,
            )
            &&& attributes[place].0 == "data-yanked"@ ==> anchor.yanked
        }),
        anchor_of(name, attributes) matches Some(anchor) ==> {
            &&& (forall|i: int|
                0 <= i < attributes.len() ==> (#[trigger] attributes[i]).0
                    != "data-requires-python"@) ==> anchor.requires_python is None
            &&& (forall|i: int|
                0 <= i < attributes.len() ==> (#[trigger] attributes[i]).0 != "data-yanked"@)
                ==> !anchor.yanked
        },
{
    if 0 <= place < attributes.len() {
        attribute_is_found(attributes, place);
    }
    if exists|i: int| 0 <= i < attributes.len() && (#[trigger] attributes[i]).0 == "href"@ {
        let k = choose|i: int| 0 <= i < attributes.len() && (#[trigger] attributes[i]).0 == "href"@;
        attribute_is_found(attributes, k);
    } else {
        attribute_is_missing(attributes, "href"@);
    }
    if forall|i: int|
        0 <= i < attributes.len() ==> (#[trigger] attributes[i]).0 != "data-requires-python"@ {
        attribute_is_missing(attributes, "data-requires-python"@);
    }
    if forall|i: int|
        0 <= i < attributes.len() ==> (#[trigger] attributes[i]).0 != "data-yanked"@ {
        attribute_is_missing(attributes, "data-yanked"@);
    }
}

/// The anchors of tags that follow each other are those of the first ones and then those of the
/// others.
pub proof fn anchors_keep_the_order_of_the_tags(
    first: Seq<(Seq<char>, Seq<(Seq<char>, Seq<char>)>)>,
    second: Seq<(Seq<char>, Seq<(Seq<char>, Seq<char>)>)>,
)
    ensures
        tag_anchors(first + second) == tag_anchors(first) + tag_anchors(second),
        first.len() == 1 ==> tag_anchors(first) == (match anchor_of(first[0].0, first[0].1) {
            Some(anchor) => seq![anchor],
            None => Seq::empty(),
        }),
    decreases second.len(),
{
    if first.len() == 1 {
        assert(first.drop_last() =~= Seq::empty());
        reveal_with_fuel(tag_anchors, 2);
        assert(tag_anchors(first) =~= (match anchor_of(first[0].0, first[0].1) {
            Some(anchor) => seq![anchor],
            None => Seq::empty(),
        }));
    }
    if second.len() == 0 {
        assert(first + second =~= first);
        assert(tag_anchors(first) + tag_anchors(second) =~= tag_anchors(first));
    } else {
        let all = first + second;
        anchors_keep_the_order_of_the_tags(first, second.drop_last());
        assert(all.drop_last() =~= first + second.drop_last());
        assert(all.last() == second.last());
        assert(tag_anchors(all) =~= tag_anchors(first) + tag_anchors(second));
    }
}

// ---------------------------------------------------------------------------
// Variants

proof fn nonempty_names(segments: Seq<Seq<char>>)
    ensures
        (forall|i: int| 0 <= i < segments.len() ==> (#[trigger] segments[i]).len() > 0)
            ==> path_names(segments) == segments,
        path_names(segments.push(Seq::empty())) == path_names(segments),
    decreases segments.len(),
{
    let keep = |segment: Seq<char>| segment.len() > 0;
    if segments.len() > 0 {
        let head = segments.drop_last();
        nonempty_names(head);
        if forall|i: int| 0 <= i < segments.len() ==> (#[trigger] segments[i]).len() > 0 {
            assert forall|i: int| 0 <= i < head.len() implies (#[trigger] head[i]).len() > 0 by {
                assert(head[i] == segments[i]);
            }
            assert(segments[segments.len() - 1].len() > 0);
            assert(keep(segments.last()));
            assert(head.push(segments.last()) =~= segments);
        }
    } else {
        assert(path_names(segments) =~= segments);
    }
    let longer = segments.push(Seq::empty());
    assert(longer.drop_last() =~= segments);
    assert(!keep(longer.last()));
}

/// A direct child of the root is an address one path segment below it, with or without a slash
/// behind it, and without query and fragment: its name is that segment, percent-decoded.
pub proof fn direct_children_are_one_segment_below(
    root: UrlPartsView,
    url: UrlPartsView,
    above: Seq<Seq<char>>,
    below: Seq<Seq<char>>,
)
    requires
        forall|i: int| 0 <= i < above.len() ==> (#[trigger] above[i]).len() > 0,
        forall|i: int| 0 <= i < below.len() ==> (#[trigger] below[i]).len() > 0,
        root.segments == Some(above) || root.segments == Some(above.push(Seq::empty())),
        url.segments == Some(below) || url.segments == Some(below.push(Seq::empty())),
    ensures
        child_name(root, url) == (if url.query is None && url.fragment is None && below.len() > 0
            && below.drop_last() == above {
            match percent_decoded(below.last()) {
                Ok(name) => Some(name),
                Err(_) => None,
            }
        } else {
            None
        }),
{
    nonempty_names(above);
    nonempty_names(below);
    if below.len() == above.len() + 1 {
        assert(below.drop_last() =~= below.subrange(0, above.len() as int));
    }
}

/// Whether an anchor of the root page leads to a variant: to a direct child of the root that has
/// its name.
pub open spec fn leads_to(
    policy: FetchPolicyView,
    anchor: IndexAnchorView,
    variant: CudaVariant,
) -> bool {
    joined_parts(policy.root, anchor.href) matches Ok(url) && (child_name(policy.root, url) matches Some(
        name,
    ) && parsed_variant(name) == Some(variant))
}

proof fn discovered_are_led_to(
    policy: FetchPolicyView,
    anchors: Seq<IndexAnchorView>,
    variant: CudaVariant,
)
    ensures
        discovered(policy, anchors) matches Ok(known) ==> {
            &&& known.contains(variant) <==> exists|i: int|
                0 <= i < anchors.len() && leads_to(policy, #[trigger] anchors[i], variant)
            &&& known.no_duplicates()
        },
    decreases anchors.len(),
{
    if anchors.len() > 0 {
        let head = anchors.drop_last();
        let last = anchors[anchors.len() - 1];
        discovered_are_led_to(policy, head, variant);
        if let Ok(known) = discovered(policy, anchors) {
            let earlier = discovered(policy, head)->Ok_0;
            assert(discover_step(policy, earlier, last) == discovered(policy, anchors));
            if exists|i: int|
                0 <= i < head.len() && leads_to(policy, #[trigger] head[i], variant) {
                let k = choose|i: int|
                    0 <= i < head.len() && leads_to(policy, #[trigger] head[i], variant);
                assert(anchors[k] == head[k]);
            }
            if exists|i: int|
                0 <= i < anchors.len() && leads_to(policy, #[trigger] anchors[i], variant) {
                let k = choose|i: int|
                    0 <= i < anchors.len() && leads_to(policy, #[trigger] anchors[i], variant);
                if k < head.len() {
                    assert(head[k] == anchors[k]);
                }
            }
            if known != earlier {
                let added = known.last();
                assert(known =~= earlier.push(added));
                assert(leads_to(policy, last, added));
                assert(known.contains(variant) <==> earlier.contains(variant) || variant
                    == added) by {
                    if earlier.contains(variant) {
                        let k = choose|k: int| 0 <= k < earlier.len() && earlier[k] == variant;
                        assert(known[k] == variant);
                    }
                    if variant == added {
                        assert(known[known.len() - 1] == variant);
                    }
                    if known.contains(variant) && variant != added {
                        let k = choose|k: int| 0 <= k < known.len() && known[k] == variant;
                        assert(earlier[k] == variant);
                    }
                }
            } else if leads_to(policy, last, variant) {
                assert(earlier.contains(variant));
            }
            if leads_to(policy, last, variant) {
                assert(leads_to(policy, anchors[anchors.len() - 1], variant));
            }
        }
    }
}

/// The variants that are read of the root page are exactly those to which one of its anchors leads,
/// in ascending order, each once. Each such anchor leads to an address that may be fetched.
pub proof fn variants_are_those_of_the_page(
    policy: FetchPolicyView,
    anchors: Seq<IndexAnchorView>,
    variant: CudaVariant,
)
    ensures
        listed_variants(policy, anchors) matches Ok(variants) ==> {
            &&& variants.contains(variant) <==> exists|i: int|
                0 <= i < anchors.len() && leads_to(policy, #[trigger] anchors[i], variant)
            &&& ascending_variants(variants)
        },
{
    broadcast use vstd::seq_lib::group_to_multiset_ensures;

    if let Ok(variants) = listed_variants(policy, anchors) {
        let known = discovered(policy, anchors)->Ok_0;
        discovered_are_led_to(policy, anchors, variant);
        variants_are_ordered();
        sort_keeps_items(known, variant_after());
        sorted_is_ordered(known, variant_after());
        assert(variants.contains(variant) <==> variants.to_multiset().count(variant) > 0);
        assert(known.contains(variant) <==> known.to_multiset().count(variant) > 0);
        known.lemma_multiset_has_no_duplicates();
        assert(variants.no_duplicates()) by {
            assert forall|x: CudaVariant|
                variants.to_multiset().contains(x) implies variants.to_multiset().count(x)
                == 1 by {}
            variants.lemma_multiset_has_no_duplicates_conv();
        }
        assert forall|i: int, j: int| #![trigger variants[i], variants[j]]
            0 <= i < j < variants.len() implies match (variants[i], variants[j]) {
            (_, CudaVariant::Cpu) => false,
            (CudaVariant::Cpu, _) => true,
            (
                CudaVariant::Cuda { major: a, minor: b },
                CudaVariant::Cuda { major: c, minor: d },
            ) => a < c || a == c && b < d,
        } by {
            assert(!variant_after()(variants[i], variants[j]));
            assert(variants[i] != variants[j]);
        }
    }
}

// ---------------------------------------------------------------------------
// Wheels

/// The wheel that an anchor of a package page leads to is of the package and variant of the page,
/// stands at the address that the anchor leads to, which may be fetched, has the file name that
/// the address ends with, is withdrawn exactly where the anchor is, and is for the interpreter
/// versions that the anchor names, without white space around them, or for all.
pub proof fn wheels_are_what_the_anchors_say(
    page: UrlPartsView,
    policy: FetchPolicyView,
    variant: CudaVariant,
    package: Seq<char>,
    anchor: IndexAnchorView,
)
    ensures
        anchor_wheel(page, policy, variant, package, anchor) matches Ok(Some(wheel)) ==> {
            &&& wheel.package == package
            &&& wheel.variant == variant
            &&& wheel.yanked == anchor.yanked
            &&& joined_parts(page, anchor.href) matches Ok(url) && wheel.url == url.text
                && policy_objection(policy, url) is None && (url.segments matches Some(segments)
                && segments.len() > 0 && percent_decoded(segments.last()) == Ok::<
                Seq<char>,
                Seq<char>,
            >(wheel.filename))
            &&& wheel.requires_python == (match anchor.requires_python {
                Some(text) => if trimmed(text).len() > 0 {
                    Some(trimmed(text))
                } else {
                    None
                },
                None => None,
            })
        },
        anchor_wheel(page, policy, variant, package, anchor) matches Ok(None) ==> (joined_parts(
            page,
            anchor.href,
        ) matches Ok(url) && (url.segments matches Some(segments) ==> (segments.len() > 0
            ==> (percent_decoded(segments.last()) matches Ok(name) && !".whl"@.is_suffix_of(
            lowercase(name),
        ))))),
{
}

proof fn linked_is_known(wheels: Seq<TorchWheelView>, filename: Seq<char>, url: Seq<char>)
    ensures
        linked_wheel(wheels, filename, url) matches Some(wheel) ==> wheels.contains(wheel)
            && wheel.filename == filename && wheel.url == url,
        linked_wheel(wheels, filename, url) is None ==> forall|i: int|
            0 <= i < wheels.len() ==> !((#[trigger] wheels[i]).filename == filename && wheels[i].url
                == url),
    decreases wheels.len(),
{
    if wheels.len() > 0 {
        let rest = wheels.skip(1);
        linked_is_known(rest, filename, url);
        if same_link(wheels[0], filename, url) {
            assert(wheels.contains(wheels[0]));
        } else if let Some(wheel) = linked_wheel(rest, filename, url) {
            let k = choose|k: int| 0 <= k < rest.len() && rest[k] == wheel;
            assert(wheels[k + 1] == wheel);
        } else {
            assert forall|i: int| 0 <= i < wheels.len() implies !((#[trigger] wheels[i]).filename
                == filename && wheels[i].url == url) by {
                if i > 0 {
                    assert(rest[i - 1] == wheels[i]);
                }
            }
        }
    }
}

/// Whether no two wheels have the same file name and address.
pub open spec fn links_differ(wheels: Seq<TorchWheelView>) -> bool {
    forall|i: int, j: int| #![trigger wheels[i], wheels[j]]
        0 <= i < j < wheels.len() ==> !(wheels[i].filename == wheels[j].filename && wheels[i].url
            == wheels[j].url)
}

proof fn wheels_of_a_page(
    page: UrlPartsView,
    policy: FetchPolicyView,
    variant: CudaVariant,
    package: Seq<char>,
    anchors: Seq<IndexAnchorView>,
    wheel: TorchWheelView,
)
    ensures
        page_wheels(page, policy, variant, package, anchors) matches Ok(wheels) ==> {
            &&& wheels.contains(wheel) <==> exists|i: int|
                0 <= i < anchors.len() && anchor_wheel(
                    page,
                    policy,
                    variant,
                    package,
                    #[trigger] anchors[i],
                ) == Ok::<Option<TorchWheelView>, crate::index_error::IndexErrorView>(Some(wheel))
            &&& links_differ(wheels)
        },
    decreases anchors.len(),
{
    if anchors.len() > 0 {
        let head = anchors.drop_last();
        let last = anchors[anchors.len() - 1];
        wheels_of_a_page(page, policy, variant, package, head, wheel);
        if let Ok(wheels) = page_wheels(page, policy, variant, package, anchors) {
            let earlier = page_wheels(page, policy, variant, package, head)->Ok_0;
            let read = anchor_wheel(page, policy, variant, package, last)->Ok_0;
            if exists|i: int|
                0 <= i < head.len() && anchor_wheel(
                    page,
                    policy,
                    variant,
                    package,
                    #[trigger] head[i],
                ) == Ok::<Option<TorchWheelView>, crate::index_error::IndexErrorView>(Some(wheel)) {
                let k = choose|i: int|
                    0 <= i < head.len() && anchor_wheel(
                        page,
                        policy,
                        variant,
                        package,
                        #[trigger] head[i],
                    ) == Ok::<Option<TorchWheelView>, crate::index_error::IndexErrorView>(
                        Some(wheel),
                    );
                assert(anchors[k] == head[k]);
            }
            if exists|i: int|
                0 <= i < anchors.len() && anchor_wheel(
                    page,
                    policy,
                    variant,
                    package,
                    #[trigger] anchors[i],
                ) == Ok::<Option<TorchWheelView>, crate::index_error::IndexErrorView>(Some(wheel)) {
                let k = choose|i: int|
                    0 <= i < anchors.len() && anchor_wheel(
                        page,
                        policy,
                        variant,
                        package,
                        #[trigger] anchors[i],
                    ) == Ok::<Option<TorchWheelView>, crate::index_error::IndexErrorView>(
                        Some(wheel),
                    );
                if k < head.len() {
                    assert(head[k] == anchors[k]);
                }
            }
            if let Some(added) = read {
                linked_is_known(earlier, added.filename, added.url);
                if linked_wheel(earlier, added.filename, added.url) is None {
                    assert(wheels =~= earlier.push(added));
                    assert(wheels[wheels.len() - 1] == added);
                    if earlier.contains(wheel) {
                        let k = choose|k: int| 0 <= k < earlier.len() && earlier[k] == wheel;
                        assert(wheels[k] == wheel);
                    }
                    if wheels.contains(wheel) && wheel != added {
                        let k = choose|k: int| 0 <= k < wheels.len() && wheels[k] == wheel;
                        assert(earlier[k] == wheel);
                    }
                    assert forall|i: int, j: int| #![trigger wheels[i], wheels[j]]
                        0 <= i < j < wheels.len() implies !(wheels[i].filename == wheels[j].filename
                        && wheels[i].url == wheels[j].url) by {
                        assert(wheels[i] == earlier[i]);
                        if j < earlier.len() {
                            assert(wheels[j] == earlier[j]);
                        }
                    }
                } else {
                    assert(with_wheel(earlier, added, page.text) == Ok::<
                        Seq<TorchWheelView>,
                        crate::index_error::IndexErrorView,
                    >(earlier));
                }
                assert(anchors[anchors.len() - 1] == last);
            }
        }
    }
}

proof fn links_are_ordered()
    ensures
        strict_weak_order(link_after()),
{
    let after = link_after();
    assert forall|a: TorchWheelView, b: TorchWheelView| #[trigger] after(a, b) implies !after(
        b,
        a,
    ) by {
        text_order_antisymmetric(a.filename, b.filename);
        text_order_antisymmetric(a.url, b.url);
    }
    assert forall|a: TorchWheelView, b: TorchWheelView, c: TorchWheelView|
        #![trigger after(a, b), after(b, c)]
        !after(a, b) && !after(b, c) implies !after(a, c) by {
        text_order_antisymmetric(a.filename, b.filename);
        text_order_antisymmetric(b.filename, c.filename);
        text_order_antisymmetric(a.filename, c.filename);
        if text_order(a.filename, b.filename) != Order::Greater && text_order(
            b.filename,
            c.filename,
        ) != Order::Greater {
            text_order_transitive(a.filename, b.filename, c.filename);
        }
        if text_order(a.url, b.url) != Order::Greater && text_order(b.url, c.url)
            != Order::Greater {
            text_order_transitive(a.url, b.url, c.url);
        }
        if a.filename == c.filename && a.filename != b.filename {
            assert(false);
        }
    }
}

/// The wheels that are read of a package page are exactly those to which one of its anchors leads,
/// each link once, in the order of their file names.
pub proof fn wheels_are_those_of_the_page(
    page: UrlPartsView,
    policy: FetchPolicyView,
    variant: CudaVariant,
    package: Seq<char>,
    anchors: Seq<IndexAnchorView>,
    wheel: TorchWheelView,
)
    ensures
        listed_wheels(page, policy, variant, package, anchors) matches Ok(wheels) ==> {
            &&& wheels.contains(wheel) <==> exists|i: int|
                0 <= i < anchors.len() && anchor_wheel(
                    page,
                    policy,
                    variant,
                    package,
                    #[trigger] anchors[i],
                ) == Ok::<Option<TorchWheelView>, crate::index_error::IndexErrorView>(Some(wheel))
            &&& forall|i: int, j: int| #![trigger wheels[i], wheels[j]]
                0 <= i < j < wheels.len() ==> text_order(wheels[i].filename, wheels[j].filename)
                    != Order::Greater
            &&& page_wheels(page, policy, variant, package, anchors) matches Ok(found)
                && found.len() == wheels.len() && links_differ(found)
        },
{
    broadcast use vstd::seq_lib::group_to_multiset_ensures;

    if let Ok(wheels) = listed_wheels(page, policy, variant, package, anchors) {
        let found = page_wheels(page, policy, variant, package, anchors)->Ok_0;
        wheels_of_a_page(page, policy, variant, package, anchors, wheel);
        links_are_ordered();
        sort_keeps_items(found, link_after());
        sorted_is_ordered(found, link_after());
        assert(wheels.contains(wheel) <==> wheels.to_multiset().count(wheel) > 0);
        assert(found.contains(wheel) <==> found.to_multiset().count(wheel) > 0);
        assert forall|i: int, j: int| #![trigger wheels[i], wheels[j]]
            0 <= i < j < wheels.len() implies text_order(wheels[i].filename, wheels[j].filename)
            != Order::Greater by {
            assert(!link_after()(wheels[i], wheels[j]));
        }
    }
}

// ---------------------------------------------------------------------------
// Responses

/// A response is read only where it succeeded, is not longer than the limit as far as it says how
/// long it is, and is HTML as far as it says what it is; and then it is.
pub proof fn responses_are_html_within_the_limit(
    url: Seq<char>,
    status: u16,
    length: Option<u64>,
    content_type: Option<Seq<char>>,
    limit: usize,
)
    ensures
        response_error(url, status, length, content_type, limit) is None <==> {
            &&& status / 100 == 2
            &&& length matches Some(known) ==> !(known > limit)
            &&& content_type matches Some(text) ==> "text/html"@.is_prefix_of(lowercase(text))
                || "application/vnd.pypi.simple.v1+html"@.is_prefix_of(lowercase(text))
        },
{
}

/// A redirect is followed only to an address that the policy admits, and never more than five in a
/// row.
pub proof fn redirects_stay_within_the_policy(
    policy: FetchPolicyView,
    previous: usize,
    url: UrlPartsView,
)
    ensures
        redirect_error(policy, previous, url) is None <==> previous < 5 && policy_objection(
            policy,
            url,
        ) is None,
{
}

} // verus!
