//! The links of index pages: anchors, wheel variants, wheel file names, and complete
//! snapshots.

use crate::address::{byte_length, joined_parts, policy_error, FetchPolicy, FetchPolicyView};
use crate::details::lookup;

use crate::index_error::{index_error_text, IndexError, IndexErrorView};
use crate::model::{parsed_variant, CudaVariant, TorchWheel, TorchWheelView};
use crate::order::{kept, sort_by, sort_values, Order};
use crate::order::order_chain;
use crate::outside::{
    debug_text, decode_percent, normalize_version, page_tags, pep440_error, pep440_specifier_error,
    pep440_text, percent_decoded, show_debug, specifier_error, tokenize, version_error_message,
    UrlParts, UrlPartsView, MAX_PAGE_BYTES,
};
use crate::pieces::{
    after_prefix, before, before_suffix, ends_with, join, join_texts, order_texts, part_before,
    split, split_first, split_on, split_once, strip_prefix, strip_suffix, text_order, trim, trimmed,
};
use crate::resolver::{order_variants, variant_order};
use crate::rules::contains_variant;
use crate::text::{
    alphanumeric, clone_optional, concat2, concat4, digit, hex_digit, is_alphanumeric, is_digit,
    is_hex_digit, lower, lowercase, outcome, push_item, same, same_texts, to_chars, to_lowercase,
};
use vstd::prelude::*;
use vstd::utf8::encode_utf8;

verus! {

/// Version of the snapshot layout.
pub const INDEX_SCHEMA_VERSION: u32 = 1;

/// Most variants in a snapshot.
pub const MAX_VARIANTS: usize = 64;

/// Most package pages in a refresh: every variant of each of the three packages.
pub const MAX_FETCH_PAGES: usize = 192;

/// Most anchors on a page.
pub const MAX_ANCHORS_PER_PAGE: usize = 100000;

/// Most wheels on a page.
pub const MAX_WHEELS_PER_PAGE: usize = 50000;

/// Most wheels in a snapshot.
pub const MAX_TOTAL_WHEELS: usize = 250000;

/// Most tags in one field of a wheel file name.
pub const MAX_COMPRESSED_TAGS: usize = 64;

/// Longest wheel file name, in bytes.
pub const MAX_FILENAME_BYTES: usize = 1024;

/// Longest address, in bytes.
pub const MAX_URL_BYTES: usize = 8192;

/// Longest `requires-python`, in bytes.
pub const MAX_REQUIRES_PYTHON_BYTES: usize = 1024;

/// How far a snapshot's time may lie in the future, in seconds.
pub const CLOCK_SKEW_SECONDS: u64 = 300;

/// The error that a page cannot be used.
pub open spec fn page_error(url: Seq<char>, reason: Seq<char>) -> IndexErrorView {
    IndexErrorView::InvalidIndex { url, reason }
}

fn invalid_page(url: &str, reason: String) -> (error: IndexError)
    ensures
        error.deep_view() == page_error(url@, reason@),
{
    IndexError::InvalidIndex { url: url.to_owned(), reason }
}

// ---------------------------------------------------------------------------
// Anchors

/// A link of an index page.
#[derive(Debug)]
pub struct IndexAnchor {
    /// Where the link leads.
    pub href: String,
    /// The interpreter versions that the file is for.
    pub requires_python: Option<String>,
    /// Whether the file was withdrawn.
    pub yanked: bool,
}

/// The model of [`IndexAnchor`].
#[verifier::ext_equal]
pub struct IndexAnchorView {
    pub href: Seq<char>,
    pub requires_python: Option<Seq<char>>,
    pub yanked: bool,
}

impl DeepView for IndexAnchor {
    type V = IndexAnchorView;

    open spec fn deep_view(&self) -> IndexAnchorView {
        IndexAnchorView {
            href: self.href@,
            requires_python: self.requires_python.deep_view(),
            yanked: self.yanked,
        }
    }
}

impl Clone for IndexAnchor {
    fn clone(&self) -> (copy: IndexAnchor)
        ensures
            copy.deep_view() == self.deep_view(),
    {
        IndexAnchor {
            href: self.href.clone(),
            requires_python: clone_optional(&self.requires_python),
            yanked: self.yanked,
        }
    }
}

/// How the text inside an element is read.
#[derive(Debug, Clone, Copy, PartialEq, Eq, Structural)]
pub enum RawText {
    /// Text with character references and no markup.
    Rcdata,
    /// Text without character references or markup.
    Rawtext,
    /// A script.
    Script,
}

/// How the text inside an element named `name` is read, where it holds no markup.
pub open spec fn raw_text_of(name: Seq<char>) -> Option<RawText> {
    if name == "title"@ || name == "textarea"@ {
        Some(RawText::Rcdata)
    } else if name == "style"@ || name == "xmp"@ || name == "iframe"@ || name == "noembed"@ || name
        == "noframes"@ || name == "noscript"@ {
        Some(RawText::Rawtext)
    } else if name == "script"@ {
        Some(RawText::Script)
    } else {
        None
    }
}

/// The anchor that a start tag makes, if it makes one.
pub open spec fn anchor_of(name: Seq<char>, attributes: Seq<(Seq<char>, Seq<char>)>) -> Option<
    IndexAnchorView,
> {
    match lookup(attributes, "href"@) {
        Some(href) => if name == "a"@ {
            Some(
                IndexAnchorView {
                    href,
                    requires_python: lookup(attributes, "data-requires-python"@),
                    yanked: lookup(attributes, "data-yanked"@) is Some,
                },
            )
        } else {
            None
        },
        None => None,
    }
}

/// Decides how the text inside an element named `name` is read, where it holds no markup.
pub fn raw_text(name: &str) -> (raw: Option<RawText>)
    ensures
        raw == raw_text_of(name@),
{
    if same(name, "title") || same(name, "textarea") {
        Some(RawText::Rcdata)
    } else if same(name, "style") || same(name, "xmp") || same(name, "iframe") || same(
        name,
        "noembed",
    ) || same(name, "noframes") || same(name, "noscript") {
        Some(RawText::Rawtext)
    } else if same(name, "script") {
        Some(RawText::Script)
    } else {
        None
    }
}

fn last_value(attributes: &Vec<(String, String)>, name: &str) -> (value: Option<String>)
    ensures
        value.deep_view() == lookup(attributes.deep_view(), name@),
{
    let ghost all = attributes.deep_view();
    let mut at: usize = attributes.len();
    assert(all.take(at as int) =~= all);
    while at > 0
        invariant
            all == attributes.deep_view(),
            at <= attributes@.len(),
            lookup(all, name@) == lookup(all.take(at as int), name@),
        decreases at,
    {
        assert(all.take(at as int).last() == all[at - 1]);
        if same(attributes[at - 1].0.as_str(), name) {
            return Some(attributes[at - 1].1.clone());
        }
        assert(all.take(at as int).drop_last() =~= all.take(at - 1));
        at = at - 1;
    }
    None
}

/// The anchors that start tags make, in the order of the tags.
pub open spec fn tag_anchors(tags: Seq<(Seq<char>, Seq<(Seq<char>, Seq<char>)>)>) -> Seq<
    IndexAnchorView,
>
    decreases tags.len(),
{
    if tags.len() == 0 {
        Seq::empty()
    } else {
        let before = tag_anchors(tags.drop_last());
        match anchor_of(tags.last().0, tags.last().1) {
            Some(anchor) => before.push(anchor),
            None => before,
        }
    }
}

/// The anchors of the page at `url`, which has these start tags, or why it cannot be used:
/// its text was not read to the end, or it has too many anchors.
pub open spec fn page_anchors(
    tags: Seq<(Seq<char>, Seq<(Seq<char>, Seq<char>)>)>,
    consumed: bool,
    url: Seq<char>,
) -> Result<Seq<IndexAnchorView>, IndexErrorView> {
    if !consumed {
        Err(page_error(url, "HTML tokenizer did not consume the complete document"@))
    } else if tag_anchors(tags).len() > MAX_ANCHORS_PER_PAGE {
        Err(page_error(url, "index exceeds the 100000-anchor limit"@))
    } else {
        Ok(tag_anchors(tags))
    }
}

proof fn more_tags_make_no_fewer_anchors(
    tags: Seq<(Seq<char>, Seq<(Seq<char>, Seq<char>)>)>,
    count: int,
)
    requires
        0 <= count <= tags.len(),
    ensures
        tag_anchors(tags.take(count)).len() <= tag_anchors(tags).len(),
    decreases tags.len(),
{
    if count == tags.len() {
        assert(tags.take(count) =~= tags);
    } else {
        more_tags_make_no_fewer_anchors(tags.drop_last(), count);
        assert(tags.drop_last().take(count) =~= tags.take(count));
    }
}

fn read_anchor(name: &str, attributes: &Vec<(String, String)>) -> (anchor: Option<IndexAnchor>)
    ensures
        anchor.deep_view() == anchor_of(name@, attributes.deep_view()),
{
    if !same(name, "a") {
        return None;
    }
    match last_value(attributes, "href") {
        None => None,
        Some(href) => {
            let requires_python = last_value(attributes, "data-requires-python");
            let yanked = last_value(attributes, "data-yanked").is_some();
            Some(IndexAnchor { href, requires_python, yanked })
        },
    }
}

/// Collects the anchors of the page at `url` from its start tags.
pub fn collect_anchors(
    tags: &Vec<(String, Vec<(String, String)>)>,
    consumed: bool,
    url: &UrlParts,
) -> (result: Result<Vec<IndexAnchor>, IndexError>)
    ensures
        outcome(result) == page_anchors(tags.deep_view(), consumed, url.deep_view().text),
{
    if !consumed {
        return Err(
            invalid_page(
                url.text.as_str(),
                "HTML tokenizer did not consume the complete document".to_owned(),
            ),
        );
    }
    let ghost all = tags.deep_view();
    let mut anchors: Vec<IndexAnchor> = Vec::new();
    let mut index: usize = 0;
    assert(all.take(0) =~= Seq::empty());
    assert(anchors.deep_view() =~= Seq::empty());
    while index < tags.len()
        invariant
            all == tags.deep_view(),
            index <= all.len(),
            consumed,
            anchors@.len() <= MAX_ANCHORS_PER_PAGE,
            tag_anchors(all.take(index as int)) == anchors.deep_view(),
        decreases tags@.len() - index,
    {
        assert(all.take(index + 1).drop_last() =~= all.take(index as int));
        assert(all.take(index + 1).last() == tags@[index as int].deep_view());
        if let Some(anchor) = read_anchor(tags[index].0.as_str(), &tags[index].1) {
            if anchors.len() >= MAX_ANCHORS_PER_PAGE {
                proof {
                    more_tags_make_no_fewer_anchors(all, index + 1);
                }
                return Err(
                    invalid_page(
                        url.text.as_str(),
                        "index exceeds the 100000-anchor limit".to_owned(),
                    ),
                );
            }
            push_item(&mut anchors, anchor);
        }
        index = index + 1;
    }
    assert(all.take(index as int) =~= all);
    Ok(anchors)
}

/// The anchors of the page at `url` with the text `html`, or why it cannot be used.
pub open spec fn anchors_in(html: Seq<char>, url: UrlPartsView) -> Result<
    Seq<IndexAnchorView>,
    IndexErrorView,
> {
    page_anchors(page_tags(html).0, page_tags(html).1, url.text)
}

/// Reads the anchors of the page at `url` with the text `html`.
pub fn parse_anchors(html: &str, url: &UrlParts) -> (result: Result<Vec<IndexAnchor>, IndexError>)
    requires
        encode_utf8(html@).len() <= MAX_PAGE_BYTES,
    ensures
        outcome(result) == anchors_in(html@, url.deep_view()),
{
    let page = tokenize(html);
    collect_anchors(&page.0, page.1, url)
}

// ---------------------------------------------------------------------------
// Variants

/// The path segments that are not empty.
pub open spec fn path_names(segments: Seq<Seq<char>>) -> Seq<Seq<char>> {
    kept(segments, |segment: Seq<char>| segment.len() > 0)
}

/// The name of a direct child of `root`: an address one path segment below it, without query
/// or fragment.
pub open spec fn child_name(root: UrlPartsView, url: UrlPartsView) -> Option<Seq<char>> {
    if url.query is Some || url.fragment is Some {
        None
    } else {
        match (root.segments, url.segments) {
            (Some(above), Some(below)) => {
                let above = path_names(above);
                let below = path_names(below);
                if below.len() == above.len() + 1 && above.is_prefix_of(below) {
                    match percent_decoded(below.last()) {
                        Ok(name) => Some(name),
                        Err(_) => None,
                    }
                } else {
                    None
                }
            },
            _ => None,
        }
    }
}

fn names_of(segments: &Vec<String>) -> (names: Vec<String>)
    ensures
        names.deep_view() == path_names(segments.deep_view()),
{
    let ghost all = segments.deep_view();
    let ghost keep = |segment: Seq<char>| segment.len() > 0;
    let mut names: Vec<String> = Vec::new();
    let mut index: usize = 0;
    assert(all.take(0) =~= Seq::empty());
    assert(names.deep_view() =~= kept(all.take(0), keep));
    while index < segments.len()
        invariant
            all == segments.deep_view(),
            keep == (|segment: Seq<char>| segment.len() > 0),
            index <= all.len(),
            names.deep_view() == kept(all.take(index as int), keep),
        decreases segments@.len() - index,
    {
        assert(all.take(index + 1).drop_last() =~= all.take(index as int));
        assert(all.take(index + 1).last() == segments@[index as int]@);
        if !segments[index].as_str().is_empty() {
            push_item(&mut names, segments[index].clone());
        }
        index = index + 1;
    }
    assert(all.take(index as int) =~= all);
    names
}

/// The name of a direct child of `root`.
pub fn single_child_name(root: &UrlParts, url: &UrlParts) -> (name: Option<String>)
    ensures
        name.deep_view() == child_name(root.deep_view(), url.deep_view()),
{
    if url.query.is_some() || url.fragment.is_some() {
        return None;
    }
    let above = match &root.segments {
        Some(segments) => names_of(segments),
        None => {
            return None;
        },
    };
    let below = match &url.segments {
        Some(segments) => names_of(segments),
        None => {
            return None;
        },
    };
    let ghost upper = above.deep_view();
    let ghost lower_names = below.deep_view();
    if below.len() == 0 || below.len() - 1 != above.len() {
        return None;
    }
    let mut index: usize = 0;
    while index < above.len()
        invariant
            upper == above.deep_view(),
            lower_names == below.deep_view(),
            below@.len() == above@.len() + 1,
            index <= above@.len(),
            forall|k: int| 0 <= k < index ==> #[trigger] upper[k] == lower_names[k],
            child_name(root.deep_view(), url.deep_view()) == (if lower_names.len() == upper.len() + 1
                && upper.is_prefix_of(lower_names) {
                match percent_decoded(lower_names.last()) {
                    Ok(name) => Some(name),
                    Err(_) => None,
                }
            } else {
                None
            }),
        decreases above@.len() - index,
    {
        if !same(above[index].as_str(), below[index].as_str()) {
            assert(upper[index as int] != lower_names[index as int]);
            assert(!upper.is_prefix_of(lower_names)) by {
                if upper.is_prefix_of(lower_names) {
                    assert(lower_names.subrange(0, upper.len() as int)[index as int]
                        == upper[index as int]);
                }
            }
            return None;
        }
        index = index + 1;
    }
    assert(upper =~= lower_names.subrange(0, upper.len() as int));
    match decode_percent(below[below.len() - 1].as_str()) {
        Ok(name) => Some(name),
        Err(_) => None,
    }
}

/// The variants known after one more anchor of the root page.
pub open spec fn discover_step(
    policy: FetchPolicyView,
    known: Seq<CudaVariant>,
    anchor: IndexAnchorView,
) -> Result<Seq<CudaVariant>, IndexErrorView> {
    if encode_utf8(anchor.href).len() > MAX_URL_BYTES {
        Err(page_error(policy.root.text, "index link exceeds the 8192-byte limit"@))
    } else {
        match joined_parts(policy.root, anchor.href) {
            Err(_) => Ok(known),
            Ok(url) => match child_name(policy.root, url) {
                None => Ok(known),
                Some(name) => match parsed_variant(name) {
                    None => Ok(known),
                    Some(variant) => match policy_error(policy, url) {
                        Some(error) => Err(error),
                        None => if known.contains(variant) {
                            Ok(known)
                        } else if known.len() + 1 > MAX_VARIANTS {
                            Err(
                                page_error(
                                    policy.root.text,
                                    "root index exceeds the 64-variant limit"@,
                                ),
                            )
                        } else {
                            Ok(known.push(variant))
                        },
                    },
                },
            },
        }
    }
}

/// The variants that the anchors of the root page lead to, in the order of the page.
pub open spec fn discovered(policy: FetchPolicyView, anchors: Seq<IndexAnchorView>) -> Result<
    Seq<CudaVariant>,
    IndexErrorView,
>
    decreases anchors.len(),
{
    if anchors.len() == 0 {
        Ok(Seq::empty())
    } else {
        match discovered(policy, anchors.drop_last()) {
            Err(error) => Err(error),
            Ok(known) => discover_step(policy, known, anchors.last()),
        }
    }
}

/// Whether one variant follows another.
pub open spec fn variant_after() -> spec_fn(CudaVariant, CudaVariant) -> bool {
    |left: CudaVariant, right: CudaVariant| variant_order(left, right) == Order::Greater
}

proof fn discovered_decides(policy: FetchPolicyView, anchors: Seq<IndexAnchorView>, upto: int)
    requires
        0 < upto <= anchors.len(),
        discovered(policy, anchors.take(upto)) is Err,
    ensures
        discovered(policy, anchors) == discovered(policy, anchors.take(upto)),
    decreases anchors.len() - upto,
{
    if upto < anchors.len() {
        assert(anchors.take(upto + 1).drop_last() =~= anchors.take(upto));
        discovered_decides(policy, anchors, upto + 1);
    } else {
        assert(anchors.take(upto) =~= anchors);
    }
}

fn take_variant(policy: &FetchPolicy, known: &mut Vec<CudaVariant>, anchor: &IndexAnchor) -> (error:
    Option<IndexError>)
    requires
        old(known)@.len() <= MAX_VARIANTS,
    ensures
        match discover_step(policy.deep_view(), old(known)@, anchor.deep_view()) {
            Ok(variants) => error is None && final(known)@ == variants,
            Err(expected) => error.deep_view() == Some(expected),
        },
        final(known)@.len() <= MAX_VARIANTS,
{
    if byte_length(anchor.href.as_str()) > MAX_URL_BYTES {
        return Some(
            invalid_page(
                policy.root.text.as_str(),
                "index link exceeds the 8192-byte limit".to_owned(),
            ),
        );
    }
    let url = match policy.root.join(anchor.href.as_str()) {
        Ok(url) => url,
        Err(_) => {
            return None;
        },
    };
    let name = match single_child_name(&policy.root, &url) {
        Some(name) => name,
        None => {
            return None;
        },
    };
    let variant = match CudaVariant::parse(name.as_str()) {
        Ok(variant) => variant,
        Err(_) => {
            return None;
        },
    };
    if let Err(error) = policy.validate_url(&url) {
        return Some(error);
    }
    if contains_variant(known, variant) {
        return None;
    }
    if known.len() >= MAX_VARIANTS {
        return Some(
            invalid_page(
                policy.root.text.as_str(),
                "root index exceeds the 64-variant limit".to_owned(),
            ),
        );
    }
    known.push(variant);
    None
}

/// The variants that the anchors of the root page lead to, in ascending order.
pub open spec fn listed_variants(policy: FetchPolicyView, anchors: Seq<IndexAnchorView>) -> Result<
    Seq<CudaVariant>,
    IndexErrorView,
> {
    match discovered(policy, anchors) {
        Ok(known) => Ok(sort_by(known, variant_after())),
        Err(error) => Err(error),
    }
}

/// Finds the variants that the anchors of the root page lead to, in ascending order.
pub fn variants_of_anchors(anchors: &Vec<IndexAnchor>, policy: &FetchPolicy) -> (result: Result<
    Vec<CudaVariant>,
    IndexError,
>)
    ensures
        outcome(result) == listed_variants(policy.deep_view(), anchors.deep_view()),
{
    let ghost all = anchors.deep_view();
    let mut known: Vec<CudaVariant> = Vec::new();
    let mut index: usize = 0;
    assert(all.take(0) =~= Seq::empty());
    while index < anchors.len()
        invariant
            all == anchors.deep_view(),
            index <= all.len(),
            known@.len() <= MAX_VARIANTS,
            discovered(policy.deep_view(), all.take(index as int)) == Ok::<
                Seq<CudaVariant>,
                IndexErrorView,
            >(known@),
        decreases anchors@.len() - index,
    {
        assert(all.take(index + 1).drop_last() =~= all.take(index as int));
        assert(all.take(index + 1).last() == anchors@[index as int].deep_view());
        if let Some(error) = take_variant(policy, &mut known, &anchors[index]) {
            proof {
                discovered_decides(policy.deep_view(), all, index + 1);
            }
            return Err(error);
        }
        index = index + 1;
    }
    assert(all.take(index as int) =~= all);
    let ghost found = known@;
    assert(known.deep_view() =~= found);
    let after = |a: &CudaVariant, b: &CudaVariant| -> (follows: bool)
        ensures
            follows == (variant_order(*a, *b) == Order::Greater),
        { order_variants(a, b) == Order::Greater };
    sort_values(&mut known, after, Ghost(variant_after()));
    Ok(known)
}

/// The variants that the root page with the text `html` lists, in ascending order, or why the
/// page cannot be used.
pub open spec fn variants_in(html: Seq<char>, policy: FetchPolicyView) -> Result<
    Seq<CudaVariant>,
    IndexErrorView,
> {
    match anchors_in(html, policy.root) {
        Ok(anchors) => listed_variants(policy, anchors),
        Err(error) => Err(error),
    }
}

/// Finds the variants that the root page with the text `html` lists, in ascending order.
pub fn discover_variants(html: &str, policy: &FetchPolicy) -> (result: Result<
    Vec<CudaVariant>,
    IndexError,
>)
    requires
        encode_utf8(html@).len() <= MAX_PAGE_BYTES,
    ensures
        outcome(result) == variants_in(html@, policy.deep_view()),
{
    match parse_anchors(html, &policy.root) {
        Ok(anchors) => variants_of_anchors(&anchors, policy),
        Err(error) => Err(error),
    }
}

// ---------------------------------------------------------------------------
// Wheel file names

/// Whether every character may stand in a tag, and there is one.
pub open spec fn tag_valid(tag: Seq<char>) -> bool {
    tag.len() > 0 && forall|i: int|
        0 <= i < tag.len() ==> (alphanumeric(#[trigger] tag[i]) || tag[i] == '_')
}

/// The tags of one field of a wheel file name.
pub open spec fn expanded_tags(value: Seq<char>) -> Seq<Seq<char>> {
    split_on(value, '.').map_values(|tag: Seq<char>| lowercase(tag))
}

/// The tags of one field of a wheel file name, or why they are not valid.
pub open spec fn tags_of(value: Seq<char>, kind: Seq<char>, url: Seq<char>) -> Result<
    Seq<Seq<char>>,
    IndexErrorView,
> {
    let tags = expanded_tags(value);
    if tags.len() > MAX_COMPRESSED_TAGS || exists|i: int|
        0 <= i < tags.len() && !tag_valid(#[trigger] tags[i]) {
        Err(
            page_error(
                url,
                "invalid compressed "@ + kind + " tag "@ + debug_text(value),
            ),
        )
    } else {
        Ok(tags)
    }
}

fn is_tag_valid(tag: &str) -> (answer: bool)
    ensures
        answer == tag_valid(tag@),
{
    let chars = to_chars(tag);
    let mut index: usize = 0;
    while index < chars.len()
        invariant
            chars@ == tag@,
            index <= chars@.len(),
            forall|i: int| 0 <= i < index ==> (alphanumeric(#[trigger] tag@[i]) || tag@[i] == '_'),
        decreases chars@.len() - index,
    {
        if !is_alphanumeric(chars[index]) && chars[index] != '_' {
            assert(!(alphanumeric(tag@[index as int]) || tag@[index as int] == '_'));
            return false;
        }
        index = index + 1;
    }
    chars.len() > 0
}

/// Expands the tags of one field of a wheel file name.
pub fn expand_tags(value: &str, kind: &str, url: &UrlParts) -> (result: Result<
    Vec<String>,
    IndexError,
>)
    ensures
        outcome(result) == tags_of(value@, kind@, url.deep_view().text),
{
    let pieces = split(value, '.');
    let ghost all = pieces.deep_view();
    let ghost wanted = expanded_tags(value@);
    let mut tags: Vec<String> = Vec::new();
    let mut valid = pieces.len() <= MAX_COMPRESSED_TAGS;
    let mut index: usize = 0;
    while index < pieces.len()
        invariant
            all == pieces.deep_view(),
            all == split_on(value@, '.'),
            wanted == expanded_tags(value@),
            index <= all.len(),
            tags.deep_view() == wanted.take(index as int),
            valid == (all.len() <= MAX_COMPRESSED_TAGS && forall|i: int|
                0 <= i < index ==> tag_valid(#[trigger] wanted[i])),
        decreases pieces@.len() - index,
    {
        let tag = to_lowercase(pieces[index].as_str());
        assert(wanted[index as int] == tag@);
        if !is_tag_valid(tag.as_str()) {
            valid = false;
        }
        push_item(&mut tags, tag);
        assert(tags.deep_view() =~= wanted.take(index + 1));
        index = index + 1;
    }
    assert(wanted.take(index as int) =~= wanted);
    if valid {
        Ok(tags)
    } else {
        Err(
            invalid_page(
                url.text.as_str(),
                concat4("invalid compressed ", kind, " tag ", show_debug(value).as_str()),
            ),
        )
    }
}

/// The values of the `sha256` fields of an address fragment.
pub open spec fn sha256_values(fields: Seq<Seq<char>>) -> Seq<Seq<char>>
    decreases fields.len(),
{
    if fields.len() == 0 {
        Seq::empty()
    } else {
        let earlier = sha256_values(fields.drop_last());
        match split_first(fields.last(), '=') {
            Some(parts) => if parts.0 == "sha256"@ {
                earlier.push(parts.1)
            } else {
                earlier
            },
            None => earlier,
        }
    }
}

/// Whether `text` is a SHA-256 in hexadecimal.
pub open spec fn sha256_valid(text: Seq<char>) -> bool {
    text.len() == 64 && forall|i: int| 0 <= i < text.len() ==> hex_digit(#[trigger] text[i])
}

/// The SHA-256 that an address fragment names, in lower case.
pub open spec fn sha256_of(url: UrlPartsView) -> Result<Option<Seq<char>>, IndexErrorView> {
    match url.fragment {
        None => Ok(None),
        Some(fragment) => {
            let values = sha256_values(split_on(fragment, '&'));
            if values.len() == 0 {
                Ok(None)
            } else if values.len() > 1 || !sha256_valid(values[0]) {
                Err(page_error(url.text, "invalid SHA-256 URL fragment"@))
            } else {
                Ok(Some(lowercase(values[0])))
            }
        },
    }
}

fn is_sha256(text: &str) -> (answer: bool)
    ensures
        answer == sha256_valid(text@),
{
    let chars = to_chars(text);
    let mut index: usize = 0;
    while index < chars.len()
        invariant
            chars@ == text@,
            index <= chars@.len(),
            forall|i: int| 0 <= i < index ==> hex_digit(#[trigger] text@[i]),
        decreases chars@.len() - index,
    {
        if !is_hex_digit(chars[index]) {
            assert(!hex_digit(text@[index as int]));
            return false;
        }
        index = index + 1;
    }
    chars.len() == 64
}

fn find_sha256_values(fields: &Vec<String>) -> (values: Vec<String>)
    ensures
        values.deep_view() == sha256_values(fields.deep_view()),
{
    let ghost all = fields.deep_view();
    let mut values: Vec<String> = Vec::new();
    let mut index: usize = 0;
    assert(all.take(0) =~= Seq::empty());
    assert(values.deep_view() =~= Seq::empty());
    while index < fields.len()
        invariant
            all == fields.deep_view(),
            index <= all.len(),
            values.deep_view() == sha256_values(all.take(index as int)),
        decreases fields@.len() - index,
    {
        assert(all.take(index + 1).drop_last() =~= all.take(index as int));
        assert(all.take(index + 1).last() == fields@[index as int]@);
        if let Some(parts) = split_once(fields[index].as_str(), '=') {
            if same(parts.0.as_str(), "sha256") {
                push_item(&mut values, parts.1);
            }
        }
        index = index + 1;
    }
    assert(all.take(index as int) =~= all);
    values
}

/// The SHA-256 that an address fragment names.
pub fn sha256_fragment(url: &UrlParts) -> (result: Result<Option<String>, IndexError>)
    ensures
        outcome(result) == sha256_of(url.deep_view()),
{
    let fragment = match &url.fragment {
        Some(fragment) => fragment,
        None => {
            return Ok(None);
        },
    };
    let fields = split(fragment.as_str(), '&');
    let values = find_sha256_values(&fields);
    if values.len() == 0 {
        return Ok(None);
    }
    assert(values.deep_view()[0] == values@[0]@);
    if values.len() > 1 || !is_sha256(values[0].as_str()) {
        return Err(
            invalid_page(url.text.as_str(), "invalid SHA-256 URL fragment".to_owned()),
        );
    }
    Ok(Some(to_lowercase(values[0].as_str())))
}

/// Whether a file name holds a path separator.
pub open spec fn has_separator(filename: Seq<char>) -> bool {
    exists|i: int|
        0 <= i < filename.len() && (#[trigger] filename[i] == '/' || filename[i] == '\\'
            || filename[i] == '\0')
}

/// Whether a build tag is valid: it begins with a digit and holds tag characters.
pub open spec fn build_valid(build: Seq<char>) -> bool {
    tag_valid(build) && digit(build[0])
}

/// The fields of a wheel file name after the package: version, Python, ABI and platform tags.
pub struct WheelFieldsView {
    pub version: Seq<char>,
    pub python: Seq<char>,
    pub abi: Seq<char>,
    pub platform: Seq<char>,
}

/// The fields of a wheel file name, or what is wrong with it.
pub open spec fn wheel_fields(package: Seq<char>, filename: Seq<char>) -> Result<
    WheelFieldsView,
    Seq<char>,
> {
    match before_suffix(filename, ".whl"@) {
        None => Err("invalid wheel filename "@ + filename),
        Some(stem) => match after_prefix(stem, package + "-"@) {
            None => Err(
                "wheel filename does not match package "@ + package + ": "@ + filename,
            ),
            Some(body) => {
                let parts = split_on(body, '-');
                if parts.len() < 4 {
                    Err("wheel filename has invalid tag fields: "@ + filename)
                } else {
                    let count = parts.len() as int;
                    let head = join(parts.take(count - 3), "-"@);
                    let fields = |version: Seq<char>|
                        WheelFieldsView {
                            version,
                            python: parts[count - 3],
                            abi: parts[count - 2],
                            platform: parts[count - 1],
                        };
                    match split_first(head, '-') {
                        None => Ok(fields(head)),
                        Some(halves) => if build_valid(halves.1) {
                            Ok(fields(halves.0))
                        } else {
                            Err("invalid wheel build tag in "@ + filename)
                        },
                    }
                }
            },
        },
    }
}

/// The wheel that a link stands for, or why it stands for none.
pub open spec fn wheel_link(
    package: Seq<char>,
    variant: CudaVariant,
    filename: Seq<char>,
    url: UrlPartsView,
    yanked: bool,
    requires_python: Option<Seq<char>>,
) -> Result<TorchWheelView, IndexErrorView> {
    if encode_utf8(filename).len() > MAX_FILENAME_BYTES || encode_utf8(url.text).len()
        > MAX_URL_BYTES {
        Err(
            page_error(
                url.text,
                "wheel filename or URL exceeds the configured length limit"@,
            ),
        )
    } else if has_separator(filename) {
        Err(page_error(url.text, "decoded wheel filename contains a path separator"@))
    } else {
        match wheel_fields(package, filename) {
            Err(reason) => Err(page_error(url.text, reason)),
            Ok(fields) => match pep440_text(fields.version) {
                None => Err(
                    page_error(
                        url.text,
                        "invalid PEP 440 wheel version in "@ + filename + ": "@ + pep440_error(
                            fields.version,
                        )->0,
                    ),
                ),
                Some(version) => match tags_of(fields.python, "python"@, url.text) {
                    Err(error) => Err(error),
                    Ok(python_tags) => match tags_of(fields.abi, "ABI"@, url.text) {
                        Err(error) => Err(error),
                        Ok(abi_tags) => match tags_of(fields.platform, "platform"@, url.text) {
                            Err(error) => Err(error),
                            Ok(platform_tags) => match sha256_of(url) {
                                Err(error) => Err(error),
                                Ok(sha256) => Ok(
                                    TorchWheelView {
                                        package,
                                        filename,
                                        version,
                                        public_version: before(version, '+'),
                                        variant,
                                        python_tags,
                                        abi_tags,
                                        platform_tags,
                                        url: url.text,
                                        sha256,
                                        yanked,
                                        requires_python,
                                    },
                                ),
                            },
                        },
                    },
                },
            },
        }
    }
}

fn contains_separator(filename: &str) -> (answer: bool)
    ensures
        answer == has_separator(filename@),
{
    let chars = to_chars(filename);
    let mut index: usize = 0;
    while index < chars.len()
        invariant
            chars@ == filename@,
            index <= chars@.len(),
            forall|i: int|
                0 <= i < index ==> #[trigger] filename@[i] != '/' && filename@[i] != '\\'
                    && filename@[i] != '\0',
        decreases chars@.len() - index,
    {
        if chars[index] == '/' || chars[index] == '\\' || chars[index] == '\0' {
            assert(filename@[index as int] == chars@[index as int]);
            return true;
        }
        index = index + 1;
    }
    false
}

/// The fields of a wheel file name after the package.
struct WheelFields {
    version: String,
    python: String,
    abi: String,
    platform: String,
}

impl DeepView for WheelFields {
    type V = WheelFieldsView;

    closed spec fn deep_view(&self) -> WheelFieldsView {
        WheelFieldsView {
            version: self.version@,
            python: self.python@,
            abi: self.abi@,
            platform: self.platform@,
        }
    }
}

fn leading(parts: &Vec<String>, upto: usize) -> (head: Vec<String>)
    requires
        upto <= parts@.len(),
    ensures
        head.deep_view() == parts.deep_view().take(upto as int),
{
    let ghost all = parts.deep_view();
    let mut head: Vec<String> = Vec::new();
    let mut index: usize = 0;
    assert(head.deep_view() =~= all.take(0));
    while index < upto
        invariant
            all == parts.deep_view(),
            index <= upto <= parts@.len(),
            head.deep_view() == all.take(index as int),
        decreases upto - index,
    {
        push_item(&mut head, parts[index].clone());
        assert(head.deep_view() =~= all.take(index + 1));
        index = index + 1;
    }
    head
}

fn is_build_valid(build: &str) -> (answer: bool)
    ensures
        answer == build_valid(build@),
{
    if !is_tag_valid(build) {
        return false;
    }
    let chars = to_chars(build);
    is_digit(chars[0])
}

fn split_wheel_name(package: &str, filename: &str) -> (result: Result<WheelFields, String>)
    ensures
        outcome(result) == wheel_fields(package@, filename@),
{
    let stem = match strip_suffix(filename, ".whl") {
        Some(stem) => stem,
        None => {
            return Err(concat2("invalid wheel filename ", filename));
        },
    };
    let body = match strip_prefix(stem.as_str(), concat2(package, "-").as_str()) {
        Some(body) => body,
        None => {
            return Err(
                concat4("wheel filename does not match package ", package, ": ", filename),
            );
        },
    };
    let parts = split(body.as_str(), '-');
    let ghost all = parts.deep_view();
    if parts.len() < 4 {
        return Err(concat2("wheel filename has invalid tag fields: ", filename));
    }
    let count: usize = parts.len();
    let head = join_texts(&leading(&parts, count - 3), "-");
    assert(all[count - 3] == parts@[count - 3]@);
    assert(all[count - 2] == parts@[count - 2]@);
    assert(all[count - 1] == parts@[count - 1]@);
    let version = match split_once(head.as_str(), '-') {
        None => head,
        Some(halves) => {
            if !is_build_valid(halves.1.as_str()) {
                return Err(concat2("invalid wheel build tag in ", filename));
            }
            halves.0
        },
    };
    Ok(
        WheelFields {
            version,
            python: parts[count - 3].clone(),
            abi: parts[count - 2].clone(),
            platform: parts[count - 1].clone(),
        },
    )
}

/// Reads the wheel that a link stands for.
pub fn parse_wheel_link(
    package: &str,
    variant: &CudaVariant,
    filename: String,
    url: &UrlParts,
    yanked: bool,
    requires_python: Option<String>,
) -> (result: Result<TorchWheel, IndexError>)
    ensures
        outcome(result) == wheel_link(
            package@,
            *variant,
            filename@,
            url.deep_view(),
            yanked,
            requires_python.deep_view(),
        ),
{
    if byte_length(filename.as_str()) > MAX_FILENAME_BYTES || byte_length(url.text.as_str())
        > MAX_URL_BYTES {
        return Err(
            invalid_page(
                url.text.as_str(),
                "wheel filename or URL exceeds the configured length limit".to_owned(),
            ),
        );
    }
    if contains_separator(filename.as_str()) {
        return Err(
            invalid_page(
                url.text.as_str(),
                "decoded wheel filename contains a path separator".to_owned(),
            ),
        );
    }
    let fields = match split_wheel_name(package, filename.as_str()) {
        Ok(fields) => fields,
        Err(reason) => {
            return Err(invalid_page(url.text.as_str(), reason));
        },
    };
    if let Some(message) = version_error_message(fields.version.as_str()) {
        return Err(
            invalid_page(
                url.text.as_str(),
                concat4(
                    "invalid PEP 440 wheel version in ",
                    filename.as_str(),
                    ": ",
                    message.as_str(),
                ),
            ),
        );
    }
    let version = match normalize_version(fields.version.as_str()) {
        Some(version) => version,
        None => String::new(),
    };
    let python_tags = match expand_tags(fields.python.as_str(), "python", url) {
        Ok(tags) => tags,
        Err(error) => {
            return Err(error);
        },
    };
    let abi_tags = match expand_tags(fields.abi.as_str(), "ABI", url) {
        Ok(tags) => tags,
        Err(error) => {
            return Err(error);
        },
    };
    let platform_tags = match expand_tags(fields.platform.as_str(), "platform", url) {
        Ok(tags) => tags,
        Err(error) => {
            return Err(error);
        },
    };
    let sha256 = match sha256_fragment(url) {
        Ok(sha256) => sha256,
        Err(error) => {
            return Err(error);
        },
    };
    Ok(
        TorchWheel {
            package: package.to_owned(),
            public_version: part_before(version.as_str(), '+'),
            filename,
            version,
            variant: *variant,
            python_tags,
            abi_tags,
            platform_tags,
            url: url.text.clone(),
            sha256,
            yanked,
            requires_python,
        },
    )
}

// ---------------------------------------------------------------------------
// Package pages

/// The interpreter versions that an anchor names, or why they are not valid.
pub open spec fn requires_of(value: Option<Seq<char>>, page: Seq<char>) -> Result<
    Option<Seq<char>>,
    IndexErrorView,
> {
    match value {
        None => Ok(None),
        Some(text) => {
            let bare = trimmed(text);
            if bare.len() == 0 {
                Ok(None)
            } else if encode_utf8(bare).len() > MAX_REQUIRES_PYTHON_BYTES {
                Err(page_error(page, "data-requires-python exceeds the 1024-byte limit"@))
            } else {
                match pep440_specifier_error(bare) {
                    None => Ok(Some(bare)),
                    Some(message) => Err(
                        page_error(
                            page,
                            "invalid data-requires-python "@ + debug_text(bare) + ": "@ + message,
                        ),
                    ),
                }
            }
        },
    }
}

/// Reads the interpreter versions that an anchor names.
pub fn parse_requires_python(value: &Option<String>, page: &UrlParts) -> (result: Result<
    Option<String>,
    IndexError,
>)
    ensures
        outcome(result) == requires_of(value.deep_view(), page.deep_view().text),
{
    let bare = match value {
        Some(text) => trim(text.as_str()),
        None => {
            return Ok(None);
        },
    };
    if bare.as_str().is_empty() {
        return Ok(None);
    }
    if byte_length(bare.as_str()) > MAX_REQUIRES_PYTHON_BYTES {
        return Err(
            invalid_page(
                page.text.as_str(),
                "data-requires-python exceeds the 1024-byte limit".to_owned(),
            ),
        );
    }
    match specifier_error(bare.as_str()) {
        None => Ok(Some(bare)),
        Some(message) => Err(
            invalid_page(
                page.text.as_str(),
                concat4(
                    "invalid data-requires-python ",
                    show_debug(bare.as_str()).as_str(),
                    ": ",
                    message.as_str(),
                ),
            ),
        ),
    }
}

/// Whether two wheels are the same in every field.
pub fn same_wheel(left: &TorchWheel, right: &TorchWheel) -> (equal: bool)
    ensures
        equal == (left.deep_view() == right.deep_view()),
{
    same(left.package.as_str(), right.package.as_str()) && same(
        left.filename.as_str(),
        right.filename.as_str(),
    ) && same(left.version.as_str(), right.version.as_str()) && same(
        left.public_version.as_str(),
        right.public_version.as_str(),
    ) && left.variant == right.variant && same_texts(&left.python_tags, &right.python_tags)
        && same_texts(&left.abi_tags, &right.abi_tags) && same_texts(
        &left.platform_tags,
        &right.platform_tags,
    ) && same(left.url.as_str(), right.url.as_str()) && same_optional(&left.sha256, &right.sha256)
        && left.yanked == right.yanked && same_optional(
        &left.requires_python,
        &right.requires_python,
    )
}

fn same_optional(left: &Option<String>, right: &Option<String>) -> (equal: bool)
    ensures
        equal == (left.deep_view() == right.deep_view()),
{
    match (left, right) {
        (Some(a), Some(b)) => same(a.as_str(), b.as_str()),
        (None, None) => true,
        _ => false,
    }
}

/// The place of a wheel with this file name and address.
pub open spec fn same_link(wheel: TorchWheelView, filename: Seq<char>, url: Seq<char>) -> bool {
    wheel.filename == filename && wheel.url == url
}

/// The first wheel with this file name and address.
pub open spec fn linked_wheel(
    wheels: Seq<TorchWheelView>,
    filename: Seq<char>,
    url: Seq<char>,
) -> Option<TorchWheelView>
    decreases wheels.len(),
{
    if wheels.len() == 0 {
        None
    } else if same_link(wheels[0], filename, url) {
        Some(wheels[0])
    } else {
        linked_wheel(wheels.skip(1), filename, url)
    }
}

/// The wheels known after one more wheel: a repeated link must repeat every field.
pub open spec fn with_wheel(
    known: Seq<TorchWheelView>,
    wheel: TorchWheelView,
    page: Seq<char>,
) -> Result<Seq<TorchWheelView>, IndexErrorView> {
    match linked_wheel(known, wheel.filename, wheel.url) {
        Some(existing) => if existing == wheel {
            Ok(known)
        } else {
            Err(page_error(page, "conflicting duplicate link for "@ + wheel.filename))
        },
        None => if known.len() + 1 > MAX_WHEELS_PER_PAGE {
            Err(page_error(page, "package index exceeds the 50000-wheel limit"@))
        } else {
            Ok(known.push(wheel))
        },
    }
}

/// The file name that an address leads to, or why it cannot be read.
pub open spec fn linked_name(url: UrlPartsView) -> Option<Result<Seq<char>, Seq<char>>> {
    match url.segments {
        None => None,
        Some(segments) => if segments.len() == 0 {
            None
        } else {
            Some(percent_decoded(segments.last()))
        },
    }
}

/// The wheel that an anchor of a package page leads to: none where it leads elsewhere.
pub open spec fn anchor_wheel(
    page: UrlPartsView,
    policy: FetchPolicyView,
    variant: CudaVariant,
    package: Seq<char>,
    anchor: IndexAnchorView,
) -> Result<Option<TorchWheelView>, IndexErrorView> {
    if encode_utf8(anchor.href).len() > MAX_URL_BYTES {
        Err(page_error(page.text, "wheel link exceeds the 8192-byte limit"@))
    } else {
        match joined_parts(page, anchor.href) {
            Err(message) => Err(
                page_error(
                    page.text,
                    "invalid wheel link "@ + debug_text(anchor.href) + ": "@ + message,
                ),
            ),
            Ok(url) => match linked_name(url) {
                None => Ok(None),
                Some(Err(message)) => Err(
                    page_error(page.text, "wheel filename is not UTF-8: "@ + message),
                ),
                Some(Ok(filename)) => if !".whl"@.is_suffix_of(lowercase(filename)) {
                    Ok(None)
                } else {
                    match policy_error(policy, url) {
                        Some(error) => Err(error),
                        None => match requires_of(anchor.requires_python, page.text) {
                            Err(error) => Err(error),
                            Ok(interpreters) => match wheel_link(
                                package,
                                variant,
                                filename,
                                url,
                                anchor.yanked,
                                interpreters,
                            ) {
                                Err(error) => Err(error),
                                Ok(wheel) => Ok(Some(wheel)),
                            },
                        },
                    }
                },
            },
        }
    }
}

/// The wheels that the anchors of a package page lead to, in the order of the page.
pub open spec fn page_wheels(
    page: UrlPartsView,
    policy: FetchPolicyView,
    variant: CudaVariant,
    package: Seq<char>,
    anchors: Seq<IndexAnchorView>,
) -> Result<Seq<TorchWheelView>, IndexErrorView>
    decreases anchors.len(),
{
    if anchors.len() == 0 {
        Ok(Seq::empty())
    } else {
        match page_wheels(page, policy, variant, package, anchors.drop_last()) {
            Err(error) => Err(error),
            Ok(known) => match anchor_wheel(page, policy, variant, package, anchors.last()) {
                Err(error) => Err(error),
                Ok(None) => Ok(known),
                Ok(Some(wheel)) => with_wheel(known, wheel, page.text),
            },
        }
    }
}

/// Whether a link follows another: by file name, then by address.
pub open spec fn link_after() -> spec_fn(TorchWheelView, TorchWheelView) -> bool {
    |left: TorchWheelView, right: TorchWheelView|
        order_chain(text_order(left.filename, right.filename), text_order(left.url, right.url))
            == Order::Greater
}

proof fn page_decides(
    page: UrlPartsView,
    policy: FetchPolicyView,
    variant: CudaVariant,
    package: Seq<char>,
    anchors: Seq<IndexAnchorView>,
    upto: int,
)
    requires
        0 < upto <= anchors.len(),
        page_wheels(page, policy, variant, package, anchors.take(upto)) is Err,
    ensures
        page_wheels(page, policy, variant, package, anchors) == page_wheels(
            page,
            policy,
            variant,
            package,
            anchors.take(upto),
        ),
    decreases anchors.len() - upto,
{
    if upto < anchors.len() {
        assert(anchors.take(upto + 1).drop_last() =~= anchors.take(upto));
        page_decides(page, policy, variant, package, anchors, upto + 1);
    } else {
        assert(anchors.take(upto) =~= anchors);
    }
}

fn find_linked(wheels: &Vec<TorchWheel>, filename: &str, url: &str) -> (place: Option<usize>)
    ensures
        match place {
            Some(at) => at < wheels@.len() && linked_wheel(
                wheels.deep_view(),
                filename@,
                url@,
            ) == Some(wheels@[at as int].deep_view()),
            None => linked_wheel(wheels.deep_view(), filename@, url@) is None,
        },
{
    let ghost all = wheels.deep_view();
    let mut index: usize = 0;
    assert(all.skip(0) =~= all);
    while index < wheels.len()
        invariant
            all == wheels.deep_view(),
            index <= all.len(),
            linked_wheel(all, filename@, url@) == linked_wheel(
                all.skip(index as int),
                filename@,
                url@,
            ),
        decreases wheels@.len() - index,
    {
        assert(all.skip(index as int)[0] == wheels@[index as int].deep_view());
        assert(all.skip(index as int).skip(1) =~= all.skip(index + 1));
        if same(wheels[index].filename.as_str(), filename) && same(
            wheels[index].url.as_str(),
            url,
        ) {
            return Some(index);
        }
        index = index + 1;
    }
    None
}

fn take_wheel(known: &mut Vec<TorchWheel>, wheel: TorchWheel, page: &str) -> (error: Option<
    IndexError,
>)
    requires
        old(known)@.len() <= MAX_WHEELS_PER_PAGE,
    ensures
        match with_wheel(old(known).deep_view(), wheel.deep_view(), page@) {
            Ok(wheels) => error is None && final(known).deep_view() == wheels,
            Err(expected) => error.deep_view() == Some(expected),
        },
        final(known)@.len() <= MAX_WHEELS_PER_PAGE,
{
    match find_linked(known, wheel.filename.as_str(), wheel.url.as_str()) {
        Some(at) => {
            if same_wheel(&known[at], &wheel) {
                None
            } else {
                Some(
                    invalid_page(
                        page,
                        concat2("conflicting duplicate link for ", wheel.filename.as_str()),
                    ),
                )
            }
        },
        None => {
            if known.len() >= MAX_WHEELS_PER_PAGE {
                return Some(
                    invalid_page(page, "package index exceeds the 50000-wheel limit".to_owned()),
                );
            }
            push_item(known, wheel);
            None
        },
    }
}

/// Reads the wheel that an anchor of a package page leads to.
pub fn parse_anchor(
    page: &UrlParts,
    policy: &FetchPolicy,
    variant: &CudaVariant,
    package: &str,
    anchor: &IndexAnchor,
) -> (result: Result<Option<TorchWheel>, IndexError>)
    ensures
        outcome(result) == anchor_wheel(
            page.deep_view(),
            policy.deep_view(),
            *variant,
            package@,
            anchor.deep_view(),
        ),
{
    if byte_length(anchor.href.as_str()) > MAX_URL_BYTES {
        return Err(
            invalid_page(
                page.text.as_str(),
                "wheel link exceeds the 8192-byte limit".to_owned(),
            ),
        );
    }
    let url = match page.join(anchor.href.as_str()) {
        Ok(url) => url,
        Err(message) => {
            return Err(
                invalid_page(
                    page.text.as_str(),
                    concat4(
                        "invalid wheel link ",
                        show_debug(anchor.href.as_str()).as_str(),
                        ": ",
                        message.as_str(),
                    ),
                ),
            );
        },
    };
    let decoded = match read_linked_name(&url) {
        Some(decoded) => decoded,
        None => {
            return Ok(None);
        },
    };
    let filename = match decoded {
        Ok(filename) => filename,
        Err(message) => {
            return Err(
                invalid_page(
                    page.text.as_str(),
                    concat2("wheel filename is not UTF-8: ", message.as_str()),
                ),
            );
        },
    };
    if !ends_with(to_lowercase(filename.as_str()).as_str(), ".whl") {
        return Ok(None);
    }
    if let Err(error) = policy.validate_url(&url) {
        return Err(error);
    }
    let requires_python = match parse_requires_python(&anchor.requires_python, page) {
        Ok(requires_python) => requires_python,
        Err(error) => {
            return Err(error);
        },
    };
    match parse_wheel_link(package, variant, filename, &url, anchor.yanked, requires_python) {
        Ok(wheel) => Ok(Some(wheel)),
        Err(error) => Err(error),
    }
}

fn read_linked_name(url: &UrlParts) -> (name: Option<Result<String, String>>)
    ensures
        (match name {
            Some(result) => Some(outcome(result)),
            None => None,
        }) == linked_name(url.deep_view()),
{
    match &url.segments {
        None => None,
        Some(segments) => {
            if segments.len() == 0 {
                return None;
            }
            let last: usize = segments.len() - 1;
            assert(segments.deep_view().last() == segments@[last as int]@);
            Some(decode_percent(segments[last].as_str()))
        },
    }
}

fn sort_links(wheels: &mut Vec<TorchWheel>)
    ensures
        final(wheels).deep_view() == sort_by(old(wheels).deep_view(), link_after()),
{
    let after = |a: &TorchWheel, b: &TorchWheel| -> (follows: bool)
        ensures
            follows == (order_chain(
                text_order(a.filename@, b.filename@),
                text_order(a.url@, b.url@),
            ) == Order::Greater),
        {
            let first = order_texts(a.filename.as_str(), b.filename.as_str());
            if first == Order::Equal {
                order_texts(a.url.as_str(), b.url.as_str()) == Order::Greater
            } else {
                first == Order::Greater
            }
        };
    sort_values(wheels, after, Ghost(link_after()));
}

/// The wheels that the anchors of a package page lead to, in the order of their file names and
/// addresses.
pub open spec fn listed_wheels(
    page: UrlPartsView,
    policy: FetchPolicyView,
    variant: CudaVariant,
    package: Seq<char>,
    anchors: Seq<IndexAnchorView>,
) -> Result<Seq<TorchWheelView>, IndexErrorView> {
    match page_wheels(page, policy, variant, package, anchors) {
        Ok(wheels) => Ok(sort_by(wheels, link_after())),
        Err(error) => Err(error),
    }
}

/// Reads the wheels that the anchors of a package page lead to, in the order of their file
/// names and addresses.
pub fn wheels_of_anchors(
    anchors: &Vec<IndexAnchor>,
    page: &UrlParts,
    policy: &FetchPolicy,
    variant: &CudaVariant,
    package: &str,
) -> (result: Result<Vec<TorchWheel>, IndexError>)
    ensures
        outcome(result) == listed_wheels(
            page.deep_view(),
            policy.deep_view(),
            *variant,
            package@,
            anchors.deep_view(),
        ),
{
    let ghost all = anchors.deep_view();
    let mut wheels: Vec<TorchWheel> = Vec::new();
    let mut index: usize = 0;
    assert(all.take(0) =~= Seq::empty());
    assert(wheels.deep_view() =~= Seq::empty());
    while index < anchors.len()
        invariant
            all == anchors.deep_view(),
            index <= all.len(),
            wheels@.len() <= MAX_WHEELS_PER_PAGE,
            page_wheels(
                page.deep_view(),
                policy.deep_view(),
                *variant,
                package@,
                all.take(index as int),
            ) == Ok::<Seq<TorchWheelView>, IndexErrorView>(wheels.deep_view()),
        decreases anchors@.len() - index,
    {
        assert(all.take(index + 1).drop_last() =~= all.take(index as int));
        assert(all.take(index + 1).last() == anchors@[index as int].deep_view());
        match parse_anchor(page, policy, variant, package, &anchors[index]) {
            Err(error) => {
                proof {
                    page_decides(
                        page.deep_view(),
                        policy.deep_view(),
                        *variant,
                        package@,
                        all,
                        index + 1,
                    );
                }
                return Err(error);
            },
            Ok(None) => {},
            Ok(Some(wheel)) => {
                if let Some(error) = take_wheel(&mut wheels, wheel, page.text.as_str()) {
                    proof {
                        page_decides(
                            page.deep_view(),
                            policy.deep_view(),
                            *variant,
                            package@,
                            all,
                            index + 1,
                        );
                    }
                    return Err(error);
                }
            },
        }
        index = index + 1;
    }
    assert(all.take(index as int) =~= all);
    sort_links(&mut wheels);
    Ok(wheels)
}

/// The wheels that the package page with the text `html` lists, in the order of their file
/// names and addresses, or why the page cannot be used.
pub open spec fn wheels_in(
    html: Seq<char>,
    page: UrlPartsView,
    policy: FetchPolicyView,
    variant: CudaVariant,
    package: Seq<char>,
) -> Result<Seq<TorchWheelView>, IndexErrorView> {
    match anchors_in(html, page) {
        Ok(anchors) => listed_wheels(page, policy, variant, package, anchors),
        Err(error) => Err(error),
    }
}

/// Reads the wheels of the package page with the text `html`, in the order of their file names
/// and addresses.
pub fn parse_wheel_page(
    html: &str,
    page: &UrlParts,
    policy: &FetchPolicy,
    variant: &CudaVariant,
    package: &str,
) -> (result: Result<Vec<TorchWheel>, IndexError>)
    requires
        encode_utf8(html@).len() <= MAX_PAGE_BYTES,
    ensures
        outcome(result) == wheels_in(
            html@,
            page.deep_view(),
            policy.deep_view(),
            *variant,
            package@,
        ),
{
    match parse_anchors(html, page) {
        Ok(anchors) => wheels_of_anchors(&anchors, page, policy, variant, package),
        Err(error) => Err(error),
    }
}

/// One bad anchor fails its whole page: no wheel of the page is used.
pub proof fn bad_anchor_fails_the_page(
    page: UrlPartsView,
    policy: FetchPolicyView,
    variant: CudaVariant,
    package: Seq<char>,
    anchors: Seq<IndexAnchorView>,
    index: int,
)
    requires
        0 <= index < anchors.len(),
        anchor_wheel(page, policy, variant, package, anchors[index]) is Err,
    ensures
        page_wheels(page, policy, variant, package, anchors) is Err,
{
    let upto = anchors.take(index + 1);
    assert(upto.last() == anchors[index]);
    assert(page_wheels(page, policy, variant, package, upto) is Err);
    page_decides(page, policy, variant, package, anchors, index + 1);
}

// ---------------------------------------------------------------------------
// Responses

/// What is wrong with a response, before its body is read.
pub open spec fn response_error(
    url: Seq<char>,
    status: u16,
    length: Option<u64>,
    content_type: Option<Seq<char>>,
    limit: usize,
) -> Option<IndexErrorView> {
    if !(200 <= status <= 299) {
        Some(IndexErrorView::HttpStatus { url, status })
    } else if length matches Some(known) && known > limit {
        Some(IndexErrorView::ResponseTooLarge { url, limit })
    } else {
        match content_type {
            None => None,
            Some(text) => {
                let kind = lowercase(text);
                if "text/html"@.is_prefix_of(kind)
                    || "application/vnd.pypi.simple.v1+html"@.is_prefix_of(kind) {
                    None
                } else {
                    Some(page_error(url, "unexpected content type "@ + kind))
                }
            },
        }
    }
}

/// Rejects a response before its body is read.
pub fn validate_response(
    url: &str,
    status: u16,
    length: Option<u64>,
    content_type: &Option<String>,
    limit: usize,
) -> (result: Result<(), IndexError>)
    ensures
        result is Ok <==> response_error(
            url@,
            status,
            length,
            content_type.deep_view(),
            limit,
        ) is None,
        result matches Err(error) ==> response_error(
            url@,
            status,
            length,
            content_type.deep_view(),
            limit,
        ) == Some(error.deep_view()),
{
    if status < 200 || status > 299 {
        return Err(IndexError::HttpStatus { url: url.to_owned(), status });
    }
    if let Some(known) = length {
        if known > limit as u64 {
            return Err(IndexError::ResponseTooLarge { url: url.to_owned(), limit });
        }
    }
    if let Some(text) = content_type {
        let kind = to_lowercase(text.as_str());
        if !crate::pieces::starts_with(kind.as_str(), "text/html") && !crate::pieces::starts_with(
            kind.as_str(),
            "application/vnd.pypi.simple.v1+html",
        ) {
            return Err(
                invalid_page(url, concat2("unexpected content type ", kind.as_str())),
            );
        }
    }
    Ok(())
}

/// Most redirects that a request follows.
pub const MAX_REDIRECTS: usize = 5;

/// Why a redirect is not followed.
pub open spec fn redirect_error(
    policy: FetchPolicyView,
    previous: usize,
    url: UrlPartsView,
) -> Option<Seq<char>> {
    if previous >= MAX_REDIRECTS {
        Some("redirect limit exceeded"@)
    } else {
        match policy_error(policy, url) {
            Some(error) => Some(index_error_text(error)),
            None => None,
        }
    }
}

/// Decides whether a redirect is followed.
pub fn check_redirect(policy: &FetchPolicy, previous: usize, url: &UrlParts) -> (result: Result<
    (),
    String,
>)
    ensures
        result is Ok <==> redirect_error(policy.deep_view(), previous, url.deep_view()) is None,
        result matches Err(message) ==> redirect_error(
            policy.deep_view(),
            previous,
            url.deep_view(),
        ) == Some(message@),
{
    if previous >= MAX_REDIRECTS {
        return Err("redirect limit exceeded".to_owned());
    }
    match policy.validate_url(url) {
        Ok(()) => Ok(()),
        Err(error) => Err(error.to_string()),
    }
}

/// Appends a chunk of a response, all of it or nothing of it.
pub fn append_bounded(bytes: &mut Vec<u8>, chunk: &[u8], limit: usize, url: &str) -> (result:
    Result<(), IndexError>)
    ensures
        old(bytes)@.len() + chunk@.len() <= limit ==> result is Ok && final(bytes)@ == old(
            bytes,
        )@ + chunk@,
        old(bytes)@.len() + chunk@.len() > limit ==> final(bytes)@ == old(bytes)@ && (
        result matches Err(error) && error.deep_view() == (IndexErrorView::ResponseTooLarge {
            url: url@,
            limit,
        })),
{
    let total: usize = bytes.len().saturating_add(chunk.len());
    if total > limit || (total == usize::MAX && chunk.len() > usize::MAX - bytes.len()) {
        return Err(IndexError::ResponseTooLarge { url: url.to_owned(), limit });
    }
    let ghost before = bytes@;
    let mut index: usize = 0;
    assert(before + chunk@.take(0) =~= before);
    while index < chunk.len()
        invariant
            index <= chunk@.len(),
            bytes@ == before + chunk@.take(index as int),
        decreases chunk@.len() - index,
    {
        bytes.push(chunk[index]);
        assert(bytes@ =~= before + chunk@.take(index + 1));
        index = index + 1;
    }
    assert(chunk@.take(index as int) =~= chunk@);
    Ok(())
}

} // verus!
