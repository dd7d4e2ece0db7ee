//! Dotted numeric versions and their order.

use crate::order::Order;
use crate::pieces::{
    join, join_split_round_trip, join_texts, split, split_on, trim, trimmed, trimming_is_idempotent,
};
use crate::text::{
    all_digits, concat2, decimal, decimal_round_trip, decimal_text, decimal_value, digit, is_digit,
    outcome, parse_unsigned, push_item, to_chars, whitespace,
};
use std::cmp::Ordering;
use std::str::FromStr;
use vstd::prelude::*;

verus! {

/// A dotted numeric version such as an NVIDIA driver or glibc version.
///
/// Components are compared numerically, while the original representation is
/// retained for diagnostics and machine-readable inspection output. This is
/// significant for NVIDIA driver versions such as `530.30.02`, where the
/// vendor-reported zero padding should not be discarded when the value is
/// displayed.
#[derive(Debug)]
pub struct NumericVersion {
    components: Vec<u32>,
    representation: String,
}

/// What a numeric version stands for: its numbers, and the text it was reported as.
pub struct NumericVersionView {
    pub components: Seq<u32>,
    pub text: Seq<char>,
}

impl DeepView for NumericVersion {
    type V = NumericVersionView;

    closed spec fn deep_view(&self) -> NumericVersionView {
        NumericVersionView { components: self.components@, text: self.representation@ }
    }
}

/// The component at `index`, with zeros after the last one.
pub open spec fn component_at(components: Seq<u32>, index: int) -> u32 {
    if 0 <= index < components.len() {
        components[index]
    } else {
        0
    }
}

/// Whether two versions agree in every component.
pub open spec fn version_equal(left: Seq<u32>, right: Seq<u32>) -> bool {
    forall|i: int| 0 <= i ==> #[trigger] component_at(left, i) == component_at(right, i)
}

/// Whether `left` is smaller in the first component in which the two versions differ.
pub open spec fn version_less(left: Seq<u32>, right: Seq<u32>) -> bool {
    exists|i: int|
        0 <= i && #[trigger] component_at(left, i) < component_at(right, i) && forall|j: int|
            0 <= j < i ==> #[trigger] component_at(left, j) == component_at(right, j)
}

/// The order of two versions.
pub open spec fn version_order(left: Seq<u32>, right: Seq<u32>) -> Order {
    if version_less(left, right) {
        Order::Less
    } else if version_less(right, left) {
        Order::Greater
    } else {
        Order::Equal
    }
}

/// Of two versions exactly one holds: the first is smaller, they are equal, the second is
/// smaller.
pub proof fn version_order_total(left: Seq<u32>, right: Seq<u32>)
    ensures
        version_order(left, right) == Order::Equal <==> version_equal(left, right),
        version_less(left, right) ==> !version_less(right, left),
        version_less(left, right) ==> !version_equal(left, right),
        version_less(left, right) || version_equal(left, right) || version_less(right, left),
{
    let width = if left.len() > right.len() {
        left.len() as int
    } else {
        right.len() as int
    };
    if !version_equal(left, right) {
        let bad = choose|i: int|
            0 <= i && #[trigger] component_at(left, i) != component_at(right, i);
        first_difference(left, right, bad);
    }
    if version_less(left, right) && version_less(right, left) {
        let i = choose|i: int|
            0 <= i && #[trigger] component_at(left, i) < component_at(right, i) && forall|j: int|
                0 <= j < i ==> #[trigger] component_at(left, j) == component_at(right, j);
        let k = choose|i: int|
            0 <= i && #[trigger] component_at(right, i) < component_at(left, i) && forall|j: int|
                0 <= j < i ==> #[trigger] component_at(right, j) == component_at(left, j);
        if i < k {
            assert(component_at(right, i) == component_at(left, i));
        } else if k < i {
            assert(component_at(left, k) == component_at(right, k));
        }
    }
}

proof fn first_difference(left: Seq<u32>, right: Seq<u32>, index: int)
    requires
        0 <= index,
        component_at(left, index) != component_at(right, index),
    ensures
        version_less(left, right) || version_less(right, left),
    decreases index,
{
    if exists|j: int|
        0 <= j < index && #[trigger] component_at(left, j) != component_at(right, j) {
        let j = choose|j: int|
            0 <= j < index && #[trigger] component_at(left, j) != component_at(right, j);
        first_difference(left, right, j);
    } else if component_at(left, index) < component_at(right, index) {
        assert(version_less(left, right));
    } else {
        assert(component_at(right, index) < component_at(left, index));
        assert forall|j: int| 0 <= j < index implies #[trigger] component_at(right, j)
            == component_at(left, j) by {
            assert(component_at(left, j) == component_at(right, j));
        }
        assert(version_less(right, left));
    }
}

/// The order of versions is transitive.
pub proof fn version_order_transitive(a: Seq<u32>, b: Seq<u32>, c: Seq<u32>)
    requires
        !version_less(b, a),
        !version_less(c, b),
    ensures
        !version_less(c, a),
{
    version_order_total(a, b);
    version_order_total(b, c);
    if version_less(c, a) {
        let i = choose|i: int|
            0 <= i && #[trigger] component_at(c, i) < component_at(a, i) && forall|j: int|
                0 <= j < i ==> #[trigger] component_at(c, j) == component_at(a, j);
        if version_equal(a, b) {
            assert(component_at(a, i) == component_at(b, i));
            assert forall|j: int| 0 <= j < i implies #[trigger] component_at(c, j) == component_at(
                b,
                j,
            ) by {
                assert(component_at(a, j) == component_at(b, j));
                assert(component_at(c, j) == component_at(a, j));
            }
            assert(version_less(c, b));
        } else {
            let k = choose|k: int|
                0 <= k && #[trigger] component_at(a, k) < component_at(b, k) && forall|j: int|
                    0 <= j < k ==> #[trigger] component_at(a, j) == component_at(b, j);
            let m = if i < k {
                i
            } else {
                k
            };
            assert(component_at(c, m) < component_at(b, m)) by {
                assert(component_at(a, m) <= component_at(b, m));
                assert(component_at(c, m) <= component_at(a, m));
            }
            assert forall|j: int| 0 <= j < m implies #[trigger] component_at(c, j) == component_at(
                b,
                j,
            ) by {
                assert(component_at(a, j) == component_at(b, j));
                assert(component_at(c, j) == component_at(a, j));
            }
            assert(version_less(c, b));
        }
    }
}

/// Zeros after the last component change no comparison.
pub proof fn trailing_zeros_are_insignificant(version: Seq<u32>, other: Seq<u32>)
    ensures
        version_equal(version, version.push(0)),
        version_order(version.push(0), other) == version_order(version, other),
        version_order(other, version.push(0)) == version_order(other, version),
{
    let padded = version.push(0);
    assert forall|i: int| 0 <= i implies #[trigger] component_at(version, i) == component_at(
        padded,
        i,
    ) by {}
    assert(version_equal(padded, version)) by {
        assert forall|i: int| 0 <= i implies #[trigger] component_at(padded, i) == component_at(
            version,
            i,
        ) by {
            assert(component_at(version, i) == component_at(padded, i));
        }
    }
    version_order_total(version, padded);
    version_order_total(version, other);
    version_order_total(padded, other);
    if !version_less(version, other) {
        version_order_total(padded, version);
        version_order_transitive(other, version, padded);
    } else if !version_less(padded, other) {
        version_order_transitive(other, padded, version);
    }
    if !version_less(other, version) {
        version_order_transitive(padded, version, other);
    } else if !version_less(other, padded) {
        version_order_transitive(version, padded, other);
    }
}

/// Error returned for a malformed dotted numeric version.
#[derive(Debug, Clone, PartialEq, Eq)]
pub enum VersionParseError {
    /// No version was provided.
    Empty,
    /// A component was not numeric.
    InvalidComponent(String),
    /// A component exceeded the supported numeric range.
    Overflow(String),
}

/// What a version parse error says.
pub enum VersionParseErrorView {
    Empty,
    InvalidComponent(Seq<char>),
    Overflow(Seq<char>),
}

impl DeepView for VersionParseError {
    type V = VersionParseErrorView;

    open spec fn deep_view(&self) -> VersionParseErrorView {
        match self {
            VersionParseError::Empty => VersionParseErrorView::Empty,
            VersionParseError::InvalidComponent(part) => VersionParseErrorView::InvalidComponent(
                part@,
            ),
            VersionParseError::Overflow(part) => VersionParseErrorView::Overflow(part@),
        }
    }
}

/// The message of a version parse error.
pub open spec fn version_error_text(error: VersionParseErrorView) -> Seq<char> {
    match error {
        VersionParseErrorView::Empty => "version is empty"@,
        VersionParseErrorView::InvalidComponent(part) => "invalid numeric version component: "@
            + part,
        VersionParseErrorView::Overflow(part) => "numeric version component is too large: "@ + part,
    }
}

impl VersionParseError {
    /// The message of the error.
    pub fn to_string(&self) -> (text: String)
        ensures
            text@ == version_error_text(self.deep_view()),
    {
        match self {
            VersionParseError::Empty => "version is empty".to_owned(),
            VersionParseError::InvalidComponent(part) => concat2(
                "invalid numeric version component: ",
                part.as_str(),
            ),
            VersionParseError::Overflow(part) => concat2(
                "numeric version component is too large: ",
                part.as_str(),
            ),
        }
    }
}

/// The numbers that the parts of a dotted version write, or what is wrong with the first
/// part that writes none.
pub open spec fn parsed_components(parts: Seq<Seq<char>>) -> Result<
    Seq<u32>,
    VersionParseErrorView,
>
    decreases parts.len(),
{
    if parts.len() == 0 {
        Ok(Seq::empty())
    } else {
        match parsed_components(parts.drop_last()) {
            Err(error) => Err(error),
            Ok(components) => {
                let part = parts.last();
                if part.len() == 0 || !all_digits(part) {
                    Err(VersionParseErrorView::InvalidComponent(part))
                } else if decimal_value(part) > u32::MAX {
                    Err(VersionParseErrorView::Overflow(part))
                } else {
                    Ok(components.push(decimal_value(part) as u32))
                }
            },
        }
    }
}

/// The version that `text` writes.
pub open spec fn parsed_version(text: Seq<char>) -> Result<
    NumericVersionView,
    VersionParseErrorView,
> {
    let value = trimmed(text);
    if value.len() == 0 {
        Err(VersionParseErrorView::Empty)
    } else {
        match parsed_components(split_on(value, '.')) {
            Ok(components) => Ok(NumericVersionView { components, text: value }),
            Err(error) => Err(error),
        }
    }
}

/// Whether every character of `text` is a digit, and there is one.
fn is_number(text: &str) -> (answer: bool)
    ensures
        answer == (text@.len() > 0 && all_digits(text@)),
{
    let chars = to_chars(text);
    let mut index: usize = 0;
    while index < chars.len()
        invariant
            chars@ == text@,
            index <= chars@.len(),
            forall|k: int| 0 <= k < index ==> digit(#[trigger] text@[k]),
        decreases chars@.len() - index,
    {
        if !is_digit(chars[index]) {
            assert(!digit(text@[index as int]));
            return false;
        }
        index = index + 1;
    }
    chars.len() > 0
}

/// The decimal texts of `components`.
pub open spec fn component_texts(components: Seq<u32>) -> Seq<Seq<char>> {
    components.map_values(|component: u32| decimal(component as nat))
}

/// What is read of a version is its text as it was written, without white space around it, and
/// reading that text gives the version back.
pub proof fn version_text_is_kept(text: Seq<char>)
    ensures
        parsed_version(text) matches Ok(version) ==> version.text == trimmed(text)
            && parsed_version(version.text) == Ok::<NumericVersionView, VersionParseErrorView>(
            version,
        ),
{
    trimming_is_idempotent(text);
}

proof fn components_are_read_back(components: Seq<u32>)
    ensures
        parsed_components(component_texts(components)) == Ok::<Seq<u32>, VersionParseErrorView>(
            components,
        ),
    decreases components.len(),
{
    let texts = component_texts(components);
    if components.len() == 0 {
        assert(components =~= Seq::<u32>::empty());
    } else {
        let head = components.drop_last();
        assert(texts.drop_last() =~= component_texts(head));
        components_are_read_back(head);
        decimal_round_trip(components.last() as nat);
        assert(head.push(components.last()) =~= components);
    }
}

proof fn ends_are_digits(components: Seq<u32>)
    requires
        components.len() > 0,
    ensures
        ({
            let text = join(component_texts(components), "."@);
            text.len() > 0 && digit(text[0]) && digit(text.last())
        }),
    decreases components.len(),
{
    let texts = component_texts(components);
    let last = decimal(components.last() as nat);
    decimal_round_trip(components.last() as nat);
    assert(digit(last[0]) && digit(last[last.len() - 1]));
    if components.len() == 1 {
        assert(texts[0] == last);
    } else {
        let head = components.drop_last();
        assert(texts.drop_last() =~= component_texts(head));
        ends_are_digits(head);
        assert(texts.last() == last);
    }
}

/// Reading the text of a version that was built from components gives the version back.
pub proof fn version_round_trip(components: Seq<u32>)
    requires
        components.len() > 0,
    ensures
        ({
            let text = join(component_texts(components), "."@);
            parsed_version(text) == Ok::<NumericVersionView, VersionParseErrorView>(
                NumericVersionView { components, text },
            )
        }),
{
    let texts = component_texts(components);
    let text = join(texts, "."@);
    reveal_strlit(".");
    assert("."@ =~= seq!['.']);
    ends_are_digits(components);
    assert(!whitespace(text[0]) && !whitespace(text.last()));
    assert(trimmed(text) == text);
    assert forall|i: int| 0 <= i < texts.len() implies !(#[trigger] texts[i]).contains('.') by {
        decimal_round_trip(components[i] as nat);
        assert(!digit('.'));
    }
    join_split_round_trip(texts, '.');
    components_are_read_back(components);
}

impl NumericVersion {
    /// Builds a version from one or more numeric components.
    pub fn new(components: Vec<u32>) -> (result: Result<NumericVersion, VersionParseError>)
        ensures
            components@.len() == 0 <==> result is Err,
            result matches Err(error) ==> error == VersionParseError::Empty,
            result matches Ok(version) ==> version.deep_view() == (NumericVersionView {
                components: components@,
                text: join(component_texts(components@), "."@),
            }),
    {
        if components.len() == 0 {
            return Err(VersionParseError::Empty);
        }
        let mut texts: Vec<String> = Vec::new();
        let mut index: usize = 0;
        while index < components.len()
            invariant
                index <= components@.len(),
                texts.deep_view() == component_texts(components@.take(index as int)),
            decreases components@.len() - index,
        {
            push_item(&mut texts, decimal_text(components[index] as u64));
            assert(texts.deep_view() =~= component_texts(components@.take(index + 1)));
            index = index + 1;
        }
        assert(components@.take(index as int) =~= components@);
        let representation = join_texts(&texts, ".");
        Ok(NumericVersion { components, representation })
    }

    /// Parses a dotted version, ignoring white space around it.
    pub fn parse(value: &str) -> (result: Result<NumericVersion, VersionParseError>)
        ensures
            outcome(result) == parsed_version(value@),
    {
        let reported = trim(value);
        if reported.as_str().is_empty() {
            return Err(VersionParseError::Empty);
        }
        let parts = split(reported.as_str(), '.');
        let ghost all = parts.deep_view();
        let mut components: Vec<u32> = Vec::new();
        let mut index: usize = 0;
        while index < parts.len()
            invariant
                all == parts.deep_view(),
                all == split_on(reported@, '.'),
                reported@ == trimmed(value@),
                index <= parts@.len(),
                parsed_components(all.take(index as int)) == Ok::<Seq<u32>, VersionParseErrorView>(
                    components@,
                ),
                reported@.len() > 0,
            decreases parts@.len() - index,
        {
            let part = &parts[index];
            proof {
                assert(all.take(index + 1).drop_last() =~= all.take(index as int));
                assert(all.take(index + 1).last() == part@);
            }
            if !is_number(part.as_str()) {
                proof {
                    bad_part_decides(all, index + 1);
                }
                return Err(VersionParseError::InvalidComponent(part.clone()));
            }
            proof {
                assert(part@[0] != '+');
            }
            match parse_unsigned(part.as_str(), u32::MAX as u64) {
                Some(number) => {
                    components.push(number as u32);
                },
                None => {
                    proof {
                        bad_part_decides(all, index + 1);
                    }
                    return Err(VersionParseError::Overflow(part.clone()));
                },
            }
            index = index + 1;
        }
        assert(all.take(index as int) =~= all);
        Ok(NumericVersion { components, representation: reported })
    }

    /// Returns the numeric components.
    pub fn components(&self) -> (components: &[u32])
        ensures
            components@ == self.deep_view().components,
    {
        self.components.as_slice()
    }

    /// Returns a component, treating a missing trailing component as zero.
    pub fn component(&self, index: usize) -> (value: u32)
        ensures
            value == component_at(self.deep_view().components, index as int),
    {
        if index < self.components.len() {
            self.components[index]
        } else {
            0
        }
    }

    /// The version as it was reported.
    pub fn to_string(&self) -> (text: String)
        ensures
            text@ == self.deep_view().text,
    {
        self.representation.clone()
    }

    /// Compares two versions.
    pub fn order(&self, other: &NumericVersion) -> (order: Order)
        ensures
            order == version_order(self.deep_view().components, other.deep_view().components),
    {
        let width: usize = if self.components.len() > other.components.len() {
            self.components.len()
        } else {
            other.components.len()
        };
        let ghost left = self.components@;
        let ghost right = other.components@;
        proof {
            version_order_total(left, right);
        }
        let mut index: usize = 0;
        while index < width
            invariant
                left == self.components@,
                right == other.components@,
                left.len() <= width,
                right.len() <= width,
                index <= width,
                forall|j: int|
                    0 <= j < index ==> #[trigger] component_at(left, j) == component_at(right, j),
            decreases width - index,
        {
            let a: u32 = self.component(index);
            let b: u32 = other.component(index);
            if a < b {
                assert(component_at(left, index as int) < component_at(right, index as int));
                assert(version_less(left, right));
                return Order::Less;
            }
            if a > b {
                proof {
                    assert(component_at(right, index as int) < component_at(left, index as int));
                    assert forall|j: int| 0 <= j < index implies #[trigger] component_at(right, j)
                        == component_at(left, j) by {
                        assert(component_at(left, j) == component_at(right, j));
                    }
                    assert(version_less(right, left));
                    version_order_total(left, right);
                }
                return Order::Greater;
            }
            index = index + 1;
        }
        assert(version_equal(left, right));
        Order::Equal
    }

    /// Compares two versions.
    pub fn cmp(&self, other: &NumericVersion) -> (order: Ordering)
        ensures
            version_order(self.deep_view().components, other.deep_view().components) == (
            match order {
                Ordering::Less => Order::Less,
                Ordering::Equal => Order::Equal,
                Ordering::Greater => Order::Greater,
            }),
    {
        match self.order(other) {
            Order::Less => Ordering::Less,
            Order::Equal => Ordering::Equal,
            Order::Greater => Ordering::Greater,
        }
    }

    /// Whether this version is not smaller than `minimum`.
    pub fn at_least(&self, minimum: &NumericVersion) -> (answer: bool)
        ensures
            answer == !version_less(self.deep_view().components, minimum.deep_view().components),
    {
        self.order(minimum) != Order::Less
    }

    /// The components without zeros at the end; one component stays. Equal versions have
    /// the same significant components.
    pub fn significant(&self) -> (components: Vec<u32>)
        ensures
            components@ == significant_components(self.deep_view().components),
    {
        let mut end: usize = self.components.len();
        assert(self.components@.take(end as int) =~= self.components@);
        while end > 1 && self.components[end - 1] == 0
            invariant
                end <= self.components@.len(),
                significant_components(self.components@) == significant_components(
                    self.components@.take(end as int),
                ),
                self.components@.take(self.components@.len() as int) =~= self.components@,
            decreases end,
        {
            assert(self.components@.take(end as int).drop_last() =~= self.components@.take(
                end - 1,
            ));
            end = end - 1;
        }
        let mut components: Vec<u32> = Vec::new();
        let mut index: usize = 0;
        while index < end
            invariant
                index <= end <= self.components@.len(),
                components@ == self.components@.take(index as int),
            decreases end - index,
        {
            components.push(self.components[index]);
            assert(components@ =~= self.components@.take(index + 1));
            index = index + 1;
        }
        components
    }
}

/// `components` without zeros at the end, down to one component.
pub open spec fn significant_components(components: Seq<u32>) -> Seq<u32>
    decreases components.len(),
{
    if components.len() > 1 && components.last() == 0 {
        significant_components(components.drop_last())
    } else {
        components
    }
}

proof fn significant_is_equal(components: Seq<u32>)
    ensures
        version_equal(components, significant_components(components)),
        components.len() > 0 ==> significant_components(components).len() > 0,
        significant_components(components).len() > 1 ==> significant_components(components).last()
            != 0,
    decreases components.len(),
{
    if components.len() > 1 && components.last() == 0 {
        let head = components.drop_last();
        significant_is_equal(head);
        assert forall|i: int| 0 <= i implies #[trigger] component_at(components, i)
            == component_at(significant_components(components), i) by {
            assert(component_at(head, i) == component_at(significant_components(head), i));
        }
    }
}

/// Versions that compare equal have the same significant components.
pub proof fn equal_versions_share_significant_components(left: Seq<u32>, right: Seq<u32>)
    requires
        left.len() > 0,
        right.len() > 0,
    ensures
        version_equal(left, right) <==> significant_components(left) == significant_components(
            right,
        ),
{
    let a = significant_components(left);
    let b = significant_components(right);
    significant_is_equal(left);
    significant_is_equal(right);
    if version_equal(left, right) {
        assert forall|i: int| 0 <= i implies #[trigger] component_at(a, i) == component_at(b, i) by {
            assert(component_at(left, i) == component_at(a, i));
            assert(component_at(right, i) == component_at(b, i));
            assert(component_at(left, i) == component_at(right, i));
        }
        if a.len() > b.len() {
            assert(component_at(a, a.len() - 1) == component_at(b, a.len() - 1));
        } else if a.len() < b.len() {
            assert(component_at(a, b.len() - 1) == component_at(b, b.len() - 1));
        }
        assert forall|i: int| 0 <= i < a.len() implies a[i] == b[i] by {
            assert(component_at(a, i) == component_at(b, i));
        }
        assert(a =~= b);
    } else {
        if a == b {
            assert forall|i: int| 0 <= i implies #[trigger] component_at(left, i) == component_at(
                right,
                i,
            ) by {
                assert(component_at(left, i) == component_at(a, i));
                assert(component_at(right, i) == component_at(b, i));
            }
        }
    }
}

proof fn bad_part_decides(parts: Seq<Seq<char>>, upto: int)
    requires
        0 < upto <= parts.len(),
        parsed_components(parts.take(upto)) is Err,
    ensures
        parsed_components(parts) == parsed_components(parts.take(upto)),
    decreases parts.len() - upto,
{
    if upto < parts.len() {
        assert(parts.take(upto + 1).drop_last() =~= parts.take(upto));
        bad_part_decides(parts, upto + 1);
    } else {
        assert(parts.take(upto) =~= parts);
    }
}

impl Clone for NumericVersion {
    fn clone(&self) -> (copy: NumericVersion)
        ensures
            copy.deep_view() == self.deep_view(),
    {
        let components = self.components.clone();
        assert(components@ =~= self.components@);
        NumericVersion { components, representation: self.representation.clone() }
    }
}

impl PartialEq for NumericVersion {
    fn eq(&self, other: &NumericVersion) -> (equal: bool) {
        proof {
            version_order_total(self.deep_view().components, other.deep_view().components);
        }
        self.order(other) == Order::Equal
    }
}

impl vstd::std_specs::cmp::PartialEqSpecImpl for NumericVersion {
    open spec fn obeys_eq_spec() -> bool {
        true
    }

    open spec fn eq_spec(&self, other: &NumericVersion) -> bool {
        version_equal(self.deep_view().components, other.deep_view().components)
    }
}

impl Eq for NumericVersion {

}

impl PartialOrd for NumericVersion {
    fn partial_cmp(&self, other: &NumericVersion) -> (order: Option<Ordering>) {
        Some(self.cmp(other))
    }
}

impl vstd::std_specs::cmp::PartialOrdSpecImpl for NumericVersion {
    open spec fn obeys_partial_cmp_spec() -> bool {
        true
    }

    open spec fn partial_cmp_spec(&self, other: &NumericVersion) -> Option<Ordering> {
        Some(
            match version_order(self.deep_view().components, other.deep_view().components) {
                Order::Less => Ordering::Less,
                Order::Equal => Ordering::Equal,
                Order::Greater => Ordering::Greater,
            },
        )
    }
}

impl FromStr for NumericVersion {
    type Err = VersionParseError;

    fn from_str(value: &str) -> (result: Result<NumericVersion, VersionParseError>)
        ensures
            outcome(result) == parsed_version(value@),
    {
        NumericVersion::parse(value)
    }
}

} // verus!
