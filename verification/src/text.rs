//! Text as a sequence of characters: the string operations the other modules
//! are built on, each stated over `Seq<char>`.

use vstd::prelude::*;

verus! {

/// `String::push` appends one character.
pub assume_specification[ String::push ](text: &mut String, character: char)
    ensures
        final(text)@ == old(text)@.push(character),
;

/// `str`'s equality compares two texts character by character.
pub assume_specification[ <str as PartialEq<str>>::eq ](left: &str, right: &str) -> (equal: bool)
    ensures
        equal == (left@ == right@),
;

/// The characters of `text`, in order.
pub fn to_chars(text: &str) -> (chars: Vec<char>)
    ensures
        chars@ == text@,
{
    let mut chars: Vec<char> = Vec::new();
    for character in walk: text.chars()
        invariant
            chars@ == text@.take(walk.index()),
            walk.seq() == text@,
    {
        chars.push(character);
        assert(text@.take(walk.index() + 1) =~= text@.take(walk.index()).push(character));
    }
    assert(text@.take(text@.len() as int) =~= text@);
    chars
}

/// The text made of `chars[start..end]`.
pub fn from_chars(chars: &Vec<char>, start: usize, end: usize) -> (text: String)
    requires
        start <= end <= chars@.len(),
    ensures
        text@ == chars@.subrange(start as int, end as int),
{
    let mut text = String::new();
    let mut index: usize = start;
    while index < end
        invariant
            start <= index <= end <= chars@.len(),
            text@ == chars@.subrange(start as int, index as int),
        decreases end - index,
    {
        text.push(chars[index]);
        assert(chars@.subrange(start as int, index + 1) =~= chars@.subrange(
            start as int,
            index as int,
        ).push(chars@[index as int]));
        index = index + 1;
    }
    text
}

/// Whether two texts hold the same characters.
pub fn same(left: &str, right: &str) -> (equal: bool)
    ensures
        equal == (left@ == right@),
{
    *left == *right
}

/// The model of a result: that of its value or of its error.
pub open spec fn outcome<T: DeepView, E: DeepView>(result: Result<T, E>) -> Result<T::V, E::V> {
    match result {
        Ok(value) => Ok(value.deep_view()),
        Err(error) => Err(error.deep_view()),
    }
}

/// Appends `item` to a list, over the models of the items.
pub fn push_item<T: DeepView>(items: &mut Vec<T>, item: T)
    ensures
        final(items).deep_view() == old(items).deep_view().push(item.deep_view()),
        final(items)@ == old(items)@.push(item),
{
    items.push(item);
    assert(items.deep_view() =~= old(items).deep_view().push(item.deep_view()));
}

/// A copy of a list of texts.
pub fn clone_texts(texts: &Vec<String>) -> (copy: Vec<String>)
    ensures
        copy.deep_view() == texts.deep_view(),
{
    let mut copy: Vec<String> = Vec::new();
    let mut index: usize = 0;
    while index < texts.len()
        invariant
            index <= texts@.len(),
            copy.deep_view() == texts.deep_view().take(index as int),
        decreases texts@.len() - index,
    {
        push_item(&mut copy, texts[index].clone());
        assert(texts.deep_view().take(index + 1) =~= texts.deep_view().take(index as int).push(
            texts.deep_view()[index as int],
        ));
        index = index + 1;
    }
    assert(texts.deep_view().take(index as int) =~= texts.deep_view());
    copy
}

/// A copy of an optional text.
pub fn clone_optional(value: &Option<String>) -> (copy: Option<String>)
    ensures
        copy.deep_view() == value.deep_view(),
{
    match value {
        Some(text) => Some(text.clone()),
        None => None,
    }
}

/// The texts after one another.
pub fn concat2(first: &str, second: &str) -> (text: String)
    ensures
        text@ == first@ + second@,
{
    let mut text = first.to_owned();
    text.append(second);
    text
}

/// The texts after one another.
pub fn concat3(first: &str, second: &str, third: &str) -> (text: String)
    ensures
        text@ == first@ + second@ + third@,
{
    let mut text = concat2(first, second);
    text.append(third);
    text
}

/// The texts after one another.
pub fn concat4(first: &str, second: &str, third: &str, fourth: &str) -> (text: String)
    ensures
        text@ == first@ + second@ + third@ + fourth@,
{
    let mut text = concat3(first, second, third);
    text.append(fourth);
    text
}

/// The texts after one another.
pub fn concat5(first: &str, second: &str, third: &str, fourth: &str, fifth: &str) -> (text: String)
    ensures
        text@ == first@ + second@ + third@ + fourth@ + fifth@,
{
    let mut text = concat4(first, second, third, fourth);
    text.append(fifth);
    text
}

/// Whether `items` holds a text equal to `item`.
pub fn contains_text(items: &Vec<String>, item: &str) -> (found: bool)
    ensures
        found == items.deep_view().contains(item@),
{
    let mut index: usize = 0;
    while index < items.len()
        invariant
            index <= items@.len(),
            forall|k: int| 0 <= k < index ==> #[trigger] items.deep_view()[k] != item@,
        decreases items@.len() - index,
    {
        if same(items[index].as_str(), item) {
            assert(items.deep_view()[index as int] == item@);
            return true;
        }
        index = index + 1;
    }
    false
}

/// Whether `left` and `right` hold the same texts in the same order.
pub fn same_texts(left: &Vec<String>, right: &Vec<String>) -> (equal: bool)
    ensures
        equal == (left.deep_view() == right.deep_view()),
{
    if left.len() != right.len() {
        assert(left.deep_view().len() != right.deep_view().len());
        return false;
    }
    let mut index: usize = 0;
    while index < left.len()
        invariant
            index <= left@.len() == right@.len(),
            forall|k: int|
                0 <= k < index ==> #[trigger] left.deep_view()[k] == right.deep_view()[k],
        decreases left@.len() - index,
    {
        if !same(left[index].as_str(), right[index].as_str()) {
            assert(left.deep_view()[index as int] != right.deep_view()[index as int]);
            return false;
        }
        index = index + 1;
    }
    assert(left.deep_view() =~= right.deep_view());
    true
}

// ---------------------------------------------------------------------------
// Characters

/// Unicode's `White_Space` property.
pub open spec fn whitespace(character: char) -> bool {
    ||| '\u{9}' <= character <= '\u{d}'
    ||| character == ' '
    ||| character == '\u{85}'
    ||| character == '\u{a0}'
    ||| character == '\u{1680}'
    ||| '\u{2000}' <= character <= '\u{200a}'
    ||| character == '\u{2028}'
    ||| character == '\u{2029}'
    ||| character == '\u{202f}'
    ||| character == '\u{205f}'
    ||| character == '\u{3000}'
}

/// Whether `character` is white space.
pub fn is_whitespace(character: char) -> (answer: bool)
    ensures
        answer == whitespace(character),
{
    ('\u{9}' <= character && character <= '\u{d}') || character == ' ' || character == '\u{85}'
        || character == '\u{a0}' || character == '\u{1680}' || ('\u{2000}' <= character
        && character <= '\u{200a}') || character == '\u{2028}' || character == '\u{2029}'
        || character == '\u{202f}' || character == '\u{205f}' || character == '\u{3000}'
}

/// Unicode's general category `Cc`.
pub open spec fn control(character: char) -> bool {
    character <= '\u{1f}' || '\u{7f}' <= character <= '\u{9f}'
}

/// Whether `character` is a control character.
pub fn is_control(character: char) -> (answer: bool)
    ensures
        answer == control(character),
{
    character <= '\u{1f}' || ('\u{7f}' <= character && character <= '\u{9f}')
}

/// An ASCII decimal digit.
pub open spec fn digit(character: char) -> bool {
    '0' <= character <= '9'
}

/// Whether `character` is an ASCII decimal digit.
pub fn is_digit(character: char) -> (answer: bool)
    ensures
        answer == digit(character),
{
    '0' <= character && character <= '9'
}

/// An ASCII letter or digit.
pub open spec fn alphanumeric(character: char) -> bool {
    digit(character) || 'a' <= character <= 'z' || 'A' <= character <= 'Z'
}

/// Whether `character` is an ASCII letter or digit.
pub fn is_alphanumeric(character: char) -> (answer: bool)
    ensures
        answer == alphanumeric(character),
{
    is_digit(character) || ('a' <= character && character <= 'z') || ('A' <= character && character
        <= 'Z')
}

/// An ASCII hexadecimal digit.
pub open spec fn hex_digit(character: char) -> bool {
    digit(character) || 'a' <= character <= 'f' || 'A' <= character <= 'F'
}

/// Whether `character` is an ASCII hexadecimal digit.
pub fn is_hex_digit(character: char) -> (answer: bool)
    ensures
        answer == hex_digit(character),
{
    is_digit(character) || ('a' <= character && character <= 'f') || ('A' <= character && character
        <= 'F')
}

/// Whether every character of `text` is a digit.
pub open spec fn all_digits(text: Seq<char>) -> bool {
    forall|i: int| 0 <= i < text.len() ==> digit(#[trigger] text[i])
}

/// The lower-case form of an ASCII letter; any other character unchanged.
pub open spec fn lower(character: char) -> char {
    if 'A' <= character <= 'Z' {
        (character as int + 32) as char
    } else {
        character
    }
}

fn lower_char(character: char) -> (result: char)
    ensures
        result == lower(character),
{
    if 'A' <= character && character <= 'Z' {
        ((character as u8) + 32) as char
    } else {
        character
    }
}

/// `text` with each ASCII letter in lower case.
pub open spec fn lowercase(text: Seq<char>) -> Seq<char> {
    text.map_values(|character: char| lower(character))
}

/// Lower-cases the ASCII letters of `text`.
pub fn to_lowercase(text: &str) -> (result: String)
    ensures
        result@ == lowercase(text@),
{
    let chars = to_chars(text);
    let mut result = String::new();
    let mut index: usize = 0;
    while index < chars.len()
        invariant
            chars@ == text@,
            index <= chars@.len(),
            result@ == lowercase(text@.take(index as int)),
        decreases chars@.len() - index,
    {
        result.push(lower_char(chars[index]));
        assert(lowercase(text@.take(index + 1)) =~= lowercase(text@.take(index as int)).push(
            lower(text@[index as int]),
        ));
        index = index + 1;
    }
    assert(text@.take(index as int) =~= text@);
    result
}

// ---------------------------------------------------------------------------
// Numbers

/// The character of a digit below ten.
pub open spec fn digit_char(value: nat) -> char {
    ('0' as int + value) as char
}

/// `value` in decimal, without leading zeros.
pub open spec fn decimal(value: nat) -> Seq<char>
    decreases value,
{
    if value < 10 {
        seq![digit_char(value)]
    } else {
        decimal(value / 10).push(digit_char(value % 10))
    }
}

/// The number that a sequence of digits denotes.
pub open spec fn decimal_value(text: Seq<char>) -> nat
    decreases text.len(),
{
    if text.len() == 0 {
        0
    } else {
        decimal_value(text.drop_last()) * 10 + (text.last() as int - '0' as int) as nat
    }
}

/// Reading a number's decimal text gives the number back.
pub proof fn decimal_round_trip(value: nat)
    ensures
        decimal(value).len() > 0,
        all_digits(decimal(value)),
        decimal_value(decimal(value)) == value,
    decreases value,
{
    if value < 10 {
        assert(decimal(value).drop_last() =~= Seq::empty());
        reveal_with_fuel(decimal_value, 2);
    } else {
        decimal_round_trip(value / 10);
        assert(decimal(value).drop_last() =~= decimal(value / 10));
    }
}

/// `value` in decimal.
pub fn decimal_text(value: u64) -> (text: String)
    ensures
        text@ == decimal(value as nat),
    decreases value,
{
    if value < 10 {
        let mut text = String::new();
        text.push((48 + value as u8) as char);
        assert(text@ =~= seq![digit_char(value as nat)]);
        text
    } else {
        let mut text = decimal_text(value / 10);
        text.push((48 + (value % 10) as u8) as char);
        text
    }
}

/// `value` in decimal.
pub fn wide_decimal_text(value: u128) -> (text: String)
    ensures
        text@ == decimal(value as nat),
    decreases value,
{
    if value < 10 {
        decimal_text(value as u64)
    } else {
        let mut text = wide_decimal_text(value / 10);
        text.push((48 + (value % 10) as u8) as char);
        text
    }
}

/// The unsigned number that `text` writes in decimal, with an optional leading plus sign,
/// when it is at most `max`.
pub open spec fn unsigned(text: Seq<char>, max: nat) -> Option<nat> {
    let digits = if text.len() > 0 && text[0] == '+' {
        text.skip(1)
    } else {
        text
    };
    if digits.len() > 0 && all_digits(digits) && decimal_value(digits) <= max {
        Some(decimal_value(digits))
    } else {
        None
    }
}

proof fn decimal_value_grows(text: Seq<char>, low: int, high: int)
    requires
        0 <= low <= high <= text.len(),
    ensures
        decimal_value(text.take(low)) <= decimal_value(text.take(high)),
    decreases high - low,
{
    if low < high {
        decimal_value_grows(text, low, high - 1);
        assert(text.take(high).drop_last() =~= text.take(high - 1));
    }
}

/// Parses an unsigned number of at most `max`.
pub fn parse_unsigned(text: &str, max: u64) -> (value: Option<u64>)
    ensures
        (match value {
            Some(number) => Some(number as nat),
            None => None,
        }) == unsigned(text@, max as nat),
{
    let chars = to_chars(text);
    let start: usize = if chars.len() > 0 && chars[0] == '+' {
        1
    } else {
        0
    };
    let ghost digits = text@.skip(start as int);
    assert(text@.skip(0) =~= text@);
    if start == chars.len() {
        return None;
    }
    let mut value: u64 = 0;
    let mut index: usize = start;
    while index < chars.len()
        invariant
            chars@ == text@,
            start <= index <= chars@.len(),
            start <= 1,
            start < chars@.len(),
            digits == text@.skip(start as int),
            forall|k: int| 0 <= k < index - start ==> digit(#[trigger] digits[k]),
            value == decimal_value(digits.take(index - start)),
            value <= max,
            unsigned(text@, max as nat) == (if digits.len() > 0 && all_digits(digits)
                && decimal_value(digits) <= max as nat {
                Some(decimal_value(digits))
            } else {
                None
            }),
        decreases chars@.len() - index,
    {
        let character = chars[index];
        assert(digits[index - start] == character);
        if !is_digit(character) {
            assert(!all_digits(digits));
            return None;
        }
        let unit: u64 = (character as u8 - 48) as u64;
        proof {
            let k = index - start;
            assert(digits.take(k + 1).drop_last() =~= digits.take(k));
            assert(decimal_value(digits.take(k + 1)) == decimal_value(digits.take(k)) * 10 + unit);
            decimal_value_grows(digits, k + 1, digits.len() as int);
            assert(digits.take(digits.len() as int) =~= digits);
        }
        if unit > max || value > (max - unit) / 10 {
            return None;
        }
        value = value * 10 + unit;
        index = index + 1;
    }
    assert(digits.take(digits.len() as int) =~= digits);
    Some(value)
}

} // verus!
