//! Trimming, splitting, joining, searching and ordering of texts.

use crate::order::{
    dedup, distinct, distinct_members, flip, sort_by, sort_orders_all, sort_values,
    strict_weak_order, Order,
};
use crate::text::{contains_text, from_chars, is_whitespace, push_item, same, to_chars, whitespace};
use vstd::prelude::*;
use vstd::std_specs::iter::IteratorSpec;

verus! {

/// `text` without leading white space.
pub open spec fn trim_start(text: Seq<char>) -> Seq<char>
    decreases text.len(),
{
    if text.len() > 0 && whitespace(text[0]) {
        trim_start(text.skip(1))
    } else {
        text
    }
}

/// `text` without trailing white space.
pub open spec fn trim_end(text: Seq<char>) -> Seq<char>
    decreases text.len(),
{
    if text.len() > 0 && whitespace(text.last()) {
        trim_end(text.drop_last())
    } else {
        text
    }
}

/// `text` without white space at either end.
pub open spec fn trimmed(text: Seq<char>) -> Seq<char> {
    trim_end(trim_start(text))
}

proof fn trim_end_passes(core: Seq<char>, after: Seq<char>)
    requires
        core.len() == 0 || !whitespace(core.last()),
        forall|i: int| 0 <= i < after.len() ==> whitespace(#[trigger] after[i]),
    ensures
        trim_end(core + after) == core,
    decreases after.len(),
{
    if after.len() == 0 {
        assert(core + after =~= core);
    } else {
        let text = core + after;
        assert(text.last() == after[after.len() - 1]);
        assert(text.drop_last() =~= core + after.drop_last());
        trim_end_passes(core, after.drop_last());
    }
}

proof fn trim_start_passes(before: Seq<char>, rest: Seq<char>)
    requires
        rest.len() == 0 || !whitespace(rest[0]),
        forall|i: int| 0 <= i < before.len() ==> whitespace(#[trigger] before[i]),
    ensures
        trim_start(before + rest) == rest,
    decreases before.len(),
{
    if before.len() == 0 {
        assert(before + rest =~= rest);
    } else {
        let text = before + rest;
        assert(text[0] == before[0]);
        assert(text.skip(1) =~= before.skip(1) + rest);
        trim_start_passes(before.skip(1), rest);
    }
}

/// Trimming removes exactly the white space around a text that neither begins nor ends with any.
pub proof fn trimming_removes_what_is_around(
    before: Seq<char>,
    core: Seq<char>,
    after: Seq<char>,
)
    requires
        core.len() > 0,
        !whitespace(core[0]),
        !whitespace(core.last()),
        forall|i: int| 0 <= i < before.len() ==> whitespace(#[trigger] before[i]),
        forall|i: int| 0 <= i < after.len() ==> whitespace(#[trigger] after[i]),
    ensures
        trimmed(before + core + after) == core,
{
    assert(before + core + after =~= before + (core + after));
    trim_start_passes(before, core + after);
    trim_end_passes(core, after);
}

proof fn trim_end_settles(text: Seq<char>)
    ensures
        trim_end(text).len() == 0 || !whitespace(trim_end(text).last()),
        trim_end(text).is_prefix_of(text),
    decreases text.len(),
{
    if text.len() > 0 && whitespace(text.last()) {
        trim_end_settles(text.drop_last());
        assert(trim_end(text) =~= text.subrange(0, trim_end(text).len() as int));
    }
}

proof fn trim_start_settles(text: Seq<char>)
    ensures
        trim_start(text).len() == 0 || !whitespace(trim_start(text)[0]),
    decreases text.len(),
{
    if text.len() > 0 && whitespace(text[0]) {
        trim_start_settles(text.skip(1));
    }
}

/// Trimming what is trimmed changes nothing.
pub proof fn trimming_is_idempotent(text: Seq<char>)
    ensures
        trimmed(trimmed(text)) == trimmed(text),
{
    trim_start_settles(text);
    trim_end_settles(trim_start(text));
    let result = trimmed(text);
    if result.len() > 0 {
        assert(result[0] == trim_start(text)[0]);
    }
}

/// Removes white space at both ends.
pub fn trim(text: &str) -> (result: String)
    ensures
        result@ == trimmed(text@),
{
    let chars = to_chars(text);
    let mut start: usize = 0;
    assert(text@.skip(0) =~= text@);
    while start < chars.len() && is_whitespace(chars[start])
        invariant
            chars@ == text@,
            start <= chars@.len(),
            trim_start(text@) == trim_start(text@.skip(start as int)),
        decreases chars@.len() - start,
    {
        assert(text@.skip(start as int).skip(1) =~= text@.skip(start + 1));
        start = start + 1;
    }
    assert(start < text@.len() ==> text@.skip(start as int)[0] == text@[start as int]);
    assert(trim_start(text@) == text@.skip(start as int));
    let mut end: usize = chars.len();
    assert(text@.subrange(start as int, end as int) =~= text@.skip(start as int));
    while end > start && is_whitespace(chars[end - 1])
        invariant
            chars@ == text@,
            start <= end <= chars@.len(),
            trimmed(text@) == trim_end(text@.subrange(start as int, end as int)),
        decreases end,
    {
        assert(text@.subrange(start as int, end as int).drop_last() =~= text@.subrange(
            start as int,
            end - 1,
        ));
        end = end - 1;
    }
    from_chars(&chars, start, end)
}

/// `text` without the trailing run of `character`.
pub open spec fn trim_end_char(text: Seq<char>, character: char) -> Seq<char>
    decreases text.len(),
{
    if text.len() > 0 && text.last() == character {
        trim_end_char(text.drop_last(), character)
    } else {
        text
    }
}

/// Removes the trailing run of `character`.
pub fn trim_trailing(text: &str, character: char) -> (result: String)
    ensures
        result@ == trim_end_char(text@, character),
{
    let chars = to_chars(text);
    let mut end: usize = chars.len();
    assert(text@.subrange(0, end as int) =~= text@);
    while end > 0 && chars[end - 1] == character
        invariant
            chars@ == text@,
            end <= chars@.len(),
            trim_end_char(text@, character) == trim_end_char(
                text@.subrange(0, end as int),
                character,
            ),
        decreases end,
    {
        assert(text@.subrange(0, end as int).drop_last() =~= text@.subrange(0, end - 1));
        end = end - 1;
    }
    from_chars(&chars, 0, end)
}

/// The pieces of `text` between occurrences of `separator`.
pub open spec fn split_on(text: Seq<char>, separator: char) -> Seq<Seq<char>>
    decreases text.len(),
{
    if text.len() == 0 {
        seq![Seq::empty()]
    } else {
        let pieces = split_on(text.drop_last(), separator);
        if text.last() == separator {
            pieces.push(Seq::empty())
        } else {
            pieces.drop_last().push(pieces.last().push(text.last()))
        }
    }
}

/// There is always at least one piece.
pub proof fn split_nonempty(text: Seq<char>, separator: char)
    ensures
        split_on(text, separator).len() > 0,
    decreases text.len(),
{
    if text.len() > 0 {
        split_nonempty(text.drop_last(), separator);
    }
}

/// Splits `text` at each `separator`.
pub fn split(text: &str, separator: char) -> (pieces: Vec<String>)
    ensures
        pieces.deep_view() == split_on(text@, separator),
        pieces@.len() > 0,
{
    let chars = to_chars(text);
    let mut pieces: Vec<String> = Vec::new();
    let mut piece = String::new();
    let mut index: usize = 0;
    assert(text@.take(0) =~= Seq::empty());
    assert(pieces.deep_view().push(piece@) =~= seq![Seq::<char>::empty()]);
    while index < chars.len()
        invariant
            chars@ == text@,
            index <= chars@.len(),
            pieces.deep_view().push(piece@) == split_on(text@.take(index as int), separator),
        decreases chars@.len() - index,
    {
        let character = chars[index];
        proof {
            assert(text@.take(index + 1).drop_last() =~= text@.take(index as int));
            assert(text@.take(index + 1).last() == character);
            let known = pieces.deep_view().push(piece@);
            assert(known.drop_last() =~= pieces.deep_view());
            assert(known.last() == piece@);
        }
        if character == separator {
            push_item(&mut pieces, piece);
            piece = String::new();
        } else {
            piece.push(character);
        }
        index = index + 1;
    }
    assert(text@.take(index as int) =~= text@);
    push_item(&mut pieces, piece);
    pieces
}

/// `pieces` with `separator` between neighbours.
pub open spec fn join(pieces: Seq<Seq<char>>, separator: Seq<char>) -> Seq<char>
    decreases pieces.len(),
{
    if pieces.len() == 0 {
        Seq::empty()
    } else if pieces.len() == 1 {
        pieces[0]
    } else {
        join(pieces.drop_last(), separator) + separator + pieces.last()
    }
}

/// Joins `pieces` with `separator`.
pub fn join_texts(pieces: &Vec<String>, separator: &str) -> (text: String)
    ensures
        text@ == join(pieces.deep_view(), separator@),
{
    let mut text = String::new();
    let mut index: usize = 0;
    let ghost all = pieces.deep_view();
    while index < pieces.len()
        invariant
            all == pieces.deep_view(),
            index <= pieces@.len(),
            text@ == join(all.take(index as int), separator@),
        decreases pieces@.len() - index,
    {
        proof {
            assert(all.take(index + 1).drop_last() =~= all.take(index as int));
            assert(all.take(index + 1).last() == all[index as int]);
        }
        if index > 0 {
            text.append(separator);
        }
        text.append(pieces[index].as_str());
        proof {
            if index == 0 {
                assert(text@ =~= all[0]);
            }
        }
        index = index + 1;
    }
    assert(all.take(index as int) =~= all);
    text
}

/// A separator and a piece without one add that piece.
pub proof fn split_adds_a_piece(text: Seq<char>, piece: Seq<char>, separator: char)
    requires
        !piece.contains(separator),
    ensures
        split_on(text.push(separator) + piece, separator) == split_on(text, separator).push(piece),
    decreases piece.len(),
{
    let start = text.push(separator);
    if piece.len() == 0 {
        assert(start + piece =~= start);
        assert(start.drop_last() =~= text);
        assert(piece =~= Seq::<char>::empty());
    } else {
        let whole = start + piece;
        let known = split_on(text, separator);
        assert(whole.last() == piece[piece.len() - 1]);
        assert(piece.contains(piece[piece.len() - 1]));
        assert(whole.drop_last() =~= start + piece.drop_last());
        assert forall|i: int| 0 <= i < piece.len() - 1 implies #[trigger] piece.drop_last()[i]
            != separator by {
            assert(piece.contains(piece[i]));
        }
        split_adds_a_piece(text, piece.drop_last(), separator);
        assert(known.push(piece.drop_last()).drop_last() =~= known);
        assert(piece.drop_last().push(piece.last()) =~= piece);
    }
}

/// A text without the separator is one piece.
pub proof fn split_of_one_piece(piece: Seq<char>, separator: char)
    requires
        !piece.contains(separator),
    ensures
        split_on(piece, separator) == seq![piece],
    decreases piece.len(),
{
    if piece.len() == 0 {
        assert(piece =~= Seq::<char>::empty());
    } else {
        assert(piece.contains(piece[piece.len() - 1]));
        assert forall|i: int| 0 <= i < piece.len() - 1 implies #[trigger] piece.drop_last()[i]
            != separator by {
            assert(piece.contains(piece[i]));
        }
        split_of_one_piece(piece.drop_last(), separator);
        assert(piece.drop_last().push(piece.last()) =~= piece);
        assert(split_on(piece, separator) =~= seq![piece]);
    }
}

/// Splitting what was joined gives the pieces back, where none of them holds the separator.
pub proof fn join_split_round_trip(pieces: Seq<Seq<char>>, separator: char)
    requires
        pieces.len() > 0,
        forall|i: int| 0 <= i < pieces.len() ==> !(#[trigger] pieces[i]).contains(separator),
    ensures
        split_on(join(pieces, seq![separator]), separator) == pieces,
    decreases pieces.len(),
{
    let last = pieces[pieces.len() - 1];
    if pieces.len() == 1 {
        split_of_one_piece(last, separator);
        assert(pieces =~= seq![last]);
        assert(join(pieces, seq![separator]) =~= last);
    } else {
        let head = pieces.drop_last();
        assert forall|i: int| 0 <= i < head.len() implies !(#[trigger] head[i]).contains(
            separator,
        ) by {
            assert(head[i] == pieces[i]);
        }
        join_split_round_trip(head, separator);
        let text = join(head, seq![separator]);
        split_adds_a_piece(text, last, separator);
        assert(join(pieces, seq![separator]) =~= text.push(separator) + last);
        assert(head.push(last) =~= pieces);
    }
}

/// Joining the pieces of a split with the separator gives the text back.
pub proof fn split_join_round_trip(text: Seq<char>, separator: char)
    ensures
        join(split_on(text, separator), seq![separator]) == text,
    decreases text.len(),
{
    if text.len() == 0 {
    } else {
        let head = text.drop_last();
        split_join_round_trip(head, separator);
        split_nonempty(head, separator);
        let known = split_on(head, separator);
        let pieces = split_on(text, separator);
        assert(text =~= head.push(text.last()));
        if text.last() == separator {
            assert(pieces.drop_last() =~= known);
            assert(join(pieces, seq![separator]) =~= head + seq![separator]);
        } else {
            assert(pieces.drop_last() =~= known.drop_last());
            assert(pieces.last() == known.last().push(text.last()));
            if known.len() == 1 {
                assert(join(pieces, seq![separator]) =~= text);
            } else {
                assert(join(pieces, seq![separator]) =~= text);
            }
        }
    }
}

/// Where `character` first stands in `text`; the length where it does not.
pub open spec fn position(text: Seq<char>, character: char) -> nat
    decreases text.len(),
{
    if text.len() == 0 || text[0] == character {
        0
    } else {
        1 + position(text.skip(1), character)
    }
}

/// The parts before and after the first `separator`.
pub open spec fn split_first(text: Seq<char>, separator: char) -> Option<(Seq<char>, Seq<char>)> {
    let at = position(text, separator) as int;
    if at < text.len() {
        Some((text.take(at), text.skip(at + 1)))
    } else {
        None
    }
}

fn find(chars: &Vec<char>, character: char) -> (at: usize)
    ensures
        at == position(chars@, character),
        at <= chars@.len(),
{
    let mut at: usize = 0;
    assert(chars@.skip(0) =~= chars@);
    while at < chars.len()
        invariant
            at <= chars@.len(),
            position(chars@, character) == at + position(chars@.skip(at as int), character),
        decreases chars@.len() - at,
    {
        assert(chars@.skip(at as int)[0] == chars@[at as int]);
        if chars[at] == character {
            return at;
        }
        assert(chars@.skip(at as int).skip(1) =~= chars@.skip(at + 1));
        at = at + 1;
    }
    at
}

/// Splits `text` at the first `separator`.
pub fn split_once(text: &str, separator: char) -> (parts: Option<(String, String)>)
    ensures
        parts.deep_view() == split_first(text@, separator),
{
    let chars = to_chars(text);
    let at: usize = find(&chars, separator);
    if at < chars.len() {
        let head = from_chars(&chars, 0, at);
        let tail = from_chars(&chars, at + 1, chars.len());
        assert(text@.subrange(0, at as int) =~= text@.take(at as int));
        assert(text@.subrange(at + 1, text@.len() as int) =~= text@.skip(at + 1));
        Some((head, tail))
    } else {
        None
    }
}

/// The part of `text` before the first `separator`, or all of it.
pub open spec fn before(text: Seq<char>, separator: char) -> Seq<char> {
    text.take(position(text, separator) as int)
}

/// The part of `text` before the first `separator`.
pub fn part_before(text: &str, separator: char) -> (head: String)
    ensures
        head@ == before(text@, separator),
{
    let chars = to_chars(text);
    let at: usize = find(&chars, separator);
    assert(text@.subrange(0, at as int) =~= text@.take(at as int));
    from_chars(&chars, 0, at)
}

/// Whether `pattern` stands in `text` at `at`.
pub open spec fn stands_at(text: Seq<char>, pattern: Seq<char>, at: int) -> bool {
    0 <= at && at + pattern.len() <= text.len() && text.subrange(at, at + pattern.len()) == pattern
}

/// Whether `pattern` stands anywhere in `text`.
pub open spec fn occurs(text: Seq<char>, pattern: Seq<char>) -> bool {
    exists|at: int| #[trigger] stands_at(text, pattern, at)
}

/// Whether `pattern` stands in `chars` at `at`.
pub fn matches_at(chars: &Vec<char>, pattern: &Vec<char>, at: usize) -> (answer: bool)
    ensures
        answer == stands_at(chars@, pattern@, at as int),
{
    let total: usize = chars.len();
    if at > total || pattern.len() > total - at {
        return false;
    }
    let mut index: usize = 0;
    while index < pattern.len()
        invariant
            index <= pattern@.len(),
            total == chars@.len(),
            at + pattern@.len() <= total,
            forall|k: int| 0 <= k < index ==> #[trigger] pattern@[k] == chars@[at + k],
        decreases pattern@.len() - index,
    {
        if pattern[index] != chars[at + index] {
            assert(chars@.subrange(at as int, at + pattern@.len())[index as int]
                != pattern@[index as int]);
            return false;
        }
        index = index + 1;
    }
    assert(chars@.subrange(at as int, at + pattern@.len()) =~= pattern@);
    true
}

/// Whether `pattern` stands anywhere in `text`.
pub fn contains(text: &str, pattern: &str) -> (answer: bool)
    ensures
        answer == occurs(text@, pattern@),
{
    let chars = to_chars(text);
    let needle = to_chars(pattern);
    let mut at: usize = 0;
    loop
        invariant
            chars@ == text@,
            needle@ == pattern@,
            at <= chars@.len(),
            forall|k: int| 0 <= k < at ==> !#[trigger] stands_at(text@, pattern@, k),
        decreases chars@.len() + 1 - at,
    {
        if matches_at(&chars, &needle, at) {
            return true;
        }
        if at == chars.len() {
            assert(!occurs(text@, pattern@));
            return false;
        }
        at = at + 1;
    }
}

/// Whether `text` begins with `prefix`.
pub fn starts_with(text: &str, prefix: &str) -> (answer: bool)
    ensures
        answer == prefix@.is_prefix_of(text@),
{
    let chars = to_chars(text);
    let head = to_chars(prefix);
    matches_at(&chars, &head, 0)
}

/// `text` after `prefix`, where it begins with it.
pub open spec fn after_prefix(text: Seq<char>, prefix: Seq<char>) -> Option<Seq<char>> {
    if prefix.is_prefix_of(text) {
        Some(text.skip(prefix.len() as int))
    } else {
        None
    }
}

/// Removes `prefix`.
pub fn strip_prefix(text: &str, prefix: &str) -> (rest: Option<String>)
    ensures
        rest.deep_view() == after_prefix(text@, prefix@),
{
    let chars = to_chars(text);
    let head = to_chars(prefix);
    if matches_at(&chars, &head, 0) {
        assert(text@.subrange(head@.len() as int, text@.len() as int) =~= text@.skip(
            head@.len() as int,
        ));
        Some(from_chars(&chars, head.len(), chars.len()))
    } else {
        None
    }
}

/// `text` before `suffix`, where it ends with it.
pub open spec fn before_suffix(text: Seq<char>, suffix: Seq<char>) -> Option<Seq<char>> {
    if suffix.is_suffix_of(text) {
        Some(text.take(text.len() - suffix.len()))
    } else {
        None
    }
}

/// Removes `suffix`.
pub fn strip_suffix(text: &str, suffix: &str) -> (rest: Option<String>)
    ensures
        rest.deep_view() == before_suffix(text@, suffix@),
{
    let chars = to_chars(text);
    let tail = to_chars(suffix);
    if tail.len() > chars.len() {
        return None;
    }
    let at: usize = chars.len() - tail.len();
    if matches_at(&chars, &tail, at) {
        assert(text@.subrange(0, at as int) =~= text@.take(at as int));
        Some(from_chars(&chars, 0, at))
    } else {
        None
    }
}

/// Whether `text` ends with `suffix`.
pub fn ends_with(text: &str, suffix: &str) -> (answer: bool)
    ensures
        answer == suffix@.is_suffix_of(text@),
{
    strip_suffix(text, suffix).is_some()
}

/// `line` without a carriage return at its end.
pub open spec fn without_return(line: Seq<char>) -> Seq<char> {
    if line.len() > 0 && line.last() == '\r' {
        line.drop_last()
    } else {
        line
    }
}

/// The lines of `text`: what stands between line feeds, without the carriage return that
/// belongs to a line ending, and without an empty last piece.
pub open spec fn lines(text: Seq<char>) -> Seq<Seq<char>> {
    let pieces = split_on(text, '\n');
    let ended = pieces.drop_last().map_values(|line: Seq<char>| without_return(line));
    if pieces.last().len() == 0 {
        ended
    } else {
        ended.push(pieces.last())
    }
}

/// Splits `text` into lines.
pub fn split_lines(text: &str) -> (result: Vec<String>)
    ensures
        result.deep_view() == lines(text@),
{
    let pieces = split(text, '\n');
    let ghost all = pieces.deep_view();
    let mut result: Vec<String> = Vec::new();
    let mut index: usize = 0;
    while index < pieces.len() - 1
        invariant
            all == pieces.deep_view(),
            pieces@.len() > 0,
            index <= pieces@.len() - 1,
            result.deep_view() == all.take(index as int).map_values(
                |line: Seq<char>| without_return(line),
            ),
        decreases pieces@.len() - index,
    {
        let chars = to_chars(pieces[index].as_str());
        let end: usize = if chars.len() > 0 && chars[chars.len() - 1] == '\r' {
            chars.len() - 1
        } else {
            chars.len()
        };
        let line = from_chars(&chars, 0, end);
        assert(line@ =~= without_return(all[index as int]));
        push_item(&mut result, line);
        assert(result.deep_view() =~= all.take(index + 1).map_values(
            |line: Seq<char>| without_return(line),
        ));
        index = index + 1;
    }
    assert(all.take(index as int) =~= all.drop_last());
    if !pieces[index].as_str().is_empty() {
        push_item(&mut result, pieces[index].clone());
    }
    result
}

// ---------------------------------------------------------------------------
// Order of texts

/// Lexicographic order by code point.
pub open spec fn text_order(left: Seq<char>, right: Seq<char>) -> Order
    decreases left.len(),
{
    if left.len() == 0 && right.len() == 0 {
        Order::Equal
    } else if left.len() == 0 {
        Order::Less
    } else if right.len() == 0 {
        Order::Greater
    } else if left[0] < right[0] {
        Order::Less
    } else if left[0] > right[0] {
        Order::Greater
    } else {
        text_order(left.skip(1), right.skip(1))
    }
}

/// Orders two texts by code point.
pub fn order_texts(left: &str, right: &str) -> (order: Order)
    ensures
        order == text_order(left@, right@),
{
    let mut a = left.chars();
    let mut b = right.chars();
    let ghost mut index: int = 0;
    assert(left@.skip(0) =~= left@);
    assert(right@.skip(0) =~= right@);
    loop
        invariant
            0 <= index <= left@.len(),
            index <= right@.len(),
            a.remaining() == left@.skip(index),
            b.remaining() == right@.skip(index),
            a.obeys_prophetic_iter_laws(),
            b.obeys_prophetic_iter_laws(),
            text_order(left@, right@) == text_order(left@.skip(index), right@.skip(index)),
        decreases left@.len() - index,
    {
        match (a.next(), b.next()) {
            (None, None) => {
                return Order::Equal;
            },
            (None, Some(_)) => {
                return Order::Less;
            },
            (Some(_), None) => {
                return Order::Greater;
            },
            (Some(x), Some(y)) => {
                proof {
                    assert(left@.skip(index)[0] == left@[index]);
                    assert(right@.skip(index)[0] == right@[index]);
                    assert(left@.skip(index).skip(1) =~= left@.skip(index + 1));
                    assert(right@.skip(index).skip(1) =~= right@.skip(index + 1));
                    assert(left@.skip(index).drop_first() =~= left@.skip(index + 1));
                    assert(right@.skip(index).drop_first() =~= right@.skip(index + 1));
                }
                if x < y {
                    return Order::Less;
                }
                if x > y {
                    return Order::Greater;
                }
                proof {
                    index = index + 1;
                }
            },
        }
    }
}

/// Two texts are equal in order exactly when they hold the same characters, and swapping
/// them flips the order.
pub proof fn text_order_antisymmetric(left: Seq<char>, right: Seq<char>)
    ensures
        text_order(left, right) == Order::Equal <==> left == right,
        text_order(right, left) == flip(text_order(left, right)),
    decreases left.len(),
{
    if left.len() > 0 && right.len() > 0 {
        text_order_antisymmetric(left.skip(1), right.skip(1));
        if left[0] == right[0] {
            if left.skip(1) == right.skip(1) {
                assert forall|i: int| 0 <= i < left.len() implies left[i] == right[i] by {
                    if i > 0 {
                        assert(left.skip(1)[i - 1] == right.skip(1)[i - 1]);
                    }
                }
                assert(left.len() == left.skip(1).len() + 1);
                assert(left =~= right);
            }
        }
    } else {
        assert(left.len() == 0 && right.len() == 0 ==> left =~= right);
    }
}

/// The order of texts is transitive.
pub proof fn text_order_transitive(a: Seq<char>, b: Seq<char>, c: Seq<char>)
    requires
        text_order(a, b) != Order::Greater,
        text_order(b, c) != Order::Greater,
    ensures
        text_order(a, c) != Order::Greater,
    decreases a.len(),
{
    if a.len() > 0 && b.len() > 0 && c.len() > 0 && a[0] == b[0] && b[0] == c[0] {
        text_order_transitive(a.skip(1), b.skip(1), c.skip(1));
    }
}

/// Whether `left` follows `right` in the order of texts.
pub open spec fn text_after() -> spec_fn(Seq<char>, Seq<char>) -> bool {
    |left: Seq<char>, right: Seq<char>| text_order(left, right) == Order::Greater
}

/// `texts` in ascending order.
pub open spec fn sorted_texts(texts: Seq<Seq<char>>) -> Seq<Seq<char>> {
    sort_by(texts, text_after())
}

/// The order of texts is a total order, so sorted texts are in order pairwise.
pub proof fn sorted_texts_are_in_order(texts: Seq<Seq<char>>, low: int, high: int)
    requires
        0 <= low < high < texts.len(),
    ensures
        text_order(sorted_texts(texts)[low], sorted_texts(texts)[high]) != Order::Greater,
{
    let after = text_after();
    assert forall|a: Seq<char>, b: Seq<char>| #[trigger] after(a, b) implies !after(b, a) by {
        text_order_antisymmetric(a, b);
    }
    assert forall|a: Seq<char>, b: Seq<char>, c: Seq<char>| #![trigger after(a, b), after(b, c)]
        !after(a, b) && !after(b, c) implies !after(a, c) by {
        text_order_transitive(a, b, c);
    }
    assert(strict_weak_order(after));
    sort_orders_all(texts, after, low, high);
}

/// Sorts texts in ascending order.
pub fn sort_texts(texts: &mut Vec<String>)
    ensures
        final(texts).deep_view() == sorted_texts(old(texts).deep_view()),
{
    let after = |a: &String, b: &String| -> (follows: bool)
        ensures
            follows == (text_order(a@, b@) == Order::Greater),
        { order_texts(a.as_str(), b.as_str()) == Order::Greater };
    sort_values(texts, after, Ghost(text_after()));
}

/// Removes a text that equals the one before it.
pub fn dedup_texts(texts: &Vec<String>) -> (result: Vec<String>)
    ensures
        result.deep_view() == dedup(texts.deep_view()),
{
    let ghost all = texts.deep_view();
    let mut result: Vec<String> = Vec::new();
    let mut index: usize = 0;
    while index < texts.len()
        invariant
            all == texts.deep_view(),
            index <= texts@.len(),
            result.deep_view() == dedup(all.take(index as int)),
        decreases texts@.len() - index,
    {
        assert(all.take(index + 1).drop_last() =~= all.take(index as int));
        if index == 0 || !same(texts[index].as_str(), texts[index - 1].as_str()) {
            push_item(&mut result, texts[index].clone());
            assert(index == 0 ==> result.deep_view() =~= all.take(1));
        }
        index = index + 1;
    }
    assert(all.take(index as int) =~= all);
    result
}

/// The texts, each only where it first occurs.
pub fn distinct_texts(texts: Vec<String>) -> (result: Vec<String>)
    ensures
        result.deep_view() == distinct(texts.deep_view()),
{
    let ghost all = texts.deep_view();
    let mut result: Vec<String> = Vec::new();
    let mut index: usize = 0;
    while index < texts.len()
        invariant
            index <= texts@.len(),
            all == texts.deep_view(),
            result.deep_view() == distinct(all.take(index as int)),
        decreases texts@.len() - index,
    {
        assert(all.take(index + 1).drop_last() =~= all.take(index as int));
        assert(all.take(index + 1).last() == texts@[index as int]@);
        proof {
            distinct_members(all.take(index as int));
        }
        if !contains_text(&result, texts[index].as_str()) {
            push_item(&mut result, texts[index].clone());
        }
        index = index + 1;
    }
    assert(all.take(index as int) =~= all);
    result
}

} // verus!
