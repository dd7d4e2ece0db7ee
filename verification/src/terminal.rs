//! Text on a terminal: escaping, wrapping to a width, and styles.

use crate::model::{is_unsafe_terminal_character, unsafe_terminal_character};
use crate::order::{kept, kept_members};
use crate::outside::{
    char_columns, character_columns, display_columns, printable_ascii, text_columns,
};
use crate::pieces::{
    contains, join, join_texts, occurs, split, split_adds_a_piece, split_of_one_piece, split_on,
    starts_with, trim_start,
};
use crate::python::holds_unsafe_character;
use crate::text::{
    concat2, concat4, from_chars, is_whitespace, parse_unsigned, push_item, same, to_chars, unsigned,
    whitespace,
};
use vstd::prelude::*;

verus! {

/// Width of output where none is known.
pub const DEFAULT_HUMAN_WIDTH: usize = 80;

/// Least width of output.
pub const MIN_HUMAN_WIDTH: usize = 44;

/// Greatest width of output.
pub const MAX_HUMAN_WIDTH: usize = 120;

// ---------------------------------------------------------------------------
// Escaping

/// A hexadecimal digit.
pub open spec fn hex_char(value: nat) -> char {
    if value < 10 {
        ('0' as int + value) as char
    } else {
        ('a' as int + (value - 10)) as char
    }
}

/// `value` in hexadecimal, without leading zeros.
pub open spec fn hexadecimal(value: nat) -> Seq<char>
    decreases value,
{
    if value < 16 {
        seq![hex_char(value)]
    } else {
        hexadecimal(value / 16).push(hex_char(value % 16))
    }
}

fn hex_digit_char(value: u32) -> (digit: char)
    requires
        value < 16,
    ensures
        digit == hex_char(value as nat),
{
    if value < 10 {
        (48 + value as u8) as char
    } else {
        (87 + value as u8) as char
    }
}

fn hexadecimal_text(value: u32) -> (text: String)
    ensures
        text@ == hexadecimal(value as nat),
    decreases value,
{
    if value < 16 {
        let mut text = String::new();
        text.push(hex_digit_char(value));
        assert(text@ =~= seq![hex_char(value as nat)]);
        text
    } else {
        let mut text = hexadecimal_text(value / 16);
        text.push(hex_digit_char(value % 16));
        text
    }
}

/// How an unsafe character is shown.
pub open spec fn escaped(character: char) -> Seq<char> {
    if character == '\t' {
        "\\t"@
    } else if character == '\r' {
        "\\r"@
    } else if character == '\n' {
        "\\n"@
    } else {
        "\\u{"@ + hexadecimal((character as u32) as nat) + "}"@
    }
}

/// `text` with every unsafe character escaped.
pub open spec fn shown(text: Seq<char>) -> Seq<char>
    decreases text.len(),
{
    if text.len() == 0 {
        Seq::empty()
    } else if unsafe_terminal_character(text.last()) {
        shown(text.drop_last()) + escaped(text.last())
    } else {
        shown(text.drop_last()).push(text.last())
    }
}

/// Escapes every unsafe character.
pub fn terminal_text(value: &str) -> (text: String)
    ensures
        text@ == shown(value@),
{
    let chars = to_chars(value);
    let mut text = String::new();
    let mut index: usize = 0;
    while index < chars.len()
        invariant
            index <= chars@.len(),
            chars@ == value@,
            text@ == shown(chars@.take(index as int)),
        decreases chars@.len() - index,
    {
        let character = chars[index];
        assert(chars@.take(index + 1).drop_last() =~= chars@.take(index as int));
        assert(chars@.take(index + 1).last() == character);
        if is_unsafe_terminal_character(character) {
            if character == '\t' {
                text.append("\\t");
            } else if character == '\r' {
                text.append("\\r");
            } else if character == '\n' {
                text.append("\\n");
            } else {
                let code = hexadecimal_text(character as u32);
                text.append(crate::text::concat3("\\u{", code.as_str(), "}").as_str());
            }
        } else {
            text.push(character);
        }
        index = index + 1;
    }
    assert(chars@.take(index as int) =~= chars@);
    text
}

proof fn printable_is_safe(character: char)
    requires
        ' ' <= character <= '~',
    ensures
        !unsafe_terminal_character(character),
{
}

proof fn hexadecimal_is_printable(value: nat)
    ensures
        printable_ascii(hexadecimal(value)),
    decreases value,
{
    if value >= 16 {
        hexadecimal_is_printable(value / 16);
    }
}

proof fn escaped_is_printable(character: char)
    ensures
        printable_ascii(escaped(character)),
{
    reveal_strlit("\\t");
    reveal_strlit("\\r");
    reveal_strlit("\\n");
    reveal_strlit("\\u{");
    reveal_strlit("}");
    hexadecimal_is_printable((character as u32) as nat);
}

/// What is shown on a terminal holds no unsafe character.
pub proof fn shown_text_is_safe(text: Seq<char>)
    ensures
        !holds_unsafe_character(shown(text)),
    decreases text.len(),
{
    if text.len() > 0 {
        let rest = shown(text.drop_last());
        let whole = shown(text);
        shown_text_is_safe(text.drop_last());
        assert forall|i: int| 0 <= i < whole.len() implies !unsafe_terminal_character(
            #[trigger] whole[i],
        ) by {
            if i < rest.len() {
                assert(whole[i] == rest[i]);
            } else if unsafe_terminal_character(text.last()) {
                escaped_is_printable(text.last());
                assert(whole[i] == escaped(text.last())[i - rest.len()]);
                printable_is_safe(whole[i]);
            }
        }
    }
}

/// Safe text is shown as it is.
pub proof fn safe_text_is_unchanged(text: Seq<char>)
    requires
        !holds_unsafe_character(text),
    ensures
        shown(text) == text,
    decreases text.len(),
{
    if text.len() > 0 {
        let rest = text.drop_last();
        assert(!unsafe_terminal_character(text[text.len() - 1]));
        assert forall|i: int| 0 <= i < rest.len() implies !unsafe_terminal_character(
            #[trigger] rest[i],
        ) by {
            assert(rest[i] == text[i]);
        }
        safe_text_is_unchanged(rest);
        assert(rest.push(text.last()) =~= text);
    }
}

/// Escaping twice is escaping once.
pub proof fn escaping_is_idempotent(text: Seq<char>)
    ensures
        shown(shown(text)) == shown(text),
{
    shown_text_is_safe(text);
    safe_text_is_unchanged(shown(text));
}

// ---------------------------------------------------------------------------
// Lines

/// `out` followed by a line.
pub open spec fn line(out: Seq<char>, text: Seq<char>) -> Seq<char> {
    out + text + "\n"@
}

/// Appends a line.
pub fn write_line(output: &mut String, text: &str)
    ensures
        final(output)@ == line(old(output)@, text@),
{
    output.append(text);
    output.append("\n");
}

/// `out` followed by lines.
pub open spec fn put_lines(out: Seq<char>, lines: Seq<Seq<char>>) -> Seq<char>
    decreases lines.len(),
{
    if lines.len() == 0 {
        out
    } else {
        put_lines(line(out, lines[0]), lines.skip(1))
    }
}

/// Lines after lines are the lines of both.
pub proof fn put_lines_concat(out: Seq<char>, first: Seq<Seq<char>>, second: Seq<Seq<char>>)
    ensures
        put_lines(out, first + second) == put_lines(put_lines(out, first), second),
    decreases first.len(),
{
    if first.len() == 0 {
        assert(first + second =~= second);
    } else {
        assert((first + second)[0] == first[0]);
        assert((first + second).skip(1) =~= first.skip(1) + second);
        put_lines_concat(line(out, first[0]), first.skip(1), second);
    }
}

/// One line is a list of lines.
pub proof fn put_one_line(out: Seq<char>, text: Seq<char>, rest: Seq<Seq<char>>)
    ensures
        put_lines(out, seq![text] + rest) == put_lines(line(out, text), rest),
{
    assert((seq![text] + rest)[0] == text);
    assert((seq![text] + rest).skip(1) =~= rest);
}

// ---------------------------------------------------------------------------
// Words

/// What stands between white space characters.
pub open spec fn space_pieces(text: Seq<char>) -> Seq<Seq<char>>
    decreases text.len(),
{
    if text.len() == 0 {
        seq![Seq::empty()]
    } else {
        let before = space_pieces(text.drop_last());
        if whitespace(text.last()) {
            before.push(Seq::empty())
        } else {
            before.drop_last().push(before.last().push(text.last()))
        }
    }
}

/// The words of a text: what stands between runs of white space.
pub open spec fn words(text: Seq<char>) -> Seq<Seq<char>> {
    kept(space_pieces(text), |piece: Seq<char>| piece.len() > 0)
}

/// The words of a text.
pub fn split_words(text: &str) -> (result: Vec<String>)
    ensures
        result.deep_view() == words(text@),
{
    let chars = to_chars(text);
    let ghost keep = |piece: Seq<char>| piece.len() > 0;
    let ghost mut done: Seq<Seq<char>> = Seq::empty();
    let mut result: Vec<String> = Vec::new();
    let mut current = String::new();
    let mut index: usize = 0;
    assert(done.push(current@) =~= space_pieces(chars@.take(0)));
    assert(result.deep_view() =~= kept(done, keep));
    while index < chars.len()
        invariant
            index <= chars@.len(),
            keep == (|piece: Seq<char>| piece.len() > 0),
            done.push(current@) == space_pieces(chars@.take(index as int)),
            result.deep_view() == kept(done, keep),
        decreases chars@.len() - index,
    {
        let character = chars[index];
        let ghost whole = space_pieces(chars@.take(index as int));
        assert(chars@.take(index + 1).drop_last() =~= chars@.take(index as int));
        assert(chars@.take(index + 1).last() == character);
        assert(whole.drop_last() =~= done);
        assert(whole.last() == current@);
        if is_whitespace(character) {
            proof {
                assert(done.push(current@).drop_last() =~= done);
                done = done.push(current@);
            }
            if !current.as_str().is_empty() {
                push_item(&mut result, current);
            }
            current = String::new();
            assert(done.push(current@) =~= space_pieces(chars@.take(index + 1)));
        } else {
            current.push(character);
            assert(done.push(current@) =~= space_pieces(chars@.take(index + 1)));
        }
        index = index + 1;
    }
    proof {
        assert(chars@.take(index as int) =~= chars@);
        assert(done.push(current@).drop_last() =~= done);
    }
    if !current.as_str().is_empty() {
        push_item(&mut result, current);
    }
    result
}

// ---------------------------------------------------------------------------
// Widths

/// How many columns `text` takes.
pub fn display_width(value: &str) -> (columns: usize)
    ensures
        columns == display_columns(value@),
        printable_ascii(value@) ==> columns == value@.len(),
{
    text_columns(value)
}

/// `left` without `right`, or nothing.
pub open spec fn minus(left: nat, right: nat) -> nat {
    if left >= right {
        (left - right) as nat
    } else {
        0
    }
}

fn subtract(left: usize, right: usize) -> (difference: usize)
    ensures
        difference == minus(left as nat, right as nat),
{
    if left >= right {
        left - right
    } else {
        0
    }
}

/// `value`, but at least one.
pub open spec fn at_least_one(value: nat) -> nat {
    if value == 0 {
        1
    } else {
        value
    }
}

fn one_or_more(value: usize) -> (result: usize)
    ensures
        result == at_least_one(value as nat),
{
    if value == 0 {
        1
    } else {
        value
    }
}

/// How many columns a character takes; none for a control character.
pub open spec fn columns_of(character: char) -> nat {
    match character_columns(character) {
        Some(columns) => columns as nat,
        None => 0,
    }
}

/// The sum of two numbers of columns, as far as it can be counted.
pub open spec fn columns_sum(left: nat, right: nat) -> nat {
    if left + right <= usize::MAX {
        left + right
    } else {
        usize::MAX as nat
    }
}

/// How many characters of `text` fit in `max` columns of which `used` are taken.
pub open spec fn fitting_chars(text: Seq<char>, max: nat, used: nat) -> nat
    decreases text.len(),
{
    if text.len() == 0 || columns_sum(used, columns_of(text[0])) > max {
        0
    } else {
        1 + fitting_chars(text.skip(1), max, columns_sum(used, columns_of(text[0])))
    }
}

/// How many characters of `text` go on a line of `max` columns: those that fit, and at least
/// one.
pub open spec fn chars_within(text: Seq<char>, max: nat) -> nat {
    let count = fitting_chars(text, max, 0);
    if count == 0 && text.len() > 0 {
        1
    } else {
        count
    }
}

proof fn fitting_is_within(text: Seq<char>, max: nat, used: nat)
    ensures
        fitting_chars(text, max, used) <= text.len(),
    decreases text.len(),
{
    if text.len() > 0 && columns_sum(used, columns_of(text[0])) <= max {
        fitting_is_within(text.skip(1), max, columns_sum(used, columns_of(text[0])));
    }
}

/// At least one character goes on a line, and no more than there are.
pub proof fn chars_within_bounds(text: Seq<char>, max: nat)
    ensures
        chars_within(text, max) <= text.len(),
        text.len() > 0 ==> chars_within(text, max) > 0,
{
    fitting_is_within(text, max, 0);
}

/// Cuts `text` after what goes on a line of `max` columns.
pub fn split_at_columns(text: &str, max: usize) -> (parts: (String, String))
    ensures
        parts.0@ == text@.take(chars_within(text@, max as nat) as int),
        parts.1@ == text@.skip(chars_within(text@, max as nat) as int),
        printable_ascii(text@) && max > 0 ==> parts.0@.len() <= max,
{
    let chars = to_chars(text);
    let mut used: usize = 0;
    let mut count: usize = 0;
    let mut open = true;
    assert(chars@.skip(0) =~= chars@);
    while open && count < chars.len()
        invariant
            count <= chars@.len(),
            chars@ == text@,
            open ==> fitting_chars(text@, max as nat, 0) == count + fitting_chars(
                chars@.skip(count as int),
                max as nat,
                used as nat,
            ),
            !open ==> fitting_chars(text@, max as nat, 0) == count,
            printable_ascii(text@) ==> used == count && count <= max,
        decreases
            chars@.len() - count,
            if open {
                1int
            } else {
                0int
            },
    {
        let columns: usize = match char_columns(chars[count]) {
            Some(columns) => columns,
            None => 0,
        };
        let sum: usize = if columns <= usize::MAX - used {
            used + columns
        } else {
            usize::MAX
        };
        assert(chars@.skip(count as int)[0] == chars@[count as int]);
        assert(chars@.skip(count as int).skip(1) =~= chars@.skip(count + 1));
        if sum > max {
            open = false;
        } else {
            used = sum;
            count = count + 1;
        }
    }
    if count == 0 && chars.len() > 0 {
        count = 1;
    }
    assert(count == chars_within(text@, max as nat));
    assert(chars@.subrange(0, count as int) =~= text@.take(count as int));
    assert(chars@.subrange(count as int, chars@.len() as int) =~= text@.skip(count as int));
    (from_chars(&chars, 0, count), from_chars(&chars, count, chars.len()))
}

// ---------------------------------------------------------------------------
// Wrapping

/// The full lines of a text that is too long for one line of `max` columns.
pub open spec fn chunks(text: Seq<char>, max: nat) -> Seq<Seq<char>>
    decreases text.len(),
{
    if text.len() == 0 || display_columns(text) <= max {
        Seq::empty()
    } else {
        let count = chars_within(text, max) as int;
        if 0 < count <= text.len() {
            seq![text.take(count)] + chunks(text.skip(count), max)
        } else {
            Seq::empty()
        }
    }
}

/// What is left of a text after its full lines.
pub open spec fn remainder(text: Seq<char>, max: nat) -> Seq<char>
    decreases text.len(),
{
    if text.len() == 0 || display_columns(text) <= max {
        text
    } else {
        let count = chars_within(text, max) as int;
        if 0 < count <= text.len() {
            remainder(text.skip(count), max)
        } else {
            text
        }
    }
}

/// How many columns are left on a line for a word after `content`.
pub open spec fn room(width: nat, prefix: Seq<char>, content: Seq<char>) -> nat {
    minus(
        minus(minus(width, display_columns(prefix) as nat), display_columns(content) as nat),
        if content.len() == 0 {
            0
        } else {
            1
        },
    )
}

/// `content` with one more word.
pub open spec fn with_word(content: Seq<char>, word: Seq<char>) -> Seq<char> {
    if content.len() == 0 {
        word
    } else {
        content.push(' ') + word
    }
}

/// The contents of the lines that words fill after `content`: a word goes on the line where it
/// fits, and on a line of its own, or on several, where it does not. The first line has another
/// prefix than the others; `started` tells whether it is already written.
pub open spec fn wrap(
    all: Seq<Seq<char>>,
    content: Seq<char>,
    started: bool,
    first: Seq<char>,
    next: Seq<char>,
    width: nat,
) -> Seq<Seq<char>>
    decreases all.len(), content.len(),
{
    let prefix = if started {
        next
    } else {
        first
    };
    if all.len() == 0 {
        if content.len() == 0 {
            Seq::empty()
        } else {
            seq![content]
        }
    } else if display_columns(all[0]) <= room(width, prefix, content) {
        wrap(all.skip(1), with_word(content, all[0]), started, first, next, width)
    } else if content.len() > 0 {
        seq![content] + wrap(all, Seq::empty(), true, first, next, width)
    } else {
        let capacity = at_least_one(minus(width, display_columns(prefix) as nat));
        let count = chars_within(all[0], capacity) as int;
        let tail = all[0].skip(count);
        let below = at_least_one(minus(width, display_columns(next) as nat));
        seq![all[0].take(count)] + chunks(tail, below) + wrap(
            all.skip(1),
            remainder(tail, below),
            true,
            first,
            next,
            width,
        )
    }
}

/// `out` followed by lines, the first with another prefix than the others.
pub open spec fn put_prefixed(
    out: Seq<char>,
    contents: Seq<Seq<char>>,
    started: bool,
    first: Seq<char>,
    next: Seq<char>,
) -> Seq<char>
    decreases contents.len(),
{
    if contents.len() == 0 {
        out
    } else {
        put_prefixed(
            line(
                out,
                (if started {
                    next
                } else {
                    first
                }) + contents[0],
            ),
            contents.skip(1),
            true,
            first,
            next,
        )
    }
}

proof fn put_prefixed_concat(
    out: Seq<char>,
    left: Seq<Seq<char>>,
    right: Seq<Seq<char>>,
    first: Seq<char>,
    next: Seq<char>,
)
    ensures
        put_prefixed(out, left + right, true, first, next) == put_prefixed(
            put_prefixed(out, left, true, first, next),
            right,
            true,
            first,
            next,
        ),
    decreases left.len(),
{
    if left.len() == 0 {
        assert(left + right =~= right);
    } else {
        assert((left + right)[0] == left[0]);
        assert((left + right).skip(1) =~= left.skip(1) + right);
        put_prefixed_concat(line(out, next + left[0]), left.skip(1), right, first, next);
    }
}

proof fn put_one_prefixed(
    out: Seq<char>,
    content: Seq<char>,
    rest: Seq<Seq<char>>,
    started: bool,
    first: Seq<char>,
    next: Seq<char>,
)
    ensures
        put_prefixed(out, seq![content] + rest, started, first, next) == put_prefixed(
            line(
                out,
                (if started {
                    next
                } else {
                    first
                }) + content,
            ),
            rest,
            true,
            first,
            next,
        ),
{
    assert((seq![content] + rest)[0] == content);
    assert((seq![content] + rest).skip(1) =~= rest);
}

/// A line is only appended.
pub proof fn line_appends(out: Seq<char>, more: Seq<char>, text: Seq<char>)
    ensures
        line(out + more, text) == out + line(more, text),
{
    assert(line(out + more, text) =~= out + line(more, text));
}

proof fn put_prefixed_appends(
    out: Seq<char>,
    more: Seq<char>,
    contents: Seq<Seq<char>>,
    started: bool,
    first: Seq<char>,
    next: Seq<char>,
)
    ensures
        put_prefixed(out + more, contents, started, first, next) == out + put_prefixed(
            more,
            contents,
            started,
            first,
            next,
        ),
    decreases contents.len(),
{
    if contents.len() > 0 {
        let text = (if started {
            next
        } else {
            first
        }) + contents[0];
        line_appends(out, more, text);
        put_prefixed_appends(out, line(more, text), contents.skip(1), true, first, next);
    }
}

/// Wrapped text is only appended: what stands before it stays, and does not change it.
pub proof fn wrapped_appends(
    out: Seq<char>,
    more: Seq<char>,
    first: Seq<char>,
    next: Seq<char>,
    text: Seq<char>,
    width: nat,
)
    ensures
        wrapped(out + more, first, next, text, width) == out + wrapped(
            more,
            first,
            next,
            text,
            width,
        ),
{
    put_prefixed_appends(
        out,
        more,
        wrapped_contents(text, first, next, width),
        false,
        first,
        next,
    );
}

/// The width that is used for a width that is asked for.
pub open spec fn usable_width(width: nat) -> nat {
    if width < MIN_HUMAN_WIDTH {
        MIN_HUMAN_WIDTH as nat
    } else {
        width
    }
}

/// The contents of the lines of a wrapped text.
pub open spec fn wrapped_contents(
    text: Seq<char>,
    first: Seq<char>,
    next: Seq<char>,
    width: nat,
) -> Seq<Seq<char>> {
    if words(text).len() == 0 {
        seq![Seq::empty()]
    } else {
        wrap(words(text), Seq::empty(), false, first, next, usable_width(width))
    }
}

/// `out` followed by a text wrapped to `width` columns.
pub open spec fn wrapped(
    out: Seq<char>,
    first: Seq<char>,
    next: Seq<char>,
    text: Seq<char>,
    width: nat,
) -> Seq<char> {
    put_prefixed(out, wrapped_contents(text, first, next, width), false, first, next)
}

/// Whether each text is made of printable ASCII characters, and of no more than `max`.
pub open spec fn all_short(texts: Seq<Seq<char>>, max: nat) -> bool {
    forall|i: int|
        0 <= i < texts.len() ==> printable_ascii(#[trigger] texts[i]) && texts[i].len() <= max
}

/// Whether the lines made of contents and their prefixes are made of printable ASCII characters,
/// which take one column each, and of no more than `width`.
pub open spec fn short_lines(
    contents: Seq<Seq<char>>,
    first: Seq<char>,
    next: Seq<char>,
    width: nat,
) -> bool {
    forall|i: int|
        0 <= i < contents.len() ==> printable_ascii(#[trigger] contents[i]) && (if i == 0 {
            first
        } else {
            next
        }).len() + contents[i].len() <= width
}

/// Whether a text and its prefixes are plain: the words and the prefixes are made of printable
/// ASCII characters, and the prefixes leave a column free.
pub open spec fn plain_layout(
    text: Seq<char>,
    first: Seq<char>,
    next: Seq<char>,
    width: nat,
) -> bool {
    &&& printable_ascii(first) && first.len() < width
    &&& printable_ascii(next) && next.len() < width
    &&& forall|i: int| 0 <= i < words(text).len() ==> printable_ascii(#[trigger] words(text)[i])
}

fn write_chunks(output: &mut String, text: String, prefix: &str, max: usize) -> (rest: String)
    ensures
        final(output)@ == put_prefixed(
            old(output)@,
            chunks(text@, max as nat),
            true,
            prefix@,
            prefix@,
        ),
        rest@ == remainder(text@, max as nat),
        printable_ascii(text@) && max > 0 ==> all_short(chunks(text@, max as nat), max as nat)
            && printable_ascii(rest@) && rest@.len() <= max,
{
    let ghost start = output@;
    let ghost whole = text@;
    let ghost mut done: Seq<Seq<char>> = Seq::empty();
    let mut rest = text;
    assert(done + chunks(whole, max as nat) =~= chunks(whole, max as nat));
    while display_width(rest.as_str()) > max
        invariant
            put_prefixed(output@, chunks(rest@, max as nat), true, prefix@, prefix@)
                == put_prefixed(start, chunks(whole, max as nat), true, prefix@, prefix@),
            remainder(rest@, max as nat) == remainder(whole, max as nat),
            chunks(whole, max as nat) == done + chunks(rest@, max as nat),
            printable_ascii(whole) && max > 0 ==> all_short(done, max as nat) && printable_ascii(
                rest@,
            ),
        decreases rest@.len(),
    {
        let ghost before = output@;
        let ghost current = rest@;
        proof {
            chars_within_bounds(rest@, max as nat);
        }
        assert(printable_ascii(Seq::<char>::empty()));
        assert(rest@.len() > 0) by {
            if rest@.len() == 0 {
                assert(rest@ =~= Seq::<char>::empty());
            }
        }
        let (chunk, tail) = split_at_columns(rest.as_str(), max);
        proof {
            put_one_prefixed(before, chunk@, chunks(tail@, max as nat), true, prefix@, prefix@);
        }
        write_line(output, concat2(prefix, chunk.as_str()).as_str());
        rest = tail;
        proof {
            let later = chunks(rest@, max as nat);
            assert(done + (seq![chunk@] + later) =~= done.push(chunk@) + later);
            done = done.push(chunk@);
        }
    }
    assert(done + Seq::<Seq<char>>::empty() =~= done);
    rest
}

proof fn prefix_of_first_is_unused(
    out: Seq<char>,
    contents: Seq<Seq<char>>,
    one: Seq<char>,
    other: Seq<char>,
    next: Seq<char>,
)
    ensures
        put_prefixed(out, contents, true, one, next) == put_prefixed(
            out,
            contents,
            true,
            other,
            next,
        ),
    decreases contents.len(),
{
    if contents.len() > 0 {
        prefix_of_first_is_unused(
            line(out, next + contents[0]),
            contents.skip(1),
            one,
            other,
            next,
        );
    }
}

/// Appends a text wrapped to `width` columns. No line of a plain text has more characters, and so
/// more columns, than the usable width.
#[verifier::rlimit(80)]
pub fn write_wrapped(
    output: &mut String,
    first_prefix: &str,
    continuation_prefix: &str,
    text: &str,
    width: usize,
)
    ensures
        final(output)@ == wrapped(
            old(output)@,
            first_prefix@,
            continuation_prefix@,
            text@,
            width as nat,
        ),
        plain_layout(text@, first_prefix@, continuation_prefix@, usable_width(width as nat))
            ==> short_lines(
            wrapped_contents(text@, first_prefix@, continuation_prefix@, width as nat),
            first_prefix@,
            continuation_prefix@,
            usable_width(width as nat),
        ),
{
    let limit: usize = if width < MIN_HUMAN_WIDTH {
        MIN_HUMAN_WIDTH
    } else {
        width
    };
    let all = split_words(text);
    let ghost list = all.deep_view();
    let ghost first = first_prefix@;
    let ghost next = continuation_prefix@;
    let ghost start = output@;
    assert(list.len() == all@.len());
    if all.len() == 0 {
        proof {
            put_one_prefixed(start, Seq::empty(), Seq::empty(), false, first, next);
            assert(seq![Seq::<char>::empty()] + Seq::<Seq<char>>::empty() =~= seq![
                Seq::<char>::empty(),
            ]);
            assert(first + Seq::<char>::empty() =~= first);
        }
        write_line(output, first_prefix);
        return;
    }
    let ghost plain = plain_layout(text@, first, next, limit as nat);
    let ghost contents = wrap(list, Seq::empty(), false, first, next, limit as nat);
    let ghost mut done: Seq<Seq<char>> = Seq::empty();
    let mut started = false;
    let mut content = String::new();
    let mut index: usize = 0;
    proof {
        assert(list.skip(0) =~= list);
        assert(done + contents =~= contents);
        words_are_not_empty(text@);
    }
    while index < all.len()
        invariant
            index <= all@.len(),
            list == all.deep_view(),
            list.len() == all@.len(),
            first == first_prefix@,
            next == continuation_prefix@,
            put_prefixed(
                output@,
                wrap(list.skip(index as int), content@, started, first, next, limit as nat),
                started,
                first,
                next,
            ) == put_prefixed(
                start,
                wrap(list, Seq::empty(), false, first, next, limit as nat),
                false,
                first,
                next,
            ),
            plain ==> printable_ascii(first) && first.len() < limit && printable_ascii(next)
                && next.len() < limit,
            plain ==> forall|i: int| 0 <= i < list.len() ==> printable_ascii(#[trigger] list[i]),
            forall|i: int| 0 <= i < list.len() ==> (#[trigger] list[i]).len() > 0,
            contents == done + wrap(
                list.skip(index as int),
                content@,
                started,
                first,
                next,
                limit as nat,
            ),
            started == (done.len() > 0),
            plain ==> short_lines(done, first, next, limit as nat),
            plain ==> printable_ascii(content@) && (if started {
                next
            } else {
                first
            }).len() + content@.len() <= limit,
        decreases all@.len() - index, content@.len(),
    {
        let ghost rest = list.skip(index as int);
        let ghost before = output@;
        let prefix = if started {
            continuation_prefix
        } else {
            first_prefix
        };
        let word = all[index].as_str();
        assert(list[index as int] == word@);
        assert(rest[0] == word@);
        assert(rest.skip(1) =~= list.skip(index + 1));
        let separator: usize = if content.as_str().is_empty() {
            0
        } else {
            1
        };
        let left: usize = subtract(
            subtract(subtract(limit, display_width(prefix)), display_width(content.as_str())),
            separator,
        );
        if display_width(word) <= left {
            proof {
                printable_with_word(content@, word@);
            }
            if !content.as_str().is_empty() {
                content.push(' ');
            }
            let ghost held = content@;
            content.append(word);
            assert(held.len() == 0 ==> content@ =~= word@);
            index = index + 1;
        } else if !content.as_str().is_empty() {
            proof {
                put_one_prefixed(
                    before,
                    content@,
                    wrap(rest, Seq::empty(), true, first, next, limit as nat),
                    started,
                    first,
                    next,
                );
            }
            write_line(output, concat2(prefix, content.as_str()).as_str());
            proof {
                let later = wrap(rest, Seq::empty(), true, first, next, limit as nat);
                assert(done + (seq![content@] + later) =~= done.push(content@) + later);
                done = done.push(content@);
            }
            content = String::new();
            assert(content@ =~= Seq::<char>::empty());
            started = true;
        } else {
            let capacity: usize = one_or_more(subtract(limit, display_width(prefix)));
            let below: usize = one_or_more(subtract(limit, display_width(continuation_prefix)));
            let (head, tail) = split_at_columns(word, capacity);
            proof {
                chars_within_bounds(word@, capacity as nat);
                printable_parts(word@, chars_within(word@, capacity as nat) as int);
            }
            let ghost pieces = chunks(tail@, below as nat);
            let ghost later = wrap(
                rest.skip(1),
                remainder(tail@, below as nat),
                true,
                first,
                next,
                limit as nat,
            );
            write_line(output, concat2(prefix, head.as_str()).as_str());
            let ghost middle = output@;
            proof {
                assert(content@ =~= Seq::<char>::empty());
                assert(seq![head@] + pieces + later =~= seq![head@] + (pieces + later));
                put_one_prefixed(before, head@, pieces + later, started, first, next);
                put_prefixed_concat(middle, pieces, later, first, next);
                prefix_of_first_is_unused(middle, pieces, first, next, next);
            }
            content = write_chunks(output, tail, continuation_prefix, below);
            proof {
                let lines = done + (seq![head@] + pieces);
                assert(done + (seq![head@] + pieces + later) =~= lines + later);
                if plain {
                    short_lines_grow(done, head@, pieces, first, next, limit as nat);
                }
                done = lines;
            }
            started = true;
            index = index + 1;
        }
    }
    let prefix = if started {
        continuation_prefix
    } else {
        first_prefix
    };
    assert(list.skip(index as int) =~= Seq::empty());
    if !content.as_str().is_empty() {
        proof {
            put_one_prefixed(output@, content@, Seq::empty(), started, first, next);
            assert(seq![content@] + Seq::<Seq<char>>::empty() =~= seq![content@]);
        }
        write_line(output, concat2(prefix, content.as_str()).as_str());
    }
}

proof fn printable_with_word(content: Seq<char>, word: Seq<char>)
    ensures
        printable_ascii(content) && printable_ascii(word) ==> printable_ascii(
            with_word(content, word),
        ),
{
    let longer = with_word(content, word);
    if printable_ascii(content) && printable_ascii(word) && content.len() > 0 {
        assert forall|i: int| 0 <= i < longer.len() implies ' ' <= #[trigger] longer[i] <= '~' by {
            if i < content.len() {
                assert(longer[i] == content[i]);
            } else if i > content.len() {
                assert(longer[i] == word[i - content.len() - 1]);
            }
        }
    }
}

proof fn printable_parts(text: Seq<char>, count: int)
    requires
        0 <= count <= text.len(),
    ensures
        printable_ascii(text) ==> printable_ascii(text.take(count)) && printable_ascii(
            text.skip(count),
        ),
{
    if printable_ascii(text) {
        assert forall|i: int| 0 <= i < count implies ' ' <= #[trigger] text.take(count)[i]
            <= '~' by {
            assert(text.take(count)[i] == text[i]);
        }
        assert forall|i: int| 0 <= i < text.len() - count implies ' ' <= #[trigger] text.skip(
            count,
        )[i] <= '~' by {
            assert(text.skip(count)[i] == text[i + count]);
        }
    }
}

proof fn words_are_not_empty(text: Seq<char>)
    ensures
        forall|i: int| 0 <= i < words(text).len() ==> (#[trigger] words(text)[i]).len() > 0,
{
    let keep = |piece: Seq<char>| piece.len() > 0;
    assert forall|i: int| 0 <= i < words(text).len() implies (#[trigger] words(text)[i]).len()
        > 0 by {
        assert(words(text).contains(words(text)[i]));
        kept_members(space_pieces(text), keep, words(text)[i]);
        assert(keep(words(text)[i]));
    }
}

proof fn short_lines_grow(
    done: Seq<Seq<char>>,
    head: Seq<char>,
    pieces: Seq<Seq<char>>,
    first: Seq<char>,
    next: Seq<char>,
    width: nat,
)
    requires
        short_lines(done, first, next, width),
        printable_ascii(head),
        (if done.len() == 0 {
            first
        } else {
            next
        }).len() + head.len() <= width,
        next.len() <= width,
        all_short(pieces, (width - next.len()) as nat),
    ensures
        short_lines(done + (seq![head] + pieces), first, next, width),
{
    let lines = done + (seq![head] + pieces);
    assert forall|i: int| 0 <= i < lines.len() implies printable_ascii(#[trigger] lines[i]) && (
    if i == 0 {
        first
    } else {
        next
    }).len() + lines[i].len() <= width by {
        if i < done.len() {
            assert(lines[i] == done[i]);
        } else if i > done.len() {
            assert(lines[i] == pieces[i - done.len() - 1]);
        }
    }
}

// ---------------------------------------------------------------------------
// What wrapping keeps

/// Texts after one another.
pub open spec fn flat(pieces: Seq<Seq<char>>) -> Seq<char>
    decreases pieces.len(),
{
    if pieces.len() == 0 {
        Seq::empty()
    } else {
        pieces[0] + flat(pieces.skip(1))
    }
}

/// A text without its spaces.
pub open spec fn squeezed(text: Seq<char>) -> Seq<char> {
    kept(text, |character: char| character != ' ')
}

proof fn squeezed_concat(left: Seq<char>, right: Seq<char>)
    ensures
        squeezed(left + right) == squeezed(left) + squeezed(right),
    decreases right.len(),
{
    if right.len() == 0 {
        assert(left + right =~= left);
        assert(squeezed(left) + Seq::<char>::empty() =~= squeezed(left));
    } else {
        let shorter = right.drop_last();
        assert((left + right).drop_last() =~= left + shorter);
        squeezed_concat(left, shorter);
        assert(squeezed(left + right) =~= squeezed(left) + squeezed(right));
    }
}

proof fn flat_concat(left: Seq<Seq<char>>, right: Seq<Seq<char>>)
    ensures
        flat(left + right) == flat(left) + flat(right),
    decreases left.len(),
{
    if left.len() == 0 {
        assert(left + right =~= right);
        assert(Seq::<char>::empty() + flat(right) =~= flat(right));
    } else {
        assert((left + right)[0] == left[0]);
        assert((left + right).skip(1) =~= left.skip(1) + right);
        flat_concat(left.skip(1), right);
        assert(left[0] + (flat(left.skip(1)) + flat(right)) =~= left[0] + flat(left.skip(1)) + flat(
            right,
        ));
    }
}

proof fn flat_one(piece: Seq<char>)
    ensures
        flat(seq![piece]) == piece,
{
    assert(seq![piece].skip(1) =~= Seq::<Seq<char>>::empty());
    assert(flat(Seq::<Seq<char>>::empty()) =~= Seq::<char>::empty());
    assert(piece + Seq::<char>::empty() =~= piece);
}

proof fn chunks_keep_text(text: Seq<char>, max: nat)
    ensures
        flat(chunks(text, max)) + remainder(text, max) == text,
    decreases text.len(),
{
    if text.len() == 0 || display_columns(text) <= max {
        assert(Seq::<char>::empty() + text =~= text);
    } else {
        chars_within_bounds(text, max);
        let count = chars_within(text, max) as int;
        chunks_keep_text(text.skip(count), max);
        let rest = chunks(text.skip(count), max);
        assert((seq![text.take(count)] + rest)[0] == text.take(count));
        assert((seq![text.take(count)] + rest).skip(1) =~= rest);
        assert(text.take(count) + flat(rest) + remainder(text.skip(count), max) =~= text.take(count)
            + (flat(rest) + remainder(text.skip(count), max)));
        assert(text.take(count) + text.skip(count) =~= text);
    }
}

#[verifier::rlimit(40)]
proof fn wrap_keeps_text(
    all: Seq<Seq<char>>,
    content: Seq<char>,
    started: bool,
    first: Seq<char>,
    next: Seq<char>,
    width: nat,
)
    ensures
        squeezed(flat(wrap(all, content, started, first, next, width))) == squeezed(content)
            + squeezed(flat(all)),
    decreases all.len(), content.len(),
{
    let prefix = if started {
        next
    } else {
        first
    };
    let result = wrap(all, content, started, first, next, width);
    if all.len() == 0 {
        if content.len() > 0 {
            flat_one(content);
        } else {
            assert(content =~= Seq::<char>::empty());
        }
        assert(squeezed(content) + Seq::<char>::empty() =~= squeezed(content));
        assert(squeezed(Seq::<char>::empty()) =~= Seq::<char>::empty());
    } else {
        let rest = all.skip(1);
        squeezed_concat(all[0], flat(rest));
        if display_columns(all[0]) <= room(width, prefix, content) {
            let longer = with_word(content, all[0]);
            wrap_keeps_text(rest, longer, started, first, next, width);
            if content.len() > 0 {
                squeezed_concat(content.push(' '), all[0]);
                assert(content.push(' ').drop_last() =~= content);
                assert(squeezed(content.push(' ')) == squeezed(content));
            } else {
                assert(content =~= Seq::<char>::empty());
                assert(squeezed(content) + squeezed(all[0]) =~= squeezed(all[0]));
            }
            assert(squeezed(content) + (squeezed(all[0]) + squeezed(flat(rest))) =~= squeezed(
                content,
            ) + squeezed(all[0]) + squeezed(flat(rest)));
        } else if content.len() > 0 {
            let later = wrap(all, Seq::empty(), true, first, next, width);
            wrap_keeps_text(all, Seq::empty(), true, first, next, width);
            assert((seq![content] + later)[0] == content);
            assert((seq![content] + later).skip(1) =~= later);
            squeezed_concat(content, flat(later));
            assert(squeezed(Seq::<char>::empty()) + squeezed(flat(all)) =~= squeezed(flat(all)));
        } else {
            let capacity = at_least_one(minus(width, display_columns(prefix) as nat));
            let count = chars_within(all[0], capacity) as int;
            chars_within_bounds(all[0], capacity);
            let head = all[0].take(count);
            let tail = all[0].skip(count);
            let below = at_least_one(minus(width, display_columns(next) as nat));
            let pieces = chunks(tail, below);
            let left = remainder(tail, below);
            let later = wrap(rest, left, true, first, next, width);
            wrap_keeps_text(rest, left, true, first, next, width);
            chunks_keep_text(tail, below);
            flat_concat(seq![head] + pieces, later);
            flat_concat(seq![head], pieces);
            flat_one(head);
            squeezed_concat(head + flat(pieces), flat(later));
            squeezed_concat(head + flat(pieces), left);
            assert(head + flat(pieces) + left =~= head + tail);
            assert(head + tail =~= all[0]);
            assert(content =~= Seq::<char>::empty());
            assert(squeezed(head + flat(pieces)) + (squeezed(left) + squeezed(flat(rest)))
                =~= squeezed(head + flat(pieces)) + squeezed(left) + squeezed(flat(rest)));
            assert(squeezed(content) + squeezed(flat(all)) =~= squeezed(flat(all)));
        }
    }
}

/// Wrapping a text changes nothing but its spaces: the lines hold the words of the text, in
/// their order and whole.
pub proof fn wrapping_keeps_the_words(
    text: Seq<char>,
    first: Seq<char>,
    next: Seq<char>,
    width: nat,
)
    ensures
        squeezed(flat(wrapped_contents(text, first, next, width))) == squeezed(flat(words(text))),
{
    if words(text).len() == 0 {
        flat_one(Seq::empty());
    } else {
        wrap_keeps_text(words(text), Seq::empty(), false, first, next, usable_width(width));
        assert(squeezed(Seq::<char>::empty()) + squeezed(flat(words(text))) =~= squeezed(
            flat(words(text)),
        ));
    }
}

// ---------------------------------------------------------------------------
// What wrapping fits

/// Whether `text` is made of characters of a kind.
pub open spec fn made_of(text: Seq<char>, kind: spec_fn(char) -> bool) -> bool {
    forall|i: int| 0 <= i < text.len() ==> kind(#[trigger] text[i])
}

/// The columns of the characters of a text, together.
pub open spec fn total_columns(text: Seq<char>) -> nat
    decreases text.len(),
{
    if text.len() == 0 {
        0
    } else {
        columns_of(text[0]) + total_columns(text.skip(1))
    }
}

/// Whether characters of a kind take at least one column each and at most `widest`, a space among
/// them takes one, and a text of them takes as many columns as they do, as far as these can be
/// counted. Combining marks and emoji sequences are of no such kind.
pub open spec fn plain_kind(kind: spec_fn(char) -> bool, widest: nat) -> bool {
    &&& kind(' ') && columns_of(' ') == 1
    &&& forall|character: char| #[trigger]
        kind(character) ==> 1 <= columns_of(character) <= widest
    &&& forall|text: Seq<char>|
        made_of(text, kind) ==> #[trigger] display_columns(text) == columns_sum(
            total_columns(text),
            0,
        )
}

proof fn total_concat(left: Seq<char>, right: Seq<char>)
    ensures
        total_columns(left + right) == total_columns(left) + total_columns(right),
    decreases left.len(),
{
    if left.len() == 0 {
        assert(left + right =~= right);
    } else {
        assert((left + right).skip(1) =~= left.skip(1) + right);
        total_concat(left.skip(1), right);
    }
}

proof fn total_grows(text: Seq<char>, kind: spec_fn(char) -> bool, widest: nat)
    requires
        plain_kind(kind, widest),
        made_of(text, kind),
        text.len() > 0,
    ensures
        total_columns(text) > 0,
{
    assert(kind(text[0]));
}

proof fn fitting_fits_columns(
    text: Seq<char>,
    max: nat,
    used: nat,
    kind: spec_fn(char) -> bool,
    widest: nat,
)
    requires
        plain_kind(kind, widest),
        made_of(text, kind),
        used <= max,
        max + widest <= usize::MAX,
    ensures
        used + total_columns(text.take(fitting_chars(text, max, used) as int)) <= max,
    decreases text.len(),
{
    fitting_is_within(text, max, used);
    let count = fitting_chars(text, max, used) as int;
    if count == 0 {
        assert(text.take(0) =~= Seq::<char>::empty());
    } else {
        assert(kind(text[0]));
        let sum = columns_sum(used, columns_of(text[0]));
        fitting_fits_columns(text.skip(1), max, sum, kind, widest);
        assert(text.take(count)[0] == text[0]);
        assert(text.take(count).skip(1) =~= text.skip(1).take(count - 1));
    }
}

proof fn part_fits_columns(text: Seq<char>, max: nat, kind: spec_fn(char) -> bool, widest: nat)
    requires
        plain_kind(kind, widest),
        made_of(text, kind),
        widest <= max,
        max + widest <= usize::MAX,
    ensures
        total_columns(text.take(chars_within(text, max) as int)) <= max,
{
    fitting_fits_columns(text, max, 0, kind, widest);
    if text.len() > 0 {
        assert(kind(text[0]));
        assert(fitting_chars(text, max, 0) > 0);
    }
}

/// Whether each text is of the kind and fits in `max` columns.
spec fn all_fit(texts: Seq<Seq<char>>, max: nat, kind: spec_fn(char) -> bool) -> bool {
    forall|i: int|
        0 <= i < texts.len() ==> made_of(#[trigger] texts[i], kind) && total_columns(texts[i])
            <= max
}

proof fn chunks_fit(text: Seq<char>, max: nat, kind: spec_fn(char) -> bool, widest: nat)
    requires
        plain_kind(kind, widest),
        made_of(text, kind),
        widest <= max,
        max + widest <= usize::MAX,
    ensures
        all_fit(chunks(text, max), max, kind),
        made_of(remainder(text, max), kind),
        total_columns(remainder(text, max)) <= max,
    decreases text.len(),
{
    if text.len() > 0 && display_columns(text) > max {
        chars_within_bounds(text, max);
        part_fits_columns(text, max, kind, widest);
        let count = chars_within(text, max) as int;
        chunks_fit(text.skip(count), max, kind, widest);
    }
}

/// Whether the lines made of the contents and their prefixes fit in `width` columns.
spec fn lines_fit(
    contents: Seq<Seq<char>>,
    started: bool,
    first: Seq<char>,
    next: Seq<char>,
    width: nat,
    kind: spec_fn(char) -> bool,
) -> bool {
    forall|i: int|
        0 <= i < contents.len() ==> made_of(#[trigger] contents[i], kind) && total_columns(
            if i == 0 && !started {
                first
            } else {
                next
            },
        ) + total_columns(contents[i]) <= width
}

proof fn wrap_fits(
    all: Seq<Seq<char>>,
    content: Seq<char>,
    started: bool,
    first: Seq<char>,
    next: Seq<char>,
    width: nat,
    kind: spec_fn(char) -> bool,
    widest: nat,
)
    requires
        plain_kind(kind, widest),
        made_of(first, kind),
        made_of(next, kind),
        made_of(content, kind),
        forall|i: int|
            0 <= i < all.len() ==> made_of(#[trigger] all[i], kind) && all[i].len() > 0,
        total_columns(first) + widest <= width,
        total_columns(next) + widest <= width,
        width + widest <= usize::MAX,
        total_columns(
            if started {
                next
            } else {
                first
            },
        ) + total_columns(content) <= width,
    ensures
        lines_fit(wrap(all, content, started, first, next, width), started, first, next, width, kind),
    decreases all.len(), content.len(),
{
    let prefix = if started {
        next
    } else {
        first
    };
    if all.len() > 0 {
        let word = all[0];
        let rest = all.skip(1);
        assert forall|i: int| 0 <= i < rest.len() implies made_of(#[trigger] rest[i], kind)
            && rest[i].len() > 0 by {
            assert(rest[i] == all[i + 1]);
        }
        total_grows(word, kind, widest);
        if display_columns(word) <= room(width, prefix, content) {
            let longer = with_word(content, word);
            if content.len() > 0 {
                let spaced = content.push(' ');
                assert(spaced =~= content + seq![' ']);
                total_concat(content, seq![' ']);
                assert(seq![' '].skip(1) =~= Seq::<char>::empty());
                assert(total_columns(seq![' ']) == 1 + total_columns(Seq::<char>::empty()));
                total_concat(spaced, word);
                assert forall|i: int| 0 <= i < longer.len() implies kind(#[trigger] longer[i]) by {
                    if i < content.len() {
                        assert(longer[i] == content[i]);
                    } else if i > content.len() {
                        assert(longer[i] == word[i - content.len() - 1]);
                    }
                }
            }
            wrap_fits(rest, longer, started, first, next, width, kind, widest);
        } else if content.len() > 0 {
            let later = wrap(all, Seq::empty(), true, first, next, width);
            wrap_fits(all, Seq::empty(), true, first, next, width, kind, widest);
            let result = seq![content] + later;
            assert forall|i: int| 0 < i < result.len() implies result[i] == #[trigger] later[i
                - 1] by {}
        } else {
            let capacity = at_least_one(minus(width, display_columns(prefix) as nat));
            let below = at_least_one(minus(width, display_columns(next) as nat));
            let count = chars_within(word, capacity) as int;
            chars_within_bounds(word, capacity);
            part_fits_columns(word, capacity, kind, widest);
            let head = word.take(count);
            let tail = word.skip(count);
            chunks_fit(tail, below, kind, widest);
            let pieces = chunks(tail, below);
            let left = remainder(tail, below);
            wrap_fits(rest, left, true, first, next, width, kind, widest);
            let later = wrap(rest, left, true, first, next, width);
            let result = seq![head] + pieces + later;
            assert forall|i: int| 0 < i < result.len() implies made_of(#[trigger] result[i], kind)
                && total_columns(next) + total_columns(result[i]) <= width by {
                if i <= pieces.len() {
                    assert(result[i] == pieces[i - 1]);
                } else {
                    assert(result[i] == later[i - 1 - pieces.len()]);
                }
            }
            assert(result[0] == head);
        }
    }
}

proof fn pieces_are_made_of(text: Seq<char>, kind: spec_fn(char) -> bool)
    requires
        made_of(text, kind),
    ensures
        space_pieces(text).len() > 0,
        forall|i: int|
            0 <= i < space_pieces(text).len() ==> made_of(#[trigger] space_pieces(text)[i], kind),
    decreases text.len(),
{
    if text.len() > 0 {
        pieces_are_made_of(text.drop_last(), kind);
        let before = space_pieces(text.drop_last());
        assert(made_of(before.last(), kind));
        assert(kind(text.last()));
        assert forall|i: int| 0 <= i < space_pieces(text).len() implies made_of(
            #[trigger] space_pieces(text)[i],
            kind,
        ) by {
            if i < before.len() - 1 || whitespace(text.last()) {
                assert(i < before.len() ==> space_pieces(text)[i] == before[i]);
            } else {
                assert(space_pieces(text)[i] == before.last().push(text.last()));
            }
        }
    }
}

/// No line of a wrapped text is wider than the usable width, where the text and the prefixes are
/// made of characters that take their columns whatever stands beside them, and the prefixes leave
/// room for the widest of these.
pub proof fn wrapped_lines_fit(
    text: Seq<char>,
    first: Seq<char>,
    next: Seq<char>,
    width: usize,
    kind: spec_fn(char) -> bool,
    widest: nat,
    index: int,
)
    requires
        made_of(text, kind),
        made_of(first, kind),
        made_of(next, kind),
        usable_width(width as nat) + widest <= usize::MAX,
        0 <= index < wrapped_contents(text, first, next, width as nat).len(),
    ensures
        plain_kind(kind, widest) && total_columns(first) + widest <= usable_width(width as nat)
            && total_columns(next) + widest <= usable_width(width as nat) ==> display_columns(
            (if index == 0 {
                first
            } else {
                next
            }) + wrapped_contents(text, first, next, width as nat)[index],
        ) <= usable_width(width as nat),
{
    let columns = usable_width(width as nat);
    if plain_kind(kind, widest) && total_columns(first) + widest <= columns && total_columns(next)
        + widest <= columns {
        let all = words(text);
        let contents = wrapped_contents(text, first, next, width as nat);
        let prefix = if index == 0 {
            first
        } else {
            next
        };
        if all.len() > 0 {
            let keep = |piece: Seq<char>| piece.len() > 0;
            pieces_are_made_of(text, kind);
            assert forall|i: int| 0 <= i < all.len() implies made_of(#[trigger] all[i], kind)
                && all[i].len() > 0 by {
                assert(all.contains(all[i]));
                kept_members(space_pieces(text), keep, all[i]);
            }
            wrap_fits(all, Seq::empty(), false, first, next, columns, kind, widest);
        }
        let content = contents[index];
        let whole = prefix + content;
        assert forall|i: int| 0 <= i < whole.len() implies kind(#[trigger] whole[i]) by {
            if i < prefix.len() {
                assert(whole[i] == prefix[i]);
            } else {
                assert(whole[i] == content[i - prefix.len()]);
            }
        }
        total_concat(prefix, content);
    }
}

// ---------------------------------------------------------------------------
// Which lines are there

/// Whether `wanted` is one of the lines of `text`.
pub open spec fn has_line(text: Seq<char>, wanted: Seq<char>) -> bool {
    split_on(text, '\n').contains(wanted)
}

/// Whether the last line of a text, if it has one, is ended.
pub open spec fn is_ended(text: Seq<char>) -> bool {
    text.len() == 0 || text.last() == '\n'
}

/// A line that is appended is there, and adds no other line.
pub proof fn line_is_added(out: Seq<char>, text: Seq<char>, wanted: Seq<char>)
    requires
        is_ended(out),
        !text.contains('\n'),
        wanted.len() > 0,
    ensures
        is_ended(line(out, text)),
        has_line(line(out, text), wanted) <==> has_line(out, wanted) || text == wanted,
{
    reveal_strlit("\n");
    let none = Seq::<char>::empty();
    let result = line(out, text);
    let open = out + text;
    assert(result =~= open.push('\n') + none);
    assert(!none.contains('\n'));
    split_adds_a_piece(open, none, '\n');
    if out.len() == 0 {
        assert(open =~= text);
        assert(out =~= none);
        split_of_one_piece(text, '\n');
        split_of_one_piece(none, '\n');
        let pieces = seq![text].push(none);
        assert(pieces[0] == text);
        assert(!seq![none].contains(wanted));
        if pieces.contains(wanted) {
            let at = choose|i: int| 0 <= i < pieces.len() && pieces[i] == wanted;
            assert(at == 0);
        }
    } else {
        let before = out.drop_last();
        assert(out =~= before.push('\n') + none);
        assert(open =~= before.push('\n') + text);
        split_adds_a_piece(before, none, '\n');
        split_adds_a_piece(before, text, '\n');
        let known = split_on(before, '\n');
        let earlier = known.push(none);
        let pieces = known.push(text).push(none);
        if earlier.contains(wanted) {
            let at = choose|i: int| 0 <= i < earlier.len() && earlier[i] == wanted;
            assert(pieces[at] == wanted);
        }
        assert(pieces[known.len() as int] == text);
        if pieces.contains(wanted) {
            let at = choose|i: int| 0 <= i < pieces.len() && pieces[i] == wanted;
            if at < known.len() {
                assert(earlier[at] == wanted);
            }
        }
    }
}

/// Whether a prefix is on one line and does not begin as `wanted` does.
pub open spec fn begins_otherwise(prefix: Seq<char>, wanted: Seq<char>) -> bool {
    prefix.len() > 0 && wanted.len() > 0 && prefix[0] != wanted[0] && !prefix.contains('\n')
}

proof fn prefixed_lines_are_others(
    out: Seq<char>,
    contents: Seq<Seq<char>>,
    started: bool,
    first: Seq<char>,
    next: Seq<char>,
    wanted: Seq<char>,
)
    requires
        is_ended(out),
        begins_otherwise(first, wanted),
        begins_otherwise(next, wanted),
        forall|i: int| 0 <= i < contents.len() ==> !(#[trigger] contents[i]).contains('\n'),
    ensures
        is_ended(put_prefixed(out, contents, started, first, next)),
        has_line(put_prefixed(out, contents, started, first, next), wanted) == has_line(
            out,
            wanted,
        ),
    decreases contents.len(),
{
    if contents.len() > 0 {
        let prefix = if started {
            next
        } else {
            first
        };
        let text = prefix + contents[0];
        assert(text[0] == prefix[0]);
        if text.contains('\n') {
            let at = choose|i: int| 0 <= i < text.len() && text[i] == '\n';
            if at < prefix.len() {
                assert(prefix[at] == '\n');
            } else {
                assert(contents[0][at - prefix.len()] == '\n');
            }
        }
        line_is_added(out, text, wanted);
        let rest = contents.skip(1);
        assert forall|i: int| 0 <= i < rest.len() implies !(#[trigger] rest[i]).contains('\n') by {
            assert(rest[i] == contents[i + 1]);
        }
        prefixed_lines_are_others(line(out, text), rest, true, first, next, wanted);
    }
}

/// Whether each text is made of characters of a kind.
spec fn all_made_of(texts: Seq<Seq<char>>, kind: spec_fn(char) -> bool) -> bool {
    forall|i: int| 0 <= i < texts.len() ==> made_of(#[trigger] texts[i], kind)
}

proof fn chunks_are_made_of(text: Seq<char>, max: nat, kind: spec_fn(char) -> bool)
    requires
        made_of(text, kind),
    ensures
        all_made_of(chunks(text, max), kind),
        made_of(remainder(text, max), kind),
    decreases text.len(),
{
    if text.len() > 0 && display_columns(text) > max {
        chars_within_bounds(text, max);
        let count = chars_within(text, max) as int;
        chunks_are_made_of(text.skip(count), max, kind);
    }
}

#[verifier::rlimit(40)]
proof fn wrap_is_made_of(
    all: Seq<Seq<char>>,
    content: Seq<char>,
    started: bool,
    first: Seq<char>,
    next: Seq<char>,
    width: nat,
    kind: spec_fn(char) -> bool,
)
    requires
        kind(' '),
        made_of(content, kind),
        all_made_of(all, kind),
    ensures
        all_made_of(wrap(all, content, started, first, next, width), kind),
    decreases all.len(), content.len(),
{
    let prefix = if started {
        next
    } else {
        first
    };
    let result = wrap(all, content, started, first, next, width);
    if all.len() > 0 {
        let word = all[0];
        let rest = all.skip(1);
        assert forall|i: int| 0 <= i < rest.len() implies made_of(#[trigger] rest[i], kind) by {
            assert(rest[i] == all[i + 1]);
        }
        if display_columns(word) <= room(width, prefix, content) {
            let longer = with_word(content, word);
            if content.len() > 0 {
                assert forall|i: int| 0 <= i < longer.len() implies kind(#[trigger] longer[i]) by {
                    if i < content.len() {
                        assert(longer[i] == content[i]);
                    } else if i > content.len() {
                        assert(longer[i] == word[i - content.len() - 1]);
                    }
                }
            }
            wrap_is_made_of(rest, longer, started, first, next, width, kind);
        } else if content.len() > 0 {
            let later = wrap(all, Seq::empty(), true, first, next, width);
            wrap_is_made_of(all, Seq::empty(), true, first, next, width, kind);
            assert forall|i: int| 0 <= i < result.len() implies made_of(#[trigger] result[i], kind) by {
                if i > 0 {
                    assert(result[i] == later[i - 1]);
                }
            }
        } else {
            let capacity = at_least_one(minus(width, display_columns(prefix) as nat));
            let below = at_least_one(minus(width, display_columns(next) as nat));
            let count = chars_within(word, capacity) as int;
            chars_within_bounds(word, capacity);
            let head = word.take(count);
            let tail = word.skip(count);
            chunks_are_made_of(tail, below, kind);
            let pieces = chunks(tail, below);
            let left = remainder(tail, below);
            wrap_is_made_of(rest, left, true, first, next, width, kind);
            let later = wrap(rest, left, true, first, next, width);
            assert(result == seq![head] + pieces + later);
            assert forall|i: int| 0 <= i < result.len() implies made_of(#[trigger] result[i], kind) by {
                if i == 0 {
                    assert(result[i] == head);
                } else if i <= pieces.len() {
                    assert(result[i] == pieces[i - 1]);
                } else {
                    assert(result[i] == later[i - 1 - pieces.len()]);
                }
            }
        }
    }
}

proof fn pieces_hold_no_space(text: Seq<char>)
    ensures
        space_pieces(text).len() > 0,
        forall|i: int|
            0 <= i < space_pieces(text).len() ==> made_of(
                #[trigger] space_pieces(text)[i],
                |character: char| !whitespace(character),
            ),
    decreases text.len(),
{
    let kind = |character: char| !whitespace(character);
    if text.len() > 0 {
        pieces_hold_no_space(text.drop_last());
        let before = space_pieces(text.drop_last());
        assert(made_of(before.last(), kind));
        assert forall|i: int| 0 <= i < space_pieces(text).len() implies made_of(
            #[trigger] space_pieces(text)[i],
            kind,
        ) by {
            if i < before.len() - 1 || whitespace(text.last()) {
                assert(i < before.len() ==> space_pieces(text)[i] == before[i]);
            } else {
                assert(space_pieces(text)[i] == before.last().push(text.last()));
            }
        }
    }
}

proof fn contents_are_on_one_line(text: Seq<char>, first: Seq<char>, next: Seq<char>, width: nat)
    ensures
        forall|i: int|
            0 <= i < wrapped_contents(text, first, next, width).len() ==> !(
            #[trigger] wrapped_contents(text, first, next, width)[i]).contains('\n'),
{
    let kind = |character: char| character != '\n';
    let visible = |character: char| !whitespace(character);
    let keep = |piece: Seq<char>| piece.len() > 0;
    let all = words(text);
    let contents = wrapped_contents(text, first, next, width);
    pieces_hold_no_space(text);
    assert forall|i: int| 0 <= i < all.len() implies made_of(#[trigger] all[i], kind) by {
        assert(all.contains(all[i]));
        kept_members(space_pieces(text), keep, all[i]);
        assert(made_of(all[i], visible));
        assert forall|k: int| 0 <= k < all[i].len() implies kind(#[trigger] all[i][k]) by {
            assert(visible(all[i][k]));
        }
    }
    if all.len() > 0 {
        wrap_is_made_of(all, Seq::empty(), false, first, next, usable_width(width), kind);
    }
    assert forall|i: int| 0 <= i < contents.len() implies !(#[trigger] contents[i]).contains(
        '\n',
    ) by {
        assert(made_of(contents[i], kind));
        if contents[i].contains('\n') {
            let at = choose|k: int| 0 <= k < contents[i].len() && contents[i][k] == '\n';
            assert(kind(contents[i][at]));
        }
    }
}

/// Wrapped text adds no line that begins otherwise than its prefixes do.
pub proof fn wrapped_lines_are_others(
    out: Seq<char>,
    first: Seq<char>,
    next: Seq<char>,
    text: Seq<char>,
    width: nat,
    wanted: Seq<char>,
)
    requires
        is_ended(out),
        begins_otherwise(first, wanted),
        begins_otherwise(next, wanted),
    ensures
        is_ended(wrapped(out, first, next, text, width)),
        has_line(wrapped(out, first, next, text, width), wanted) == has_line(out, wanted),
{
    contents_are_on_one_line(text, first, next, width);
    prefixed_lines_are_others(
        out,
        wrapped_contents(text, first, next, width),
        false,
        first,
        next,
        wanted,
    );
}

// ---------------------------------------------------------------------------
// Width and styles of output

/// The width of output: the one that is configured, or else the one of the terminal, within
/// bounds.
pub open spec fn output_width(configured: Option<Seq<char>>, detected: Option<u16>) -> nat {
    let asked = match configured {
        Some(text) => unsigned(text, usize::MAX as nat),
        None => None,
    };
    let width = match asked {
        Some(columns) => columns,
        None => match detected {
            Some(columns) => columns as nat,
            None => DEFAULT_HUMAN_WIDTH as nat,
        },
    };
    if width < MIN_HUMAN_WIDTH {
        MIN_HUMAN_WIDTH as nat
    } else if width > MAX_HUMAN_WIDTH {
        MAX_HUMAN_WIDTH as nat
    } else {
        width
    }
}

/// The width of output. `configured` is the value of `COLUMNS`, `detected` the width of the
/// terminal.
pub fn human_output_width(configured: &Option<String>, detected: Option<u16>) -> (width: usize)
    ensures
        width == output_width(configured.deep_view(), detected),
{
    let asked = match configured {
        Some(text) => parse_unsigned(text.as_str(), usize::MAX as u64),
        None => None,
    };
    let width: usize = match asked {
        Some(columns) => columns as usize,
        None => match detected {
            Some(columns) => columns as usize,
            None => DEFAULT_HUMAN_WIDTH,
        },
    };
    if width < MIN_HUMAN_WIDTH {
        MIN_HUMAN_WIDTH
    } else if width > MAX_HUMAN_WIDTH {
        MAX_HUMAN_WIDTH
    } else {
        width
    }
}

/// Whether output has colours: only on a terminal, and unless the environment asks for none.
pub fn human_color_enabled(
    terminal: bool,
    no_color: bool,
    term: &Option<String>,
    clicolor: &Option<String>,
) -> (answer: bool)
    ensures
        answer == (terminal && !no_color && term.deep_view() != Some("dumb"@)
            && clicolor.deep_view() != Some("0"@)),
{
    let dumb = match term {
        Some(value) => same(value.as_str(), "dumb"),
        None => false,
    };
    let off = match clicolor {
        Some(value) => same(value.as_str(), "0"),
        None => false,
    };
    terminal && !no_color && !dumb && !off
}

/// Whether a line is the heading of a section.
pub open spec fn is_heading(text: Seq<char>) -> bool {
    ||| text == "System"@
    ||| text == "NVIDIA"@
    ||| text == "Environment notes"@
    ||| text == "Recommendation"@
    ||| text == "Install"@
    ||| text == "GPU alternatives"@
    ||| text == "CPU fallback"@
    ||| text == "Needs review or verification"@
    ||| text == "Other options"@
    ||| text == "Verification"@
    ||| text == "Checks"@
    ||| "Candidates ("@.is_prefix_of(text)
}

fn heading(text: &str) -> (answer: bool)
    ensures
        answer == is_heading(text@),
{
    same(text, "System") || same(text, "NVIDIA") || same(text, "Environment notes") || same(
        text,
        "Recommendation",
    ) || same(text, "Install") || same(text, "GPU alternatives") || same(text, "CPU fallback")
        || same(text, "Needs review or verification") || same(text, "Other options") || same(
        text,
        "Verification",
    ) || same(text, "Checks") || starts_with(text, "Candidates (")
}

/// The style of a line: by its heading, by the state of the candidate it names, or by its label.
pub open spec fn style_of(text: Seq<char>) -> Option<Seq<char>> {
    let label = trim_start(text);
    if is_heading(text) {
        Some("1;36"@)
    } else if occurs(text, "(verified)"@) || occurs(text, "(direct-compatible)"@) {
        Some("32"@)
    } else if occurs(text, "(minor-compatible)"@) || occurs(text, "(unverified)"@)
        || "Note:"@.is_prefix_of(label) || "Warning:"@.is_prefix_of(label)
        || "Driver upgrade:"@.is_prefix_of(label) {
        Some("33"@)
    } else if occurs(text, "(incompatible)"@) || occurs(text, "(unavailable)"@)
        || "Error:"@.is_prefix_of(label) || "fail  "@.is_prefix_of(label) {
        Some("31"@)
    } else if "pass  "@.is_prefix_of(label) {
        Some("32"@)
    } else if "Metadata:"@.is_prefix_of(text) {
        Some("2"@)
    } else {
        None
    }
}

fn trim_beginning(text: &str) -> (rest: String)
    ensures
        rest@ == trim_start(text@),
{
    let chars = to_chars(text);
    let mut start: usize = 0;
    assert(text@.skip(0) =~= text@);
    while start < chars.len() && is_whitespace(chars[start])
        invariant
            chars@ == text@,
            start <= chars@.len(),
            trim_start(text@) == trim_start(text@.skip(start as int)),
        decreases chars@.len() - start,
    {
        assert(text@.skip(start as int).skip(1) =~= text@.skip(start + 1));
        start = start + 1;
    }
    assert(start < text@.len() ==> text@.skip(start as int)[0] == text@[start as int]);
    assert(chars@.subrange(start as int, chars@.len() as int) =~= text@.skip(start as int));
    from_chars(&chars, start, chars.len())
}

/// The style of a line, as the code of an escape sequence.
pub fn human_style_code(line: &str) -> (code: Option<&'static str>)
    ensures
        (match code {
            Some(text) => Some(text@),
            None => None,
        }) == style_of(line@),
{
    let trimmed = trim_beginning(line);
    let label = trimmed.as_str();
    if heading(line) {
        Some("1;36")
    } else if contains(line, "(verified)") || contains(line, "(direct-compatible)") {
        Some("32")
    } else if contains(line, "(minor-compatible)") || contains(line, "(unverified)") || starts_with(
        label,
        "Note:",
    ) || starts_with(label, "Warning:") || starts_with(label, "Driver upgrade:") {
        Some("33")
    } else if contains(line, "(incompatible)") || contains(line, "(unavailable)") || starts_with(
        label,
        "Error:",
    ) || starts_with(label, "fail  ") {
        Some("31")
    } else if starts_with(label, "pass  ") {
        Some("32")
    } else if starts_with(line, "Metadata:") {
        Some("2")
    } else {
        None
    }
}

/// A line in its style.
pub open spec fn styled_line(text: Seq<char>) -> Seq<char> {
    match style_of(text) {
        Some(code) => "\u{1b}["@ + code + "m"@ + (text + "\u{1b}[0m"@),
        None => text,
    }
}

/// A text with every line in its style.
pub open spec fn styled(text: Seq<char>) -> Seq<char> {
    join(split_on(text, '\n').map_values(|piece: Seq<char>| styled_line(piece)), "\n"@)
}

/// Puts every line of a text in its style.
pub fn style_output(text: &str) -> (result: String)
    ensures
        result@ == styled(text@),
{
    let pieces = split(text, '\n');
    let ghost all = split_on(text@, '\n').map_values(|piece: Seq<char>| styled_line(piece));
    let mut lines: Vec<String> = Vec::new();
    let mut index: usize = 0;
    assert(pieces.deep_view().len() == pieces@.len());
    while index < pieces.len()
        invariant
            index <= pieces@.len() == all.len(),
            pieces.deep_view() == split_on(text@, '\n'),
            all == split_on(text@, '\n').map_values(|piece: Seq<char>| styled_line(piece)),
            lines.deep_view() == all.take(index as int),
        decreases pieces@.len() - index,
    {
        let piece = pieces[index].as_str();
        assert(pieces.deep_view()[index as int] == pieces@[index as int]@);
        let line = match human_style_code(piece) {
            Some(code) => concat4(
                "\u{1b}[",
                code,
                "m",
                concat2(piece, "\u{1b}[0m").as_str(),
            ),
            None => piece.to_owned(),
        };
        push_item(&mut lines, line);
        assert(all[index as int] == styled_line(pieces@[index as int]@));
        assert(all.take(index + 1) =~= all.take(index as int).push(all[index as int]));
        index = index + 1;
    }
    assert(all.take(index as int) =~= all);
    join_texts(&lines, "\n")
}

} // verus!
