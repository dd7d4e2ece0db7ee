//! Commands on a terminal: quoted for a POSIX shell, and wrapped so that the shell reads the
//! same arguments.

use crate::model::{CommandSpec, CommandSpecView};
use crate::outside::{
    display_columns, escape_word, printable_ascii, shell_plain, shell_quoted_body, shell_word,
};
use crate::resolver::shell_line;
use crate::terminal::{
    at_least_one, display_width, line, minus, put_lines, put_lines_concat, put_one_line, shown,
    terminal_text, usable_width, write_line, MIN_HUMAN_WIDTH,
};
use crate::text::{concat2, concat3, from_chars, push_item, to_chars};
use vstd::prelude::*;

verus! {

/// What stands before the first line of a command.
pub const FIRST_INDENT: &'static str = "  ";

/// What stands before the other lines of a command.
pub const NEXT_INDENT: &'static str = "    ";

// ---------------------------------------------------------------------------
// Splitting one token

/// The longest beginning of `token`, of at most `count` characters, that takes at most `max`
/// columns when quoted; 0 where none does.
pub open spec fn last_fit(token: Seq<char>, max: nat, count: nat) -> nat
    decreases count,
{
    if count == 0 {
        0
    } else if display_columns(shell_word(token.take(count as int))) <= max {
        count
    } else {
        last_fit(token, max, (count - 1) as nat)
    }
}

/// How many characters of a token go on one line.
pub open spec fn chunk_size(token: Seq<char>, max: nat) -> nat {
    let count = last_fit(token, max, token.len());
    if count == 0 && token.len() > 0 {
        1
    } else {
        count
    }
}

proof fn last_fit_bound(token: Seq<char>, max: nat, count: nat)
    ensures
        last_fit(token, max, count) <= count,
    decreases count,
{
    if count > 0 {
        last_fit_bound(token, max, (count - 1) as nat);
    }
}

proof fn chunk_size_bounds(token: Seq<char>, max: nat)
    ensures
        chunk_size(token, max) <= token.len(),
        token.len() > 0 ==> chunk_size(token, max) > 0,
{
    last_fit_bound(token, max, token.len());
}

/// How many characters of a token go on one line.
pub fn shell_chunk_end(chars: &Vec<char>, start: usize, max: usize) -> (count: usize)
    requires
        start <= chars@.len(),
    ensures
        count == chunk_size(chars@.skip(start as int), max as nat),
        count <= chars@.len() - start,
{
    let size: usize = chars.len();
    let total: usize = size - start;
    let ghost token = chars@.skip(start as int);
    let mut count: usize = total;
    proof {
        last_fit_bound(token, max as nat, total as nat);
    }
    while count > 0
        invariant
            count <= total == size - start,
            start <= size == chars@.len(),
            token == chars@.skip(start as int),
            last_fit(token, max as nat, total as nat) == last_fit(token, max as nat, count as nat),
        decreases count,
    {
        let beginning = from_chars(chars, start, start + count);
        assert(beginning@ =~= token.take(count as int));
        if display_width(escape_word(beginning.as_str()).as_str()) <= max {
            return count;
        }
        count = count - 1;
    }
    if total > 0 {
        1
    } else {
        0
    }
}

/// What ends a line after which the command goes on.
pub open spec fn line_end(following: bool) -> Seq<char> {
    if following {
        " \\"@
    } else {
        ""@
    }
}

/// The lines of a token that is too long for one line. A line that ends within the token ends in
/// a backslash, and the next begins at the margin: the shell joins the two.
pub open spec fn token_lines(
    token: Seq<char>,
    prefix: Seq<char>,
    width: nat,
    following: bool,
) -> Seq<Seq<char>>
    decreases token.len(),
{
    let capacity = minus(
        minus(width, display_columns(prefix) as nat),
        display_columns(line_end(following)) as nat,
    );
    if token.len() == 0 || display_columns(shell_word(token)) <= capacity {
        seq![prefix + shell_word(token) + line_end(following)]
    } else {
        let max = at_least_one(minus(minus(width, display_columns(prefix) as nat), 1));
        let count = chunk_size(token, max) as int;
        if 0 < count <= token.len() {
            seq![prefix + shell_word(token.take(count)) + "\\"@] + token_lines(
                token.skip(count),
                ""@,
                width,
                following,
            )
        } else {
            Seq::empty()
        }
    }
}

fn saturating(left: usize, right: usize) -> (difference: usize)
    ensures
        difference == minus(left as nat, right as nat),
{
    if left >= right {
        left - right
    } else {
        0
    }
}

/// Appends the lines of a token that is too long for one line.
fn write_split_shell_token(
    output: &mut String,
    token: &str,
    first_prefix: &str,
    width: usize,
    has_following_token: bool,
)
    requires
        width >= MIN_HUMAN_WIDTH,
        printable_ascii(first_prefix@),
        first_prefix@.len() <= 4,
    ensures
        final(output)@ == put_lines(
            old(output)@,
            token_lines(token@, first_prefix@, width as nat, has_following_token),
        ),
{
    let chars = to_chars(token);
    let ghost start = output@;
    let ghost wanted = token_lines(token@, first_prefix@, width as nat, has_following_token);
    let suffix = if has_following_token {
        " \\"
    } else {
        ""
    };
    let mut prefix = first_prefix;
    let mut at: usize = 0;
    assert(chars@.skip(0) =~= token@);
    proof {
        reveal_strlit("");
        reveal_strlit(" \\");
    }
    loop
        invariant_except_break
            at <= chars@.len(),
            width >= MIN_HUMAN_WIDTH,
            printable_ascii(prefix@),
            prefix@.len() <= 4,
            suffix@ == line_end(has_following_token),
            printable_ascii(suffix@),
            suffix@.len() <= 2,
            put_lines(
                output@,
                token_lines(chars@.skip(at as int), prefix@, width as nat, has_following_token),
            ) == put_lines(start, wanted),
        ensures
            output@ == put_lines(start, wanted),
        decreases chars@.len() - at,
    {
        let ghost token_left = chars@.skip(at as int);
        let ghost before = output@;
        let rest = from_chars(&chars, at, chars.len());
        assert(rest@ =~= token_left);
        let quoted = escape_word(rest.as_str());
        let used: usize = display_width(prefix);
        let capacity: usize = saturating(saturating(width, used), display_width(suffix));
        let columns: usize = display_width(quoted.as_str());
        if columns <= capacity {
            write_line(output, concat3(prefix, quoted.as_str(), suffix).as_str());
            proof {
                put_one_line(before, prefix@ + quoted@ + suffix@, Seq::empty());
                assert(seq![prefix@ + quoted@ + suffix@] + Seq::<Seq<char>>::empty() =~= seq![
                    prefix@ + quoted@ + suffix@,
                ]);
            }
            break ;
        }
        assert(token_left.len() > 0) by {
            if token_left.len() == 0 {
                assert(token_left =~= Seq::<char>::empty());
                assert(shell_quoted_body(token_left) =~= Seq::<char>::empty());
                assert(shell_word(token_left) =~= seq!['\'', '\'']);
                assert(printable_ascii(quoted@));
            }
        }
        let room: usize = saturating(saturating(width, used), 1);
        let max: usize = if room == 0 {
            1
        } else {
            room
        };
        proof {
            chunk_size_bounds(token_left, max as nat);
        }
        let count: usize = shell_chunk_end(&chars, at, max);
        let chunk = from_chars(&chars, at, at + count);
        assert(chunk@ =~= token_left.take(count as int));
        assert(token_left.skip(count as int) =~= chars@.skip(at + count));
        let part = escape_word(chunk.as_str());
        write_line(output, concat3(prefix, part.as_str(), "\\").as_str());
        proof {
            put_one_line(
                before,
                prefix@ + part@ + "\\"@,
                token_lines(chars@.skip(at + count), ""@, width as nat, has_following_token),
            );
        }
        at = at + count;
        prefix = "";
        proof {
            reveal_strlit("");
        }
    }
}

// ---------------------------------------------------------------------------
// A whole command

/// The tokens of a command, as they are shown.
pub open spec fn shown_tokens(program: Seq<char>, arguments: Seq<Seq<char>>) -> Seq<Seq<char>> {
    seq![shown(program)] + arguments.map_values(|argument: Seq<char>| shown(argument))
}

/// The lines of a command whose tokens are `tokens`, after what is already on the line.
pub open spec fn command_lines(
    tokens: Seq<Seq<char>>,
    begun: Seq<char>,
    has_token: bool,
    width: nat,
) -> Seq<Seq<char>>
    decreases tokens.len(),
{
    if tokens.len() == 0 {
        seq![begun]
    } else {
        let quoted = shell_word(tokens[0]);
        let rest = tokens.skip(1);
        let separator = if has_token {
            " "@
        } else {
            ""@
        };
        let following = tokens.len() > 1;
        let reserve: int = if following {
            2
        } else {
            0
        };
        let taken = display_columns(quoted) + reserve;
        if display_columns(begun) + display_columns(separator) + taken <= width {
            command_lines(rest, begun + separator + quoted, true, width)
        } else {
            let finished = if has_token {
                seq![begun + " \\"@]
            } else {
                Seq::empty()
            };
            let fresh = if has_token {
                NEXT_INDENT@
            } else {
                begun
            };
            if display_columns(fresh) + taken <= width {
                finished + command_lines(rest, fresh + quoted, true, width)
            } else {
                finished + (token_lines(tokens[0], fresh, width, following) + (if following {
                    command_lines(rest, NEXT_INDENT@, false, width)
                } else {
                    Seq::empty()
                }))
            }
        }
    }
}

/// `out` followed by a command wrapped to `width` columns.
pub open spec fn put_command(out: Seq<char>, command: CommandSpecView, width: nat) -> Seq<char> {
    put_lines(
        out,
        command_lines(
            shown_tokens(command.program, command.args),
            FIRST_INDENT@,
            false,
            usable_width(width),
        ),
    )
}

fn list_tokens(command: &CommandSpec) -> (tokens: Vec<String>)
    ensures
        tokens.deep_view() == shown_tokens(
            command.deep_view().program,
            command.deep_view().args,
        ),
        tokens@.len() > 0,
{
    let ghost all = shown_tokens(command.deep_view().program, command.deep_view().args);
    let mut tokens: Vec<String> = Vec::new();
    push_item(&mut tokens, terminal_text(command.program.as_str()));
    assert(tokens.deep_view() =~= all.take(1));
    let mut index: usize = 0;
    while index < command.args.len()
        invariant
            index <= command.args@.len(),
            all == shown_tokens(command.deep_view().program, command.deep_view().args),
            tokens.deep_view() == all.take(index + 1),
            tokens@.len() > 0,
        decreases command.args@.len() - index,
    {
        assert(command.deep_view().args[index as int] == command.args@[index as int]@);
        assert(all[index + 1] == shown(command.args@[index as int]@));
        push_item(&mut tokens, terminal_text(command.args[index].as_str()));
        assert(all.take(index + 2) =~= all.take(index + 1).push(all[index + 1]));
        index = index + 1;
    }
    assert(all.take(index + 1) =~= all);
    tokens
}

/// Appends a command wrapped to `width` columns.
#[verifier::rlimit(40)]
pub fn write_command(output: &mut String, command: &CommandSpec, width: usize)
    ensures
        final(output)@ == put_command(old(output)@, command.deep_view(), width as nat),
{
    let limit: usize = if width < MIN_HUMAN_WIDTH {
        MIN_HUMAN_WIDTH
    } else {
        width
    };
    let tokens = list_tokens(command);
    let ghost all = tokens.deep_view();
    let ghost start = output@;
    let ghost wanted = command_lines(all, FIRST_INDENT@, false, limit as nat);
    let mut begun = FIRST_INDENT.to_owned();
    let mut has_token = false;
    let mut index: usize = 0;
    assert(all.skip(0) =~= all);
    proof {
        reveal_strlit("  ");
        reveal_strlit("    ");
    }
    while index < tokens.len()
        invariant
            index <= tokens@.len(),
            all == tokens.deep_view(),
            limit >= MIN_HUMAN_WIDTH,
            limit == usable_width(width as nat),
            start == old(output)@,
            all == shown_tokens(command.deep_view().program, command.deep_view().args),
            wanted == command_lines(all, FIRST_INDENT@, false, limit as nat),
            !has_token ==> printable_ascii(begun@) && begun@.len() <= 4,
            put_lines(
                output@,
                command_lines(all.skip(index as int), begun@, has_token, limit as nat),
            ) == put_lines(start, wanted),
        decreases tokens@.len() - index,
    {
        let ghost left = all.skip(index as int);
        let ghost rest = all.skip(index + 1);
        let ghost before = output@;
        assert(all.len() == tokens@.len());
        assert(left[0] == tokens@[index as int]@);
        assert(left.skip(1) =~= rest);
        let token = tokens[index].as_str();
        let quoted = escape_word(token);
        let separator = if has_token {
            " "
        } else {
            ""
        };
        let following = index + 1 < tokens.len();
        let reserve: u128 = if following {
            2
        } else {
            0
        };
        let taken: u128 = display_width(quoted.as_str()) as u128 + reserve;
        let needed: u128 = display_width(begun.as_str()) as u128 + display_width(separator) as u128
            + taken;
        if needed <= limit as u128 {
            begun.append(separator);
            begun.append(quoted.as_str());
            has_token = true;
            index = index + 1;
            continue ;
        }
        let ghost finished = if has_token {
            seq![begun@ + " \\"@]
        } else {
            Seq::empty()
        };
        if has_token {
            write_line(output, concat2(begun.as_str(), " \\").as_str());
            begun = NEXT_INDENT.to_owned();
            has_token = false;
            proof {
                reveal_strlit("    ");
            }
        }
        let ghost fresh = begun@;
        let ghost middle = output@;
        proof {
            if finished.len() > 0 {
                put_one_line(before, finished[0], Seq::empty());
                assert(seq![finished[0]] + Seq::<Seq<char>>::empty() =~= finished);
            }
            assert(put_lines(before, finished) == middle);
        }
        if display_width(begun.as_str()) as u128 + taken <= limit as u128 {
            begun.append(quoted.as_str());
            has_token = true;
            proof {
                put_lines_concat(
                    before,
                    finished,
                    command_lines(rest, fresh + quoted@, true, limit as nat),
                );
            }
            index = index + 1;
            continue ;
        }
        write_split_shell_token(output, token, begun.as_str(), limit, following);
        let ghost pieces = token_lines(token@, fresh, limit as nat, following);
        let ghost after = if following {
            command_lines(rest, NEXT_INDENT@, false, limit as nat)
        } else {
            Seq::empty()
        };
        proof {
            put_lines_concat(before, finished, pieces + after);
            put_lines_concat(middle, pieces, after);
        }
        if !following {
            return ;
        }
        begun = NEXT_INDENT.to_owned();
        has_token = false;
        proof {
            reveal_strlit("    ");
        }
        index = index + 1;
    }
    proof {
        assert(all.skip(index as int) =~= Seq::<Seq<char>>::empty());
        put_one_line(output@, begun@, Seq::empty());
        assert(seq![begun@] + Seq::<Seq<char>>::empty() =~= seq![begun@]);
    }
    write_line(output, begun.as_str());
}

// ---------------------------------------------------------------------------
// What a shell reads

/// Where a shell stands in reading a command.
pub enum ShellMode {
    /// Outside quotes.
    Plain,
    /// Within single quotes.
    Quoted,
    /// After a backslash outside quotes.
    Escaped,
    /// After the end of the command.
    Ended,
    /// Within a second command.
    Beyond,
}

/// What a shell has read of a command.
pub struct ShellState {
    /// The words that are finished.
    pub words: Seq<Seq<char>>,
    /// The word that is being read.
    pub word: Option<Seq<char>>,
    /// Where the shell stands.
    pub mode: ShellMode,
}

/// A word that may be missing.
pub open spec fn word_so_far(word: Option<Seq<char>>) -> Seq<char> {
    match word {
        Some(text) => text,
        None => Seq::empty(),
    }
}

/// The words with the one that is being read.
pub open spec fn words_so_far(state: ShellState) -> Seq<Seq<char>> {
    match state.word {
        Some(text) => state.words.push(text),
        None => state.words,
    }
}

/// Reading one more character of a command: quotes and backslashes are removed, a backslash and
/// the line feed after it vanish, spaces end words, and a line feed ends the command.
pub open spec fn shell_step(state: ShellState, character: char) -> ShellState {
    match state.mode {
        ShellMode::Plain => if character == '\'' {
            ShellState { word: Some(word_so_far(state.word)), mode: ShellMode::Quoted, ..state }
        } else if character == '\\' {
            ShellState { mode: ShellMode::Escaped, ..state }
        } else if character == ' ' || character == '\t' {
            ShellState { words: words_so_far(state), word: None, mode: ShellMode::Plain }
        } else if character == '\n' {
            ShellState { words: words_so_far(state), word: None, mode: ShellMode::Ended }
        } else {
            ShellState { word: Some(word_so_far(state.word).push(character)), ..state }
        },
        ShellMode::Quoted => if character == '\'' {
            ShellState { mode: ShellMode::Plain, ..state }
        } else {
            ShellState { word: Some(word_so_far(state.word).push(character)), ..state }
        },
        ShellMode::Escaped => if character == '\n' {
            ShellState { mode: ShellMode::Plain, ..state }
        } else {
            ShellState {
                word: Some(word_so_far(state.word).push(character)),
                mode: ShellMode::Plain,
                ..state
            }
        },
        ShellMode::Ended => ShellState { mode: ShellMode::Beyond, ..state },
        ShellMode::Beyond => state,
    }
}

/// Reading a text.
pub open spec fn shell_read(state: ShellState, text: Seq<char>) -> ShellState
    decreases text.len(),
{
    if text.len() == 0 {
        state
    } else {
        shell_step(shell_read(state, text.drop_last()), text.last())
    }
}

/// Nothing read yet.
pub open spec fn shell_start() -> ShellState {
    ShellState { words: Seq::empty(), word: None, mode: ShellMode::Plain }
}

/// The words that a POSIX shell reads in a single command without expansions; `None` where the
/// text is not one such command.
pub open spec fn shell_words(text: Seq<char>) -> Option<Seq<Seq<char>>> {
    let end = shell_read(shell_start(), text);
    if end.mode is Plain || end.mode is Ended {
        Some(words_so_far(end))
    } else {
        None
    }
}

proof fn read_concat(state: ShellState, left: Seq<char>, right: Seq<char>)
    ensures
        shell_read(state, left + right) == shell_read(shell_read(state, left), right),
    decreases right.len(),
{
    if right.len() == 0 {
        assert(left + right =~= left);
    } else {
        assert((left + right).drop_last() =~= left + right.drop_last());
        read_concat(state, left, right.drop_last());
    }
}

proof fn read_one(state: ShellState, character: char)
    ensures
        shell_read(state, seq![character]) == shell_step(state, character),
{
    assert(seq![character].drop_last() =~= Seq::<char>::empty());
    assert(shell_read(state, Seq::<char>::empty()) == state);
}

proof fn read_plain(state: ShellState, text: Seq<char>)
    requires
        state.mode is Plain,
        forall|i: int| 0 <= i < text.len() ==> shell_plain(#[trigger] text[i]),
    ensures
        text.len() > 0 ==> shell_read(state, text) == (ShellState {
            word: Some(word_so_far(state.word) + text),
            ..state
        }),
    decreases text.len(),
{
    if text.len() > 0 {
        let rest = text.drop_last();
        assert forall|i: int| 0 <= i < rest.len() implies shell_plain(#[trigger] rest[i]) by {
            assert(rest[i] == text[i]);
        }
        read_plain(state, rest);
        assert(shell_plain(text[text.len() - 1]));
        if rest.len() == 0 {
            assert(rest =~= Seq::<char>::empty());
            assert(word_so_far(state.word).push(text.last()) =~= word_so_far(state.word) + text);
        } else {
            assert((word_so_far(state.word) + rest).push(text.last()) =~= word_so_far(state.word)
                + text);
        }
    }
}

proof fn read_quoted_body(state: ShellState, text: Seq<char>)
    requires
        state.mode is Quoted,
        state.word is Some,
    ensures
        shell_read(state, shell_quoted_body(text)) == (ShellState {
            word: Some(word_so_far(state.word) + text),
            ..state
        }),
    decreases text.len(),
{
    let word = word_so_far(state.word);
    if text.len() == 0 {
        assert(word + text =~= word);
    } else {
        let rest = text.drop_last();
        let body = shell_quoted_body(rest);
        read_quoted_body(state, rest);
        let middle = shell_read(state, body);
        assert((word + rest).push(text.last()) =~= word + text);
        if text.last() == '\'' || text.last() == '!' {
            let marks = seq!['\'', '\\', text.last(), '\''];
            read_concat(state, body, marks);
            let one = seq!['\''];
            let two = seq!['\'', '\\'];
            let three = seq!['\'', '\\', text.last()];
            assert(one.drop_last() =~= Seq::<char>::empty());
            assert(two.drop_last() =~= one);
            assert(three.drop_last() =~= two);
            assert(marks.drop_last() =~= three);
            assert(shell_read(middle, Seq::<char>::empty()) == middle);
            assert(shell_read(middle, one) == (ShellState { mode: ShellMode::Plain, ..middle }));
            assert(shell_read(middle, two) == (ShellState { mode: ShellMode::Escaped, ..middle }));
            assert(shell_read(middle, three) == (ShellState {
                word: Some((word + rest).push(text.last())),
                mode: ShellMode::Plain,
                ..middle
            }));
        } else {
            assert(body.push(text.last()).drop_last() =~= body);
        }
    }
}

/// A quoted word is read as what was quoted.
pub proof fn quoting_is_read_back(state: ShellState, text: Seq<char>)
    requires
        state.mode is Plain,
    ensures
        shell_read(state, shell_word(text)) == (ShellState {
            word: Some(word_so_far(state.word) + text),
            ..state
        }),
{
    if text.len() > 0 && forall|i: int| 0 <= i < text.len() ==> shell_plain(#[trigger] text[i]) {
        read_plain(state, text);
    } else {
        let quote = seq!['\''];
        let body = shell_quoted_body(text);
        let inside = ShellState {
            word: Some(word_so_far(state.word)),
            mode: ShellMode::Quoted,
            ..state
        };
        read_concat(state, quote + body, quote);
        read_concat(state, quote, body);
        read_one(state, '\'');
        read_quoted_body(inside, text);
        read_one(
            ShellState { word: Some(word_so_far(state.word) + text), ..inside },
            '\'',
        );
    }
}

proof fn read_blank(state: ShellState, text: Seq<char>)
    requires
        state.mode is Plain,
        state.word is None,
        forall|i: int| 0 <= i < text.len() ==> #[trigger] text[i] == ' ',
    ensures
        shell_read(state, text) == state,
    decreases text.len(),
{
    if text.len() > 0 {
        let rest = text.drop_last();
        assert forall|i: int| 0 <= i < rest.len() implies #[trigger] rest[i] == ' ' by {
            assert(rest[i] == text[i]);
        }
        read_blank(state, rest);
        assert(text[text.len() - 1] == ' ');
    }
}

/// The text of lines.
pub open spec fn lines_text(lines: Seq<Seq<char>>) -> Seq<char> {
    put_lines(Seq::empty(), lines)
}

proof fn put_lines_text(out: Seq<char>, lines: Seq<Seq<char>>)
    ensures
        put_lines(out, lines) == out + lines_text(lines),
    decreases lines.len(),
{
    if lines.len() == 0 {
        assert(out + Seq::<char>::empty() =~= out);
    } else {
        let first = line(Seq::empty(), lines[0]);
        put_lines_text(line(out, lines[0]), lines.skip(1));
        put_lines_text(first, lines.skip(1));
        assert(line(out, lines[0]) + lines_text(lines.skip(1)) =~= out + (first + lines_text(
            lines.skip(1),
        )));
    }
}

proof fn lines_text_concat(left: Seq<Seq<char>>, right: Seq<Seq<char>>)
    ensures
        lines_text(left + right) == lines_text(left) + lines_text(right),
{
    put_lines_concat(Seq::empty(), left, right);
    put_lines_text(lines_text(left), right);
}

proof fn one_line_text(text: Seq<char>)
    ensures
        lines_text(seq![text]) == text + "\n"@,
{
    put_one_line(Seq::empty(), text, Seq::empty());
    assert(seq![text] + Seq::<Seq<char>>::empty() =~= seq![text]);
    assert(line(Seq::empty(), text) =~= text + "\n"@);
}

proof fn read_continuation(state: ShellState)
    requires
        state.mode is Plain,
    ensures
        shell_read(state, "\\"@ + "\n"@) == state,
        shell_read(state, " \\"@ + "\n"@) == (ShellState {
            words: words_so_far(state),
            word: None,
            mode: ShellMode::Plain,
        }),
        shell_read(state, ""@ + "\n"@) == (ShellState {
            words: words_so_far(state),
            word: None,
            mode: ShellMode::Ended,
        }),
{
    reveal_strlit("\\");
    reveal_strlit(" \\");
    reveal_strlit("");
    reveal_strlit("\n");
    assert("\\"@ =~= seq!['\\']);
    assert("\n"@ =~= seq!['\n']);
    assert(" \\"@ =~= seq![' '] + seq!['\\']);
    assert(""@ + "\n"@ =~= seq!['\n']);
    let escaped = ShellState { mode: ShellMode::Escaped, ..state };
    read_one(state, '\\');
    read_concat(state, "\\"@, "\n"@);
    read_one(escaped, '\n');
    let apart = ShellState { words: words_so_far(state), word: None, mode: ShellMode::Plain };
    let apart_escaped = ShellState { mode: ShellMode::Escaped, ..apart };
    read_concat(state, " \\"@, "\n"@);
    read_concat(state, seq![' '], seq!['\\']);
    read_one(state, ' ');
    read_one(apart, '\\');
    read_one(apart_escaped, '\n');
    read_one(state, '\n');
}

/// What a shell has read after the lines of a token.
pub open spec fn after_token(
    state: ShellState,
    token: Seq<char>,
    following: bool,
) -> ShellState {
    ShellState {
        words: state.words.push(word_so_far(state.word) + token),
        word: None,
        mode: if following {
            ShellMode::Plain
        } else {
            ShellMode::Ended
        },
    }
}

proof fn token_lines_are_read_back(
    state: ShellState,
    token: Seq<char>,
    prefix: Seq<char>,
    width: nat,
    following: bool,
)
    requires
        state.mode is Plain,
        shell_read(state, prefix) == state,
    ensures
        shell_read(state, lines_text(token_lines(token, prefix, width, following))) == after_token(
            state,
            token,
            following,
        ),
    decreases token.len(),
{
    let capacity = minus(
        minus(width, display_columns(prefix) as nat),
        display_columns(line_end(following)) as nat,
    );
    let word = word_so_far(state.word);
    if token.len() == 0 || display_columns(shell_word(token)) <= capacity {
        let quoted = shell_word(token);
        let end = line_end(following);
        one_line_text(prefix + quoted + end);
        assert(prefix + quoted + end + "\n"@ =~= (prefix + quoted) + (end + "\n"@));
        read_concat(state, prefix + quoted, end + "\n"@);
        read_concat(state, prefix, quoted);
        quoting_is_read_back(state, token);
        read_continuation(ShellState { word: Some(word + token), ..state });
    } else {
        let max = at_least_one(minus(minus(width, display_columns(prefix) as nat), 1));
        let count = chunk_size(token, max) as int;
        chunk_size_bounds(token, max);
        let part = shell_word(token.take(count));
        let first = prefix + part + "\\"@;
        let rest = token_lines(token.skip(count), ""@, width, following);
        let next = ShellState { word: Some(word + token.take(count)), ..state };
        lines_text_concat(seq![first], rest);
        one_line_text(first);
        assert(first + "\n"@ =~= (prefix + part) + ("\\"@ + "\n"@));
        read_concat(state, first + "\n"@, lines_text(rest));
        read_concat(state, prefix + part, "\\"@ + "\n"@);
        read_concat(state, prefix, part);
        quoting_is_read_back(state, token.take(count));
        read_continuation(next);
        reveal_strlit("");
        assert(""@ =~= Seq::<char>::empty());
        token_lines_are_read_back(next, token.skip(count), ""@, width, following);
        assert(word + token.take(count) + token.skip(count) =~= word + token);
    }
}

/// What a shell has read before a token: `done` words, the last of them not yet finished where
/// there is one on the line.
pub open spec fn reads_so_far(
    state: ShellState,
    begun: Seq<char>,
    has_token: bool,
    done: Seq<Seq<char>>,
) -> bool {
    let now = shell_read(state, begun);
    &&& now.mode is Plain
    &&& has_token <==> now.word is Some
    &&& words_so_far(now) == done
}

proof fn indents_are_blank(state: ShellState)
    requires
        state.mode is Plain,
        state.word is None,
    ensures
        shell_read(state, FIRST_INDENT@) == state,
        shell_read(state, NEXT_INDENT@) == state,
        shell_read(state, ""@) == state,
{
    reveal_strlit("  ");
    reveal_strlit("    ");
    reveal_strlit("");
    read_blank(state, FIRST_INDENT@);
    read_blank(state, NEXT_INDENT@);
    read_blank(state, ""@);
}

#[verifier::rlimit(60)]
#[verifier::spinoff_prover]
proof fn command_lines_are_read_back(
    state: ShellState,
    tokens: Seq<Seq<char>>,
    begun: Seq<char>,
    has_token: bool,
    width: nat,
    done: Seq<Seq<char>>,
)
    requires
        state.mode is Plain,
        reads_so_far(state, begun, has_token, done),
        !has_token ==> state.word is None && shell_read(state, begun) == state,
    ensures
        shell_read(state, lines_text(command_lines(tokens, begun, has_token, width)))
            == (ShellState { words: done + tokens, word: None, mode: ShellMode::Ended }),
    decreases tokens.len(),
{
    let now = shell_read(state, begun);
    if tokens.len() == 0 {
        one_line_text(begun);
        read_concat(state, begun, "\n"@);
        reveal_strlit("");
        assert(""@ + "\n"@ =~= "\n"@);
        read_continuation(now);
        assert(done + tokens =~= done);
    } else {
        let quoted = shell_word(tokens[0]);
        let rest = tokens.skip(1);
        let separator = if has_token {
            " "@
        } else {
            ""@
        };
        let following = tokens.len() > 1;
        let reserve: int = if following {
            2
        } else {
            0
        };
        let taken = display_columns(quoted) + reserve;
        let apart = ShellState { words: done, word: None, mode: ShellMode::Plain };
        assert(done.push(tokens[0]) + rest =~= done + tokens);
        reveal_strlit(" ");
        reveal_strlit("");
        assert(" "@ =~= seq![' ']);
        read_one(now, ' ');
        assert(shell_read(now, separator) == apart) by {
            if !has_token {
                assert(""@ =~= Seq::<char>::empty());
                assert(now == apart);
            }
        }
        quoting_is_read_back(apart, tokens[0]);
        assert(Seq::<char>::empty() + tokens[0] =~= tokens[0]);
        let with_token = ShellState { words: done, word: Some(tokens[0]), mode: ShellMode::Plain };
        assert(shell_read(apart, quoted) == with_token);
        if display_columns(begun) + display_columns(separator) + taken <= width {
            let longer = begun + separator + quoted;
            read_concat(state, begun + separator, quoted);
            read_concat(state, begun, separator);
            command_lines_are_read_back(state, rest, longer, true, width, done.push(tokens[0]));
        } else {
            let finished = if has_token {
                seq![begun + " \\"@]
            } else {
                Seq::empty()
            };
            let fresh = if has_token {
                NEXT_INDENT@
            } else {
                begun
            };
            assert(shell_read(state, lines_text(finished)) == apart) by {
                if has_token {
                    one_line_text(begun + " \\"@);
                    assert(begun + " \\"@ + "\n"@ =~= begun + (" \\"@ + "\n"@));
                    read_concat(state, begun, " \\"@ + "\n"@);
                    read_continuation(now);
                } else {
                    assert(now == apart);
                }
            }
            indents_are_blank(apart);
            assert(shell_read(apart, fresh) == apart) by {
                if !has_token {
                    assert(state == apart);
                }
            }
            if display_columns(fresh) + taken <= width {
                let later = command_lines(rest, fresh + quoted, true, width);
                read_concat(apart, fresh, quoted);
                command_lines_are_read_back(
                    apart,
                    rest,
                    fresh + quoted,
                    true,
                    width,
                    done.push(tokens[0]),
                );
                lines_text_concat(finished, later);
                read_concat(state, lines_text(finished), lines_text(later));
            } else {
                let pieces = token_lines(tokens[0], fresh, width, following);
                let after = if following {
                    command_lines(rest, NEXT_INDENT@, false, width)
                } else {
                    Seq::empty()
                };
                let placed = after_token(apart, tokens[0], following);
                token_lines_are_read_back(apart, tokens[0], fresh, width, following);
                assert(placed.words == done.push(tokens[0]));
                lines_text_concat(finished, pieces + after);
                lines_text_concat(pieces, after);
                read_concat(state, lines_text(finished), lines_text(pieces + after));
                read_concat(apart, lines_text(pieces), lines_text(after));
                if following {
                    indents_are_blank(placed);
                    command_lines_are_read_back(
                        placed,
                        rest,
                        NEXT_INDENT@,
                        false,
                        width,
                        done.push(tokens[0]),
                    );
                } else {
                    assert(rest =~= Seq::<Seq<char>>::empty());
                    assert(done.push(tokens[0]) =~= done + tokens);
                }
            }
        }
    }
}

/// However a command is wrapped, a shell reads the program and the arguments that are shown,
/// with the same boundaries.
pub proof fn wrapped_command_keeps_its_arguments(command: CommandSpecView, width: nat)
    ensures
        shell_words(put_command(Seq::empty(), command, width)) == Some(
            shown_tokens(command.program, command.args),
        ),
{
    let tokens = shown_tokens(command.program, command.args);
    indents_are_blank(shell_start());
    command_lines_are_read_back(
        shell_start(),
        tokens,
        FIRST_INDENT@,
        false,
        usable_width(width),
        Seq::empty(),
    );
    assert(Seq::<Seq<char>>::empty() + tokens =~= tokens);
}

proof fn shell_line_state(program: Seq<char>, args: Seq<Seq<char>>)
    ensures
        ({
            let state = shell_read(shell_start(), shell_line(program, args));
            &&& state.mode is Plain
            &&& state.word is Some
            &&& words_so_far(state) == seq![program] + args
        }),
    decreases args.len(),
{
    if args.len() == 0 {
        quoting_is_read_back(shell_start(), program);
        assert(Seq::<char>::empty() + program =~= program);
        assert(Seq::<Seq<char>>::empty().push(program) =~= seq![program] + args);
    } else {
        let rest = args.drop_last();
        let quoted = shell_word(args.last());
        shell_line_state(program, rest);
        let state = shell_read(shell_start(), shell_line(program, rest));
        let apart = ShellState { words: words_so_far(state), word: None, mode: ShellMode::Plain };
        reveal_strlit(" ");
        assert(" "@ =~= seq![' ']);
        read_one(state, ' ');
        read_concat(shell_start(), shell_line(program, rest) + " "@, quoted);
        read_concat(shell_start(), shell_line(program, rest), " "@);
        quoting_is_read_back(apart, args.last());
        assert(Seq::<char>::empty() + args.last() =~= args.last());
        assert((seq![program] + rest).push(args.last()) =~= seq![program] + args);
    }
}

/// A shell reads the display form of a command as its program and its arguments.
pub proof fn displayed_command_is_read_back(program: Seq<char>, args: Seq<Seq<char>>)
    ensures
        shell_words(shell_line(program, args)) == Some(seq![program] + args),
{
    shell_line_state(program, args);
}

} // verus!
