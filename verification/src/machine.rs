//! What is found out about the host is what its files and tools say.

use crate::command::{combined, CapturedOutputView, CommandErrorView};
use crate::details::{ascending, bind_keeps_ascending, bind_updates_lookup, lookup};
use crate::environment::{
    architecture_notes, distribution_named, environment_of, kernel_release, libc_notes, os_notes,
    platform_of, toolkit_notes,
};
use crate::filenames::first_separator_splits;
use crate::host::{
    between, big_endian, elf_number, first_numeric, interpreter_segment, libc_named, loader_verdict,
    next_libc_step, numeric_prefix, program_interpreter, program_table, release_line, release_name,
    release_value, release_values, segment_path, unescaped, LibcDetectionView, LibcStepView,
    LoaderVerdictView, ProgramTable,
};
use crate::model::{
    CudaToolkitInfoView, DiagnosticCode, DiagnosticSeverity, DiagnosticView, PlatformInfoView,
    ToolkitSource,
};
use crate::nvidia::NvidiaDetectionView;
use crate::order::{sort_by, sort_keeps_items};
use crate::outside::{json_value, JsonValueView};
use crate::pieces::{lines, occurs, position, split_first, trimmed};
use crate::python::PythonDetectionView;
use crate::text::{lowercase, whitespace};
use crate::toolkit::{
    document_version, json_version, newest_is_not_older, next_root_step, next_toolkit_step,
    nvcc_named, nvcc_output_version, older, FoundToolkitView, RootStepView, ToolkitAnswersView,
    ToolkitStepView,
};
use crate::version::{
    parsed_version, version_less, version_order_total, NumericVersionView, VersionParseErrorView,
};
use vstd::prelude::*;
use vstd::utf8::{decode_utf8, valid_utf8};

verus! {

/// A text as it is written between double quotes: with a backslash before the characters that would
/// otherwise have a meaning there.
pub open spec fn escaped(text: Seq<char>) -> Seq<char>
    decreases text.len(),
{
    if text.len() == 0 {
        Seq::empty()
    } else {
        (if text[0] == '"' || text[0] == '\\' || text[0] == '$' || text[0] == '`' {
            seq!['\\', text[0]]
        } else {
            seq![text[0]]
        }) + escaped(text.skip(1))
    }
}

proof fn escapes_are_resolved(text: Seq<char>)
    ensures
        unescaped(escaped(text)) == text,
    decreases text.len(),
{
    if text.len() > 0 {
        let rest = text.skip(1);
        escapes_are_resolved(rest);
        let written = escaped(text);
        if text[0] == '"' || text[0] == '\\' || text[0] == '$' || text[0] == '`' {
            assert(written.skip(2) =~= escaped(rest));
            assert(written[0] == '\\' && written[1] == text[0]);
        } else {
            assert(written.skip(1) =~= escaped(rest));
            assert(written[0] == text[0]);
        }
        assert(seq![text[0]] + rest =~= text);
    }
}

proof fn quoted_text_is_between(text: Seq<char>, quote: char, mark: Seq<char>)
    requires
        mark == seq![quote],
    ensures
        between(mark + text + mark, mark) == Some(text),
{
    let whole = mark + text + mark;
    assert(mark.is_prefix_of(whole));
    let rest = whole.skip(1);
    assert(rest =~= text + mark);
    assert(rest.skip(rest.len() - 1) =~= mark);
    assert(mark.is_suffix_of(rest));
    assert(rest.take(rest.len() - 1) =~= text);
}

/// A value in a release description is read as a shell would read it: what was written between double
/// quotes or single ones comes back, a bare value stands for itself, and a quote without its match
/// makes no value.
pub proof fn quoted_values_are_read_back(text: Seq<char>)
    ensures
        release_value("\""@ + escaped(text) + "\""@) == Some(text),
        release_value("'"@ + text + "'"@) == Some(text),
        text.len() > 0 && text[0] != '"' && text[0] != '\'' && text.last() != '"' && text.last()
            != '\'' ==> release_value(text) == Some(text) && release_value("\""@ + text) is None
            && release_value(text + "\""@) is None && release_value("'"@ + text) is None
            && release_value(text + "'"@) is None,
{
    reveal_strlit("\"");
    reveal_strlit("'");
    assert("\""@ =~= seq!['"']);
    assert("'"@ =~= seq!['\'']);
    escapes_are_resolved(text);
    quoted_text_is_between(escaped(text), '"', "\""@);
    quoted_text_is_between(text, '\'', "'"@);
    let single = "'"@ + text + "'"@;
    assert(single[0] == '\'');
    assert(!"\""@.is_prefix_of(single)) by {
        if "\""@.is_prefix_of(single) {
            assert("\""@[0] == single[0]);
        }
    }
    if text.len() > 0 && text[0] != '"' && text[0] != '\'' && text.last() != '"' && text.last()
        != '\'' {
        let candidates = seq![text, "\""@ + text, text + "\""@, "'"@ + text, text + "'"@];
        assert forall|i: int| 0 <= i < candidates.len() implies between(
            #[trigger] candidates[i],
            "\""@,
        ) is None && between(candidates[i], "'"@) is None by {
            let value = candidates[i];
            if "\""@.is_prefix_of(value) {
                assert("\""@[0] == value[0]);
                let rest = value.skip(1);
                assert(rest.last() == value.last());
                if "\""@.is_suffix_of(rest) {
                    assert("\""@.last() == rest.last());
                }
            }
            if "'"@.is_prefix_of(value) {
                assert("'"@[0] == value[0]);
                let rest = value.skip(1);
                assert(rest.last() == value.last());
                if "'"@.is_suffix_of(rest) {
                    assert("'"@.last() == rest.last());
                }
            }
        }
        assert(between(candidates[0], "\""@) is None && between(candidates[0], "'"@) is None);
        assert(between(candidates[1], "\""@) is None && between(candidates[1], "'"@) is None);
        assert(between(candidates[2], "\""@) is None && between(candidates[2], "'"@) is None);
        assert(between(candidates[3], "\""@) is None && between(candidates[3], "'"@) is None);
        assert(between(candidates[4], "\""@) is None && between(candidates[4], "'"@) is None);
    }
}

/// Whether a text is the name of a value in a release description.
pub open spec fn plain_key(key: Seq<char>) -> bool {
    key.len() > 0 && forall|i: int|
        0 <= i < key.len() ==> ('A' <= #[trigger] key[i] <= 'Z' || '0' <= key[i] <= '9' || key[i]
            == '_')
}

proof fn key_ends_at_the_sign(key: Seq<char>, rest: Seq<char>)
    requires
        !key.contains('='),
    ensures
        position(key + seq!['='] + rest, '=') == key.len(),
        split_first(key + seq!['='] + rest, '=') == Some((key, rest)),
    decreases key.len(),
{
    let text = key + seq!['='] + rest;
    if key.len() > 0 {
        let tail = key.skip(1);
        assert forall|i: int| 0 <= i < tail.len() implies #[trigger] tail[i] != '=' by {
            assert(key.contains(key[i + 1]));
        }
        key_ends_at_the_sign(tail, rest);
        assert(key.contains(key[0]));
        assert(text.skip(1) =~= tail + seq!['='] + rest);
    }
    assert(text.take(key.len() as int) =~= key);
    assert(text.skip(key.len() as int + 1) =~= rest);
}

/// A line of a release description assigns the value that it writes to the name before the sign; a
/// comment and a line without a sign assign nothing.
pub proof fn lines_assign_what_they_write(key: Seq<char>, text: Seq<char>, comment: Seq<char>)
    requires
        plain_key(key),
    ensures
        release_line(key + seq!['='] + ("\""@ + escaped(text) + "\""@)) == Some((key, text)),
        release_line(seq!['#'] + comment) is None,
        release_line(key) is None,
{
    assignment_is_read(key, text);
    let remark = seq!['#'] + comment;
    assert(remark[0] == '#');
    comment_begins_with_its_sign(remark);
    assert(release_line(remark) is None);
    assert(release_line(key) is None) by {
        keys_have_no_sign(key);
        first_separator_splits(key, '=');
        if let Some(halves) = split_first(key, '=') {
            assert(key[halves.0.len() as int] == '=');
        }
    }
}

proof fn keys_have_no_sign(key: Seq<char>)
    requires
        plain_key(key),
    ensures
        !key.contains('='),
        trimmed(key) == key,
{
    assert('A' <= key[0] <= 'Z' || '0' <= key[0] <= '9' || key[0] == '_');
    let last = key[key.len() - 1];
    assert('A' <= last <= 'Z' || '0' <= last <= '9' || last == '_');
    assert(!whitespace(key[0]) && !whitespace(key.last()));
}

proof fn assignment_is_read(key: Seq<char>, text: Seq<char>)
    requires
        plain_key(key),
    ensures
        release_line(key + seq!['='] + ("\""@ + escaped(text) + "\""@)) == Some((key, text)),
{
    let written = "\""@ + escaped(text) + "\""@;
    let line = key + seq!['='] + written;
    keys_have_no_sign(key);
    key_ends_at_the_sign(key, written);
    assert(release_value(written) == Some(text)) by {
        quoted_values_are_read_back(text);
    }
    assert(trimmed(written) == written && trimmed(line) == line && line[0] != '#') by {
        reveal_strlit("\"");
        assert("\""@ =~= seq!['"']);
        assert('A' <= key[0] <= 'Z' || '0' <= key[0] <= '9' || key[0] == '_');
        assert(line[0] == key[0] && line.last() == '"');
        assert(written[0] == '"' && written.last() == '"');
        assert(!whitespace('"') && !whitespace(line[0]));
    }
    assert(crate::host::release_key(key)) by {
        assert forall|i: int| 0 <= i < key.len() implies crate::host::release_key_char(
            #[trigger] key[i],
        ) by {}
    }
}

proof fn comment_begins_with_its_sign(text: Seq<char>)
    requires
        text.len() > 0,
        text[0] == '#',
    ensures
        trimmed(text).len() > 0,
        trimmed(text)[0] == '#',
    decreases text.len(),
{
    ends_are_trimmed(text);
}

proof fn ends_are_trimmed(text: Seq<char>)
    requires
        text.len() > 0,
        !whitespace(text[0]),
    ensures
        crate::pieces::trim_end(text).len() > 0,
        crate::pieces::trim_end(text)[0] == text[0],
    decreases text.len(),
{
    if text.len() > 1 && whitespace(text.last()) {
        ends_are_trimmed(text.drop_last());
    }
}

proof fn values_stay_in_order(all: Seq<Seq<char>>)
    ensures
        ascending(release_values(all)),
    decreases all.len(),
{
    if all.len() > 0 {
        values_stay_in_order(all.drop_last());
        if let Some((key, value)) = release_line(all.last()) {
            bind_keeps_ascending(release_values(all.drop_last()), key, value);
        }
    }
}

/// The last line that assigns a value to a name decides on it, and lines on other names do not.
pub proof fn the_last_assignment_counts(all: Seq<Seq<char>>, line: Seq<char>, name: Seq<char>)
    ensures
        lookup(release_values(all.push(line)), name) == (match release_line(line) {
            Some(assigned) if assigned.0 == name => Some(assigned.1),
            _ => lookup(release_values(all), name),
        }),
        lookup(release_values(Seq::empty()), name) is None,
{
    let longer = all.push(line);
    assert(longer.drop_last() =~= all);
    values_stay_in_order(all);
    if let Some((key, value)) = release_line(line) {
        bind_updates_lookup(release_values(all), key, value, name);
    }
}

/// A distribution is named by its pretty name where there is one; else by its name, with its version
/// where there is one; and by nothing else.
pub proof fn distributions_have_their_names(values: Seq<(Seq<char>, Seq<char>)>)
    ensures
        ({
            let pretty = lookup(values, "PRETTY_NAME"@);
            let name = lookup(values, "NAME"@);
            let version = lookup(values, "VERSION_ID"@);
            let has_pretty = pretty matches Some(text) && text.len() > 0;
            let has_name = name matches Some(text) && trimmed(text).len() > 0;
            let has_version = version matches Some(text) && trimmed(text).len() > 0;
            match release_name(values) {
                Some(found) => if has_pretty {
                    found == pretty->0
                } else {
                    has_name && (has_version ==> found == trimmed(name->0) + seq![' '] + trimmed(
                        version->0,
                    )) && (!has_version ==> found == trimmed(name->0))
                },
                None => !has_pretty && !has_name,
            }
        }),
{
    reveal_strlit(" ");
    assert(" "@ =~= seq![' ']);
}

// ---------------------------------------------------------------------------
// C library

/// A text that speaks of musl is about musl, whatever else it speaks of; the GNU library is
/// recognised only with its version; nothing else is recognised.
pub proof fn libraries_are_told_by_their_names(
    text: Seq<char>,
    version: Option<NumericVersionView>,
)
    ensures
        ({
            let name = lowercase(text);
            let gnu = occurs(name, "glibc"@) || occurs(name, "gnu libc"@) || occurs(
                name,
                "gnu c library"@,
            );
            match libc_named(text, version) {
                LibcDetectionView::Musl(found) => occurs(name, "musl"@) && found == version,
                LibcDetectionView::Glibc(found) => !occurs(name, "musl"@) && gnu && version
                    == Some(found),
                LibcDetectionView::Unknown => !occurs(name, "musl"@) && (!gnu
                    || version is None),
            }
        }),
{
}

/// The search for the C library goes on exactly until something tells. What the library says of
/// itself comes first, and what `ldd` says before any loader; executables are looked at one after
/// another, three at most.
pub proof fn the_search_ends_where_something_tells(
    reported: Option<Seq<char>>,
    ldd: Option<Result<CapturedOutputView, CommandErrorView>>,
    executables: Seq<Option<Seq<u8>>>,
    loader: Option<Result<CapturedOutputView, CommandErrorView>>,
)
    ensures
        ({
            let own = crate::host::libc_of_runtime(reported);
            let step = next_libc_step(reported, ldd, executables, loader);
            &&& own matches Some(libc) ==> step == LibcStepView::Done(libc)
            &&& own is None && ldd is None ==> step == LibcStepView::RunLdd
            &&& own is None ==> (ldd matches Some(Ok(output)) ==> (crate::host::libc_of_ldd(
                output,
            ) matches Some(libc) ==> step == LibcStepView::Done(libc)))
            &&& step matches LibcStepView::Examine(index) ==> own is None && ldd is Some && index
                == executables.len() && index < 3
            &&& step matches LibcStepView::RunLoader(path) ==> own is None && ldd is Some
                && loader is None
            &&& own is None && executables.len() == 0 && (ldd matches Some(Err(_))) ==> step
                == LibcStepView::Examine(0)
        }),
{
}

// ---------------------------------------------------------------------------
// Executables

/// The number that bytes write, the least significant one first.
pub open spec fn little_number(bytes: Seq<u8>) -> nat
    decreases bytes.len(),
{
    if bytes.len() == 0 {
        0
    } else {
        bytes[0] as nat + 256 * little_number(bytes.skip(1))
    }
}

/// The number in `width` bytes at `at`, in the given byte order.
pub open spec fn stored(bytes: Seq<u8>, at: int, width: int, little: bool) -> nat {
    let part = bytes.subrange(at, at + width);
    little_number(
        if little {
            part
        } else {
            part.reverse()
        },
    )
}

proof fn byte_orders_agree(bytes: Seq<u8>)
    ensures
        big_endian(bytes) == little_number(bytes.reverse()),
    decreases bytes.len(),
{
    if bytes.len() > 0 {
        let head = bytes.drop_last();
        byte_orders_agree(head);
        assert(bytes.reverse()[0] == bytes.last());
        assert(bytes.reverse().skip(1) =~= head.reverse());
    }
}

proof fn numbers_are_stored(bytes: Seq<u8>, at: int, width: nat, little: bool)
    requires
        0 <= at,
        at + width <= bytes.len(),
    ensures
        elf_number(bytes, at, width, little) == Some(stored(bytes, at, width as int, little)),
{
    let part = bytes.subrange(at, at + width);
    byte_orders_agree(part);
    byte_orders_agree(part.reverse());
    assert(part.reverse().reverse() =~= part);
}

/// The kind of the program header at `entry`.
pub open spec fn kind_of(bytes: Seq<u8>, entry: int, little: bool) -> nat {
    stored(bytes, entry, 4, little)
}

/// Where the program headers of an executable begin.
pub open spec fn table_at(bytes: Seq<u8>) -> nat {
    if bytes[4] == 2 {
        stored(bytes, 32, 8, bytes[5] == 1)
    } else {
        stored(bytes, 28, 4, bytes[5] == 1)
    }
}

/// How many bytes a program header of an executable takes.
pub open spec fn header_size(bytes: Seq<u8>) -> nat {
    if bytes[4] == 2 {
        stored(bytes, 54, 2, bytes[5] == 1)
    } else {
        stored(bytes, 42, 2, bytes[5] == 1)
    }
}

/// How many program headers an executable has.
pub open spec fn header_count(bytes: Seq<u8>) -> nat {
    if bytes[4] == 2 {
        stored(bytes, 56, 2, bytes[5] == 1)
    } else {
        stored(bytes, 44, 2, bytes[5] == 1)
    }
}

/// Where the program header at `place` begins, in a table of headers of `size` bytes each.
pub open spec fn header_at(table: nat, size: nat, place: nat) -> int {
    (table + place * size) as int
}

proof fn earlier_entries_are_passed_over(
    bytes: Seq<u8>,
    table: ProgramTable,
    index: nat,
    place: nat,
)
    requires
        index <= place < table.entry_count,
        table.offset + table.entry_count * table.entry_size <= bytes.len(),
        table.entry_size >= 20,
        forall|i: nat|
            index <= i < place ==> kind_of(
                bytes,
                #[trigger] header_at(table.offset, table.entry_size, i),
                table.little,
            ) != 3,
    ensures
        interpreter_segment(bytes, table, index) == interpreter_segment(bytes, table, place),
    decreases place - index,
{
    if index < place {
        let entry = header_at(table.offset, table.entry_size, index);
        entries_lie_in_the_table(index, table.entry_count, table.entry_size);
        assert(kind_of(bytes, entry, table.little) != 3);
        numbers_are_stored(bytes, entry, 4, table.little);
        earlier_entries_are_passed_over(bytes, table, index + 1, place);
    }
}

proof fn entries_lie_in_the_table(index: nat, count: nat, size: nat)
    requires
        index < count,
    ensures
        index * size + size <= count * size,
{
    assert(index * size + size <= count * size) by (nonlinear_arith)
        requires
            index < count,
    ;
}

/// The loader of an executable is the absolute path in the segment of its first program header of the
/// third kind, whatever the width of its addresses and the order of its bytes. Addresses of eight
/// bytes and of four stand at their own places in the header and in its entries.
pub proof fn loaders_are_read_back(bytes: Seq<u8>, place: nat, path: Seq<u8>)
    requires
        bytes.len() >= 64,
        bytes[0] == 0x7f && bytes[1] == 0x45 && bytes[2] == 0x4c && bytes[3] == 0x46,
        bytes[4] == 1 || bytes[4] == 2,
        bytes[5] == 1 || bytes[5] == 2,
        ({
            let wide = bytes[4] == 2;
            let little = bytes[5] == 1;
            let table = table_at(bytes);
            let size = header_size(bytes);
            let count = header_count(bytes);
            let entry = header_at(table, size, place);
            let offset = if wide {
                stored(bytes, entry + 8, 8, little)
            } else {
                stored(bytes, entry + 4, 4, little)
            };
            let length = if wide {
                stored(bytes, entry + 32, 8, little)
            } else {
                stored(bytes, entry + 16, 4, little)
            };
            &&& place < count <= 4096
            &&& size >= (if wide {
                40nat
            } else {
                20nat
            })
            &&& table + count * size <= bytes.len()
            &&& kind_of(bytes, entry, little) == 3
            &&& forall|i: nat|
                i < place ==> kind_of(
                    bytes,
                    #[trigger] header_at(table_at(bytes), header_size(bytes), i),
                    little,
                ) != 3
            &&& length == path.len() + 1 <= 4096
            &&& offset + length <= bytes.len()
            &&& bytes.subrange(offset as int, (offset + length) as int) == path.push(0)
        }),
        valid_utf8(path),
        decode_utf8(path).len() > 0,
        decode_utf8(path)[0] == '/',
        !whitespace(decode_utf8(path).last()),
    ensures
        program_interpreter(bytes) == Some(decode_utf8(path)),
{
    let wide = bytes[4] == 2;
    let little = bytes[5] == 1;
    assert(bytes.take(4) =~= seq![0x7fu8, 0x45u8, 0x4cu8, 0x46u8]);
    numbers_are_stored(bytes, 32, 8, little);
    numbers_are_stored(bytes, 28, 4, little);
    numbers_are_stored(bytes, 54, 2, little);
    numbers_are_stored(bytes, 42, 2, little);
    numbers_are_stored(bytes, 56, 2, little);
    numbers_are_stored(bytes, 44, 2, little);
    let table = program_table(bytes)->0;
    assert(program_table(bytes) is Some);
    assert(table.offset == table_at(bytes) && table.entry_size == header_size(bytes));
    earlier_entries_are_passed_over(bytes, table, 0, place);
    entries_lie_in_the_table(place, table.entry_count, table.entry_size);
    let entry = header_at(table.offset, table.entry_size, place);
    numbers_are_stored(bytes, entry, 4, little);
    if wide {
        numbers_are_stored(bytes, entry + 8, 8, little);
        numbers_are_stored(bytes, entry + 32, 8, little);
    } else {
        numbers_are_stored(bytes, entry + 4, 4, little);
        numbers_are_stored(bytes, entry + 16, 4, little);
    }
    let segment = interpreter_segment(bytes, table, place)->0;
    assert(interpreter_segment(bytes, table, 0) == Some(segment));
    assert(path.push(0).drop_last() =~= path);
    let text = decode_utf8(path);
    assert(trimmed(text) == text);
    assert(segment_path(bytes, segment) == Some(text));
}

// ---------------------------------------------------------------------------
// Environment

/// Whether one of `diagnostics` has this code and severity.
pub open spec fn tells(
    diagnostics: Seq<DiagnosticView>,
    code: DiagnosticCode,
    severity: DiagnosticSeverity,
) -> bool {
    exists|i: int|
        0 <= i < diagnostics.len() && (#[trigger] diagnostics[i]).code == code
            && diagnostics[i].severity == severity
}

/// What either of two lists tells, both together tell.
pub proof fn told_by_either(
    left: Seq<DiagnosticView>,
    right: Seq<DiagnosticView>,
    code: DiagnosticCode,
    severity: DiagnosticSeverity,
)
    ensures
        tells(left + right, code, severity) <==> tells(left, code, severity) || tells(
            right,
            code,
            severity,
        ),
{
    let both = left + right;
    if tells(left, code, severity) {
        let i = choose|i: int|
            0 <= i < left.len() && (#[trigger] left[i]).code == code && left[i].severity
                == severity;
        assert(both[i].code == code);
    }
    if tells(right, code, severity) {
        let i = choose|i: int|
            0 <= i < right.len() && (#[trigger] right[i]).code == code && right[i].severity
                == severity;
        assert(both[left.len() + i].code == code);
    }
    if tells(both, code, severity) {
        let i = choose|i: int|
            0 <= i < both.len() && (#[trigger] both[i]).code == code && both[i].severity
                == severity;
        if i < left.len() {
            assert(left[i].code == code);
        } else {
            assert(right[i - left.len()].code == code);
        }
    }
}

/// What a list of one tells is what its only diagnostic tells.
pub proof fn told_alone(
    diagnostics: Seq<DiagnosticView>,
    code: DiagnosticCode,
    severity: DiagnosticSeverity,
)
    requires
        diagnostics.len() <= 1,
    ensures
        tells(diagnostics, code, severity) <==> diagnostics.len() == 1 && diagnostics[0].code
            == code && diagnostics[0].severity == severity,
{
}

/// An environment holds what its parts are. It complains of an operating system other than Linux, of
/// an architecture other than x86-64 and, on Linux, of musl; it warns of an unknown C library; it
/// mentions that there is no toolkit; and for the rest it says what the search for an interpreter and
/// the inspection of the processors say.
pub proof fn environments_say_what_their_parts_say(
    platform: PlatformInfoView,
    libc: LibcDetectionView,
    python: PythonDetectionView,
    nvidia: NvidiaDetectionView,
    toolkit: Option<CudaToolkitInfoView>,
    code: DiagnosticCode,
    severity: DiagnosticSeverity,
)
    ensures
        ({
            let environment = environment_of(platform, libc, python, nvidia, toolkit);
            let linux = platform.os is Linux;
            &&& environment.platform == platform
            &&& environment.python == python.info
            &&& environment.nvidia == nvidia.info
            &&& environment.cuda_toolkit == toolkit
            &&& environment.glibc matches Some(version) ==> linux && libc
                == LibcDetectionView::Glibc(version)
            &&& environment.glibc is None ==> !linux || !(libc is Glibc)
            &&& tells(environment.diagnostics, code, severity) <==> {
                ||| tells(python.diagnostics, code, severity)
                ||| tells(nvidia.diagnostics, code, severity)
                ||| !linux && code == DiagnosticCode::UnsupportedOperatingSystem && severity
                    == DiagnosticSeverity::Error
                ||| !(platform.architecture is X86_64) && code
                    == DiagnosticCode::UnsupportedArchitecture && severity
                    == DiagnosticSeverity::Error
                ||| linux && libc is Musl && code == DiagnosticCode::UnsupportedLibc && severity
                    == DiagnosticSeverity::Error
                ||| linux && libc is Unknown && code == DiagnosticCode::GlibcUnknown && severity
                    == DiagnosticSeverity::Warning
                ||| toolkit is None && code == DiagnosticCode::CudaToolkitNotFound && severity
                    == DiagnosticSeverity::Info
            }
        }),
{
    let one = os_notes(platform.os);
    let two = architecture_notes(platform.architecture);
    let three = libc_notes(platform.os, libc);
    let four = python.diagnostics;
    let five = nvidia.diagnostics;
    let six = toolkit_notes(toolkit);
    told_by_either(one, two, code, severity);
    told_by_either(one + two, three, code, severity);
    told_by_either(one + two + three, four, code, severity);
    told_by_either(one + two + three + four, five, code, severity);
    told_by_either(one + two + three + four + five, six, code, severity);
    told_alone(one, code, severity);
    told_alone(two, code, severity);
    told_alone(three, code, severity);
    told_alone(six, code, severity);
}

/// The platform is named by the system itself, whatever the case of its architecture; a distribution
/// is named on Linux only, by the first release description that gives a name.
pub proof fn platforms_have_their_names(
    os: Seq<char>,
    architecture: Seq<char>,
    kernel: Option<Seq<char>>,
    releases: Seq<Option<Seq<char>>>,
)
    ensures
        ({
            let platform = platform_of(os, architecture, kernel, releases);
            &&& platform.os is Linux <==> os == "linux"@
            &&& platform.architecture is X86_64 <==> lowercase(architecture) == "x86_64"@
                || lowercase(architecture) == "amd64"@
            &&& platform.architecture is Aarch64 <==> lowercase(architecture) == "aarch64"@
                || lowercase(architecture) == "arm64"@
            &&& platform.kernel_version == kernel
            &&& os != "linux"@ ==> platform.distribution is None
        }),
{
    reveal_strlit("x86_64");
    reveal_strlit("amd64");
    reveal_strlit("aarch64");
    reveal_strlit("arm64");
    assert("x86_64"@[0] == 'x' && "amd64"@[1] == 'm' && "aarch64"@[1] == 'a' && "arm64"@[1] == 'r');
    assert("amd64"@[0] == 'a' && "aarch64"@[0] == 'a');
}

// ---------------------------------------------------------------------------
// Toolkit

/// A toolkit is taken from the first place that has one: `CUDA_HOME`, `CUDA_PATH`, the compiler on
/// the search path, the usual place, and the places beside it. Its root is reported where it can be
/// written down.
pub proof fn toolkits_come_from_the_first_place(answers: ToolkitAnswersView)
    ensures
        next_toolkit_step(answers) matches ToolkitStepView::Done(Some(info)) ==> match info.source {
            ToolkitSource::CudaHome => answers.home matches Some(Some(found)) && info.version
                == found.version && (info.root is Some <==> found.root.utf8) && (
            info.root matches Some(root) ==> root == found.root),
            ToolkitSource::CudaPath => answers.home == Some(None::<FoundToolkitView>) && (
            answers.path matches Some(Some(found)) && info.version == found.version && (
            info.root is Some <==> found.root.utf8) && (info.root matches Some(root) ==> root
                == found.root)),
            ToolkitSource::Nvcc => answers.home == Some(None::<FoundToolkitView>) && answers.path
                == Some(None::<FoundToolkitView>) && (answers.compiler matches Some(Some(found))
                && info.version == found.version && (info.root matches Some(root) ==> found.root
                == Some(root) && root.utf8)),
            ToolkitSource::VersionJson => answers.home == Some(None::<FoundToolkitView>)
                && answers.path == Some(None::<FoundToolkitView>) && (
            answers.compiler matches Some(found) && found is None) && (match answers.default_root {
                Some(Some(version)) => info.version == version && (info.root matches Some(root)
                    && root.text == "/usr/local/cuda"@),
                Some(None) => answers.versioned matches Some(found) && exists|i: int|
                    0 <= i < found.len() && (#[trigger] found[i]).version == info.version
                        && forall|j: int|
                        0 <= j < found.len() ==> !version_less(
                            info.version.components,
                            (#[trigger] found[j]).version.components,
                        ),
                None => false,
            }),
        },
        answers.home is None ==> next_toolkit_step(answers) is LookAtHome,
        answers.home == Some(None::<FoundToolkitView>) && answers.path is None
            ==> next_toolkit_step(answers) is LookAtPath,
{
    if let ToolkitStepView::Done(Some(info)) = next_toolkit_step(answers) {
        if answers.versioned is Some && info.source == ToolkitSource::VersionJson
            && answers.default_root == Some(None::<NumericVersionView>) {
            let found = answers.versioned->0;
            let sorted = sort_by(found, older());
            broadcast use vstd::seq_lib::group_to_multiset_ensures;

            sort_keeps_items(found, older());
            assert(sorted.contains(sorted[0]));
            assert(found.to_multiset().count(sorted[0]) > 0);
            assert(found.contains(sorted[0]));
            let i = choose|i: int| 0 <= i < found.len() && found[i] == sorted[0];
            assert(found[i].version == info.version);
            assert forall|j: int| 0 <= j < found.len() implies !version_less(
                info.version.components,
                (#[trigger] found[j]).version.components,
            ) by {
                assert(found.contains(found[j]));
                assert(sorted.to_multiset().count(found[j]) > 0);
                assert(sorted.contains(found[j]));
                let k = choose|k: int| 0 <= k < sorted.len() && sorted[k] == found[j];
                version_order_total(found[j].version.components, found[j].version.components);
                if k > 0 {
                    newest_is_not_older(found, k);
                }
            }
        }
    }
}

/// What a root tells of its version is what the first of its version document, its version text and
/// its compiler tells that tells anything; none of the later ones is asked for before.
pub proof fn versions_come_from_the_first_source(
    document: Option<Seq<char>>,
    text: Option<Seq<char>>,
    reply: Result<CapturedOutputView, CommandErrorView>,
    any_text: Option<Option<Seq<char>>>,
    any_reply: Option<Result<CapturedOutputView, CommandErrorView>>,
)
    ensures
        next_root_step(None, any_text, any_reply) is ReadDocument,
        (document matches Some(contents) && document_version(contents) is Some) ==> next_root_step(
            Some(document),
            any_text,
            any_reply,
        ) == RootStepView::Done(document_version(document->0)),
        document is None ==> next_root_step(Some(document), None, any_reply) is ReadText,
        document is None ==> (text matches Some(contents) ==> (first_numeric(contents) is Some
            ==> next_root_step(Some(document), Some(text), any_reply) == RootStepView::Done(
            first_numeric(contents),
        ))),
        document is None && text is None ==> next_root_step(
            Some(document),
            Some(text),
            None,
        ) is AskCompiler,
        document is None && text is None ==> (reply matches Ok(output) ==> next_root_step(
            Some(document),
            Some(text),
            Some(reply),
        ) == RootStepView::Done(
            if output.status.success {
                nvcc_output_version(combined(output))
            } else {
                None
            },
        )),
        document is None && text is None && reply is Err ==> next_root_step(
            Some(document),
            Some(text),
            Some(reply),
        ) == RootStepView::Done(None),
{
}

// ---------------------------------------------------------------------------
// Loaders and versions

/// The loader of an executable tells of musl by its name, and of the GNU C library only when it is
/// asked; another one tells nothing.
pub proof fn loaders_tell_their_library(executable: Seq<u8>)
    ensures
        match program_interpreter(executable) {
            None => loader_verdict(executable) is Silent,
            Some(path) => {
                let name = lowercase(path);
                match loader_verdict(executable) {
                    LoaderVerdictView::Settled(libc) => occurs(name, "musl"@) && libc
                        == LibcDetectionView::Musl(None),
                    LoaderVerdictView::Ask(asked) => asked == path && !occurs(name, "musl"@) && (
                    occurs(name, "ld-linux"@) || occurs(name, "ld64.so"@)),
                    LoaderVerdictView::Silent => !occurs(name, "musl"@) && !occurs(
                        name,
                        "ld-linux"@,
                    ) && !occurs(name, "ld64.so"@),
                }
            },
        },
{
}

/// The compiler names its version behind `release`; what it names otherwise counts only where it does
/// not. A version document names that of CUDA before its own.
pub proof fn versions_are_looked_up_in_order(
    release: Seq<char>,
    other: Option<Seq<char>>,
    version: NumericVersionView,
    contents: Seq<char>,
)
    ensures
        parsed_version(release) == Ok::<NumericVersionView, VersionParseErrorView>(version)
            ==> nvcc_named(Some(release), other) == Some(version) && nvcc_named(
            None,
            Some(release),
        ) == Some(version),
        nvcc_named(None, None) is None,
        json_value(contents, "/cuda/version"@) matches Some(value) ==> document_version(contents)
            == json_version(Some(value)),
        json_value(contents, "/cuda/version"@) is None ==> document_version(contents)
            == json_version(json_value(contents, "/version"@)),
        json_version(Some(JsonValueView::Text(release))) == numeric_prefix(release),
        json_version(Some(JsonValueView::Number(release))) == numeric_prefix(release),
        json_version(None) is None,
{
}

/// The release of the kernel is what its file holds; where that holds nothing it is what `uname`
/// printed, if that succeeded.
pub proof fn kernels_are_named_by_their_file(
    file: Option<Seq<char>>,
    uname: Option<CapturedOutputView>,
)
    ensures
        (file matches Some(text) && trimmed(text).len() > 0) ==> kernel_release(file, uname)
            == Some(trimmed(file->0)),
        !(file matches Some(text) && trimmed(text).len() > 0) ==> (match kernel_release(
            file,
            uname,
        ) {
            Some(release) => uname matches Some(output) && output.status.success && valid_utf8(
                output.stdout,
            ) && release == trimmed(decode_utf8(output.stdout)) && release.len() > 0,
            None => uname matches Some(output) ==> !output.status.success || !valid_utf8(
                output.stdout,
            ) || trimmed(decode_utf8(output.stdout)).len() == 0,
        }),
{
}

/// The name of a distribution is that of the first release description that gives one.
pub proof fn the_first_description_counts(releases: Seq<Option<Seq<char>>>, place: int)
    ensures
        0 <= place < releases.len() && described(releases[place]) is Some && (forall|i: int|
            0 <= i < place ==> described(#[trigger] releases[i]) is None) ==> distribution_named(
            releases,
        ) == described(releases[place]),
        (forall|i: int| 0 <= i < releases.len() ==> described(#[trigger] releases[i]) is None)
            ==> distribution_named(releases) is None,
    decreases releases.len(),
{
    if releases.len() > 0 {
        let rest = releases.skip(1);
        the_first_description_counts(rest, place - 1);
        assert(forall|i: int| 0 <= i < rest.len() ==> #[trigger] rest[i] == releases[i + 1]);
        if place > 0 {
            assert(place < releases.len() ==> rest[place - 1] == releases[place]);
        }
    }
}

/// The name that a release description gives.
pub open spec fn described(release: Option<Seq<char>>) -> Option<Seq<char>> {
    match release {
        Some(contents) => release_name(release_values(lines(contents))),
        None => None,
    }
}

} // verus!
