//! What is reported of an installed package is what the probe found, and no more.

use crate::command::ProcessStatusView;
use crate::index::TimeSpan;
use crate::model::{CompatibilityStatus, FilePathView};
use crate::pieces::trimmed;
use crate::text::{decimal, whitespace};
use crate::verify::{
    any_failed, byte_lines, charged_all, exercised, exit_description, expected_devices, marked,
    marked_records, message, message_char, message_chars, next_wait, normalized_selection,
    payload_report, probe_mark, protocol_record, retained_all, success_objection, verification_of,
    OutputBudget, ProbePayloadView, ProbeRunView, WaitStep,
};
use vstd::prelude::*;

verus! {

/// Whether the answer of a probe says that everything worked: the probe came to its end, and named
/// the version of the package, whether CUDA can be used and how many devices there are. A package
/// without CUDA shows no devices, and none may have been selected. One with CUDA exercised the
/// devices that were selected, or else all of them, in order and each with success.
pub open spec fn everything_worked(payload: ProbePayloadView, selected: Option<Seq<u32>>) -> bool {
    &&& payload.protocol_version == 1
    &&& payload.ok
    &&& payload.stage == "complete"@
    &&& payload.torch_version matches Some(version) && trimmed(version).len() > 0
    &&& payload.cuda_available is Some
    &&& payload.device_count is Some
    &&& match payload.compiled_cuda {
        None => selected is None && payload.cuda_available == Some(false) && payload.device_count
            == Some(0u32) && payload.devices.len() == 0,
        Some(cuda) => {
            let count = payload.device_count->0;
            &&& trimmed(cuda).len() > 0
            &&& payload.cuda_available == Some(true)
            &&& count > 0
            &&& forall|i: int|
                0 <= i < payload.devices.len() ==> (#[trigger] payload.devices[i]).operations_ok
                    && payload.devices[i].index < count
            &&& match selected {
                Some(indices) => payload.devices.len() == indices.len() && forall|i: int|
                    0 <= i < indices.len() ==> (#[trigger] payload.devices[i]).index == indices[i],
                None => payload.devices.len() == count && forall|i: int|
                    0 <= i < count ==> (#[trigger] payload.devices[i]).index == i,
            }
        },
    }
}

/// A package is verified exactly where the probe ended well and says that everything worked.
pub proof fn verified_where_everything_worked(
    python: FilePathView,
    selected: Option<Seq<u32>>,
    status: ProcessStatusView,
    payload: ProbePayloadView,
)
    ensures
        payload_report(python, selected, status, payload).status == CompatibilityStatus::Verified
            <==> status.success && everything_worked(payload, selected),
{
    let objection = success_objection(payload, selected);
    let found = exercised(payload.devices);
    assert(found.len() == payload.devices.len());
    assert(forall|i: int|
        0 <= i < found.len() ==> #[trigger] found[i] == payload.devices[i].index);
    assert(forall|i: int|
        0 <= i < found.len() ==> found[i] == (#[trigger] payload.devices[i]).index);
    if payload.device_count is Some && payload.compiled_cuda is Some {
        let count = payload.device_count->0;
        let expected = expected_devices(selected, count);
        if objection is None {
            assert(found == expected);
            assert forall|i: int| 0 <= i < payload.devices.len() implies (
            #[trigger] payload.devices[i]).operations_ok && payload.devices[i].index < count by {
                assert(found[i] == expected[i]);
                if !payload.devices[i].operations_ok {
                    assert(any_failed(payload.devices));
                }
            }
            match selected {
                Some(indices) => {
                    assert forall|i: int| 0 <= i < indices.len() implies (
                    #[trigger] payload.devices[i]).index == indices[i] by {
                        assert(found[i] == expected[i]);
                    }
                },
                None => {
                    assert forall|i: int| 0 <= i < count implies (
                    #[trigger] payload.devices[i]).index == i by {
                        assert(found[i] == expected[i]);
                    }
                },
            }
        }
        if everything_worked(payload, selected) {
            assert forall|i: int| 0 <= i < found.len() implies found[i] == expected[i] by {
                assert(payload.devices[i].index == found[i]);
            }
            assert(found =~= expected);
            assert(!any_failed(payload.devices));
            assert forall|i: int| 0 <= i < expected.len() implies (#[trigger] expected[i])
                < count by {
                assert(payload.devices[i].index < count);
                assert(found[i] == expected[i]);
            }
        }
    }
}

/// A report repeats what the probe said of the package and its devices, unless it speaks another
/// protocol.
pub proof fn reports_repeat_the_answer(
    python: FilePathView,
    selected: Option<Seq<u32>>,
    status: ProcessStatusView,
    payload: ProbePayloadView,
)
    ensures
        ({
            let report = payload_report(python, selected, status, payload);
            &&& report.python_executable == python
            &&& payload.protocol_version == 1 ==> {
                &&& report.torch_version == payload.torch_version
                &&& report.compiled_cuda == payload.compiled_cuda
                &&& report.cuda_available == payload.cuda_available
                &&& report.device_count == payload.device_count
                &&& report.arch_list == payload.arch_list
                &&& report.cudnn_available == payload.cudnn_available
                &&& report.devices.len() == payload.devices.len()
                &&& forall|i: int|
                    0 <= i < payload.devices.len() ==> {
                        let device = #[trigger] payload.devices[i];
                        &&& report.devices[i].index == device.index
                        &&& report.devices[i].name == device.name
                        &&& report.devices[i].capability.major == device.capability.0
                        &&& report.devices[i].capability.minor == device.capability.1
                        &&& report.devices[i].operations_ok == device.operations_ok
                    }
            }
            &&& payload.protocol_version != 1 ==> report.torch_version is None
                && report.devices.len() == 0
        }),
{
}

/// A package is verified only by a probe that was run to its end, with options that can be met, and
/// on the devices that were selected, in ascending order and each once.
pub proof fn verified_by_the_probe_alone(
    python: FilePathView,
    indices: Option<Seq<u32>>,
    timeout: TimeSpan,
    max_output_bytes: usize,
    run: ProbeRunView,
)
    ensures
        verification_of(python, indices, timeout, max_output_bytes, run).status
            == CompatibilityStatus::Verified <==> {
            &&& indices matches Some(list) ==> list.len() > 0
            &&& timeout.seconds > 0 || timeout.nanos > 0
            &&& max_output_bytes > 0
            &&& run matches ProbeRunView::Completed { output, decoded } && output.status.success
                && protocol_record(output.stdout) is Ok && (decoded matches Ok(payload)
                && everything_worked(payload, normalized_selection(indices)->Ok_0))
        },
{
    if let ProbeRunView::Completed { output, decoded } = run {
        if let Ok(payload) = decoded {
            verified_where_everything_worked(
                python,
                normalized_selection(indices)->Ok_0,
                output.status,
                payload,
            );
        }
    }
}

/// A selection selects what it lists, in ascending order and each once.
pub proof fn selections_are_put_in_order(list: Seq<u32>, number: u32)
    requires
        list.len() > 0,
    ensures
        normalized_selection(Some(list)) matches Ok(Some(selected)) && (selected.contains(number)
            <==> list.contains(number)) && (forall|i: int, j: int|
            #![trigger selected[i], selected[j]]
            0 <= i < j < selected.len() ==> selected[i] < selected[j]),
{
    let selected = crate::numbers::ascending_set(list);
    crate::numbers::ascending_set_keeps_members(list, number);
    assert forall|i: int, j: int| #![trigger selected[i], selected[j]]
        0 <= i < j < selected.len() implies selected[i] < selected[j] by {
        crate::numbers::ascending_set_is_strict(list, i, j);
    }
}

// ---------------------------------------------------------------------------
// The record

/// The bytes of lines that end in line feeds, but for the last.
pub open spec fn fed(lines: Seq<Seq<u8>>) -> Seq<u8>
    decreases lines.len(),
{
    if lines.len() == 0 {
        Seq::empty()
    } else if lines.len() == 1 {
        lines[0]
    } else {
        fed(lines.drop_last()).push(0x0a) + lines.last()
    }
}

proof fn bytes_stay_in_their_line(bytes: Seq<u8>, line: Seq<u8>)
    requires
        !line.contains(0x0a),
    ensures
        byte_lines(bytes + line) == byte_lines(bytes).drop_last().push(
            byte_lines(bytes).last() + line,
        ),
        byte_lines(bytes).len() > 0,
    decreases line.len(),
{
    some_line(bytes);
    if line.len() == 0 {
        assert(bytes + line =~= bytes);
        assert(byte_lines(bytes).last() + line =~= byte_lines(bytes).last());
        assert(byte_lines(bytes).drop_last().push(byte_lines(bytes).last()) =~= byte_lines(bytes));
    } else {
        let head = line.drop_last();
        assert forall|i: int| 0 <= i < head.len() implies #[trigger] head[i] != 0x0a by {
            assert(line[i] == head[i]);
            assert(line.contains(line[i]));
        }
        bytes_stay_in_their_line(bytes, head);
        assert((bytes + line).drop_last() =~= bytes + head);
        assert((bytes + line).last() == line.last());
        assert(line.contains(line[line.len() - 1]));
        let before = byte_lines(bytes + head);
        assert(before.drop_last() =~= byte_lines(bytes).drop_last());
        assert(before.last().push(line.last()) =~= byte_lines(bytes).last() + line);
    }
}

proof fn some_line(bytes: Seq<u8>)
    ensures
        byte_lines(bytes).len() > 0,
    decreases bytes.len(),
{
    if bytes.len() > 0 {
        some_line(bytes.drop_last());
    }
}

proof fn lines_are_read_back(lines: Seq<Seq<u8>>)
    requires
        lines.len() > 0,
        forall|i: int| 0 <= i < lines.len() ==> !(#[trigger] lines[i]).contains(0x0a),
    ensures
        byte_lines(fed(lines)) == lines,
    decreases lines.len(),
{
    let last = lines.last();
    assert(!lines[lines.len() - 1].contains(0x0a));
    if lines.len() == 1 {
        bytes_stay_in_their_line(Seq::empty(), last);
        assert(Seq::<u8>::empty() + last =~= last);
        let none = byte_lines(Seq::<u8>::empty());
        assert(none.drop_last() =~= Seq::empty());
        assert(none.drop_last().push(last) =~= lines);
    } else {
        let head = lines.drop_last();
        assert forall|i: int| 0 <= i < head.len() implies !(#[trigger] head[i]).contains(0x0a) by {
            assert(head[i] == lines[i]);
        }
        lines_are_read_back(head);
        let bytes = fed(head).push(0x0a);
        assert(bytes.drop_last() =~= fed(head));
        bytes_stay_in_their_line(bytes, last);
        assert(byte_lines(bytes) =~= head.push(Seq::empty()));
        assert(byte_lines(bytes).drop_last() =~= head);
        assert(Seq::<u8>::empty() + last =~= last);
        assert(head.push(last) =~= lines);
    }
}

proof fn unmarked_lines_hold_no_record(lines: Seq<Seq<u8>>, mark: Seq<u8>)
    requires
        forall|i: int| 0 <= i < lines.len() ==> !mark.is_prefix_of(#[trigger] lines[i]),
        forall|i: int|
            0 <= i < lines.len() ==> ((#[trigger] lines[i]).len() > 0 ==> lines[i].last() != 0x0d),
    ensures
        marked_records(lines, mark).len() == 0,
    decreases lines.len(),
{
    if lines.len() > 0 {
        let head = lines.drop_last();
        assert forall|i: int| 0 <= i < head.len() implies !mark.is_prefix_of(#[trigger] head[i])
            && (head[i].len() > 0 ==> head[i].last() != 0x0d) by {
            assert(head[i] == lines[i]);
        }
        unmarked_lines_hold_no_record(head, mark);
        assert(lines.last() == lines[lines.len() - 1]);
    }
}

proof fn records_of_two(first: Seq<Seq<u8>>, second: Seq<Seq<u8>>, mark: Seq<u8>)
    ensures
        marked_records(first + second, mark) == marked_records(first, mark) + marked_records(
            second,
            mark,
        ),
    decreases second.len(),
{
    if second.len() == 0 {
        assert(first + second =~= first);
    } else {
        assert((first + second).drop_last() =~= first + second.drop_last());
        assert((first + second).last() == second.last());
        records_of_two(first, second.drop_last(), mark);
        let one = marked_records(first, mark);
        let two = marked_records(second.drop_last(), mark);
        if let Some(record) = marked(second.last(), mark) {
            assert((one + two).push(record) =~= one + two.push(record));
        }
    }
}

/// The answer of the probe is read back from among other lines of its output, whatever they are, as
/// long as no other one begins with the mark. Two answers are none, and neither is an output without
/// the mark.
pub proof fn the_answer_is_found_among_other_lines(
    before: Seq<Seq<u8>>,
    record: Seq<u8>,
    after: Seq<Seq<u8>>,
    other: Seq<u8>,
)
    requires
        forall|i: int|
            0 <= i < before.len() ==> !(#[trigger] before[i]).contains(0x0a)
                && !probe_mark().is_prefix_of(before[i]) && (before[i].len() > 0
                ==> before[i].last() != 0x0d),
        forall|i: int|
            0 <= i < after.len() ==> !(#[trigger] after[i]).contains(0x0a)
                && !probe_mark().is_prefix_of(after[i]) && (after[i].len() > 0 ==> after[i].last()
                != 0x0d),
        record.len() > 0 && record.last() != 0x0d,
        other.len() > 0 && other.last() != 0x0d,
        !record.contains(0x0a) && !other.contains(0x0a) && !probe_mark().contains(0x0a),
    ensures
        protocol_record(fed(before.push(probe_mark() + record) + after)) == Ok::<
            Seq<u8>,
            Seq<char>,
        >(record),
        protocol_record(
            fed(before.push(probe_mark() + record) + after.push(probe_mark() + other)),
        ) is Err,
        before.len() + after.len() > 0 ==> protocol_record(fed(before + after)) is Err,
{
    let mark = probe_mark();
    let line = mark + record;
    let second = mark + other;
    line_is_read(mark, record);
    line_is_read(mark, other);
    unmarked_lines_hold_no_record(before, mark);
    unmarked_lines_hold_no_record(after, mark);
    let one = before.push(line) + after;
    let two = before.push(line) + after.push(second);
    assert forall|i: int| 0 <= i < one.len() implies !(#[trigger] one[i]).contains(0x0a) by {
        if i > before.len() {
            assert(one[i] == after[i - before.len() - 1]);
        }
    }
    assert forall|i: int| 0 <= i < two.len() implies !(#[trigger] two[i]).contains(0x0a) by {
        if i > before.len() && i < before.len() + 1 + after.len() {
            assert(two[i] == after[i - before.len() - 1]);
        }
    }
    lines_are_read_back(one);
    lines_are_read_back(two);
    records_of_two(before.push(line), after, mark);
    records_of_two(before.push(line), after.push(second), mark);
    assert(before.push(line).drop_last() =~= before);
    assert(after.push(second).drop_last() =~= after);
    assert(marked_records(before.push(line), mark) =~= seq![record]);
    assert(marked_records(after.push(second), mark) =~= seq![other]);
    assert(marked_records(one, mark) =~= seq![record]);
    let none = before + after;
    if none.len() > 0 {
        assert forall|i: int| 0 <= i < none.len() implies !(#[trigger] none[i]).contains(0x0a) by {
            if i >= before.len() {
                assert(none[i] == after[i - before.len()]);
            }
        }
        lines_are_read_back(none);
        records_of_two(before, after, mark);
    }
}

proof fn line_is_read(mark: Seq<u8>, record: Seq<u8>)
    requires
        record.len() > 0 && record.last() != 0x0d,
        !record.contains(0x0a),
        !mark.contains(0x0a),
    ensures
        marked(mark + record, mark) == Some(record),
        !(mark + record).contains(0x0a),
{
    let line = mark + record;
    assert(line.last() == record.last());
    assert(mark.is_prefix_of(line));
    assert(line.skip(mark.len() as int) =~= record);
    assert forall|i: int| 0 <= i < line.len() implies #[trigger] line[i] != 0x0a by {
        if i < mark.len() {
            assert(mark.contains(mark[i]));
        } else {
            assert(record.contains(record[i - mark.len()]));
        }
    }
}

// ---------------------------------------------------------------------------
// Limits

/// The sum of numbers.
pub open spec fn total(counts: Seq<nat>) -> nat
    decreases counts.len(),
{
    if counts.len() == 0 {
        0
    } else {
        total(counts.drop_last()) + counts.last()
    }
}

/// As much of an output is kept as the limit allows, and it is too long exactly where there is more
/// of it.
pub proof fn output_is_kept_up_to_the_limit(max: usize, counts: Seq<nat>)
    requires
        max < usize::MAX,
    ensures
        ({
            let start = OutputBudget { max, used: 0, exceeded: false };
            &&& retained_all(start, counts) == (if total(counts) <= max {
                total(counts)
            } else {
                max as nat
            })
            &&& charged_all(start, counts).exceeded <==> total(counts) > max
        }),
{
    budget_after(max, counts);
}

proof fn budget_after(max: usize, counts: Seq<nat>)
    requires
        max < usize::MAX,
    ensures
        ({
            let start = OutputBudget { max, used: 0, exceeded: false };
            let budget = charged_all(start, counts);
            &&& retained_all(start, counts) == (if total(counts) <= max {
                total(counts)
            } else {
                max as nat
            })
            &&& budget.exceeded <==> total(counts) > max
            &&& budget.max == max
            &&& budget.used == (if total(counts) <= usize::MAX {
                total(counts)
            } else {
                usize::MAX as nat
            })
        }),
    decreases counts.len(),
{
    if counts.len() > 0 {
        budget_after(max, counts.drop_last());
    }
}

/// A child is waited for exactly as long as it keeps to its limits: a hundredth of a second at a
/// time, or what is left of the time where that is less.
pub proof fn waiting_goes_on_within_the_limits(
    exceeded: bool,
    elapsed: TimeSpan,
    timeout: TimeSpan,
)
    ensures
        ({
            let passed = elapsed.seconds * 1_000_000_000 + elapsed.nanos;
            let allowed = timeout.seconds * 1_000_000_000 + timeout.nanos;
            match next_wait(exceeded, elapsed, timeout) {
                WaitStep::LimitExceeded => exceeded,
                WaitStep::TimedOut => !exceeded && passed >= allowed,
                WaitStep::Poll(nanos) => !exceeded && passed < allowed && nanos == (if allowed
                    - passed < 10_000_000 {
                    allowed - passed
                } else {
                    10_000_000
                }),
            }
        }),
{
}

// ---------------------------------------------------------------------------
// Messages

proof fn everything_is_kept(text: Seq<char>)
    requires
        forall|i: int| 0 <= i < text.len() ==> #[trigger] text[i] > '\u{1f}' && !(
            '\u{7f}' <= text[i] <= '\u{9f}'),
    ensures
        message_chars(text) == text,
    decreases text.len(),
{
    if text.len() > 0 {
        let head = text.drop_last();
        assert forall|i: int| 0 <= i < head.len() implies #[trigger] head[i] > '\u{1f}'
            && !('\u{7f}' <= head[i] <= '\u{9f}') by {
            assert(head[i] == text[i]);
        }
        everything_is_kept(head);
        assert(text.last() == text[text.len() - 1]);
        assert(message_char(text.last()));
        assert(head.push(text.last()) =~= text);
    }
}

/// A message of a probe is shown as it is where it is short and plain.
pub proof fn plain_messages_are_kept(text: Seq<char>)
    requires
        0 < text.len() <= 1024,
        !whitespace(text[0]),
        !whitespace(text.last()),
        forall|i: int| 0 <= i < text.len() ==> #[trigger] text[i] > '\u{1f}' && !(
            '\u{7f}' <= text[i] <= '\u{9f}'),
    ensures
        message(text) == text,
{
    everything_is_kept(text);
    assert(trimmed(text) == text);
}

/// How a process ended is said by its status, or else by the signal that ended it.
pub proof fn ends_are_said_by_their_number(status: ProcessStatusView)
    ensures
        status.code matches Some(code) ==> exit_description(status) == "exited with status "@ + (
        if code < 0 {
            "-"@ + decimal((-code) as nat)
        } else {
            decimal(code as nat)
        }),
        status.code is None ==> (status.signal matches Some(signal) ==> exit_description(status)
            == "terminated by signal "@ + (if signal < 0 {
            "-"@ + decimal((-signal) as nat)
        } else {
            decimal(signal as nat)
        })),
{
}

} // verus!
