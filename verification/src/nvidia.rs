//! NVIDIA graphics processors: what `nvidia-smi` reports and what follows from it.

use crate::command::{
    bounded_lossy, bounded_text, combined, combined_output, command_error_text, truncate_string,
    truncated, CapturedOutput, CapturedOutputView, CommandError, CommandErrorView,
};
use crate::host::{captured_version, version_in};
use crate::model::{
    noted, parsed_capability, plain_diagnostic, ComputeCapability, Diagnostic, DiagnosticCode,
    DiagnosticSeverity, DiagnosticView, NvidiaDetectionStatus, NvidiaGpu, NvidiaGpuView, NvidiaInfo,
    NvidiaInfoView,
};
use crate::numbers::{decimal_texts, decimals};
use crate::order::{
    distinct, distinct_members, kept, sort_by, sort_keeps_items, sort_values, sorted_is_ordered,
    strict_weak_order, Order,
};
use crate::outside::{
    capture_first, debug_text, decode_lossy, lossy_text, pattern_capture, read_table, show_debug,
    table_records, TableRecord, TableRecordView,
};
use crate::pieces::{contains, join, join_texts, occurs, split, split_on, starts_with, trim, trimmed};
use crate::text::{
    concat2, concat3, concat4, decimal, decimal_text, lowercase, outcome, parse_unsigned, push_item,
    same, to_lowercase, unsigned,
};
use crate::version::{
    parsed_version, version_equal, version_error_text, version_less, version_order,
    version_order_total, version_order_transitive, NumericVersion, NumericVersionView,
};
use vstd::prelude::*;

verus! {

/// The CUDA version in the summary that `nvidia-smi` prints.
pub const REPORTED_CUDA_PATTERN: &'static str =
    "(?i)CUDA\\s+Version\\s*:\\s*([0-9]+(?:\\.[0-9]+){1,2})";

// ---------------------------------------------------------------------------
// Tables

/// The value of a field, unless it stands for a value that is not there.
pub open spec fn field_value(text: Seq<char>) -> Option<Seq<char>> {
    let value = trimmed(text);
    if value.len() == 0 || lowercase(value) == "n/a"@ || lowercase(value) == "not supported"@
        || value == "[N/A]"@ {
        None
    } else {
        Some(value)
    }
}

/// The value of a field, unless it stands for a value that is not there.
pub fn optional_nvidia_value(value: &str) -> (result: Option<String>)
    ensures
        result.deep_view() == field_value(value@),
{
    let text = trim(value);
    let name = to_lowercase(text.as_str());
    if text.as_str().is_empty() || same(name.as_str(), "n/a") || same(
        name.as_str(),
        "not supported",
    ) || same(text.as_str(), "[N/A]") {
        None
    } else {
        Some(text)
    }
}

/// How many fields a record has.
pub open spec fn fields_expected(with_capability: bool) -> nat {
    if with_capability {
        5
    } else {
        4
    }
}

/// Whether one of `gpus` has this index.
pub open spec fn has_index(gpus: Seq<NvidiaGpuView>, index: u32) -> bool {
    exists|i: int| 0 <= i < gpus.len() && (#[trigger] gpus[i]).index == index
}

/// The processor that a record describes, after `earlier` ones.
pub open spec fn record_gpu(
    fields: Seq<Seq<char>>,
    with_capability: bool,
    earlier: Seq<NvidiaGpuView>,
) -> Result<NvidiaGpuView, Seq<char>> {
    if fields.len() != fields_expected(with_capability) {
        Err(
            "nvidia-smi returned "@ + decimal(fields.len()) + " fields; expected "@ + decimal(
                fields_expected(with_capability),
            ),
        )
    } else {
        match unsigned(fields[0], u32::MAX as nat) {
            None => Err("invalid GPU index: "@ + fields[0]),
            Some(number) => {
                let index = number as u32;
                if has_index(earlier, index) {
                    Err("duplicate GPU index: "@ + decimal(number))
                } else if trimmed(fields[2]).len() == 0 {
                    Err("GPU "@ + decimal(number) + " has an empty name"@)
                } else {
                    match parsed_version(trimmed(fields[3])) {
                        Err(error) => Err(
                            "invalid driver version for GPU "@ + decimal(number) + ": "@
                                + version_error_text(error),
                        ),
                        Ok(driver_version) => {
                            let capability = if with_capability {
                                field_value(fields[4])
                            } else {
                                None
                            };
                            match capability {
                                None => Ok(
                                    NvidiaGpuView {
                                        index,
                                        uuid: field_value(fields[1]),
                                        name: trimmed(fields[2]),
                                        compute_capability: None,
                                        driver_version,
                                    },
                                ),
                                Some(text) => match parsed_capability(text) {
                                    Err(error) => Err(
                                        "invalid compute capability for GPU "@ + decimal(number)
                                            + ": "@ + version_error_text(error),
                                    ),
                                    Ok(value) => Ok(
                                        NvidiaGpuView {
                                            index,
                                            uuid: field_value(fields[1]),
                                            name: trimmed(fields[2]),
                                            compute_capability: Some(value),
                                            driver_version,
                                        },
                                    ),
                                },
                            }
                        },
                    }
                }
            },
        }
    }
}

/// The processors that records describe, in their order.
pub open spec fn records_gpus(records: Seq<TableRecordView>, with_capability: bool) -> Result<
    Seq<NvidiaGpuView>,
    Seq<char>,
>
    decreases records.len(),
{
    if records.len() == 0 {
        Ok(Seq::empty())
    } else {
        match records_gpus(records.drop_last(), with_capability) {
            Err(message) => Err(message),
            Ok(gpus) => match records.last() {
                TableRecordView::Invalid(message) => Err("invalid nvidia-smi CSV: "@ + message),
                TableRecordView::Fields(fields) => match record_gpu(fields, with_capability, gpus) {
                    Err(message) => Err(message),
                    Ok(gpu) => Ok(gpus.push(gpu)),
                },
            },
        }
    }
}

proof fn failed_records_stay_failed(
    records: Seq<TableRecordView>,
    with_capability: bool,
    count: int,
)
    requires
        0 <= count <= records.len(),
        records_gpus(records.take(count), with_capability) is Err,
    ensures
        records_gpus(records, with_capability) == records_gpus(
            records.take(count),
            with_capability,
        ),
    decreases records.len(),
{
    if count == records.len() {
        assert(records.take(count) =~= records);
    } else {
        assert(records.drop_last().take(count) =~= records.take(count));
        failed_records_stay_failed(records.drop_last(), with_capability, count);
    }
}

/// Whether `left` has a higher index than `right`.
pub open spec fn index_after() -> spec_fn(NvidiaGpuView, NvidiaGpuView) -> bool {
    |left: NvidiaGpuView, right: NvidiaGpuView| left.index > right.index
}

/// The processors of a table, by index.
pub open spec fn table_gpus(records: Seq<TableRecordView>, with_capability: bool) -> Result<
    Seq<NvidiaGpuView>,
    Seq<char>,
> {
    match records_gpus(records, with_capability) {
        Err(message) => Err(message),
        Ok(gpus) => Ok(sort_by(gpus, index_after())),
    }
}

fn find_index(gpus: &Vec<NvidiaGpu>, index: u32) -> (found: bool)
    ensures
        found == has_index(gpus.deep_view(), index),
{
    let mut at: usize = 0;
    while at < gpus.len()
        invariant
            at <= gpus@.len(),
            forall|i: int| 0 <= i < at ==> (#[trigger] gpus.deep_view()[i]).index != index,
        decreases gpus@.len() - at,
    {
        assert(gpus.deep_view()[at as int] == gpus@[at as int].deep_view());
        if gpus[at].index == index {
            return true;
        }
        at = at + 1;
    }
    false
}

fn read_record(fields: &Vec<String>, with_capability: bool, earlier: &Vec<NvidiaGpu>) -> (result:
    Result<NvidiaGpu, String>)
    ensures
        outcome(result) == record_gpu(fields.deep_view(), with_capability, earlier.deep_view()),
{
    let expected: usize = if with_capability {
        5
    } else {
        4
    };
    assert(fields.deep_view().len() == fields@.len());
    if fields.len() != expected {
        return Err(
            concat4(
                "nvidia-smi returned ",
                decimal_text(fields.len() as u64).as_str(),
                " fields; expected ",
                decimal_text(expected as u64).as_str(),
            ),
        );
    }
    assert(fields.deep_view()[0] == fields@[0]@);
    assert(fields.deep_view()[1] == fields@[1]@);
    assert(fields.deep_view()[2] == fields@[2]@);
    assert(fields.deep_view()[3] == fields@[3]@);
    assert(with_capability ==> fields.deep_view()[4] == fields@[4]@);
    let number: u64 = match parse_unsigned(fields[0].as_str(), u32::MAX as u64) {
        None => {
            return Err(concat2("invalid GPU index: ", fields[0].as_str()));
        },
        Some(number) => number,
    };
    let index: u32 = number as u32;
    let shown = decimal_text(number);
    if find_index(earlier, index) {
        return Err(concat2("duplicate GPU index: ", shown.as_str()));
    }
    let name = trim(fields[2].as_str());
    if name.as_str().is_empty() {
        return Err(concat3("GPU ", shown.as_str(), " has an empty name"));
    }
    let driver_version = match NumericVersion::parse(trim(fields[3].as_str()).as_str()) {
        Ok(version) => version,
        Err(error) => {
            return Err(
                concat4(
                    "invalid driver version for GPU ",
                    shown.as_str(),
                    ": ",
                    error.to_string().as_str(),
                ),
            );
        },
    };
    let capability = if with_capability {
        optional_nvidia_value(fields[4].as_str())
    } else {
        None
    };
    let compute_capability = match capability {
        None => None,
        Some(text) => match ComputeCapability::parse(text.as_str()) {
            Ok(value) => Some(value),
            Err(error) => {
                return Err(
                    concat4(
                        "invalid compute capability for GPU ",
                        shown.as_str(),
                        ": ",
                        error.to_string().as_str(),
                    ),
                );
            },
        },
    };
    Ok(
        NvidiaGpu {
            index,
            uuid: optional_nvidia_value(fields[1].as_str()),
            name,
            compute_capability,
            driver_version,
        },
    )
}

/// The processors that the records of a table describe, by index.
pub fn parse_gpu_records(records: &Vec<TableRecord>, with_compute_capability: bool) -> (result:
    Result<Vec<NvidiaGpu>, String>)
    ensures
        outcome(result) == table_gpus(records.deep_view(), with_compute_capability),
{
    let ghost all = records.deep_view();
    let mut gpus: Vec<NvidiaGpu> = Vec::new();
    assert(gpus.deep_view() =~= Seq::<NvidiaGpuView>::empty());
    let mut index: usize = 0;
    while index < records.len()
        invariant
            index <= records@.len(),
            all == records.deep_view(),
            records_gpus(all.take(index as int), with_compute_capability) == Ok::<
                Seq<NvidiaGpuView>,
                Seq<char>,
            >(gpus.deep_view()),
        decreases records@.len() - index,
    {
        assert(all.take(index + 1).drop_last() =~= all.take(index as int));
        assert(all.take(index + 1).last() == records@[index as int].deep_view());
        match &records[index] {
            TableRecord::Invalid(message) => {
                proof {
                    failed_records_stay_failed(all, with_compute_capability, index + 1);
                }
                return Err(concat2("invalid nvidia-smi CSV: ", message.as_str()));
            },
            TableRecord::Fields(fields) => {
                match read_record(fields, with_compute_capability, &gpus) {
                    Err(message) => {
                        proof {
                            failed_records_stay_failed(all, with_compute_capability, index + 1);
                        }
                        return Err(message);
                    },
                    Ok(gpu) => {
                        push_item(&mut gpus, gpu);
                    },
                }
            },
        }
        index = index + 1;
    }
    assert(all.take(index as int) =~= all);
    sort_by_index(&mut gpus);
    Ok(gpus)
}

fn sort_by_index(gpus: &mut Vec<NvidiaGpu>)
    ensures
        final(gpus).deep_view() == sort_by(old(gpus).deep_view(), index_after()),
{
    let after = |left: &NvidiaGpu, right: &NvidiaGpu| -> (follows: bool)
        ensures
            follows == (left.deep_view().index > right.deep_view().index),
        { left.index > right.index };
    sort_values(gpus, after, Ghost(index_after()));
}

/// The processors that `nvidia-smi` lists in its table, by index.
pub fn parse_nvidia_csv(bytes: &[u8], with_compute_capability: bool) -> (result: Result<
    Vec<NvidiaGpu>,
    String,
>)
    ensures
        outcome(result) == table_gpus(table_records(bytes@), with_compute_capability),
{
    let records = read_table(bytes);
    parse_gpu_records(&records, with_compute_capability)
}

/// No two processors of a table share an index.
pub proof fn table_indices_are_distinct(records: Seq<TableRecordView>, with_capability: bool)
    ensures
        records_gpus(records, with_capability) matches Ok(gpus) ==> forall|i: int, j: int|
            #![trigger gpus[i], gpus[j]]
            0 <= i < j < gpus.len() ==> gpus[i].index != gpus[j].index,
    decreases records.len(),
{
    if records.len() > 0 {
        table_indices_are_distinct(records.drop_last(), with_capability);
    }
}

// ---------------------------------------------------------------------------
// Lists of indices

/// Indices as one text, separated by commas.
pub open spec fn index_list(indices: Seq<u32>) -> Seq<char> {
    join(decimals(indices), ","@)
}

fn list_indices(indices: &[u32]) -> (text: String)
    ensures
        text@ == index_list(indices@),
{
    join_texts(&decimal_texts(indices), ",")
}

fn contains_index(indices: &[u32], index: u32, count: usize) -> (found: bool)
    requires
        count <= indices@.len(),
    ensures
        found == indices@.take(count as int).contains(index),
{
    let mut at: usize = 0;
    while at < count
        invariant
            at <= count <= indices@.len(),
            forall|i: int| 0 <= i < at ==> indices@.take(count as int)[i] != index,
        decreases count - at,
    {
        if indices[at] == index {
            assert(indices@.take(count as int)[at as int] == index);
            return true;
        }
        at = at + 1;
    }
    false
}

// ---------------------------------------------------------------------------
// Selection

/// The last of `gpus` with this index.
pub open spec fn gpu_with_index(gpus: Seq<NvidiaGpuView>, index: u32) -> Option<NvidiaGpuView>
    decreases gpus.len(),
{
    if gpus.len() == 0 {
        None
    } else if gpus.last().index == index {
        Some(gpus.last())
    } else {
        gpu_with_index(gpus.drop_last(), index)
    }
}

/// The processors with the given indices, in the order of the indices.
pub open spec fn gpus_with_indices(gpus: Seq<NvidiaGpuView>, indices: Seq<u32>) -> Seq<
    NvidiaGpuView,
>
    decreases indices.len(),
{
    if indices.len() == 0 {
        Seq::empty()
    } else {
        let rest = gpus_with_indices(gpus, indices.drop_last());
        match gpu_with_index(gpus, indices.last()) {
            Some(gpu) => rest.push(gpu),
            None => rest,
        }
    }
}

/// The processors that a selection selects, by index; all of them where nothing is selected.
pub open spec fn selected_gpus(gpus: Seq<NvidiaGpuView>, selection: Seq<u32>) -> Seq<
    NvidiaGpuView,
> {
    if selection.len() == 0 {
        gpus
    } else {
        sort_by(gpus_with_indices(gpus, distinct(selection)), index_after())
    }
}

/// The selected indices that no processor has.
pub open spec fn missing_indices(gpus: Seq<NvidiaGpuView>, selection: Seq<u32>) -> Seq<u32> {
    kept(distinct(selection), |index: u32| gpu_with_index(gpus, index) is None)
}

fn find_gpu(gpus: &Vec<NvidiaGpu>, index: u32) -> (place: Option<usize>)
    ensures
        match place {
            Some(at) => at < gpus@.len() && gpu_with_index(gpus.deep_view(), index) == Some(
                gpus@[at as int].deep_view(),
            ),
            None => gpu_with_index(gpus.deep_view(), index) is None,
        },
{
    let ghost all = gpus.deep_view();
    let mut end: usize = gpus.len();
    assert(all.take(end as int) =~= all);
    while end > 0
        invariant
            end <= gpus@.len(),
            all == gpus.deep_view(),
            gpu_with_index(all, index) == gpu_with_index(all.take(end as int), index),
        decreases end,
    {
        assert(all.take(end as int).last() == gpus@[end - 1].deep_view());
        assert(all.take(end as int).drop_last() =~= all.take(end - 1));
        if gpus[end - 1].index == index {
            return Some(end - 1);
        }
        end = end - 1;
    }
    None
}

/// The processors that a selection selects, and the selected indices that none has.
pub fn select_gpus(all_gpus: Vec<NvidiaGpu>, selection: &[u32]) -> (result: (
    Vec<NvidiaGpu>,
    Vec<u32>,
))
    ensures
        result.0.deep_view() == selected_gpus(all_gpus.deep_view(), selection@),
        result.1@ == missing_indices(all_gpus.deep_view(), selection@),
{
    let ghost all = all_gpus.deep_view();
    let ghost absent = |index: u32| gpu_with_index(all, index) is None;
    let mut selected: Vec<NvidiaGpu> = Vec::new();
    let mut invalid: Vec<u32> = Vec::new();
    assert(selected.deep_view() =~= Seq::<NvidiaGpuView>::empty());
    if selection.len() == 0 {
        return (all_gpus, invalid);
    }
    let mut at: usize = 0;
    assert(selection@.take(0) =~= Seq::empty());
    while at < selection.len()
        invariant
            at <= selection@.len(),
            all == all_gpus.deep_view(),
            absent == (|index: u32| gpu_with_index(all, index) is None),
            selected.deep_view() == gpus_with_indices(all, distinct(selection@.take(at as int))),
            invalid@ == kept(distinct(selection@.take(at as int)), absent),
        decreases selection@.len() - at,
    {
        let index: u32 = selection[at];
        let ghost before = selection@.take(at as int);
        assert(selection@.take(at + 1).drop_last() =~= before);
        assert(selection@.take(at + 1).last() == index);
        if !contains_index(selection, index, at) {
            let ghost wider = distinct(before).push(index);
            assert(wider.drop_last() =~= distinct(before));
            match find_gpu(&all_gpus, index) {
                Some(place) => {
                    push_item(&mut selected, all_gpus[place].clone());
                },
                None => {
                    invalid.push(index);
                },
            }
        }
        at = at + 1;
    }
    assert(selection@.take(at as int) =~= selection@);
    sort_by_index(&mut selected);
    (selected, invalid)
}

proof fn gpu_with_index_has_it(gpus: Seq<NvidiaGpuView>, index: u32)
    ensures
        gpu_with_index(gpus, index) matches Some(gpu) ==> gpu.index == index && gpus.contains(gpu),
        has_index(gpus, index) ==> gpu_with_index(gpus, index) is Some,
    decreases gpus.len(),
{
    if gpus.len() > 0 {
        let rest = gpus.drop_last();
        gpu_with_index_has_it(rest, index);
        assert(gpus[gpus.len() - 1] == gpus.last());
        if gpus.last().index != index {
            if let Some(gpu) = gpu_with_index(rest, index) {
                let at = choose|i: int| 0 <= i < rest.len() && rest[i] == gpu;
                assert(gpus[at] == gpu);
            }
            if has_index(gpus, index) {
                let at = choose|i: int| 0 <= i < gpus.len() && (#[trigger] gpus[i]).index == index;
                assert(rest[at].index == index);
            }
        }
    }
}

proof fn found_gpus_are_asked_for(gpus: Seq<NvidiaGpuView>, indices: Seq<u32>)
    ensures
        forall|i: int|
            0 <= i < gpus_with_indices(gpus, indices).len() ==> indices.contains(
                (#[trigger] gpus_with_indices(gpus, indices)[i]).index,
            ),
        forall|index: u32| #[trigger]
            indices.contains(index) && gpu_with_index(gpus, index) is Some ==> has_index(
                gpus_with_indices(gpus, indices),
                index,
            ),
    decreases indices.len(),
{
    if indices.len() > 0 {
        let before = indices.drop_last();
        found_gpus_are_asked_for(gpus, before);
        gpu_with_index_has_it(gpus, indices.last());
        let rest = gpus_with_indices(gpus, before);
        let all = gpus_with_indices(gpus, indices);
        assert(indices[indices.len() - 1] == indices.last());
        assert forall|i: int| 0 <= i < all.len() implies indices.contains(
            (#[trigger] all[i]).index,
        ) by {
            if i < rest.len() {
                assert(all[i] == rest[i]);
                let at = choose|k: int| 0 <= k < before.len() && before[k] == rest[i].index;
                assert(indices[at] == rest[i].index);
            }
        }
        assert forall|index: u32| #[trigger]
            indices.contains(index) && gpu_with_index(gpus, index) is Some implies has_index(
            all,
            index,
        ) by {
            if index == indices.last() {
                assert(all[all.len() - 1].index == index);
            } else {
                let at = choose|k: int| 0 <= k < indices.len() && indices[k] == index;
                assert(before[at] == index);
                assert(before.contains(index));
                assert(has_index(rest, index));
                let place = choose|i: int|
                    0 <= i < rest.len() && (#[trigger] rest[i]).index == index;
                assert(all[place].index == index);
            }
        }
    }
}

/// A selection of which nothing is missing selects exactly the processors with the selected
/// indices.
pub proof fn complete_selection_is_exact(gpus: Seq<NvidiaGpuView>, selection: Seq<u32>, index: u32)
    requires
        selection.len() > 0,
        missing_indices(gpus, selection).len() == 0,
    ensures
        has_index(selected_gpus(gpus, selection), index) <==> selection.contains(index),
{
    let indices = distinct(selection);
    let found = gpus_with_indices(gpus, indices);
    let absent = |index: u32| gpu_with_index(gpus, index) is None;
    distinct_members(selection);
    found_gpus_are_asked_for(gpus, indices);
    sort_keeps_items(found, index_after());
    let sorted = selected_gpus(gpus, selection);
    crate::order::kept_members(indices, absent, index);
    assert(!kept(indices, absent).contains(index));
    if selection.contains(index) {
        assert(indices.contains(index));
        assert(!absent(index));
        assert(has_index(found, index));
        let place = choose|i: int| 0 <= i < found.len() && (#[trigger] found[i]).index == index;
        same_members(found, sorted, found[place]);
        let at = choose|i: int| 0 <= i < sorted.len() && sorted[i] == found[place];
        assert(sorted[at].index == index);
    }
    if has_index(sorted, index) {
        let at = choose|i: int| 0 <= i < sorted.len() && (#[trigger] sorted[i]).index == index;
        same_members(sorted, found, sorted[at]);
        let place = choose|i: int| 0 <= i < found.len() && found[i] == sorted[at];
        assert(indices.contains(found[place].index));
    }
}

proof fn same_members<T>(left: Seq<T>, right: Seq<T>, item: T)
    requires
        left.to_multiset() == right.to_multiset(),
        left.contains(item),
    ensures
        right.contains(item),
{
    broadcast use vstd::seq_lib::group_to_multiset_ensures;

    assert(left.to_multiset().count(item) > 0);
    assert(right.to_multiset().count(item) > 0);
}

// ---------------------------------------------------------------------------
// Visibility

/// The identifiers in a list of visible devices.
pub open spec fn visible_tokens(value: Seq<char>) -> Seq<Seq<char>> {
    kept(
        split_on(value, ',').map_values(|token: Seq<char>| trimmed(token)),
        |token: Seq<char>| token.len() > 0,
    )
}

fn list_tokens(value: &str) -> (tokens: Vec<String>)
    ensures
        tokens.deep_view() == visible_tokens(value@),
{
    let pieces = split(value, ',');
    let ghost all = split_on(value@, ',').map_values(|token: Seq<char>| trimmed(token));
    let ghost keep = |token: Seq<char>| token.len() > 0;
    let mut tokens: Vec<String> = Vec::new();
    let mut index: usize = 0;
    assert(pieces.deep_view().len() == pieces@.len());
    while index < pieces.len()
        invariant
            index <= pieces@.len() == all.len(),
            pieces.deep_view() == split_on(value@, ','),
            all == split_on(value@, ',').map_values(|token: Seq<char>| trimmed(token)),
            keep == (|token: Seq<char>| token.len() > 0),
            tokens.deep_view() == kept(all.take(index as int), keep),
        decreases pieces@.len() - index,
    {
        let token = trim(pieces[index].as_str());
        assert(pieces.deep_view()[index as int] == pieces@[index as int]@);
        assert(all.take(index + 1).drop_last() =~= all.take(index as int));
        assert(all.take(index + 1).last() == token@);
        if !token.as_str().is_empty() {
            push_item(&mut tokens, token);
        }
        index = index + 1;
    }
    assert(all.take(index as int) =~= all);
    tokens
}

/// The ordinals that tokens write; `None` where one of them is no ordinal.
pub open spec fn ordinals(tokens: Seq<Seq<char>>) -> Option<Seq<u32>>
    decreases tokens.len(),
{
    if tokens.len() == 0 {
        Some(Seq::empty())
    } else {
        match (ordinals(tokens.drop_last()), unsigned(tokens.last(), u32::MAX as nat)) {
            (Some(rest), Some(number)) => Some(rest.push(number as u32)),
            _ => None,
        }
    }
}

proof fn no_ordinal_stays(tokens: Seq<Seq<char>>, count: int)
    requires
        0 <= count <= tokens.len(),
        ordinals(tokens.take(count)) is None,
    ensures
        ordinals(tokens) is None,
    decreases tokens.len(),
{
    if count == tokens.len() {
        assert(tokens.take(count) =~= tokens);
    } else {
        assert(tokens.drop_last().take(count) =~= tokens.take(count));
        no_ordinal_stays(tokens.drop_last(), count);
    }
}

fn parse_ordinals(tokens: &Vec<String>) -> (result: Option<Vec<u32>>)
    ensures
        (match result {
            Some(found) => Some(found@),
            None => None,
        }) == ordinals(tokens.deep_view()),
{
    let ghost all = tokens.deep_view();
    let mut found: Vec<u32> = Vec::new();
    let mut index: usize = 0;
    while index < tokens.len()
        invariant
            index <= tokens@.len(),
            all == tokens.deep_view(),
            ordinals(all.take(index as int)) == Some(found@),
        decreases tokens@.len() - index,
    {
        assert(all.take(index + 1).drop_last() =~= all.take(index as int));
        assert(all.take(index + 1).last() == tokens@[index as int]@);
        match parse_unsigned(tokens[index].as_str(), u32::MAX as u64) {
            Some(number) => {
                found.push(number as u32);
            },
            None => {
                proof {
                    no_ordinal_stays(all, index + 1);
                }
                return None;
            },
        }
        index = index + 1;
    }
    assert(all.take(index as int) =~= all);
    Some(found)
}

/// Whether ordinals name every one of `count` devices, so that it does not matter which device
/// has which ordinal.
pub open spec fn names_every_device(indices: Seq<u32>, count: nat) -> bool {
    &&& indices.len() == count
    &&& forall|i: int| 0 <= i < indices.len() ==> (#[trigger] indices[i]) < count && indices[i]
        < u32::MAX
}

/// Why a list of ordinals cannot be used.
pub open spec fn ordinals_objection(indices: Seq<u32>, count: nat) -> Option<Seq<char>> {
    if !indices.no_duplicates() {
        Some("CUDA_VISIBLE_DEVICES contains a duplicate GPU ordinal"@)
    } else if (count == 1 && indices == seq![0u32]) || names_every_device(indices, count) {
        None
    } else {
        Some(
            "numeric CUDA_VISIBLE_DEVICES is a subset whose CUDA ordinals cannot be safely mapped to nvidia-smi physical indices; use GPU UUIDs"@,
        )
    }
}

/// Whether the identifier of `gpu` begins with `token`.
pub open spec fn uuid_begins(gpu: NvidiaGpuView, token: Seq<char>) -> bool {
    gpu.uuid matches Some(uuid) && token.is_prefix_of(uuid)
}

/// The processors whose identifier begins with `token`.
pub open spec fn gpus_named(gpus: Seq<NvidiaGpuView>, token: Seq<char>) -> Seq<NvidiaGpuView> {
    kept(gpus, |gpu: NvidiaGpuView| uuid_begins(gpu, token))
}

/// The processors that identifiers name, in the order of the identifiers.
pub open spec fn gpus_by_uuid(gpus: Seq<NvidiaGpuView>, tokens: Seq<Seq<char>>) -> Result<
    Seq<NvidiaGpuView>,
    Seq<char>,
>
    decreases tokens.len(),
{
    if tokens.len() == 0 {
        Ok(Seq::empty())
    } else {
        match gpus_by_uuid(gpus, tokens.drop_last()) {
            Err(message) => Err(message),
            Ok(selected) => {
                let token = tokens.last();
                let named = gpus_named(gpus, token);
                if "MIG-"@.is_prefix_of(token) {
                    Err("MIG CUDA visibility cannot be mapped to physical nvidia-smi GPUs"@)
                } else if named.len() != 1 {
                    Err(
                        "CUDA_VISIBLE_DEVICES identifier "@ + debug_text(token)
                            + " did not match exactly one GPU"@,
                    )
                } else if has_index(selected, named[0].index) {
                    Err("CUDA_VISIBLE_DEVICES contains a duplicate GPU"@)
                } else {
                    Ok(selected.push(named[0]))
                }
            },
        }
    }
}

proof fn failed_tokens_stay_failed(gpus: Seq<NvidiaGpuView>, tokens: Seq<Seq<char>>, count: int)
    requires
        0 <= count <= tokens.len(),
        gpus_by_uuid(gpus, tokens.take(count)) is Err,
    ensures
        gpus_by_uuid(gpus, tokens) == gpus_by_uuid(gpus, tokens.take(count)),
    decreases tokens.len(),
{
    if count == tokens.len() {
        assert(tokens.take(count) =~= tokens);
    } else {
        assert(tokens.drop_last().take(count) =~= tokens.take(count));
        failed_tokens_stay_failed(gpus, tokens.drop_last(), count);
    }
}

/// The processors that a list of visible devices leaves visible.
pub open spec fn visible_gpus(gpus: Seq<NvidiaGpuView>, value: Seq<char>) -> Result<
    Seq<NvidiaGpuView>,
    Seq<char>,
> {
    let tokens = visible_tokens(value);
    if tokens.len() == 0 || tokens == seq!["-1"@] {
        Ok(Seq::empty())
    } else {
        match ordinals(tokens) {
            Some(indices) => match ordinals_objection(indices, gpus.len()) {
                Some(objection) => Err(objection),
                None => Ok(gpus),
            },
            None => gpus_by_uuid(gpus, tokens),
        }
    }
}

fn has_repetition(indices: &Vec<u32>) -> (answer: bool)
    ensures
        answer == !indices@.no_duplicates(),
{
    let mut index: usize = 0;
    while index < indices.len()
        invariant
            index <= indices@.len(),
            indices@.take(index as int).no_duplicates(),
        decreases indices@.len() - index,
    {
        let before = contains_index(indices.as_slice(), indices[index], index);
        if before {
            proof {
                let earlier = indices@.take(index as int);
                let at = choose|i: int| 0 <= i < earlier.len() && earlier[i] == indices@[index as int];
                assert(indices@[at] == indices@[index as int]);
            }
            return true;
        }
        proof {
            let earlier = indices@.take(index as int);
            let wider = indices@.take(index + 1);
            assert(wider =~= earlier.push(indices@[index as int]));
            assert forall|i: int, j: int| 0 <= i < wider.len() && 0 <= j < wider.len() && i
                != j implies wider[i] != wider[j] by {
                if i < index && j < index {
                    assert(earlier[i] != earlier[j]);
                } else if i < index {
                    assert(earlier[i] == wider[i]);
                    assert(earlier.contains(earlier[i]));
                } else {
                    assert(earlier[j] == wider[j]);
                    assert(earlier.contains(earlier[j]));
                }
            }
        }
        index = index + 1;
    }
    assert(indices@.take(index as int) =~= indices@);
    false
}

fn check_ordinals(indices: &Vec<u32>, count: usize) -> (objection: Option<String>)
    ensures
        objection.deep_view() == ordinals_objection(indices@, count as nat),
{
    if has_repetition(indices) {
        return Some("CUDA_VISIBLE_DEVICES contains a duplicate GPU ordinal".to_owned());
    }
    if count == 1 && indices.len() == 1 && indices[0] == 0 {
        assert(indices@ =~= seq![0u32]);
        return None;
    }
    let mut complete = indices.len() == count;
    let mut at: usize = 0;
    while complete && at < indices.len()
        invariant
            at <= indices@.len(),
            complete ==> indices@.len() == count,
            complete ==> forall|i: int|
                0 <= i < at ==> (#[trigger] indices@[i]) < count && indices@[i] < u32::MAX,
            !complete ==> !names_every_device(indices@, count as nat),
        decreases indices@.len() - at,
    {
        if !((indices[at] as u64) < count as u64 && indices[at] < u32::MAX) {
            assert(!(indices@[at as int] < count && indices@[at as int] < u32::MAX));
            complete = false;
        }
        at = at + 1;
    }
    if complete {
        return None;
    }
    assert(indices@ != seq![0u32] || count != 1) by {
        if indices@ == seq![0u32] {
            assert(indices@.len() == 1 && indices@[0] == 0);
        }
    }
    Some(
        "numeric CUDA_VISIBLE_DEVICES is a subset whose CUDA ordinals cannot be safely mapped to nvidia-smi physical indices; use GPU UUIDs".to_owned(),
    )
}

fn find_named(gpus: &Vec<NvidiaGpu>, token: &str) -> (place: Option<usize>)
    ensures
        match place {
            Some(at) => at < gpus@.len() && gpus_named(gpus.deep_view(), token@) == seq![
                gpus@[at as int].deep_view(),
            ],
            None => gpus_named(gpus.deep_view(), token@).len() != 1,
        },
{
    let ghost all = gpus.deep_view();
    let ghost keep = |gpu: NvidiaGpuView| uuid_begins(gpu, token@);
    let mut found: usize = 0;
    let mut many = false;
    let mut any = false;
    let mut index: usize = 0;
    while index < gpus.len()
        invariant
            index <= gpus@.len(),
            all == gpus.deep_view(),
            keep == (|gpu: NvidiaGpuView| uuid_begins(gpu, token@)),
            !any ==> !many && kept(all.take(index as int), keep) == Seq::<NvidiaGpuView>::empty(),
            any && !many ==> found < gpus@.len() && kept(all.take(index as int), keep) == seq![
                gpus@[found as int].deep_view(),
            ],
            many ==> any && kept(all.take(index as int), keep).len() > 1,
        decreases gpus@.len() - index,
    {
        assert(all.take(index + 1).drop_last() =~= all.take(index as int));
        assert(all.take(index + 1).last() == gpus@[index as int].deep_view());
        let begins = match &gpus[index].uuid {
            Some(uuid) => starts_with(uuid.as_str(), token),
            None => false,
        };
        if begins {
            if any {
                many = true;
            } else {
                any = true;
                found = index;
                assert(Seq::<NvidiaGpuView>::empty().push(all[index as int]) =~= seq![
                    all[index as int],
                ]);
            }
        }
        index = index + 1;
    }
    assert(all.take(index as int) =~= all);
    if any && !many {
        Some(found)
    } else {
        None
    }
}

fn select_by_uuid(gpus: &Vec<NvidiaGpu>, tokens: &Vec<String>) -> (result: Result<
    Vec<NvidiaGpu>,
    String,
>)
    ensures
        outcome(result) == gpus_by_uuid(gpus.deep_view(), tokens.deep_view()),
{
    let ghost all = tokens.deep_view();
    let ghost devices = gpus.deep_view();
    let mut selected: Vec<NvidiaGpu> = Vec::new();
    assert(selected.deep_view() =~= Seq::<NvidiaGpuView>::empty());
    let mut index: usize = 0;
    while index < tokens.len()
        invariant
            index <= tokens@.len(),
            all == tokens.deep_view(),
            devices == gpus.deep_view(),
            gpus_by_uuid(devices, all.take(index as int)) == Ok::<Seq<NvidiaGpuView>, Seq<char>>(
                selected.deep_view(),
            ),
        decreases tokens@.len() - index,
    {
        let token = tokens[index].as_str();
        assert(all.take(index + 1).drop_last() =~= all.take(index as int));
        assert(all.take(index + 1).last() == tokens@[index as int]@);
        let ghost failing = gpus_by_uuid(devices, all.take(index + 1));
        if starts_with(token, "MIG-") {
            proof {
                failed_tokens_stay_failed(devices, all, index + 1);
            }
            return Err(
                "MIG CUDA visibility cannot be mapped to physical nvidia-smi GPUs".to_owned(),
            );
        }
        match find_named(gpus, token) {
            None => {
                proof {
                    failed_tokens_stay_failed(devices, all, index + 1);
                }
                return Err(
                    concat3(
                        "CUDA_VISIBLE_DEVICES identifier ",
                        show_debug(token).as_str(),
                        " did not match exactly one GPU",
                    ),
                );
            },
            Some(place) => {
                if find_index(&selected, gpus[place].index) {
                    proof {
                        failed_tokens_stay_failed(devices, all, index + 1);
                    }
                    return Err("CUDA_VISIBLE_DEVICES contains a duplicate GPU".to_owned());
                }
                push_item(&mut selected, gpus[place].clone());
            },
        }
        index = index + 1;
    }
    assert(all.take(index as int) =~= all);
    Ok(selected)
}

/// The processors that a list of visible devices leaves visible.
pub fn filter_cuda_visible_devices(all_gpus: Vec<NvidiaGpu>, value: &str) -> (result: Result<
    Vec<NvidiaGpu>,
    String,
>)
    ensures
        outcome(result) == visible_gpus(all_gpus.deep_view(), value@),
{
    let tokens = list_tokens(value);
    let ghost texts = tokens.deep_view();
    assert(texts.len() == tokens@.len());
    let nothing: Vec<NvidiaGpu> = Vec::new();
    assert(nothing.deep_view() =~= Seq::<NvidiaGpuView>::empty());
    if tokens.len() == 0 {
        return Ok(nothing);
    }
    assert(texts[0] == tokens@[0]@);
    if tokens.len() == 1 && same(tokens[0].as_str(), "-1") {
        assert(texts =~= seq!["-1"@]);
        return Ok(nothing);
    }
    assert(texts != seq!["-1"@]) by {
        if texts == seq!["-1"@] {
            assert(texts.len() == 1 && texts[0] == "-1"@);
        }
    }
    assert(all_gpus.deep_view().len() == all_gpus@.len());
    match parse_ordinals(&tokens) {
        Some(indices) => match check_ordinals(&indices, all_gpus.len()) {
            Some(objection) => Err(objection),
            None => Ok(all_gpus),
        },
        None => select_by_uuid(&all_gpus, &tokens),
    }
}

// ---------------------------------------------------------------------------
// Reported versions

/// The CUDA version that the summary of `nvidia-smi` reports.
pub open spec fn reported_cuda(output: Seq<char>) -> Option<NumericVersionView> {
    version_in(pattern_capture(REPORTED_CUDA_PATTERN@, output))
}

/// The CUDA version that the summary of `nvidia-smi` reports.
pub fn parse_reported_cuda(output: &str) -> (version: Option<NumericVersion>)
    ensures
        version.deep_view() == reported_cuda(output@),
{
    let candidate = capture_first(REPORTED_CUDA_PATTERN, output);
    captured_version(&candidate)
}

/// Whether a text says that there is no device.
pub open spec fn says_no_devices(output: Seq<char>) -> bool {
    let text = lowercase(output);
    occurs(text, "no devices were found"@) || occurs(text, "no nvidia devices"@) || occurs(
        text,
        "no device found"@,
    )
}

/// Whether a text says that there is no device.
pub fn no_nvidia_devices(output: &str) -> (answer: bool)
    ensures
        answer == says_no_devices(output@),
{
    let text = to_lowercase(output);
    contains(text.as_str(), "no devices were found") || contains(
        text.as_str(),
        "no nvidia devices",
    ) || contains(text.as_str(), "no device found")
}

/// Whether a version equal to `version` is among `versions`.
pub open spec fn has_version(
    versions: Seq<NumericVersionView>,
    version: NumericVersionView,
) -> bool {
    exists|i: int|
        0 <= i < versions.len() && version_equal(
            (#[trigger] versions[i]).components,
            version.components,
        )
}

/// The driver versions of processors, each where it first occurs.
pub open spec fn distinct_drivers(gpus: Seq<NvidiaGpuView>) -> Seq<NumericVersionView>
    decreases gpus.len(),
{
    if gpus.len() == 0 {
        Seq::empty()
    } else {
        let rest = distinct_drivers(gpus.drop_last());
        if has_version(rest, gpus.last().driver_version) {
            rest
        } else {
            rest.push(gpus.last().driver_version)
        }
    }
}

/// Whether `left` is a later version than `right`.
pub open spec fn version_after() -> spec_fn(NumericVersionView, NumericVersionView) -> bool {
    |left: NumericVersionView, right: NumericVersionView|
        version_order(left.components, right.components) == Order::Greater
}

/// The driver versions of processors, without repetition and in order.
pub open spec fn driver_versions(gpus: Seq<NvidiaGpuView>) -> Seq<NumericVersionView> {
    sort_by(distinct_drivers(gpus), version_after())
}

fn find_version(versions: &Vec<NumericVersion>, version: &NumericVersion) -> (found: bool)
    ensures
        found == has_version(versions.deep_view(), version.deep_view()),
{
    let ghost wanted = version.deep_view().components;
    let mut index: usize = 0;
    while index < versions.len()
        invariant
            index <= versions@.len(),
            wanted == version.deep_view().components,
            forall|i: int|
                0 <= i < index ==> !version_equal(
                    (#[trigger] versions.deep_view()[i]).components,
                    wanted,
                ),
        decreases versions@.len() - index,
    {
        assert(versions.deep_view()[index as int] == versions@[index as int].deep_view());
        proof {
            version_order_total(versions@[index as int].deep_view().components, wanted);
        }
        if let Order::Equal = versions[index].order(version) {
            return true;
        }
        index = index + 1;
    }
    false
}

fn list_drivers(gpus: &Vec<NvidiaGpu>) -> (versions: Vec<NumericVersion>)
    ensures
        versions.deep_view() == driver_versions(gpus.deep_view()),
{
    let ghost all = gpus.deep_view();
    let mut versions: Vec<NumericVersion> = Vec::new();
    assert(versions.deep_view() =~= Seq::<NumericVersionView>::empty());
    let mut index: usize = 0;
    while index < gpus.len()
        invariant
            index <= gpus@.len(),
            all == gpus.deep_view(),
            versions.deep_view() == distinct_drivers(all.take(index as int)),
        decreases gpus@.len() - index,
    {
        assert(all.take(index + 1).drop_last() =~= all.take(index as int));
        assert(all.take(index + 1).last() == gpus@[index as int].deep_view());
        if !find_version(&versions, &gpus[index].driver_version) {
            push_item(&mut versions, gpus[index].driver_version.clone());
        }
        index = index + 1;
    }
    assert(all.take(index as int) =~= all);
    let after = |left: &NumericVersion, right: &NumericVersion| -> (follows: bool)
        ensures
            follows == (version_order(
                left.deep_view().components,
                right.deep_view().components,
            ) == Order::Greater),
        { left.order(right) == Order::Greater };
    sort_values(&mut versions, after, Ghost(version_after()));
    versions
}

/// The texts of versions.
pub open spec fn version_texts(versions: Seq<NumericVersionView>) -> Seq<Seq<char>> {
    versions.map_values(|version: NumericVersionView| version.text)
}

fn list_versions(versions: &Vec<NumericVersion>) -> (text: String)
    ensures
        text@ == join(version_texts(versions.deep_view()), ","@),
{
    let ghost all = version_texts(versions.deep_view());
    let mut texts: Vec<String> = Vec::new();
    let mut index: usize = 0;
    while index < versions.len()
        invariant
            index <= versions@.len(),
            all == version_texts(versions.deep_view()),
            texts.deep_view() == all.take(index as int),
        decreases versions@.len() - index,
    {
        push_item(&mut texts, versions[index].to_string());
        assert(all[index as int] == versions@[index as int].deep_view().text);
        assert(all.take(index + 1) =~= all.take(index as int).push(all[index as int]));
        index = index + 1;
    }
    assert(all.take(index as int) =~= all);
    join_texts(&texts, ",")
}

// ---------------------------------------------------------------------------
// Detection

/// What was found out about the processors, and what is to be said about it.
#[derive(Debug, PartialEq, Eq)]
pub struct NvidiaDetection {
    /// What was found out.
    pub info: NvidiaInfo,
    /// What is to be said.
    pub diagnostics: Vec<Diagnostic>,
}

/// The model of [`NvidiaDetection`].
#[verifier::ext_equal]
pub struct NvidiaDetectionView {
    pub info: NvidiaInfoView,
    pub diagnostics: Seq<DiagnosticView>,
}

impl DeepView for NvidiaDetection {
    type V = NvidiaDetectionView;

    open spec fn deep_view(&self) -> NvidiaDetectionView {
        NvidiaDetectionView {
            info: self.info.deep_view(),
            diagnostics: self.diagnostics.deep_view(),
        }
    }
}

/// Nothing known but a status.
pub open spec fn nothing_detected(status: NvidiaDetectionStatus) -> NvidiaInfoView {
    NvidiaInfoView {
        status,
        driver_version: None,
        reported_cuda_version: None,
        gpus: Seq::empty(),
    }
}

/// Nothing known but a status.
pub fn empty_nvidia(status: NvidiaDetectionStatus) -> (info: NvidiaInfo)
    ensures
        info.deep_view() == nothing_detected(status),
{
    let gpus: Vec<NvidiaGpu> = Vec::new();
    assert(gpus.deep_view() =~= Seq::<NvidiaGpuView>::empty());
    NvidiaInfo { status, driver_version: None, reported_cuda_version: None, gpus }
}

/// A status, and the diagnostic that goes with it.
pub struct QueryFailureView {
    pub status: NvidiaDetectionStatus,
    pub diagnostic: DiagnosticView,
}

/// Why the processors could not be listed.
#[derive(Debug, PartialEq, Eq)]
pub enum NvidiaQueryError {
    /// The command could not be run to its end.
    Command(CommandError),
    /// There is no device.
    NoDevices,
    /// The command failed.
    Failed(String),
    /// The table cannot be read.
    Parse(String),
}

/// The model of [`NvidiaQueryError`].
pub enum NvidiaQueryErrorView {
    Command(CommandErrorView),
    NoDevices,
    Failed(Seq<char>),
    Parse(Seq<char>),
}

impl DeepView for NvidiaQueryError {
    type V = NvidiaQueryErrorView;

    open spec fn deep_view(&self) -> NvidiaQueryErrorView {
        match self {
            NvidiaQueryError::Command(error) => NvidiaQueryErrorView::Command(error.deep_view()),
            NvidiaQueryError::NoDevices => NvidiaQueryErrorView::NoDevices,
            NvidiaQueryError::Failed(message) => NvidiaQueryErrorView::Failed(message@),
            NvidiaQueryError::Parse(message) => NvidiaQueryErrorView::Parse(message@),
        }
    }
}

/// What follows where there is no device.
pub open spec fn no_devices_failure() -> QueryFailureView {
    QueryFailureView {
        status: NvidiaDetectionStatus::NoDevices,
        diagnostic: plain_diagnostic(DiagnosticCode::NvidiaNoDevices, DiagnosticSeverity::Info),
    }
}

/// What follows from a command that could not be run to its end.
pub open spec fn command_failure(error: CommandErrorView) -> QueryFailureView {
    if error matches CommandErrorView::Spawn { not_found, .. } && not_found {
        QueryFailureView {
            status: NvidiaDetectionStatus::CommandUnavailable,
            diagnostic: plain_diagnostic(
                DiagnosticCode::NvidiaSmiUnavailable,
                DiagnosticSeverity::Warning,
            ),
        }
    } else if error is TimedOut {
        QueryFailureView {
            status: NvidiaDetectionStatus::TimedOut,
            diagnostic: noted(
                plain_diagnostic(
                    DiagnosticCode::NvidiaInspectionTimedOut,
                    DiagnosticSeverity::Warning,
                ),
                "error"@,
                command_error_text(error),
            ),
        }
    } else {
        inspection_failure(command_error_text(error))
    }
}

/// What follows from a failed inspection.
pub open spec fn inspection_failure(message: Seq<char>) -> QueryFailureView {
    QueryFailureView {
        status: NvidiaDetectionStatus::Failed,
        diagnostic: noted(
            plain_diagnostic(DiagnosticCode::NvidiaInspectionFailed, DiagnosticSeverity::Warning),
            "error"@,
            truncated(message, 512),
        ),
    }
}

/// What follows from a failed query.
pub open spec fn query_failure(error: NvidiaQueryErrorView) -> QueryFailureView {
    match error {
        NvidiaQueryErrorView::NoDevices => no_devices_failure(),
        NvidiaQueryErrorView::Command(cause) => command_failure(cause),
        NvidiaQueryErrorView::Failed(message) => inspection_failure(message),
        NvidiaQueryErrorView::Parse(message) => inspection_failure(message),
    }
}

/// Records that there is no device.
pub fn nvidia_no_devices(diagnostics: &mut Vec<Diagnostic>) -> (info: NvidiaInfo)
    ensures
        info.deep_view() == nothing_detected(no_devices_failure().status),
        final(diagnostics).deep_view() == old(diagnostics).deep_view().push(
            no_devices_failure().diagnostic,
        ),
{
    push_item(
        diagnostics,
        Diagnostic::new(DiagnosticCode::NvidiaNoDevices, DiagnosticSeverity::Info),
    );
    empty_nvidia(NvidiaDetectionStatus::NoDevices)
}

fn inspection_failed(message: &str, diagnostics: &mut Vec<Diagnostic>) -> (info: NvidiaInfo)
    ensures
        info.deep_view() == nothing_detected(inspection_failure(message@).status),
        final(diagnostics).deep_view() == old(diagnostics).deep_view().push(
            inspection_failure(message@).diagnostic,
        ),
{
    push_item(
        diagnostics,
        Diagnostic::new(
            DiagnosticCode::NvidiaInspectionFailed,
            DiagnosticSeverity::Warning,
        ).with_detail("error", truncate_string(message, 512).as_str()),
    );
    empty_nvidia(NvidiaDetectionStatus::Failed)
}

/// Records that a command could not be run to its end.
pub fn nvidia_command_error(error: &CommandError, diagnostics: &mut Vec<Diagnostic>) -> (info:
    NvidiaInfo)
    ensures
        info.deep_view() == nothing_detected(command_failure(error.deep_view()).status),
        final(diagnostics).deep_view() == old(diagnostics).deep_view().push(
            command_failure(error.deep_view()).diagnostic,
        ),
{
    if error.is_not_found() {
        push_item(
            diagnostics,
            Diagnostic::new(DiagnosticCode::NvidiaSmiUnavailable, DiagnosticSeverity::Warning),
        );
        empty_nvidia(NvidiaDetectionStatus::CommandUnavailable)
    } else if error.is_timeout() {
        push_item(
            diagnostics,
            Diagnostic::new(
                DiagnosticCode::NvidiaInspectionTimedOut,
                DiagnosticSeverity::Warning,
            ).with_detail("error", error.to_string().as_str()),
        );
        empty_nvidia(NvidiaDetectionStatus::TimedOut)
    } else {
        inspection_failed(error.to_string().as_str(), diagnostics)
    }
}

/// Records that the processors could not be listed.
pub fn nvidia_query_failure(error: &NvidiaQueryError, diagnostics: &mut Vec<Diagnostic>) -> (info:
    NvidiaInfo)
    ensures
        info.deep_view() == nothing_detected(query_failure(error.deep_view()).status),
        final(diagnostics).deep_view() == old(diagnostics).deep_view().push(
            query_failure(error.deep_view()).diagnostic,
        ),
{
    match error {
        NvidiaQueryError::NoDevices => nvidia_no_devices(diagnostics),
        NvidiaQueryError::Command(cause) => nvidia_command_error(cause, diagnostics),
        NvidiaQueryError::Failed(message) => inspection_failed(message.as_str(), diagnostics),
        NvidiaQueryError::Parse(message) => inspection_failed(message.as_str(), diagnostics),
    }
}

/// The diagnostic for selected indices that cannot be had.
pub open spec fn invalid_selection(indices: Seq<u32>) -> DiagnosticView {
    noted(
        plain_diagnostic(DiagnosticCode::InvalidGpuSelection, DiagnosticSeverity::Error),
        "indices"@,
        index_list(indices),
    )
}

fn report_invalid_selection(indices: &[u32]) -> (diagnostic: Diagnostic)
    ensures
        diagnostic.deep_view() == invalid_selection(indices@),
{
    Diagnostic::new(DiagnosticCode::InvalidGpuSelection, DiagnosticSeverity::Error).with_detail(
        "indices",
        list_indices(indices).as_str(),
    )
}

/// What is left of a detection without processors where some were asked for: a failure.
pub open spec fn with_requested(
    detection: NvidiaDetectionView,
    selection: Seq<u32>,
) -> NvidiaDetectionView {
    if selection.len() == 0 || detection.info.gpus.len() > 0 {
        detection
    } else {
        NvidiaDetectionView {
            info: NvidiaInfoView { status: NvidiaDetectionStatus::Failed, ..detection.info },
            diagnostics: detection.diagnostics.push(invalid_selection(selection)),
        }
    }
}

/// Makes a detection without processors a failure where some were asked for.
pub fn require_requested_gpus(
    info: NvidiaInfo,
    selection: &[u32],
    diagnostics: &mut Vec<Diagnostic>,
) -> (result: NvidiaInfo)
    ensures
        (NvidiaDetectionView {
            info: result.deep_view(),
            diagnostics: final(diagnostics).deep_view(),
        }) == with_requested(
            NvidiaDetectionView {
                info: info.deep_view(),
                diagnostics: old(diagnostics).deep_view(),
            },
            selection@,
        ),
{
    assert(info.gpus.deep_view().len() == info.gpus@.len());
    if selection.len() == 0 || info.gpus.len() > 0 {
        return info;
    }
    push_item(diagnostics, report_invalid_selection(selection));
    let mut failed = info;
    failed.status = NvidiaDetectionStatus::Failed;
    failed
}

/// What the query without compute capabilities yields.
pub open spec fn legacy_query(reply: Result<CapturedOutputView, CommandErrorView>) -> Result<
    Seq<NvidiaGpuView>,
    NvidiaQueryErrorView,
> {
    match reply {
        Err(error) => Err(NvidiaQueryErrorView::Command(error)),
        Ok(output) => if says_no_devices(combined(output)) || (output.status.success
            && output.stdout.len() == 0) {
            Err(NvidiaQueryErrorView::NoDevices)
        } else if !output.status.success {
            Err(NvidiaQueryErrorView::Failed(bounded_text(output.stderr, 512)))
        } else {
            match table_gpus(table_records(output.stdout), false) {
                Err(message) => Err(NvidiaQueryErrorView::Parse(message)),
                Ok(gpus) => if gpus.len() == 0 {
                    Err(NvidiaQueryErrorView::NoDevices)
                } else {
                    Ok(gpus)
                },
            }
        },
    }
}

/// The model of a reply: the output of the command, or why there is none.
pub open spec fn reply_view(reply: Result<CapturedOutput, CommandError>) -> Result<
    CapturedOutputView,
    CommandErrorView,
> {
    outcome(reply)
}

/// What the query without compute capabilities yields.
pub fn query_nvidia_legacy(reply: &Result<CapturedOutput, CommandError>) -> (result: Result<
    Vec<NvidiaGpu>,
    NvidiaQueryError,
>)
    ensures
        outcome(result) == legacy_query(reply_view(*reply)),
{
    match reply {
        Err(error) => Err(NvidiaQueryError::Command(clone_error(error))),
        Ok(output) => {
            let text = combined_output(output);
            if no_nvidia_devices(text.as_str()) || (output.status.success && output.stdout.len()
                == 0) {
                return Err(NvidiaQueryError::NoDevices);
            }
            if !output.status.success {
                return Err(
                    NvidiaQueryError::Failed(bounded_lossy(output.stderr.as_slice(), 512)),
                );
            }
            match parse_nvidia_csv(output.stdout.as_slice(), false) {
                Err(message) => Err(NvidiaQueryError::Parse(message)),
                Ok(gpus) => {
                    assert(gpus.deep_view().len() == gpus@.len());
                    if gpus.len() == 0 {
                        Err(NvidiaQueryError::NoDevices)
                    } else {
                        Ok(gpus)
                    }
                },
            }
        },
    }
}

fn clone_error(error: &CommandError) -> (copy: CommandError)
    ensures
        copy.deep_view() == error.deep_view(),
{
    match error {
        CommandError::Spawn { program, not_found, source } => CommandError::Spawn {
            program: program.clone(),
            not_found: *not_found,
            source: source.clone(),
        },
        CommandError::ReaderSpawn { program, stream, source } => CommandError::ReaderSpawn {
            program: program.clone(),
            stream: *stream,
            source: source.clone(),
        },
        CommandError::Wait { program, source } => CommandError::Wait {
            program: program.clone(),
            source: source.clone(),
        },
        CommandError::Read { program, stream, source } => CommandError::Read {
            program: program.clone(),
            stream: *stream,
            source: source.clone(),
        },
        CommandError::ReaderPanicked { program, stream } => CommandError::ReaderPanicked {
            program: program.clone(),
            stream: *stream,
        },
        CommandError::TimedOut { program, timeout } => CommandError::TimedOut {
            program: program.clone(),
            timeout: *timeout,
        },
        CommandError::OutputLimitExceeded { program, stream, limit } =>
            CommandError::OutputLimitExceeded {
            program: program.clone(),
            stream: *stream,
            limit: *limit,
        },
    }
}

/// What the queries have led to.
pub enum GpuQueryView {
    /// The processors, and whether the query without compute capabilities listed them.
    Found(Seq<NvidiaGpuView>, bool),
    /// That query is still to be made.
    AskLegacy,
    /// The processors could not be listed.
    Failed(QueryFailureView),
}

enum GpuQuery {
    Found(Vec<NvidiaGpu>, bool),
    AskLegacy,
    Failed(NvidiaQueryError),
}

/// What follows from the query without compute capabilities, where it has been made.
pub open spec fn legacy_outcome(
    legacy: Option<Result<CapturedOutputView, CommandErrorView>>,
) -> GpuQueryView {
    match legacy {
        None => GpuQueryView::AskLegacy,
        Some(reply) => match legacy_query(reply) {
            Ok(gpus) => GpuQueryView::Found(gpus, true),
            Err(error) => GpuQueryView::Failed(query_failure(error)),
        },
    }
}

/// What follows from the first query, and from the second where the first is of no use.
pub open spec fn query_outcome(
    primary: Result<CapturedOutputView, CommandErrorView>,
    legacy: Option<Result<CapturedOutputView, CommandErrorView>>,
) -> GpuQueryView {
    match primary {
        Err(error) => GpuQueryView::Failed(command_failure(error)),
        Ok(output) => if says_no_devices(combined(output)) {
            GpuQueryView::Failed(no_devices_failure())
        } else if output.status.success {
            match table_gpus(table_records(output.stdout), true) {
                Ok(gpus) => if gpus.len() > 0 {
                    GpuQueryView::Found(gpus, false)
                } else {
                    GpuQueryView::Failed(no_devices_failure())
                },
                Err(_) => legacy_outcome(legacy),
            }
        } else {
            legacy_outcome(legacy)
        },
    }
}

/// The model of a reply that may be missing.
pub open spec fn reply_option(reply: Option<Result<CapturedOutput, CommandError>>) -> Option<
    Result<CapturedOutputView, CommandErrorView>,
> {
    match reply {
        None => None,
        Some(known) => Some(reply_view(known)),
    }
}

spec fn query_view(query: GpuQuery) -> GpuQueryView {
    match query {
        GpuQuery::Found(gpus, legacy) => GpuQueryView::Found(gpus.deep_view(), legacy),
        GpuQuery::AskLegacy => GpuQueryView::AskLegacy,
        GpuQuery::Failed(error) => GpuQueryView::Failed(query_failure(error.deep_view())),
    }
}

fn after_legacy(legacy: &Option<Result<CapturedOutput, CommandError>>) -> (query: GpuQuery)
    ensures
        query_view(query) == legacy_outcome(reply_option(*legacy)),
{
    match legacy {
        None => GpuQuery::AskLegacy,
        Some(reply) => match query_nvidia_legacy(reply) {
            Ok(gpus) => GpuQuery::Found(gpus, true),
            Err(error) => GpuQuery::Failed(error),
        },
    }
}

fn after_queries(
    primary: &Result<CapturedOutput, CommandError>,
    legacy: &Option<Result<CapturedOutput, CommandError>>,
) -> (query: GpuQuery)
    ensures
        query_view(query) == query_outcome(reply_view(*primary), reply_option(*legacy)),
{
    match primary {
        Err(error) => GpuQuery::Failed(NvidiaQueryError::Command(clone_error(error))),
        Ok(output) => {
            let text = combined_output(output);
            if no_nvidia_devices(text.as_str()) {
                return GpuQuery::Failed(NvidiaQueryError::NoDevices);
            }
            if !output.status.success {
                return after_legacy(legacy);
            }
            match parse_nvidia_csv(output.stdout.as_slice(), true) {
                Ok(gpus) => {
                    assert(gpus.deep_view().len() == gpus@.len());
                    if gpus.len() > 0 {
                        GpuQuery::Found(gpus, false)
                    } else {
                        GpuQuery::Failed(NvidiaQueryError::NoDevices)
                    }
                },
                Err(_) => after_legacy(legacy),
            }
        },
    }
}

/// The indices of the processors whose compute capability is not known.
pub open spec fn unknown_capabilities(gpus: Seq<NvidiaGpuView>) -> Seq<u32>
    decreases gpus.len(),
{
    if gpus.len() == 0 {
        Seq::empty()
    } else {
        let rest = unknown_capabilities(gpus.drop_last());
        if gpus.last().compute_capability is None {
            rest.push(gpus.last().index)
        } else {
            rest
        }
    }
}

fn list_unknown(gpus: &Vec<NvidiaGpu>) -> (indices: Vec<u32>)
    ensures
        indices@ == unknown_capabilities(gpus.deep_view()),
{
    let ghost all = gpus.deep_view();
    let mut indices: Vec<u32> = Vec::new();
    let mut index: usize = 0;
    while index < gpus.len()
        invariant
            index <= gpus@.len(),
            all == gpus.deep_view(),
            indices@ == unknown_capabilities(all.take(index as int)),
        decreases gpus@.len() - index,
    {
        assert(all.take(index + 1).drop_last() =~= all.take(index as int));
        assert(all.take(index + 1).last() == gpus@[index as int].deep_view());
        if gpus[index].compute_capability.is_none() {
            indices.push(gpus[index].index);
        }
        index = index + 1;
    }
    assert(all.take(index as int) =~= all);
    indices
}

/// What is said of the capabilities of the processors.
pub open spec fn capability_notes(gpus: Seq<NvidiaGpuView>, legacy: bool) -> Seq<DiagnosticView> {
    let unknown = unknown_capabilities(gpus);
    if legacy || unknown.len() > 0 {
        seq![
            noted(
                plain_diagnostic(
                    DiagnosticCode::ComputeCapabilityUnknown,
                    DiagnosticSeverity::Warning,
                ),
                "indices"@,
                if unknown.len() == 0 {
                    "all"@
                } else {
                    index_list(unknown)
                },
            ),
        ]
    } else {
        Seq::empty()
    }
}

/// What is said of the driver versions of the processors.
pub open spec fn driver_notes(gpus: Seq<NvidiaGpuView>) -> Seq<DiagnosticView> {
    let versions = driver_versions(gpus);
    if versions.len() > 1 {
        seq![
            noted(
                plain_diagnostic(
                    DiagnosticCode::InconsistentDriverVersions,
                    DiagnosticSeverity::Warning,
                ),
                "versions"@,
                join(version_texts(versions), ","@),
            ),
        ]
    } else {
        Seq::empty()
    }
}

/// What is said of the list of visible devices.
pub open spec fn visibility_notes(visible: Option<Seq<char>>) -> Seq<DiagnosticView> {
    match visible {
        None => Seq::empty(),
        Some(value) => seq![
            noted(
                plain_diagnostic(
                    DiagnosticCode::CudaVisibleDevicesSet,
                    DiagnosticSeverity::Warning,
                ),
                "value"@,
                truncated(value, 256),
            ),
        ],
    }
}

/// What `nvidia-smi` is asked for.
#[derive(Debug, Clone, Copy, PartialEq, Eq, Structural)]
pub enum SmiQuery {
    /// A table of the processors.
    Table,
    /// A table without compute capabilities, which older drivers cannot tell.
    LegacyTable,
    /// The summary.
    Summary,
}

/// The arguments with which `nvidia-smi` is asked.
pub open spec fn smi_query_arguments(query: SmiQuery) -> Seq<Seq<char>> {
    match query {
        SmiQuery::Table => seq![
            "--query-gpu=index,uuid,name,driver_version,compute_cap"@,
            "--format=csv,noheader,nounits"@,
        ],
        SmiQuery::LegacyTable => seq![
            "--query-gpu=index,uuid,name,driver_version"@,
            "--format=csv,noheader,nounits"@,
        ],
        SmiQuery::Summary => Seq::empty(),
    }
}

/// The arguments with which `nvidia-smi` is asked.
pub fn smi_arguments(query: SmiQuery) -> (arguments: Vec<String>)
    ensures
        arguments.deep_view() == smi_query_arguments(query),
{
    let mut arguments: Vec<String> = Vec::new();
    assert(arguments.deep_view() =~= Seq::empty());
    match query {
        SmiQuery::Table => {
            push_item(
                &mut arguments,
                "--query-gpu=index,uuid,name,driver_version,compute_cap".to_owned(),
            );
            push_item(&mut arguments, "--format=csv,noheader,nounits".to_owned());
        },
        SmiQuery::LegacyTable => {
            push_item(&mut arguments, "--query-gpu=index,uuid,name,driver_version".to_owned());
            push_item(&mut arguments, "--format=csv,noheader,nounits".to_owned());
        },
        SmiQuery::Summary => {},
    }
    assert(arguments.deep_view() =~= smi_query_arguments(query));
    arguments
}

/// What the detection of processors does next.
#[derive(Debug, PartialEq, Eq)]
pub enum NvidiaStep {
    /// `nvidia-smi` is to be asked.
    Ask(SmiQuery),
    /// The detection is over.
    Done(NvidiaDetection),
}

/// The model of [`NvidiaStep`].
pub enum NvidiaStepView {
    Ask(SmiQuery),
    Done(NvidiaDetectionView),
}

impl DeepView for NvidiaStep {
    type V = NvidiaStepView;

    open spec fn deep_view(&self) -> NvidiaStepView {
        match self {
            NvidiaStep::Ask(query) => NvidiaStepView::Ask(*query),
            NvidiaStep::Done(detection) => NvidiaStepView::Done(detection.deep_view()),
        }
    }
}

/// The end of a detection that found no processor.
pub open spec fn detection_failed(
    notes: Seq<DiagnosticView>,
    failure: QueryFailureView,
    selection: Seq<u32>,
) -> NvidiaDetectionView {
    with_requested(
        NvidiaDetectionView {
            info: nothing_detected(failure.status),
            diagnostics: notes.push(failure.diagnostic),
        },
        selection,
    )
}

/// The CUDA version in the summary, where there is a summary.
pub open spec fn summary_cuda(reply: Result<CapturedOutputView, CommandErrorView>) -> Option<
    NumericVersionView,
> {
    match reply {
        Ok(output) if output.status.success => reported_cuda(lossy_text(output.stdout)),
        _ => None,
    }
}

/// The end of a detection that listed the visible processors.
pub open spec fn step_with_gpus(
    notes: Seq<DiagnosticView>,
    gpus: Seq<NvidiaGpuView>,
    legacy: bool,
    selection: Seq<u32>,
    summary: Option<Result<CapturedOutputView, CommandErrorView>>,
) -> NvidiaStepView {
    let missing = missing_indices(gpus, selection);
    let chosen = selected_gpus(gpus, selection);
    let versions = driver_versions(chosen);
    if missing.len() > 0 {
        NvidiaStepView::Done(
            NvidiaDetectionView {
                info: nothing_detected(NvidiaDetectionStatus::Failed),
                diagnostics: notes.push(invalid_selection(missing)),
            },
        )
    } else {
        match summary {
            None => NvidiaStepView::Ask(SmiQuery::Summary),
            Some(reply) => NvidiaStepView::Done(
                NvidiaDetectionView {
                    info: NvidiaInfoView {
                        status: NvidiaDetectionStatus::Detected,
                        driver_version: if versions.len() > 0 {
                            Some(versions[0])
                        } else {
                            None
                        },
                        reported_cuda_version: summary_cuda(reply),
                        gpus: chosen,
                    },
                    diagnostics: notes + capability_notes(chosen, legacy) + driver_notes(chosen),
                },
            ),
        }
    }
}

/// What the detection does after the replies it has: the table, the table without compute
/// capabilities where it was asked for, and the summary where it was asked for.
pub open spec fn step_after_table(
    visible: Option<Seq<char>>,
    selection: Seq<u32>,
    primary: Result<CapturedOutputView, CommandErrorView>,
    legacy: Option<Result<CapturedOutputView, CommandErrorView>>,
    summary: Option<Result<CapturedOutputView, CommandErrorView>>,
) -> NvidiaStepView {
    let notes = visibility_notes(visible);
    match query_outcome(primary, legacy) {
        GpuQueryView::AskLegacy => NvidiaStepView::Ask(SmiQuery::LegacyTable),
        GpuQueryView::Failed(failure) => NvidiaStepView::Done(
            detection_failed(notes, failure, selection),
        ),
        GpuQueryView::Found(gpus, by_legacy) => match visible {
            None => step_with_gpus(notes, gpus, by_legacy, selection, summary),
            Some(value) => match visible_gpus(gpus, value) {
                Err(message) => NvidiaStepView::Done(
                    NvidiaDetectionView {
                        info: nothing_detected(NvidiaDetectionStatus::Failed),
                        diagnostics: notes.push(
                            noted(
                                plain_diagnostic(
                                    DiagnosticCode::NvidiaInspectionFailed,
                                    DiagnosticSeverity::Error,
                                ),
                                "error"@,
                                truncated(message, 512),
                            ),
                        ),
                    },
                ),
                Ok(shown) => if shown.len() == 0 {
                    NvidiaStepView::Done(detection_failed(notes, no_devices_failure(), selection))
                } else {
                    step_with_gpus(notes, shown, by_legacy, selection, summary)
                },
            },
        },
    }
}

/// What the detection does after the replies it has: the table is asked for first.
pub open spec fn next_nvidia_step(
    visible: Option<Seq<char>>,
    selection: Seq<u32>,
    primary: Option<Result<CapturedOutputView, CommandErrorView>>,
    legacy: Option<Result<CapturedOutputView, CommandErrorView>>,
    summary: Option<Result<CapturedOutputView, CommandErrorView>>,
) -> NvidiaStepView {
    match primary {
        None => NvidiaStepView::Ask(SmiQuery::Table),
        Some(reply) => step_after_table(visible, selection, reply, legacy, summary),
    }
}

fn finish_failed(notes: Vec<Diagnostic>, error: &NvidiaQueryError, selection: &[u32]) -> (step:
    NvidiaStep)
    ensures
        step.deep_view() == NvidiaStepView::Done(
            detection_failed(notes.deep_view(), query_failure(error.deep_view()), selection@),
        ),
{
    let mut diagnostics = notes;
    let info = nvidia_query_failure(error, &mut diagnostics);
    let required = require_requested_gpus(info, selection, &mut diagnostics);
    NvidiaStep::Done(NvidiaDetection { info: required, diagnostics })
}

fn finish_with_gpus(
    notes: Vec<Diagnostic>,
    gpus: Vec<NvidiaGpu>,
    legacy: bool,
    selection: &[u32],
    summary: &Option<Result<CapturedOutput, CommandError>>,
) -> (step: NvidiaStep)
    ensures
        step.deep_view() == step_with_gpus(
            notes.deep_view(),
            gpus.deep_view(),
            legacy,
            selection@,
            reply_option(*summary),
        ),
{
    let mut diagnostics = notes;
    let ghost start = diagnostics.deep_view();
    let (chosen, missing) = select_gpus(gpus, selection);
    if missing.len() > 0 {
        push_item(&mut diagnostics, report_invalid_selection(missing.as_slice()));
        return NvidiaStep::Done(
            NvidiaDetection { info: empty_nvidia(NvidiaDetectionStatus::Failed), diagnostics },
        );
    }
    let reply = match summary {
        None => {
            return NvidiaStep::Ask(SmiQuery::Summary);
        },
        Some(reply) => reply,
    };
    let unknown = list_unknown(&chosen);
    if legacy || unknown.len() > 0 {
        let indices = if unknown.len() == 0 {
            "all".to_owned()
        } else {
            list_indices(unknown.as_slice())
        };
        push_item(
            &mut diagnostics,
            Diagnostic::new(
                DiagnosticCode::ComputeCapabilityUnknown,
                DiagnosticSeverity::Warning,
            ).with_detail("indices", indices.as_str()),
        );
    }
    assert(diagnostics.deep_view() =~= start + capability_notes(chosen.deep_view(), legacy));
    let ghost middle = diagnostics.deep_view();
    let mut versions = list_drivers(&chosen);
    assert(versions.deep_view().len() == versions@.len());
    if versions.len() > 1 {
        push_item(
            &mut diagnostics,
            Diagnostic::new(
                DiagnosticCode::InconsistentDriverVersions,
                DiagnosticSeverity::Warning,
            ).with_detail("versions", list_versions(&versions).as_str()),
        );
    }
    assert(diagnostics.deep_view() =~= middle + driver_notes(chosen.deep_view()));
    let driver_version = if versions.len() > 0 {
        assert(versions.deep_view()[0] == versions@[0].deep_view());
        Some(versions[0].clone())
    } else {
        None
    };
    let reported_cuda_version = match reply {
        Ok(output) => if output.status.success {
            parse_reported_cuda(decode_lossy(output.stdout.as_slice()).as_str())
        } else {
            None
        },
        Err(_) => None,
    };
    NvidiaStep::Done(
        NvidiaDetection {
            info: NvidiaInfo {
                status: NvidiaDetectionStatus::Detected,
                driver_version,
                reported_cuda_version,
                gpus: chosen,
            },
            diagnostics,
        },
    )
}

/// Decides what the detection of processors does after the replies it has. `visible` is the
/// value of `CUDA_VISIBLE_DEVICES`, where that is set.
pub fn detect_nvidia(
    visible: &Option<String>,
    selection: &[u32],
    primary: &Option<Result<CapturedOutput, CommandError>>,
    legacy: &Option<Result<CapturedOutput, CommandError>>,
    summary: &Option<Result<CapturedOutput, CommandError>>,
) -> (step: NvidiaStep)
    ensures
        step.deep_view() == next_nvidia_step(
            visible.deep_view(),
            selection@,
            reply_option(*primary),
            reply_option(*legacy),
            reply_option(*summary),
        ),
{
    let table = match primary {
        None => {
            return NvidiaStep::Ask(SmiQuery::Table);
        },
        Some(table) => table,
    };
    let mut notes: Vec<Diagnostic> = Vec::new();
    assert(notes.deep_view() =~= Seq::<DiagnosticView>::empty());
    if let Some(value) = visible {
        let note = Diagnostic::new(
            DiagnosticCode::CudaVisibleDevicesSet,
            DiagnosticSeverity::Warning,
        ).with_detail("value", truncate_string(value.as_str(), 256).as_str());
        push_item(&mut notes, note);
    }
    assert(notes.deep_view() =~= visibility_notes(visible.deep_view()));
    match after_queries(table, legacy) {
        GpuQuery::AskLegacy => NvidiaStep::Ask(SmiQuery::LegacyTable),
        GpuQuery::Failed(error) => finish_failed(notes, &error, selection),
        GpuQuery::Found(gpus, by_legacy) => match visible {
            None => finish_with_gpus(notes, gpus, by_legacy, selection, summary),
            Some(value) => match filter_cuda_visible_devices(gpus, value.as_str()) {
                Err(message) => {
                    push_item(
                        &mut notes,
                        Diagnostic::new(
                            DiagnosticCode::NvidiaInspectionFailed,
                            DiagnosticSeverity::Error,
                        ).with_detail("error", truncate_string(message.as_str(), 512).as_str()),
                    );
                    NvidiaStep::Done(
                        NvidiaDetection {
                            info: empty_nvidia(NvidiaDetectionStatus::Failed),
                            diagnostics: notes,
                        },
                    )
                },
                Ok(shown) => {
                    assert(shown.deep_view().len() == shown@.len());
                    if shown.len() == 0 {
                        finish_failed(notes, &NvidiaQueryError::NoDevices, selection)
                    } else {
                        finish_with_gpus(notes, shown, by_legacy, selection, summary)
                    }
                },
            },
        },
    }
}

/// Processors that were asked for are there, and no others, or the detection has failed.
pub proof fn requested_gpus_are_there_or_detection_fails(
    visible: Option<Seq<char>>,
    selection: Seq<u32>,
    primary: Option<Result<CapturedOutputView, CommandErrorView>>,
    legacy: Option<Result<CapturedOutputView, CommandErrorView>>,
    summary: Option<Result<CapturedOutputView, CommandErrorView>>,
    index: u32,
)
    requires
        selection.len() > 0,
    ensures
        next_nvidia_step(visible, selection, primary, legacy, summary) matches NvidiaStepView::Done(
            detection,
        ) ==> {
            ||| detection.info.status == NvidiaDetectionStatus::Failed
            ||| (has_index(detection.info.gpus, index) <==> selection.contains(index))
        },
{
    if let Some(table) = primary {
        match query_outcome(table, legacy) {
            GpuQueryView::Found(gpus, _) => {
                let shown = match visible {
                    None => Some(gpus),
                    Some(value) => match visible_gpus(gpus, value) {
                        Ok(shown) => Some(shown),
                        Err(_) => None,
                    },
                };
                if let Some(listed) = shown {
                    if missing_indices(listed, selection).len() == 0 {
                        complete_selection_is_exact(listed, selection, index);
                    }
                }
            },
            _ => {},
        }
    }
}

proof fn drivers_are_covered(gpus: Seq<NvidiaGpuView>, index: int)
    requires
        0 <= index < gpus.len(),
    ensures
        has_version(distinct_drivers(gpus), gpus[index].driver_version),
    decreases gpus.len(),
{
    let rest = distinct_drivers(gpus.drop_last());
    let last = gpus.last().driver_version;
    if index < gpus.len() - 1 {
        drivers_are_covered(gpus.drop_last(), index);
        if !has_version(rest, last) {
            let at = choose|i: int|
                0 <= i < rest.len() && version_equal(
                    (#[trigger] rest[i]).components,
                    gpus[index].driver_version.components,
                );
            assert(rest.push(last)[at] == rest[at]);
        }
    } else if !has_version(rest, last) {
        assert(rest.push(last)[rest.len() as int] == last);
        version_order_total(last.components, last.components);
    }
}

proof fn drivers_are_of_gpus(gpus: Seq<NvidiaGpuView>, index: int)
    requires
        0 <= index < distinct_drivers(gpus).len(),
    ensures
        exists|i: int|
            0 <= i < gpus.len() && (#[trigger] gpus[i]).driver_version == distinct_drivers(
                gpus,
            )[index],
    decreases gpus.len(),
{
    if gpus.len() > 0 {
        let head = gpus.drop_last();
        let rest = distinct_drivers(head);
        if index < rest.len() {
            drivers_are_of_gpus(head, index);
            let at = choose|i: int|
                0 <= i < head.len() && (#[trigger] head[i]).driver_version == rest[index];
            assert(gpus[at] == head[at]);
        } else {
            assert(gpus[gpus.len() - 1].driver_version == distinct_drivers(gpus)[index]);
        }
    }
}

proof fn version_after_is_an_order()
    ensures
        strict_weak_order(version_after()),
{
    let after = version_after();
    assert forall|a: NumericVersionView, b: NumericVersionView| #[trigger] after(
        a,
        b,
    ) implies !after(b, a) by {
        version_order_total(a.components, b.components);
    }
    assert forall|a: NumericVersionView, b: NumericVersionView, c: NumericVersionView|
        #![trigger after(a, b), after(b, c)]
        !after(a, b) && !after(b, c) implies !after(a, c) by {
        version_order_total(a.components, b.components);
        version_order_total(b.components, c.components);
        version_order_total(a.components, c.components);
        version_order_transitive(a.components, b.components, c.components);
    }
}

/// Whether `version` is the lowest driver version of the processors.
pub open spec fn lowest_driver(gpus: Seq<NvidiaGpuView>, version: NumericVersionView) -> bool {
    &&& exists|i: int| 0 <= i < gpus.len() && (#[trigger] gpus[i]).driver_version == version
    &&& forall|i: int|
        0 <= i < gpus.len() ==> !version_less(
            (#[trigger] gpus[i]).driver_version.components,
            version.components,
        )
}

proof fn first_driver_is_lowest(gpus: Seq<NvidiaGpuView>)
    requires
        gpus.len() > 0,
    ensures
        driver_versions(gpus).len() > 0,
        lowest_driver(gpus, driver_versions(gpus)[0]),
{
    broadcast use vstd::seq_lib::group_to_multiset_ensures;

    let drivers = distinct_drivers(gpus);
    let sorted = driver_versions(gpus);
    drivers_are_covered(gpus, 0);
    version_after_is_an_order();
    sort_keeps_items(drivers, version_after());
    sorted_is_ordered(drivers, version_after());
    assert(sorted.contains(sorted[0]));
    assert(sorted.to_multiset().count(sorted[0]) > 0);
    assert(drivers.to_multiset().count(sorted[0]) > 0);
    assert(drivers.contains(sorted[0]));
    drivers_are_of_gpus(gpus, choose|i: int| 0 <= i < drivers.len() && drivers[i] == sorted[0]);
    assert forall|i: int| 0 <= i < gpus.len() implies !version_less(
        (#[trigger] gpus[i]).driver_version.components,
        sorted[0].components,
    ) by {
        let version = gpus[i].driver_version;
        drivers_are_covered(gpus, i);
        let known = drivers[choose|k: int|
            0 <= k < drivers.len() && version_equal(
                (#[trigger] drivers[k]).components,
                version.components,
            )];
        assert(drivers.contains(known));
        assert(drivers.to_multiset().count(known) > 0);
        assert(sorted.to_multiset().count(known) > 0);
        assert(sorted.contains(known));
        let at = choose|k: int| 0 <= k < sorted.len() && sorted[k] == known;
        if at > 0 {
            assert(!version_after()(sorted[0], sorted[at]));
        }
        version_order_total(sorted[0].components, known.components);
        version_order_total(known.components, version.components);
        version_order_transitive(
            sorted[0].components,
            known.components,
            version.components,
        );
    }
}

/// Processors are detected exactly where there are some: a detection that says so lists at least
/// one and the lowest driver version among them, and any other lists none and no driver.
pub proof fn detected_means_processors_are_listed(
    visible: Option<Seq<char>>,
    selection: Seq<u32>,
    primary: Option<Result<CapturedOutputView, CommandErrorView>>,
    legacy: Option<Result<CapturedOutputView, CommandErrorView>>,
    summary: Option<Result<CapturedOutputView, CommandErrorView>>,
)
    ensures
        next_nvidia_step(visible, selection, primary, legacy, summary) matches NvidiaStepView::Done(
            detection,
        ) ==> if detection.info.status == NvidiaDetectionStatus::Detected {
            detection.info.gpus.len() > 0 && (detection.info.driver_version matches Some(driver)
                && lowest_driver(detection.info.gpus, driver))
        } else {
            detection.info.gpus.len() == 0 && detection.info.driver_version is None
        },
{
    if let Some(table) = primary {
        match query_outcome(table, legacy) {
            GpuQueryView::Found(gpus, _) => {
                let shown = match visible {
                    None => Some(gpus),
                    Some(value) => match visible_gpus(gpus, value) {
                        Ok(shown) => Some(shown),
                        Err(_) => None,
                    },
                };
                if let Some(listed) = shown {
                    if listed.len() > 0 && missing_indices(listed, selection).len() == 0 {
                        if selection.len() > 0 {
                            assert(selection.contains(selection[0]));
                            complete_selection_is_exact(listed, selection, selection[0]);
                        }
                        first_driver_is_lowest(selected_gpus(listed, selection));
                    }
                }
            },
            _ => {},
        }
    }
}

/// The summary of `nvidia-smi` decides nothing but the CUDA version that is reported.
pub proof fn summary_is_informational(
    visible: Option<Seq<char>>,
    selection: Seq<u32>,
    primary: Option<Result<CapturedOutputView, CommandErrorView>>,
    legacy: Option<Result<CapturedOutputView, CommandErrorView>>,
    first: Result<CapturedOutputView, CommandErrorView>,
    second: Result<CapturedOutputView, CommandErrorView>,
)
    ensures
        next_nvidia_step(visible, selection, primary, legacy, Some(first)) matches
            NvidiaStepView::Done(one) ==> (next_nvidia_step(
            visible,
            selection,
            primary,
            legacy,
            Some(second),
        ) matches NvidiaStepView::Done(two) && two.diagnostics == one.diagnostics && two.info.status
            == one.info.status && two.info.gpus == one.info.gpus && two.info.driver_version
            == one.info.driver_version),
{
}

} // verus!
