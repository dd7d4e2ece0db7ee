//! What is found out about processors is what `nvidia-smi` and the user say of them.

use crate::command::{combined, CapturedOutputView, CommandErrorView};
use crate::machine::{tells, told_alone, told_by_either};
use crate::model::{
    capability_round_trip, capability_text, ComputeCapability, DiagnosticCode, DiagnosticSeverity,
    DiagnosticView, NvidiaDetectionStatus, NvidiaGpuView,
};
use crate::nvidia::{
    capability_notes, detected_means_processors_are_listed, distinct_drivers, driver_notes,
    driver_versions, gpu_with_index, gpus_by_uuid, gpus_named, gpus_with_indices, has_index,
    has_version, index_after, missing_indices, next_nvidia_step, ordinals, record_gpu, records_gpus,
    selected_gpus, table_gpus, unknown_capabilities, uuid_begins, version_after, visibility_notes,
    visible_gpus, visible_tokens, NvidiaStepView, SmiQuery,
};
use crate::order::{
    distinct, distinct_members, kept, kept_members, sort_keeps_items, sorted_is_ordered,
    strict_weak_order,
};
use crate::outside::{table_records, TableRecordView};
use crate::pieces::{join, occurs, split_on, trimmed};
use crate::text::{decimal, decimal_round_trip, digit, lowercase, unsigned, whitespace};
use crate::version::{
    component_at, component_texts, version_equal, version_less, version_round_trip,
    NumericVersionView,
};
use vstd::prelude::*;

verus! {

/// Whether a text stands for a value in a table: there is one, no white space is around it, and it
/// is none of the texts that stand for a missing value.
pub open spec fn plain_value(text: Seq<char>) -> bool {
    text.len() > 0 && !whitespace(text[0]) && !whitespace(text.last()) && lowercase(text)
        != "n/a"@ && lowercase(text) != "not supported"@ && text != "[N/A]"@
}

proof fn digits_are_plain(text: Seq<char>)
    requires
        text.len() > 0,
        digit(text[0]),
        !whitespace(text.last()),
    ensures
        plain_value(text),
        trimmed(text) == text,
{
    reveal_strlit("n/a");
    reveal_strlit("not supported");
    reveal_strlit("[N/A]");
    assert(lowercase(text)[0] == text[0]);
    assert("n/a"@[0] == 'n' && "not supported"@[0] == 'n' && "[N/A]"@[0] == '[');
}

proof fn version_text_is_plain(components: Seq<u32>)
    requires
        components.len() > 0,
    ensures
        ({
            let text = join(component_texts(components), "."@);
            trimmed(text) == text
        }),
{
    version_round_trip(components);
    crate::version::version_text_is_kept(join(component_texts(components), "."@));
}

/// A record of the table is read field by field: the index, the identifier, the name, the driver
/// version and the compute capability.
pub proof fn records_are_read_back(
    index: u32,
    uuid: Seq<char>,
    name: Seq<char>,
    driver: Seq<u32>,
    capability: ComputeCapability,
    earlier: Seq<NvidiaGpuView>,
)
    requires
        plain_value(uuid),
        plain_value(name),
        driver.len() > 0,
        forall|i: int| 0 <= i < earlier.len() ==> (#[trigger] earlier[i]).index != index,
    ensures
        ({
            let version = join(component_texts(driver), "."@);
            let level = decimal(capability.major as nat) + "."@ + decimal(
                capability.minor as nat,
            );
            &&& record_gpu(
                seq![decimal(index as nat), uuid, name, version, level],
                true,
                earlier,
            ) matches Ok(gpu) && gpu.index == index && gpu.uuid == Some(uuid) && gpu.name == name
                && gpu.driver_version.components == driver && gpu.driver_version.text == version
                && gpu.compute_capability == Some(capability)
            &&& record_gpu(
                seq![decimal(index as nat), uuid, name, version],
                false,
                earlier,
            ) matches Ok(gpu) && gpu.index == index && gpu.uuid == Some(uuid) && gpu.name == name
                && gpu.driver_version.components == driver && gpu.compute_capability is None
            &&& record_gpu(
                seq![decimal(index as nat), "[N/A]"@, name, version, "[N/A]"@],
                true,
                earlier,
            ) matches Ok(gpu) && gpu.uuid is None && gpu.compute_capability is None
        }),
{
    let version = join(component_texts(driver), "."@);
    let level = decimal(capability.major as nat) + "."@ + decimal(capability.minor as nat);
    decimal_round_trip(index as nat);
    decimal_round_trip(capability.major as nat);
    decimal_round_trip(capability.minor as nat);
    assert(digit(decimal(index as nat)[0]));
    assert(unsigned(decimal(index as nat), u32::MAX as nat) == Some(index as nat));
    version_round_trip(driver);
    version_text_is_plain(driver);
    capability_round_trip(capability);
    assert(level == capability_text(capability));
    let minor = decimal(capability.minor as nat);
    assert(digit(decimal(capability.major as nat)[0]));
    assert(level[0] == decimal(capability.major as nat)[0]);
    assert(digit(minor[minor.len() - 1]));
    assert(level.last() == minor[minor.len() - 1]);
    digits_are_plain(level);
    assert(trimmed(uuid) == uuid);
    assert(trimmed(name) == name);
    reveal_strlit("[N/A]");
    let missing = "[N/A]"@;
    assert(missing[0] == '[' && missing.last() == ']');
    assert(!whitespace('[') && !whitespace(']'));
    assert(trimmed(missing) == missing);
    assert(!has_index(earlier, index));
}

proof fn records_make_processors(records: Seq<TableRecordView>, with_capability: bool)
    ensures
        records_gpus(records, with_capability) matches Ok(gpus) ==> gpus.len() == records.len()
            && forall|i: int|
            0 <= i < records.len() ==> (#[trigger] records[i] matches TableRecordView::Fields(fields)
                && record_gpu(fields, with_capability, gpus.take(i)) == Ok::<
                NvidiaGpuView,
                Seq<char>,
            >(gpus[i])),
    decreases records.len(),
{
    if records.len() > 0 {
        let head = records.drop_last();
        records_make_processors(head, with_capability);
        if let Ok(gpus) = records_gpus(records, with_capability) {
            let earlier = records_gpus(head, with_capability)->Ok_0;
            assert(gpus.drop_last() =~= earlier);
            assert forall|i: int| 0 <= i < records.len() implies (
            #[trigger] records[i] matches TableRecordView::Fields(fields) && record_gpu(
                fields,
                with_capability,
                gpus.take(i),
            ) == Ok::<NvidiaGpuView, Seq<char>>(gpus[i])) by {
                if i < head.len() {
                    assert(head[i] == records[i]);
                    assert(earlier.take(i) =~= gpus.take(i));
                } else {
                    assert(gpus.take(i) =~= earlier);
                }
            }
        }
    }
}

proof fn indices_are_ordered()
    ensures
        strict_weak_order(index_after()),
{
    let after = index_after();
    assert forall|a: NvidiaGpuView, b: NvidiaGpuView| #[trigger] after(a, b) implies !after(
        b,
        a,
    ) by {}
    assert forall|a: NvidiaGpuView, b: NvidiaGpuView, c: NvidiaGpuView|
        #![trigger after(a, b), after(b, c)]
        !after(a, b) && !after(b, c) implies !after(a, c) by {}
}

/// A table lists as many processors as it has records, one for each, by ascending index.
pub proof fn tables_list_every_record(records: Seq<TableRecordView>, with_capability: bool)
    ensures
        table_gpus(records, with_capability) matches Ok(gpus) ==> {
            &&& gpus.len() == records.len()
            &&& forall|i: int, j: int| #![trigger gpus[i], gpus[j]]
                0 <= i < j < gpus.len() ==> gpus[i].index <= gpus[j].index
            &&& forall|i: int|
                0 <= i < records.len() ==> (#[trigger] records[i] matches TableRecordView::Fields(
                    fields,
                ) && exists|k: int|
                    0 <= k < gpus.len() && record_gpu(
                        fields,
                        with_capability,
                        (records_gpus(records, with_capability)->Ok_0).take(i),
                    ) == Ok::<NvidiaGpuView, Seq<char>>(#[trigger] gpus[k]))
        },
{
    broadcast use vstd::seq_lib::group_to_multiset_ensures;

    if let Ok(gpus) = table_gpus(records, with_capability) {
        let found = records_gpus(records, with_capability)->Ok_0;
        records_make_processors(records, with_capability);
        indices_are_ordered();
        sort_keeps_items(found, index_after());
        sorted_is_ordered(found, index_after());
        assert forall|i: int, j: int| #![trigger gpus[i], gpus[j]]
            0 <= i < j < gpus.len() implies gpus[i].index <= gpus[j].index by {
            assert(!index_after()(gpus[i], gpus[j]));
        }
        assert forall|i: int| 0 <= i < records.len() implies (
        #[trigger] records[i] matches TableRecordView::Fields(fields) && exists|k: int|
            0 <= k < gpus.len() && record_gpu(fields, with_capability, found.take(i)) == Ok::<
                NvidiaGpuView,
                Seq<char>,
            >(#[trigger] gpus[k])) by {
            assert(found.contains(found[i]));
            assert(found.to_multiset().count(found[i]) > 0);
            assert(gpus.to_multiset().count(found[i]) > 0);
            assert(gpus.contains(found[i]));
            let k = choose|k: int| 0 <= k < gpus.len() && gpus[k] == found[i];
            assert(gpus[k] == found[i]);
        }
    }
}

// ---------------------------------------------------------------------------
// Selection

proof fn index_is_found(gpus: Seq<NvidiaGpuView>, index: u32)
    ensures
        gpu_with_index(gpus, index) matches Some(gpu) ==> gpu.index == index && gpus.contains(gpu),
        gpu_with_index(gpus, index) is None <==> forall|i: int|
            0 <= i < gpus.len() ==> (#[trigger] gpus[i]).index != index,
    decreases gpus.len(),
{
    if gpus.len() > 0 {
        let head = gpus.drop_last();
        index_is_found(head, index);
        assert(gpus[gpus.len() - 1] == gpus.last());
        if gpus.last().index != index {
            if let Some(gpu) = gpu_with_index(head, index) {
                let k = choose|k: int| 0 <= k < head.len() && head[k] == gpu;
                assert(gpus[k] == gpu);
            } else {
                assert forall|i: int| 0 <= i < gpus.len() implies (#[trigger] gpus[i]).index
                    != index by {
                    if i < head.len() {
                        assert(head[i] == gpus[i]);
                    }
                }
            }
        }
    }
}

proof fn found_are_given(gpus: Seq<NvidiaGpuView>, indices: Seq<u32>, gpu: NvidiaGpuView)
    requires
        gpus_with_indices(gpus, indices).contains(gpu),
    ensures
        gpus.contains(gpu) && indices.contains(gpu.index),
    decreases indices.len(),
{
    if indices.len() > 0 {
        let head = indices.drop_last();
        let rest = gpus_with_indices(gpus, head);
        let all = gpus_with_indices(gpus, indices);
        index_is_found(gpus, indices.last());
        let k = choose|k: int| 0 <= k < all.len() && all[k] == gpu;
        if k < rest.len() {
            assert(rest[k] == gpu);
            found_are_given(gpus, head, gpu);
            let m = choose|m: int| 0 <= m < head.len() && head[m] == gpu.index;
            assert(indices[m] == gpu.index);
        } else {
            assert(indices[indices.len() - 1] == gpu.index);
        }
    }
}

/// A selection takes processors as they are: those that it names, by ascending index, and all where
/// it names none. What it names and no processor has is missing.
pub proof fn selection_takes_what_it_names(
    gpus: Seq<NvidiaGpuView>,
    selection: Seq<u32>,
    gpu: NvidiaGpuView,
    index: u32,
)
    ensures
        selection.len() == 0 ==> selected_gpus(gpus, selection) == gpus,
        selected_gpus(gpus, selection).contains(gpu) ==> gpus.contains(gpu) && (selection.len() == 0
            || selection.contains(gpu.index)),
        selection.len() > 0 ==> forall|i: int, j: int|
            #![trigger selected_gpus(gpus, selection)[i], selected_gpus(gpus, selection)[j]]
            0 <= i < j < selected_gpus(gpus, selection).len() ==> selected_gpus(
                gpus,
                selection,
            )[i].index <= selected_gpus(gpus, selection)[j].index,
        missing_indices(gpus, selection).contains(index) <==> selection.contains(index)
            && forall|i: int| 0 <= i < gpus.len() ==> (#[trigger] gpus[i]).index != index,
{
    broadcast use vstd::seq_lib::group_to_multiset_ensures;

    let absent = |index: u32| gpu_with_index(gpus, index) is None;
    distinct_members(selection);
    kept_members(distinct(selection), absent, index);
    index_is_found(gpus, index);
    assert(distinct(selection).contains(index) <==> selection.contains(index));
    if selection.len() > 0 {
        let found = gpus_with_indices(gpus, distinct(selection));
        let sorted = selected_gpus(gpus, selection);
        indices_are_ordered();
        sort_keeps_items(found, index_after());
        sorted_is_ordered(found, index_after());
        if sorted.contains(gpu) {
            assert(sorted.to_multiset().count(gpu) > 0);
            assert(found.to_multiset().count(gpu) > 0);
            found_are_given(gpus, distinct(selection), gpu);
            assert(distinct(selection).contains(gpu.index));
        }
        assert forall|i: int, j: int| #![trigger sorted[i], sorted[j]]
            0 <= i < j < sorted.len() implies sorted[i].index <= sorted[j].index by {
            assert(!index_after()(sorted[i], sorted[j]));
        }
    }
}

// ---------------------------------------------------------------------------
// Visibility

proof fn named_processors_are_given(
    gpus: Seq<NvidiaGpuView>,
    tokens: Seq<Seq<char>>,
)
    ensures
        gpus_by_uuid(gpus, tokens) matches Ok(shown) ==> shown.len() == tokens.len() && forall|i:
            int|
            0 <= i < tokens.len() ==> gpus.contains(#[trigger] shown[i]) && (
            shown[i].uuid matches Some(uuid) && tokens[i].is_prefix_of(uuid))
                && !"MIG-"@.is_prefix_of(tokens[i]) && forall|k: int|
                0 <= k < gpus.len() && ((#[trigger] gpus[k]).uuid matches Some(uuid)
                    && tokens[i].is_prefix_of(uuid)) ==> gpus[k] == shown[i],
        gpus_by_uuid(gpus, tokens) matches Ok(shown) ==> forall|i: int, j: int|
            #![trigger shown[i], shown[j]]
            0 <= i < j < shown.len() ==> shown[i].index != shown[j].index,
    decreases tokens.len(),
{
    if tokens.len() > 0 {
        let head = tokens.drop_last();
        let token = tokens[tokens.len() - 1];
        named_processors_are_given(gpus, head);
        if let Ok(shown) = gpus_by_uuid(gpus, tokens) {
            let earlier = gpus_by_uuid(gpus, head)->Ok_0;
            let keep = |gpu: NvidiaGpuView| uuid_begins(gpu, token);
            let named = gpus_named(gpus, token);
            assert(shown =~= earlier.push(named[0]));
            kept_members(gpus, keep, named[0]);
            assert(named.contains(named[0]));
            assert(keep(named[0]));
            assert forall|i: int| 0 <= i < tokens.len() implies gpus.contains(#[trigger] shown[i])
                && (shown[i].uuid matches Some(uuid) && tokens[i].is_prefix_of(uuid))
                && !"MIG-"@.is_prefix_of(tokens[i]) && forall|k: int|
                0 <= k < gpus.len() && ((#[trigger] gpus[k]).uuid matches Some(uuid)
                    && tokens[i].is_prefix_of(uuid)) ==> gpus[k] == shown[i] by {
                if i < head.len() {
                    assert(shown[i] == earlier[i]);
                    assert(head[i] == tokens[i]);
                } else {
                    assert forall|k: int|
                        0 <= k < gpus.len() && ((#[trigger] gpus[k]).uuid matches Some(uuid)
                            && tokens[i].is_prefix_of(uuid)) implies gpus[k] == shown[i] by {
                        kept_members(gpus, keep, gpus[k]);
                        assert(gpus.contains(gpus[k]) && keep(gpus[k]));
                        let m = choose|m: int| 0 <= m < named.len() && named[m] == gpus[k];
                        assert(m == 0);
                    }
                }
            }
            assert forall|i: int, j: int| #![trigger shown[i], shown[j]]
                0 <= i < j < shown.len() implies shown[i].index != shown[j].index by {
                assert(shown[i] == earlier[i]);
                if j < earlier.len() {
                    assert(shown[j] == earlier[j]);
                } else {
                    assert(!has_index(earlier, named[0].index));
                }
            }
        }
    }
}

/// What a list of visible devices leaves visible are processors that are there. An empty list and
/// `-1` leave none. A list of ordinals is accepted only where it names every device once, and leaves
/// all of them; any other list names processors by the beginning of their identifiers, each of
/// which is the only one that begins so, in the order of the list and none twice.
pub proof fn visible_devices_are_those_named(gpus: Seq<NvidiaGpuView>, value: Seq<char>)
    ensures
        ({
            let tokens = visible_tokens(value);
            visible_gpus(gpus, value) matches Ok(shown) ==> {
                &&& forall|i: int| 0 <= i < shown.len() ==> gpus.contains(#[trigger] shown[i])
                &&& tokens.len() == 0 || tokens == seq!["-1"@] ==> shown.len() == 0
                &&& tokens.len() > 0 && tokens != seq!["-1"@] ==> (match ordinals(tokens) {
                    Some(numbers) => shown == gpus && numbers.no_duplicates() && numbers.len()
                        == gpus.len() && forall|i: int|
                        0 <= i < numbers.len() ==> (#[trigger] numbers[i]) < gpus.len(),
                    None => shown.len() == tokens.len() && forall|i: int|
                        0 <= i < tokens.len() ==> ((#[trigger] shown[i]).uuid matches Some(uuid)
                            && tokens[i].is_prefix_of(uuid)) && forall|k: int|
                            0 <= k < gpus.len() && ((#[trigger] gpus[k]).uuid matches Some(uuid)
                                && tokens[i].is_prefix_of(uuid)) ==> gpus[k] == shown[i],
                })
            }
        }),
{
    let tokens = visible_tokens(value);
    if let Ok(shown) = visible_gpus(gpus, value) {
        if tokens.len() > 0 && tokens != seq!["-1"@] {
            match ordinals(tokens) {
                Some(numbers) => {
                    assert forall|i: int| 0 <= i < shown.len() implies gpus.contains(
                        #[trigger] shown[i],
                    ) by {}
                    if gpus.len() == 1 && numbers == seq![0u32] {
                        assert(numbers.len() == 1 && numbers[0] == 0);
                    }
                },
                None => {
                    named_processors_are_given(gpus, tokens);
                },
            }
        }
    }
}

/// The identifiers in a list of visible devices are its parts between commas, without white space
/// around them.
pub proof fn tokens_are_the_parts_of_the_list(tokens: Seq<Seq<char>>)
    requires
        tokens.len() > 0,
        forall|i: int|
            0 <= i < tokens.len() ==> (#[trigger] tokens[i]).len() > 0 && !tokens[i].contains(',')
                && !whitespace(tokens[i][0]) && !whitespace(tokens[i].last()),
    ensures
        visible_tokens(join(tokens, ","@)) == tokens,
{
    reveal_strlit(",");
    assert(","@ =~= seq![',']);
    crate::pieces::join_split_round_trip(tokens, ',');
    let trimmed_parts = split_on(join(tokens, ","@), ',').map_values(
        |token: Seq<char>| trimmed(token),
    );
    assert forall|i: int| 0 <= i < tokens.len() implies #[trigger] trimmed_parts[i]
        == tokens[i] by {
        assert(trimmed(tokens[i]) == tokens[i]);
    }
    assert(trimmed_parts =~= tokens);
    all_are_kept(tokens, |token: Seq<char>| token.len() > 0);
}

proof fn all_are_kept(tokens: Seq<Seq<char>>, keep: spec_fn(Seq<char>) -> bool)
    requires
        forall|i: int| 0 <= i < tokens.len() ==> keep(#[trigger] tokens[i]),
    ensures
        kept(tokens, keep) == tokens,
    decreases tokens.len(),
{
    if tokens.len() > 0 {
        let head = tokens.drop_last();
        assert forall|i: int| 0 <= i < head.len() implies keep(#[trigger] head[i]) by {
            assert(head[i] == tokens[i]);
        }
        all_are_kept(head, keep);
        assert(keep(tokens[tokens.len() - 1]));
        assert(head.push(tokens.last()) =~= tokens);
    }
}

/// A token is an ordinal exactly where it writes a number.
pub proof fn ordinals_are_numbers(numbers: Seq<u32>)
    ensures
        ordinals(numbers.map_values(|number: u32| decimal(number as nat))) == Some(numbers),
    decreases numbers.len(),
{
    let tokens = numbers.map_values(|number: u32| decimal(number as nat));
    if numbers.len() > 0 {
        let head = numbers.drop_last();
        ordinals_are_numbers(head);
        assert(tokens.drop_last() =~= head.map_values(|number: u32| decimal(number as nat)));
        decimal_round_trip(numbers.last() as nat);
        assert(digit(decimal(numbers.last() as nat)[0]));
        assert(unsigned(tokens.last(), u32::MAX as nat) == Some(numbers.last() as nat));
        assert(head.push(numbers.last()) =~= numbers);
    } else {
        assert(numbers =~= Seq::<u32>::empty());
    }
}

// ---------------------------------------------------------------------------
// Detection

/// What a detection that found processors reports: those of the table that are visible and selected,
/// none that is not in the table, and the driver version of one of them that none of them is below.
pub proof fn detection_reports_the_table(
    visible: Option<Seq<char>>,
    selection: Seq<u32>,
    table: CapturedOutputView,
    legacy: Option<Result<CapturedOutputView, CommandErrorView>>,
    summary: Option<Result<CapturedOutputView, CommandErrorView>>,
    gpu: NvidiaGpuView,
)
    requires
        table.status.success,
    ensures
        next_nvidia_step(visible, selection, Some(Ok(table)), legacy, summary) matches
            NvidiaStepView::Done(detection) ==> (detection.info.status
            == NvidiaDetectionStatus::Detected ==> (table_gpus(
            table_records(table.stdout),
            true,
        ) matches Ok(gpus) ==> {
            &&& detection.info.gpus.contains(gpu) ==> gpus.contains(gpu) && (selection.len() == 0
                || selection.contains(gpu.index))
            &&& visible is None && selection.len() == 0 ==> detection.info.gpus == gpus
            &&& detection.info.driver_version matches Some(driver) && (exists|i: int|
                0 <= i < detection.info.gpus.len() && (
                #[trigger] detection.info.gpus[i]).driver_version == driver) && forall|i: int|
                0 <= i < detection.info.gpus.len() ==> !version_less(
                    (#[trigger] detection.info.gpus[i]).driver_version.components,
                    driver.components,
                )
        })),
{
    detected_means_processors_are_listed(visible, selection, Some(Ok(table)), legacy, summary);
    if let Ok(gpus) = table_gpus(table_records(table.stdout), true) {
        match visible {
            None => {
                selection_takes_what_it_names(gpus, selection, gpu, 0);
            },
            Some(value) => {
                visible_devices_are_those_named(gpus, value);
                if let Ok(shown) = visible_gpus(gpus, value) {
                    selection_takes_what_it_names(shown, selection, gpu, 0);
                    if shown.contains(gpu) {
                        let k = choose|k: int| 0 <= k < shown.len() && shown[k] == gpu;
                        assert(gpus.contains(shown[k]));
                    }
                }
            },
        }
    }
}

/// What is said where nothing can be detected and no processor was asked for: without the tool it is
/// unavailable, where it took too long it timed out, and where it says that there are no devices
/// there are none. The table is asked for first.
pub proof fn failures_say_what_happened(
    visible: Option<Seq<char>>,
    primary: Result<CapturedOutputView, CommandErrorView>,
    legacy: Option<Result<CapturedOutputView, CommandErrorView>>,
    summary: Option<Result<CapturedOutputView, CommandErrorView>>,
)
    ensures
        (primary matches Err(error) && (error matches CommandErrorView::Spawn { not_found, .. }
            && not_found)) ==> (next_nvidia_step(
            visible,
            Seq::empty(),
            Some(primary),
            legacy,
            summary,
        ) matches NvidiaStepView::Done(detection) && detection.info.status
            == NvidiaDetectionStatus::CommandUnavailable && detection.info.gpus.len() == 0),
        (primary matches Err(error) && error is TimedOut) ==> (next_nvidia_step(
            visible,
            Seq::empty(),
            Some(primary),
            legacy,
            summary,
        ) matches NvidiaStepView::Done(detection) && detection.info.status
            == NvidiaDetectionStatus::TimedOut && detection.info.gpus.len() == 0),
        (primary matches Ok(output) && occurs(
            lowercase(combined(output)),
            "no devices were found"@,
        )) ==> (next_nvidia_step(
            visible,
            Seq::empty(),
            Some(primary),
            legacy,
            summary,
        ) matches NvidiaStepView::Done(detection) && detection.info.status
            == NvidiaDetectionStatus::NoDevices && detection.info.gpus.len() == 0),
        next_nvidia_step(visible, Seq::empty(), None, legacy, summary) == NvidiaStepView::Ask(
            SmiQuery::Table,
        ),
{
}

// ---------------------------------------------------------------------------
// Warnings

proof fn unknown_capabilities_are_found(gpus: Seq<NvidiaGpuView>)
    ensures
        unknown_capabilities(gpus).len() > 0 <==> exists|i: int|
            0 <= i < gpus.len() && (#[trigger] gpus[i]).compute_capability is None,
    decreases gpus.len(),
{
    if gpus.len() > 0 {
        let head = gpus.drop_last();
        unknown_capabilities_are_found(head);
        assert(gpus.last() == gpus[gpus.len() - 1]);
        if exists|i: int| 0 <= i < head.len() && (#[trigger] head[i]).compute_capability is None {
            let i = choose|i: int|
                0 <= i < head.len() && (#[trigger] head[i]).compute_capability is None;
            assert(gpus[i].compute_capability is None);
        }
        if exists|i: int| 0 <= i < gpus.len() && (#[trigger] gpus[i]).compute_capability is None {
            let i = choose|i: int|
                0 <= i < gpus.len() && (#[trigger] gpus[i]).compute_capability is None;
            if i < head.len() {
                assert(head[i].compute_capability is None);
            }
        }
    }
}

proof fn every_driver_is_counted(gpus: Seq<NvidiaGpuView>, place: int)
    requires
        0 <= place < gpus.len(),
    ensures
        has_version(distinct_drivers(gpus), gpus[place].driver_version),
    decreases gpus.len(),
{
    let head = gpus.drop_last();
    let rest = distinct_drivers(head);
    let all = distinct_drivers(gpus);
    if place < head.len() {
        every_driver_is_counted(head, place);
        let i = choose|i: int|
            0 <= i < rest.len() && version_equal(
                (#[trigger] rest[i]).components,
                gpus[place].driver_version.components,
            );
        assert(all[i] == rest[i]);
    } else if !has_version(rest, gpus.last().driver_version) {
        assert(all[rest.len() as int] == gpus[place].driver_version);
    }
}

proof fn equal_drivers_are_one(gpus: Seq<NvidiaGpuView>)
    requires
        gpus.len() > 0,
        forall|i: int|
            0 <= i < gpus.len() ==> version_equal(
                gpus[0].driver_version.components,
                (#[trigger] gpus[i]).driver_version.components,
            ),
    ensures
        distinct_drivers(gpus) == seq![gpus[0].driver_version],
    decreases gpus.len(),
{
    let head = gpus.drop_last();
    if head.len() > 0 {
        assert forall|i: int| 0 <= i < head.len() implies version_equal(
            head[0].driver_version.components,
            (#[trigger] head[i]).driver_version.components,
        ) by {
            assert(head[i] == gpus[i]);
        }
        equal_drivers_are_one(head);
        let rest = distinct_drivers(head);
        assert(version_equal(
            gpus[0].driver_version.components,
            gpus[gpus.len() - 1].driver_version.components,
        ));
        assert(rest[0] == gpus[0].driver_version);
        assert(has_version(rest, gpus.last().driver_version));
    } else {
        assert(distinct_drivers(head) == Seq::<NumericVersionView>::empty());
        assert(distinct_drivers(gpus) =~= seq![gpus[0].driver_version]);
    }
}

proof fn different_drivers_are_several(gpus: Seq<NvidiaGpuView>)
    ensures
        driver_versions(gpus).len() > 1 <==> exists|i: int, j: int|
            0 <= i < gpus.len() && 0 <= j < gpus.len() && !version_equal(
                (#[trigger] gpus[i]).driver_version.components,
                (#[trigger] gpus[j]).driver_version.components,
            ),
{
    broadcast use vstd::seq_lib::group_to_multiset_ensures;

    sort_keeps_items(distinct_drivers(gpus), version_after());
    assert(driver_versions(gpus).len() == distinct_drivers(gpus).len());
    if gpus.len() > 0 && forall|i: int, j: int|
        0 <= i < gpus.len() && 0 <= j < gpus.len() ==> version_equal(
            (#[trigger] gpus[i]).driver_version.components,
            (#[trigger] gpus[j]).driver_version.components,
        ) {
        assert forall|i: int| 0 <= i < gpus.len() implies version_equal(
            gpus[0].driver_version.components,
            (#[trigger] gpus[i]).driver_version.components,
        ) by {
            assert(gpus[0] == gpus[0]);
        }
        equal_drivers_are_one(gpus);
    }
    if distinct_drivers(gpus).len() <= 1 {
        assert forall|i: int, j: int|
            0 <= i < gpus.len() && 0 <= j < gpus.len() implies version_equal(
            (#[trigger] gpus[i]).driver_version.components,
            (#[trigger] gpus[j]).driver_version.components,
        ) by {
            every_driver_is_counted(gpus, i);
            every_driver_is_counted(gpus, j);
            let only = distinct_drivers(gpus)[0].components;
            let one = gpus[i].driver_version.components;
            let other = gpus[j].driver_version.components;
            assert(version_equal(only, one) && version_equal(only, other));
            assert forall|k: int| 0 <= k implies #[trigger] component_at(one, k) == component_at(
                other,
                k,
            ) by {
                assert(component_at(only, k) == component_at(one, k));
                assert(component_at(only, k) == component_at(other, k));
            }
        }
    }
}

/// A detection warns of processors whose capability is not known, of drivers that differ, and of a
/// list of visible devices, each exactly where there is something to warn of; and it repeats the
/// version of CUDA that the tool names, where that could be asked.
pub proof fn detections_warn_of_what_they_found(
    visible: Option<Seq<char>>,
    selection: Seq<u32>,
    primary: Result<CapturedOutputView, CommandErrorView>,
    legacy: Option<Result<CapturedOutputView, CommandErrorView>>,
    summary: Result<CapturedOutputView, CommandErrorView>,
)
    ensures
        next_nvidia_step(visible, selection, Some(primary), legacy, Some(summary)) matches
            NvidiaStepView::Done(detection) ==> (detection.info.status
            == NvidiaDetectionStatus::Detected ==> {
            let gpus = detection.info.gpus;
            &&& tells(
                detection.diagnostics,
                DiagnosticCode::InconsistentDriverVersions,
                DiagnosticSeverity::Warning,
            ) <==> exists|i: int, j: int|
                0 <= i < gpus.len() && 0 <= j < gpus.len() && !version_equal(
                    (#[trigger] gpus[i]).driver_version.components,
                    (#[trigger] gpus[j]).driver_version.components,
                )
            &&& (exists|i: int|
                0 <= i < gpus.len() && (#[trigger] gpus[i]).compute_capability is None) ==> tells(
                detection.diagnostics,
                DiagnosticCode::ComputeCapabilityUnknown,
                DiagnosticSeverity::Warning,
            )
            &&& (primary matches Ok(output) && output.status.success && table_gpus(
                table_records(output.stdout),
                true,
            ) is Ok && forall|i: int|
                0 <= i < gpus.len() ==> (#[trigger] gpus[i]).compute_capability is Some) ==> !tells(
                detection.diagnostics,
                DiagnosticCode::ComputeCapabilityUnknown,
                DiagnosticSeverity::Warning,
            )
            &&& tells(
                detection.diagnostics,
                DiagnosticCode::CudaVisibleDevicesSet,
                DiagnosticSeverity::Warning,
            ) <==> visible is Some
            &&& detection.info.reported_cuda_version == (match summary {
                Ok(output) => if output.status.success {
                    crate::nvidia::reported_cuda(crate::outside::lossy_text(output.stdout))
                } else {
                    None
                },
                Err(_) => None,
            })
        }),
{
    if let NvidiaStepView::Done(detection) = next_nvidia_step(
        visible,
        selection,
        Some(primary),
        legacy,
        Some(summary),
    ) {
        if detection.info.status == NvidiaDetectionStatus::Detected {
            let gpus = detection.info.gpus;
            unknown_capabilities_are_found(gpus);
            different_drivers_are_several(gpus);
            let notes = visibility_notes(visible);
            let one = capability_notes(gpus, true);
            let two = capability_notes(gpus, false);
            let three = driver_notes(gpus);
            assert(detection.diagnostics == notes + one + three || detection.diagnostics == notes
                + two + three);
            assert forall|code: DiagnosticCode| #[trigger] tells(
                notes + one + three,
                code,
                DiagnosticSeverity::Warning,
            ) == (told_of(notes, code) || told_of(one, code) || told_of(three, code)) by {
                told_by_either(notes, one, code, DiagnosticSeverity::Warning);
                told_by_either(notes + one, three, code, DiagnosticSeverity::Warning);
                told_alone(notes, code, DiagnosticSeverity::Warning);
                told_alone(one, code, DiagnosticSeverity::Warning);
                told_alone(three, code, DiagnosticSeverity::Warning);
            }
            assert forall|code: DiagnosticCode| #[trigger] tells(
                notes + two + three,
                code,
                DiagnosticSeverity::Warning,
            ) == (told_of(notes, code) || told_of(two, code) || told_of(three, code)) by {
                told_by_either(notes, two, code, DiagnosticSeverity::Warning);
                told_by_either(notes + two, three, code, DiagnosticSeverity::Warning);
                told_alone(notes, code, DiagnosticSeverity::Warning);
                told_alone(two, code, DiagnosticSeverity::Warning);
                told_alone(three, code, DiagnosticSeverity::Warning);
            }
        }
    }
}

spec fn told_of(diagnostics: Seq<DiagnosticView>, code: DiagnosticCode) -> bool {
    diagnostics.len() == 1 && diagnostics[0].code == code && diagnostics[0].severity
        == DiagnosticSeverity::Warning
}

} // verus!
