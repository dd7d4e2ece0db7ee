//! Groups of identical processors, and how the numbers of the processors are shown.

use crate::model::{ComputeCapability, Environment, NvidiaGpu, NvidiaGpuView};
use crate::numbers::{
    ascending_numbers, ascending_set, ascending_set_is_strict, ascending_set_keeps_members,
};
use crate::order::{
    int_order, kept, kept_members, order_chain, order_u64, sort_by, sort_keeps_items, sort_values,
    Order,
};
use crate::pieces::{join, join_texts, order_texts, text_order, text_order_antisymmetric};
use crate::text::{concat3, decimal, decimal_text, push_item};
use crate::version::{
    version_equal, version_order, version_order_total, version_order_transitive, NumericVersion,
    NumericVersionView,
};
use vstd::prelude::*;

verus! {

// ---------------------------------------------------------------------------
// Numbers

/// The runs of consecutive numbers, each with its first and its last number.
pub open spec fn runs(numbers: Seq<u32>) -> Seq<(u32, u32)>
    decreases numbers.len(),
{
    if numbers.len() == 0 {
        Seq::empty()
    } else {
        let earlier = runs(numbers.drop_last());
        let number = numbers.last();
        if earlier.len() > 0 && earlier.last().1 + 1 == number {
            earlier.drop_last().push((earlier.last().0, number))
        } else {
            earlier.push((number, number))
        }
    }
}

/// How a run is shown.
pub open spec fn run_words(run: (u32, u32)) -> Seq<char> {
    if run.0 == run.1 {
        decimal(run.0 as nat)
    } else {
        decimal(run.0 as nat) + "–"@ + decimal(run.1 as nat)
    }
}

/// How the numbers of processors are shown.
pub open spec fn indices_words(indices: Seq<u32>) -> Seq<char> {
    let found = runs(ascending_set(indices));
    if found.len() == 0 {
        "none"@
    } else {
        join(found.map_values(|run: (u32, u32)| run_words(run)), ", "@)
    }
}

fn collect_runs(numbers: &Vec<u32>) -> (found: Vec<(u32, u32)>)
    ensures
        found@ == runs(numbers@),
{
    let mut found: Vec<(u32, u32)> = Vec::new();
    let mut index: usize = 0;
    while index < numbers.len()
        invariant
            index <= numbers@.len(),
            found@ == runs(numbers@.take(index as int)),
        decreases numbers@.len() - index,
    {
        let number: u32 = numbers[index];
        assert(numbers@.take(index + 1).drop_last() =~= numbers@.take(index as int));
        assert(numbers@.take(index + 1).last() == number);
        let count: usize = found.len();
        if count > 0 && found[count - 1].1 < u32::MAX && found[count - 1].1 + 1 == number {
            let first: u32 = found[count - 1].0;
            let ghost earlier = found@;
            found.set(count - 1, (first, number));
            assert(found@ =~= earlier.drop_last().push((first, number)));
        } else {
            found.push((number, number));
        }
        index = index + 1;
    }
    assert(numbers@.take(index as int) =~= numbers@);
    found
}

fn run_text(run: (u32, u32)) -> (text: String)
    ensures
        text@ == run_words(run),
{
    if run.0 == run.1 {
        decimal_text(run.0 as u64)
    } else {
        let first = decimal_text(run.0 as u64);
        let last = decimal_text(run.1 as u64);
        concat3(first.as_str(), "–", last.as_str())
    }
}

/// Shows the numbers of processors in ascending order, with each run of consecutive numbers as
/// a range.
pub fn format_gpu_indices(indices: &[u32]) -> (text: String)
    ensures
        text@ == indices_words(indices@),
{
    let sorted = ascending_numbers(indices);
    let found = collect_runs(&sorted);
    if found.len() == 0 {
        return "none".to_owned();
    }
    let ghost all = found@.map_values(|run: (u32, u32)| run_words(run));
    let mut texts: Vec<String> = Vec::new();
    let mut index: usize = 0;
    while index < found.len()
        invariant
            index <= found@.len(),
            all == found@.map_values(|run: (u32, u32)| run_words(run)),
            texts.deep_view() == all.take(index as int),
        decreases found@.len() - index,
    {
        push_item(&mut texts, run_text(found[index]));
        assert(all.take(index + 1) =~= all.take(index as int).push(all[index as int]));
        index = index + 1;
    }
    assert(all.take(index as int) =~= all);
    join_texts(&texts, ", ")
}

/// Whether `number` lies in one of the runs.
pub open spec fn covered(found: Seq<(u32, u32)>, number: u32) -> bool {
    exists|i: int| 0 <= i < found.len() && #[trigger] within(found[i], number)
}

/// Whether `number` lies in a run.
pub open spec fn within(run: (u32, u32), number: u32) -> bool {
    run.0 <= number <= run.1
}

proof fn runs_end_with_the_last_number(numbers: Seq<u32>)
    requires
        numbers.len() > 0,
    ensures
        runs(numbers).len() > 0,
        runs(numbers).last().1 == numbers.last(),
{
}

proof fn runs_cover(numbers: Seq<u32>, number: u32)
    ensures
        covered(runs(numbers), number) <==> numbers.contains(number),
    decreases numbers.len(),
{
    let found = runs(numbers);
    if numbers.len() == 0 {
        assert(!numbers.contains(number));
    } else {
        let head = numbers.drop_last();
        let earlier = runs(head);
        let last = numbers.last();
        runs_cover(head, number);
        if numbers.contains(number) {
            let i = choose|i: int| 0 <= i < numbers.len() && numbers[i] == number;
            if i < head.len() {
                assert(head[i] == number);
                assert(head.contains(number));
            }
        }
        if head.contains(number) {
            let i = choose|i: int| 0 <= i < head.len() && head[i] == number;
            assert(numbers[i] == number);
        }
        assert(numbers[numbers.len() - 1] == last);
        assert(numbers.contains(number) <==> (head.contains(number) || number == last));
        if earlier.len() > 0 && earlier.last().1 + 1 == last {
            let joined = (earlier.last().0, last);
            runs_are_ordered(head);
            if covered(earlier, number) {
                let i = choose|i: int| 0 <= i < earlier.len() && #[trigger] within(
                    earlier[i],
                    number,
                );
                if i < earlier.len() - 1 {
                    assert(found[i] == earlier[i]);
                    assert(within(found[i], number));
                } else {
                    assert(within(found[found.len() - 1], number));
                }
            }
            if number == last {
                assert(earlier[earlier.len() - 1] == earlier.last());
                assert(within(found[found.len() - 1], number));
            }
            if covered(found, number) {
                let i = choose|i: int| 0 <= i < found.len() && #[trigger] within(found[i], number);
                if i < found.len() - 1 {
                    assert(found[i] == earlier[i]);
                    assert(within(earlier[i], number));
                } else {
                    assert(found[i] == joined);
                    if number != last {
                        assert(within(earlier[earlier.len() - 1], number));
                    }
                }
            }
        } else {
            if covered(earlier, number) {
                let i = choose|i: int| 0 <= i < earlier.len() && #[trigger] within(
                    earlier[i],
                    number,
                );
                assert(found[i] == earlier[i]);
                assert(within(found[i], number));
            }
            if number == last {
                assert(within(found[found.len() - 1], number));
            }
            if covered(found, number) {
                let i = choose|i: int| 0 <= i < found.len() && #[trigger] within(found[i], number);
                if i < found.len() - 1 {
                    assert(found[i] == earlier[i]);
                    assert(within(earlier[i], number));
                }
            }
        }
    }
}

proof fn runs_are_ordered(numbers: Seq<u32>)
    ensures
        forall|i: int|
            0 <= i < runs(numbers).len() ==> (#[trigger] runs(numbers)[i]).0 <= runs(numbers)[i].1,
    decreases numbers.len(),
{
    if numbers.len() > 0 {
        runs_are_ordered(numbers.drop_last());
        let earlier = runs(numbers.drop_last());
        if earlier.len() > 0 {
            assert(earlier[earlier.len() - 1].0 <= earlier[earlier.len() - 1].1);
        }
        assert forall|i: int| 0 <= i < runs(numbers).len() implies (#[trigger] runs(numbers)[i]).0
            <= runs(numbers)[i].1 by {
            if i < earlier.len() - 1 {
                assert(runs(numbers)[i] == earlier[i]);
            } else if i < earlier.len() && runs(numbers).len() > earlier.len() {
                assert(runs(numbers)[i] == earlier[i]);
            }
        }
    }
}

/// The ranges that are shown cover exactly the numbers given.
pub proof fn ranges_cover_the_indices(indices: Seq<u32>, number: u32)
    ensures
        covered(runs(ascending_set(indices)), number) <==> indices.contains(number),
{
    runs_cover(ascending_set(indices), number);
    ascending_set_keeps_members(indices, number);
}

/// The ranges that are shown are separated by at least one number that is not covered.
pub proof fn ranges_are_separated(indices: Seq<u32>, low: int, high: int)
    requires
        0 <= low < high < runs(ascending_set(indices)).len(),
    ensures
        runs(ascending_set(indices))[low].1 + 1 < runs(ascending_set(indices))[high].0,
{
    let numbers = ascending_set(indices);
    assert forall|i: int, j: int| 0 <= i < j < numbers.len() implies numbers[i] < numbers[j] by {
        ascending_set_is_strict(indices, i, j);
    }
    runs_of_ascending_numbers_are_separated(numbers, low, high);
}

proof fn runs_of_ascending_numbers_are_separated(numbers: Seq<u32>, low: int, high: int)
    requires
        forall|i: int, j: int| 0 <= i < j < numbers.len() ==> numbers[i] < numbers[j],
        0 <= low < high < runs(numbers).len(),
    ensures
        runs(numbers)[low].1 + 1 < runs(numbers)[high].0,
    decreases numbers.len(),
{
    let head = numbers.drop_last();
    let earlier = runs(head);
    let last = numbers.last();
    assert forall|i: int, j: int| 0 <= i < j < head.len() implies head[i] < head[j] by {
        assert(numbers[i] < numbers[j]);
    }
    if high < earlier.len() {
        runs_of_ascending_numbers_are_separated(head, low, high);
    } else {
        assert(earlier.len() > 0);
        if head.len() > 0 {
            runs_end_with_the_last_number(head);
            assert(numbers[head.len() - 1] < numbers[numbers.len() - 1]);
            assert(head.last() == numbers[head.len() - 1]);
        }
        if low < earlier.len() - 1 {
            runs_of_ascending_numbers_are_separated(head, low, earlier.len() - 1);
            runs_are_ordered(head);
            assert(earlier[earlier.len() - 1].0 <= earlier[earlier.len() - 1].1);
        }
    }
}

// ---------------------------------------------------------------------------
// Groups

/// Processors of one name, one compute capability and one driver.
#[derive(Debug, PartialEq, Eq)]
pub struct HumanGpuGroup {
    /// Name of the processors.
    pub name: String,
    /// Compute capability, where it is known.
    pub capability: Option<ComputeCapability>,
    /// Driver version, as the first of the processors reported it.
    pub driver: NumericVersion,
    /// Numbers of the processors, ascending.
    pub indices: Vec<u32>,
}

/// The model of [`HumanGpuGroup`].
#[verifier::ext_equal]
pub struct HumanGpuGroupView {
    pub name: Seq<char>,
    pub capability: Option<ComputeCapability>,
    pub driver: NumericVersionView,
    pub indices: Seq<u32>,
}

impl DeepView for HumanGpuGroup {
    type V = HumanGpuGroupView;

    open spec fn deep_view(&self) -> HumanGpuGroupView {
        HumanGpuGroupView {
            name: self.name@,
            capability: self.capability,
            driver: self.driver.deep_view(),
            indices: self.indices@,
        }
    }
}

impl Clone for HumanGpuGroup {
    fn clone(&self) -> (copy: HumanGpuGroup)
        ensures
            copy.deep_view() == self.deep_view(),
    {
        let indices = self.indices.clone();
        assert(indices@ =~= self.indices@);
        HumanGpuGroup {
            name: self.name.clone(),
            capability: self.capability,
            driver: self.driver.clone(),
            indices,
        }
    }
}

/// How two optional compute capabilities are ordered: an unknown one comes first.
pub open spec fn capability_order(
    left: Option<ComputeCapability>,
    right: Option<ComputeCapability>,
) -> Order {
    match (left, right) {
        (None, None) => Order::Equal,
        (None, Some(_)) => Order::Less,
        (Some(_), None) => Order::Greater,
        (Some(a), Some(b)) => order_chain(
            int_order(a.major as int, b.major as int),
            int_order(a.minor as int, b.minor as int),
        ),
    }
}

/// How two processors are ordered by what makes them identical.
pub open spec fn kind_order(left: NvidiaGpuView, right: NvidiaGpuView) -> Order {
    order_chain(
        text_order(left.name, right.name),
        order_chain(
            capability_order(left.compute_capability, right.compute_capability),
            version_order(left.driver_version.components, right.driver_version.components),
        ),
    )
}

/// Whether two processors are identical but for their numbers.
pub open spec fn same_kind(left: NvidiaGpuView, right: NvidiaGpuView) -> bool {
    &&& left.name == right.name
    &&& left.compute_capability == right.compute_capability
    &&& version_equal(left.driver_version.components, right.driver_version.components)
}

/// Whether a processor is identical to `left` but for its number.
pub open spec fn kind_of(left: NvidiaGpuView) -> spec_fn(NvidiaGpuView) -> bool {
    |right: NvidiaGpuView| same_kind(left, right)
}

/// Whether `left` comes after `right` in the order of kinds.
pub open spec fn kind_after() -> spec_fn(NvidiaGpuView, NvidiaGpuView) -> bool {
    |left: NvidiaGpuView, right: NvidiaGpuView| kind_order(left, right) == Order::Greater
}

/// The first processor of each kind.
pub open spec fn first_of_kinds(gpus: Seq<NvidiaGpuView>) -> Seq<NvidiaGpuView>
    decreases gpus.len(),
{
    if gpus.len() == 0 {
        gpus
    } else {
        let earlier = first_of_kinds(gpus.drop_last());
        if kind_known(earlier, gpus.last()) {
            earlier
        } else {
            earlier.push(gpus.last())
        }
    }
}

/// Whether one of `gpus` is identical to `gpu` but for its number.
pub open spec fn kind_known(gpus: Seq<NvidiaGpuView>, gpu: NvidiaGpuView) -> bool {
    exists|i: int| 0 <= i < gpus.len() && same_kind(#[trigger] gpus[i], gpu)
}

/// The numbers of processors.
pub open spec fn numbers_of_gpus(gpus: Seq<NvidiaGpuView>) -> Seq<u32> {
    gpus.map_values(|gpu: NvidiaGpuView| gpu.index)
}

/// The group of the processors that are identical to `first`.
pub open spec fn group_of(gpus: Seq<NvidiaGpuView>, first: NvidiaGpuView) -> HumanGpuGroupView {
    HumanGpuGroupView {
        name: first.name,
        capability: first.compute_capability,
        driver: first.driver_version,
        indices: ascending_set(numbers_of_gpus(kept(gpus, kind_of(first)))),
    }
}

/// The first number of a group.
pub open spec fn first_index(group: HumanGpuGroupView) -> u32 {
    if group.indices.len() > 0 {
        group.indices[0]
    } else {
        u32::MAX
    }
}

/// Whether `left` begins with a greater number than `right`.
pub open spec fn group_after() -> spec_fn(HumanGpuGroupView, HumanGpuGroupView) -> bool {
    |left: HumanGpuGroupView, right: HumanGpuGroupView| first_index(left) > first_index(right)
}

/// The groups in the order of their kinds.
pub open spec fn groups_by_kind(gpus: Seq<NvidiaGpuView>) -> Seq<HumanGpuGroupView> {
    sort_by(first_of_kinds(gpus), kind_after()).map_values(
        |first: NvidiaGpuView| group_of(gpus, first),
    )
}

/// The groups of processors in the order of their first numbers.
pub open spec fn gpu_groups(gpus: Seq<NvidiaGpuView>) -> Seq<HumanGpuGroupView> {
    sort_by(groups_by_kind(gpus), group_after())
}

fn order_capabilities(left: Option<ComputeCapability>, right: Option<ComputeCapability>) -> (order:
    Order)
    ensures
        order == capability_order(left, right),
{
    match (left, right) {
        (None, None) => Order::Equal,
        (None, Some(_)) => Order::Less,
        (Some(_), None) => Order::Greater,
        (Some(a), Some(b)) => match order_u64(a.major as u64, b.major as u64) {
            Order::Equal => order_u64(a.minor as u64, b.minor as u64),
            other => other,
        },
    }
}

fn order_kinds(left: &NvidiaGpu, right: &NvidiaGpu) -> (order: Order)
    ensures
        order == kind_order(left.deep_view(), right.deep_view()),
{
    match order_texts(left.name.as_str(), right.name.as_str()) {
        Order::Equal => match order_capabilities(left.compute_capability, right.compute_capability) {
            Order::Equal => left.driver_version.order(&right.driver_version),
            other => other,
        },
        other => other,
    }
}

proof fn equal_kinds(left: NvidiaGpuView, right: NvidiaGpuView)
    ensures
        kind_order(left, right) == Order::Equal <==> same_kind(left, right),
{
    text_order_antisymmetric(left.name, right.name);
    version_order_total(left.driver_version.components, right.driver_version.components);
}

fn first_gpus(gpus: &Vec<NvidiaGpu>) -> (result: Vec<NvidiaGpu>)
    ensures
        result.deep_view() == first_of_kinds(gpus.deep_view()),
{
    let ghost all = gpus.deep_view();
    let mut result: Vec<NvidiaGpu> = Vec::new();
    let mut index: usize = 0;
    assert(all.take(0) =~= Seq::<NvidiaGpuView>::empty());
    while index < gpus.len()
        invariant
            index <= gpus@.len(),
            all == gpus.deep_view(),
            result.deep_view() == first_of_kinds(all.take(index as int)),
        decreases gpus@.len() - index,
    {
        let gpu = &gpus[index];
        assert(all.take(index + 1).drop_last() =~= all.take(index as int));
        assert(all.take(index + 1).last() == gpu.deep_view());
        let ghost earlier = result.deep_view();
        let mut known = false;
        let mut at: usize = 0;
        while at < result.len() && !known
            invariant
                at <= result@.len(),
                earlier == result.deep_view(),
                known ==> kind_known(earlier, gpu.deep_view()),
                !known ==> forall|i: int|
                    0 <= i < at ==> !same_kind(#[trigger] earlier[i], gpu.deep_view()),
            decreases result@.len() - at,
        {
            assert(earlier[at as int] == result@[at as int].deep_view());
            proof {
                equal_kinds(earlier[at as int], gpu.deep_view());
            }
            if order_kinds(&result[at], gpu) == Order::Equal {
                assert(same_kind(earlier[at as int], gpu.deep_view()));
                known = true;
            }
            at = at + 1;
        }
        if !known {
            push_item(&mut result, gpu.clone());
        }
        index = index + 1;
    }
    assert(all.take(index as int) =~= all);
    result
}

fn numbers_of_kind(gpus: &Vec<NvidiaGpu>, first: &NvidiaGpu) -> (numbers: Vec<u32>)
    ensures
        numbers@ == numbers_of_gpus(kept(gpus.deep_view(), kind_of(first.deep_view()))),
{
    let ghost all = gpus.deep_view();
    let ghost kind = kind_of(first.deep_view());
    let mut numbers: Vec<u32> = Vec::new();
    let mut index: usize = 0;
    assert(all.take(0) =~= Seq::<NvidiaGpuView>::empty());
    assert(numbers@ =~= numbers_of_gpus(kept(all.take(0), kind)));
    while index < gpus.len()
        invariant
            index <= gpus@.len(),
            all == gpus.deep_view(),
            kind == kind_of(first.deep_view()),
            numbers@ == numbers_of_gpus(kept(all.take(index as int), kind)),
        decreases gpus@.len() - index,
    {
        assert(all.take(index + 1).drop_last() =~= all.take(index as int));
        assert(all.take(index + 1).last() == gpus@[index as int].deep_view());
        proof {
            equal_kinds(first.deep_view(), gpus@[index as int].deep_view());
        }
        if order_kinds(first, &gpus[index]) == Order::Equal {
            numbers.push(gpus[index].index);
        }
        assert(numbers@ =~= numbers_of_gpus(kept(all.take(index + 1), kind)));
        index = index + 1;
    }
    assert(all.take(index as int) =~= all);
    numbers
}

/// Groups identical processors; no number is lost.
pub fn group_gpus(environment: &Environment) -> (groups: Vec<HumanGpuGroup>)
    ensures
        groups.deep_view() == gpu_groups(environment.deep_view().nvidia.gpus),
{
    let gpus = &environment.nvidia.gpus;
    let ghost all = gpus.deep_view();
    let mut firsts = first_gpus(gpus);
    let after = |left: &NvidiaGpu, right: &NvidiaGpu| -> (follows: bool)
        ensures
            follows == (kind_order(left.deep_view(), right.deep_view()) == Order::Greater),
        { order_kinds(left, right) == Order::Greater };
    sort_values(&mut firsts, after, Ghost(kind_after()));
    let ghost wanted = groups_by_kind(all);
    let mut groups: Vec<HumanGpuGroup> = Vec::new();
    let mut index: usize = 0;
    while index < firsts.len()
        invariant
            index <= firsts@.len(),
            all == gpus.deep_view(),
            firsts.deep_view() == sort_by(first_of_kinds(all), kind_after()),
            wanted == groups_by_kind(all),
            groups.deep_view() == wanted.take(index as int),
        decreases firsts@.len() - index,
    {
        let first = &firsts[index];
        let numbers = numbers_of_kind(gpus, first);
        let indices = ascending_numbers(numbers.as_slice());
        let group = HumanGpuGroup {
            name: first.name.clone(),
            capability: first.compute_capability,
            driver: first.driver_version.clone(),
            indices,
        };
        assert(firsts.deep_view()[index as int] == first.deep_view());
        assert(group.deep_view() == group_of(all, first.deep_view()));
        assert(wanted[index as int] == group_of(all, first.deep_view()));
        push_item(&mut groups, group);
        assert(wanted.take(index + 1) =~= wanted.take(index as int).push(wanted[index as int]));
        index = index + 1;
    }
    assert(wanted.take(index as int) =~= wanted);
    let later = |left: &HumanGpuGroup, right: &HumanGpuGroup| -> (follows: bool)
        ensures
            follows == (first_index(left.deep_view()) > first_index(right.deep_view())),
        { group_start(left) > group_start(right) };
    sort_values(&mut groups, later, Ghost(group_after()));
    groups
}

fn group_start(group: &HumanGpuGroup) -> (number: u32)
    ensures
        number == first_index(group.deep_view()),
{
    if group.indices.len() > 0 {
        group.indices[0]
    } else {
        u32::MAX
    }
}


// ---------------------------------------------------------------------------
// Laws

/// Whether a processor is of the kind of a group.
pub open spec fn belongs(group: HumanGpuGroupView, gpu: NvidiaGpuView) -> bool {
    &&& group.name == gpu.name
    &&& group.capability == gpu.compute_capability
    &&& version_equal(group.driver.components, gpu.driver_version.components)
}

proof fn sorting_keeps_members<T>(items: Seq<T>, after: spec_fn(T, T) -> bool, item: T)
    ensures
        sort_by(items, after).contains(item) <==> items.contains(item),
{
    broadcast use vstd::seq_lib::group_to_multiset_ensures;

    sort_keeps_items(items, after);
    assert(items.contains(item) <==> items.to_multiset().count(item) > 0);
    assert(sort_by(items, after).contains(item) <==> sort_by(items, after).to_multiset().count(item)
        > 0);
}

proof fn same_kind_is_transitive(a: NvidiaGpuView, b: NvidiaGpuView, c: NvidiaGpuView)
    requires
        same_kind(a, b),
        same_kind(b, c),
    ensures
        same_kind(a, c),
        same_kind(b, a),
{
    version_order_total(a.driver_version.components, b.driver_version.components);
    version_order_total(b.driver_version.components, c.driver_version.components);
    version_order_total(a.driver_version.components, c.driver_version.components);
    version_order_transitive(
        a.driver_version.components,
        b.driver_version.components,
        c.driver_version.components,
    );
    version_order_transitive(
        c.driver_version.components,
        b.driver_version.components,
        a.driver_version.components,
    );
}

proof fn every_kind_has_a_first(gpus: Seq<NvidiaGpuView>, index: int)
    requires
        0 <= index < gpus.len(),
    ensures
        kind_known(first_of_kinds(gpus), gpus[index]),
    decreases gpus.len(),
{
    let head = gpus.drop_last();
    let earlier = first_of_kinds(head);
    let firsts = first_of_kinds(gpus);
    if index < head.len() {
        every_kind_has_a_first(head, index);
        let i = choose|i: int| 0 <= i < earlier.len() && same_kind(
            #[trigger] earlier[i],
            gpus[index],
        );
        assert(firsts[i] == earlier[i]);
        assert(same_kind(firsts[i], gpus[index]));
    } else if !kind_known(earlier, gpus.last()) {
        version_order_total(
            gpus.last().driver_version.components,
            gpus.last().driver_version.components,
        );
        assert(same_kind(firsts[firsts.len() - 1], gpus[index]));
    }
}

/// Every processor stands in a group of its kind, with its number.
pub proof fn every_gpu_is_grouped(gpus: Seq<NvidiaGpuView>, index: int)
    requires
        0 <= index < gpus.len(),
    ensures
        exists|k: int|
            0 <= k < gpu_groups(gpus).len() && belongs(#[trigger] gpu_groups(gpus)[k], gpus[index])
                && gpu_groups(gpus)[k].indices.contains(gpus[index].index),
{
    let gpu = gpus[index];
    let firsts = first_of_kinds(gpus);
    every_kind_has_a_first(gpus, index);
    let f = choose|i: int| 0 <= i < firsts.len() && same_kind(#[trigger] firsts[i], gpu);
    let first = firsts[f];
    let members = kept(gpus, kind_of(first));
    kept_members(gpus, kind_of(first), gpu);
    let m = choose|i: int| 0 <= i < members.len() && members[i] == gpu;
    let group = group_of(gpus, first);
    assert(numbers_of_gpus(members)[m] == gpu.index);
    ascending_set_keeps_members(numbers_of_gpus(members), gpu.index);
    assert(group.indices.contains(gpu.index));
    sorting_keeps_members(firsts, kind_after(), first);
    let ordered = sort_by(firsts, kind_after());
    let o = choose|i: int| 0 <= i < ordered.len() && ordered[i] == first;
    assert(groups_by_kind(gpus)[o] == group);
    sorting_keeps_members(groups_by_kind(gpus), group_after(), group);
    let k = choose|i: int| 0 <= i < gpu_groups(gpus).len() && gpu_groups(gpus)[i] == group;
    assert(belongs(gpu_groups(gpus)[k], gpu));
}

proof fn group_comes_from_a_first(gpus: Seq<NvidiaGpuView>, k: int) -> (first: NvidiaGpuView)
    requires
        0 <= k < gpu_groups(gpus).len(),
    ensures
        gpu_groups(gpus)[k] == group_of(gpus, first),
        first_of_kinds(gpus).contains(first),
{
    let group = gpu_groups(gpus)[k];
    sorting_keeps_members(groups_by_kind(gpus), group_after(), group);
    let by_kind = groups_by_kind(gpus);
    let j = choose|j: int| 0 <= j < by_kind.len() && by_kind[j] == group;
    let ordered = sort_by(first_of_kinds(gpus), kind_after());
    let first = ordered[j];
    assert(ordered.contains(first));
    sorting_keeps_members(first_of_kinds(gpus), kind_after(), first);
    first
}

/// A group holds only numbers of processors of its kind.
pub proof fn groups_hold_only_their_kind(gpus: Seq<NvidiaGpuView>, k: int, number: u32)
    requires
        0 <= k < gpu_groups(gpus).len(),
        gpu_groups(gpus)[k].indices.contains(number),
    ensures
        exists|i: int|
            0 <= i < gpus.len() && (#[trigger] gpus[i]).index == number && belongs(
                gpu_groups(gpus)[k],
                gpus[i],
            ),
{
    let first = group_comes_from_a_first(gpus, k);
    let members = kept(gpus, kind_of(first));
    ascending_set_keeps_members(numbers_of_gpus(members), number);
    let m = choose|i: int|
        0 <= i < numbers_of_gpus(members).len() && numbers_of_gpus(members)[i] == number;
    let gpu = members[m];
    assert(members.contains(gpu));
    kept_members(gpus, kind_of(first), gpu);
    let i = choose|i: int| 0 <= i < gpus.len() && gpus[i] == gpu;
    assert(gpus[i].index == number);
}

proof fn firsts_differ(gpus: Seq<NvidiaGpuView>, low: int, high: int)
    requires
        0 <= low < high < first_of_kinds(gpus).len(),
    ensures
        !same_kind(first_of_kinds(gpus)[low], first_of_kinds(gpus)[high]),
    decreases gpus.len(),
{
    let earlier = first_of_kinds(gpus.drop_last());
    if high < earlier.len() {
        firsts_differ(gpus.drop_last(), low, high);
    } else {
        assert(!kind_known(earlier, gpus.last()));
        assert(!same_kind(earlier[low], gpus.last()));
    }
}

/// No two groups are of one kind.
pub proof fn groups_are_of_different_kinds(gpus: Seq<NvidiaGpuView>, low: int, high: int)
    requires
        0 <= low < high < gpu_groups(gpus).len(),
    ensures
        ({
            let left = gpu_groups(gpus)[low];
            let right = gpu_groups(gpus)[high];
            !(left.name == right.name && left.capability == right.capability && version_equal(
                left.driver.components,
                right.driver.components,
            ))
        }),
{
    broadcast use vstd::seq_lib::group_to_multiset_ensures;

    let firsts = first_of_kinds(gpus);
    let ordered = sort_by(firsts, kind_after());
    let by_kind = groups_by_kind(gpus);
    let groups = gpu_groups(gpus);
    assert forall|i: int, j: int| 0 <= i < firsts.len() && 0 <= j < firsts.len() && i
        != j implies !same_kind(firsts[i], firsts[j]) by {
        if i < j {
            firsts_differ(gpus, i, j);
        } else {
            firsts_differ(gpus, j, i);
            if same_kind(firsts[i], firsts[j]) {
                same_kind_is_transitive(firsts[i], firsts[j], firsts[j]);
            }
        }
    }
    assert forall|i: int, j: int| 0 <= i < j < firsts.len() implies firsts[i] != firsts[j] by {
        version_order_total(
            firsts[i].driver_version.components,
            firsts[i].driver_version.components,
        );
        assert(same_kind(firsts[i], firsts[i]));
    }
    sort_keeps_items(firsts, kind_after());
    firsts.lemma_multiset_has_no_duplicates();
    ordered.lemma_multiset_has_no_duplicates_conv();
    assert forall|i: int, j: int| 0 <= i < j < by_kind.len() implies by_kind[i] != by_kind[j] by {
        kinds_in_order_differ(gpus, i, j);
    }
    sort_keeps_items(by_kind, group_after());
    by_kind.lemma_multiset_has_no_duplicates();
    groups.lemma_multiset_has_no_duplicates_conv();
    assert(groups[low] != groups[high]);
    sorting_keeps_members(by_kind, group_after(), groups[low]);
    sorting_keeps_members(by_kind, group_after(), groups[high]);
    let a = choose|i: int| 0 <= i < by_kind.len() && by_kind[i] == groups[low];
    let b = choose|i: int| 0 <= i < by_kind.len() && by_kind[i] == groups[high];
    assert(ordered.contains(ordered[a]));
    assert(ordered.contains(ordered[b]));
    sorting_keeps_members(firsts, kind_after(), ordered[a]);
    sorting_keeps_members(firsts, kind_after(), ordered[b]);
    let c = choose|i: int| 0 <= i < firsts.len() && firsts[i] == ordered[a];
    let d = choose|i: int| 0 <= i < firsts.len() && firsts[i] == ordered[b];
    assert(!same_kind(firsts[c], firsts[d]));
}

proof fn kinds_in_order_differ(gpus: Seq<NvidiaGpuView>, low: int, high: int)
    requires
        0 <= low < high < groups_by_kind(gpus).len(),
        sort_by(first_of_kinds(gpus), kind_after()).no_duplicates(),
        forall|i: int, j: int|
            0 <= i < first_of_kinds(gpus).len() && 0 <= j < first_of_kinds(gpus).len() && i != j
                ==> !same_kind(first_of_kinds(gpus)[i], first_of_kinds(gpus)[j]),
    ensures
        groups_by_kind(gpus)[low] != groups_by_kind(gpus)[high],
{
    let firsts = first_of_kinds(gpus);
    let ordered = sort_by(firsts, kind_after());
    assert(ordered.contains(ordered[low]));
    assert(ordered.contains(ordered[high]));
    sorting_keeps_members(firsts, kind_after(), ordered[low]);
    sorting_keeps_members(firsts, kind_after(), ordered[high]);
    let c = choose|i: int| 0 <= i < firsts.len() && firsts[i] == ordered[low];
    let d = choose|i: int| 0 <= i < firsts.len() && firsts[i] == ordered[high];
    assert(ordered[low] != ordered[high]);
    assert(!same_kind(firsts[c], firsts[d]));
    version_order_total(
        firsts[c].driver_version.components,
        firsts[c].driver_version.components,
    );
}

} // verus!
