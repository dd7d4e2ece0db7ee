//! Lists of numbers: in decimal, in order, without repetition.

use crate::order::{
    distinct, distinct_members, sort_by, sort_keeps_items, sort_orders_all, sort_values,
    strict_weak_order,
};
use crate::text::{decimal, decimal_text, push_item};
use vstd::prelude::*;

verus! {

/// The model of an optional list of numbers.
pub open spec fn numbers_of(numbers: Option<Vec<u32>>) -> Option<Seq<u32>> {
    match numbers {
        Some(list) => Some(list@),
        None => None,
    }
}

/// Numbers in decimal.
pub open spec fn decimals(numbers: Seq<u32>) -> Seq<Seq<char>> {
    numbers.map_values(|number: u32| decimal(number as nat))
}

/// Numbers in decimal.
pub fn decimal_texts(numbers: &[u32]) -> (texts: Vec<String>)
    ensures
        texts.deep_view() == decimals(numbers@),
{
    let ghost all = decimals(numbers@);
    let mut texts: Vec<String> = Vec::new();
    let mut index: usize = 0;
    while index < numbers.len()
        invariant
            index <= numbers@.len(),
            all == decimals(numbers@),
            texts.deep_view() == all.take(index as int),
        decreases numbers@.len() - index,
    {
        push_item(&mut texts, decimal_text(numbers[index] as u64));
        assert(all.take(index + 1) =~= all.take(index as int).push(all[index as int]));
        index = index + 1;
    }
    assert(all.take(index as int) =~= all);
    texts
}

/// Whether `left` is the greater number.
pub open spec fn number_after() -> spec_fn(u32, u32) -> bool {
    |left: u32, right: u32| left > right
}

/// Numbers in ascending order, each once.
pub open spec fn ascending_set(numbers: Seq<u32>) -> Seq<u32> {
    sort_by(distinct(numbers), number_after())
}

/// Numbers in ascending order, each once, are strictly ascending, and are the same numbers.
pub proof fn ascending_set_is_strict(numbers: Seq<u32>, low: int, high: int)
    requires
        0 <= low < high < ascending_set(numbers).len(),
    ensures
        ascending_set(numbers)[low] < ascending_set(numbers)[high],
{
    let unique = distinct(numbers);
    let after = number_after();
    distinct_members(numbers);
    sort_keeps_items(unique, after);
    assert(strict_weak_order(after));
    sort_orders_all(unique, after, low, high);
    broadcast use vstd::seq_lib::group_to_multiset_ensures;

    unique.lemma_multiset_has_no_duplicates();
    ascending_set(numbers).lemma_multiset_has_no_duplicates_conv();
}

/// Putting numbers in order keeps every one of them and adds none.
pub proof fn ascending_set_keeps_members(numbers: Seq<u32>, number: u32)
    ensures
        ascending_set(numbers).contains(number) <==> numbers.contains(number),
{
    let unique = distinct(numbers);
    distinct_members(numbers);
    sort_keeps_items(unique, number_after());
    broadcast use vstd::seq_lib::group_to_multiset_ensures;

    assert(unique.contains(number) <==> unique.to_multiset().count(number) > 0);
    assert(ascending_set(numbers).contains(number) <==> ascending_set(numbers).to_multiset().count(
        number,
    ) > 0);
}

fn sort_numbers(numbers: &mut Vec<u32>)
    ensures
        final(numbers)@ == sort_by(old(numbers)@, number_after()),
{
    let after = |left: &u32, right: &u32| -> (follows: bool)
        ensures
            follows == (left.deep_view() > right.deep_view()),
        { *left > *right };
    assert(numbers.deep_view() =~= numbers@);
    sort_values(numbers, after, Ghost(number_after()));
    assert(numbers.deep_view() =~= numbers@);
}

/// Puts numbers in ascending order, each once.
pub fn ascending_numbers(numbers: &[u32]) -> (result: Vec<u32>)
    ensures
        result@ == ascending_set(numbers@),
{
    let mut unique: Vec<u32> = Vec::new();
    let mut index: usize = 0;
    while index < numbers.len()
        invariant
            index <= numbers@.len(),
            unique@ == distinct(numbers@.take(index as int)),
        decreases numbers@.len() - index,
    {
        assert(numbers@.take(index + 1).drop_last() =~= numbers@.take(index as int));
        assert(numbers@.take(index + 1).last() == numbers@[index as int]);
        proof {
            distinct_members(numbers@.take(index as int));
        }
        if !contains_number(&unique, numbers[index]) {
            unique.push(numbers[index]);
        }
        index = index + 1;
    }
    assert(numbers@.take(index as int) =~= numbers@);
    sort_numbers(&mut unique);
    unique
}

/// Whether a number is in a list.
pub fn contains_number(numbers: &Vec<u32>, number: u32) -> (found: bool)
    ensures
        found == numbers@.contains(number),
{
    let mut index: usize = 0;
    while index < numbers.len()
        invariant
            index <= numbers@.len(),
            forall|i: int| 0 <= i < index ==> numbers@[i] != number,
        decreases numbers@.len() - index,
    {
        if numbers[index] == number {
            return true;
        }
        index = index + 1;
    }
    false
}

/// Whether two lists hold the same numbers.
pub fn same_numbers(left: &Vec<u32>, right: &Vec<u32>) -> (equal: bool)
    ensures
        equal == (left@ == right@),
{
    if left.len() != right.len() {
        return false;
    }
    let mut index: usize = 0;
    while index < left.len()
        invariant
            index <= left@.len() == right@.len(),
            forall|i: int| 0 <= i < index ==> left@[i] == right@[i],
        decreases left@.len() - index,
    {
        if left[index] != right[index] {
            return false;
        }
        index = index + 1;
    }
    assert(left@ =~= right@);
    true
}

} // verus!
