//! Machine-readable parameters: a map from names to values, kept in the order of the names.

use crate::order::Order;
use crate::pieces::{order_texts, text_order, text_order_antisymmetric, text_order_transitive};
use crate::text::{push_item, same};
use vstd::prelude::*;

verus! {

/// Named parameters, in ascending order of their names, each name once.
#[derive(Debug, PartialEq, Eq)]
pub struct Details {
    entries: Vec<(String, String)>,
}

impl DeepView for Details {
    type V = Seq<(Seq<char>, Seq<char>)>;

    closed spec fn deep_view(&self) -> Seq<(Seq<char>, Seq<char>)> {
        self.entries.deep_view()
    }
}

/// Whether the names stand in ascending order, none of them twice.
pub open spec fn ascending(entries: Seq<(Seq<char>, Seq<char>)>) -> bool {
    forall|i: int, j: int| #![trigger entries[i], entries[j]]
        0 <= i < j < entries.len() ==> text_order(entries[i].0, entries[j].0) == Order::Less
}

/// `entries` with `name` bound to `value`.
pub open spec fn bind(
    entries: Seq<(Seq<char>, Seq<char>)>,
    name: Seq<char>,
    value: Seq<char>,
) -> Seq<(Seq<char>, Seq<char>)>
    decreases entries.len(),
{
    if entries.len() == 0 || text_order(entries.last().0, name) == Order::Less {
        entries.push((name, value))
    } else if entries.last().0 == name {
        entries.drop_last().push((name, value))
    } else {
        bind(entries.drop_last(), name, value).push(entries.last())
    }
}

/// The value bound to `name`.
pub open spec fn lookup(entries: Seq<(Seq<char>, Seq<char>)>, name: Seq<char>) -> Option<Seq<char>>
    decreases entries.len(),
{
    if entries.len() == 0 {
        None
    } else if entries.last().0 == name {
        Some(entries.last().1)
    } else {
        lookup(entries.drop_last(), name)
    }
}

/// No parameters.
pub open spec fn no_details() -> Seq<(Seq<char>, Seq<char>)> {
    Seq::empty()
}

/// Binding a name changes what that name is bound to and nothing else.
pub proof fn bind_updates_lookup(
    entries: Seq<(Seq<char>, Seq<char>)>,
    name: Seq<char>,
    value: Seq<char>,
    other: Seq<char>,
)
    requires
        ascending(entries),
    ensures
        lookup(bind(entries, name, value), name) == Some(value),
        other != name ==> lookup(bind(entries, name, value), other) == lookup(entries, other),
    decreases entries.len(),
{
    let result = bind(entries, name, value);
    if entries.len() == 0 || text_order(entries.last().0, name) == Order::Less {
        assert(result.drop_last() =~= entries);
    } else if entries.last().0 == name {
        assert(result.drop_last() =~= entries.drop_last());
    } else {
        let head = entries.drop_last();
        assert forall|i: int, j: int| #![trigger head[i], head[j]]
            0 <= i < j < head.len() implies text_order(head[i].0, head[j].0) == Order::Less by {
            assert(head[i] == entries[i]);
            assert(head[j] == entries[j]);
        }
        bind_updates_lookup(head, name, value, other);
        assert(result.drop_last() =~= bind(head, name, value));
    }
}

/// Binding keeps the names in order, and each name once.
pub proof fn bind_keeps_ascending(
    entries: Seq<(Seq<char>, Seq<char>)>,
    name: Seq<char>,
    value: Seq<char>,
)
    requires
        ascending(entries),
    ensures
        ascending(bind(entries, name, value)),
        forall|k: int|
            0 <= k < bind(entries, name, value).len() ==> (#[trigger] bind(entries, name, value)[k]).0
                == name || exists|m: int| 0 <= m < entries.len() && entries[m].0 == bind(
                entries,
                name,
                value,
            )[k].0,
    decreases entries.len(),
{
    let result = bind(entries, name, value);
    if entries.len() == 0 {
        assert(result =~= seq![(name, value)]);
    } else if text_order(entries.last().0, name) == Order::Less {
        assert forall|i: int, j: int| #![trigger result[i], result[j]]
            0 <= i < j < result.len() implies text_order(result[i].0, result[j].0)
            == Order::Less by {
            if j == entries.len() {
                if i < entries.len() - 1 {
                    assert(text_order(entries[i].0, entries[entries.len() - 1].0) == Order::Less);
                    less_transitive(entries[i].0, entries.last().0, name);
                }
            } else {
                assert(result[i] == entries[i] && result[j] == entries[j]);
            }
        }
        assert forall|k: int| 0 <= k < result.len() implies (#[trigger] result[k]).0 == name
            || exists|m: int| 0 <= m < entries.len() && entries[m].0 == result[k].0 by {
            if k < entries.len() {
                assert(entries[k].0 == result[k].0);
            }
        }
    } else if entries.last().0 == name {
        assert forall|i: int, j: int| #![trigger result[i], result[j]]
            0 <= i < j < result.len() implies text_order(result[i].0, result[j].0)
            == Order::Less by {
            assert(result[i].0 == entries[i].0);
            assert(result[j].0 == entries[j].0);
        }
        assert forall|k: int| 0 <= k < result.len() implies (#[trigger] result[k]).0 == name
            || exists|m: int| 0 <= m < entries.len() && entries[m].0 == result[k].0 by {
            assert(entries[k].0 == result[k].0);
        }
    } else {
        let head = entries.drop_last();
        assert forall|i: int, j: int| #![trigger head[i], head[j]]
            0 <= i < j < head.len() implies text_order(head[i].0, head[j].0) == Order::Less by {
            assert(head[i] == entries[i]);
            assert(head[j] == entries[j]);
        }
        bind_keeps_ascending(head, name, value);
        let inner = bind(head, name, value);
        text_order_antisymmetric(entries.last().0, name);
        assert(text_order(name, entries.last().0) == Order::Less);
        assert forall|i: int, j: int| #![trigger result[i], result[j]]
            0 <= i < j < result.len() implies text_order(result[i].0, result[j].0)
            == Order::Less by {
            if j == inner.len() {
                assert(result[i] == inner[i]);
                if inner[i].0 != name {
                    let m = choose|m: int| 0 <= m < head.len() && head[m].0 == inner[i].0;
                    assert(head[m] == entries[m]);
                    assert(text_order(entries[m].0, entries[entries.len() - 1].0) == Order::Less);
                }
            } else {
                assert(result[i] == inner[i] && result[j] == inner[j]);
            }
        }
        assert forall|k: int| 0 <= k < result.len() implies (#[trigger] result[k]).0 == name
            || exists|m: int| 0 <= m < entries.len() && entries[m].0 == result[k].0 by {
            if k < inner.len() {
                assert(result[k] == inner[k]);
                if inner[k].0 != name {
                    let m = choose|m: int| 0 <= m < head.len() && head[m].0 == inner[k].0;
                    assert(entries[m].0 == result[k].0);
                }
            } else {
                assert(entries[entries.len() - 1].0 == result[k].0);
            }
        }
    }
}

proof fn less_transitive(a: Seq<char>, b: Seq<char>, c: Seq<char>)
    requires
        text_order(a, b) == Order::Less,
        text_order(b, c) == Order::Less,
    ensures
        text_order(a, c) == Order::Less,
{
    text_order_transitive(a, b, c);
    text_order_antisymmetric(a, c);
    text_order_antisymmetric(b, c);
    text_order_antisymmetric(a, b);
}

proof fn bind_position(
    entries: Seq<(Seq<char>, Seq<char>)>,
    name: Seq<char>,
    value: Seq<char>,
    at: int,
)
    requires
        0 <= at <= entries.len(),
        forall|k: int|
            at <= k < entries.len() ==> text_order((#[trigger] entries[k]).0, name)
                == Order::Greater,
        at == 0 || text_order(entries[at - 1].0, name) != Order::Greater,
    ensures
        at > 0 && entries[at - 1].0 == name ==> bind(entries, name, value) =~= entries.update(
            at - 1,
            (name, value),
        ),
        at == 0 || entries[at - 1].0 != name ==> bind(entries, name, value) =~= entries.insert(
            at,
            (name, value),
        ),
    decreases entries.len() - at,
{
    if at < entries.len() {
        let head = entries.drop_last();
        assert forall|k: int| at <= k < head.len() implies text_order((#[trigger] head[k]).0, name)
            == Order::Greater by {
            assert(head[k] == entries[k]);
        }
        bind_position(head, name, value, at);
        text_order_antisymmetric(entries.last().0, name);
        assert(text_order(entries[entries.len() - 1].0, name) == Order::Greater);
        assert(bind(entries, name, value) == bind(head, name, value).push(entries.last()));
    } else if at > 0 {
        text_order_antisymmetric(entries[at - 1].0, name);
    }
}

impl Details {
    /// No parameters.
    pub fn new() -> (details: Details)
        ensures
            details.deep_view() == no_details(),
            ascending(details.deep_view()),
    {
        let details = Details { entries: Vec::new() };
        assert(details.deep_view() =~= no_details());
        details
    }

    /// Binds `name` to `value`, replacing an earlier value.
    pub fn insert(&mut self, name: String, value: String)
        ensures
            final(self).deep_view() == bind(old(self).deep_view(), name@, value@),
            ascending(old(self).deep_view()) ==> ascending(final(self).deep_view()),
    {
        let ghost before = self.entries.deep_view();
        let mut at: usize = self.entries.len();
        while at > 0 && order_texts(self.entries[at - 1].0.as_str(), name.as_str())
            == Order::Greater
            invariant
                at <= self.entries@.len(),
                before == self.entries.deep_view(),
                forall|k: int|
                    at <= k < before.len() ==> text_order((#[trigger] before[k]).0, name@)
                        == Order::Greater,
            decreases at,
        {
            at = at - 1;
        }
        proof {
            bind_position(before, name@, value@, at as int);
            if ascending(before) {
                bind_keeps_ascending(before, name@, value@);
            }
        }
        if at > 0 && same(self.entries[at - 1].0.as_str(), name.as_str()) {
            self.entries.set(at - 1, (name, value));
            assert(self.entries.deep_view() =~= before.update(at - 1, (name@, value@)));
        } else {
            self.entries.insert(at, (name, value));
            assert(self.entries.deep_view() =~= before.insert(at as int, (name@, value@)));
        }
    }

    /// The value bound to `name`.
    pub fn get(&self, name: &str) -> (value: Option<&String>)
        ensures
            (match value {
                Some(text) => Some(text@),
                None => None,
            }) == lookup(self.deep_view(), name@),
    {
        let ghost all = self.entries.deep_view();
        let mut at: usize = self.entries.len();
        assert(all.take(at as int) =~= all);
        while at > 0
            invariant
                all == self.entries.deep_view(),
                at <= self.entries@.len(),
                lookup(all, name@) == lookup(all.take(at as int), name@),
            decreases at,
        {
            assert(all.take(at as int).last() == all[at - 1]);
            if same(self.entries[at - 1].0.as_str(), name) {
                return Some(&self.entries[at - 1].1);
            }
            assert(all.take(at as int).drop_last() =~= all.take(at - 1));
            at = at - 1;
        }
        None
    }

    /// Whether there is no parameter.
    pub fn is_empty(&self) -> (answer: bool)
        ensures
            answer == (self.deep_view().len() == 0),
    {
        self.entries.len() == 0
    }

    /// Binds the name at `index` to another value.
    pub fn set_value(&mut self, index: usize, value: String)
        requires
            index < old(self).deep_view().len(),
        ensures
            final(self).deep_view() == old(self).deep_view().update(
                index as int,
                (old(self).deep_view()[index as int].0, value@),
            ),
    {
        let name = self.entries[index].0.clone();
        self.entries.set(index, (name, value));
        assert(self.deep_view() =~= old(self).deep_view().update(
            index as int,
            (old(self).deep_view()[index as int].0, value@),
        ));
    }

    /// The names and values, in ascending order of the names.
    pub fn entries(&self) -> (entries: &Vec<(String, String)>)
        ensures
            entries.deep_view() == self.deep_view(),
    {
        &self.entries
    }
}

impl Clone for Details {
    fn clone(&self) -> (copy: Details)
        ensures
            copy.deep_view() == self.deep_view(),
    {
        let mut entries: Vec<(String, String)> = Vec::new();
        let ghost all = self.entries.deep_view();
        let mut index: usize = 0;
        while index < self.entries.len()
            invariant
                all == self.entries.deep_view(),
                index <= self.entries@.len(),
                entries.deep_view() == all.take(index as int),
            decreases self.entries@.len() - index,
        {
            let entry = &self.entries[index];
            push_item(&mut entries, (entry.0.clone(), entry.1.clone()));
            assert(entries.deep_view() =~= all.take(index + 1));
            index = index + 1;
        }
        assert(all.take(index as int) =~= all);
        Details { entries }
    }
}

} // verus!
