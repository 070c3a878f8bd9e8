//! Lists of named items, kept in the order of their names.

use crate::text::{comes_before, lemma_precedes_total, lemma_precedes_transitive, precedes};
use vstd::prelude::*;

verus! {

/// Whether the names of `list` are in strictly increasing order.
pub open spec fn sorted_by_name<T>(list: Seq<(String, T)>) -> bool {
    forall|i: int, j: int| 0 <= i < j < list.len() ==> precedes(list[i].0@, list[j].0@)
}

/// Whether `list` has an item called `name`.
pub open spec fn has_name<T>(list: Seq<(String, T)>, name: Seq<char>) -> bool {
    exists|i: int| 0 <= i < list.len() && #[trigger] list[i].0@ == name
}

/// Whether `at` is the place of `name` in the ordered `list`: what stands
/// before it comes before `name`, and what stands there, if anything, does
/// not.
pub open spec fn is_slot<T>(list: Seq<(String, T)>, name: Seq<char>, at: int) -> bool {
    &&& 0 <= at <= list.len()
    &&& forall|i: int| 0 <= i < at ==> precedes(#[trigger] list[i].0@, name)
    &&& at < list.len() ==> !precedes(list[at].0@, name)
}

/// An ordered list has `name` exactly if the item at the place of `name` is
/// called `name`.
pub proof fn lemma_slot_decides<T>(list: Seq<(String, T)>, name: Seq<char>, at: int)
    requires
        sorted_by_name(list),
        is_slot(list, name, at),
    ensures
        has_name(list, name) <==> (at < list.len() && list[at].0@ == name),
        !has_name(list, name) && at < list.len() ==> precedes(name, list[at].0@),
{
    crate::text::lemma_precedes_irreflexive(name);
    if has_name(list, name) {
        let i = choose|i: int| 0 <= i < list.len() && list[i].0@ == name;
        if i < at {
            assert(precedes(list[i].0@, name));
        } else if i > at {
            assert(precedes(list[at].0@, list[i].0@));
        }
    }
    if at < list.len() && list[at].0@ != name {
        lemma_precedes_total(name, list[at].0@);
    }
}

/// Putting an item at the place of its name, where the list has no item of
/// that name, keeps the list in order.
pub proof fn lemma_insert_keeps_order<T>(list: Seq<(String, T)>, at: int, item: (String, T))
    requires
        sorted_by_name(list),
        is_slot(list, item.0@, at),
        !has_name(list, item.0@),
    ensures
        sorted_by_name(list.insert(at, item)),
{
    lemma_slot_decides(list, item.0@, at);
    let after = list.insert(at, item);
    assert forall|i: int, j: int| 0 <= i < j < after.len() implies precedes(
        after[i].0@,
        after[j].0@,
    ) by {
        if j < at {
            assert(after[i] == list[i] && after[j] == list[j]);
        } else if j == at {
            assert(after[i] == list[i]);
        } else if i < at {
            assert(after[i] == list[i] && after[j] == list[j - 1]);
            lemma_precedes_transitive(list[i].0@, item.0@, list[at].0@);
            if j - 1 > at {
                lemma_precedes_transitive(list[i].0@, list[at].0@, list[j - 1].0@);
            }
        } else if i == at {
            assert(after[j] == list[j - 1]);
            if j - 1 > at {
                lemma_precedes_transitive(item.0@, list[at].0@, list[j - 1].0@);
            }
        } else {
            assert(after[i] == list[i - 1] && after[j] == list[j - 1]);
        }
    }
}

/// Replacing an item by one of the same name keeps the list in order.
pub proof fn lemma_update_keeps_order<T>(list: Seq<(String, T)>, at: int, item: (String, T))
    requires
        sorted_by_name(list),
        0 <= at < list.len(),
        list[at].0@ == item.0@,
    ensures
        sorted_by_name(list.update(at, item)),
{
    let after = list.update(at, item);
    assert forall|i: int, j: int| 0 <= i < j < after.len() implies precedes(
        after[i].0@,
        after[j].0@,
    ) by {
        assert(after[i].0@ == list[i].0@);
        assert(after[j].0@ == list[j].0@);
    }
}

/// Finds the place of `name` in the ordered `list`, and says whether the
/// list has an item of that name.
pub fn find_slot<T>(list: &Vec<(String, T)>, name: &str) -> (r: (usize, bool))
    requires
        sorted_by_name(list@),
    ensures
        is_slot(list@, name@, r.0 as int),
        r.1 == has_name(list@, name@),
        r.1 ==> r.0 < list@.len() && list@[r.0 as int].0@ == name@,
{
    let mut at: usize = 0;
    while at < list.len() && comes_before(list[at].0.as_str(), name)
        invariant
            at <= list@.len(),
            forall|i: int| 0 <= i < at ==> precedes(#[trigger] list@[i].0@, name@),
        decreases list@.len() - at,
    {
        at += 1;
    }
    let found = at < list.len() && !comes_before(name, list[at].0.as_str());
    proof {
        lemma_slot_decides(list@, name@, at as int);
        if at < list@.len() && list@[at as int].0@ != name@ {
            lemma_precedes_total(name@, list@[at as int].0@);
        }
        crate::text::lemma_precedes_irreflexive(name@);
    }
    (at, found)
}

/// Puts `item` into the ordered `list` at the place of its name, in place of
/// the item of that name if there is one.
pub fn put_in_order<T>(list: &mut Vec<(String, T)>, item: (String, T))
    requires
        sorted_by_name(old(list)@),
    ensures
        sorted_by_name(final(list)@),
        is_slot(old(list)@, item.0@, slot_of(old(list)@, item.0@)),
        has_name(old(list)@, item.0@) ==> final(list)@ == old(list)@.update(
            slot_of(old(list)@, item.0@),
            item,
        ),
        !has_name(old(list)@, item.0@) ==> final(list)@ == old(list)@.insert(
            slot_of(old(list)@, item.0@),
            item,
        ),
        has_name(final(list)@, item.0@),
        forall|name: Seq<char>| has_name(old(list)@, name) ==> has_name(final(list)@, name),
        forall|i: int|
            0 <= i < final(list)@.len() ==> (#[trigger] final(list)@[i]) == item
                || old(list)@.contains(final(list)@[i]),
{
    let (at, found) = find_slot(list, item.0.as_str());
    let ghost before = list@;
    proof {
        lemma_slot_unique(before, item.0@, at as int, slot_of(before, item.0@));
    }
    if found {
        proof {
            lemma_update_keeps_order(before, at as int, item);
        }
        list.set(at, item);
        proof {
            assert(list@[at as int].0@ == item.0@);
            assert forall|name: Seq<char>| has_name(before, name) implies has_name(
                list@,
                name,
            ) by {
                let i = choose|i: int| 0 <= i < before.len() && before[i].0@ == name;
                assert(list@[i].0@ == name);
            }
            assert forall|i: int| 0 <= i < list@.len() implies (#[trigger] list@[i]) == item
                || before.contains(list@[i]) by {
                if i != at {
                    assert(list@[i] == before[i]);
                }
            }
        }
    } else {
        proof {
            lemma_insert_keeps_order(before, at as int, item);
        }
        list.insert(at, item);
        proof {
            assert(list@[at as int].0@ == item.0@);
            assert forall|name: Seq<char>| has_name(before, name) implies has_name(
                list@,
                name,
            ) by {
                let i = choose|i: int| 0 <= i < before.len() && before[i].0@ == name;
                if i < at {
                    assert(list@[i].0@ == name);
                } else {
                    assert(list@[i + 1].0@ == name);
                }
            }
            assert forall|i: int| 0 <= i < list@.len() implies (#[trigger] list@[i]) == item
                || before.contains(list@[i]) by {
                if i < at {
                    assert(list@[i] == before[i]);
                } else if i > at {
                    assert(list@[i] == before[i - 1]);
                }
            }
        }
    }
}

/// The place of `name` in the ordered `list`.
pub open spec fn slot_of<T>(list: Seq<(String, T)>, name: Seq<char>) -> int {
    choose|at: int| is_slot(list, name, at)
}

/// An ordered list has one place for a name.
pub proof fn lemma_slot_unique<T>(list: Seq<(String, T)>, name: Seq<char>, a: int, b: int)
    requires
        sorted_by_name(list),
        is_slot(list, name, a),
    ensures
        is_slot(list, name, slot_of(list, name)),
        is_slot(list, name, b) ==> a == b,
{
    if is_slot(list, name, b) {
        if a < b {
            assert(precedes(list[a].0@, name));
        } else if b < a {
            assert(precedes(list[b].0@, name));
        }
    }
}

} // verus!
