//! The slots of a store as a sequence, and what the sequence means as a map.
//!
//! A store keeps its slots in a vector, in no order that matters. This module
//! says which map such a sequence stands for, when it is a sound store, and how
//! the map follows each change of the sequence.

use crate::handle::held_type;
use crate::handle::Handle;
use std::any::TypeId;
use vstd::prelude::*;

verus! {

/// One slot: a name, the token of the stored type, and the handle to the value.
pub(crate) struct Entry {
    pub(crate) name: String,
    pub(crate) type_id: TypeId,
    pub(crate) value: Handle,
}

/// Entry `i` of `es` is the one called `n`.
pub(crate) open spec fn located(es: Seq<Entry>, n: Seq<char>, i: int) -> bool {
    0 <= i < es.len() && es[i].name@ == n
}

/// Some entry of `es` is called `n`.
pub(crate) open spec fn present(es: Seq<Entry>, n: Seq<char>) -> bool {
    exists|i: int| located(es, n, i)
}

/// The index of an entry of `es` called `n`, where there is one.
pub(crate) open spec fn find(es: Seq<Entry>, n: Seq<char>) -> int {
    choose|i: int| located(es, n, i)
}

/// No two entries share a name.
pub(crate) open spec fn distinct(es: Seq<Entry>) -> bool {
    forall|i: int, j: int| 0 <= i < es.len() && 0 <= j < es.len() && i != j
        ==> (#[trigger] es[i]).name@ != (#[trigger] es[j]).name@
}

/// Every entry's token is that of the value its handle points to.
pub(crate) open spec fn typed(es: Seq<Entry>) -> bool {
    forall|i: int| 0 <= i < es.len() ==> (#[trigger] es[i]).type_id == held_type(es[i].value)
}

/// The names of the entries, in their order.
pub(crate) open spec fn names_of(es: Seq<Entry>) -> Seq<Seq<char>> {
    Seq::new(es.len(), |i: int| es[i].name@)
}

/// The map from each name in `es` to the handle kept under it.
pub(crate) open spec fn as_map(es: Seq<Entry>) -> Map<Seq<char>, Handle> {
    Map::new(|n: Seq<char>| present(es, n), |n: Seq<char>| es[find(es, n)].value)
}

/// Where names are distinct, the entry called `n` is the one the map reads.
pub(crate) proof fn lemma_located(es: Seq<Entry>, n: Seq<char>, i: int)
    requires
        distinct(es),
        located(es, n, i),
    ensures
        present(es, n),
        find(es, n) == i,
        as_map(es).contains_key(n),
        as_map(es)[n] == es[i].value,
{
}

/// Where names are distinct, the map has as many names as there are entries.
pub(crate) proof fn lemma_dom(es: Seq<Entry>)
    requires
        distinct(es),
    ensures
        as_map(es).dom() == names_of(es).to_set(),
        names_of(es).no_duplicates(),
        as_map(es).dom().finite(),
        as_map(es).dom().len() == es.len(),
{
    let names = names_of(es);
    assert forall|n: Seq<char>| as_map(es).dom().contains(n) <==> names.to_set().contains(n) by {
        if present(es, n) {
            assert(names[find(es, n)] == n);
        }
        if names.contains(n) {
            let i = choose|i: int| 0 <= i < names.len() && names[i] == n;
            assert(located(es, n, i));
        }
    }
    assert forall|i: int, j: int| 0 <= i < names.len() && 0 <= j < names.len() && i != j implies names[i]
        != names[j] by {
        assert(es[i].name@ != es[j].name@);
    }
    names.unique_seq_to_set();
}

/// Putting `e` in the place of the entry of the same name sets that name in the
/// map, and keeps the sequence sound if `e` is.
pub(crate) proof fn lemma_replace(es: Seq<Entry>, i: int, e: Entry)
    requires
        distinct(es),
        typed(es),
        located(es, e.name@, i),
    ensures
        distinct(es.update(i, e)),
        typed(es.update(i, e)) == (e.type_id == held_type(e.value)),
        names_of(es.update(i, e)) == names_of(es),
        as_map(es.update(i, e)) == as_map(es).insert(e.name@, e.value),
{
    let after = es.update(i, e);
    assert forall|j: int| 0 <= j < es.len() implies (#[trigger] after[j]).name@ == es[j].name@ by {}
    assert(after[i] == e);
    assert forall|n: Seq<char>| present(after, n) <==> present(es, n) by {
        if present(after, n) {
            assert(located(es, n, find(after, n)));
        }
        if present(es, n) {
            assert(located(after, n, find(es, n)));
        }
    }
    assert forall|n: Seq<char>| present(after, n) implies #[trigger] as_map(after)[n] == as_map(
        es,
    ).insert(e.name@, e.value)[n] by {
        let j = find(after, n);
        lemma_located(after, n, j);
        if n != e.name@ {
            lemma_located(es, n, j);
        }
    }
}

/// Appending an entry with a new name adds that name to the map.
pub(crate) proof fn lemma_push(es: Seq<Entry>, e: Entry)
    requires
        distinct(es),
        typed(es),
        !present(es, e.name@),
        e.type_id == held_type(e.value),
    ensures
        distinct(es.push(e)),
        typed(es.push(e)),
        names_of(es.push(e)) == names_of(es).push(e.name@),
        as_map(es.push(e)) == as_map(es).insert(e.name@, e.value),
{
    let after = es.push(e);
    let last = es.len() as int;
    assert forall|j: int| 0 <= j < last implies #[trigger] after[j] == es[j] by {}
    assert(located(after, e.name@, last));
    assert forall|j: int| 0 <= j < last implies (#[trigger] es[j]).name@ != e.name@ by {
        assert(!located(es, e.name@, j));
    }
    assert forall|n: Seq<char>| present(after, n) <==> (present(es, n) || n == e.name@) by {
        if present(after, n) && n != e.name@ {
            assert(located(es, n, find(after, n)));
        }
        if present(es, n) {
            assert(located(after, n, find(es, n)));
        }
    }
    assert forall|n: Seq<char>| present(after, n) implies #[trigger] as_map(after)[n] == as_map(
        es,
    ).insert(e.name@, e.value)[n] by {
        let j = find(after, n);
        lemma_located(after, n, j);
        if n != e.name@ {
            lemma_located(es, n, j);
        }
    }
}

/// Taking an entry out removes its name from the map.
pub(crate) proof fn lemma_remove(es: Seq<Entry>, i: int)
    requires
        distinct(es),
        typed(es),
        0 <= i < es.len(),
    ensures
        distinct(es.remove(i)),
        typed(es.remove(i)),
        as_map(es.remove(i)) == as_map(es).remove(es[i].name@),
{
    let after = es.remove(i);
    let shift = |j: int| if j < i { j } else { j + 1 };
    assert forall|j: int| 0 <= j < after.len() implies #[trigger] after[j] == es[shift(j)] by {}
    assert forall|n: Seq<char>| present(after, n) <==> (present(es, n) && n != es[i].name@) by {
        if present(after, n) {
            assert(located(es, n, shift(find(after, n))));
        }
        if present(es, n) && n != es[i].name@ {
            let j = find(es, n);
            assert(located(after, n, if j < i { j } else { j - 1 }));
        }
    }
    assert forall|n: Seq<char>| present(after, n) implies #[trigger] as_map(after)[n] == as_map(
        es,
    )[n] by {
        let j = find(after, n);
        lemma_located(after, n, j);
        lemma_located(es, n, shift(j));
    }
}

/// The map of the first `k + 1` entries is that of the first `k` with entry `k`
/// set in it.
pub(crate) proof fn lemma_prefix(es: Seq<Entry>, k: int)
    requires
        distinct(es),
        typed(es),
        0 <= k < es.len(),
    ensures
        distinct(es.take(k)),
        typed(es.take(k)),
        as_map(es.take(k + 1)) == as_map(es.take(k)).insert(es[k].name@, es[k].value),
{
    let head = es.take(k);
    assert forall|j: int| 0 <= j < k implies #[trigger] head[j] == es[j] by {}
    assert(!present(head, es[k].name@)) by {
        if present(head, es[k].name@) {
            assert(es[find(head, es[k].name@)].name@ != es[k].name@);
        }
    }
    lemma_push(head, es[k]);
    assert(es.take(k + 1) =~= head.push(es[k]));
}

} // verus!
