//! What holds of a store across calls.
//!
//! Each function here is a theorem over the views and predicates that the
//! contracts of the store use. A store parameter stands for the store at some
//! moment; a hypothesis about it is what the call named in the doc comment ensures.

use crate::attachment::AttachmentSet;
use crate::entries::lemma_dom;
use crate::handle::apart;
use crate::handle::carries;
use crate::handle::lemma_one_type;
use crate::handle::Handle;
use vstd::prelude::*;

verus! {

/// What is stored is what is read back: once `set(name, value)` has left `value`
/// under `name`, a `get` of that type under `name` gives `value`.
pub proof fn lemma_read_back<T: 'static>(
    store: AttachmentSet,
    name: Seq<char>,
    value: T,
    got: Option<T>,
)
    requires
        store.has_value(name, value),
        store.reads(name, got),
    ensures
        got == Some(value),
{
}

/// A value is read back under its own type only: once `set(name, value)` has left
/// a `T` under `name`, a `get` of another type `U` under `name` gives nothing.
pub proof fn lemma_read_back_other_type<T: 'static, U: 'static>(
    store: AttachmentSet,
    name: Seq<char>,
    value: T,
    got: Option<U>,
)
    requires
        apart::<T, U>(),
        store.has_value(name, value),
        store.reads(name, got),
    ensures
        got is None,
{
    lemma_one_type::<T, U>(store@[name]);
}

/// A replacement takes the type with it: after `set(name, first)` and then
/// `set(name, second)` with a `second` of another type, the name no longer has the
/// type of `first`, and has that of `second`.
pub proof fn lemma_replaced_type<T: 'static, U: 'static>(
    before: AttachmentSet,
    after: AttachmentSet,
    name: Seq<char>,
    first: T,
    second: U,
)
    requires
        apart::<T, U>(),
        before.has_value(name, first),
        after.has_value(name, second),
        after@ == before@.insert(name, after@[name]),
    ensures
        !after.has_type::<T>(name),
        after.has_type::<U>(name),
{
    lemma_one_type::<T, U>(after@[name]);
}

/// A removal shows: after `remove(name)` nothing is stored under `name`, a `get`
/// of any type under it gives nothing, and every other name is as it was.
pub proof fn lemma_removed<T: 'static>(
    before: AttachmentSet,
    after: AttachmentSet,
    name: Seq<char>,
    got: Option<T>,
)
    requires
        after@ == before@.remove(name),
        after.reads(name, got),
    ensures
        !after@.contains_key(name),
        !after.has_type::<T>(name),
        got is None,
        forall|other: Seq<char>|
            other != name ==> after@.contains_key(other) == before@.contains_key(other),
        forall|other: Seq<char>|
            other != name && before@.contains_key(other) ==> after@[other] == before@[other],
{
}

/// A merge overwrites by name: after `merge(other)` the store has a name if either
/// store had it, with the handle of `other` where `other` has the name and with
/// its own where only it has the name.
pub proof fn lemma_merged(
    before: AttachmentSet,
    other: AttachmentSet,
    after: AttachmentSet,
    name: Seq<char>,
)
    requires
        after@ == before@.union_prefer_right(other@),
    ensures
        after@.contains_key(name) == (before@.contains_key(name) || other@.contains_key(name)),
        other@.contains_key(name) ==> after@[name] == other@[name],
        before@.contains_key(name) && !other@.contains_key(name) ==> after@[name] == before@[name],
{
}

/// After `merge(other)`, a name that `other` has reads in the merged store as it
/// reads in `other`, of whatever type its value was in the merged store before.
pub proof fn lemma_merged_reads<T: 'static>(
    before: AttachmentSet,
    other: AttachmentSet,
    after: AttachmentSet,
    name: Seq<char>,
    got: Option<T>,
)
    requires
        after@ == before@.union_prefer_right(other@),
        other@.contains_key(name),
    ensures
        after.reads(name, got) == other.reads(name, got),
        after.has_type::<T>(name) == other.has_type::<T>(name),
{
}

/// A walk is complete: the names that `iter` and `iter_mut` go through are the
/// names of the store, each of them once.
pub proof fn lemma_names(store: AttachmentSet)
    requires
        store.wf(),
    ensures
        store.names().no_duplicates(),
        store.names().to_set() == store@.dom(),
        store.names().len() == store@.len(),
        store@.dom().finite(),
        forall|name: Seq<char>| store.names().contains(name) == store@.contains_key(name),
{
    store.lemma_slots();
    lemma_dom(store.entries@);
    assert forall|name: Seq<char>| store.names().contains(name) == store@.contains_key(
        name,
    ) by {
        assert(store.names().to_set().contains(name) == store@.dom().contains(name));
    }
}

/// A write during a walk stays: when `iter_mut` has left under `name` a handle
/// that carries `value`, in a store that had the name, a `get` of that type under
/// `name` gives `value`, and the store has the names it had.
pub proof fn lemma_written_is_read<T: 'static>(
    before: AttachmentSet,
    after: AttachmentSet,
    name: Seq<char>,
    written: Handle,
    value: T,
    got: Option<T>,
)
    requires
        before@.contains_key(name),
        after@ == before@.insert(name, written),
        carries(written, value),
        after.reads(name, got),
    ensures
        got == Some(value),
        after@.dom() == before@.dom(),
{
}

} // verus!
