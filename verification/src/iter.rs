//! Walking a store, slot by slot: read-only, or with the right to write.
//!
//! A walk is a plain struct with a `next` method. It meets every slot of the store
//! once, in the order of `AttachmentSet::names`, and then says `None` for good.
//! An item of a writing walk borrows from the walk, so it has to be let go before
//! the next one is asked for.

use crate::attachment::AttachmentSet;
use crate::entries::as_map;
use crate::entries::distinct;
use crate::entries::lemma_located;
use crate::entries::lemma_replace;
use crate::entries::located;
use crate::entries::names_of;
use crate::entries::typed;
use crate::entries::Entry;
use crate::handle::carries;
use crate::handle::held_type;
use crate::handle::holds;
use crate::handle::peek;
use crate::handle::peek_mut;
use crate::handle::reads;
use crate::handle::type_token;
use crate::handle::Handle;
use std::any::TypeId;
use vstd::prelude::*;

verus! {

/// One slot of a store, for reading.
pub struct IterItem<'a> {
    name: &'a str,
    type_id: TypeId,
    value: &'a Handle,
}

impl<'a> IterItem<'a> {
    /// The token kept with the slot is that of the value's type.
    pub closed spec fn wf(&self) -> bool {
        self.type_id == held_type(*self.value)
    }

    /// The name of the slot.
    pub closed spec fn key(&self) -> Seq<char> {
        self.name@
    }

    /// The handle kept in the slot.
    pub closed spec fn handle(&self) -> Handle {
        *self.value
    }

    /// The name of the slot.
    pub fn name(&self) -> (r: &str)
        ensures
            r@ == self.key(),
    {
        self.name
    }

    /// Whether the value in the slot is a `T`.
    pub fn is<T: 'static>(&self) -> (r: bool)
        requires
            self.wf(),
        ensures
            r == holds::<T>(self.handle()),
    {
        self.type_id == type_token::<T>()
    }

    /// The value in the slot, if it is a `T`.
    pub fn get<T: 'static>(&self) -> (r: Option<&T>)
        requires
            self.wf(),
        ensures
            match r {
                Some(got) => reads(self.handle(), Some(*got)),
                None => reads::<T>(self.handle(), None),
            },
    {
        if self.is::<T>() {
            peek::<T>(self.value)
        } else {
            None
        }
    }
}

/// A walk over the slots of a store, for reading.
pub struct Iter<'a> {
    entries: &'a Vec<Entry>,
    pos: usize,
}

impl<'a> Iter<'a> {
    /// The store being walked is well formed.
    pub closed spec fn wf(&self) -> bool {
        distinct(self.entries@) && typed(self.entries@)
    }

    /// The store being walked.
    pub closed spec fn store(&self) -> Map<Seq<char>, Handle> {
        as_map(self.entries@)
    }

    /// The names still to come, in the order in which they will come.
    pub closed spec fn pending(&self) -> Seq<Seq<char>> {
        if self.pos <= self.entries@.len() {
            names_of(self.entries@).skip(self.pos as int)
        } else {
            Seq::empty()
        }
    }

    /// The next slot, or `None` once every slot has been met.
    pub fn next(&mut self) -> (r: Option<IterItem<'a>>)
        requires
            old(self).wf(),
        ensures
            final(self).wf(),
            final(self).store() == old(self).store(),
            match r {
                Some(item) => {
                    &&& old(self).pending().len() > 0
                    &&& item.key() == old(self).pending()[0]
                    &&& final(self).pending() == old(self).pending().drop_first()
                    &&& item.wf()
                    &&& old(self).store().contains_key(item.key())
                    &&& item.handle() == old(self).store()[item.key()]
                },
                None => old(self).pending().len() == 0 && final(self).pending() == old(
                    self,
                ).pending(),
            },
    {
        if self.pos < self.entries.len() {
            let entry = &self.entries[self.pos];
            proof {
                lemma_located(self.entries@, entry.name@, self.pos as int);
                assert(old(self).pending().drop_first() =~= names_of(self.entries@).skip(
                    self.pos + 1,
                ));
            }
            self.pos = self.pos + 1;
            Some(IterItem { name: entry.name.as_str(), type_id: entry.type_id, value: &entry.value })
        } else {
            None
        }
    }
}

impl AttachmentSet {
    /// A walk over the slots, for reading.
    pub fn iter(&self) -> (it: Iter<'_>)
        requires
            self.wf(),
        ensures
            it.wf(),
            it.store() == self@,
            it.pending() == self.names(),
    {
        proof {
            self.lemma_slots();
        }
        Iter { entries: &self.entries, pos: 0 }
    }
}

/// One slot of a store, for reading and writing.
///
/// The fields are public so that a contract can speak of the handle that the
/// slot holds once the borrow has ended.
pub struct IterMutItem<'a> {
    pub name: &'a str,
    pub type_id: TypeId,
    pub value: &'a mut Handle,
}

impl<'a> IterMutItem<'a> {
    /// The token kept with the slot is that of the value's type.
    pub open spec fn wf(&self) -> bool {
        self.type_id == held_type(*self.value)
    }

    /// The name of the slot.
    pub open spec fn key(&self) -> Seq<char> {
        self.name@
    }

    /// The handle kept in the slot.
    pub open spec fn handle(&self) -> Handle {
        *self.value
    }

    /// The name of the slot.
    pub fn name(&self) -> (r: &str)
        ensures
            r@ == self.key(),
    {
        self.name
    }

    /// Whether the value in the slot is a `T`.
    pub fn is<T: 'static>(&self) -> (r: bool)
        requires
            self.wf(),
        ensures
            r == holds::<T>(self.handle()),
    {
        self.type_id == type_token::<T>()
    }

    /// The value in the slot, if it is a `T`.
    pub fn get<T: 'static>(&self) -> (r: Option<&T>)
        requires
            self.wf(),
        ensures
            match r {
                Some(got) => reads(self.handle(), Some(*got)),
                None => reads::<T>(self.handle(), None),
            },
    {
        if self.is::<T>() {
            peek::<T>(&*self.value)
        } else {
            None
        }
    }

    /// The value in the slot, to be written, if it is a `T` and nothing else holds
    /// a handle to it just now. The reference starts at the value of the slot, and
    /// the slot ends with what was written through it. Where no reference is
    /// given, the slot stays as it is. The item goes on pointing to the same slot.
    pub fn get_mut<T: 'static>(&mut self) -> (r: Option<&mut T>)
        requires
            old(self).wf(),
        ensures
            final(self).wf(),
            final(self).key() == old(self).key(),
            final(self).type_id == old(self).type_id,
            *final(final(self).value) == *final(old(self).value),
            match r {
                Some(got) => reads(old(self).handle(), Some(*got)) && carries(
                    final(self).handle(),
                    *final(got),
                ),
                None => final(self).handle() == old(self).handle(),
            },
    {
        if self.is::<T>() {
            peek_mut::<T>(&mut *self.value)
        } else {
            None
        }
    }
}

/// A walk over the slots of a store, for reading and writing.
///
/// The fields are public so that a contract can speak of the store as it is once
/// the borrow has ended.
pub struct IterMut<'a> {
    pub store: &'a mut AttachmentSet,
    pub pos: usize,
}

impl<'a> IterMut<'a> {
    /// The names still to come, in the order in which they will come.
    pub open spec fn pending(&self) -> Seq<Seq<char>> {
        if self.pos <= self.store.names().len() {
            self.store.names().skip(self.pos as int)
        } else {
            Seq::empty()
        }
    }

    /// The next slot, or `None` once every slot has been met. With an item, the
    /// store ends as it was but for the handle of that slot, which is the one the
    /// item leaves behind; the store stays well formed if that handle has kept its
    /// type, as it does under `get_mut`. The walk goes on pointing to the same store.
    pub fn next(&mut self) -> (r: Option<IterMutItem<'_>>)
        requires
            old(self).store.wf(),
        ensures
            *final(final(self).store) == *final(old(self).store),
            match r {
                Some(item) => {
                    &&& old(self).pending().len() > 0
                    &&& item.key() == old(self).pending()[0]
                    &&& item.wf()
                    &&& old(self).store@.contains_key(item.key())
                    &&& item.handle() == old(self).store@[item.key()]
                    &&& final(self).pending() == old(self).pending().drop_first()
                    &&& final(self).store.names() == old(self).store.names()
                    &&& final(self).store@ == old(self).store@.insert(
                        item.key(),
                        *final(item.value),
                    )
                    &&& final(self).store.wf() == (held_type(*final(item.value)) == item.type_id)
                },
                None => {
                    &&& old(self).pending().len() == 0
                    &&& final(self).pos == old(self).pos
                    &&& *final(self).store == *old(self).store
                },
            },
    {
        let ghost done = *final(self);
        proof {
            self.store.lemma_slots();
        }
        if self.pos < self.store.entries.len() {
            let i = self.pos;
            self.pos = i + 1;
            let ghost before = self.store.entries@;
            let entry = &mut self.store.entries[i];
            let item = IterMutItem {
                name: entry.name.as_str(),
                type_id: entry.type_id,
                value: &mut entry.value,
            };
            proof {
                lemma_located(before, before[i as int].name@, i as int);
                let after = Entry {
                    name: before[i as int].name,
                    type_id: before[i as int].type_id,
                    value: *final(item.value),
                };
                lemma_replace(before, i as int, after);
                done.store.lemma_slots();
            }
            Some(item)
        } else {
            None
        }
    }
}

impl AttachmentSet {
    /// A walk over the slots, for reading and writing. The store ends as the walk
    /// leaves it.
    pub fn iter_mut(&mut self) -> (it: IterMut<'_>)
        ensures
            it.pos == 0,
            *it.store == *old(self),
            *final(it.store) == *final(self),
    {
        IterMut { store: self, pos: 0 }
    }
}

} // verus!
