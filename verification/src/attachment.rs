//! The attachment set: values of any type, stored under names.
//!
//! A store maps each name to one slot. A slot keeps a handle to its value and,
//! beside it, the token of the value's type; a value is read back only under the
//! type it was stored as. In contracts a store is the map from its names to the
//! handles, and what a handle carries is said by `carries`, `holds` and `reads`.

use crate::entries::as_map;
use crate::entries::distinct;
use crate::entries::lemma_dom;
use crate::entries::lemma_located;
use crate::entries::lemma_prefix;
use crate::entries::lemma_push;
use crate::entries::lemma_remove;
use crate::entries::lemma_replace;
use crate::entries::located;
use crate::entries::names_of;
use crate::entries::present;
use crate::entries::typed;
use crate::entries::Entry;
use crate::handle::carries;
use crate::handle::downcast;
use crate::handle::held_type;
use crate::handle::holds;
use crate::handle::reads;
use crate::handle::share;
use crate::handle::type_token;
use crate::handle::Handle;
use std::any::TypeId;
use std::rc::Rc;
use vstd::prelude::*;

verus! {

/// A set of named attachments, each of a type of its own.
pub struct AttachmentSet {
    pub(crate) entries: Vec<Entry>,
}

impl View for AttachmentSet {
    type V = Map<Seq<char>, Handle>;

    /// The store as a map from each name to the handle kept under it.
    closed spec fn view(&self) -> Map<Seq<char>, Handle> {
        as_map(self.entries@)
    }
}

impl AttachmentSet {
    /// No name occurs twice, and the token kept in each slot is that of the type
    /// of the slot's value.
    pub closed spec fn wf(&self) -> bool {
        distinct(self.entries@) && typed(self.entries@)
    }

    /// The names, in the order in which a walk over the store meets them.
    pub closed spec fn names(&self) -> Seq<Seq<char>> {
        names_of(self.entries@)
    }

    /// A value of type `T` is stored under `name`.
    pub open spec fn has_type<T: 'static>(&self, name: Seq<char>) -> bool {
        self@.contains_key(name) && holds::<T>(self@[name])
    }

    /// The value `v` of type `T` is stored under `name`.
    pub open spec fn has_value<T: 'static>(&self, name: Seq<char>, v: T) -> bool {
        self@.contains_key(name) && carries(self@[name], v)
    }

    /// What reading a `T` under `name` owes: the value stored there if there is
    /// one and it is a `T`, nothing otherwise.
    pub open spec fn reads<T: 'static>(&self, name: Seq<char>, got: Option<T>) -> bool {
        if self@.contains_key(name) {
            reads(self@[name], got)
        } else {
            got is None
        }
    }

    /// What `view`, `names` and `wf` say of the slots themselves.
    pub(crate) proof fn lemma_slots(&self)
        ensures
            self@ == as_map(self.entries@),
            self.names() == names_of(self.entries@),
            self.wf() == (distinct(self.entries@) && typed(self.entries@)),
    {
    }

    /// An empty store.
    pub fn new() -> (s: Self)
        ensures
            s.wf(),
            s@ == Map::<Seq<char>, Handle>::empty(),
    {
        Self { entries: Vec::new() }
    }

    /// Whether the store has no attachment.
    pub fn is_empty(&self) -> (r: bool)
        requires
            self.wf(),
        ensures
            r == self@.is_empty(),
    {
        proof {
            lemma_dom(self.entries@);
        }
        self.entries.is_empty()
    }

    /// The number of attachments.
    pub fn len(&self) -> (r: usize)
        requires
            self.wf(),
        ensures
            r == self@.len(),
    {
        proof {
            lemma_dom(self.entries@);
        }
        self.entries.len()
    }

    /// The index of the slot called `name`, if there is one.
    fn position(&self, name: &str) -> (r: Option<usize>)
        ensures
            match r {
                Some(i) => located(self.entries@, name@, i as int),
                None => !present(self.entries@, name@),
            },
    {
        let mut i: usize = 0;
        while i < self.entries.len()
            invariant
                i <= self.entries@.len(),
                forall|j: int| 0 <= j < i ==> self.entries@[j].name@ != name@,
            decreases self.entries@.len() - i,
        {
            if *self.entries[i].name.as_str() == *name {
                return Some(i);
            }
            i += 1;
        }
        None
    }

    /// Whether anything is stored under `name`, of whatever type.
    pub fn contains(&self, name: &str) -> (r: bool)
        ensures
            r == self@.contains_key(name@),
    {
        self.position(name).is_some()
    }

    /// Whether a value of type `T` is stored under `name`.
    pub fn contains_type<T: 'static>(&self, name: &str) -> (r: bool)
        requires
            self.wf(),
        ensures
            r == self.has_type::<T>(name@),
    {
        match self.position(name) {
            Some(i) => {
                proof {
                    lemma_located(self.entries@, name@, i as int);
                }
                self.entries[i].type_id == type_token::<T>()
            },
            None => false,
        }
    }

    /// A new handle to the value stored under `name`, if that value is a `T`. A
    /// name that is absent and a value of another type both give `None`. The store
    /// itself stays as it is.
    pub fn get<T: 'static>(&self, name: &str) -> (r: Option<Rc<T>>)
        requires
            self.wf(),
        ensures
            match r {
                Some(got) => self.reads(name@, Some(*got)),
                None => self.reads::<T>(name@, None),
            },
    {
        match self.position(name) {
            Some(i) => {
                proof {
                    lemma_located(self.entries@, name@, i as int);
                }
                let entry = &self.entries[i];
                if entry.type_id == type_token::<T>() {
                    downcast::<T>(share(&entry.value))
                } else {
                    None
                }
            },
            None => None,
        }
    }

    /// Puts a slot under `name`, in place of the one that was there if any.
    fn put(&mut self, name: String, type_id: TypeId, value: Handle)
        requires
            old(self).wf(),
            type_id == held_type(value),
        ensures
            final(self).wf(),
            final(self)@ == old(self)@.insert(name@, value),
    {
        let found = self.position(name.as_str());
        let entry = Entry { name, type_id, value };
        match found {
            Some(i) => {
                proof {
                    lemma_replace(self.entries@, i as int, entry);
                }
                self.entries.set(i, entry);
            },
            None => {
                proof {
                    lemma_push(self.entries@, entry);
                }
                self.entries.push(entry);
            },
        }
    }

    /// Stores `value` under `name` behind a fresh handle. What was stored under
    /// `name` before, of whatever type, is replaced; every other slot stays.
    pub fn set<T: 'static>(&mut self, name: String, value: T)
        requires
            old(self).wf(),
        ensures
            final(self).wf(),
            final(self).has_value(name@, value),
            final(self)@ == old(self)@.insert(name@, final(self)@[name@]),
    {
        let type_id = type_token::<T>();
        let handle = Handle::new(value);
        self.put(name, type_id, handle);
    }

    /// Removes the slot called `name` and says whether there was one.
    pub fn remove(&mut self, name: &str) -> (r: bool)
        requires
            old(self).wf(),
        ensures
            final(self).wf(),
            r == old(self)@.contains_key(name@),
            final(self)@ == old(self)@.remove(name@),
    {
        match self.position(name) {
            Some(i) => {
                proof {
                    lemma_remove(self.entries@, i as int);
                }
                let _ = self.entries.remove(i);
                true
            },
            None => false,
        }
    }

    /// Removes every slot.
    pub fn clear(&mut self)
        ensures
            final(self).wf(),
            final(self)@ == Map::<Seq<char>, Handle>::empty(),
    {
        self.entries.clear();
    }

    /// Takes over every slot of `other`, sharing its values: where both stores
    /// have a name, the slot of `other` wins.
    pub fn merge(&mut self, other: &AttachmentSet)
        requires
            old(self).wf(),
            other.wf(),
        ensures
            final(self).wf(),
            final(self)@ == old(self)@.union_prefer_right(other@),
    {
        let mut i: usize = 0;
        while i < other.entries.len()
            invariant
                i <= other.entries@.len(),
                other.wf(),
                self.wf(),
                self@ == old(self)@.union_prefer_right(as_map(other.entries@.take(i as int))),
            decreases other.entries@.len() - i,
        {
            let entry = &other.entries[i];
            proof {
                lemma_prefix(other.entries@, i as int);
                let head = as_map(other.entries@.take(i as int));
                assert(old(self)@.union_prefer_right(head).insert(entry.name@, entry.value)
                    =~= old(self)@.union_prefer_right(head.insert(entry.name@, entry.value)));
            }
            self.put(entry.name.clone(), entry.type_id, share(&entry.value));
            i += 1;
        }
        assert(other.entries@.take(i as int) =~= other.entries@);
    }
}

impl Default for AttachmentSet {
    /// An empty store.
    fn default() -> (s: Self)
        ensures
            s.wf(),
            s@ == Map::<Seq<char>, Handle>::empty(),
    {
        AttachmentSet::new()
    }
}

} // verus!
