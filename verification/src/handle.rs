//! Type-erased, reference-counted values and the identity tokens of their types.
//!
//! Verus cannot look inside `Rc<dyn Any>` or `TypeId`, so this module is where the
//! library meets them. Every item marked `external_body`, and every
//! `assume_specification`, is believed and not proved; its doc comment says what is
//! claimed of the std function behind it.
//!
//! A handle is specified the way Verus specifies every `Rc`: by the value it points
//! to. Two handles to one allocation are therefore equal, and a write through a
//! handle is only ever granted while it is the single one.

use std::any::Any;
use std::any::TypeId;
use std::rc::Rc;
use vstd::prelude::*;

verus! {

/// std's `TypeId`, an opaque token that identifies a type. Nothing but equality is
/// ever observed of it.
#[verifier::external_type_specification]
#[verifier::external_body]
pub struct ExTypeId(TypeId);

/// A shared handle to one value of some `'static` type: std's `Rc<dyn Any>`.
#[verifier::external_body]
pub struct Handle {
    inner: Rc<dyn Any>,
}

/// The token of the type of the value behind `h`: what `Any::type_id` gives for it.
pub uninterp spec fn held_type(h: Handle) -> TypeId;

/// `h` is a handle to the value `v` of type `T`: it is what wrapping `v` returns.
pub closed spec fn carries<T: 'static>(h: Handle, v: T) -> bool {
    call_ensures(wrap::<T>, (v,), h)
}

/// The value behind `h` has type `T`.
pub open spec fn holds<T: 'static>(h: Handle) -> bool {
    exists|v: T| carries(h, v)
}

/// What reading `h` as a `T` owes: the one value that `h` carries if that is a `T`,
/// nothing if it is not.
pub open spec fn reads<T: 'static>(h: Handle, got: Option<T>) -> bool {
    match got {
        Some(v) => carries(h, v) && forall|w: T| #[trigger] carries(h, w) ==> w == v,
        None => !holds::<T>(h),
    }
}

/// `t` is the token of the type `T`: the held type of exactly those handles whose
/// value is a `T`.
pub open spec fn token_of<T: 'static>(t: TypeId) -> bool {
    forall|h: Handle| (#[trigger] held_type(h) == t) <==> holds::<T>(h)
}

/// `T` and `U` are two types: their tokens differ.
pub open spec fn apart<T: 'static, U: 'static>() -> bool {
    exists|t: TypeId, u: TypeId| token_of::<T>(t) && token_of::<U>(u) && t != u
}

/// `Rc::new`, followed by the coercion to `Rc<dyn Any>`. Nothing is claimed here:
/// the functions that read a handle say what they find in one that this call made.
#[verifier::external_body]
fn wrap<T: 'static>(value: T) -> (h: Handle) {
    Handle { inner: Rc::new(value) }
}

/// `TypeId::of`. Claimed: what comes back is the token of `T`, which a handle has
/// as its held type if and only if its value is a `T`.
#[verifier::external_body]
pub(crate) fn type_token<T: 'static>() -> (t: TypeId)
    ensures
        token_of::<T>(t),
{
    TypeId::of::<T>()
}

/// `==` on `TypeId`. Claimed: it decides equality of the two tokens.
pub assume_specification[ <TypeId as PartialEq>::eq ](a: &TypeId, b: &TypeId) -> (r: bool)
    ensures
        r == (*a == *b),
;

/// `==` on `str`. Claimed: it decides equality of the two texts.
pub assume_specification[ <str as PartialEq>::eq ](a: &str, b: &str) -> (r: bool)
    ensures
        r == (a@ == b@),
;

/// `Rc::clone`. Claimed: the new handle points to the same value.
#[verifier::external_body]
pub(crate) fn share(h: &Handle) -> (r: Handle)
    ensures
        r == *h,
{
    Handle { inner: Rc::clone(&h.inner) }
}

/// `Rc::downcast`. Claimed: the handle comes back as an `Rc<T>` to its value if
/// that is a `T`, and nothing comes back otherwise; a handle has one value only.
#[verifier::external_body]
pub(crate) fn downcast<T: 'static>(h: Handle) -> (r: Option<Rc<T>>)
    ensures
        match r {
            Some(got) => reads(h, Some(*got)),
            None => reads::<T>(h, None),
        },
{
    match h.inner.downcast::<T>() {
        Ok(got) => Some(got),
        Err(_) => None,
    }
}

/// `<dyn Any>::downcast_ref`. Claimed: a reference to the value comes back if that
/// is a `T`, and nothing comes back otherwise; a handle has one value only.
#[verifier::external_body]
pub(crate) fn peek<T: 'static>(h: &Handle) -> (r: Option<&T>)
    ensures
        match r {
            Some(got) => reads(*h, Some(*got)),
            None => reads::<T>(*h, None),
        },
{
    h.inner.downcast_ref::<T>()
}

/// `Rc::get_mut`, then `<dyn Any>::downcast_mut` on what it gives. Claimed: a
/// reference comes back only to a value of type `T`, it starts at the value the
/// handle has, and the handle ends with what is written through it, its held type
/// unchanged; with no reference the handle stays as it is. Whether a reference to
/// a `T` is granted depends on there being no other handle to the value, which no
/// contract can foretell.
#[verifier::external_body]
pub(crate) fn peek_mut<T: 'static>(h: &mut Handle) -> (r: Option<&mut T>)
    ensures
        match r {
            Some(got) => reads(*old(h), Some(*got)) && carries(*final(h), *final(got))
                && held_type(*final(h)) == held_type(*old(h)),
            None => *final(h) == *old(h),
        },
{
    match Rc::get_mut(&mut h.inner) {
        Some(value) => value.downcast_mut::<T>(),
        None => None,
    }
}

impl Handle {
    /// A fresh handle to `value`, shared with nobody.
    pub(crate) fn new<T: 'static>(value: T) -> (h: Handle)
        ensures
            carries(h, value),
    {
        wrap(value)
    }
}

/// Whether `T` and `U` are one type, by their tokens.
pub fn same_type<T: 'static, U: 'static>() -> (r: bool)
    ensures
        r ==> forall|h: Handle| holds::<T>(h) == holds::<U>(h),
        !r ==> apart::<T, U>(),
{
    let t = type_token::<T>();
    let u = type_token::<U>();
    proof {
        if t == u {
            assert forall|h: Handle| holds::<T>(h) == holds::<U>(h) by {
                assert(held_type(h) == t <==> holds::<T>(h));
                assert(held_type(h) == u <==> holds::<U>(h));
            }
        }
    }
    t == u
}

/// A handle holds values of one type only.
pub proof fn lemma_one_type<T: 'static, U: 'static>(h: Handle)
    requires
        apart::<T, U>(),
    ensures
        !(holds::<T>(h) && holds::<U>(h)),
{
    let (t, u) = choose|t: TypeId, u: TypeId| token_of::<T>(t) && token_of::<U>(u) && t != u;
    assert(held_type(h) == t <==> holds::<T>(h));
    assert(held_type(h) == u <==> holds::<U>(h));
}

} // verus!
