//! Pointers to a value that several tasks look at.
//!
//! What can be done with a pointer depends on its kind. Who keeps a value holds
//! a `Kept` pointer, which counts the pointers that were lent from it. A `Lent`
//! pointer cannot be multiplied. So a value whose keeper has lent it `n` times
//! has `n` pointers besides that of the keeper, less those that were dropped.

use std::marker::PhantomData;
use std::sync::Arc;
use vstd::prelude::*;

verus! {

/// The kind of a pointer that can be copied freely.
pub struct Loose;

/// The kind of a pointer that lends others and counts them.
pub struct Kept;

/// The kind of a pointer that was lent.
pub struct Lent;

/// One of possibly many pointers to a value.
///
/// The mark keeps a pointer apart, in contracts, from those that were copied or
/// lent from it. Of a kept pointer it is how many were lent.
pub struct Shared<T, K = Loose> {
    arc: Arc<T>,
    mark: Ghost<nat>,
    kind: PhantomData<K>,
}

/// `Arc::try_unwrap` gives the value out if no other pointer to it is left, and
/// gives the pointer back if one is.
#[verifier::external_body]
pub(crate) fn arc_try_unwrap<T, K>(pointer: Shared<T, K>) -> (result: Result<T, Shared<T, K>>)
    ensures
        match result {
            Ok(value) => value == pointer.value(),
            Err(back) => back == pointer,
        },
{
    let Shared { arc, mark, kind } = pointer;
    match Arc::try_unwrap(arc) {
        Ok(value) => Ok(value),
        Err(arc) => Err(Shared { arc, mark, kind }),
    }
}

/// `other` came out of a call of `Shared::copy` on `pointer`.
pub open spec fn copied<T>(pointer: Shared<T>, other: Shared<T>) -> bool {
    call_ensures(Shared::<T, Loose>::copy, (&pointer,), other)
}

/// A call of `Shared::lend` on `before` left `after` and gave `other` out.
pub open spec fn lent<T>(
    before: Shared<T, Kept>,
    after: Shared<T, Kept>,
    other: Shared<T, Lent>,
) -> bool {
    call_ensures(Shared::<T, Kept>::lend, (before,), (after, other))
}

impl<T, K> Shared<T, K> {
    /// What it points to.
    pub closed spec fn value(self) -> T {
        *self.arc
    }

    /// How many pointers were lent from it.
    pub closed spec fn copies(self) -> nat {
        self.mark@
    }

    /// The first pointer to `value`.
    pub fn new(value: T) -> (pointer: Self)
        ensures
            pointer.value() == value,
            pointer.copies() == 0,
    {
        Shared { arc: Arc::new(value), mark: Ghost(0), kind: PhantomData }
    }

    /// The value.
    pub fn get(&self) -> (value: &T)
        ensures
            *value == self.value(),
    {
        &self.arc
    }
}

impl<T> Shared<T, Loose> {
    /// Another pointer to the same value.
    pub fn copy(&self) -> (other: Self)
        ensures
            other.value() == self.value(),
    {
        Shared { arc: self.arc.clone(), mark: Ghost(self.mark@ + 1), kind: PhantomData }
    }
}

impl<T> Shared<T, Kept> {
    /// Lends another pointer to the same value.
    pub fn lend(self) -> (result: (Self, Shared<T, Lent>))
        ensures
            result.0.value() == self.value(),
            result.0.copies() == self.copies() + 1,
            result.1.value() == self.value(),
    {
        let arc = self.arc.clone();
        let other = Shared { arc, mark: Ghost(self.mark@), kind: PhantomData };
        (Shared { arc: self.arc, mark: Ghost(self.mark@ + 1), kind: PhantomData }, other)
    }
}

} // verus!
