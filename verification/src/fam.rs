//! A zero-sized marker for a flexible array member.
//!
//! Several KVM structures end with a variable-length array that lives in the
//! same allocation, directly after the fixed-size header; the header carries
//! the element count in a sibling field (`nmsrs`, `nent`, ...).
//! [`__IncompleteArrayField`] marks the spot where those elements begin.  It
//! owns no storage and its view is always the empty sequence; the raw views
//! of the tail elements depend on a caller-managed allocation and stay
//! outside this crate.

use vstd::prelude::*;

verus! {

/// A typed marker for the start of a flexible array member.  Zero sized; it
/// only fixes the element type and the alignment of the spot it marks.
#[derive(Debug)]
pub struct __IncompleteArrayField<T>(core::marker::PhantomData<T>, [T; 0]);

impl<T> View for __IncompleteArrayField<T> {
    type V = Seq<T>;

    /// The marker holds no elements of its own.
    open spec fn view(&self) -> Seq<T> {
        Seq::<T>::empty()
    }
}

impl<T> __IncompleteArrayField<T> {
    /// A marker; nothing is allocated.
    pub fn new() -> (r: Self)
        ensures
            r@ == Seq::<T>::empty(),
    {
        __IncompleteArrayField(core::marker::PhantomData, [])
    }
}

impl<T> Clone for __IncompleteArrayField<T> {
    /// Cloning a marker just makes another marker.
    fn clone(&self) -> (r: Self)
        ensures
            r@ == Seq::<T>::empty(),
    {
        __IncompleteArrayField::new()
    }
}

impl<T> Default for __IncompleteArrayField<T> {
    /// Same as `new`: a marker holding nothing.
    fn default() -> (r: Self)
        ensures
            r@ == Seq::<T>::empty(),
    {
        __IncompleteArrayField::new()
    }
}

} // verus!
