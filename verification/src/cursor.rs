//! Bounded, position-tracking read-only views over the payload of a message.

use vstd::prelude::*;
use vstd::slice::slice_subrange;

use crate::defs::SkylaneError;

verus! {

/// Mathematical content of a [`Cursor`]: everything it was made over, and how
/// much of that has been read.
pub struct CursorView<T> {
    /// The items the cursor ranges over, read and unread alike.
    pub data: Seq<T>,
    /// Number of items read so far.
    pub position: int,
}

impl<T> CursorView<T> {
    /// The items that have not been read yet.
    pub open spec fn unread(self) -> Seq<T> {
        self.data.subrange(self.position, self.data.len() as int)
    }

    /// Number of items that have not been read yet.
    pub open spec fn remaining(self) -> int {
        self.data.len() - self.position
    }

    /// The view after `count` more items have been read.
    pub open spec fn advanced(self, count: int) -> Self {
        CursorView { data: self.data, position: self.position + count }
    }
}

/// Read-only view over a slice that remembers how far it has been read.
///
/// Reading never goes past the end of the slice: a read that asks for more than
/// is left fails and leaves the cursor where it was.
pub struct Cursor<'a, T> {
    data: &'a [T],
    position: usize,
}

impl<'a, T> View for Cursor<'a, T> {
    type V = CursorView<T>;

    closed spec fn view(&self) -> CursorView<T> {
        CursorView { data: self.data@, position: self.position as int }
    }
}

impl<'a, T> Cursor<'a, T> {
    #[verifier::type_invariant]
    spec fn within_bounds(self) -> bool {
        self.position <= self.data@.len()
    }

    /// Makes a cursor over `data`, positioned at its first item.
    pub fn new(data: &'a [T]) -> (cursor: Self)
        ensures
            cursor@.data == data@,
            cursor@.position == 0,
    {
        Cursor { data, position: 0 }
    }

    /// Number of items read so far.
    pub fn position(&self) -> (position: usize)
        ensures
            position == self@.position,
            position <= self@.data.len(),
    {
        proof {
            use_type_invariant(self);
        }
        self.position
    }

    /// Number of items still to be read.
    pub fn remaining(&self) -> (remaining: usize)
        ensures
            remaining == self@.remaining(),
            0 <= self@.position <= self@.data.len(),
    {
        proof {
            use_type_invariant(self);
        }
        self.data.len() - self.position
    }

    /// Reads the next `count` items and moves past them.
    ///
    /// Fails with [`SkylaneError::MalformedPayload`], without moving, when fewer
    /// than `count` items are left.
    pub fn take(&mut self, count: usize) -> (taken: Result<&'a [T], SkylaneError>)
        ensures
            count <= old(self)@.remaining() ==> taken is Ok
                && taken->Ok_0@ == old(self)@.unread().take(count as int)
                && final(self)@ == old(self)@.advanced(count as int),
            count > old(self)@.remaining() ==> taken == Err::<&[T], SkylaneError>(
                SkylaneError::MalformedPayload,
            ) && final(self)@ == old(self)@,
    {
        proof {
            use_type_invariant(&*self);
        }
        if count > self.data.len() - self.position {
            return Err(SkylaneError::MalformedPayload);
        }
        let start: usize = self.position;
        let taken = slice_subrange(self.data, start, start + count);
        self.position = start + count;
        assert(taken@ =~= old(self)@.unread().take(count as int));
        Ok(taken)
    }

    /// Reads the next item and moves past it.
    ///
    /// Fails with [`SkylaneError::MalformedPayload`], without moving, when
    /// nothing is left.
    pub fn read(&mut self) -> (item: Result<T, SkylaneError>) where T: Copy
        ensures
            old(self)@.remaining() > 0 ==> item == Ok::<T, SkylaneError>(
                old(self)@.data[old(self)@.position],
            ) && final(self)@ == old(self)@.advanced(1),
            old(self)@.remaining() <= 0 ==> item == Err::<T, SkylaneError>(
                SkylaneError::MalformedPayload,
            ) && final(self)@ == old(self)@,
    {
        proof {
            use_type_invariant(&*self);
        }
        if self.position >= self.data.len() {
            return Err(SkylaneError::MalformedPayload);
        }
        let item = self.data[self.position];
        self.position = self.position + 1;
        Ok(item)
    }
}

} // verus!
