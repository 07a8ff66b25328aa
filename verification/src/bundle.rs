//! The mediator a handler works through while it runs.

use vstd::prelude::*;

use crate::object::ObjectId;

verus! {

/// A change of the registry that a handler has asked for.
pub enum Request<T> {
    /// Bind `object` under `id`.
    Create { id: ObjectId, object: T },
    /// Remove whatever is bound under `id`.
    Destroy { id: ObjectId },
}

impl<T> Request<T> {
    /// The identifier the request is about.
    pub open spec fn id(self) -> ObjectId {
        match self {
            Request::Create { id, object } => id,
            Request::Destroy { id } => id,
        }
    }
}

/// Mathematical content of a [`Bundle`].
pub struct BundleView<T> {
    /// The changes asked for, oldest first.
    pub requests: Seq<Request<T>>,
    /// The bytes written to the peer, in the order they were written.
    pub outbound: Seq<u8>,
}

/// Restricted access to the registry and to the outbound channel, lent to a
/// handler for the length of one call.
///
/// A handler owns neither. What it asks for is recorded here in order and
/// carried out by the router once the handler has returned.
pub struct Bundle<T> {
    requests: Vec<Request<T>>,
    outbound: Vec<u8>,
}

impl<T> View for Bundle<T> {
    type V = BundleView<T>;

    closed spec fn view(&self) -> BundleView<T> {
        BundleView { requests: self.requests@, outbound: self.outbound@ }
    }
}

impl<T> Bundle<T> {
    /// Makes a mediator through which nothing has been asked or written yet.
    pub fn new() -> (bundle: Self)
        ensures
            bundle@.requests == Seq::<Request<T>>::empty(),
            bundle@.outbound == Seq::<u8>::empty(),
    {
        Bundle { requests: Vec::new(), outbound: Vec::new() }
    }

    /// Asks for `object` to be bound under `id`.
    pub fn add_object(&mut self, id: ObjectId, object: T)
        ensures
            final(self)@.requests == old(self)@.requests.push(Request::Create { id, object }),
            final(self)@.outbound == old(self)@.outbound,
    {
        self.requests.push(Request::Create { id, object });
    }

    /// Asks for the object bound under `id` to be removed. A handler may name
    /// its own identifier.
    pub fn remove_object(&mut self, id: ObjectId)
        ensures
            final(self)@.requests == old(self)@.requests.push(Request::Destroy { id }),
            final(self)@.outbound == old(self)@.outbound,
    {
        self.requests.push(Request::Destroy { id });
    }

    /// Writes `message` to the peer, after everything written before.
    pub fn send(&mut self, message: &[u8])
        ensures
            final(self)@.requests == old(self)@.requests,
            final(self)@.outbound == old(self)@.outbound + message@,
    {
        let mut i: usize = 0;
        while i < message.len()
            invariant
                i <= message@.len(),
                self.requests@ == old(self).requests@,
                self.outbound@ == old(self).outbound@ + message@.take(i as int),
            decreases message@.len() - i,
        {
            self.outbound.push(message[i]);
            assert(message@.take(i + 1) =~= message@.take(i as int).push(message@[i as int]));
            assert(self.outbound@ =~= old(self).outbound@ + message@.take(i + 1));
            i = i + 1;
        }
        assert(message@.take(i as int) =~= message@);
    }

    /// Takes the mediator apart into what was asked for and what was written.
    pub fn into_parts(self) -> (parts: (Vec<Request<T>>, Vec<u8>))
        ensures
            parts.0@ == self@.requests,
            parts.1@ == self@.outbound,
    {
        (self.requests, self.outbound)
    }
}

} // verus!
