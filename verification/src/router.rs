//! The registry of protocol objects and the routing of messages to them.

use std::collections::hash_map::Entry;
use std::collections::HashMap;

use vstd::prelude::*;

use crate::bundle::{Bundle, BundleView, Request};
use crate::cursor::Cursor;
use crate::defs::{Header, SkylaneError, Task};
use crate::object::{Object, ObjectId};
use crate::registry::{RouterView, lemma_conflict_persists, lemma_settle_keeps_wf};

verus! {

broadcast use vstd::std_specs::hash::group_hash_axioms;

/// Owner of the registry of one connection.
///
/// A router starts out well formed and every operation keeps it so: the null
/// identifier is never bound, and no identifier is bound twice.
pub struct Router<T: Object> {
    objects: HashMap<u32, T>,
    outbound: Vec<u8>,
}

impl<T: Object> View for Router<T> {
    type V = RouterView<T>;

    closed spec fn view(&self) -> RouterView<T> {
        RouterView { objects: self.objects@, outbound: self.outbound@ }
    }
}

impl<T: Object> Router<T> {
    /// Makes a router with an empty registry and nothing to send.
    pub fn new() -> (router: Self)
        ensures
            router@.objects == Map::<u32, T>::empty(),
            router@.outbound == Seq::<u8>::empty(),
            router@.wf(),
    {
        Router { objects: HashMap::new(), outbound: Vec::new() }
    }

    /// Tells whether an object is bound under `id`.
    pub fn contains(&self, id: ObjectId) -> (bound: bool)
        ensures
            bound == self@.bound(id),
    {
        let key: u32 = id.get_value();
        self.objects.contains_key(&key)
    }

    /// Binds `object` under `id`.
    ///
    /// Fails with [`SkylaneError::DuplicateBinding`], and changes nothing, when
    /// `id` is null or already bound.
    pub fn register(&mut self, id: ObjectId, object: T) -> (done: Result<(), SkylaneError>)
        ensures
            final(self)@ == old(self)@.register(id, object).0,
            done == old(self)@.register(id, object).1,
            old(self)@.wf() ==> final(self)@.wf(),
    {
        let key: u32 = id.get_value();
        if key == 0 || self.objects.contains_key(&key) {
            return Err(SkylaneError::DuplicateBinding { object_id: id });
        }
        self.objects.insert(key, object);
        Ok(())
    }

    /// Removes the binding of `id` and hands the object back.
    ///
    /// Fails with [`SkylaneError::UnknownObject`], and changes nothing, when no
    /// object is bound under `id`.
    pub fn unregister(&mut self, id: ObjectId) -> (removed: Result<T, SkylaneError>)
        ensures
            final(self)@ == old(self)@.unregister(id).0,
            removed == old(self)@.unregister(id).1,
            old(self)@.wf() ==> final(self)@.wf(),
    {
        let key: u32 = id.get_value();
        match self.objects.remove(&key) {
            Some(object) => Ok(object),
            None => {
                assert(self.objects@ =~= old(self).objects@);
                Err(SkylaneError::UnknownObject { object_id: id })
            },
        }
    }

    /// Finds the first of `requests` that cannot be carried out once those
    /// before it have been.
    fn first_conflict(&self, requests: &Vec<Request<T>>) -> (found: Option<ObjectId>)
        ensures
            found == self@.conflict(requests@),
    {
        // For each identifier that a request so far was about: is it bound now?
        let mut touched: HashMap<u32, bool> = HashMap::new();
        let mut i: usize = 0;
        while i < requests.len()
            invariant
                i <= requests@.len(),
                self@.conflict(requests@.take(i as int)) is None,
                forall|key: u32|
                    #![trigger touched@.contains_key(key)]
                    self@.after_requests(requests@.take(i as int)).objects.contains_key(key) == (
                    if touched@.contains_key(key) {
                        touched@[key]
                    } else {
                        self.objects@.contains_key(key)
                    }),
            decreases requests@.len() - i,
        {
            let ghost before = requests@.take(i as int);
            let ghost upto = requests@.take(i + 1);
            assert(upto.drop_last() =~= before);
            assert(upto.last() == requests@[i as int]);
            match &requests[i] {
                Request::Create { id, object: _ } => {
                    let key: u32 = id.get_value();
                    let bound = match touched.get(&key) {
                        Some(bound) => *bound,
                        None => self.objects.contains_key(&key),
                    };
                    if key == 0 || bound {
                        proof {
                            assert(self@.conflict(upto) == Some(*id));
                            lemma_conflict_persists(self@, requests@, i + 1);
                        }
                        return Some(*id);
                    }
                    touched.insert(key, true);
                },
                Request::Destroy { id } => {
                    touched.insert(id.get_value(), false);
                },
            }
            i = i + 1;
        }
        assert(requests@.take(i as int) =~= requests@);
        None
    }

    /// Carries out `requests`, oldest first.
    fn carry_out(&mut self, requests: Vec<Request<T>>)
        ensures
            final(self)@ == old(self)@.after_requests(requests@),
    {
        let ghost asked = requests@;
        let total: usize = requests.len();
        // Popping takes the newest first, so turn the batch round beforehand.
        let mut pending: Vec<Request<T>> = Vec::new();
        let mut requests = requests;
        while requests.len() > 0
            invariant
                asked.len() == total,
                requests@.len() + pending@.len() == asked.len(),
                requests@ == asked.take(requests@.len() as int),
                forall|j: int|
                    0 <= j < pending@.len() ==> pending@[j] == asked[asked.len() - 1 - j],
            decreases requests@.len(),
        {
            match requests.pop() {
                Some(request) => {
                    pending.push(request);
                    assert(requests@ =~= asked.take(requests@.len() as int));
                },
                None => {},
            }
        }
        let mut done: usize = 0;
        while pending.len() > 0
            invariant
                asked.len() == total,
                done + pending@.len() == asked.len(),
                forall|j: int|
                    0 <= j < pending@.len() ==> pending@[j] == asked[asked.len() - 1 - j],
                self@ == old(self)@.after_requests(asked.take(done as int)),
            decreases pending@.len(),
        {
            let ghost upto = asked.take(done + 1);
            assert(upto.drop_last() =~= asked.take(done as int));
            assert(upto.last() == asked[done as int]);
            match pending.pop() {
                Some(Request::Create { id, object }) => {
                    self.objects.insert(id.get_value(), object);
                },
                Some(Request::Destroy { id }) => {
                    let key: u32 = id.get_value();
                    self.objects.remove(&key);
                },
                None => {},
            }
            done = done + 1;
        }
        assert(asked.take(done as int) =~= asked);
    }

    /// Carries out what a handler left behind, given the mediator it worked
    /// through and what it returned.
    ///
    /// What the handler wrote is queued for sending in any case. If the handler
    /// failed, its error is the answer and the registry stays as it is. If one
    /// of its requests cannot be carried out, none is, and the answer is
    /// [`SkylaneError::DuplicateBinding`] with the identifier of the first such
    /// request. Otherwise the requests are carried out in order, then the
    /// handler's instruction is obeyed and handed on.
    pub fn settle(&mut self, bundle: Bundle<T>, outcome: Result<Task, SkylaneError>) -> (answer:
        Result<Task, SkylaneError>)
        ensures
            final(self)@ == old(self)@.settle(bundle@, outcome).0,
            answer == old(self)@.settle(bundle@, outcome).1,
            old(self)@.wf() ==> final(self)@.wf(),
    {
        proof {
            if old(self)@.wf() {
                lemma_settle_keeps_wf(old(self)@, bundle@, outcome);
            }
        }
        let (requests, mut outbound) = bundle.into_parts();
        self.outbound.append(&mut outbound);
        let task = match outcome {
            Ok(task) => task,
            Err(error) => {
                return Err(error);
            },
        };
        match self.first_conflict(&requests) {
            Some(id) => {
                return Err(SkylaneError::DuplicateBinding { object_id: id });
            },
            None => {},
        }
        self.carry_out(requests);
        match task {
            Task::Destroy { id } => {
                let key: u32 = id.get_value();
                self.objects.remove(&key);
            },
            _ => {},
        }
        Ok(task)
    }

    /// Routes one incoming message to the object it is addressed to.
    ///
    /// Before any handler runs the message is refused, and nothing changes,
    /// with [`SkylaneError::InvalidTarget`] if the header names the null
    /// identifier, else with [`SkylaneError::UnknownObject`] if no object is
    /// bound under the target, else with [`SkylaneError::Transport`] if `bytes`
    /// is not as long as the header announces.
    ///
    /// Otherwise the handler of the target runs once, in place, on a fresh
    /// mediator and on cursors that stand at the start of `bytes` and `fds`, and
    /// what it left behind is settled as [`Router::settle`] describes.
    pub fn route(&mut self, header: &Header, bytes: &[u8], fds: &[i32]) -> (answer: Result<
        Task,
        SkylaneError,
    >)
        ensures
            header.target@ == 0 ==> answer == Err::<Task, SkylaneError>(
                SkylaneError::InvalidTarget,
            ) && final(self)@ == old(self)@,
            header.target@ != 0 && !old(self)@.bound(header.target) ==> answer == Err::<
                Task,
                SkylaneError,
            >(SkylaneError::UnknownObject { object_id: header.target }) && final(self)@ == old(
                self,
            )@,
            old(self)@.refusal(*header, bytes@.len()) matches Some(error) ==> answer == Err::<
                Task,
                SkylaneError,
            >(error) && final(self)@ == old(self)@,
            old(self)@.refusal(*header, bytes@.len()) is None ==> exists|
                after: T,
                effects: BundleView<T>,
                outcome: Result<Task, SkylaneError>,
            |
                {
                    &&& #[trigger] T::dispatched(
                        old(self)@.objects[header.target@],
                        *header,
                        bytes@,
                        fds@,
                        after,
                        effects,
                        outcome,
                    )
                    &&& final(self)@ == old(self)@.with_object(header.target, after).settle(
                        effects,
                        outcome,
                    ).0
                    &&& answer == old(self)@.with_object(header.target, after).settle(
                        effects,
                        outcome,
                    ).1
                },
            old(self)@.wf() ==> final(self)@.wf(),
    {
        let key: u32 = header.target.get_value();
        if key == 0 {
            return Err(SkylaneError::InvalidTarget);
        }
        if !self.objects.contains_key(&key) {
            return Err(SkylaneError::UnknownObject { object_id: header.target });
        }
        if bytes.len() != header.length as usize {
            return Err(SkylaneError::Transport);
        }
        let mut bundle: Bundle<T> = Bundle::new();
        let mut bytes_buf = Cursor::new(bytes);
        let mut fds_buf = Cursor::new(fds);
        let outcome = match self.objects.entry(key) {
            Entry::Occupied(entry) => {
                let object = entry.into_mut();
                object.dispatch(&mut bundle, header, &mut bytes_buf, &mut fds_buf)
            },
            Entry::Vacant(_) => Err(SkylaneError::UnknownObject { object_id: header.target }),
        };
        let ghost after = self.objects@[key];
        let ghost effects = bundle@;
        assert(self@ == old(self)@.with_object(header.target, after));
        assert(T::dispatched(
            old(self)@.objects[header.target@],
            *header,
            bytes@,
            fds@,
            after,
            effects,
            outcome,
        ));
        self.settle(bundle, outcome)
    }

    /// Hands over the bytes that handlers have written since the last call.
    pub fn take_outbound(&mut self) -> (bytes: Vec<u8>)
        ensures
            bytes@ == old(self)@.outbound,
            final(self)@.outbound == Seq::<u8>::empty(),
            final(self)@.objects == old(self)@.objects,
    {
        let mut bytes: Vec<u8> = Vec::new();
        bytes.append(&mut self.outbound);
        bytes
    }
}

} // verus!
