//! Mathematical model of a router: what the registry holds and how each
//! operation changes it.

use vstd::prelude::*;

use crate::bundle::{BundleView, Request};
use crate::defs::{Header, SkylaneError, Task};
use crate::object::ObjectId;

verus! {

/// Mathematical content of a router.
pub struct RouterView<T> {
    /// The registry: the object bound under each raw identifier value.
    pub objects: Map<u32, T>,
    /// The bytes that handlers have written to the peer and that the owner of
    /// the connection has not collected yet.
    pub outbound: Seq<u8>,
}

impl<T> RouterView<T> {
    /// The null identifier names no object, so nothing is bound under it.
    pub open spec fn wf(self) -> bool {
        !self.objects.contains_key(0)
    }

    /// Whether an object is bound under `id`.
    pub open spec fn bound(self, id: ObjectId) -> bool {
        self.objects.contains_key(id@)
    }

    /// The same router with `object` standing under `id`.
    pub open spec fn with_object(self, id: ObjectId, object: T) -> Self {
        RouterView { objects: self.objects.insert(id@, object), outbound: self.outbound }
    }

    /// The same router with nothing under `id`.
    pub open spec fn without_object(self, id: ObjectId) -> Self {
        RouterView { objects: self.objects.remove(id@), outbound: self.outbound }
    }

    /// The same router with `bytes` added to what waits to be sent.
    pub open spec fn with_outbound(self, bytes: Seq<u8>) -> Self {
        RouterView { objects: self.objects, outbound: self.outbound + bytes }
    }

    /// Registering `object` under `id`: the router afterwards, and the answer.
    pub open spec fn register(self, id: ObjectId, object: T) -> (Self, Result<(), SkylaneError>) {
        if id@ == 0 || self.bound(id) {
            (self, Err(SkylaneError::DuplicateBinding { object_id: id }))
        } else {
            (self.with_object(id, object), Ok(()))
        }
    }

    /// Unregistering `id`: the router afterwards, and the answer.
    pub open spec fn unregister(self, id: ObjectId) -> (Self, Result<T, SkylaneError>) {
        if self.bound(id) {
            (self.without_object(id), Ok(self.objects[id@]))
        } else {
            (self, Err(SkylaneError::UnknownObject { object_id: id }))
        }
    }

    /// The error that stops a message of `length` payload bytes before any
    /// handler runs, if there is one.
    pub open spec fn refusal(self, header: Header, length: nat) -> Option<SkylaneError> {
        if header.target@ == 0 {
            Some(SkylaneError::InvalidTarget)
        } else if !self.bound(header.target) {
            Some(SkylaneError::UnknownObject { object_id: header.target })
        } else if length != header.length {
            Some(SkylaneError::Transport)
        } else {
            None
        }
    }

    /// Whether `request` cannot be carried out: it would bind an identifier
    /// that is null or already bound.
    pub open spec fn refuses(self, request: Request<T>) -> bool {
        request is Create && (request.id()@ == 0 || self.bound(request.id()))
    }

    /// The router after `request` has been carried out.
    pub open spec fn after_request(self, request: Request<T>) -> Self {
        match request {
            Request::Create { id, object } => self.with_object(id, object),
            Request::Destroy { id } => self.without_object(id),
        }
    }

    /// The router after `requests` have been carried out, oldest first.
    pub open spec fn after_requests(self, requests: Seq<Request<T>>) -> Self
        decreases requests.len(),
    {
        if requests.len() == 0 {
            self
        } else {
            self.after_requests(requests.drop_last()).after_request(requests.last())
        }
    }

    /// The identifier of the first of `requests` that cannot be carried out
    /// once those before it have been, if there is one.
    pub open spec fn conflict(self, requests: Seq<Request<T>>) -> Option<ObjectId>
        decreases requests.len(),
    {
        if requests.len() == 0 {
            None
        } else {
            match self.conflict(requests.drop_last()) {
                Some(id) => Some(id),
                None => if self.after_requests(requests.drop_last()).refuses(requests.last()) {
                    Some(requests.last().id())
                } else {
                    None
                },
            }
        }
    }

    /// The router after the instruction `task` of a handler has been obeyed.
    pub open spec fn after_task(self, task: Task) -> Self {
        match task {
            Task::Destroy { id } => self.without_object(id),
            _ => self,
        }
    }

    /// What becomes of a handler's invocation that left `effects` and returned
    /// `outcome`: the router afterwards, and the answer to the owner of the
    /// connection.
    ///
    /// What the handler wrote is sent in any case. Its requests are carried out
    /// only if it succeeded and all of them can be, and then all of them are,
    /// in order, before the instruction it returned.
    pub open spec fn settle(self, effects: BundleView<T>, outcome: Result<Task, SkylaneError>) -> (
        Self,
        Result<Task, SkylaneError>,
    ) {
        let sent = self.with_outbound(effects.outbound);
        match outcome {
            Err(error) => (sent, Err(error)),
            Ok(task) => match sent.conflict(effects.requests) {
                Some(id) => (sent, Err(SkylaneError::DuplicateBinding { object_id: id })),
                None => (sent.after_requests(effects.requests).after_task(task), Ok(task)),
            },
        }
    }
}

/// A conflict among the first requests is the conflict of the whole batch:
/// what is asked later does not mend it.
pub proof fn lemma_conflict_persists<T>(state: RouterView<T>, requests: Seq<Request<T>>, n: int)
    requires
        0 <= n <= requests.len(),
        state.conflict(requests.take(n)) is Some,
    ensures
        state.conflict(requests) == state.conflict(requests.take(n)),
    decreases requests.len(),
{
    if n == requests.len() {
        assert(requests.take(n) =~= requests);
    } else {
        assert(requests.drop_last().take(n) =~= requests.take(n));
        lemma_conflict_persists(state, requests.drop_last(), n);
    }
}

/// Requests that can all be carried out never bind the null identifier.
pub proof fn lemma_requests_keep_wf<T>(state: RouterView<T>, requests: Seq<Request<T>>)
    requires
        state.wf(),
        state.conflict(requests) is None,
    ensures
        state.after_requests(requests).wf(),
    decreases requests.len(),
{
    if requests.len() > 0 {
        lemma_requests_keep_wf(state, requests.drop_last());
    }
}

/// Requests that can all be carried out hold none that is refused where it stands.
pub proof fn lemma_no_conflict_at<T>(state: RouterView<T>, requests: Seq<Request<T>>, i: int)
    requires
        0 <= i < requests.len(),
        state.conflict(requests) is None,
    ensures
        !state.after_requests(requests.take(i)).refuses(requests[i]),
    decreases requests.len(),
{
    if i == requests.len() - 1 {
        assert(requests.take(i) =~= requests.drop_last());
    } else {
        assert(requests.drop_last().take(i) =~= requests.take(i));
        lemma_no_conflict_at(state, requests.drop_last(), i);
    }
}

/// An object that was asked to be created stays bound under its identifier as
/// long as no later request is about that identifier.
pub proof fn lemma_created_stays_bound<T>(
    state: RouterView<T>,
    requests: Seq<Request<T>>,
    i: int,
    id: ObjectId,
    object: T,
)
    requires
        0 <= i < requests.len(),
        requests[i] == (Request::Create { id, object }),
        forall|j: int| i < j < requests.len() ==> (#[trigger] requests[j]).id()@ != id@,
    ensures
        state.after_requests(requests).bound(id),
        state.after_requests(requests).objects[id@] == object,
    decreases requests.len(),
{
    if i < requests.len() - 1 {
        lemma_created_stays_bound(state, requests.drop_last(), i, id, object);
        assert(requests.last() == requests[requests.len() - 1]);
    }
}

/// Registering a second object under an identifier is refused as a duplicate
/// and changes nothing; if the first registration went through, its object is
/// still the one that is bound.
pub proof fn lemma_second_registration_refused<T>(
    state: RouterView<T>,
    id: ObjectId,
    first: T,
    second: T,
)
    ensures
        ({
            let once = state.register(id, first).0;
            &&& once.register(id, second).0 == once
            &&& once.register(id, second).1 == Err::<(), SkylaneError>(
                SkylaneError::DuplicateBinding { object_id: id },
            )
            &&& state.register(id, first).1 is Ok ==> once.bound(id) && once.objects[id@] == first
        }),
{
}

/// Removing an object that is not there changes nothing, so destroying the
/// same identifier twice is the same as destroying it once.
pub proof fn lemma_destroy_is_idempotent<T>(state: RouterView<T>, id: ObjectId)
    ensures
        !state.bound(id) ==> state.without_object(id) == state,
        state.without_object(id).without_object(id) == state.without_object(id),
{
    assert(!state.bound(id) ==> state.objects.remove(id@) =~= state.objects);
    assert(state.objects.remove(id@).remove(id@) =~= state.objects.remove(id@));
}

/// Once a handler has returned the instruction to destroy an object and its
/// invocation has been settled, a message addressed to that object is refused
/// as naming an unknown object.
pub proof fn lemma_destroyed_is_unknown<T>(
    state: RouterView<T>,
    effects: BundleView<T>,
    id: ObjectId,
    header: Header,
    length: nat,
)
    requires
        id@ != 0,
        header.target == id,
        state.settle(effects, Ok(Task::Destroy { id })).1 is Ok,
    ensures
        state.settle(effects, Ok(Task::Destroy { id })).0.refusal(header, length) == Some(
            SkylaneError::UnknownObject { object_id: id },
        ),
{
}

/// An object that a handler asked to create, without asking anything about its
/// identifier afterwards nor returning the instruction to destroy it, is bound
/// once the invocation has been settled, and a well-framed message addressed
/// to it reaches a handler.
pub proof fn lemma_created_is_routable<T>(
    state: RouterView<T>,
    effects: BundleView<T>,
    task: Task,
    i: int,
    id: ObjectId,
    object: T,
    header: Header,
)
    requires
        0 <= i < effects.requests.len(),
        effects.requests[i] == (Request::Create { id, object }),
        forall|j: int| i < j < effects.requests.len() ==> (#[trigger] effects.requests[j]).id()@ != id@,
        task matches Task::Destroy { id: gone } ==> gone@ != id@,
        state.settle(effects, Ok(task)).1 is Ok,
        header.target == id,
    ensures
        state.settle(effects, Ok(task)).0.objects[id@] == object,
        state.settle(effects, Ok(task)).0.refusal(header, header.length as nat) is None,
{
    let sent = state.with_outbound(effects.outbound);
    lemma_no_conflict_at(sent, effects.requests, i);
    lemma_created_stays_bound(sent, effects.requests, i, id, object);
}

/// Settling a handler's invocation keeps a well-formed router well formed.
pub proof fn lemma_settle_keeps_wf<T>(
    state: RouterView<T>,
    effects: BundleView<T>,
    outcome: Result<Task, SkylaneError>,
)
    requires
        state.wf(),
    ensures
        state.settle(effects, outcome).0.wf(),
{
    let sent = state.with_outbound(effects.outbound);
    if outcome is Ok && sent.conflict(effects.requests) is None {
        lemma_requests_keep_wf(sent, effects.requests);
    }
}

} // verus!
