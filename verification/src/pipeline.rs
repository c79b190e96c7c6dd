//! The pipeline a handler runs: an optional pre-hook, the persistence
//! operation, an optional post-hook, the envelope.
//!
//! The pipeline decides; it calls nothing. Each step hands out the action to
//! perform next and takes back, as an event, what performing it gave.

use crate::negotiated::{Responder, ResponderError, ResponderStatus};
use vstd::prelude::*;

verus! {

/// A value that can be copied.
pub trait Duplicate: Sized {
    fn duplicate(&self) -> (copy: Self)
        ensures
            copy == *self,
    ;
}

/// A row of an entity: a value with an identity that can be replaced.
pub trait Identified: Duplicate {
    /// The row's identity.
    spec fn identity(&self) -> i32;

    /// The row with its identity replaced.
    spec fn with_identity(self, id: i32) -> Self;

    /// Replacing the identity sets it.
    proof fn lemma_with_identity(self, id: i32)
        ensures
            self.with_identity(id).identity() == id,
    ;

    fn id(&self) -> (id: i32)
        ensures
            id == self.identity(),
    ;

    fn with_id(self, id: i32) -> (row: Self)
        ensures
            row == self.with_identity(id),
    ;
}

/// What a caller asks of an entity: `T` is the entity's row, `N` its
/// companion without identity.
#[derive(Debug, PartialEq, Eq)]
pub enum Request<T, N> {
    /// Create a row from a companion value.
    Create(N),
    /// Fetch the row addressed by an identifier.
    Fetch(i32),
    /// Replace the row addressed by an identifier with a body.
    Update(i32, T),
    /// Delete the row addressed by an identifier.
    Delete(i32),
}

/// A persistence operation with its argument.
#[derive(Debug, PartialEq, Eq)]
pub enum Operation<T, N> {
    Insert(N),
    FetchOne(i32),
    Update(T),
    Delete(i32),
}

/// What the pipeline wants done next.
#[derive(Debug, PartialEq, Eq)]
pub enum Action<T, N> {
    /// Call the pre-hook of the request's verb on the request.
    Filter(Request<T, N>),
    /// Call the persistence operation.
    Persist(Operation<T, N>),
    /// Call the post-hook of the request's verb on the request as it came
    /// and the persistence result.
    Revise(Request<T, N>, Result<T, ResponderError>),
    /// Answer with the envelope; the pipeline is done.
    Respond(Responder<T>),
}

/// What performing an action gave.
#[derive(Debug, PartialEq, Eq)]
pub enum Event<T, N> {
    /// The pre-hook returned.
    Filtered(Result<Request<T, N>, ResponderError>),
    /// The persistence operation returned.
    Persisted(Result<T, ResponderError>),
    /// The post-hook returned.
    Revised(Result<T, ResponderError>),
}

/// Where a pipeline stands.
#[derive(Debug, PartialEq, Eq)]
pub enum Stage<T, N> {
    /// The pre-hook was called on the request and has not returned.
    Filtering(Request<T, N>),
    /// The persistence operation was called for the request and has not
    /// returned.
    Persisting(Request<T, N>),
    /// The post-hook was called and has not returned.
    Revising,
    /// The envelope was handed out.
    Done,
}

/// The pipeline of one request: the entity's two directives and the stage.
#[derive(Debug, PartialEq, Eq)]
pub struct Pipeline<T, N> {
    pub pre: bool,
    pub post: bool,
    pub stage: Stage<T, N>,
}

impl<T: Identified, N: Duplicate> Duplicate for Request<T, N> {
    fn duplicate(&self) -> (copy: Self) {
        match self {
            Request::Create(companion) => Request::Create(companion.duplicate()),
            Request::Fetch(id) => Request::Fetch(*id),
            Request::Update(id, body) => Request::Update(*id, body.duplicate()),
            Request::Delete(id) => Request::Delete(*id),
        }
    }
}

impl<T: Identified, N: Duplicate> Request<T, N> {
    /// The persistence operation that serves `self` once the pre-hook, if
    /// any, has turned it into `effective`. An update persists the effective
    /// body under the identifier that `self` was addressed with, whatever
    /// identifier the body or the hook carries. There is none where
    /// `effective` is a request of another verb.
    pub open spec fn operation(self, effective: Self) -> Option<Operation<T, N>> {
        match (self, effective) {
            (Request::Create(_), Request::Create(companion)) => Some(Operation::Insert(companion)),
            (Request::Fetch(_), Request::Fetch(id)) => Some(Operation::FetchOne(id)),
            (Request::Update(id, _), Request::Update(_, body)) => Some(
                Operation::Update(body.with_identity(id)),
            ),
            (Request::Delete(_), Request::Delete(id)) => Some(Operation::Delete(id)),
            _ => None,
        }
    }

    /// The persistence operation that serves `self` as it came.
    pub open spec fn direct(self) -> Operation<T, N> {
        match self {
            Request::Create(companion) => Operation::Insert(companion),
            Request::Fetch(id) => Operation::FetchOne(id),
            Request::Update(id, body) => Operation::Update(body.with_identity(id)),
            Request::Delete(id) => Operation::Delete(id),
        }
    }

    /// Computes [`Self::direct`].
    pub fn plan_direct(self) -> (operation: Operation<T, N>)
        ensures
            operation == self.direct(),
    {
        match self {
            Request::Create(companion) => Operation::Insert(companion),
            Request::Fetch(id) => Operation::FetchOne(id),
            Request::Update(id, body) => Operation::Update(body.with_id(id)),
            Request::Delete(id) => Operation::Delete(id),
        }
    }

    /// Computes [`Self::operation`].
    pub fn plan_operation(&self, effective: Self) -> (operation: Option<Operation<T, N>>)
        ensures
            operation == self.operation(effective),
    {
        match (self, effective) {
            (Request::Create(_), Request::Create(companion)) => Some(Operation::Insert(companion)),
            (Request::Fetch(_), Request::Fetch(id)) => Some(Operation::FetchOne(id)),
            (Request::Update(id, _), Request::Update(_, body)) => Some(
                Operation::Update(body.with_id(*id)),
            ),
            (Request::Delete(_), Request::Delete(id)) => Some(Operation::Delete(id)),
            _ => None,
        }
    }
}

impl<T: Identified, N: Duplicate> Pipeline<T, N> {
    /// The pipeline of a new request and its first action: the pre-hook
    /// where the entity has one, else the persistence operation on the
    /// request as it came.
    pub open spec fn begin(pre: bool, post: bool, request: Request<T, N>) -> (Self, Action<T, N>) {
        if pre {
            (Pipeline { pre, post, stage: Stage::Filtering(request) }, Action::Filter(request))
        } else {
            (
                Pipeline { pre, post, stage: Stage::Persisting(request) },
                Action::Persist(request.direct()),
            )
        }
    }

    /// The pipeline after `event` and the action it asks for then, or
    /// nothing where the event is not the answer to the action that is
    /// pending.
    ///
    /// A failing pre-hook ends the pipeline with its failure. A pre-hook
    /// that passes hands its request to persistence. The persistence result
    /// goes to the post-hook where the entity has one, else into the
    /// envelope; the post-hook's result goes into the envelope.
    pub open spec fn next(self, event: Event<T, N>) -> Option<(Self, Action<T, N>)> {
        match (self.stage, event) {
            (Stage::Filtering(_), Event::Filtered(Err(error))) => Some(
                (
                    Pipeline { stage: Stage::Done, ..self },
                    Action::Respond(Responder::failure(error)),
                ),
            ),
            (Stage::Filtering(request), Event::Filtered(Ok(filtered))) => match request.operation(
                filtered,
            ) {
                Some(operation) => Some(
                    (
                        Pipeline { stage: Stage::Persisting(request), ..self },
                        Action::Persist(operation),
                    ),
                ),
                None => None,
            },
            (Stage::Persisting(request), Event::Persisted(result)) => if self.post {
                Some((Pipeline { stage: Stage::Revising, ..self }, Action::Revise(request, result)))
            } else {
                Some((Pipeline { stage: Stage::Done, ..self }, Action::Respond(Responder::of(result))))
            },
            (Stage::Revising, Event::Revised(result)) => Some(
                (Pipeline { stage: Stage::Done, ..self }, Action::Respond(Responder::of(result))),
            ),
            _ => None,
        }
    }

    /// Starts the pipeline of `request` for an entity with the directives
    /// `pre` and `post`.
    pub fn start(pre: bool, post: bool, request: Request<T, N>) -> (started: (Self, Action<T, N>))
        ensures
            started == Self::begin(pre, post, request),
    {
        let copy = request.duplicate();
        if pre {
            (Pipeline { pre, post, stage: Stage::Filtering(request) }, Action::Filter(copy))
        } else {
            (
                Pipeline { pre, post, stage: Stage::Persisting(request) },
                Action::Persist(copy.plan_direct()),
            )
        }
    }

    /// Takes the answer to the pending action and hands out the next one.
    pub fn step(self, event: Event<T, N>) -> (stepped: Option<(Self, Action<T, N>)>)
        ensures
            stepped == self.next(event),
    {
        let Pipeline { pre, post, stage } = self;
        match (stage, event) {
            (Stage::Filtering(_), Event::Filtered(Err(error))) => Some(
                (Pipeline { pre, post, stage: Stage::Done }, Action::Respond(Responder::from(error))),
            ),
            (Stage::Filtering(request), Event::Filtered(Ok(filtered))) => match request.plan_operation(
                filtered,
            ) {
                Some(operation) => Some(
                    (Pipeline { pre, post, stage: Stage::Persisting(request) }, Action::Persist(operation)),
                ),
                None => None,
            },
            (Stage::Persisting(request), Event::Persisted(result)) => if post {
                Some((Pipeline { pre, post, stage: Stage::Revising }, Action::Revise(request, result)))
            } else {
                Some((Pipeline { pre, post, stage: Stage::Done }, Action::Respond(Responder::from(result))))
            },
            (Stage::Revising, Event::Revised(result)) => Some(
                (Pipeline { pre, post, stage: Stage::Done }, Action::Respond(Responder::from(result))),
            ),
            _ => None,
        }
    }
}

impl<T: Identified, N: Duplicate> Pipeline<T, N> {
    /// The actions that the pipeline asks for while it is fed `events` in
    /// order, up to the first event that it does not take.
    pub open spec fn follow(self, events: Seq<Event<T, N>>) -> Seq<Action<T, N>>
        decreases events.len(),
    {
        if events.len() == 0 {
            Seq::empty()
        } else {
            match self.next(events[0]) {
                Some((pipeline, action)) => seq![action] + pipeline.follow(events.drop_first()),
                None => Seq::empty(),
            }
        }
    }

    /// All the actions of a request's pipeline, the first included, where
    /// performing them gives `events`.
    pub open spec fn run(pre: bool, post: bool, request: Request<T, N>, events: Seq<Event<T, N>>) -> Seq<
        Action<T, N>,
    > {
        let (pipeline, action) = Self::begin(pre, post, request);
        seq![action] + pipeline.follow(events)
    }
}

/// A request served as it came is served by its direct operation.
pub proof fn lemma_operation_of_itself<T: Identified, N: Duplicate>(request: Request<T, N>)
    ensures
        request.operation(request) == Some(request.direct()),
{
}

/// A pipeline that is done takes no event.
pub proof fn lemma_done_is_final<T: Identified, N: Duplicate>(
    pipeline: Pipeline<T, N>,
    events: Seq<Event<T, N>>,
)
    requires
        pipeline.stage is Done,
    ensures
        pipeline.follow(events) == Seq::<Action<T, N>>::empty(),
{
}

/// Without hooks a handler is its persistence operation on the input as it
/// came: the pipeline starts with that operation, answers with the envelope
/// of its result, and never asks for a hook.
pub proof fn lemma_without_hooks<T: Identified, N: Duplicate>(
    request: Request<T, N>,
    events: Seq<Event<T, N>>,
)
    ensures
        ({
            let actions = Pipeline::run(false, false, request, events);
            &&& actions[0] == Action::Persist(request.direct())
            &&& forall|i: int|
                0 <= i < actions.len() ==> !(#[trigger] actions[i] is Filter) && !(actions[i] is Revise)
            &&& events.len() > 0 ==> (events[0] matches Event::Persisted(result) ==> actions == seq![
                Action::Persist(request.direct()),
                Action::Respond(Responder::of(result)),
            ])
        }),
{
    reveal_with_fuel(Pipeline::follow, 3);
    let actions = Pipeline::run(false, false, request, events);
    let (pipeline, first) = Pipeline::begin(false, false, request);
    if events.len() > 0 {
        match pipeline.next(events[0]) {
            Some((then, second)) => {
                lemma_done_is_final(then, events.drop_first());
                assert(actions =~= seq![first, second]);
            },
            None => {
                assert(actions =~= seq![first]);
            },
        }
    } else {
        assert(actions =~= seq![first]);
    }
}

/// A pre-hook that rejects ends the pipeline: the persistence operation is
/// never asked for, and the envelope reports the hook's failure.
pub proof fn lemma_rejecting_pre_hook<T: Identified, N: Duplicate>(
    post: bool,
    request: Request<T, N>,
    error: ResponderError,
    events: Seq<Event<T, N>>,
)
    requires
        events.len() > 0,
        events[0] == Event::<T, N>::Filtered(Err(error)),
    ensures
        ({
            let actions = Pipeline::run(true, post, request, events);
            &&& actions == seq![Action::Filter(request), Action::Respond(Responder::failure(error))]
            &&& forall|i: int| 0 <= i < actions.len() ==> !(#[trigger] actions[i] is Persist)
            &&& Responder::<T>::failure(error).status == ResponderStatus::Error
            &&& Responder::<T>::failure(error).error == Some(error)
        }),
{
    reveal_with_fuel(Pipeline::follow, 2);
    let (pipeline, first) = Pipeline::begin(true, post, request);
    let (then, second) = pipeline.next(events[0])->0;
    lemma_done_is_final(then, events.drop_first());
    assert(Pipeline::run(true, post, request, events) =~= seq![first, second]);
}

/// An update persists under the identifier it was addressed with, whichever
/// hooks run and whatever they return.
pub proof fn lemma_update_keeps_addressed_identity<T: Identified, N: Duplicate>(
    pre: bool,
    post: bool,
    id: i32,
    body: T,
    events: Seq<Event<T, N>>,
)
    ensures
        ({
            let actions = Pipeline::run(pre, post, Request::Update(id, body), events);
            forall|i: int|
                0 <= i < actions.len() ==> (#[trigger] actions[i] matches Action::Persist(operation)
                    ==> operation matches Operation::Update(row) && row.identity() == id)
        }),
{
    let request = Request::<T, N>::Update(id, body);
    let actions = Pipeline::run(pre, post, request, events);
    assert forall|i: int| 0 <= i < actions.len() && (#[trigger] actions[i] is Persist) implies (
    actions[i] matches Action::Persist(operation) && operation matches Operation::Update(row)
        && row.identity() == id) by {
        lemma_persisted_operation(pre, post, request, events);
        let effective = choose|effective: Request<T, N>|
            request.operation(effective) == Some(actions[i]->Persist_0);
        match effective {
            Request::Update(_, filtered) => {
                filtered.lemma_with_identity(id);
            },
            _ => {},
        }
    }
}

/// Whatever a pipeline asks of persistence is the operation of its request
/// for some effective request of the same verb.
pub proof fn lemma_persisted_operation<T: Identified, N: Duplicate>(
    pre: bool,
    post: bool,
    request: Request<T, N>,
    events: Seq<Event<T, N>>,
)
    ensures
        ({
            let actions = Pipeline::run(pre, post, request, events);
            forall|i: int|
                0 <= i < actions.len() ==> (#[trigger] actions[i] matches Action::Persist(operation)
                    ==> exists|effective: Request<T, N>|
                    request.operation(effective) == Some(operation))
        }),
{
    reveal_with_fuel(Pipeline::follow, 4);
    let actions = Pipeline::run(pre, post, request, events);
    lemma_operation_of_itself(request);
    lemma_run_shape(pre, post, request, events);
    assert forall|i: int| 0 <= i < actions.len() && (#[trigger] actions[i] is Persist) implies exists|
        effective: Request<T, N>,
    |
        request.operation(effective) == Some(actions[i]->Persist_0) by {
        if pre {
            assert(i == 1);
            let filtered = events[0]->Filtered_0->Ok_0;
            assert(request.operation(filtered) == Some(actions[i]->Persist_0));
        } else {
            assert(i == 0);
            assert(request.operation(request) == Some(actions[i]->Persist_0));
        }
    }
}

/// A step of a handler, which is also the kind of the action that performs
/// it.
#[derive(Clone, Copy, Debug, PartialEq, Eq, Structural)]
pub enum Step {
    /// The pre-hook.
    Filter,
    /// The persistence operation.
    Persist,
    /// The post-hook.
    Revise,
    /// The envelope.
    Respond,
}

/// The steps of a handler for an entity with the directives `pre` and
/// `post`: the pre-hook where `pre` is set, persistence, the post-hook where
/// `post` is set, the envelope.
pub open spec fn steps(pre: bool, post: bool) -> Seq<Step> {
    (if pre {
        seq![Step::Filter]
    } else {
        Seq::empty()
    }) + seq![Step::Persist] + (if post {
        seq![Step::Revise]
    } else {
        Seq::empty()
    }) + seq![Step::Respond]
}

/// The steps of a handler for an entity with the directives `pre` and
/// `post`.
pub fn plan(pre: bool, post: bool) -> (planned: Vec<Step>)
    ensures
        planned@ == steps(pre, post),
{
    let mut planned: Vec<Step> = Vec::new();
    if pre {
        planned.push(Step::Filter);
    }
    planned.push(Step::Persist);
    if post {
        planned.push(Step::Revise);
    }
    planned.push(Step::Respond);
    assert(planned@ =~= steps(pre, post));
    planned
}

/// No two combinations of the directives have the same steps.
pub proof fn lemma_steps_tell_directives(pre: bool, post: bool, other_pre: bool, other_post: bool)
    requires
        steps(pre, post) == steps(other_pre, other_post),
    ensures
        pre == other_pre,
        post == other_post,
{
    let one = steps(pre, post);
    let other = steps(other_pre, other_post);
    assert(one.len() == other.len());
    assert(one[0] == other[0]);
}

impl<T, N> Action<T, N> {
    /// The kind of the action.
    pub open spec fn step(self) -> Step {
        match self {
            Action::Filter(_) => Step::Filter,
            Action::Persist(_) => Step::Persist,
            Action::Revise(_, _) => Step::Revise,
            Action::Respond(_) => Step::Respond,
        }
    }
}

/// Each combination of the two directives has its own pipeline: the actions
/// of a run are, in order, the steps of that combination or a beginning of
/// them, but for a run that a rejecting pre-hook cuts short. A run that
/// reaches the envelope without such a rejection has gone through them all.
pub proof fn lemma_run_shape<T: Identified, N: Duplicate>(
    pre: bool,
    post: bool,
    request: Request<T, N>,
    events: Seq<Event<T, N>>,
)
    ensures
        ({
            let actions = Pipeline::run(pre, post, request, events);
            let rejected = pre && events.len() > 0 && events[0] matches Event::Filtered(Err(_));
            &&& rejected ==> actions.len() == 2 && actions[0] is Filter && actions[1] is Respond
            &&& !rejected ==> actions.len() <= steps(pre, post).len() && forall|i: int|
                0 <= i < actions.len() ==> (#[trigger] actions[i]).step() == steps(pre, post)[i]
            &&& !rejected && actions.last() is Respond ==> actions.len() == steps(pre, post).len()
        }),
{
    reveal_with_fuel(Pipeline::follow, 5);
    let actions = Pipeline::run(pre, post, request, events);
    let (p0, a0) = Pipeline::begin(pre, post, request);
    if events.len() > 0 {
        if let Some((p1, a1)) = p0.next(events[0]) {
            let e1 = events.drop_first();
            if e1.len() > 0 {
                if let Some((p2, a2)) = p1.next(e1[0]) {
                    let e2 = e1.drop_first();
                    if e2.len() > 0 {
                        if let Some((p3, a3)) = p2.next(e2[0]) {
                            lemma_done_is_final(p3, e2.drop_first());
                            assert(actions =~= seq![a0, a1, a2, a3]);
                        }
                    }
                    if p2.stage is Done {
                        lemma_done_is_final(p2, e2);
                    }
                }
            }
            if p1.stage is Done {
                lemma_done_is_final(p1, e1);
            }
        }
    }
}

} // verus!
