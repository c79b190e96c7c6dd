//! What an entity brings to its handlers, and the handlers themselves.
//!
//! An entity's hooks and persistence operations are its own; nothing is
//! known of what they return. The handlers here perform the actions that
//! the pipeline asks for, in its order, and answer with its envelope.

use crate::host_group::RestCollectionGetParameters;
use crate::negotiated::{Responder, ResponderError};
use crate::pipeline::{Action, Duplicate, Event, Identified, Operation, Pipeline, Request, Stage};
use vstd::prelude::*;

verus! {

/// An application context that makes connections: a fresh one each time.
pub trait DbFactory<Connection> {
    fn db(&self) -> Connection;
}

/// The hooks that run before persistence: each may pass its input on,
/// changed or not, or reject the request.
pub trait RestPre<T, NewT, D> {
    fn pre_post(app_data: &D, new_object: &NewT) -> Result<NewT, ResponderError>;

    fn pre_get(app_data: &D, id: i32) -> Result<i32, ResponderError>;

    fn pre_put(app_data: &D, id: i32, to_update: &T) -> Result<(i32, T), ResponderError>;

    fn pre_delete(app_data: &D, id: i32) -> Result<i32, ResponderError>;
}

/// The hooks that run after persistence: each gets the input as it came
/// and the persistence result, and returns the result that is answered.
pub trait RestPost<T, NewT>: Sized {
    fn post_post(new_object: &NewT, result: Result<T, ResponderError>) -> Result<T, ResponderError>;

    fn post_get(id: i32, result: Result<T, ResponderError>) -> Result<T, ResponderError>;

    fn post_put(id: i32, to_update: &T, result: Result<T, ResponderError>) -> Result<
        T,
        ResponderError,
    >;

    fn post_delete(id: i32, result: Result<T, ResponderError>) -> Result<T, ResponderError>;
}

/// The five persistence operations of an entity.
pub trait Crud<T, NewT, Connection> {
    fn db_insert(db: &mut Connection, to_insert: &NewT) -> Result<T, ResponderError>;

    fn db_update(db: &mut Connection, to_update: &T) -> Result<T, ResponderError>;

    fn db_fetch_all(db: &mut Connection, name_filter: String, limit: Option<(i64, i64)>) -> Result<
        Vec<T>,
        ResponderError,
    >;

    fn db_fetch(db: &mut Connection, id: i32) -> Result<T, ResponderError>;

    fn db_delete(db: &mut Connection, id: i32) -> Result<T, ResponderError>;
}

/// An entity whose handlers need no hook: it is served by its persistence
/// operations alone.
pub trait SimpleRest<T, NewT>: Sized {

}

/// The free-text filter that a listing hands on: the query's, or an empty
/// one.
pub open spec fn filter_text(q: Option<String>) -> Seq<char> {
    match q {
        Some(text) => text@,
        None => Seq::empty(),
    }
}

/// The free-text filter of a listing: the query's, or an empty one.
pub fn collection_filter(query: RestCollectionGetParameters) -> (filter: String)
    ensures
        filter@ == filter_text(query.q),
{
    match query.q {
        Some(text) => text,
        None => String::new(),
    }
}

/// The pagination bounds of a query that may hold a limit and may hold an
/// offset: the two together where both are given, none otherwise.
pub fn pagination(limit: Option<i64>, offset: Option<i64>) -> (bounds: Option<(i64, i64)>)
    ensures
        bounds == match (limit, offset) {
            (Some(limit), Some(offset)) => Some((limit, offset)),
            _ => None,
        },
{
    match (limit, offset) {
        (Some(limit), Some(offset)) => Some((limit, offset)),
        _ => None,
    }
}

/// Lists an entity's rows: acquires a connection, calls the fetch-all
/// operation once with the query's filter, or an empty one, and the query's
/// pagination bounds as they came, and answers with the envelope of
/// whatever the operation returned. No hook runs.
pub fn serve_collection<E, T, NewT, D, Connection>(
    app_data: &D,
    query: RestCollectionGetParameters,
) -> (responder: Responder<Vec<T>>) where E: Crud<T, NewT, Connection>, D: DbFactory<Connection>
    ensures
        exists|
            connection: Connection,
            handed: &mut Connection,
            filter: String,
            result: Result<Vec<T>, ResponderError>,
        |
            #![trigger
                call_ensures(D::db, (app_data,), connection),
                call_ensures(E::db_fetch_all, (handed, filter, query.limit), result)
            ]
            call_ensures(D::db, (app_data,), connection) && *handed == connection && filter@
                == filter_text(query.q) && call_ensures(
                E::db_fetch_all,
                (handed, filter, query.limit),
                result,
            ) && responder == Responder::of(result),
{
    let mut db = app_data.db();
    let limit = query.limit;
    let result = E::db_fetch_all(&mut db, collection_filter(query), limit);
    Responder::from(result)
}

/// True where `result` is what the persistence operation of the entity `E`
/// that `operation` names may return when it is handed the connection
/// `handed` and the argument that `operation` carries.
pub open spec fn persisted<E, T, NewT, Connection>(
    handed: &mut Connection,
    operation: Operation<T, NewT>,
    result: Result<T, ResponderError>,
) -> bool where E: Crud<T, NewT, Connection> {
    match operation {
        Operation::Insert(to_insert) => call_ensures(E::db_insert, (handed, &to_insert), result),
        Operation::FetchOne(id) => call_ensures(E::db_fetch, (handed, id), result),
        Operation::Update(to_update) => call_ensures(E::db_update, (handed, &to_update), result),
        Operation::Delete(id) => call_ensures(E::db_delete, (handed, id), result),
    }
}

/// Calls the persistence operation of the entity that `operation` names,
/// once, with the connection as it came and the argument that `operation`
/// carries, and hands back whatever the operation returned. The connection
/// is left as the operation left it.
fn persist<E, T, NewT, Connection>(db: &mut Connection, operation: Operation<T, NewT>) -> (result:
    Result<T, ResponderError>) where E: Crud<T, NewT, Connection>
    ensures
        exists|handed: &mut Connection|
            *handed == *old(db) && *final(handed) == *final(db) && #[trigger] persisted::<
                E,
                T,
                NewT,
                Connection,
            >(handed, operation, result),
{
    match operation {
        Operation::Insert(to_insert) => {
            let result = E::db_insert(db, &to_insert);
            proof {
                let handed = choose|handed: &mut Connection|
                    *handed == *old(db) && *final(handed) == *db && #[trigger] call_ensures(
                        E::db_insert,
                        (handed, &to_insert),
                        result,
                    );
                assert(persisted::<E, T, NewT, Connection>(handed, operation, result));
            }
            result
        },
        Operation::FetchOne(id) => {
            let result = E::db_fetch(db, id);
            proof {
                let handed = choose|handed: &mut Connection|
                    *handed == *old(db) && *final(handed) == *db && #[trigger] call_ensures(
                        E::db_fetch,
                        (handed, id),
                        result,
                    );
                assert(persisted::<E, T, NewT, Connection>(handed, operation, result));
            }
            result
        },
        Operation::Update(to_update) => {
            let result = E::db_update(db, &to_update);
            proof {
                let handed = choose|handed: &mut Connection|
                    *handed == *old(db) && *final(handed) == *db && #[trigger] call_ensures(
                        E::db_update,
                        (handed, &to_update),
                        result,
                    );
                assert(persisted::<E, T, NewT, Connection>(handed, operation, result));
            }
            result
        },
        Operation::Delete(id) => {
            let result = E::db_delete(db, id);
            proof {
                let handed = choose|handed: &mut Connection|
                    *handed == *old(db) && *final(handed) == *db && #[trigger] call_ensures(
                        E::db_delete,
                        (handed, id),
                        result,
                    );
                assert(persisted::<E, T, NewT, Connection>(handed, operation, result));
            }
            result
        },
    }
}

/// Serves one request for a single row of an entity without hooks:
/// acquires a connection, calls the persistence operation that serves the
/// request as it came, once, and answers with the envelope of whatever the
/// operation returned.
///
/// The pipeline of the request has then run from its first action to its
/// envelope, and has asked for no hook.
pub fn serve_simple<E, T, NewT, D, Connection>(app_data: &D, request: Request<T, NewT>) -> (responder:
    Responder<T>) where
    E: SimpleRest<T, NewT> + Crud<T, NewT, Connection>,
    D: DbFactory<Connection>,
    T: Identified,
    NewT: Duplicate,

    ensures
        exists|connection: Connection, handed: &mut Connection, result: Result<T, ResponderError>|
            #![trigger
                call_ensures(D::db, (app_data,), connection),
                persisted::<E, T, NewT, Connection>(handed, request.direct(), result)
            ]
            call_ensures(D::db, (app_data,), connection) && *handed == connection && persisted::<
                E,
                T,
                NewT,
                Connection,
            >(handed, request.direct(), result) && responder == Responder::of(result)
                && Pipeline::run(false, false, request, seq![Event::Persisted(result)]) == seq![
                Action::Persist(request.direct()),
                Action::Respond(responder),
            ],
{
    let mut db = app_data.db();
    let operation = request.duplicate().plan_direct();
    let result = persist::<E, T, NewT, Connection>(&mut db, operation);
    proof {
        crate::pipeline::lemma_without_hooks(request, seq![Event::Persisted(result)]);
    }
    Responder::from(result)
}

/// True where `outcome` is what the pre-hook of the entity `E` for the verb
/// of `request` may return when it is called on the request: its value as a
/// request of the same verb, or its failure.
pub open spec fn filtered<E, T, NewT, D>(
    app_data: &D,
    request: Request<T, NewT>,
    outcome: Result<Request<T, NewT>, ResponderError>,
) -> bool where E: RestPre<T, NewT, D> {
    match request {
        Request::Create(new_object) => match outcome {
            Ok(Request::Create(filtered)) => call_ensures(
                E::pre_post,
                (app_data, &new_object),
                Ok::<NewT, ResponderError>(filtered),
            ),
            Err(error) => call_ensures(
                E::pre_post,
                (app_data, &new_object),
                Err::<NewT, ResponderError>(error),
            ),
            _ => false,
        },
        Request::Fetch(id) => match outcome {
            Ok(Request::Fetch(filtered)) => call_ensures(
                E::pre_get,
                (app_data, id),
                Ok::<i32, ResponderError>(filtered),
            ),
            Err(error) => call_ensures(E::pre_get, (app_data, id), Err::<i32, ResponderError>(error)),
            _ => false,
        },
        Request::Update(id, to_update) => match outcome {
            Ok(Request::Update(filtered_id, filtered)) => call_ensures(
                E::pre_put,
                (app_data, id, &to_update),
                Ok::<(i32, T), ResponderError>((filtered_id, filtered)),
            ),
            Err(error) => call_ensures(
                E::pre_put,
                (app_data, id, &to_update),
                Err::<(i32, T), ResponderError>(error),
            ),
            _ => false,
        },
        Request::Delete(id) => match outcome {
            Ok(Request::Delete(filtered)) => call_ensures(
                E::pre_delete,
                (app_data, id),
                Ok::<i32, ResponderError>(filtered),
            ),
            Err(error) => call_ensures(
                E::pre_delete,
                (app_data, id),
                Err::<i32, ResponderError>(error),
            ),
            _ => false,
        },
    }
}

/// True where `revised` is what the post-hook of the entity `E` for the
/// verb of `request` may return when it is called on the request as it came
/// and the persistence result.
pub open spec fn revised<E, T, NewT>(
    request: Request<T, NewT>,
    result: Result<T, ResponderError>,
    revised: Result<T, ResponderError>,
) -> bool where E: RestPost<T, NewT> {
    match request {
        Request::Create(new_object) => call_ensures(E::post_post, (&new_object, result), revised),
        Request::Fetch(id) => call_ensures(E::post_get, (id, result), revised),
        Request::Update(id, to_update) => call_ensures(
            E::post_put,
            (id, &to_update, result),
            revised,
        ),
        Request::Delete(id) => call_ensures(E::post_delete, (id, result), revised),
    }
}

/// True where `event` reports what the entity `E` returned when it was
/// called as `action` asks: its pre-hook on the request, its persistence
/// operation on a connection in the state `connection`, or its post-hook on
/// the request and the persistence result.
pub open spec fn performed<E, T, NewT, D, Connection>(
    app_data: &D,
    connection: Connection,
    action: Action<T, NewT>,
    event: Event<T, NewT>,
) -> bool where E: RestPre<T, NewT, D> + RestPost<T, NewT> + Crud<T, NewT, Connection> {
    match action {
        Action::Filter(request) => match event {
            Event::Filtered(outcome) => filtered::<E, T, NewT, D>(app_data, request, outcome),
            _ => false,
        },
        Action::Persist(operation) => match event {
            Event::Persisted(result) => exists|handed: &mut Connection|
                *handed == connection && #[trigger] persisted::<E, T, NewT, Connection>(
                    handed,
                    operation,
                    result,
                ),
            _ => false,
        },
        Action::Revise(request, result) => match event {
            Event::Revised(outcome) => revised::<E, T, NewT>(request, result, outcome),
            _ => false,
        },
        Action::Respond(_) => false,
    }
}

/// Performs what the pipeline asks for by calling, once, the entity's hook
/// or persistence operation that the action names, with what the action
/// carries, and reports what it returned. Only a persistence operation
/// touches the connection.
fn perform<E, T, NewT, D, Connection>(
    app_data: &D,
    db: &mut Connection,
    pipeline: &Pipeline<T, NewT>,
    action: Action<T, NewT>,
) -> (event: Event<T, NewT>) where
    E: RestPre<T, NewT, D> + RestPost<T, NewT> + Crud<T, NewT, Connection>,
    T: Identified,
    NewT: Duplicate,

    requires
        pending(*pipeline, action),
        !(action is Respond),
    ensures
        pipeline.next(event) is Some,
        performed::<E, T, NewT, D, Connection>(app_data, *old(db), action, event),
        !(action is Persist) ==> *final(db) == *old(db),
{
    match action {
        Action::Filter(request) => Event::Filtered(
            match request {
                Request::Create(new_object) => match E::pre_post(app_data, &new_object) {
                    Ok(filtered) => Ok(Request::Create(filtered)),
                    Err(error) => Err(error),
                },
                Request::Fetch(id) => match E::pre_get(app_data, id) {
                    Ok(filtered) => Ok(Request::Fetch(filtered)),
                    Err(error) => Err(error),
                },
                Request::Update(id, to_update) => match E::pre_put(app_data, id, &to_update) {
                    Ok((filtered_id, filtered)) => Ok(Request::Update(filtered_id, filtered)),
                    Err(error) => Err(error),
                },
                Request::Delete(id) => match E::pre_delete(app_data, id) {
                    Ok(filtered) => Ok(Request::Delete(filtered)),
                    Err(error) => Err(error),
                },
            },
        ),
        Action::Persist(operation) => Event::Persisted(
            persist::<E, T, NewT, Connection>(db, operation),
        ),
        Action::Revise(request, result) => Event::Revised(
            match request {
                Request::Create(new_object) => E::post_post(&new_object, result),
                Request::Fetch(id) => E::post_get(id, result),
                Request::Update(id, to_update) => E::post_put(id, &to_update, result),
                Request::Delete(id) => E::post_delete(id, result),
            },
        ),
        Action::Respond(_) => vstd::pervasive::unreached(),
    }
}

/// True where `action` is what `pipeline` has asked for and waits on.
pub open spec fn pending<T, NewT>(pipeline: Pipeline<T, NewT>, action: Action<T, NewT>) -> bool {
    match action {
        Action::Filter(request) => pipeline.stage == Stage::Filtering(request),
        Action::Persist(_) => pipeline.stage is Persisting,
        Action::Revise(_, _) => pipeline.stage is Revising,
        Action::Respond(_) => pipeline.stage is Done,
    }
}

/// How many actions a pipeline may still ask for.
pub open spec fn remaining<T, NewT>(pipeline: Pipeline<T, NewT>) -> nat {
    match pipeline.stage {
        Stage::Filtering(_) => 3,
        Stage::Persisting(_) => 2,
        Stage::Revising => 1,
        Stage::Done => 0,
    }
}

/// Serves one request for a single row: acquires a connection, runs the
/// request's pipeline to its end by calling the entity's hooks and
/// persistence operations as the pipeline asks, and answers with the
/// pipeline's envelope.
///
/// Whatever the hooks and operations return, what they returned are the
/// events of a run of the pipeline of `request` that takes each of them:
/// each event is what the entity returned when called as the action before
/// it asks, and the envelope is the last action of that run.
pub fn serve<E, T, NewT, D, Connection>(
    pre: bool,
    post: bool,
    app_data: &D,
    request: Request<T, NewT>,
) -> (responder: Responder<T>) where
    E: RestPre<T, NewT, D> + RestPost<T, NewT> + Crud<T, NewT, Connection>,
    D: DbFactory<Connection>,
    T: Identified,
    NewT: Duplicate,

    ensures
        exists|connection: Connection, events: Seq<Event<T, NewT>>|
            #![trigger
                call_ensures(D::db, (app_data,), connection),
                Pipeline::run(pre, post, request, events)
            ]
            {
                let actions = Pipeline::run(pre, post, request, events);
                &&& call_ensures(D::db, (app_data,), connection)
                &&& actions.len() == events.len() + 1
                &&& actions.last() == Action::<T, NewT>::Respond(responder)
                &&& forall|i: int|
                    0 <= i < events.len() ==> performed::<E, T, NewT, D, Connection>(
                        app_data,
                        connection,
                        #[trigger] actions[i],
                        events[i],
                    )
            },
{
    let mut db = app_data.db();
    let ghost connection = db;
    let (mut pipeline, mut action) = Pipeline::start(pre, post, request);
    let ghost mut events: Seq<Event<T, NewT>> = Seq::empty();
    proof {
        assert(Pipeline::run(pre, post, request, events) =~= seq![action]);
    }
    loop
        invariant
            call_ensures(D::db, (app_data,), connection),
            pending(pipeline, action),
            pipeline.stage is Filtering || pipeline.stage is Persisting ==> db == connection,
            Pipeline::run(pre, post, request, events).last() == action,
            Pipeline::<T, NewT>::begin(pre, post, request).0.follow(events).len() == events.len(),
            reached(Pipeline::<T, NewT>::begin(pre, post, request).0, events) == pipeline,
            forall|i: int|
                0 <= i < events.len() ==> performed::<E, T, NewT, D, Connection>(
                    app_data,
                    connection,
                    #[trigger] Pipeline::run(pre, post, request, events)[i],
                    events[i],
                ),
        decreases remaining(pipeline),
    {
        if let Action::Respond(responder) = action {
            return responder;
        }
        let ghost asked = action;
        let ghost before = db;
        let event = perform::<E, T, NewT, D, Connection>(app_data, &mut db, &pipeline, action);
        match pipeline.step(event) {
            Some((next, then)) => {
                proof {
                    let first = Pipeline::<T, NewT>::begin(pre, post, request).0;
                    let earlier = Pipeline::run(pre, post, request, events);
                    lemma_follow_push(first, events, event);
                    let later = Pipeline::run(pre, post, request, events.push(event));
                    assert(later =~= earlier.push(then));
                    assert(performed::<E, T, NewT, D, Connection>(
                        app_data,
                        connection,
                        asked,
                        event,
                    ));
                    assert forall|i: int| 0 <= i < events.len() + 1 implies performed::<
                        E,
                        T,
                        NewT,
                        D,
                        Connection,
                    >(app_data, connection, #[trigger] later[i], events.push(event)[i]) by {
                        assert(later[i] == earlier[i]);
                        if i < events.len() {
                            assert(events.push(event)[i] == events[i]);
                        }
                    }
                    events = events.push(event);
                }
                pipeline = next;
                action = then;
            },
            None => {
                return vstd::pervasive::unreached();
            },
        }
    }
}

/// The pipeline that `pipeline` has become once it has taken `events`, or
/// has stopped at the first of them that it did not take.
pub open spec fn reached<T: Identified, NewT: Duplicate>(
    pipeline: Pipeline<T, NewT>,
    events: Seq<Event<T, NewT>>,
) -> Pipeline<T, NewT>
    decreases events.len(),
{
    if events.len() == 0 {
        pipeline
    } else {
        match pipeline.next(events[0]) {
            Some((next, _)) => reached(next, events.drop_first()),
            None => pipeline,
        }
    }
}

/// One more event that the pipeline takes adds its action to the run.
pub proof fn lemma_follow_push<T: Identified, NewT: Duplicate>(
    pipeline: Pipeline<T, NewT>,
    events: Seq<Event<T, NewT>>,
    event: Event<T, NewT>,
)
    requires
        pipeline.follow(events).len() == events.len(),
        reached(pipeline, events).next(event) is Some,
    ensures
        pipeline.follow(events.push(event)) == pipeline.follow(events).push(
            reached(pipeline, events).next(event).unwrap().1,
        ),
        reached(pipeline, events.push(event)) == reached(pipeline, events).next(event).unwrap().0,
    decreases events.len(),
{
    let longer = events.push(event);
    if events.len() == 0 {
        assert(longer.drop_first() =~= Seq::<Event<T, NewT>>::empty());
        reveal_with_fuel(Pipeline::follow, 2);
        reveal_with_fuel(reached, 2);
        assert(pipeline.follow(longer) =~= pipeline.follow(events).push(pipeline.next(event).unwrap().1));
    } else {
        assert(longer[0] == events[0]);
        assert(longer.drop_first() =~= events.drop_first().push(event));
        match pipeline.next(events[0]) {
            Some((next, action)) => {
                assert(pipeline.follow(events) == seq![action] + next.follow(events.drop_first()));
                lemma_follow_push(next, events.drop_first(), event);
                assert(pipeline.follow(longer) =~= pipeline.follow(events).push(
                    reached(pipeline, events).next(event).unwrap().1,
                ));
            },
            None => {
                assert(pipeline.follow(events).len() == 0);
            },
        }
    }
}

} // verus!
