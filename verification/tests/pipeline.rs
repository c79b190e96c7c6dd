use skytree::host_group::{HostGroup, NewHostGroup};
use skytree::negotiated::{Responder, ResponderError, ResponderStatus};
use skytree::pipeline::{Action, Event, Operation, Pipeline, Request};

fn group(id: i32, name: &str) -> HostGroup {
    HostGroup { id, parent: None, name: Some(name.to_string()) }
}

fn new_group(name: &str) -> NewHostGroup {
    NewHostGroup { parent: Some(1), name: Some(name.to_string()) }
}

fn failure(message: &str) -> ResponderError {
    ResponderError { id: String::new(), message: message.to_string() }
}

#[test]
fn create_without_hooks_is_the_insert() {
    let (pipeline, action) =
        Pipeline::<HostGroup, NewHostGroup>::start(false, false, Request::Create(new_group("web")));
    assert_eq!(action, Action::Persist(Operation::Insert(new_group("web"))));
    let (_, action) = pipeline.step(Event::Persisted(Ok(group(7, "web")))).unwrap();
    assert_eq!(
        action,
        Action::Respond(Responder {
            status: ResponderStatus::Success,
            payload: Some(group(7, "web")),
            error: None,
        })
    );
}

#[test]
fn rejecting_pre_hook_skips_persistence() {
    let (pipeline, action) =
        Pipeline::<HostGroup, NewHostGroup>::start(true, true, Request::Create(new_group("web")));
    assert_eq!(action, Action::Filter(Request::Create(new_group("web"))));
    let (pipeline, action) = pipeline.step(Event::Filtered(Err(failure("not allowed")))).unwrap();
    match action {
        Action::Respond(responder) => {
            assert_eq!(responder.status, ResponderStatus::Error);
            assert_eq!(responder.payload, None);
            assert_eq!(responder.error.unwrap().message, "not allowed");
        }
        other => panic!("unexpected action {:?}", other),
    }
    assert!(pipeline.step(Event::Persisted(Ok(group(1, "web")))).is_none());
}

#[test]
fn update_persists_under_the_addressed_identifier() {
    let (_, action) =
        Pipeline::<HostGroup, NewHostGroup>::start(false, false, Request::Update(5, group(9, "db")));
    assert_eq!(action, Action::Persist(Operation::Update(group(5, "db"))));
}

#[test]
fn update_after_pre_hook_keeps_the_addressed_identifier() {
    let (pipeline, _) =
        Pipeline::<HostGroup, NewHostGroup>::start(true, false, Request::Update(5, group(9, "db")));
    let (_, action) =
        pipeline.step(Event::Filtered(Ok(Request::Update(11, group(12, "db2"))))).unwrap();
    assert_eq!(action, Action::Persist(Operation::Update(group(5, "db2"))));
}

fn run(
    pre: bool,
    post: bool,
    request: Request<HostGroup, NewHostGroup>,
    events: Vec<Event<HostGroup, NewHostGroup>>,
) -> Vec<Action<HostGroup, NewHostGroup>> {
    let (mut pipeline, action) = Pipeline::start(pre, post, request);
    let mut actions = vec![action];
    for event in events {
        match pipeline.step(event) {
            Some((next, action)) => {
                pipeline = next;
                actions.push(action);
            }
            None => break,
        }
    }
    actions
}

fn respond(result: Result<HostGroup, ResponderError>) -> Action<HostGroup, NewHostGroup> {
    Action::Respond(Responder::from(result))
}

#[test]
fn each_combination_runs_its_own_steps() {
    let request = || Request::Create(new_group("web"));
    let stored = || Ok(group(7, "web"));
    let revised = || Ok(group(7, "web (checked)"));
    assert_eq!(
        run(false, false, request(), vec![Event::Persisted(stored())]),
        vec![Action::Persist(Operation::Insert(new_group("web"))), respond(stored())]
    );
    assert_eq!(
        run(false, true, request(), vec![Event::Persisted(stored()), Event::Revised(revised())]),
        vec![
            Action::Persist(Operation::Insert(new_group("web"))),
            Action::Revise(request(), stored()),
            respond(revised()),
        ]
    );
    assert_eq!(
        run(
            true,
            false,
            request(),
            vec![Event::Filtered(Ok(Request::Create(new_group("WEB")))), Event::Persisted(stored())]
        ),
        vec![
            Action::Filter(request()),
            Action::Persist(Operation::Insert(new_group("WEB"))),
            respond(stored()),
        ]
    );
    assert_eq!(
        run(
            true,
            true,
            request(),
            vec![
                Event::Filtered(Ok(Request::Create(new_group("WEB")))),
                Event::Persisted(stored()),
                Event::Revised(revised()),
            ]
        ),
        vec![
            Action::Filter(request()),
            Action::Persist(Operation::Insert(new_group("WEB"))),
            Action::Revise(request(), stored()),
            respond(revised()),
        ]
    );
}

#[test]
fn rejecting_pre_hook_ends_every_verb() {
    let requests = || {
        vec![
            Request::Create(new_group("web")),
            Request::Fetch(3),
            Request::Update(3, group(3, "web")),
            Request::Delete(3),
        ]
    };
    for post in [false, true] {
        for request in requests() {
            let actions = run(
                true,
                post,
                request,
                vec![Event::Filtered(Err(failure("no"))), Event::Persisted(Ok(group(1, "x")))],
            );
            assert_eq!(actions.len(), 2);
            assert_eq!(actions[1], respond(Err(failure("no"))));
            assert!(!actions.iter().any(|action| matches!(action, Action::Persist(_))));
        }
    }
}

#[test]
fn fetch_and_delete_use_the_filtered_identifier() {
    assert_eq!(
        run(true, false, Request::Fetch(3), vec![Event::Filtered(Ok(Request::Fetch(4)))])[1],
        Action::Persist(Operation::FetchOne(4))
    );
    assert_eq!(
        run(true, false, Request::Delete(3), vec![Event::Filtered(Ok(Request::Delete(4)))])[1],
        Action::Persist(Operation::Delete(4))
    );
    assert_eq!(
        run(false, false, Request::Fetch(3), vec![])[0],
        Action::Persist(Operation::FetchOne(3))
    );
    assert_eq!(
        run(false, false, Request::Delete(3), vec![])[0],
        Action::Persist(Operation::Delete(3))
    );
}

#[test]
fn post_hook_gets_the_request_as_it_came() {
    let actions = run(
        true,
        true,
        Request::Update(5, group(9, "db")),
        vec![
            Event::Filtered(Ok(Request::Update(6, group(10, "db2")))),
            Event::Persisted(Err(failure("constraint"))),
        ],
    );
    assert_eq!(actions[1], Action::Persist(Operation::Update(group(5, "db2"))));
    assert_eq!(
        actions[2],
        Action::Revise(Request::Update(5, group(9, "db")), Err(failure("constraint")))
    );
}

#[test]
fn post_hook_may_override_the_outcome() {
    let actions = run(
        false,
        true,
        Request::Fetch(5),
        vec![Event::Persisted(Err(failure("not found"))), Event::Revised(Ok(group(5, "default")))],
    );
    assert_eq!(actions[2], respond(Ok(group(5, "default"))));
    let actions = run(
        false,
        true,
        Request::Fetch(5),
        vec![
            Event::Persisted(Ok(group(5, "secret"))),
            Event::Revised(Err(ResponderError {
                id: "forbidden".to_string(),
                message: "hidden".to_string(),
            })),
        ],
    );
    match &actions[2] {
        Action::Respond(responder) => {
            assert_eq!(responder.status, ResponderStatus::Error);
            assert_eq!(responder.error.as_ref().unwrap().id, "forbidden");
        }
        other => panic!("unexpected action {:?}", other),
    }
}

#[test]
fn storage_failure_without_post_hook_is_the_error_envelope() {
    for pre in [false, true] {
        let mut events = Vec::new();
        if pre {
            events.push(Event::Filtered(Ok(Request::Delete(3))));
        }
        events.push(Event::Persisted(Err(failure("Record not found"))));
        let actions = run(pre, false, Request::Delete(3), events);
        match actions.last().unwrap() {
            Action::Respond(responder) => {
                assert_eq!(responder.status, ResponderStatus::Error);
                assert_eq!(responder.payload, None);
                assert_eq!(responder.error, Some(failure("Record not found")));
            }
            other => panic!("unexpected action {:?}", other),
        }
    }
}

#[test]
fn pipeline_takes_only_the_answer_it_waits_on() {
    let start = |pre| Pipeline::<HostGroup, NewHostGroup>::start(pre, true, Request::Fetch(1)).0;
    assert!(start(true).step(Event::Persisted(Ok(group(1, "x")))).is_none());
    assert!(start(true).step(Event::Revised(Ok(group(1, "x")))).is_none());
    assert!(start(false).step(Event::Filtered(Ok(Request::Fetch(1)))).is_none());
    assert!(start(false).step(Event::Revised(Ok(group(1, "x")))).is_none());
    assert!(start(true).step(Event::Filtered(Ok(Request::Delete(1)))).is_none());
    assert!(start(true).step(Event::Filtered(Ok(Request::Create(new_group("x"))))).is_none());
    let (revising, _) = start(false).step(Event::Persisted(Ok(group(1, "x")))).unwrap();
    assert!(revising.step(Event::Persisted(Ok(group(1, "x")))).is_none());
}
