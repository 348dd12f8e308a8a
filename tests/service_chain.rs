use service_stack::headers::HeaderMap;
use service_stack::pipeline::{
    race_step, CompositionError, Decorator, Pipeline, RaceEvent, RacePhase, StageError,
};
use service_stack::stage::{AddService, HyperService, Readiness};

#[test]
fn leaf_service() {
    let mut add_service = AddService;
    let result = add_service.call((2, 5));
    assert_eq!(result, Ok(7));
}

#[test]
fn simple_service_chain() {
    let mut add_service = AddService;
    let timeout_service = Pipeline::new().layer(Decorator::timeout(1000));
    let result = timeout_service.call_add(&mut add_service, (12, 4), 0).unwrap();
    assert_eq!(result, 16);
}

#[test]
fn layer_service_chain() {
    let service = Pipeline::new().layer(Decorator::timeout(1000));
    let mut leaf = AddService;
    assert_eq!(leaf.poll_ready(), Readiness::Ready);
    let result = service.call_add(&mut leaf, (12, 4), 0).unwrap();
    assert_eq!(result, 16);
}

#[test]
fn empty_pipeline_passes_leaf_answer() {
    let p = Pipeline::new();
    let mut leaf = AddService;
    assert_eq!(p.call_add(&mut leaf, (-3, 10), 5_000_000), Ok(7));
    assert_eq!(p.deadline(), None);
    let mut h = HeaderMap::new();
    h.append("a".to_string(), "1".to_string());
    let f = p.forward_headers(h);
    assert_eq!(f.entries, vec![("a".to_string(), "1".to_string())]);
}

#[test]
fn timeout_before_and_after_deadline() {
    let p = Pipeline::new().layer(Decorator::timeout(1000));
    let mut leaf = AddService;
    assert_eq!(p.call_add(&mut leaf, (12, 4), 999), Ok(16));
    assert_eq!(p.call_add(&mut leaf, (12, 4), 1000), Err(StageError::Timeout));
    assert_eq!(p.call_add(&mut leaf, (12, 4), 1001), Err(StageError::Timeout));
    assert_eq!(p.expired::<i32, &str>(), Err(StageError::Timeout));
}

#[test]
fn inner_error_passes_unchanged() {
    let p = Pipeline::new().layer(Decorator::timeout(50));
    let r: Result<i32, StageError<&str>> = p.settle(Err("refused"), 10);
    assert_eq!(r, Err(StageError::Inner("refused")));
    let r: Result<i32, StageError<&str>> = p.settle(Err("refused"), 50);
    assert_eq!(r, Err(StageError::Timeout));
}

#[test]
fn earliest_deadline_wins() {
    let p = Pipeline::new()
        .layer(Decorator::timeout(300))
        .layer(Decorator::append_header("x-a", "1").unwrap())
        .layer(Decorator::timeout(100));
    assert_eq!(p.deadline(), Some(100));
    assert_eq!(p.settle::<u8, ()>(Ok(1), 99), Ok(1));
    assert_eq!(p.settle::<u8, ()>(Ok(1), 100), Err(StageError::Timeout));
}

#[test]
fn append_header_to_request_without_it() {
    let p = Pipeline::new().layer(Decorator::append_header("x-test", "true").unwrap());
    let mut h = HeaderMap::new();
    h.append("test".to_string(), "hello".to_string());
    let f = p.forward_headers(h);
    let n = f.entries.iter().filter(|(k, v)| k == "x-test" && v == "true").count();
    assert_eq!(n, 1);
    assert_eq!(f.entries.len(), 2);
}

#[test]
fn append_header_keeps_existing_value() {
    let p = Pipeline::new().layer(Decorator::append_header("x-test", "v2").unwrap());
    let mut h = HeaderMap::new();
    h.append("x-test".to_string(), "v1".to_string());
    let f = p.forward_headers(h);
    assert_eq!(
        f.entries,
        vec![
            ("x-test".to_string(), "v1".to_string()),
            ("x-test".to_string(), "v2".to_string())
        ]
    );
    assert_eq!(f.get(&"x-test".to_string()), Some("v1".to_string()));
}

#[test]
fn outermost_decorator_appends_first() {
    let p = Pipeline::new()
        .layer(Decorator::append_header("x-one", "1").unwrap())
        .layer(Decorator::append_header("x-two", "2").unwrap());
    let f = p.forward_headers(HeaderMap::new());
    assert_eq!(
        f.entries,
        vec![
            ("x-one".to_string(), "1".to_string()),
            ("x-two".to_string(), "2".to_string())
        ]
    );
}

#[test]
fn header_name_is_normalised() {
    let d = Decorator::append_header("X-Test", "true").unwrap();
    match d {
        Decorator::AppendHeader { name, value } => {
            assert_eq!(name, "x-test");
            assert_eq!(value, "true");
        }
        Decorator::Timeout { .. } => panic!("expected a header decorator"),
    }
}

#[test]
fn invalid_header_configuration_is_refused() {
    assert!(matches!(
        Decorator::append_header("bad name", "true"),
        Err(CompositionError::InvalidHeaderName)
    ));
    assert!(matches!(
        Decorator::append_header("", "true"),
        Err(CompositionError::InvalidHeaderName)
    ));
    assert!(matches!(
        Decorator::append_header("x-test", "a\nb"),
        Err(CompositionError::InvalidHeaderValue)
    ));
    assert!(matches!(
        Decorator::append_header("x-test", "tab\tok"),
        Ok(Decorator::AppendHeader { .. })
    ));
}

#[test]
fn header_append_reaches_echoing_endpoint() {
    // The endpoint answers with the request's own headers.
    let p = Pipeline::new().layer(Decorator::append_header("x-test", "true").unwrap());
    let mut adapter = HyperService::new(());
    assert_eq!(adapter.poll_ready::<()>(), Readiness::Ready);
    let mut h = HeaderMap::new();
    h.append("test".to_string(), "hello".to_string());
    let echoed = p.forward_headers(h);
    assert!(echoed.entries.iter().any(|(k, v)| k == "x-test" && v == "true"));
}

#[test]
fn insert_replaces_all_values_of_a_name() {
    let mut h = HeaderMap::new();
    h.append("a".to_string(), "1".to_string());
    h.append("b".to_string(), "2".to_string());
    h.append("a".to_string(), "3".to_string());
    h.insert("a".to_string(), "4".to_string());
    assert_eq!(
        h.entries,
        vec![("b".to_string(), "2".to_string()), ("a".to_string(), "4".to_string())]
    );
    assert_eq!(h.len(), 2);
    assert_eq!(h.get(&"c".to_string()), None);
}

#[test]
fn timeout_is_ready_whatever_the_inner_stage() {
    let p = Pipeline::new()
        .layer(Decorator::append_header("x-a", "1").unwrap())
        .layer(Decorator::timeout(10));
    assert_eq!(p.poll_ready(Readiness::NotReady::<&str>), Readiness::Ready);
    assert_eq!(p.poll_ready(Readiness::Failed("down")), Readiness::Ready);
}

#[test]
fn readiness_is_delegated_without_timeout() {
    let p = Pipeline::new().layer(Decorator::append_header("x-a", "1").unwrap());
    assert_eq!(p.poll_ready(Readiness::NotReady::<&str>), Readiness::NotReady);
    assert_eq!(
        p.poll_ready(Readiness::Failed("down")),
        Readiness::Failed(StageError::Inner("down"))
    );
    assert_eq!(Pipeline::new().poll_ready(Readiness::Ready::<()>), Readiness::Ready);
}

fn resolved(phase: RacePhase<i32, &'static str>) -> Option<Result<i32, StageError<&'static str>>> {
    match phase {
        RacePhase::Resolved(r) => Some(r),
        _ => None,
    }
}

#[test]
fn race_resolves_by_whichever_comes_first() {
    let racing = race_step(RacePhase::Idle, RaceEvent::Invoke, 1000);
    assert!(matches!(racing, RacePhase::Racing { deadline_ms: 1000 }));
    let done = race_step(racing, RaceEvent::InnerDone { outcome: Ok(16), elapsed_ms: 10 }, 1000);
    assert_eq!(resolved(done), Some(Ok(16)));

    let racing = race_step(RacePhase::Idle, RaceEvent::Invoke, 1000);
    let late = race_step(racing, RaceEvent::InnerDone { outcome: Ok(16), elapsed_ms: 1000 }, 1000);
    assert_eq!(resolved(late), Some(Err(StageError::Timeout)));

    let racing = race_step(RacePhase::Idle, RaceEvent::Invoke, 5);
    let expired = race_step(racing, RaceEvent::DeadlineElapsed, 5);
    let after = race_step(expired, RaceEvent::InnerDone { outcome: Ok(1), elapsed_ms: 1 }, 5);
    assert_eq!(resolved(after), Some(Err(StageError::Timeout)));
}

#[test]
fn race_ignores_events_before_invoke() {
    let idle = race_step::<i32, &str>(RacePhase::Idle, RaceEvent::DeadlineElapsed, 5);
    assert!(matches!(idle, RacePhase::Idle));
    let racing = race_step(RacePhase::Idle, RaceEvent::Invoke, 5);
    let failed = race_step(racing, RaceEvent::InnerDone { outcome: Err("broken"), elapsed_ms: 1 }, 5);
    assert_eq!(resolved(failed), Some(Err(StageError::Inner("broken"))));
}
