use oxhttp::dispatch::{
    after_middleware, bind_params, complete_invocation, plan_dispatch, DispatchQueue,
    DispatchStep, HandlerOutcome, InvocationError, MiddlewareAction, ParamSource, PermitPool,
};
use oxhttp::routing::get;
use oxhttp::{HandlerValue, Request};

fn pairs(list: &[(&str, &str)]) -> Vec<(String, String)> {
    list.iter().map(|(k, v)| (k.to_string(), v.to_string())).collect()
}

fn names(list: &[&str]) -> Vec<String> {
    list.iter().map(|s| s.to_string()).collect()
}

#[test]
fn binding_order_reserved_then_path_then_body() {
    let bound = bind_params(
        &names(&["app_data", "id", "payload"]),
        &pairs(&[("id", "42")]),
        true,
        true,
    )
    .unwrap();
    assert_eq!(bound.len(), 3);
    assert_eq!(bound[0].0, "app_data");
    assert!(matches!(bound[0].1, ParamSource::AppData));
    assert_eq!(bound[1].0, "id");
    match &bound[1].1 {
        ParamSource::PathValue(v) => assert_eq!(v, "42"),
        _ => panic!("id must bind from the path"),
    }
    assert_eq!(bound[2].0, "payload");
    assert!(matches!(bound[2].1, ParamSource::BodyValue));
}

#[test]
fn reserved_names_bind_before_path_captures() {
    let bound = bind_params(
        &names(&["request", "next"]),
        &pairs(&[("request", "shadowed")]),
        false,
        false,
    )
    .unwrap();
    assert!(matches!(bound[0].1, ParamSource::RequestObj));
    assert!(matches!(bound[1].1, ParamSource::Continuation));
}

#[test]
fn app_data_unavailable_is_unresolved() {
    let r = bind_params(&names(&["app_data"]), &pairs(&[]), false, false);
    assert!(matches!(r, Err(InvocationError::UnresolvedParam)));
}

#[test]
fn at_most_one_name_receives_the_body() {
    let r = bind_params(&names(&["first", "second"]), &pairs(&[]), false, true);
    assert!(matches!(r, Err(InvocationError::UnresolvedParam)));
}

#[test]
fn unbound_name_without_body_is_unresolved() {
    let r = bind_params(&names(&["data"]), &pairs(&[]), false, false);
    assert!(matches!(r, Err(InvocationError::UnresolvedParam)));
}

#[test]
fn plan_calls_middleware_when_the_router_has_one() {
    let route = get("/a/{id}".to_string(), 1, names(&["id"])).unwrap();
    let params = pairs(&[("id", "9")]);
    match plan_dispatch(&route, &params, false, false, true) {
        DispatchStep::CallMiddleware(bound) => assert_eq!(bound.len(), 1),
        _ => panic!("a router with middleware must dispatch through it"),
    }
    match plan_dispatch(&route, &params, false, false, false) {
        DispatchStep::CallHandler(bound) => assert_eq!(bound.len(), 1),
        _ => panic!("without middleware the handler is invoked directly"),
    }
}

#[test]
fn plan_answers_500_for_unresolved_names() {
    let route = get("/a".to_string(), 1, names(&["ghost"])).unwrap();
    match plan_dispatch(&route, &pairs(&[]), false, false, false) {
        DispatchStep::Done(resp) => {
            assert_eq!(resp.status.0, 500);
            assert_eq!(resp.body, "Unresolved required parameter");
        }
        _ => panic!("an unresolved name must answer at once"),
    }
}

#[test]
fn middleware_short_circuit_never_reaches_the_handler() {
    let route = get("/spy".to_string(), 1, names(&[])).unwrap();
    let mut handler_calls: usize = 0;
    let step = plan_dispatch(&route, &pairs(&[]), false, false, true);
    let bound = match step {
        DispatchStep::CallMiddleware(bound) => bound,
        _ => panic!("middleware expected first"),
    };
    // The middleware answers for itself instead of calling the continuation.
    let own_answer = HandlerValue::Text("from middleware".to_string());
    let next = after_middleware(MiddlewareAction::Respond(own_answer), bound);
    match next {
        DispatchStep::Done(resp) => {
            assert_eq!(resp.status.0, 200);
            assert_eq!(resp.body, "from middleware");
        }
        DispatchStep::CallHandler(_) => {
            handler_calls += 1;
        }
        DispatchStep::CallMiddleware(_) => panic!("middleware runs once"),
    }
    assert_eq!(handler_calls, 0);
}

#[test]
fn middleware_forwarding_reaches_the_handler() {
    let route = get("/fwd".to_string(), 1, names(&[])).unwrap();
    let step = plan_dispatch(&route, &pairs(&[]), false, false, true);
    let bound = match step {
        DispatchStep::CallMiddleware(bound) => bound,
        _ => panic!("middleware expected first"),
    };
    match after_middleware(MiddlewareAction::CallNext, bound) {
        DispatchStep::CallHandler(_) => {}
        _ => panic!("the continuation must reach the handler"),
    }
}

#[test]
fn faults_are_contained_as_500() {
    let resp = complete_invocation(HandlerOutcome::Fault("handler exploded".to_string()));
    assert_eq!(resp.status.0, 500);
    assert_eq!(resp.content_type, "text/plain");
    assert_eq!(resp.body, "handler exploded");
}

#[test]
fn values_complete_through_the_conversion_protocol() {
    let resp = complete_invocation(HandlerOutcome::Value(HandlerValue::Text("ok".to_string())));
    assert_eq!(resp.status.0, 200);
    assert_eq!(resp.body, "ok");
}

fn ticket_request(url: &str) -> Request {
    Request::new("GET".to_string(), url.to_string(), Vec::new(), String::new())
}

#[test]
fn queue_serves_in_enqueue_order() {
    let mut queue = DispatchQueue::new();
    let route = || get("/q".to_string(), 1, Vec::new()).unwrap();
    let s0 = queue.enqueue(ticket_request("/first"), route(), Vec::new(), 100);
    let s1 = queue.enqueue(ticket_request("/second"), route(), Vec::new(), 101);
    let s2 = queue.enqueue(ticket_request("/third"), route(), Vec::new(), 102);
    assert!(s0 < s1 && s1 < s2);
    assert_eq!(queue.len(), 3);

    let first = queue.dequeue().unwrap();
    let second = queue.dequeue().unwrap();
    let third = queue.dequeue().unwrap();
    assert_eq!(first.request.url, "/first");
    assert_eq!(second.request.url, "/second");
    assert_eq!(third.request.url, "/third");
    assert!(first.serial < second.serial && second.serial < third.serial);
    assert_eq!(first.reply, 100);
    assert!(queue.dequeue().is_none());
}

#[test]
fn queue_interleaves_enqueue_and_dequeue_in_order() {
    let mut queue = DispatchQueue::new();
    let route = || get("/q".to_string(), 1, Vec::new()).unwrap();
    queue.enqueue(ticket_request("/a"), route(), Vec::new(), 0);
    queue.enqueue(ticket_request("/b"), route(), Vec::new(), 0);
    let a = queue.dequeue().unwrap();
    queue.enqueue(ticket_request("/c"), route(), Vec::new(), 0);
    let b = queue.dequeue().unwrap();
    let c = queue.dequeue().unwrap();
    assert_eq!(a.request.url, "/a");
    assert_eq!(b.request.url, "/b");
    assert_eq!(c.request.url, "/c");
    assert!(a.serial < b.serial && b.serial < c.serial);
}

#[test]
fn single_permit_serializes_two_workers() {
    let mut pool = PermitPool::new(1);
    assert!(pool.try_acquire());
    // The second simultaneous connection finds no permit while the
    // first is still running.
    assert!(!pool.try_acquire());
    assert!(!pool.try_acquire());
    pool.release();
    assert!(pool.try_acquire());
}

#[test]
fn pool_counts_down_and_up() {
    let mut pool = PermitPool::new(2);
    assert_eq!(pool.available, 2);
    assert!(pool.try_acquire());
    assert!(pool.try_acquire());
    assert!(!pool.try_acquire());
    pool.release();
    assert_eq!(pool.available, 1);
    assert!(pool.try_acquire());
}
