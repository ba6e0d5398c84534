use oxhttp::routing::{get, Router};
use oxhttp::server::{
    bad_request_response, not_found_response, static_file_response, HttpServer, RoutingOutcome,
};

fn router_with(path: &str, handler: u64, args: &[&str]) -> Router {
    let mut router = Router::new();
    router
        .route(
            get(
                path.to_string(),
                handler,
                args.iter().map(|s| s.to_string()).collect(),
            )
            .unwrap(),
        )
        .unwrap();
    router
}

#[test]
fn new_server_has_the_documented_defaults() {
    let server = HttpServer::new(("127.0.0.1".to_string(), 8080));
    assert_eq!(server.host, "127.0.0.1");
    assert_eq!(server.port, 8080);
    assert!(server.routers.is_empty());
    assert!(server.app_data.is_none());
    assert_eq!(server.max_connections, 100);
    assert_eq!(server.buffer_size, 16384);
}

#[test]
fn config_replaces_budget_and_buffer() {
    let mut server = HttpServer::new(("0.0.0.0".to_string(), 80));
    server.config(1, 1024);
    assert_eq!(server.max_connections, 1);
    assert_eq!(server.buffer_size, 1024);
}

#[test]
fn app_data_capability_is_kept() {
    let mut server = HttpServer::new(("h".to_string(), 1));
    server.app_data(55);
    assert_eq!(server.app_data, Some(55));
}

#[test]
fn first_attached_router_wins_overlaps() {
    let mut server = HttpServer::new(("h".to_string(), 1));
    server.attach(router_with("/a", 1, &[]));
    server.attach(router_with("/a", 2, &[]));
    let (ri, m) = server.find_route("GET", "/a").unwrap();
    assert_eq!(ri, 0);
    assert_eq!(m.route.handler, 1);
}

#[test]
fn later_router_serves_what_earlier_ones_lack() {
    let mut server = HttpServer::new(("h".to_string(), 1));
    server.attach(router_with("/a", 1, &[]));
    server.attach(router_with("/b", 2, &[]));
    let (ri, m) = server.find_route("GET", "/b").unwrap();
    assert_eq!(ri, 1);
    assert_eq!(m.route.handler, 2);
    assert!(server.find_route("GET", "/c").is_none());
}

#[test]
fn malformed_request_is_answered_with_400() {
    let server = HttpServer::new(("h".to_string(), 1));
    match server.route_request("GET /only-two-tokens") {
        RoutingOutcome::Reply(resp) => {
            assert_eq!(resp.status.0, 400);
            assert_eq!(resp.body, "Bad Request");
        }
        _ => panic!("a malformed request must be answered, not dispatched"),
    }
}

#[test]
fn unmatched_path_is_answered_with_404_not_found() {
    let mut server = HttpServer::new(("h".to_string(), 1));
    server.attach(router_with("/known", 1, &[]));
    match server.route_request("GET /unknown HTTP/1.1\r\n\r\n") {
        RoutingOutcome::Reply(resp) => {
            assert_eq!(resp.status.0, 404);
            assert_eq!(resp.body, "Not Found");
            assert_eq!(
                resp.to_wire(),
                "HTTP/1.1 404 Not Found\r\nContent-Type: text/plain\r\nContent-Length: 9\r\n\r\nNot Found"
            );
        }
        _ => panic!("an unmatched path must be answered with 404"),
    }
}

#[test]
fn matched_request_is_dispatched_with_its_captures() {
    let mut server = HttpServer::new(("h".to_string(), 1));
    server.attach(router_with("/users/{id}", 7, &["id"]));
    match server.route_request("GET /users/42?v=1 HTTP/1.1\r\nHost: h\r\n\r\n") {
        RoutingOutcome::Dispatch(req, ri, m) => {
            assert_eq!(req.method, "GET");
            assert_eq!(req.url, "/users/42?v=1");
            assert_eq!(ri, 0);
            assert_eq!(m.route.handler, 7);
            assert_eq!(m.params, vec![("id".to_string(), "42".to_string())]);
        }
        _ => panic!("a matched request must be dispatched"),
    }
}

#[test]
fn canned_responses_have_their_texts() {
    let nf = not_found_response();
    assert_eq!(nf.status.0, 404);
    assert_eq!(nf.body, "Not Found");
    let br = bad_request_response();
    assert_eq!(br.status.0, 400);
    assert_eq!(br.body, "Bad Request");
}

#[test]
fn static_file_answer_depends_on_existence() {
    let hit = static_file_response(true, "file text".to_string());
    assert_eq!(hit.status.0, 200);
    assert_eq!(hit.body, "file text");
    let miss = static_file_response(false, String::new());
    assert_eq!(miss.status.0, 404);
    assert_eq!(miss.body, "");
}
