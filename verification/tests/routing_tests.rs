use oxhttp::routing::{delete, get, patch, post, put, static_files, Route, RouteError, Router};

fn no_args() -> Vec<String> {
    Vec::new()
}

#[test]
fn literal_route_matches_exact_path() {
    let mut router = Router::new();
    router.route(get("/health".to_string(), 1, no_args()).unwrap()).unwrap();
    let m = router.find("GET", "/health").unwrap();
    assert_eq!(m.route.handler, 1);
    assert!(m.params.is_empty());
    assert!(router.find("GET", "/missing").is_none());
}

#[test]
fn named_segment_captures_value() {
    let mut router = Router::new();
    router
        .route(get("/users/{id}".to_string(), 2, vec!["id".to_string()]).unwrap())
        .unwrap();
    let m = router.find("GET", "/users/42").unwrap();
    assert_eq!(m.route.handler, 2);
    assert_eq!(m.params, vec![("id".to_string(), "42".to_string())]);
}

#[test]
fn several_named_segments_capture_in_pattern_order() {
    let mut router = Router::new();
    router
        .route(
            get(
                "/orgs/{org}/repos/{repo}".to_string(),
                3,
                vec!["org".to_string(), "repo".to_string()],
            )
            .unwrap(),
        )
        .unwrap();
    let m = router.find("GET", "/orgs/acme/repos/site").unwrap();
    assert_eq!(
        m.params,
        vec![
            ("org".to_string(), "acme".to_string()),
            ("repo".to_string(), "site".to_string()),
        ]
    );
}

#[test]
fn captures_survive_reregistration_under_other_literals() {
    let mut router = Router::new();
    router
        .route(get("/v1/users/{id}".to_string(), 4, vec!["id".to_string()]).unwrap())
        .unwrap();
    let before = router.find("GET", "/v1/users/42").unwrap().params;

    let mut router2 = Router::new();
    router2
        .route(get("/v2/users/{id}".to_string(), 5, vec!["id".to_string()]).unwrap())
        .unwrap();
    let after = router2.find("GET", "/v2/users/42").unwrap().params;

    assert_eq!(before, after);
    assert_eq!(before, vec![("id".to_string(), "42".to_string())]);
}

#[test]
fn wildcard_captures_joined_remainder() {
    let mut router = Router::new();
    router.route(static_files("static".to_string(), 9).unwrap()).unwrap();
    let m = router.find("GET", "/static/css/app.css").unwrap();
    assert_eq!(m.route.handler, 9);
    assert_eq!(m.params, vec![("path".to_string(), "css/app.css".to_string())]);
}

#[test]
fn wildcard_remainder_may_be_empty() {
    let mut router = Router::new();
    router.route(static_files("static".to_string(), 9).unwrap()).unwrap();
    let m = router.find("GET", "/static").unwrap();
    assert_eq!(m.params, vec![("path".to_string(), String::new())]);
}

#[test]
fn literal_wins_over_parameter() {
    let mut router = Router::new();
    router
        .route(get("/users/active".to_string(), 1, no_args()).unwrap())
        .unwrap();
    router
        .route(get("/users/{id}".to_string(), 2, vec!["id".to_string()]).unwrap())
        .unwrap();
    let m = router.find("GET", "/users/active").unwrap();
    assert_eq!(m.route.handler, 1);
    assert!(m.params.is_empty());
    let other = router.find("GET", "/users/bob").unwrap();
    assert_eq!(other.route.handler, 2);
    assert_eq!(other.params, vec![("id".to_string(), "bob".to_string())]);
}

#[test]
fn literal_wins_whatever_the_registration_order() {
    let mut router = Router::new();
    router
        .route(get("/users/{id}".to_string(), 2, vec!["id".to_string()]).unwrap())
        .unwrap();
    router
        .route(get("/users/active".to_string(), 1, no_args()).unwrap())
        .unwrap();
    let m = router.find("GET", "/users/active").unwrap();
    assert_eq!(m.route.handler, 1);
}

#[test]
fn parameter_wins_over_wildcard() {
    let mut router = Router::new();
    router
        .route(get("/files/{*rest}".to_string(), 1, vec!["rest".to_string()]).unwrap())
        .unwrap();
    router
        .route(get("/files/{name}".to_string(), 2, vec!["name".to_string()]).unwrap())
        .unwrap();
    let m = router.find("GET", "/files/readme").unwrap();
    assert_eq!(m.route.handler, 2);
    let deep = router.find("GET", "/files/a/b").unwrap();
    assert_eq!(deep.route.handler, 1);
    assert_eq!(deep.params, vec![("rest".to_string(), "a/b".to_string())]);
}

#[test]
fn method_filters_routes() {
    let mut router = Router::new();
    router.route(get("/thing".to_string(), 1, no_args()).unwrap()).unwrap();
    router.route(post("/thing".to_string(), 2, no_args()).unwrap()).unwrap();
    assert_eq!(router.find("GET", "/thing").unwrap().route.handler, 1);
    assert_eq!(router.find("POST", "/thing").unwrap().route.handler, 2);
    assert!(router.find("DELETE", "/thing").is_none());
}

#[test]
fn helpers_set_their_methods() {
    assert_eq!(get("/a".to_string(), 1, no_args()).unwrap().method, "GET");
    assert_eq!(post("/a".to_string(), 1, no_args()).unwrap().method, "POST");
    assert_eq!(put("/a".to_string(), 1, no_args()).unwrap().method, "PUT");
    assert_eq!(patch("/a".to_string(), 1, no_args()).unwrap().method, "PATCH");
    assert_eq!(delete("/a".to_string(), 1, no_args()).unwrap().method, "DELETE");
}

#[test]
fn duplicate_registration_is_refused() {
    let mut router = Router::new();
    router.route(get("/dup".to_string(), 1, no_args()).unwrap()).unwrap();
    let again = router.route(get("/dup".to_string(), 2, no_args()).unwrap());
    assert!(matches!(again, Err(RouteError::Duplicate)));
    assert_eq!(router.find("GET", "/dup").unwrap().route.handler, 1);
}

#[test]
fn malformed_patterns_are_refused() {
    assert!(matches!(
        Route::new("GET".to_string(), "/a/{open".to_string(), 1, no_args()),
        Err(RouteError::BadPattern)
    ));
    assert!(matches!(
        Route::new("GET".to_string(), "/a/{}".to_string(), 1, no_args()),
        Err(RouteError::BadPattern)
    ));
    assert!(matches!(
        Route::new("GET".to_string(), "/a/{*}".to_string(), 1, no_args()),
        Err(RouteError::BadPattern)
    ));
    assert!(matches!(
        Route::new("GET".to_string(), "/{*rest}/tail".to_string(), 1, no_args()),
        Err(RouteError::BadPattern)
    ));
}

#[test]
fn query_string_is_stripped_before_matching() {
    let mut router = Router::new();
    router
        .route(get("/users/{id}".to_string(), 2, vec!["id".to_string()]).unwrap())
        .unwrap();
    let m = router.find("GET", "/users/42?verbose=1").unwrap();
    assert_eq!(m.params, vec![("id".to_string(), "42".to_string())]);
}

#[test]
fn trailing_slash_does_not_change_the_match() {
    let mut router = Router::new();
    router.route(get("/health".to_string(), 1, no_args()).unwrap()).unwrap();
    assert_eq!(router.find("GET", "/health/").unwrap().route.handler, 1);
}

#[test]
fn wildcard_capture_round_trips_through_a_new_request() {
    let mut router = Router::new();
    router
        .route(get("/files/{*rest}".to_string(), 1, vec!["rest".to_string()]).unwrap())
        .unwrap();
    let first = router.find("GET", "/files/a/b/c").unwrap();
    let captured = first.params[0].1.clone();
    assert_eq!(captured, "a/b/c");
    // Requesting the captured remainder again reproduces the capture.
    let again = router.find("GET", &format!("/files/{}", captured)).unwrap();
    assert_eq!(again.params[0].1, captured);
}

#[test]
fn middleware_registration_is_kept() {
    let mut router = Router::new();
    assert!(router.middleware.is_none());
    router.middleware(77);
    assert_eq!(router.middleware, Some(77));
}
