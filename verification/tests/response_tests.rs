use oxhttp::{convert_to_response, HandlerValue, IntoResponse, Response, Status};

#[test]
fn text_alone_serializes_to_the_expected_wire_bytes() {
    let resp = convert_to_response(HandlerValue::Text("hello".to_string()));
    assert_eq!(
        resp.to_wire(),
        "HTTP/1.1 200 OK\r\nContent-Type: text/plain\r\nContent-Length: 5\r\n\r\nhello"
    );
}

#[test]
fn structured_with_status_serializes_as_json() {
    let resp = convert_to_response(HandlerValue::StructuredWithStatus(
        "{\"a\":1}".to_string(),
        Status(201),
    ));
    assert_eq!(resp.status.0, 201);
    assert_eq!(resp.content_type, "application/json");
    assert_eq!(resp.body, "{\"a\":1}");
    assert_eq!(
        resp.to_wire(),
        "HTTP/1.1 201 Created\r\nContent-Type: application/json\r\nContent-Length: 7\r\n\r\n{\"a\":1}"
    );
}

#[test]
fn status_alone_has_empty_body() {
    let resp = convert_to_response(HandlerValue::StatusOnly(Status(204)));
    assert_eq!(resp.status.0, 204);
    assert_eq!(resp.content_type, "text/plain");
    assert_eq!(resp.body, "");
}

#[test]
fn structured_alone_is_json_with_status_200() {
    let resp = convert_to_response(HandlerValue::Structured("[1,2]".to_string()));
    assert_eq!(resp.status.0, 200);
    assert_eq!(resp.content_type, "application/json");
    assert_eq!(resp.body, "[1,2]");
}

#[test]
fn text_with_status_keeps_the_given_status() {
    let resp = convert_to_response(HandlerValue::TextWithStatus(
        "made".to_string(),
        Status(201),
    ));
    assert_eq!(resp.status.0, 201);
    assert_eq!(resp.content_type, "text/plain");
    assert_eq!(resp.body, "made");
}

#[test]
fn prebuilt_response_passes_through() {
    let built = Response::new(Status(418), "tea".to_string(), "text/plain".to_string());
    let resp = convert_to_response(HandlerValue::Complete(built));
    assert_eq!(resp.status.0, 418);
    assert_eq!(resp.body, "tea");
}

#[test]
fn inconvertible_value_yields_500_diagnostic() {
    let resp = convert_to_response(HandlerValue::Opaque);
    assert_eq!(resp.status.0, 500);
    assert_eq!(resp.content_type, "text/plain");
    assert_eq!(resp.body, "Failed to convert this type to response");
}

#[test]
fn into_response_for_basic_values() {
    let from_string = "hi".to_string().into_response();
    assert_eq!(from_string.status.0, 200);
    assert_eq!(from_string.content_type, "text/plain");
    assert_eq!(from_string.body, "hi");

    let from_status = Status(404).into_response();
    assert_eq!(from_status.status.0, 404);
    assert_eq!(from_status.body, "");

    let from_int = 7i32.into_response();
    assert_eq!(from_int.status.0, 200);
    assert_eq!(from_int.content_type, "application/json");
    assert_eq!(from_int.body, "7");

    let from_negative = (-35i32).into_response();
    assert_eq!(from_negative.body, "-35");

    let from_pair = ("gone".to_string(), Status(410)).into_response();
    assert_eq!(from_pair.status.0, 410);
    assert_eq!(from_pair.body, "gone");
}

#[test]
fn reason_phrases_come_from_the_registry() {
    assert_eq!(Status(200).reason(), "OK");
    assert_eq!(Status(201).reason(), "Created");
    assert_eq!(Status(404).reason(), "Not Found");
    assert_eq!(Status(500).reason(), "Internal Server Error");
    assert_eq!(Status(418).reason(), "IM A Teapot");
    assert_eq!(Status(599).reason(), "Unknown");
}

#[test]
fn status_constructors_carry_their_codes() {
    assert_eq!(Status::ok().code(), 200);
    assert_eq!(Status::created().code(), 201);
    assert_eq!(Status::bad_request().code(), 400);
    assert_eq!(Status::not_found().code(), 404);
    assert_eq!(Status::internal_server_error().code(), 500);
}

#[test]
fn content_length_counts_bytes_not_chars() {
    let resp = Response::new(Status(200), "héllo".to_string(), "text/plain".to_string());
    let wire = resp.to_wire();
    assert!(wire.contains("Content-Length: 6\r\n"));
}

#[test]
fn body_builder_replaces_the_body() {
    let resp = Response::new(Status(200), "old".to_string(), "text/plain".to_string())
        .body("new".to_string());
    assert_eq!(resp.body, "new");
    assert_eq!(resp.status.0, 200);
}

#[test]
fn large_content_length_renders_in_decimal() {
    let body = "x".repeat(12345);
    let resp = Response::new(Status(200), body, "text/plain".to_string());
    assert!(resp.to_wire().contains("Content-Length: 12345\r\n"));
}
