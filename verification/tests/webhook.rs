use std::time::Duration;

use event_grid::message::{Request, Response};
use event_grid::webhook::{
    accept_one, deliver, deliver_batch, handshake, parse, push, read_delivery, taken,
};
use event_grid::json::Json;
use event_grid::{CloudEvent, Delivery};

fn event(data: &[u8]) -> CloudEvent {
    CloudEvent {
        id: "1".to_string(),
        source: "http://topic.local/api/events".to_string(),
        kind: "t".to_string(),
        data: data.to_vec(),
    }
}

fn text(response: &Response) -> String {
    String::from_utf8(response.body.clone()).expect("UTF-8")
}

#[test]
fn a_delivery_is_written_as_event_grid_writes_it_and_reads_back() {
    let (delivery, response) = parse(&deliver("/hook", &event(b"a<b"))).expect("read");
    assert_eq!(delivery, Delivery::Events(vec![event(b"a<b")]));
    assert_eq!(response.status, 200);
    let batch = deliver_batch("/hook", &[event(b"1"), event(b"2")]);
    assert_eq!(
        parse(&batch).expect("read").0,
        Delivery::Events(vec![event(b"1"), event(b"2")])
    );
    let (delivery, response) = parse(&handshake("/hook", "eventgrid.azure.net")).expect("h");
    assert_eq!(
        delivery,
        Delivery::Handshake("eventgrid.azure.net".to_string())
    );
    assert_eq!(
        response.header_value("webhook-allowed-origin"),
        Some("eventgrid.azure.net")
    );
    let validation = Request::new("POST", "/hook")
        .header("aeg-event-type", "SubscriptionValidation")
        .body(br#"[{"data":{"validationCode":"c0de"}}]"#);
    let (delivery, response) = parse(&validation).expect("v");
    assert_eq!(delivery, Delivery::Validation("c0de".to_string()));
    assert_eq!(text(&response), r#"{"validationResponse":"c0de"}"#);
}

#[test]
fn what_is_not_a_delivery_is_refused_with_the_reason() {
    assert!(parse(&Request::new("OPTIONS", "/")).is_err());
    assert!(parse(&Request::new("POST", "/").body(b"not json"))
        .expect_err("not JSON")
        .message
        .contains("JSON"));
    let bare = Request::new("POST", "/")
        .header("aeg-event-type", "SubscriptionValidation")
        .body(b"[{}]");
    assert!(parse(&bare)
        .expect_err("no code")
        .message
        .contains("validationCode"));
    assert!(parse(&Request::new("POST", "/").body(b"{}")).is_err());
}

#[test]
fn a_pushed_delivery_is_accepted_on_loopback_and_a_bad_one_answered_400() {
    let timeout = Some(Duration::from_secs(2));
    let url = "http://127.0.0.1:7071/hook";
    let good = push(url, deliver("/", &event(b"a")), timeout).expect("pushed");
    let (first, answer) = accept_one(&good.request);
    taken(answer).expect("pushed");
    let bad = push(url, Request::new("POST", "/").body(b"x"), timeout).expect("pushed");
    let (second, answer) = accept_one(&bad.request);
    assert_eq!(answer.status, 400);
    let refused = taken(answer).expect_err("400");
    assert!(refused.retryable, "Event Grid retries a 400");
    assert_eq!(
        first.expect("a delivery"),
        Delivery::Events(vec![event(b"a")])
    );
    assert!(second.is_err(), "not a delivery");
    assert!(push("hook.local/x", deliver("/", &event(b"a")), timeout).is_err());
}

#[test]
fn a_delivery_says_what_it_is_in_its_headers() {
    let one = deliver("/hook", &event(b"a"));
    assert_eq!(one.method, "POST");
    assert_eq!(one.path, "/hook");
    assert_eq!(
        one.header_value("content-type"),
        Some("application/cloudevents+json; charset=utf-8")
    );
    assert_eq!(one.header_value("AEG-Event-Type"), Some("Notification"));
    let batch = deliver_batch("/hook", &[]);
    assert_eq!(
        batch.header_value("content-type"),
        Some("application/cloudevents-batch+json; charset=utf-8")
    );
    assert_eq!(batch.body, b"[]");
    assert_eq!(parse(&batch).expect("read").0, Delivery::Events(Vec::new()));
    let opening = handshake("/hook", "o");
    assert_eq!(opening.method, "OPTIONS");
    assert_eq!(opening.header_value("webhook-request-origin"), Some("o"));
    assert_eq!(opening.header_value("webhook-request-callback"), Some(""));
}

#[test]
fn a_pushed_request_goes_to_the_path_and_the_host_the_url_names() {
    let pushed = push(
        "https://hook.local:8443/a/b?c=d",
        handshake("/", "o"),
        Some(Duration::from_secs(3)),
    )
    .expect("pushed");
    assert_eq!(pushed.endpoint, "https://hook.local:8443");
    assert_eq!(pushed.request.path, "/a/b?c=d");
    assert_eq!(pushed.request.header_value("host"), Some("hook.local:8443"));
    assert_eq!(pushed.timeout, Some(Duration::from_secs(3)));
    let (delivery, answer) = parse(&pushed.request).expect("read");
    assert_eq!(delivery, Delivery::Handshake("o".to_string()));
    assert_eq!(answer.header_value("WEBHOOK-ALLOWED-RATE"), Some("*"));
    let failure = push("ftp://hook.local", handshake("/", "o"), None).expect_err("not HTTP");
    assert_eq!(failure.message, "not an HTTP URL: ftp://hook.local");
    assert!(!failure.retryable);
}

#[test]
fn every_reason_a_delivery_is_refused_for_is_said() {
    let reason = |request: &Request| parse(request).expect_err("refused").message;
    assert_eq!(
        reason(&Request::new("OPTIONS", "/")),
        "an OPTIONS naming no WebHook-Request-Origin"
    );
    assert_eq!(
        reason(&Request::new("POST", "/").body(b"not json")),
        "a delivery that is not JSON: expected ident at line 1 column 2"
    );
    assert_eq!(
        reason(
            &Request::new("POST", "/")
                .header("aeg-event-type", "SubscriptionValidation")
                .body(br#"{"data":{"validationCode":"c0de"}}"#)
        ),
        "a validation with no validationCode"
    );
    assert_eq!(
        reason(&Request::new("POST", "/").body(br#"[{"specversion":"1.0"}, 7]"#)),
        "an event with no id"
    );
}

#[test]
fn a_value_that_is_already_read_is_delivered_as_its_request_says() {
    let body = Json::List(vec![event(b"x").to_json(), event(b"y").to_json()]);
    let (delivery, answer) = read_delivery(&Request::new("POST", "/"), &body).expect("read");
    assert_eq!(delivery, Delivery::Events(vec![event(b"x"), event(b"y")]));
    assert_eq!(answer, Response::new(200));
    let validating = Request::new("POST", "/").header("aeg-event-type", "SubscriptionValidation");
    assert!(read_delivery(&validating, &body).is_err());
}

#[test]
fn only_a_2xx_answer_says_that_a_push_was_taken() {
    for status in [200, 202, 299] {
        assert_eq!(taken(Response::new(status)).expect("taken").status, status);
    }
    for status in [100, 199, 300, 404, 500] {
        let failure = taken(Response::new(status)).expect_err("not taken");
        assert_eq!(failure.message, format!("the webhook answered {status}"));
        assert!(failure.retryable);
    }
}
