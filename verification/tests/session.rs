use event_grid::event::CONTENT_TYPE;
use event_grid::json::Json;
use event_grid::message::{Request, Response};
use event_grid::session::{allowed, read_published, refused, validated, weigh};
use event_grid::webhook;
use event_grid::{CloudEvent, Event, Ids, Session, API_VERSION, EVENT_CEILING, KEY_HEADER};

fn publish(key: &str, body: &[u8]) -> Request {
    Request::new("POST", "/api/events")
        .query("api-version", API_VERSION)
        .header(KEY_HEADER, key)
        .header("Content-Type", CONTENT_TYPE)
        .body(body)
}

fn text(response: &Response) -> String {
    String::from_utf8(response.body.clone()).expect("UTF-8")
}

#[test]
fn a_session_takes_one_event_or_a_batch_and_refuses_in_event_grids_shapes() {
    let mut session = Session::new("key");
    let mut ids = Ids::new();
    let event = CloudEvent::stream("http://topic.local/api/events", b"a<b", &mut ids, 1);
    let (taken, response) = session.answer(&publish("key", event.to_json().write().as_bytes()));
    assert_eq!(response.status, 200);
    assert_eq!(taken, Event::Published(event.clone()));
    let batch = Json::List(vec![event.to_json(), event.to_json()]).write();
    let (taken, _) = session.answer(&publish("key", batch.as_bytes()));
    assert_eq!(taken, Event::Published(event.clone()));
    assert_eq!(session.events().len(), 3);
    let (taken, response) = session.answer(&publish("wrong", b"{}"));
    assert_eq!(
        (taken, response.status),
        (Event::Refused("Unauthorized".to_string()), 401)
    );
    assert!(text(&response).contains("not valid"));
    let (_, response) = session.answer(&publish("key", b"not json"));
    assert_eq!(response.status, 400);
    let (_, response) = session.answer(&publish("key", b"[]"));
    assert_eq!(response.status, 400);
    let (_, response) = session.answer(&publish("key", br#"{"specversion":"0.3"}"#));
    assert_eq!(response.status, 400);
    let too_big = CloudEvent::stream("s", &vec![0; EVENT_CEILING], &mut ids, 1)
        .to_json()
        .write();
    let (taken, response) = session.answer(&publish("key", too_big.as_bytes()));
    assert_eq!(
        (taken, response.status),
        (Event::Refused("RequestEntityTooLarge".to_string()), 413)
    );
    let elsewhere = publish("key", b"{}");
    let (_, response) = session.answer(&Request {
        path: "/elsewhere".to_string(),
        ..elsewhere
    });
    assert_eq!(response.status, 404);
    let (_, response) = session.answer(&Request {
        query: vec![("api-version".to_string(), "2010-01-01".to_string())],
        ..publish("key", b"{}")
    });
    assert_eq!(response.status, 400);
}

#[test]
fn a_refusal_is_answered_as_json_with_the_code_and_the_reason() {
    let mut session = Session::new("key");
    let mut said = |request: &Request| {
        let (_, response) = session.answer(request);
        assert_eq!(
            response.header_value("content-type"),
            Some("application/json")
        );
        text(&response)
    };
    assert_eq!(
        said(&publish("wrong", b"{}")),
        r#"{"error":{"code":"Unauthorized","message":"The request authorization key is not valid"}}"#
    );
    assert_eq!(
        said(&Request {
            method: "PUT".to_string(),
            ..publish("key", b"{}")
        }),
        r#"{"error":{"code":"NotFound","message":"Not a topic endpoint"}}"#
    );
    assert_eq!(
        said(&Request {
            query: Vec::new(),
            ..publish("key", b"{}")
        }),
        r#"{"error":{"code":"BadRequest","message":"An api-version this session does not speak"}}"#
    );
    assert_eq!(
        said(&publish("key", b"not json")),
        r#"{"error":{"code":"BadRequest","message":"Not JSON: expected ident at line 1 column 2"}}"#
    );
    assert_eq!(
        said(&publish("key", b"[]")),
        r#"{"error":{"code":"BadRequest","message":"A batch with no events"}}"#
    );
    assert_eq!(
        said(&publish("key", br#"{"specversion":"0.3"}"#)),
        r#"{"error":{"code":"BadRequest","message":"an event that is not CloudEvents 1.0"}}"#
    );
}

#[test]
fn a_batch_with_one_that_is_not_an_event_is_not_taken_at_all() {
    let mut session = Session::new("key");
    let event = CloudEvent::stream("s", b"a", &mut Ids::new(), 1);
    let batch = Json::List(vec![event.to_json(), Json::Null]).write();
    let (taken, response) = session.answer(&publish("key", batch.as_bytes()));
    assert_eq!(
        (taken, response.status),
        (Event::Refused("BadRequest".to_string()), 400)
    );
    assert!(session.events().is_empty());
}

#[test]
fn a_batch_is_held_in_order_behind_what_was_there() {
    let mut session = Session::new("key");
    let mut ids = Ids::new();
    let events: Vec<CloudEvent> = (1..4)
        .map(|count| CloudEvent::stream("s", &[count], &mut ids, 1))
        .collect();
    session.answer(&publish("key", events[0].to_json().write().as_bytes()));
    let batch = Json::List(vec![events[1].to_json(), events[2].to_json()]).write();
    let (taken, _) = session.answer(&publish("key", batch.as_bytes()));
    assert_eq!(taken, Event::Published(events[1].clone()));
    assert_eq!(session.events(), events);
}

#[test]
fn an_event_is_weighed_by_the_bytes_of_its_text() {
    let event = CloudEvent::stream("s", b"a", &mut Ids::new(), 1);
    assert_eq!(
        weigh(&event.to_json(), EVENT_CEILING).expect("at the brim"),
        event
    );
    let over = weigh(&event.to_json(), EVENT_CEILING + 1).expect_err("over the brim");
    assert_eq!(over.status, 413);
    assert_eq!(over.code, "RequestEntityTooLarge");
    assert_eq!(over.message, "An event is at most 1048576 bytes");
    let none = weigh(&Json::Null, 4).expect_err("not an event");
    assert_eq!((none.status, none.code.as_str()), (400, "BadRequest"));
}

#[test]
fn a_value_that_is_already_read_publishes_its_events() {
    let event = CloudEvent::stream("s", b"a", &mut Ids::new(), 1);
    assert_eq!(
        read_published(&event.to_json()).expect("one"),
        vec![event.clone()]
    );
    assert_eq!(
        read_published(&Json::List(Vec::new()))
            .expect_err("none")
            .message,
        "A batch with no events"
    );
}

#[test]
fn a_refusal_reports_its_code() {
    let (report, response) = refused(404, "NotFound", "a \"b\"");
    assert_eq!(report, Event::Refused("NotFound".to_string()));
    assert_eq!(response.status, 404);
    assert_eq!(
        text(&response),
        r#"{"error":{"code":"NotFound","message":"a \"b\""}}"#
    );
}

#[test]
fn the_handshake_is_answered_and_the_origin_allowed() {
    let session = Session::new("key");
    let opening = session.validate("http://hook.local/hook").expect("pushed");
    let (_, answer) = webhook::parse(&opening.request).expect("read");
    allowed(&answer).expect("allowed");
    allowed(&Response::new(200).header("WebHook-Allowed-Origin", "*")).expect("every origin");
    let other = Response::new(200).header("WebHook-Allowed-Origin", "other");
    let failure = allowed(&other).expect_err("another origin");
    assert_eq!(failure.message, "the webhook did not allow the origin");
    assert!(allowed(&Response::new(200)).is_err());
    assert!(session.validate("hook.local").is_err());
    assert!(session
        .deliver("hook.local", &CloudEvent::stream("s", b"", &mut Ids::new(), 1))
        .is_err());
}

#[test]
fn an_event_whose_data_base64_is_no_text_is_not_taken() {
    let mut session = Session::new("key");
    let event = br#"{"specversion":"1.0","type":"t","source":"s","id":"1","data_base64":5}"#;
    let (taken, response) = session.answer(&publish("key", event));
    assert_eq!(
        (taken, response.status),
        (Event::Refused("BadRequest".to_string()), 400)
    );
    assert!(String::from_utf8(response.body)
        .expect("text")
        .contains("data_base64 that is not base64: a value that is not text"));
    assert!(session.events().is_empty());
    let delivery = Request::new("POST", "/hook").body(event);
    assert!(webhook::parse(&delivery).is_err());
    let (delivery, response) = webhook::accept_one(&delivery);
    assert!(delivery.is_err());
    assert_eq!(response.status, 400);
}

#[test]
fn the_handshake_is_validated_where_it_is_taken_and_allowed() {
    let allowing = |status| Response::new(status).header("WebHook-Allowed-Origin", "*");
    validated(allowing(200)).expect("taken and allowed");
    validated(allowing(204)).expect("taken and allowed");
    for status in [199, 300, 400, 503] {
        let failure = validated(allowing(status)).expect_err("not taken");
        assert_eq!(failure.message, format!("the webhook answered {status}"));
        assert!(failure.retryable);
    }
    let failure = validated(Response::new(200)).expect_err("not allowed");
    assert_eq!(failure.message, "the webhook did not allow the origin");
    assert!(!failure.retryable);
}

#[test]
fn a_batch_is_refused_as_the_first_of_it_that_is_not_taken() {
    let event = CloudEvent::stream("s", b"a", &mut Ids::new(), 1);
    let old = Json::read(br#"{"specversion":"0.3"}"#).expect("JSON");
    let nameless = Json::read(br#"{"specversion":"1.0"}"#).expect("JSON");
    let batch = Json::List(vec![event.to_json(), nameless, old]);
    assert_eq!(
        read_published(&batch).expect_err("not taken").message,
        "an event with no id"
    );
    let delivery = Request::new("POST", "/hook").body(batch.write().as_bytes());
    assert_eq!(
        webhook::parse(&delivery).expect_err("not read").message,
        "an event with no id"
    );
}
