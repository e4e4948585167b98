use std::time::Duration;

use event_grid::client::{code_named, judge, judge_naming};
use event_grid::event::{fresh_id, STREAM_TYPE};
use event_grid::json::Json;
use event_grid::loopback::{conclude, follow, hook_at, next, published, topic_at, Next, Step};
use event_grid::message::Response;
use event_grid::session::validated;
use event_grid::target::HttpTarget;
use event_grid::webhook::{self, taken};
use event_grid::{
    ceiling, Arrived, Client, CloudEvent, Delivery, Event, EventGridTransport, Ids, Session,
    TransportError, ENVELOPE, EVENT_CEILING,
};

fn node(topic_url: &str, key: &str) -> EventGridTransport {
    EventGridTransport::new(topic_url)
        .with_key(key)
        .timing_out_after(Duration::from_secs(2))
}

/// One round with no wire between the two ends.
fn round(
    grid: &EventGridTransport,
    ids: &mut Ids,
    payload: &[u8],
) -> Result<Arrived, TransportError> {
    let mut session = grid.session();
    let sent = grid.send_to("127.0.0.1:7070", payload, ids, 7)?;
    let (report, answer) = session.answer(&sent.request);
    judge(answer)?;
    let event = published(report)?;
    let url = hook_at("127.0.0.1:7071");
    let mut took = Next::Accept;
    let mut first = true;
    let mut step = Step::Open;
    let delivered = loop {
        let outcome = match step {
            Step::Open => {
                let opening = session.validate(&url)?;
                let (delivery, answer) = webhook::accept_one(&opening.request);
                took = next(first, delivery.map(|delivery| grid.accept_one(delivery)));
                assert_eq!(took, Next::Accept);
                first = false;
                validated(answer)
            }
            Step::Deliver => {
                let delivering = session.deliver(&url, &event)?;
                let (delivery, answer) = webhook::accept_one(&delivering.request);
                took = next(first, delivery.map(|delivery| grid.accept_one(delivery)));
                taken(answer).map(|_| ())
            }
            Step::Poke(_) => Ok(()),
            Step::Join(delivered) => break delivered,
        };
        step = follow(step, outcome);
    };
    match took {
        Next::Accept => panic!("the second delivery is the last"),
        Next::Done(taken) => conclude(delivered, Some(taken)),
    }
}

#[test]
fn what_is_published_is_delivered_to_the_validated_webhook_and_received() {
    let topic = "http://127.0.0.1:7070/api/events";
    let near = node(topic, "key");
    let webhook_url = "http://127.0.0.1:7071/hook";
    let mut session = near.session();
    let sent = near
        .send("", &[0, 0xff, b'\r', b'\n'], &mut Ids::new(), 7)
        .expect("its own topic");
    let (published, answer) = session.answer(&sent.request);
    judge(answer).expect("its own topic");
    let opening = session.validate(webhook_url).expect("validated");
    let (delivery, answer) = webhook::accept_one(&opening.request);
    validated(answer).expect("validated");
    assert!(near.accept_one(delivery.expect("handshake")).is_empty());
    let event = session.events().into_iter().next().expect("one event");
    let delivering = session.deliver(webhook_url, &event).expect("delivered");
    let (delivery, answer) = webhook::accept_one(&delivering.request);
    taken(answer).expect("delivered");
    let arrived = near.accept_one(delivery.expect("delivered"));
    assert_eq!(arrived.len(), 1);
    assert_eq!(arrived[0].bytes, [0, 0xff, b'\r', b'\n']);
    assert!(arrived[0].origin_uri.starts_with(&format!("{topic}#")));
    assert!(
        matches!(published, Event::Published(event) if event.origin() == arrived[0].origin_uri)
    );
}

#[test]
fn a_wrong_key_is_refused_with_event_grids_own_status_and_code() {
    let mut session = node("http://x/api/events", "key").session();
    let sent = node("http://127.0.0.1:7070/api/events", "wrong")
        .send("", b"x", &mut Ids::new(), 7)
        .expect("sent");
    let (report, answer) = session.answer(&sent.request);
    let failure = judge(answer).expect_err("refused");
    assert!(failure.message.contains("401 Unauthorized"));
    assert!(!failure.retryable);
    assert_eq!(report, Event::Refused("Unauthorized".to_string()));
}

#[test]
fn what_is_over_the_ceiling_is_refused_before_the_wire_with_the_reason() {
    let near = node("http://127.0.0.1:1/api/events", "key");
    let over = vec![b'x'; ceiling() + 1];
    let failure = near
        .send("", &over, &mut Ids::new(), 7)
        .expect_err("over the ceiling");
    assert!(!failure.retryable);
    assert!(failure.message.contains(&ceiling().to_string()));
    assert_eq!(ceiling(), 785_664);
    assert!(ceiling() / 3 * 4 + ENVELOPE <= EVENT_CEILING);
    assert_eq!(
        failure.message,
        "785665 bytes is over the 785664 one Event Grid event carries"
    );
}

#[test]
fn a_server_failure_is_worth_repeating_and_a_client_one_is_not() {
    assert!(judge(Response::new(503)).expect_err("server").retryable);
    assert!(judge(Response::new(429)).expect_err("throttled").retryable);
    let body = Json::read(br#"{"error": {"code": "BadRequest", "message": "no"}}"#)
        .expect("JSON")
        .write();
    let failure = judge(Response::new(400).body(body.as_bytes())).expect_err("bad");
    assert!(!failure.retryable);
    assert_eq!(failure.message, "Event Grid answered 400 BadRequest");
    assert_eq!(judge(Response::new(200)).expect("ok").status, 200);
}

#[test]
fn an_answer_that_names_no_code_is_judged_by_its_status() {
    for (status, retryable) in [(300, false), (401, false), (404, false), (500, true), (599, true)] {
        let failure = judge_naming(Response::new(status), "").expect_err("not 2xx");
        assert_eq!(failure.message, format!("Event Grid answered {status}"));
        assert_eq!(failure.retryable, retryable);
    }
    assert!(judge_naming(Response::new(299), "ignored").is_ok());
    assert_eq!(
        judge(Response::new(413).body(b"not json"))
            .expect_err("too large")
            .message,
        "Event Grid answered 413"
    );
    assert_eq!(code_named(&Json::Null), "");
    let odd = Json::read(br#"{"error": {"code": 7}}"#).expect("JSON");
    assert_eq!(code_named(&odd), "");
}

#[test]
fn a_publish_is_taken_and_a_wrong_key_is_told_the_code() {
    let topic = "http://127.0.0.1:7070/api/events";
    let event = CloudEvent::stream(topic, b"UNA:+.? '", &mut Ids::new(), 7);
    let mut session = Session::new("key").timing_out_after(Duration::from_secs(2));
    let sent = Client::new("key")
        .timing_out_after(Duration::from_secs(2))
        .publish(topic, &event)
        .expect("published");
    assert_eq!(sent.endpoint, "http://127.0.0.1:7070");
    assert_eq!(sent.timeout, Some(Duration::from_secs(2)));
    assert_eq!(sent.request.header_value("host"), Some("127.0.0.1:7070"));
    assert_eq!(sent.request.query_value("api-version"), Some("2018-01-01"));
    let (first, answer) = session.answer(&sent.request);
    judge(answer).expect("published");
    let wrong = Client::new("wrong").publish(topic, &event).expect("sent");
    let (second, answer) = session.answer(&wrong.request);
    let refused = judge(answer).expect_err("refused");
    assert_eq!(refused.message, "Event Grid answered 401 Unauthorized");
    assert!(!refused.retryable);
    assert_eq!(session.events(), vec![event.clone()]);
    assert_eq!(first, Event::Published(event));
    assert_eq!(second, Event::Refused("Unauthorized".to_string()));
    assert!(Client::new("k")
        .publish("topic.local", &CloudEvent::stream("s", b"", &mut Ids::new(), 7))
        .is_err());
}

#[test]
fn a_topic_that_is_not_http_is_not_worth_repeating() {
    let near = node("topic.local/api/events", "k");
    assert_eq!(near.name(), "azure-event-grid");
    assert!(
        !near
            .send("", b"x", &mut Ids::new(), 7)
            .expect_err("no scheme")
            .retryable
    );
    assert!(near.topic_authority().is_err());
    let elsewhere = near
        .send("https://other.local/api/events", b"x", &mut Ids::new(), 7)
        .expect("another topic");
    assert_eq!(elsewhere.endpoint, "https://other.local");
    let plain = EventGridTransport::new("http://x/api/events");
    assert_eq!(plain.bind(), "127.0.0.1:0");
    assert_eq!(plain.timeout(), None);
    assert_eq!(plain.topic_authority().expect("HTTP"), "x");
    assert_eq!(plain.listening_at("0.0.0.0:80").bind(), "0.0.0.0:80");
}

#[test]
fn a_round_publishes_and_takes_the_delivery_at_the_webhook() {
    let grid = EventGridTransport::loopback(Duration::from_secs(5));
    let arrived = round(&grid, &mut Ids::new(), b"UNA:+.? '").expect("round");
    assert_eq!(arrived.bytes, b"UNA:+.? '");
    assert_eq!(
        arrived.origin_uri,
        "http://127.0.0.1:7070/api/events#7-1"
    );
    assert_eq!(grid.topic_url(), "http://127.0.0.1:0/api/events");
    assert_eq!(grid.ceiling(), Some(ceiling()));
}

/// The Playground's edge payloads, and one at the brim.
fn edge_payloads() -> Vec<(&'static str, Vec<u8>)> {
    vec![
        ("empty", Vec::new()),
        ("one byte", vec![0x2a]),
        ("every byte", (0..=255).collect()),
        ("nul run", vec![0; 512]),
        ("high bytes", vec![0xff; 512]),
        ("crlf storm", b"\r\n".repeat(400)),
        ("the brim", vec![b'x'; ceiling()]),
    ]
}

#[test]
fn a_round_returns_the_edge_payloads_whole_and_refuses_over_the_brim() {
    let grid = EventGridTransport::loopback(Duration::from_secs(5));
    let mut ids = Ids::new();
    for (name, payload) in edge_payloads() {
        let arrived = round(&grid, &mut ids, &payload).expect(name);
        assert_eq!(arrived.bytes, payload, "{name}");
    }
    let over = vec![b'x'; ceiling() + 1];
    let failure = round(&grid, &mut ids, &over).expect_err("over the brim");
    assert!(failure.message.contains("785664"));
    assert_eq!(ids.fresh(7), "7-8", "no id for what is refused");
}

#[test]
fn a_delivery_brings_one_stream_for_each_event_and_none_before() {
    let near = node("http://x/api/events", "k");
    let mut ids = Ids::new();
    let arrived = near.accept_one(Delivery::Events(vec![
        CloudEvent::stream("s", b"1", &mut ids, 7),
        CloudEvent::stream("s", b"2", &mut ids, 8),
    ]));
    assert_eq!(
        arrived,
        vec![
            Arrived {
                origin_uri: "s#7-1".to_string(),
                bytes: b"1".to_vec(),
            },
            Arrived {
                origin_uri: "s#8-2".to_string(),
                bytes: b"2".to_vec(),
            },
        ]
    );
    assert!(near
        .accept_one(Delivery::Handshake("o".to_string()))
        .is_empty());
    assert!(near
        .accept_one(Delivery::Validation("c".to_string()))
        .is_empty());
}

#[test]
fn a_round_says_what_it_broke_on() {
    let arrived = || {
        vec![Arrived {
            origin_uri: "s#1".to_string(),
            bytes: vec![1],
        }]
    };
    let failed = || TransportError::retryable("down");
    assert_eq!(
        published(Event::Refused("NotFound".to_string()))
            .expect_err("refused")
            .message,
        "the session refused: NotFound"
    );
    assert_eq!(next(true, Ok(arrived())), Next::Done(Ok(arrived())));
    assert_eq!(next(true, Err(failed())), Next::Done(Err(failed())));
    assert_eq!(next(false, Ok(Vec::new())), Next::Done(Ok(Vec::new())));
    assert_eq!(
        conclude(Ok(()), None).expect_err("broken off").message,
        "the webhook's thread panicked"
    );
    assert_eq!(
        conclude(Err(failed()), Some(Ok(arrived()))).expect_err("not delivered"),
        failed()
    );
    assert_eq!(
        conclude(Ok(()), Some(Err(failed()))).expect_err("not taken"),
        failed()
    );
    assert_eq!(
        conclude(Ok(()), Some(Ok(Vec::new())))
            .expect_err("nothing")
            .message,
        "delivered, but the webhook took nothing"
    );
    assert_eq!(
        conclude(Ok(()), Some(Ok(arrived()))).expect("taken").bytes,
        [1]
    );
}

#[test]
fn a_round_opens_delivers_and_pokes_in_order() {
    let failed = || TransportError::retryable("down");
    let late = || TransportError::permanent("late");
    assert_eq!(follow(Step::Open, Ok(())), Step::Deliver);
    assert_eq!(follow(Step::Deliver, Ok(())), Step::Join(Ok(())));
    assert_eq!(follow(Step::Open, Err(failed())), Step::Poke(failed()));
    assert_eq!(follow(Step::Deliver, Err(failed())), Step::Poke(failed()));
    for poked in [Ok(()), Err(late())] {
        assert_eq!(
            follow(Step::Poke(failed()), poked),
            Step::Join(Err(failed()))
        );
    }
    assert_eq!(follow(Step::Join(Ok(())), Err(late())), Step::Join(Ok(())));
    assert_eq!(
        conclude(Err(failed()), Some(Err(late()))).expect_err("the delivery's own"),
        failed()
    );
}

#[test]
fn a_url_names_a_scheme_an_authority_and_a_path() {
    let target = HttpTarget::parse("http://127.0.0.1:80").expect("HTTP");
    assert_eq!(
        (target.secure, target.authority.as_str(), target.path.as_str()),
        (false, "127.0.0.1:80", "/")
    );
    let target = HttpTarget::parse("https://t.azure.net/api/events").expect("HTTPS");
    assert_eq!(
        (target.secure, target.authority.as_str(), target.path.as_str()),
        (true, "t.azure.net", "/api/events")
    );
    assert_eq!(target.endpoint(), "https://t.azure.net");
    for url in ["", "http:/", "http://", "https:///x", "topic.local", "ftp://x"] {
        assert!(HttpTarget::parse(url).is_err(), "{url}");
    }
    assert_eq!(topic_at("a:1"), "http://a:1/api/events");
}

#[test]
fn an_event_is_its_envelope_and_the_base64_of_its_data() {
    let event = CloudEvent::stream(
        "http://topic.local/api/events",
        &[0, 0xff, b'\n'],
        &mut Ids::new(),
        1_700_000_000,
    );
    let outgoing = Client::new("k")
        .publish("http://topic.local/api/events", &event)
        .expect("a topic");
    assert_eq!(event.id, "6553f100-1");
    assert_eq!(outgoing.request.body.len(), 68 + 29 + 10 + 14 + 4);
    assert_eq!(outgoing.request.body.len(), event.to_json().write().len());
}

#[test]
fn the_brim_fits_an_event_from_the_longest_ordinary_source() {
    let id = fresh_id(u64::MAX, u64::MAX);
    assert_eq!(id.len(), 33);
    let topic = format!("http://{}/api/events", "t".repeat(891));
    assert_eq!(topic.len(), 909);
    let grid = node(&topic, "k");
    let brim = vec![b'x'; ceiling()];
    let event = CloudEvent {
        id,
        source: topic.clone(),
        kind: STREAM_TYPE.to_string(),
        data: brim.clone(),
    };
    let outgoing = grid.client().publish(&topic, &event).expect("a topic");
    assert_eq!(outgoing.request.body.len(), EVENT_CEILING);
    let mut session = grid.session();
    let (event, answer) = session.answer(&outgoing.request);
    assert_eq!(answer.status, 200);
    assert!(matches!(event, Event::Published(event) if event.data == brim));
}
