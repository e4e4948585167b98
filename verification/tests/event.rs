use event_grid::base64;
use event_grid::event::{fresh_id, STREAM_TYPE};
use event_grid::json::Json;
use event_grid::{CloudEvent, Ids};

fn json(text: &str) -> Json {
    Json::read(text.as_bytes()).expect("JSON")
}

#[test]
fn an_event_is_written_as_the_schema_wants_it_and_reads_back_whole() {
    let mut ids = Ids::new();
    let event = CloudEvent::stream(
        "http://topic.local/api/events",
        &[0, 0xff, b'\n'],
        &mut ids,
        1_700_000_000,
    );
    let written = event.to_json();
    assert_eq!(written.member_text("specversion").expect("text"), "1.0");
    assert_eq!(written.member_text("type").expect("text"), STREAM_TYPE);
    assert_eq!(written.member_text("data_base64").expect("text"), "AP8K");
    assert_eq!(CloudEvent::from_json(&written).expect("read"), event);
    assert_eq!(
        event.origin(),
        format!("http://topic.local/api/events#{}", event.id)
    );
    let other = CloudEvent::stream("s", b"", &mut ids, 1_700_000_000);
    assert_ne!(other.id, event.id, "fresh ids");
}

#[test]
fn another_publishers_data_is_read_and_what_is_not_an_event_is_refused() {
    let text = json(r#"{"specversion": "1.0", "type": "t", "source": "s", "id": "1", "data": "hi"}"#);
    assert_eq!(CloudEvent::from_json(&text).expect("read").data, b"hi");
    let object = json(
        r#"{"specversion": "1.0", "type": "t", "source": "s", "id": "1", "data": {"a": 1}}"#,
    );
    assert_eq!(
        CloudEvent::from_json(&object).expect("read").data,
        br#"{"a":1}"#
    );
    let bare = json(r#"{"specversion": "1.0", "type": "t", "source": "s", "id": "1"}"#);
    assert!(CloudEvent::from_json(&bare).expect("read").data.is_empty());
    let old = json(r#"{"specversion": "0.3", "type": "t", "source": "s", "id": "1"}"#);
    assert!(CloudEvent::from_json(&old).is_err());
    let nameless = json(r#"{"specversion": "1.0", "type": "t", "source": "s"}"#);
    assert!(CloudEvent::from_json(&nameless)
        .expect_err("no id")
        .message
        .contains("no id"));
    let broken = json(
        r#"{"specversion": "1.0", "type": "t", "source": "s", "id": "1", "data_base64": "not base64!"}"#,
    );
    assert!(CloudEvent::from_json(&broken).is_err());
}

#[test]
fn every_reason_an_event_is_refused_for_is_said() {
    let reasons = [
        ("7", "an event that is not CloudEvents 1.0"),
        (r#"{"specversion":1.0}"#, "an event that is not CloudEvents 1.0"),
        (r#"{"specversion":"1.0"}"#, "an event with no id"),
        (r#"{"specversion":"1.0","id":7}"#, "an event with no id"),
        (r#"{"specversion":"1.0","id":"1"}"#, "an event with no source"),
        (
            r#"{"specversion":"1.0","id":"1","source":"s"}"#,
            "an event with no type",
        ),
        (
            r#"{"specversion":"1.0","data_base64":"AAA"}"#,
            "data_base64 that is not base64: a length that is not a multiple of four",
        ),
        (
            r#"{"specversion":"1.0","data_base64":"A?AA"}"#,
            "data_base64 that is not base64: characters that no bytes are written with",
        ),
        (
            r#"{"specversion":"1.0","data_base64":5}"#,
            "data_base64 that is not base64: a value that is not text",
        ),
    ];
    for (text, reason) in reasons {
        let failure = CloudEvent::from_json(&json(text)).expect_err(text);
        assert_eq!(failure.message, reason);
        assert!(!failure.retryable);
    }
}

#[test]
fn data_base64_is_read_before_data_and_is_base64_or_not_there() {
    let both = json(
        r#"{"specversion":"1.0","type":"t","source":"s","id":"1","data_base64":"AP8K","data":"hi"}"#,
    );
    assert_eq!(
        CloudEvent::from_json(&both).expect("read").data,
        [0, 0xff, b'\n']
    );
    for odd in ["7", "true", "false", "0.5", "[]", "{}", r#"["AP8K"]"#] {
        for data in ["", r#","data":"hi""#] {
            let text = format!(
                r#"{{"specversion":"1.0","type":"t","source":"s","id":"1","data_base64":{odd}{data}}}"#
            );
            let failure = CloudEvent::from_json(&json(&text)).expect_err(odd);
            assert_eq!(
                failure.message,
                "data_base64 that is not base64: a value that is not text"
            );
            assert!(!failure.retryable);
        }
    }
    let neither = json(
        r#"{"specversion":"1.0","type":"t","source":"s","id":"1","data_base64":null,"data":"hi"}"#,
    );
    assert_eq!(CloudEvent::from_json(&neither).expect("read").data, b"hi");
    let null = json(r#"{"specversion":"1.0","type":"t","source":"s","id":"1","data":null}"#);
    assert!(CloudEvent::from_json(&null).expect("read").data.is_empty());
    let number = json(r#"{"specversion":"1.0","type":"t","source":"s","id":"1","data":0.5}"#);
    assert_eq!(CloudEvent::from_json(&number).expect("read").data, b"0.5");
    let list = json(
        r#"{"specversion":"1.0","type":"t","source":"s","id":"1","data":[ true, null, "å" ]}"#,
    );
    assert_eq!(
        CloudEvent::from_json(&list).expect("read").data,
        "[true,null,\"å\"]".as_bytes()
    );
}

#[test]
fn an_event_around_given_data_takes_its_fields_from_the_value() {
    let value = json(r#"{"type":"t","source":"s","id":"1","data":"ignored"}"#);
    let event = CloudEvent::around(&value, vec![1, 2]).expect("read");
    assert_eq!(
        event,
        CloudEvent {
            id: "1".to_string(),
            source: "s".to_string(),
            kind: "t".to_string(),
            data: vec![1, 2],
        }
    );
}

#[test]
fn an_id_is_the_moment_and_the_count_in_hexadecimal() {
    assert_eq!(fresh_id(0, 1), "0-1");
    assert_eq!(fresh_id(0x65f1_a2b3, 0x1f), "65f1a2b3-1f");
    assert_eq!(fresh_id(u64::MAX, 16), "ffffffffffffffff-10");
    assert_ne!(fresh_id(1, 0x11), fresh_id(0x11, 1));
}

#[test]
fn no_id_is_given_twice_whatever_the_moment() {
    let mut ids = Ids::new();
    assert_eq!(ids.fresh(0x65f1_a2b3), "65f1a2b3-1");
    assert_eq!(ids.fresh(0x65f1_a2b3), "65f1a2b3-2");
    assert_eq!(ids.fresh(0), "0-3");
    let mut given: Vec<String> = (0..1000).map(|call| ids.fresh(call % 7)).collect();
    assert_eq!(given[12], "5-10");
    given.sort();
    given.dedup();
    assert_eq!(given.len(), 1000);
}

#[test]
fn equal_streams_are_events_of_different_ids() {
    let mut ids = Ids::new();
    let one = CloudEvent::stream("s", b"a", &mut ids, 7);
    let other = CloudEvent::stream("s", b"a", &mut ids, 7);
    assert_eq!((one.id.as_str(), other.id.as_str()), ("7-1", "7-2"));
    assert_eq!((one.source.as_str(), one.kind.as_str()), ("s", STREAM_TYPE));
    assert_eq!(one.data, other.data);
}

#[test]
fn an_event_is_written_as_compact_json_in_the_order_of_the_names() {
    let event = CloudEvent {
        id: "1".to_string(),
        source: "s".to_string(),
        kind: "a\"b".to_string(),
        data: b"a".to_vec(),
    };
    assert_eq!(
        event.to_json().write(),
        r#"{"data_base64":"YQ==","id":"1","source":"s","specversion":"1.0","type":"a\"b"}"#
    );
}

#[test]
fn base64_is_four_characters_for_three_bytes() {
    let known: [(&[u8], &str); 8] = [
        (b"", ""),
        (b"f", "Zg=="),
        (b"fo", "Zm8="),
        (b"foo", "Zm9v"),
        (b"foob", "Zm9vYg=="),
        (b"fooba", "Zm9vYmE="),
        (b"foobar", "Zm9vYmFy"),
        (&[0xfb, 0xff, 0xbf], "+/+/"),
    ];
    for (data, text) in known {
        assert_eq!(base64::encode(data), text);
        assert_eq!(base64::decode(text).expect(text), data);
    }
}

#[test]
fn every_byte_comes_back_from_base64() {
    let mut data: Vec<u8> = (0..=255).collect();
    for _ in 0..3 {
        let text = base64::encode(&data);
        assert_eq!(text.len(), (data.len() + 2) / 3 * 4);
        assert_eq!(base64::decode(&text).expect("decoded"), data);
        data.pop();
    }
}

#[test]
fn what_no_bytes_are_written_as_is_not_base64() {
    for text in ["A", "AB", "ABC", "ABCDE", "AA=", "å=="] {
        assert_eq!(base64::decode(text), Err(base64::Malformed::Length), "{text}");
    }
    for text in [
        "====", "A===", "AB==", "AAB=", "AA=A", "AA==AAAA", "AA A", "AA-_", "ååå=", "AAA\n",
    ] {
        assert_eq!(base64::decode(text), Err(base64::Malformed::Symbol), "{text}");
    }
}

#[test]
fn json_is_read_looked_into_and_written() {
    let value = json(r#" { "b" : [1, -2, 2.5, "x\u0000\n"], "a": {"c": false}, "a": {"c": null} } "#);
    assert_eq!(
        value.write(),
        r#"{"a":{"c":null},"b":[1,-2,2.5,"x\u0000\n"]}"#
    );
    assert!(matches!(
        value.member("a").expect("a").member("c"),
        Some(Json::Null)
    ));
    assert!(value.member("c").is_none());
    assert!(value.member("b").expect("b").member("a").is_none());
    assert!(value.member_text("a").is_none());
    let twice = Json::Object(vec![
        ("k".to_string(), Json::Text("old".to_string())),
        ("k".to_string(), Json::Text("new".to_string())),
    ]);
    assert_eq!(twice.member_text("k").expect("text"), "new");
    assert_eq!(twice.write(), r#"{"k":"new"}"#);
    assert_eq!(
        Json::read(b"not json").expect_err("not JSON"),
        "expected ident at line 1 column 2"
    );
    assert!(Json::read(b"").is_err());
    assert!(Json::read(b"[1] 2").is_err());
}
