//! The webhook a subscription delivers to: what Event Grid sends it, read
//! and written.
//!
//! Before it delivers anything, Event Grid proves the webhook is willing:
//! for a `CloudEvents` subscription an `OPTIONS` naming its origin in
//! `WebHook-Request-Origin`, answered by naming that origin back in
//! `WebHook-Allowed-Origin`; for an Event Grid schema subscription a
//! `SubscriptionValidation` event carrying a code, answered by echoing it
//! as `validationResponse`. The webhook answers both. Then each event is
//! one `POST` under the `CloudEvents` content type — or a batch under the
//! batch one — answered 200 once taken. Both halves are here — the
//! webhook reads a delivery, the far end in [`crate::Session`] writes one
//! — so the two cannot drift.

use std::time::Duration;

use vstd::prelude::*;

use crate::error::{protocol_error, Failure, TransportError};
use crate::event::{CloudEvent, EventModel, BATCH_CONTENT_TYPE, CONTENT_TYPE};
use crate::json::{Json, Tree};
use crate::message::{Outgoing, OutgoingModel, Request, RequestModel, Response, ResponseModel};
use crate::target::HttpTarget;
use crate::text::{decimal, same};

verus! {

/// What a delivery says.
#[verifier::ext_equal]
pub enum DeliveryModel {
    Handshake(Seq<char>),
    Validation(Seq<char>),
    Events(Seq<EventModel>),
}

/// What Event Grid delivered.
#[derive(Debug, PartialEq, Eq)]
pub enum Delivery {
    /// The abuse-protection handshake, from this origin — answered.
    Handshake(String),
    /// A subscription validation event with this code — echoed.
    Validation(String),
    /// Events, one or a batch.
    Events(Vec<CloudEvent>),
}

/// What `events` say, in order.
pub open spec fn models(events: Seq<CloudEvent>) -> Seq<EventModel> {
    events.map_values(|event: CloudEvent| event@)
}

impl View for Delivery {
    type V = DeliveryModel;

    open spec fn view(&self) -> DeliveryModel {
        match self {
            Delivery::Handshake(origin) => DeliveryModel::Handshake(origin@),
            Delivery::Validation(code) => DeliveryModel::Validation(code@),
            Delivery::Events(events) => DeliveryModel::Events(models(events@)),
        }
    }
}

impl Clone for Delivery {
    fn clone(&self) -> (delivery: Self)
        ensures
            delivery@ == self@,
    {
        match self {
            Delivery::Handshake(origin) => Delivery::Handshake(origin.clone()),
            Delivery::Validation(code) => Delivery::Validation(code.clone()),
            Delivery::Events(events) => {
                let copies = events.clone();
                assert(models(copies@) =~= models(events@));
                Delivery::Events(copies)
            },
        }
    }
}

/// The answer to the handshake: `origin` is allowed, at any rate.
pub open spec fn welcome(origin: Seq<char>) -> ResponseModel {
    ResponseModel {
        status: 200,
        headers: seq![("WebHook-Allowed-Origin"@, origin), ("WebHook-Allowed-Rate"@, "*"@)],
        body: Seq::empty(),
    }
}

/// The value that echoes a validation code.
pub open spec fn echo_json(code: Seq<char>) -> Tree {
    Tree::Object(crate::json::object_of(seq![("validationResponse"@, Tree::Text(code))]))
}

/// The answer to a validation: the code, echoed.
pub open spec fn echo(code: Seq<char>) -> ResponseModel {
    ResponseModel {
        status: 200,
        headers: seq![("Content-Type"@, "application/json"@)],
        body: vstd::utf8::encode_utf8(crate::json::json_write(echo_json(code))),
    }
}

/// The events that `trees` write, or why the first that is none is not one.
pub open spec fn events_of(trees: Seq<Tree>) -> Result<Seq<EventModel>, Failure>
    decreases trees.len(),
{
    if trees.len() == 0 {
        Ok(Seq::empty())
    } else {
        match (crate::event::event_of(trees[0]), events_of(trees.drop_first())) {
            (Err(failure), _) => Err(failure),
            (_, Err(failure)) => Err(failure),
            (Ok(first), Ok(rest)) => Ok(seq![first] + rest),
        }
    }
}

/// The values a body writes: the items of a list, or the one it is.
pub open spec fn each_of(body: Tree) -> Seq<Tree> {
    match body {
        Tree::List(items) => items,
        one => seq![one],
    }
}

/// The delivery that a request with these headers and this body carries, and
/// the answer it gets.
pub open spec fn delivered(
    headers: Seq<(Seq<char>, Seq<char>)>,
    body: Tree,
) -> Result<(DeliveryModel, ResponseModel), Failure> {
    if crate::message::header_in(headers, "aeg-event-type"@) == Some("SubscriptionValidation"@) {
        match body.item(0).member("data"@).member("validationCode"@).text() {
            Some(code) => Ok((DeliveryModel::Validation(code), echo(code))),
            None => Err(crate::error::lasting("a validation with no validationCode"@)),
        }
    } else {
        match events_of(each_of(body)) {
            Ok(events) => Ok((DeliveryModel::Events(events), crate::message::bare(200))),
            Err(failure) => Err(failure),
        }
    }
}

/// The delivery that `request` carries, and the answer it gets.
pub open spec fn delivery_of(request: RequestModel) -> Result<
    (DeliveryModel, ResponseModel),
    Failure,
> {
    if request.method == "OPTIONS"@ {
        match crate::message::header_in(request.headers, "webhook-request-origin"@) {
            Some(origin) => Ok((DeliveryModel::Handshake(origin), welcome(origin))),
            None => Err(crate::error::lasting("an OPTIONS naming no WebHook-Request-Origin"@)),
        }
    } else {
        match crate::json::json_read(request.body) {
            Ok(body) => delivered(request.headers, body),
            Err(words) => Err(crate::error::lasting("a delivery that is not JSON: "@ + words)),
        }
    }
}

/// The events that `values` write.
///
/// # Errors
/// Where one of them is not a `CloudEvent`.
fn read_events(values: &Vec<Json>) -> (events: Result<Vec<CloudEvent>, TransportError>)
    ensures
        events_of(crate::json::trees(values@)) == match events {
            Ok(events) => Ok::<Seq<EventModel>, Failure>(models(events@)),
            Err(error) => Err(error@),
        },
{
    let ghost whole = crate::json::trees(values@);
    let mut events: Vec<CloudEvent> = Vec::new();
    let mut at: usize = 0;
    proof {
        assert(whole.skip(0) =~= whole);
        assert(models(events@) =~= Seq::empty());
        if let Ok(all) = events_of(whole) {
            assert(Seq::empty() + all =~= all);
        }
    }
    while at < values.len()
        invariant
            at <= values@.len(),
            whole == crate::json::trees(values@),
            events_of(whole) == behind(models(events@), events_of(whole.skip(at as int))),
        decreases values@.len() - at,
    {
        let ghost before = models(events@);
        assert(whole.skip(at as int).drop_first() =~= whole.skip(at + 1));
        match CloudEvent::from_json(&values[at]) {
            Ok(event) => {
                events.push(event);
                proof {
                    assert(models(events@) =~= before.push(event@));
                    if let Ok(rest) = events_of(whole.skip(at + 1)) {
                        assert(before + (seq![event@] + rest) =~= models(events@) + rest);
                    }
                }
            },
            Err(error) => {
                return Err(error);
            },
        }
        at += 1;
    }
    assert(models(events@) + Seq::empty() =~= models(events@));
    Ok(events)
}

/// What comes of the events read so far and of what is left.
spec fn behind(
    read: Seq<EventModel>,
    rest: Result<Seq<EventModel>, Failure>,
) -> Result<Seq<EventModel>, Failure> {
    match rest {
        Ok(rest) => Ok(read + rest),
        Err(failure) => Err(failure),
    }
}

/// The events that `body` writes, one or a batch.
///
/// # Errors
/// Where `body`, or an item of it, is not a `CloudEvent`.
fn read_each(body: &Json) -> (events: Result<Vec<CloudEvent>, TransportError>)
    ensures
        events_of(each_of(body@)) == match events {
            Ok(events) => Ok::<Seq<EventModel>, Failure>(models(events@)),
            Err(error) => Err(error@),
        },
{
    if let Json::List(items) = body {
        return read_events(items);
    }
    proof {
        let one = seq![body@];
        assert(each_of(body@) == one);
        assert(one.drop_first() =~= Seq::empty());
        reveal_with_fuel(events_of, 2);
    }
    match CloudEvent::from_json(body) {
        Ok(event) => {
            let mut events: Vec<CloudEvent> = Vec::new();
            events.push(event);
            assert(models(events@) =~= seq![event@] + Seq::empty());
            Ok(events)
        },
        Err(error) => Err(error),
    }
}

/// The code of a validation: that of the first event in `body`.
fn validation_code(body: &Json) -> (code: Option<&String>)
    ensures
        body@.item(0).member("data"@).member("validationCode"@).text() == match code {
            Some(code) => Some(code@),
            None => None,
        },
{
    match body {
        Json::List(items) => if items.len() > 0 {
            match items[0].member("data") {
                Some(data) => data.member_text("validationCode"),
                None => None,
            }
        } else {
            None
        },
        _ => None,
    }
}

/// The answer that echoes `code`.
fn echoing(code: &str) -> (response: Response)
    ensures
        response@ == echo(code@),
        crate::json::json_read(response@.body) == Ok::<Tree, Seq<char>>(echo_json(code@)),
{
    let ghost named = seq![("validationResponse"@, Tree::Text(code@))];
    let mut members: Vec<(String, Json)> = Vec::new();
    members.push(("validationResponse".to_owned(), Json::Text(code.to_owned())));
    proof {
        assert(crate::json::named_trees(members@) =~= named);
        crate::json::lemma_texts_plain(named);
    }
    let text = Json::Object(members).write();
    let response = Response::new(200).header("Content-Type", "application/json").body(
        text.as_str().as_bytes(),
    );
    assert(response@.headers =~= echo(code@).headers);
    response
}

/// The delivery that `request` carries in the value `body` of its body, and
/// the answer it gets.
///
/// # Errors
/// Where the body is neither events nor a validation: a value that is not a
/// `CloudEvent`, a validation with no code.
pub fn read_delivery(request: &Request, body: &Json) -> (parsed: Result<
    (Delivery, Response),
    TransportError,
>)
    ensures
        delivered(request@.headers, body@) == match parsed {
            Ok(parsed) => Ok::<(DeliveryModel, ResponseModel), Failure>((parsed.0@, parsed.1@)),
            Err(error) => Err(error@),
        },
        parsed matches Ok((Delivery::Validation(code), response)) ==> crate::json::json_read(
            response@.body,
        ) == Ok::<Tree, Seq<char>>(echo_json(code@)),
{
    let validating = match request.header_value("aeg-event-type") {
        Some(kind) => same(kind, "SubscriptionValidation"),
        None => false,
    };
    if validating {
        match validation_code(body) {
            Some(code) => Ok((Delivery::Validation(code.clone()), echoing(code.as_str()))),
            None => Err(protocol_error("a validation with no validationCode")),
        }
    } else {
        match read_each(body) {
            Ok(events) => Ok((Delivery::Events(events), Response::new(200))),
            Err(error) => Err(error),
        }
    }
}

/// The delivery `request` carries, and the answer it gets.
///
/// # Errors
/// Where the request is neither handshake nor event: a body that is not
/// JSON, an object that is not a `CloudEvent`, a validation with no code.
pub fn parse(request: &Request) -> (parsed: Result<(Delivery, Response), TransportError>)
    ensures
        delivery_of(request@) == match parsed {
            Ok(parsed) => Ok::<(DeliveryModel, ResponseModel), Failure>((parsed.0@, parsed.1@)),
            Err(error) => Err(error@),
        },
        parsed matches Ok((Delivery::Validation(code), response)) ==> crate::json::json_read(
            response@.body,
        ) == Ok::<Tree, Seq<char>>(echo_json(code@)),
{
    if same(request.method.as_str(), "OPTIONS") {
        return match request.header_value("webhook-request-origin") {
            Some(origin) => {
                let answer = Response::new(200).header("WebHook-Allowed-Origin", origin).header(
                    "WebHook-Allowed-Rate",
                    "*",
                );
                assert(answer@ =~= welcome(origin@));
                Ok((Delivery::Handshake(origin.to_owned()), answer))
            },
            None => Err(protocol_error("an OPTIONS naming no WebHook-Request-Origin")),
        };
    }
    match Json::read(request.body.as_slice()) {
        Ok(body) => read_delivery(request, &body),
        Err(words) => {
            let mut message = "a delivery that is not JSON: ".to_owned();
            message.append(words.as_str());
            Err(protocol_error(message.as_str()))
        },
    }
}

/// What `request` is answered, and what it was: a request that carries no
/// delivery is answered 400.
pub fn accept_one(request: &Request) -> (taken: (Result<Delivery, TransportError>, Response))
    ensures
        match delivery_of(request@) {
            Ok((delivery, response)) => taken.0 matches Ok(taken) && taken@ == delivery,
            Err(failure) => taken.0 matches Err(error) && error@ == failure,
        },
        taken.1@ == match delivery_of(request@) {
            Ok((delivery, response)) => response,
            Err(failure) => crate::message::bare(400),
        },
{
    match parse(request) {
        Ok((delivery, response)) => (Ok(delivery), response),
        Err(failure) => (Err(failure), Response::new(400)),
    }
}

/// The request that delivers the text `body` to `path` under the content type
/// `content`.
pub open spec fn notification(path: Seq<char>, content: Seq<char>, body: Seq<char>) -> RequestModel {
    RequestModel {
        method: "POST"@,
        path,
        query: Seq::empty(),
        headers: seq![("Content-Type"@, content), ("aeg-event-type"@, "Notification"@)],
        body: vstd::utf8::encode_utf8(body),
    }
}

/// The value that writes `events` as one batch.
pub open spec fn batch_json(events: Seq<EventModel>) -> Tree {
    Tree::List(events.map_values(|event: EventModel| crate::event::event_json(event)))
}

/// A notification whose body is read as `tree` is read as what `tree` writes.
proof fn lemma_notification(path: Seq<char>, content: Seq<char>, body: Seq<char>, tree: Tree)
    requires
        crate::json::reads_as(body, tree),
    ensures
        delivery_of(notification(path, content, body)) == match events_of(each_of(tree)) {
            Ok(events) => Ok::<(DeliveryModel, ResponseModel), Failure>(
                (DeliveryModel::Events(events), crate::message::bare(200)),
            ),
            Err(failure) => Err(failure),
        },
{
    reveal_strlit("POST");
    reveal_strlit("OPTIONS");
    reveal_strlit("Content-Type");
    reveal_strlit("aeg-event-type");
    reveal_strlit("Notification");
    reveal_strlit("SubscriptionValidation");
    assert("POST"@.len() != "OPTIONS"@.len());
    let headers = notification(path, content, body).headers;
    assert(crate::text::folded("Content-Type"@).len() != crate::text::folded(
        "aeg-event-type"@,
    ).len());
    assert(headers.drop_first()[0] == ("aeg-event-type"@, "Notification"@));
    reveal_with_fuel(crate::message::header_in, 2);
    assert(crate::message::header_in(headers, "aeg-event-type"@) == Some("Notification"@));
    assert("Notification"@.len() != "SubscriptionValidation"@.len());
}

/// A delivery is read whole or not at all: where it is read, there is one event
/// for each of its values, in order; where it is not, the failure is that of the
/// first value that is no event.
pub proof fn law_delivery_is_read_whole(trees: Seq<Tree>)
    ensures
        match events_of(trees) {
            Ok(events) => events.len() == trees.len() && forall|at: int|
                0 <= at < trees.len() ==> crate::event::event_of(#[trigger] trees[at]) == Ok::<
                    EventModel,
                    Failure,
                >(events[at]),
            Err(failure) => exists|first: int|
                {
                    &&& 0 <= first < trees.len()
                    &&& crate::event::event_of(#[trigger] trees[first]) == Err::<
                        EventModel,
                        Failure,
                    >(failure)
                    &&& forall|at: int|
                        0 <= at < first ==> crate::event::event_of(#[trigger] trees[at]) is Ok
                },
        },
    decreases trees.len(),
{
    if trees.len() > 0 {
        let rest = trees.drop_first();
        law_delivery_is_read_whole(rest);
        match events_of(trees) {
            Ok(events) => {
                let after = events_of(rest)->Ok_0;
                assert forall|at: int| 0 <= at < trees.len() implies crate::event::event_of(
                    #[trigger] trees[at],
                ) == Ok::<EventModel, Failure>(events[at]) by {
                    if at > 0 {
                        assert(rest[at - 1] == trees[at]);
                        assert(after[at - 1] == events[at]);
                    }
                }
            },
            Err(failure) => {
                if crate::event::event_of(trees[0]) is Ok {
                    let first = choose|first: int|
                        {
                            &&& 0 <= first < rest.len()
                            &&& crate::event::event_of(#[trigger] rest[first]) == Err::<
                                EventModel,
                                Failure,
                            >(failure)
                            &&& forall|at: int|
                                0 <= at < first ==> crate::event::event_of(
                                    #[trigger] rest[at],
                                ) is Ok
                        };
                    assert(trees[first + 1] == rest[first]);
                    assert forall|at: int| 0 <= at < first + 1 implies crate::event::event_of(
                        #[trigger] trees[at],
                    ) is Ok by {
                        if at > 0 {
                            assert(rest[at - 1] == trees[at]);
                        }
                    }
                } else {
                    assert(crate::event::event_of(trees[0]) == Err::<EventModel, Failure>(failure));
                }
            },
        }
    }
}

/// Events written one by one are read back one by one.
pub proof fn law_events_read_back(events: Seq<EventModel>)
    ensures
        events_of(each_of(batch_json(events))) == Ok::<Seq<EventModel>, Failure>(events),
    decreases events.len(),
{
    let trees = each_of(batch_json(events));
    if events.len() == 0 {
        assert(events =~= Seq::empty());
    } else {
        let rest = events.drop_first();
        law_events_read_back(rest);
        crate::event::law_event_reads_back(events[0]);
        assert(trees.drop_first() =~= each_of(batch_json(rest)));
        assert(seq![events[0]] + rest =~= events);
    }
}

/// One event written alone is read back alone.
pub proof fn law_one_event_reads_back(event: EventModel)
    ensures
        events_of(each_of(crate::event::event_json(event))) == Ok::<Seq<EventModel>, Failure>(
            seq![event],
        ),
{
    crate::event::law_event_reads_back(event);
    let one = each_of(crate::event::event_json(event));
    assert(one.drop_first() =~= Seq::empty());
    assert(seq![event] + Seq::empty() =~= seq![event]);
    reveal_with_fuel(events_of, 2);
}

/// The far end's side: the request Event Grid makes to deliver `event` to
/// a webhook at `path`. The webhook reads that event in it.
#[must_use]
pub fn deliver(path: &str, event: &CloudEvent) -> (request: Request)
    ensures
        request@ == notification(
            path@,
            CONTENT_TYPE@,
            crate::json::json_write(crate::event::event_json(event@)),
        ),
        delivery_of(request@) == Ok::<(DeliveryModel, ResponseModel), Failure>(
            (DeliveryModel::Events(seq![event@]), crate::message::bare(200)),
        ),
{
    proof {
        crate::event::lemma_event_plain(event@);
        law_one_event_reads_back(event@);
    }
    let text = event.to_json().write();
    let request = Request::new("POST", path).header("Content-Type", CONTENT_TYPE).header(
        "aeg-event-type",
        "Notification",
    ).body(text.as_str().as_bytes());
    proof {
        assert(request@ =~= notification(path@, CONTENT_TYPE@, text@));
        lemma_notification(path@, CONTENT_TYPE@, text@, crate::event::event_json(event@));
    }
    request
}

/// The far end's side: the request Event Grid makes to deliver `events`
/// as one batch. The webhook reads those events in it, in order.
#[must_use]
pub fn deliver_batch(path: &str, events: &[CloudEvent]) -> (request: Request)
    ensures
        request@ == notification(
            path@,
            BATCH_CONTENT_TYPE@,
            crate::json::json_write(batch_json(models(events@))),
        ),
        delivery_of(request@) == Ok::<(DeliveryModel, ResponseModel), Failure>(
            (DeliveryModel::Events(models(events@)), crate::message::bare(200)),
        ),
{
    let mut values: Vec<Json> = Vec::new();
    let mut at: usize = 0;
    while at < events.len()
        invariant
            at <= events@.len(),
            values@.len() == at,
            forall|i: int|
                0 <= i < at ==> (#[trigger] values@[i])@ == crate::event::event_json(events@[i]@),
        decreases events@.len() - at,
    {
        values.push(events[at].to_json());
        at += 1;
    }
    let ghost tree = batch_json(models(events@));
    let batch = Json::List(values);
    proof {
        assert(crate::json::trees(values@) =~= tree->List_0);
        assert forall|i: int| 0 <= i < tree->List_0.len() implies (
        #[trigger] tree->List_0[i]).plain(126) by {
            crate::event::lemma_event_plain(events@[i]@);
        }
        law_events_read_back(models(events@));
    }
    let text = batch.write();
    let request = Request::new("POST", path).header("Content-Type", BATCH_CONTENT_TYPE).header(
        "aeg-event-type",
        "Notification",
    ).body(text.as_str().as_bytes());
    proof {
        assert(request@ =~= notification(path@, BATCH_CONTENT_TYPE@, text@));
        lemma_notification(path@, BATCH_CONTENT_TYPE@, text@, tree);
    }
    request
}

/// The request that opens with the handshake, from `origin`.
pub open spec fn opening(path: Seq<char>, origin: Seq<char>) -> RequestModel {
    RequestModel {
        method: "OPTIONS"@,
        path,
        query: Seq::empty(),
        headers: seq![("WebHook-Request-Origin"@, origin), ("WebHook-Request-Callback"@, ""@)],
        body: Seq::empty(),
    }
}

/// The far end's side: the handshake Event Grid opens with, from `origin`.
#[must_use]
pub fn handshake(path: &str, origin: &str) -> (request: Request)
    ensures
        request@ == opening(path@, origin@),
{
    let request = Request::new("OPTIONS", path).header("WebHook-Request-Origin", origin).header(
        "WebHook-Request-Callback",
        "",
    );
    assert(request@ =~= opening(path@, origin@));
    request
}

/// The handshake is read as one, whatever its origin, and answered by naming
/// that origin back.
pub proof fn law_handshake_is_answered(path: Seq<char>, origin: Seq<char>)
    ensures
        delivery_of(opening(path, origin)) == Ok::<(DeliveryModel, ResponseModel), Failure>(
            (DeliveryModel::Handshake(origin), welcome(origin)),
        ),
        crate::message::header_in(welcome(origin).headers, "webhook-allowed-origin"@) == Some(
            origin,
        ),
{
    reveal_strlit("WebHook-Request-Origin");
    reveal_strlit("webhook-request-origin");
    reveal_strlit("WebHook-Allowed-Origin");
    reveal_strlit("webhook-allowed-origin");
    assert(crate::text::folded("WebHook-Request-Origin"@) =~= crate::text::folded(
        "webhook-request-origin"@,
    ));
    assert(crate::text::folded("WebHook-Allowed-Origin"@) =~= crate::text::folded(
        "webhook-allowed-origin"@,
    ));
}

/// What is pushed to the webhook at `url`: `request`, at the path the URL
/// names, for the host it names.
pub open spec fn pushed(
    url: Seq<char>,
    request: RequestModel,
    timeout: Option<Duration>,
) -> Result<OutgoingModel, Failure> {
    match crate::target::target_of(url) {
        Err(failure) => Err(failure),
        Ok(target) => Ok(
            OutgoingModel {
                endpoint: crate::target::endpoint_of(target),
                request: RequestModel {
                    path: target.path,
                    headers: request.headers.push(("Host"@, target.authority)),
                    ..request
                },
                timeout,
            },
        ),
    }
}

/// A header put behind the others is not found under another name.
proof fn lemma_header_behind(
    headers: Seq<(Seq<char>, Seq<char>)>,
    header: (Seq<char>, Seq<char>),
    name: Seq<char>,
)
    requires
        crate::text::folded(header.0) != crate::text::folded(name),
    ensures
        crate::message::header_in(headers.push(header), name) == crate::message::header_in(
            headers,
            name,
        ),
    decreases headers.len(),
{
    let more = headers.push(header);
    if headers.len() == 0 {
        assert(more.drop_first() =~= Seq::empty());
        reveal_with_fuel(crate::message::header_in, 2);
    } else {
        lemma_header_behind(headers.drop_first(), header, name);
        assert(more.drop_first() =~= headers.drop_first().push(header));
    }
}

/// A request that is pushed is read as the request itself is: the path and
/// the host it is sent with change nothing of what it delivers.
pub proof fn law_push_keeps_the_delivery(
    url: Seq<char>,
    request: RequestModel,
    timeout: Option<Duration>,
)
    ensures
        pushed(url, request, timeout) matches Ok(outgoing) ==> delivery_of(outgoing.request)
            == delivery_of(request),
{
    reveal_strlit("Host");
    reveal_strlit("aeg-event-type");
    reveal_strlit("webhook-request-origin");
    if let Ok(target) = crate::target::target_of(url) {
        let host = ("Host"@, target.authority);
        assert(crate::text::folded("Host"@).len() == 4);
        assert(crate::text::folded("aeg-event-type"@).len() == 14);
        assert(crate::text::folded("webhook-request-origin"@).len() == 22);
        lemma_header_behind(request.headers, host, "aeg-event-type"@);
        lemma_header_behind(request.headers, host, "webhook-request-origin"@);
    }
}

/// Push `request` to the webhook at `webhook_url`, as Event Grid does: what
/// is sent where. The answer is for [`taken`].
///
/// # Errors
/// Where the URL is not HTTP.
pub fn push(webhook_url: &str, request: Request, timeout: Option<Duration>) -> (outgoing: Result<
    Outgoing,
    TransportError,
>)
    ensures
        pushed(webhook_url@, request@, timeout) == match outgoing {
            Ok(outgoing) => Ok::<OutgoingModel, Failure>(outgoing@),
            Err(error) => Err(error@),
        },
{
    match HttpTarget::parse(webhook_url) {
        Err(error) => Err(error),
        Ok(target) => {
            let endpoint = target.endpoint();
            let mut request = request;
            let authority = target.authority;
            request.path = target.path;
            let request = request.header("Host", authority.as_str());
            Ok(Outgoing { endpoint, request, timeout })
        },
    }
}

/// What a pushed request's answer comes to: 2xx is taken, anything else is
/// pushed again.
pub open spec fn taken_of(response: ResponseModel) -> Result<ResponseModel, Failure> {
    if 200 <= response.status < 300 {
        Ok(response)
    } else {
        Err(
            crate::error::passing(
                "the webhook answered "@ + crate::text::numeral(response.status as nat, 10),
            ),
        )
    }
}

/// The answer to a pushed request, where it says that the request was taken.
///
/// # Errors
/// Where the webhook did not answer 2xx — Event Grid retries that, so it is
/// retryable.
pub fn taken(response: Response) -> (answer: Result<Response, TransportError>)
    ensures
        taken_of(response@) == match answer {
            Ok(answer) => Ok::<ResponseModel, Failure>(answer@),
            Err(error) => Err(error@),
        },
{
    if 200 <= response.status && response.status < 300 {
        Ok(response)
    } else {
        let mut message = "the webhook answered ".to_owned();
        message.append(decimal(response.status as u64).as_str());
        Err(TransportError::retryable(message.as_str()))
    }
}

/// An `OPTIONS` is the handshake, whatever its body: the origin it names is
/// handed on and named back, at any rate, and one that names none is refused.
pub proof fn law_options_is_the_handshake(request: RequestModel, origin: Seq<char>)
    requires
        request.method == "OPTIONS"@,
    ensures
        crate::message::header_in(request.headers, "webhook-request-origin"@) == Some(origin)
            ==> delivery_of(request) == Ok::<(DeliveryModel, ResponseModel), Failure>(
            (
                DeliveryModel::Handshake(origin),
                ResponseModel {
                    status: 200,
                    headers: seq![
                        ("WebHook-Allowed-Origin"@, origin),
                        ("WebHook-Allowed-Rate"@, "*"@),
                    ],
                    body: Seq::empty(),
                },
            ),
        ),
        crate::message::header_in(request.headers, "webhook-request-origin"@) is None
            ==> delivery_of(request) == Err::<(DeliveryModel, ResponseModel), Failure>(
            Failure {
                message: "an OPTIONS naming no WebHook-Request-Origin"@,
                retryable: false,
            },
        ),
{
}

/// A body that is not JSON is no delivery, and the reader's words say why.
pub proof fn law_a_delivery_is_json(request: RequestModel, words: Seq<char>)
    requires
        request.method != "OPTIONS"@,
        crate::json::json_read(request.body) == Err::<Tree, Seq<char>>(words),
    ensures
        delivery_of(request) == Err::<(DeliveryModel, ResponseModel), Failure>(
            Failure { message: "a delivery that is not JSON: "@ + words, retryable: false },
        ),
{
}

/// `body` is a list whose first item holds, under `data`, the text `code` under
/// `validationCode`, whatever stands beside it.
pub open spec fn asks_to_echo(body: Tree, code: Seq<char>) -> bool {
    body matches Tree::List(items) && items.len() > 0 && (items[0] matches Tree::Object(held)
        && held.contains_key("data"@) && crate::json::says(
        held["data"@],
        "validationCode"@,
        code,
    ))
}

proof fn lemma_asks_to_echo(body: Tree, code: Seq<char>)
    ensures
        asks_to_echo(body, code) <==> body.item(0).member("data"@).member("validationCode"@).text()
            == Some(code),
{
}

/// The value that echoes a code is an object of that one text.
proof fn lemma_echo_json(code: Seq<char>)
    ensures
        echo_json(code) == Tree::Object(map!["validationResponse"@ => Tree::Text(code)]),
{
    let members = seq![("validationResponse"@, Tree::Text(code))];
    reveal_with_fuel(crate::json::object_of, 2);
    assert(members.drop_last() =~= Seq::empty());
    assert(crate::json::object_of(members) =~= map!["validationResponse"@ => Tree::Text(code)]);
}

/// A subscription validation is its code, and is answered with that very code,
/// whatever else stands in it; one with no code is refused.
pub proof fn law_a_validation_is_answered_with_its_code(
    request: RequestModel,
    body: Tree,
    code: Seq<char>,
)
    requires
        crate::message::header_in(request.headers, "aeg-event-type"@) == Some(
            "SubscriptionValidation"@,
        ),
    ensures
        asks_to_echo(body, code) ==> delivered(request.headers, body) == Ok::<
            (DeliveryModel, ResponseModel),
            Failure,
        >(
            (
                DeliveryModel::Validation(code),
                ResponseModel {
                    status: 200,
                    headers: seq![("Content-Type"@, "application/json"@)],
                    body: vstd::utf8::encode_utf8(
                        crate::json::json_write(
                            Tree::Object(map!["validationResponse"@ => Tree::Text(code)]),
                        ),
                    ),
                },
            ),
        ),
        (forall|any: Seq<char>| !#[trigger] asks_to_echo(body, any)) ==> delivered(
            request.headers,
            body,
        ) == Err::<(DeliveryModel, ResponseModel), Failure>(
            Failure { message: "a validation with no validationCode"@, retryable: false },
        ),
        request.method != "OPTIONS"@ && crate::json::json_read(request.body) == Ok::<
            Tree,
            Seq<char>,
        >(body) ==> delivery_of(request) == delivered(request.headers, body),
        echo_json(code) == Tree::Object(map!["validationResponse"@ => Tree::Text(code)]),
{
    lemma_echo_json(code);
    lemma_asks_to_echo(body, code);
    if forall|any: Seq<char>| !#[trigger] asks_to_echo(body, any) {
        if let Some(found) = body.item(0).member("data"@).member("validationCode"@).text() {
            lemma_asks_to_echo(body, found);
        }
    }
}

/// A list that is no validation is a delivery of one event for each item, in
/// order, answered with nothing but 200, or is refused as the first item that is
/// no event; the reader of one event says which is.
pub proof fn law_a_list_is_delivered_item_by_item(request: RequestModel, items: Seq<Tree>)
    requires
        crate::message::header_in(request.headers, "aeg-event-type"@) != Some(
            "SubscriptionValidation"@,
        ),
    ensures
        match delivered(request.headers, Tree::List(items)) {
            Ok((delivery, answer)) => {
                &&& answer.status == 200
                &&& answer.headers.len() == 0
                &&& answer.body.len() == 0
                &&& delivery matches DeliveryModel::Events(events) && events.len() == items.len()
                    && forall|at: int|
                    0 <= at < items.len() ==> crate::event::event_of(#[trigger] items[at]) == Ok::<
                        EventModel,
                        Failure,
                    >(events[at])
            },
            Err(failure) => exists|first: int|
                {
                    &&& 0 <= first < items.len()
                    &&& crate::event::event_of(#[trigger] items[first]) == Err::<
                        EventModel,
                        Failure,
                    >(failure)
                    &&& forall|at: int|
                        0 <= at < first ==> crate::event::event_of(#[trigger] items[at]) is Ok
                },
        },
        request.method != "OPTIONS"@ && crate::json::json_read(request.body) == Ok::<
            Tree,
            Seq<char>,
        >(Tree::List(items)) ==> delivery_of(request) == delivered(
            request.headers,
            Tree::List(items),
        ),
{
    law_delivery_is_read_whole(items);
}

/// A value that is no list and no validation is a delivery of the one event it
/// writes, answered with nothing but 200, or is refused as that event is.
pub proof fn law_a_value_alone_is_one_event(request: RequestModel, body: Tree)
    requires
        !(body is List),
        crate::message::header_in(request.headers, "aeg-event-type"@) != Some(
            "SubscriptionValidation"@,
        ),
    ensures
        delivered(request.headers, body) == match crate::event::event_of(body) {
            Ok(event) => Ok::<(DeliveryModel, ResponseModel), Failure>(
                (
                    DeliveryModel::Events(seq![event]),
                    ResponseModel { status: 200, headers: Seq::empty(), body: Seq::empty() },
                ),
            ),
            Err(failure) => Err(failure),
        },
        request.method != "OPTIONS"@ && crate::json::json_read(request.body) == Ok::<
            Tree,
            Seq<char>,
        >(body) ==> delivery_of(request) == delivered(request.headers, body),
{
    let one = seq![body];
    assert(each_of(body) == one);
    law_delivery_is_read_whole(one);
    assert(one[0] == body);
    if let Ok(events) = events_of(one) {
        assert(events =~= seq![events[0]]);
    }
}

/// What the far end sends is exactly this: a `POST` under the schema's content
/// type for one event, under the batch's for several, and an `OPTIONS` that
/// names its origin to open with.
pub proof fn law_what_the_far_end_sends(
    path: Seq<char>,
    event: EventModel,
    events: Seq<EventModel>,
    origin: Seq<char>,
    text: Seq<char>,
)
    ensures
        notification(path, CONTENT_TYPE@, text) == (RequestModel {
            method: "POST"@,
            path,
            query: Seq::empty(),
            headers: seq![
                ("Content-Type"@, "application/cloudevents+json; charset=utf-8"@),
                ("aeg-event-type"@, "Notification"@),
            ],
            body: vstd::utf8::encode_utf8(text),
        }),
        notification(path, BATCH_CONTENT_TYPE@, text) == (RequestModel {
            method: "POST"@,
            path,
            query: Seq::empty(),
            headers: seq![
                ("Content-Type"@, "application/cloudevents-batch+json; charset=utf-8"@),
                ("aeg-event-type"@, "Notification"@),
            ],
            body: vstd::utf8::encode_utf8(text),
        }),
        batch_json(events) matches Tree::List(items) && items.len() == events.len() && forall|
            at: int,
        |
            0 <= at < events.len() ==> #[trigger] items[at] == crate::event::event_json(events[at]),
        opening(path, origin) == (RequestModel {
            method: "OPTIONS"@,
            path,
            query: Seq::empty(),
            headers: seq![
                ("WebHook-Request-Origin"@, origin),
                ("WebHook-Request-Callback"@, ""@),
            ],
            body: Seq::empty(),
        }),
{
}

/// A request is pushed to the endpoint of the webhook's URL, at the path of the
/// URL and not its own, for the host of the URL behind its own headers, with all
/// else that it says; and not at all where the URL is not HTTP.
pub proof fn law_a_push_goes_to_its_url(
    secure: bool,
    authority: Seq<char>,
    path: Seq<char>,
    request: RequestModel,
    timeout: Option<Duration>,
    other: Seq<char>,
)
    requires
        authority.len() > 0,
        !authority.contains('/'),
        path.len() > 0 ==> path[0] == '/',
    ensures
        pushed(crate::target::scheme(secure) + authority + path, request, timeout) == Ok::<
            OutgoingModel,
            Failure,
        >(
            OutgoingModel {
                endpoint: crate::target::scheme(secure) + authority,
                request: RequestModel {
                    method: request.method,
                    path: if path.len() == 0 {
                        "/"@
                    } else {
                        path
                    },
                    query: request.query,
                    headers: request.headers + seq![("Host"@, authority)],
                    body: request.body,
                },
                timeout,
            },
        ),
        crate::target::target_of(other) is Err ==> pushed(other, request, timeout) == Err::<
            OutgoingModel,
            Failure,
        >(Failure { message: "not an HTTP URL: "@ + other, retryable: false }),
{
    crate::target::law_url_names_its_parts(secure, authority, path);
    crate::target::law_only_such_a_url_names_something(other);
    assert(request.headers + seq![("Host"@, authority)] =~= request.headers.push(
        ("Host"@, authority),
    ));
}

/// A push is taken exactly where the answer is 2xx, and then its answer is
/// handed back whole; any other status is named, and worth another push.
pub proof fn law_only_2xx_takes_a_push(answer: ResponseModel)
    ensures
        200 <= answer.status <= 299 ==> taken_of(answer) == Ok::<ResponseModel, Failure>(answer),
        !(200 <= answer.status <= 299) ==> taken_of(answer) == Err::<ResponseModel, Failure>(
            Failure {
                message: "the webhook answered "@ + crate::text::numeral(answer.status as nat, 10),
                retryable: true,
            },
        ),
{
}

/// A delivery says what it holds, each event in its place.
pub proof fn law_a_delivery_says_what_it_holds(text: String, events: Vec<CloudEvent>)
    ensures
        Delivery::Handshake(text)@ == DeliveryModel::Handshake(text@),
        Delivery::Validation(text)@ == DeliveryModel::Validation(text@),
        Delivery::Events(events)@ matches DeliveryModel::Events(said) && said.len()
            == events@.len() && forall|at: int|
            0 <= at < events@.len() ==> #[trigger] said[at] == events@[at]@,
        models(events@).len() == events@.len(),
        forall|at: int|
            0 <= at < events@.len() ==> #[trigger] models(events@)[at] == events@[at]@,
{
}

} // verus!
