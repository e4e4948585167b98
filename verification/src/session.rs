//! The far end: enough of Event Grid to take one Location's events and
//! deliver them, and what a test or the playground puts on loopback.
//!
//! Not Event Grid. One session stands as a topic: it checks every publish
//! for one key, reads the `CloudEvent` or the batch, holds what was
//! published in memory and answers 200 as the service does, or the JSON
//! error with its code. Delivering to a webhook is [`Session::deliver`],
//! and opening with the handshake is [`Session::validate`], which a test
//! calls where Event Grid would push on its own.

use std::time::Duration;

use vstd::prelude::*;

use crate::client::{API_VERSION, KEY_HEADER};
use crate::error::{protocol_error, Failure, TransportError};
use crate::event::{CloudEvent, EventModel, EVENT_CEILING};
use crate::json::{Json, Tree};
use crate::message::{Outgoing, OutgoingModel, Request, RequestModel, Response, ResponseModel};
use crate::text::{decimal, ends_with, same};
use crate::webhook;

verus! {

/// The origin the handshake names.
pub const ORIGIN: &'static str = "eventgrid.azure.net";

/// What a report says.
#[verifier::ext_equal]
pub enum Report {
    Published(EventModel),
    Refused(Seq<char>),
}

/// What the client did, as [`Session::answer`] reports it.
#[derive(Debug, PartialEq, Eq)]
pub enum Event {
    /// The client published this event — the first of a batch, where it
    /// was one.
    Published(CloudEvent),
    /// The client was answered with this error code.
    Refused(String),
}

impl View for Event {
    type V = Report;

    open spec fn view(&self) -> Report {
        match self {
            Event::Published(event) => Report::Published(event@),
            Event::Refused(code) => Report::Refused(code@),
        }
    }
}

impl Clone for Event {
    fn clone(&self) -> (event: Self)
        ensures
            event@ == self@,
    {
        match self {
            Event::Published(event) => Event::Published(event.clone()),
            Event::Refused(code) => Event::Refused(code.clone()),
        }
    }
}

/// Why a publish is not taken: the status it is answered with, the code, and
/// what is said of it.
#[verifier::ext_equal]
pub struct Refusal {
    pub status: u16,
    pub code: Seq<char>,
    pub message: Seq<char>,
}

/// The members of an error: its code and what is said of it.
pub open spec fn error_members(code: Seq<char>, message: Seq<char>) -> Seq<(Seq<char>, Tree)> {
    seq![("code"@, Tree::Text(code)), ("message"@, Tree::Text(message))]
}

/// The value an error is answered with.
pub open spec fn error_json(code: Seq<char>, message: Seq<char>) -> Tree {
    Tree::Object(
        crate::json::object_of(
            seq![("error"@, Tree::Object(crate::json::object_of(error_members(code, message))))],
        ),
    )
}

/// The answer to a publish that is not taken.
pub open spec fn refusal(refused: Refusal) -> ResponseModel {
    ResponseModel {
        status: refused.status,
        headers: seq![("Content-Type"@, "application/json"@)],
        body: vstd::utf8::encode_utf8(
            crate::json::json_write(error_json(refused.code, refused.message)),
        ),
    }
}

/// The event that `tree` writes, where its text of `size` bytes is not too
/// large for one.
pub open spec fn weighed(tree: Tree, size: int) -> Result<EventModel, Refusal> {
    if size > EVENT_CEILING {
        Err(
            Refusal {
                status: 413,
                code: "RequestEntityTooLarge"@,
                message: "An event is at most "@ + crate::text::numeral(EVENT_CEILING as nat, 10)
                    + " bytes"@,
            },
        )
    } else {
        match crate::event::event_of(tree) {
            Ok(event) => Ok(event),
            Err(failure) => Err(
                Refusal { status: 400, code: "BadRequest"@, message: failure.message },
            ),
        }
    }
}

/// How many bytes the text of `tree` is.
pub open spec fn size_of(tree: Tree) -> int {
    crate::json::bytes_in(crate::json::json_write(tree))
}

/// The events that `trees` write, or why the first that is not taken is not.
pub open spec fn published_in(trees: Seq<Tree>) -> Result<Seq<EventModel>, Refusal>
    decreases trees.len(),
{
    if trees.len() == 0 {
        Ok(Seq::empty())
    } else {
        match (weighed(trees[0], size_of(trees[0])), published_in(trees.drop_first())) {
            (Err(refused), _) => Err(refused),
            (_, Err(refused)) => Err(refused),
            (Ok(first), Ok(rest)) => Ok(seq![first] + rest),
        }
    }
}

/// The events that a body publishes, one at least, or why it publishes none.
pub open spec fn published_by(body: Tree) -> Result<Seq<EventModel>, Refusal> {
    match published_in(webhook::each_of(body)) {
        Err(refused) => Err(refused),
        Ok(events) => if events.len() == 0 {
            Err(
                Refusal {
                    status: 400,
                    code: "BadRequest"@,
                    message: "A batch with no events"@,
                },
            )
        } else {
            Ok(events)
        },
    }
}

/// Why `request` is not one that publishes to the topic with the key `key`,
/// whatever its body.
pub open spec fn turned_away(key: Seq<char>, request: RequestModel) -> Option<Refusal> {
    if crate::message::header_in(request.headers, KEY_HEADER@) != Some(key) {
        Some(
            Refusal {
                status: 401,
                code: "Unauthorized"@,
                message: "The request authorization key is not valid"@,
            },
        )
    } else if request.method != "POST"@ || !crate::text::ended(request.path, "/api/events"@) {
        Some(Refusal { status: 404, code: "NotFound"@, message: "Not a topic endpoint"@ })
    } else if crate::message::parameter_in(request.query, "api-version"@) != Some(API_VERSION@) {
        Some(
            Refusal {
                status: 400,
                code: "BadRequest"@,
                message: "An api-version this session does not speak"@,
            },
        )
    } else {
        None
    }
}

/// The events that `request` publishes to the topic with the key `key`, or
/// why it publishes none.
pub open spec fn published_of(key: Seq<char>, request: RequestModel) -> Result<
    Seq<EventModel>,
    Refusal,
> {
    match turned_away(key, request) {
        Some(refused) => Err(refused),
        None => match crate::json::json_read(request.body) {
            Ok(body) => published_by(body),
            Err(words) => Err(
                Refusal { status: 400, code: "BadRequest"@, message: "Not JSON: "@ + words },
            ),
        },
    }
}

/// The report and the response that a publish comes to.
pub open spec fn answered(published: Result<Seq<EventModel>, Refusal>) -> (Report, ResponseModel) {
    match published {
        Ok(events) => (Report::Published(events[0]), crate::message::bare(200)),
        Err(refused) => (Report::Refused(refused.code), refusal(refused)),
    }
}

/// What a session holds.
#[verifier::ext_equal]
pub struct SessionModel {
    pub key: Seq<char>,
    pub events: Seq<EventModel>,
    pub timeout: Option<Duration>,
}

pub struct Session {
    key: String,
    events: Vec<CloudEvent>,
    timeout: Option<Duration>,
}

impl View for Session {
    type V = SessionModel;

    closed spec fn view(&self) -> SessionModel {
        SessionModel {
            key: self.key@,
            events: webhook::models(self.events@),
            timeout: self.timeout,
        }
    }
}

/// The answer to a publish that is not taken, and the report of it. A client
/// finds the code in it.
pub fn refused(status: u16, code: &str, message: &str) -> (answer: (Event, Response))
    ensures
        answer.0@ == Report::Refused(code@),
        answer.1@ == refusal(Refusal { status, code: code@, message: message@ }),
        crate::json::json_read(answer.1@.body) == Ok::<Tree, Seq<char>>(
            error_json(code@, message@),
        ),
{
    let ghost named = error_members(code@, message@);
    let mut members: Vec<(String, Json)> = Vec::new();
    members.push(("code".to_owned(), Json::Text(code.to_owned())));
    members.push(("message".to_owned(), Json::Text(message.to_owned())));
    assert(crate::json::named_trees(members@) =~= named);
    let mut error: Vec<(String, Json)> = Vec::new();
    error.push(("error".to_owned(), Json::Object(members)));
    let body = Json::Object(error);
    proof {
        assert(crate::json::named_trees(error@) =~= seq![
            ("error"@, Tree::Object(crate::json::object_of(named))),
        ]);
        lemma_error_plain(code@, message@);
    }
    let text = body.write();
    let response = Response::new(status).header("Content-Type", "application/json").body(
        text.as_str().as_bytes(),
    );
    assert(response@.headers =~= seq![("Content-Type"@, "application/json"@)]);
    (Event::Refused(code.to_owned()), response)
}

/// The names an error is written under differ from each other.
proof fn lemma_error_members(code: Seq<char>, message: Seq<char>)
    ensures
        crate::json::distinct(error_members(code, message)),
{
    reveal_strlit("code");
    reveal_strlit("message");
    let named = error_members(code, message);
    assert(named[0].0.len() != named[1].0.len());
}

/// An error is written so that it is read back.
proof fn lemma_error_plain(code: Seq<char>, message: Seq<char>)
    ensures
        error_json(code, message).plain(127),
{
    let named = error_members(code, message);
    let inner = Tree::Object(crate::json::object_of(named));
    let outer = seq![("error"@, inner)];
    lemma_error_members(code, message);
    crate::json::lemma_texts_plain(named);
    assert(inner.plain(126));
    crate::json::lemma_object_of(outer);
    crate::json::lemma_object_of_names(outer);
    assert(crate::json::distinct(outer));
    let object = crate::json::object_of(outer);
    assert forall|name: Seq<char>| object.contains_key(name) implies (
    #[trigger] object[name]).plain(126) by {
        let at = choose|at: int| 0 <= at < outer.len() && (#[trigger] outer[at]).0 == name;
        assert(object[outer[at].0] == outer[at].1);
    }
}

/// Why a publish is not taken.
#[derive(Debug, PartialEq, Eq)]
pub struct Rejection {
    pub status: u16,
    pub code: String,
    pub message: String,
}

impl View for Rejection {
    type V = Refusal;

    open spec fn view(&self) -> Refusal {
        Refusal { status: self.status, code: self.code@, message: self.message@ }
    }
}

/// An error that is answered names its code where a client looks for it.
pub proof fn law_error_names_its_code(code: Seq<char>, message: Seq<char>)
    ensures
        crate::client::code_in(error_json(code, message)) == code,
{
    let named = error_members(code, message);
    let outer = seq![("error"@, Tree::Object(crate::json::object_of(named)))];
    lemma_error_members(code, message);
    crate::json::lemma_object_of(named);
    crate::json::lemma_object_of(outer);
    assert(crate::json::distinct(outer));
    assert(error_json(code, message).member(outer[0].0) == outer[0].1);
    assert(outer[0].1.member(named[0].0) == named[0].1);
}

/// What the client is told of a publish that is not taken: the status and
/// the code, and not to come back.
pub open spec fn told(refused: Refusal) -> Failure {
    crate::error::lasting(
        ("Event Grid answered "@ + crate::text::numeral(refused.status as nat, 10)).push(' ')
            + refused.code,
    )
}

/// A refusal that names a code, and a status that is neither 2xx nor one to
/// come back for.
pub open spec fn stands(refused: Refusal) -> bool {
    &&& refused.code.len() > 0
    &&& refused.status == 400 || refused.status == 401 || refused.status == 404
        || refused.status == 413
}

proof fn lemma_refused_in_stands(trees: Seq<Tree>)
    ensures
        published_in(trees) matches Err(refused) ==> stands(refused),
    decreases trees.len(),
{
    reveal_strlit("RequestEntityTooLarge");
    reveal_strlit("BadRequest");
    if trees.len() > 0 {
        lemma_refused_in_stands(trees.drop_first());
    }
}

/// Whatever a topic refuses, it refuses with one of four client errors and a
/// code: the same publish is not worth sending again.
pub proof fn law_refusal_is_lasting(key: Seq<char>, request: RequestModel)
    ensures
        published_of(key, request) matches Err(refused) ==> stands(refused),
{
    reveal_strlit("Unauthorized");
    reveal_strlit("NotFound");
    reveal_strlit("BadRequest");
    if let Ok(body) = crate::json::json_read(request.body) {
        lemma_refused_in_stands(webhook::each_of(body));
    }
}

/// A publish that does not present the key is refused as unauthorized,
/// whatever else it says.
pub proof fn law_wrong_key_is_refused(key: Seq<char>, request: RequestModel)
    requires
        crate::message::header_in(request.headers, KEY_HEADER@) != Some(key),
    ensures
        published_of(key, request) == Err::<Seq<EventModel>, Refusal>(
            Refusal {
                status: 401,
                code: "Unauthorized"@,
                message: "The request authorization key is not valid"@,
            },
        ),
{
}

/// A batch is taken whole or not at all: where it is taken, every event of it
/// is, in order, and each alone would have been; where it is not, it is refused
/// as the first of it that alone would not have been.
pub proof fn law_batch_is_taken_whole(trees: Seq<Tree>)
    ensures
        match published_in(trees) {
            Ok(events) => events.len() == trees.len() && forall|at: int|
                0 <= at < trees.len() ==> weighed(#[trigger] trees[at], size_of(trees[at]))
                    == Ok::<EventModel, Refusal>(events[at]),
            Err(refused) => exists|first: int|
                {
                    &&& 0 <= first < trees.len()
                    &&& weighed(#[trigger] trees[first], size_of(trees[first])) == Err::<
                        EventModel,
                        Refusal,
                    >(refused)
                    &&& forall|at: int|
                        0 <= at < first ==> weighed(#[trigger] trees[at], size_of(trees[at])) is Ok
                },
        },
    decreases trees.len(),
{
    if trees.len() > 0 {
        let rest = trees.drop_first();
        law_batch_is_taken_whole(rest);
        match published_in(trees) {
            Ok(events) => {
                let after = published_in(rest)->Ok_0;
                assert forall|at: int| 0 <= at < trees.len() implies weighed(
                    #[trigger] trees[at],
                    size_of(trees[at]),
                ) == Ok::<EventModel, Refusal>(events[at]) by {
                    if at > 0 {
                        assert(rest[at - 1] == trees[at]);
                        assert(after[at - 1] == events[at]);
                    }
                }
            },
            Err(refused) => {
                if weighed(trees[0], size_of(trees[0])) is Ok {
                    let first = choose|first: int|
                        {
                            &&& 0 <= first < rest.len()
                            &&& weighed(#[trigger] rest[first], size_of(rest[first])) == Err::<
                                EventModel,
                                Refusal,
                            >(refused)
                            &&& forall|at: int|
                                0 <= at < first ==> weighed(
                                    #[trigger] rest[at],
                                    size_of(rest[at]),
                                ) is Ok
                        };
                    assert(trees[first + 1] == rest[first]);
                    assert forall|at: int| 0 <= at < first + 1 implies weighed(
                        #[trigger] trees[at],
                        size_of(trees[at]),
                    ) is Ok by {
                        if at > 0 {
                            assert(rest[at - 1] == trees[at]);
                        }
                    }
                } else {
                    assert(weighed(trees[0], size_of(trees[0])) == Err::<EventModel, Refusal>(
                        refused,
                    ));
                }
            },
        }
    }
}

/// What the answer to the handshake comes to: the origin is allowed by its
/// name, or with every other.
pub open spec fn allowed_of(answer: ResponseModel) -> Result<(), Failure> {
    match crate::message::header_in(answer.headers, "webhook-allowed-origin"@) {
        Some(allowed) => if allowed == ORIGIN@ || allowed == "*"@ {
            Ok(())
        } else {
            Err(crate::error::lasting("the webhook did not allow the origin"@))
        },
        None => Err(crate::error::lasting("the webhook did not allow the origin"@)),
    }
}

/// Whether the answer to the handshake allows the origin.
///
/// # Errors
/// Where it does not.
pub fn allowed(answer: &Response) -> (allowed: Result<(), TransportError>)
    ensures
        allowed_of(answer@) == match allowed {
            Ok(nothing) => Ok::<(), Failure>(nothing),
            Err(error) => Err(error@),
        },
{
    let allows = match answer.header_value("webhook-allowed-origin") {
        Some(allowed) => same(allowed, ORIGIN) || same(allowed, "*"),
        None => false,
    };
    if allows {
        Ok(())
    } else {
        Err(protocol_error("the webhook did not allow the origin"))
    }
}

/// What the answer to the pushed handshake comes to: it is taken, and it allows
/// the origin.
pub open spec fn validated_of(answer: ResponseModel) -> Result<(), Failure> {
    match webhook::taken_of(answer) {
        Ok(answer) => allowed_of(answer),
        Err(failure) => Err(failure),
    }
}

/// Whether the answer to the pushed handshake says that it was taken, and
/// allows the origin.
///
/// # Errors
/// Where the webhook did not answer 2xx, which is retryable, or did not allow
/// the origin, which is not.
pub fn validated(answer: Response) -> (allows: Result<(), TransportError>)
    ensures
        validated_of(answer@) == match allows {
            Ok(nothing) => Ok::<(), Failure>(nothing),
            Err(error) => Err(error@),
        },
{
    match webhook::taken(answer) {
        Ok(answer) => allowed(&answer),
        Err(error) => Err(error),
    }
}

/// The webhook answers the handshake so that its answer is taken, and allows
/// the origin.
pub proof fn law_handshake_is_allowed(path: Seq<char>)
    ensures
        webhook::delivery_of(webhook::opening(path, ORIGIN@)) matches Ok((delivery, answer)) && {
            &&& delivery == webhook::DeliveryModel::Handshake(ORIGIN@)
            &&& validated_of(answer) == Ok::<(), Failure>(())
        },
{
    webhook::law_handshake_is_answered(path, ORIGIN@);
}

/// A rejection with this status and code, saying `message`.
fn reject(status: u16, code: &str, message: &str) -> (rejection: Rejection)
    ensures
        rejection@ == (Refusal { status, code: code@, message: message@ }),
{
    Rejection { status, code: code.to_owned(), message: message.to_owned() }
}

/// The event that `value`, whose text is `size` bytes, writes.
///
/// # Errors
/// Where the text is too large for an event, or `value` is not one.
pub fn weigh(value: &Json, size: usize) -> (event: Result<CloudEvent, Rejection>)
    ensures
        weighed(value@, size as int) == match event {
            Ok(event) => Ok::<EventModel, Refusal>(event@),
            Err(rejection) => Err(rejection@),
        },
{
    if size > EVENT_CEILING {
        let mut message = "An event is at most ".to_owned();
        message.append(decimal(EVENT_CEILING as u64).as_str());
        message.append(" bytes");
        return Err(reject(413, "RequestEntityTooLarge", message.as_str()));
    }
    match CloudEvent::from_json(value) {
        Ok(event) => Ok(event),
        Err(failure) => Err(reject(400, "BadRequest", failure.message.as_str())),
    }
}

/// The event that `value` writes.
///
/// # Errors
/// Where its text is too large for an event, or it is not one.
fn weigh_text(value: &Json) -> (event: Result<CloudEvent, Rejection>)
    ensures
        weighed(value@, size_of(value@)) == match event {
            Ok(event) => Ok::<EventModel, Refusal>(event@),
            Err(rejection) => Err(rejection@),
        },
{
    let text = value.write();
    weigh(value, text.as_str().as_bytes().len())
}

/// What comes of the events read so far and of what is left.
spec fn behind(
    read: Seq<EventModel>,
    rest: Result<Seq<EventModel>, Refusal>,
) -> Result<Seq<EventModel>, Refusal> {
    match rest {
        Ok(rest) => Ok(read + rest),
        Err(refused) => Err(refused),
    }
}

/// The events that `values` write.
///
/// # Errors
/// Where one of them is not taken.
fn weigh_all(values: &Vec<Json>) -> (events: Result<Vec<CloudEvent>, Rejection>)
    ensures
        published_in(crate::json::trees(values@)) == match events {
            Ok(events) => Ok::<Seq<EventModel>, Refusal>(webhook::models(events@)),
            Err(rejection) => Err(rejection@),
        },
{
    let ghost whole = crate::json::trees(values@);
    let mut events: Vec<CloudEvent> = Vec::new();
    let mut at: usize = 0;
    proof {
        assert(whole.skip(0) =~= whole);
        assert(webhook::models(events@) =~= Seq::empty());
        if let Ok(all) = published_in(whole) {
            assert(Seq::empty() + all =~= all);
        }
    }
    while at < values.len()
        invariant
            at <= values@.len(),
            whole == crate::json::trees(values@),
            published_in(whole) == behind(
                webhook::models(events@),
                published_in(whole.skip(at as int)),
            ),
        decreases values@.len() - at,
    {
        let ghost before = webhook::models(events@);
        assert(whole.skip(at as int).drop_first() =~= whole.skip(at + 1));
        match weigh_text(&values[at]) {
            Ok(event) => {
                events.push(event);
                proof {
                    assert(webhook::models(events@) =~= before.push(event@));
                    if let Ok(rest) = published_in(whole.skip(at + 1)) {
                        assert(before + (seq![event@] + rest) =~= webhook::models(events@) + rest);
                    }
                }
            },
            Err(rejection) => {
                return Err(rejection);
            },
        }
        at += 1;
    }
    assert(webhook::models(events@) + Seq::empty() =~= webhook::models(events@));
    Ok(events)
}

/// The events that `body` publishes, one at least.
///
/// # Errors
/// Where it, or an item of it, is not taken, or it is an empty batch.
pub fn read_published(body: &Json) -> (events: Result<Vec<CloudEvent>, Rejection>)
    ensures
        published_by(body@) == match events {
            Ok(events) => Ok::<Seq<EventModel>, Refusal>(webhook::models(events@)),
            Err(rejection) => Err(rejection@),
        },
        events matches Ok(events) ==> events@.len() > 0,
{
    if let Json::List(items) = body {
        return match weigh_all(items) {
            Err(rejection) => Err(rejection),
            Ok(events) => if events.len() == 0 {
                Err(reject(400, "BadRequest", "A batch with no events"))
            } else {
                Ok(events)
            },
        };
    }
    proof {
        let one = seq![body@];
        assert(webhook::each_of(body@) == one);
        assert(one.drop_first() =~= Seq::empty());
        reveal_with_fuel(published_in, 2);
    }
    match weigh_text(body) {
        Ok(event) => {
            let mut events: Vec<CloudEvent> = Vec::new();
            events.push(event);
            assert(webhook::models(events@) =~= seq![event@] + Seq::empty());
            Ok(events)
        },
        Err(rejection) => Err(rejection),
    }
}

impl Session {
    /// Answer requests presenting `key`.
    #[must_use]
    pub fn new(key: &str) -> (session: Self)
        ensures
            session@ == (SessionModel { key: key@, events: Seq::empty(), timeout: None }),
    {
        let session = Self { key: key.to_owned(), events: Vec::new(), timeout: None };
        assert(webhook::models(session.events@) =~= Seq::empty());
        session
    }

    /// Give up on a client that stops mid-request after `timeout`.
    #[must_use]
    pub fn timing_out_after(self, timeout: Duration) -> (session: Self)
        ensures
            session@ == (SessionModel { timeout: Some(timeout), ..self@ }),
    {
        let mut session = self;
        session.timeout = Some(timeout);
        session
    }

    /// How long a client may be silent.
    #[must_use]
    pub fn timeout(&self) -> (timeout: Option<Duration>)
        ensures
            timeout == self@.timeout,
    {
        self.timeout
    }

    /// Every event published so far, in order.
    #[must_use]
    pub fn events(&self) -> (events: Vec<CloudEvent>)
        ensures
            webhook::models(events@) == self@.events,
    {
        let events = self.events.clone();
        assert(webhook::models(events@) =~= self@.events);
        events
    }

    /// Why `request` is not one that publishes here, whatever its body.
    fn turn_away(&self, request: &Request) -> (rejection: Option<Rejection>)
        ensures
            turned_away(self@.key, request@) == match rejection {
                Some(rejection) => Some(rejection@),
                None => None,
            },
    {
        let known = match request.header_value(KEY_HEADER) {
            Some(key) => same(key, self.key.as_str()),
            None => false,
        };
        if !known {
            return Some(
                reject(401, "Unauthorized", "The request authorization key is not valid"),
            );
        }
        if !same(request.method.as_str(), "POST") || !ends_with(
            request.path.as_str(),
            "/api/events",
        ) {
            return Some(reject(404, "NotFound", "Not a topic endpoint"));
        }
        let spoken = match request.query_value("api-version") {
            Some(version) => same(version, API_VERSION),
            None => false,
        };
        if !spoken {
            return Some(
                reject(400, "BadRequest", "An api-version this session does not speak"),
            );
        }
        None
    }

    /// The events that `request` publishes here.
    fn read(&self, request: &Request) -> (events: Result<Vec<CloudEvent>, Rejection>)
        ensures
            published_of(self@.key, request@) == match events {
                Ok(events) => Ok::<Seq<EventModel>, Refusal>(webhook::models(events@)),
                Err(rejection) => Err(rejection@),
            },
            events matches Ok(events) ==> events@.len() > 0,
    {
        if let Some(rejection) = self.turn_away(request) {
            return Err(rejection);
        }
        match Json::read(request.body.as_slice()) {
            Ok(body) => read_published(&body),
            Err(words) => {
                let mut message = "Not JSON: ".to_owned();
                message.append(words.as_str());
                Err(reject(400, "BadRequest", message.as_str()))
            },
        }
    }

    /// Answer `request`, and say what it was. What it publishes is held
    /// behind what was published before; where it is refused, nothing is.
    pub fn answer(&mut self, request: &Request) -> (answer: (Event, Response))
        ensures
            (answer.0@, answer.1@) == answered(published_of(old(self)@.key, request@)),
            final(self)@ == (SessionModel {
                events: match published_of(old(self)@.key, request@) {
                    Ok(events) => old(self)@.events + events,
                    Err(_) => old(self)@.events,
                },
                ..old(self)@
            }),
            published_of(old(self)@.key, request@) matches Err(refused) ==> {
                &&& crate::json::json_read(answer.1@.body) == Ok::<Tree, Seq<char>>(
                    error_json(refused.code, refused.message),
                )
                &&& crate::client::judged(
                    answer.1@,
                    crate::client::code_of(answer.1@.body),
                ) == Err::<ResponseModel, Failure>(told(refused))
            },
    {
        proof {
            law_refusal_is_lasting(self@.key, request@);
            if let Err(refused) = published_of(self@.key, request@) {
                law_error_names_its_code(refused.code, refused.message);
            }
        }
        match self.read(request) {
            Ok(events) => {
                let ghost before = self.events@;
                let ghost taken = events@;
                let first = events[0].clone();
                let mut events = events;
                self.events.append(&mut events);
                assert(webhook::models(before + taken) =~= webhook::models(before)
                    + webhook::models(taken));
                (Event::Published(first), Response::new(200))
            },
            Err(rejection) => refused(
                rejection.status,
                rejection.code.as_str(),
                rejection.message.as_str(),
            ),
        }
    }

    /// Open with the handshake at the webhook at `webhook_url`, as Event
    /// Grid does before its first delivery: what is sent where. The answer
    /// is for [`validated`].
    ///
    /// # Errors
    /// Where the URL is not HTTP.
    pub fn validate(&self, webhook_url: &str) -> (outgoing: Result<Outgoing, TransportError>)
        ensures
            webhook::pushed(
                webhook_url@,
                webhook::opening("/"@, ORIGIN@),
                self@.timeout,
            ) == match outgoing {
                Ok(outgoing) => Ok::<OutgoingModel, Failure>(outgoing@),
                Err(error) => Err(error@),
            },
            outgoing matches Ok(outgoing) ==> webhook::delivery_of(outgoing@.request) == Ok::<
                (webhook::DeliveryModel, ResponseModel),
                Failure,
            >((webhook::DeliveryModel::Handshake(ORIGIN@), webhook::welcome(ORIGIN@))),
    {
        proof {
            webhook::law_handshake_is_answered("/"@, ORIGIN@);
            webhook::law_push_keeps_the_delivery(
                webhook_url@,
                webhook::opening("/"@, ORIGIN@),
                self@.timeout,
            );
        }
        webhook::push(webhook_url, webhook::handshake("/", ORIGIN), self.timeout)
    }

    /// Deliver `event` to the webhook at `webhook_url`, as Event Grid does:
    /// what is sent where. The webhook reads that event in it; its answer is
    /// for [`webhook::taken`].
    ///
    /// # Errors
    /// Where the URL is not HTTP.
    pub fn deliver(&self, webhook_url: &str, event: &CloudEvent) -> (outgoing: Result<
        Outgoing,
        TransportError,
    >)
        ensures
            webhook::pushed(
                webhook_url@,
                webhook::notification(
                    "/"@,
                    crate::event::CONTENT_TYPE@,
                    crate::json::json_write(crate::event::event_json(event@)),
                ),
                self@.timeout,
            ) == match outgoing {
                Ok(outgoing) => Ok::<OutgoingModel, Failure>(outgoing@),
                Err(error) => Err(error@),
            },
            outgoing matches Ok(outgoing) ==> webhook::delivery_of(outgoing@.request) == Ok::<
                (webhook::DeliveryModel, ResponseModel),
                Failure,
            >((webhook::DeliveryModel::Events(seq![event@]), crate::message::bare(200))),
    {
        let request = webhook::deliver("/", event);
        proof {
            webhook::law_push_keeps_the_delivery(webhook_url@, request@, self@.timeout);
        }
        webhook::push(webhook_url, request, self.timeout)
    }
}

/// An error is answered as an object of one object, which holds the code and
/// what is said of it, and nothing else.
pub proof fn law_an_error_is_its_code_and_its_message(refused: Refusal)
    ensures
        refusal(refused) == (ResponseModel {
            status: refused.status,
            headers: seq![("Content-Type"@, "application/json"@)],
            body: vstd::utf8::encode_utf8(
                crate::json::json_write(
                    Tree::Object(
                        map![
                            "error"@ => Tree::Object(
                                map![
                                    "code"@ => Tree::Text(refused.code),
                                    "message"@ => Tree::Text(refused.message),
                                ],
                            ),
                        ],
                    ),
                ),
            ),
        }),
        error_json(refused.code, refused.message) == Tree::Object(
            map![
                "error"@ => Tree::Object(
                    map![
                        "code"@ => Tree::Text(refused.code),
                        "message"@ => Tree::Text(refused.message),
                    ],
                ),
            ],
        ),
{
    let named = error_members(refused.code, refused.message);
    let inner = crate::json::object_of(named);
    reveal_with_fuel(crate::json::object_of, 3);
    assert(named.drop_last().drop_last() =~= Seq::empty());
    assert(inner =~= map![
        "code"@ => Tree::Text(refused.code),
        "message"@ => Tree::Text(refused.message),
    ]);
    let outer = seq![("error"@, Tree::Object(inner))];
    assert(outer.drop_last() =~= Seq::empty());
    assert(crate::json::object_of(outer) =~= map!["error"@ => Tree::Object(inner)]);
}

/// A publish that is taken is reported as its first event and answered with
/// nothing but 200; one that is not is reported as its code and answered with
/// its error.
pub proof fn law_an_answer_says_what_became_of_the_publish(
    events: Seq<EventModel>,
    refused: Refusal,
)
    requires
        events.len() > 0,
    ensures
        answered(Ok(events)) == (
            Report::Published(events[0]),
            ResponseModel { status: 200, headers: Seq::empty(), body: Seq::empty() },
        ),
        answered(Err(refused)) == (Report::Refused(refused.code), refusal(refused)),
{
}

/// The words that name the largest event.
proof fn lemma_mebibyte()
    ensures
        "An event is at most "@ + crate::text::numeral(1048576, 10) + " bytes"@
            == "An event is at most 1048576 bytes"@,
{
    reveal_strlit("An event is at most ");
    reveal_strlit(" bytes");
    reveal_strlit("An event is at most 1048576 bytes");
    reveal_with_fuel(crate::text::numeral, 8);
    assert(crate::text::numeral(1048576, 10) =~= seq!['1', '0', '4', '8', '5', '7', '6']);
    assert("An event is at most "@ + crate::text::numeral(1048576, 10) + " bytes"@
        =~= "An event is at most 1048576 bytes"@);
}

/// A value is taken as the event it writes, where its text is at most a
/// mebibyte; a larger one is too large whatever it writes, and another is
/// refused in the words of its reader.
pub proof fn law_a_value_is_weighed_by_its_text(tree: Tree, size: int)
    ensures
        size > 1048576 ==> weighed(tree, size) == Err::<EventModel, Refusal>(
            Refusal {
                status: 413,
                code: "RequestEntityTooLarge"@,
                message: "An event is at most 1048576 bytes"@,
            },
        ),
        size <= 1048576 ==> weighed(tree, size) == match crate::event::event_of(tree) {
            Ok(event) => Ok::<EventModel, Refusal>(event),
            Err(failure) => Err(
                Refusal { status: 400, code: "BadRequest"@, message: failure.message },
            ),
        },
        size_of(tree) == vstd::utf8::encode_utf8(crate::json::json_write(tree)).len(),
{
    lemma_mebibyte();
}

/// `request` presents the key, and publishes to a topic's path in the version
/// that is spoken.
pub open spec fn publishes(key: Seq<char>, request: RequestModel, stem: Seq<char>) -> bool {
    &&& crate::message::header_in(request.headers, "aeg-sas-key"@) == Some(key)
    &&& request.method == "POST"@
    &&& request.path == stem + "/api/events"@
    &&& crate::message::parameter_in(request.query, "api-version"@) == Some("2018-01-01"@)
}

/// A list that is published is held whole: where it is taken, what it adds is
/// one event for each item, in order, each the event that item writes and none
/// too large; where it is not, nothing of it is, and it is refused as its first
/// item that would not be taken alone, or for having none.
pub proof fn law_a_list_is_held_item_by_item(
    key: Seq<char>,
    request: RequestModel,
    stem: Seq<char>,
    items: Seq<Tree>,
)
    ensures
        match published_by(Tree::List(items)) {
            Ok(events) => {
                &&& events.len() == items.len()
                &&& items.len() > 0
                &&& forall|at: int|
                    0 <= at < items.len() ==> crate::event::event_of(#[trigger] items[at]) == Ok::<
                        EventModel,
                        Failure,
                    >(events[at]) && size_of(items[at]) <= 1048576
            },
            Err(refused) => if items.len() == 0 {
                refused == (Refusal {
                    status: 400,
                    code: "BadRequest"@,
                    message: "A batch with no events"@,
                })
            } else {
                exists|first: int|
                    {
                        &&& 0 <= first < items.len()
                        &&& weighed(#[trigger] items[first], size_of(items[first])) == Err::<
                            EventModel,
                            Refusal,
                        >(refused)
                        &&& forall|at: int|
                            0 <= at < first ==> crate::event::event_of(#[trigger] items[at]) is Ok
                                && size_of(items[at]) <= 1048576
                    }
            },
        },
        publishes(key, request, stem) && crate::json::json_read(request.body) == Ok::<
            Tree,
            Seq<char>,
        >(Tree::List(items)) ==> published_of(key, request) == published_by(Tree::List(items)),
{
    law_batch_is_taken_whole(items);
    assert(forall|at: int|
        0 <= at < items.len() ==> (weighed(#[trigger] items[at], size_of(items[at])) is Ok
            ==> crate::event::event_of(items[at]) is Ok && size_of(items[at]) <= 1048576));
    if publishes(key, request, stem) {
        crate::text::law_text_ends_with_its_ending(request.path, stem, "/api/events"@);
    }
}

/// A value that is no list is published alone: it adds the event it writes, or
/// is refused as that value is.
pub proof fn law_a_value_is_held_alone(
    key: Seq<char>,
    request: RequestModel,
    stem: Seq<char>,
    body: Tree,
)
    requires
        !(body is List),
    ensures
        published_by(body) == match weighed(body, size_of(body)) {
            Ok(event) => Ok::<Seq<EventModel>, Refusal>(seq![event]),
            Err(refused) => Err(refused),
        },
        publishes(key, request, stem) && crate::json::json_read(request.body) == Ok::<
            Tree,
            Seq<char>,
        >(body) ==> published_of(key, request) == published_by(body),
{
    let one = seq![body];
    assert(webhook::each_of(body) == one);
    law_batch_is_taken_whole(one);
    assert(one[0] == body);
    if let Ok(events) = published_in(one) {
        assert(events =~= seq![events[0]]);
    }
    if publishes(key, request, stem) {
        crate::text::law_text_ends_with_its_ending(request.path, stem, "/api/events"@);
    }
}

/// A publish is turned away for its key first, then for its method or its path,
/// then for its version, then for a body that is not JSON; nothing else turns it
/// away before its events are looked at.
pub proof fn law_a_publish_is_turned_away_in_order(
    key: Seq<char>,
    request: RequestModel,
    words: Seq<char>,
)
    ensures
        crate::message::header_in(request.headers, "aeg-sas-key"@) != Some(key) ==> published_of(
            key,
            request,
        ) == Err::<Seq<EventModel>, Refusal>(
            Refusal {
                status: 401,
                code: "Unauthorized"@,
                message: "The request authorization key is not valid"@,
            },
        ),
        crate::message::header_in(request.headers, "aeg-sas-key"@) == Some(key) && (request.method
            != "POST"@ || forall|stem: Seq<char>|
            request.path != #[trigger] (stem + "/api/events"@)) ==> published_of(key, request)
            == Err::<Seq<EventModel>, Refusal>(
            Refusal { status: 404, code: "NotFound"@, message: "Not a topic endpoint"@ },
        ),
        crate::message::header_in(request.headers, "aeg-sas-key"@) == Some(key) && request.method
            == "POST"@ && (exists|stem: Seq<char>|
            request.path == #[trigger] (stem + "/api/events"@)) && crate::message::parameter_in(
            request.query,
            "api-version"@,
        ) != Some("2018-01-01"@) ==> published_of(key, request) == Err::<Seq<EventModel>, Refusal>(
            Refusal {
                status: 400,
                code: "BadRequest"@,
                message: "An api-version this session does not speak"@,
            },
        ),
        (exists|stem: Seq<char>| #[trigger] publishes(key, request, stem))
            && crate::json::json_read(request.body) == Err::<Tree, Seq<char>>(words)
            ==> published_of(key, request) == Err::<Seq<EventModel>, Refusal>(
            Refusal { status: 400, code: "BadRequest"@, message: "Not JSON: "@ + words },
        ),
{
    let path = request.path;
    let ending = "/api/events"@;
    if crate::text::ended(path, ending) {
        crate::text::law_text_ends_with_its_ending(path, path, ending);
        assert(path == path.take(path.len() - ending.len()) + ending);
    } else {
        assert forall|stem: Seq<char>| path != #[trigger] (stem + ending) by {
            crate::text::law_text_ends_with_its_ending(path, stem, ending);
        }
    }
}

/// The handshake is allowed where its answer is 2xx and names the origin, or
/// every origin, and is not otherwise: any other status is worth another push,
/// another origin or none is not.
pub proof fn law_the_origin_or_every_origin_is_allowed(answer: ResponseModel)
    ensures
        ({
            let named = crate::message::header_in(answer.headers, "webhook-allowed-origin"@);
            let allows = named == Some("eventgrid.azure.net"@) || named == Some("*"@);
            let refused = Err::<(), Failure>(
                Failure {
                    message: "the webhook did not allow the origin"@,
                    retryable: false,
                },
            );
            &&& allows ==> allowed_of(answer) == Ok::<(), Failure>(())
            &&& !allows ==> allowed_of(answer) == refused
            &&& 200 <= answer.status <= 299 && allows ==> validated_of(answer) == Ok::<
                (),
                Failure,
            >(())
            &&& 200 <= answer.status <= 299 && !allows ==> validated_of(answer) == refused
            &&& !(200 <= answer.status <= 299) ==> validated_of(answer) == Err::<(), Failure>(
                Failure {
                    message: "the webhook answered "@ + crate::text::numeral(
                        answer.status as nat,
                        10,
                    ),
                    retryable: true,
                },
            )
        }),
{
}

/// A session opens with the handshake from Event Grid's own origin, and
/// delivers an event under the schema's content type, each to the endpoint and
/// the path of the webhook's URL.
pub proof fn law_a_session_pushes_to_the_webhook(
    secure: bool,
    authority: Seq<char>,
    path: Seq<char>,
    text: Seq<char>,
    timeout: Option<Duration>,
)
    requires
        authority.len() > 0,
        !authority.contains('/'),
        path.len() > 0,
        path[0] == '/',
    ensures
        webhook::pushed(
            crate::target::scheme(secure) + authority + path,
            webhook::opening("/"@, ORIGIN@),
            timeout,
        ) == Ok::<OutgoingModel, Failure>(
            OutgoingModel {
                endpoint: crate::target::scheme(secure) + authority,
                request: RequestModel {
                    method: "OPTIONS"@,
                    path,
                    query: Seq::empty(),
                    headers: seq![
                        ("WebHook-Request-Origin"@, "eventgrid.azure.net"@),
                        ("WebHook-Request-Callback"@, ""@),
                        ("Host"@, authority),
                    ],
                    body: Seq::empty(),
                },
                timeout,
            },
        ),
        webhook::pushed(
            crate::target::scheme(secure) + authority + path,
            webhook::notification("/"@, crate::event::CONTENT_TYPE@, text),
            timeout,
        ) == Ok::<OutgoingModel, Failure>(
            OutgoingModel {
                endpoint: crate::target::scheme(secure) + authority,
                request: RequestModel {
                    method: "POST"@,
                    path,
                    query: Seq::empty(),
                    headers: seq![
                        ("Content-Type"@, "application/cloudevents+json; charset=utf-8"@),
                        ("aeg-event-type"@, "Notification"@),
                        ("Host"@, authority),
                    ],
                    body: vstd::utf8::encode_utf8(text),
                },
                timeout,
            },
        ),
{
    let opening = webhook::opening("/"@, ORIGIN@);
    let delivery = webhook::notification("/"@, crate::event::CONTENT_TYPE@, text);
    webhook::law_a_push_goes_to_its_url(secure, authority, path, opening, timeout, Seq::empty());
    webhook::law_a_push_goes_to_its_url(secure, authority, path, delivery, timeout, Seq::empty());
    assert(opening.headers + seq![("Host"@, authority)] =~= seq![
        ("WebHook-Request-Origin"@, "eventgrid.azure.net"@),
        ("WebHook-Request-Callback"@, ""@),
        ("Host"@, authority),
    ]);
    assert(delivery.headers + seq![("Host"@, authority)] =~= seq![
        ("Content-Type"@, "application/cloudevents+json; charset=utf-8"@),
        ("aeg-event-type"@, "Notification"@),
        ("Host"@, authority),
    ]);
}

/// What the client is told of a refusal is the status and the code, for good;
/// and a report says what it holds.
pub proof fn law_a_refusal_is_told_by_status_and_code(
    refused: Refusal,
    event: CloudEvent,
    code: String,
)
    ensures
        told(refused).message == "Event Grid answered "@ + crate::text::numeral(
            refused.status as nat,
            10,
        ) + " "@ + refused.code,
        !told(refused).retryable,
        Event::Published(event)@ == Report::Published(event@),
        Event::Refused(code)@ == Report::Refused(code@),
{
    reveal_strlit(" ");
    let status = "Event Grid answered "@ + crate::text::numeral(refused.status as nat, 10);
    assert(status.push(' ') =~= status + " "@);
}

/// A rejection says what it holds.
pub proof fn law_a_rejection_says_what_it_holds(rejection: Rejection)
    ensures
        rejection@.status == rejection.status,
        rejection@.code == rejection.code@,
        rejection@.message == rejection.message@,
{
}

} // verus!
