//! Xmip's side: the one call a Send Location makes, a request carrying
//! the topic key over one connection to the topic endpoint.
//!
//! A topic endpoint is a whole URL — `https://<topic>.<region>-1.
//! eventgrid.azure.net/api/events` in the cloud, `http://127.0.0.1:port/
//! api/events` for a stand-in — and publishing is one `POST` to it with
//! `aeg-sas-key` naming the key and one `CloudEvent` as the body. The
//! service answers 200 with nothing, or a JSON error naming its code.

use std::time::Duration;

use vstd::prelude::*;

use crate::error::{Failure, TransportError};
use crate::event::{CloudEvent, EventModel, CONTENT_TYPE, EVENT_CEILING};
use crate::json::{Json, Tree};
use crate::message::{Outgoing, OutgoingModel, Request, RequestModel, Response, ResponseModel};
use crate::session;
use crate::target::{HttpTarget, TargetModel};
use crate::text::decimal;

verus! {

/// The header the topic key travels in.
pub const KEY_HEADER: &'static str = "aeg-sas-key";

/// The API version every publish names.
pub const API_VERSION: &'static str = "2018-01-01";

/// The request that publishes the text `body` to the topic at `target`.
pub open spec fn publication(key: Seq<char>, target: TargetModel, body: Seq<char>) -> RequestModel {
    RequestModel {
        method: "POST"@,
        path: target.path,
        query: seq![("api-version"@, API_VERSION@)],
        headers: seq![
            ("Host"@, target.authority),
            (KEY_HEADER@, key),
            ("Content-Type"@, CONTENT_TYPE@),
        ],
        body: vstd::utf8::encode_utf8(body),
    }
}

/// What a client sends to publish `event` to the topic at `url`.
pub open spec fn publishing(client: ClientModel, url: Seq<char>, event: EventModel) -> Result<
    OutgoingModel,
    Failure,
> {
    match crate::target::target_of(url) {
        Err(failure) => Err(failure),
        Ok(target) => Ok(
            OutgoingModel {
                endpoint: crate::target::endpoint_of(target),
                request: publication(
                    client.key,
                    target,
                    crate::json::json_write(crate::event::event_json(event)),
                ),
                timeout: client.timeout,
            },
        ),
    }
}

/// What a client holds.
#[verifier::ext_equal]
pub struct ClientModel {
    pub key: Seq<char>,
    pub timeout: Option<Duration>,
}

pub struct Client {
    key: String,
    timeout: Option<Duration>,
}

impl View for Client {
    type V = ClientModel;

    closed spec fn view(&self) -> ClientModel {
        ClientModel { key: self.key@, timeout: self.timeout }
    }
}

/// A publication whose body is read as `event` is taken by the topic with its
/// key, where the path is a topic's and the text is not too large.
proof fn lemma_publication(key: Seq<char>, target: TargetModel, event: EventModel)
    requires
        crate::json::reads_as(
            crate::json::json_write(crate::event::event_json(event)),
            crate::event::event_json(event),
        ),
        crate::text::ended(target.path, "/api/events"@),
        session::size_of(crate::event::event_json(event)) <= EVENT_CEILING,
    ensures
        session::published_of(
            key,
            publication(
                key,
                target,
                crate::json::json_write(crate::event::event_json(event)),
            ),
        ) == Ok::<Seq<EventModel>, session::Refusal>(seq![event]),
{
    let tree = crate::event::event_json(event);
    let request = publication(key, target, crate::json::json_write(tree));
    reveal_strlit("Host");
    reveal_strlit("aeg-sas-key");
    assert(crate::text::folded("Host"@).len() != crate::text::folded(KEY_HEADER@).len());
    assert(request.headers.drop_first()[0] == (KEY_HEADER@, key));
    reveal_with_fuel(crate::message::header_in, 2);
    assert(crate::message::header_in(request.headers, KEY_HEADER@) == Some(key));
    assert(session::turned_away(key, request) is None);
    crate::event::law_event_reads_back(event);
    let one = crate::webhook::each_of(tree);
    assert(one.drop_first() =~= Seq::empty());
    assert(seq![event] + Seq::empty() =~= seq![event]);
    reveal_with_fuel(session::published_in, 2);
}

impl Client {
    /// Publish with `key`, one of the topic's two access keys.
    #[must_use]
    pub fn new(key: &str) -> (client: Self)
        ensures
            client@ == (ClientModel { key: key@, timeout: None }),
    {
        Self { key: key.to_owned(), timeout: None }
    }

    /// Give up on an endpoint that stops answering after `timeout`.
    #[must_use]
    pub fn timing_out_after(self, timeout: Duration) -> (client: Self)
        ensures
            client@ == (ClientModel { timeout: Some(timeout), ..self@ }),
    {
        let mut client = self;
        client.timeout = Some(timeout);
        client
    }

    /// Publish `event` to the topic at `topic_url`: what is sent where. A
    /// topic with this client's key takes the event from it, where the path
    /// is a topic's and the event is not too large. An ordinary event is its
    /// envelope and the base64 of its data. The answer is for [`judge`].
    ///
    /// # Errors
    /// Where the URL is not HTTP.
    pub fn publish(&self, topic_url: &str, event: &CloudEvent) -> (outgoing: Result<
        Outgoing,
        TransportError,
    >)
        ensures
            publishing(self@, topic_url@, event@) == match outgoing {
                Ok(outgoing) => Ok::<OutgoingModel, Failure>(outgoing@),
                Err(error) => Err(error@),
            },
            outgoing matches Ok(outgoing) ==> (crate::text::ended(
                outgoing@.request.path,
                "/api/events"@,
            ) && outgoing@.request.body.len() <= EVENT_CEILING ==> session::published_of(
                self@.key,
                outgoing@.request,
            ) == Ok::<Seq<EventModel>, session::Refusal>(seq![event@])),
            outgoing matches Ok(outgoing) ==> (crate::event::ordinary(event@)
                ==> outgoing@.request.body.len() == crate::event::envelope_of(event@)
                + crate::base64::encoded(event@.data).len()),
    {
        match HttpTarget::parse(topic_url) {
            Err(error) => Err(error),
            Ok(target) => {
                proof {
                    crate::event::lemma_event_plain(event@);
                }
                let endpoint = target.endpoint();
                let text = event.to_json().write();
                let request = Request::new("POST", target.path.as_str()).query(
                    "api-version",
                    API_VERSION,
                ).header("Host", target.authority.as_str()).header(
                    KEY_HEADER,
                    self.key.as_str(),
                ).header("Content-Type", CONTENT_TYPE).body(text.as_str().as_bytes());
                proof {
                    let whole = publication(self.key@, target@, text@);
                    assert(request@.query =~= whole.query);
                    assert(request@.headers =~= whole.headers);
                    if crate::text::ended(target@.path, "/api/events"@) && request@.body.len()
                        <= EVENT_CEILING {
                        lemma_publication(self.key@, target@, event@);
                    }
                    if crate::event::ordinary(event@) {
                        crate::event::lemma_event_size(event@, text@);
                    }
                }
                Ok(Outgoing { endpoint, request, timeout: self.timeout })
            },
        }
    }
}

/// The code an error answer with the value `body` names, or nothing.
pub open spec fn code_in(body: Tree) -> Seq<char> {
    match body.member("error"@).member("code"@).text() {
        Some(code) => code,
        None => Seq::empty(),
    }
}

/// The code an error answer with this body names, or nothing.
pub open spec fn code_of(body: Seq<u8>) -> Seq<char> {
    match crate::json::json_read(body) {
        Ok(body) => code_in(body),
        Err(_) => Seq::empty(),
    }
}

/// HTTP says to come back: the server failed, or asked for patience.
pub open spec fn come_back(status: u16) -> bool {
    status == 429 || 500 <= status < 600
}

/// What an answer that names `code` comes to.
pub open spec fn judged(response: ResponseModel, code: Seq<char>) -> Result<
    ResponseModel,
    Failure,
> {
    if 200 <= response.status < 300 {
        Ok(response)
    } else {
        let status = "Event Grid answered "@ + crate::text::numeral(response.status as nat, 10);
        Err(
            Failure {
                message: if code.len() == 0 {
                    status
                } else {
                    status.push(' ') + code
                },
                retryable: come_back(response.status),
            },
        )
    }
}

/// A 2xx answer as it is; anything else as a failure naming the status and
/// `code`, retryable where HTTP says come back.
///
/// # Errors
/// Where the status is not 2xx.
pub fn judge_naming(response: Response, code: &str) -> (judgement: Result<
    Response,
    TransportError,
>)
    ensures
        judged(response@, code@) == match judgement {
            Ok(response) => Ok::<ResponseModel, Failure>(response@),
            Err(error) => Err(error@),
        },
{
    let status = response.status;
    if 200 <= status && status < 300 {
        return Ok(response);
    }
    let mut message = "Event Grid answered ".to_owned();
    message.append(decimal(status as u64).as_str());
    if !code.is_empty() {
        message.push(' ');
        message.append(code);
    }
    if status == 429 || (500 <= status && status < 600) {
        Err(TransportError::retryable(message.as_str()))
    } else {
        Err(TransportError::permanent(message.as_str()))
    }
}

/// A 2xx answer as it is; anything else as a failure naming the status and
/// the code the service put in the body, retryable where HTTP says come
/// back.
///
/// # Errors
/// Where the status is not 2xx.
pub fn judge(response: Response) -> (judgement: Result<Response, TransportError>)
    ensures
        judged(response@, code_of(response@.body)) == match judgement {
            Ok(response) => Ok::<ResponseModel, Failure>(response@),
            Err(error) => Err(error@),
        },
{
    let code = code(&response);
    judge_naming(response, code.as_str())
}

/// The code that the value `body` of an error answer names, or nothing.
pub fn code_named(body: &Json) -> (code: String)
    ensures
        code@ == code_in(body@),
{
    let error = body.member("error");
    let code = match error {
        Some(error) => error.member_text("code"),
        None => None,
    };
    match code {
        Some(code) => code.clone(),
        None => String::new(),
    }
}

/// The code an error answer names, or nothing.
fn code(response: &Response) -> (code: String)
    ensures
        code@ == code_of(response@.body),
{
    match Json::read(response.body.as_slice()) {
        Ok(body) => code_named(&body),
        Err(_) => String::new(),
    }
}

/// An event is published to the endpoint of the topic's URL, at its path, for
/// its host, with the key, and is the whole body; and not at all where the URL
/// is not HTTP.
pub proof fn law_a_publish_goes_to_its_topic(
    client: ClientModel,
    secure: bool,
    authority: Seq<char>,
    path: Seq<char>,
    event: EventModel,
    other: Seq<char>,
)
    requires
        authority.len() > 0,
        !authority.contains('/'),
        path.len() > 0 ==> path[0] == '/',
    ensures
        publishing(client, crate::target::scheme(secure) + authority + path, event) == Ok::<
            OutgoingModel,
            Failure,
        >(
            OutgoingModel {
                endpoint: crate::target::scheme(secure) + authority,
                request: RequestModel {
                    method: "POST"@,
                    path: if path.len() == 0 {
                        "/"@
                    } else {
                        path
                    },
                    query: seq![("api-version"@, "2018-01-01"@)],
                    headers: seq![
                        ("Host"@, authority),
                        ("aeg-sas-key"@, client.key),
                        ("Content-Type"@, "application/cloudevents+json; charset=utf-8"@),
                    ],
                    body: vstd::utf8::encode_utf8(
                        crate::json::json_write(crate::event::event_json(event)),
                    ),
                },
                timeout: client.timeout,
            },
        ),
        crate::target::target_of(other) is Err ==> publishing(client, other, event) == Err::<
            OutgoingModel,
            Failure,
        >(Failure { message: "not an HTTP URL: "@ + other, retryable: false }),
{
    crate::target::law_url_names_its_parts(secure, authority, path);
    crate::target::law_only_such_a_url_names_something(other);
}

/// `body` is an object that holds, under `error`, the text `code` under `code`,
/// whatever stands beside it.
pub open spec fn blames(body: Tree, code: Seq<char>) -> bool {
    body matches Tree::Object(held) && held.contains_key("error"@) && crate::json::says(
        held["error"@],
        "code"@,
        code,
    )
}

/// The code of an error is what the service put there, and nothing where it put
/// none, or no JSON at all.
pub proof fn law_the_code_is_what_the_service_named(
    body: Tree,
    code: Seq<char>,
    answer: Seq<u8>,
)
    ensures
        blames(body, code) ==> code_in(body) == code,
        (forall|any: Seq<char>| !#[trigger] blames(body, any)) ==> code_in(body).len() == 0,
        crate::json::json_read(answer) == Ok::<Tree, Seq<char>>(body) ==> code_of(answer)
            == code_in(body),
        crate::json::json_read(answer) is Err ==> code_of(answer).len() == 0,
{
    if let Some(found) = body.member("error"@).member("code"@).text() {
        assert(blames(body, found));
    }
}

/// A 2xx answer is handed back whole; any other is a failure that names the
/// status, and the code where there is one, and is worth another attempt exactly
/// where HTTP says to come back.
pub proof fn law_only_2xx_is_a_success(answer: ResponseModel, code: Seq<char>)
    ensures
        200 <= answer.status <= 299 ==> judged(answer, code) == Ok::<ResponseModel, Failure>(
            answer,
        ),
        !(200 <= answer.status <= 299) ==> (judged(answer, code) matches Err(failure) && {
            &&& failure.retryable <==> answer.status == 429 || 500 <= answer.status <= 599
            &&& code.len() == 0 ==> failure.message == "Event Grid answered "@
                + crate::text::numeral(answer.status as nat, 10)
            &&& code.len() > 0 ==> failure.message == "Event Grid answered "@
                + crate::text::numeral(answer.status as nat, 10) + " "@ + code
        }),
{
    reveal_strlit(" ");
    let status = "Event Grid answered "@ + crate::text::numeral(answer.status as nat, 10);
    assert(status.push(' ') =~= status + " "@);
}

} // verus!
