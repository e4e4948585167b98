//! Streams that travel as `CloudEvents` through an Event Grid topic. One
//! event is one Stream, its id kept beside it.
//!
//! Event Grid is the event router of every organisation that lives in
//! Azure: a topic, and subscriptions that deliver what is published to it
//! — to a webhook, among other places. A Send Location publishes a Stream
//! as one `CloudEvent` to a topic endpoint, with the topic key over plain
//! HTTP/1.1 on a socket, or `https://`. A Receive Location is the webhook a
//! subscription delivers to: it answers the validation handshake Event
//! Grid opens with, then takes each event as a Stream.
//!
//! ```text
//! event.rs      one `CloudEvent`, written and read
//! client.rs     Xmip's side: publish, and what the answer comes to
//! webhook.rs    the endpoint a subscription delivers to, and what it delivers
//! session.rs    the far end a test or the playground runs on loopback
//! loopback.rs   one round through that far end and back
//! message.rs    the requests and responses they exchange
//! target.rs     the URL of a topic or a webhook
//! json.rs       JSON values, read and written by serde_json
//! base64.rs     bytes as text
//! text.rs       characters, comparisons and numerals
//! error.rs      failures
//! ```
//!
//! What goes over a socket is made and read here; the sockets are the
//! caller's. Each function that ends in a send returns what is sent where,
//! and the answer has a function of its own.
//!
//! A Stream is bytes and travels as the event's `data_base64`, so nothing
//! is refused for its content. An event is one mebibyte at most, envelope
//! and all, and base64 is four bytes for three: [`ceiling`] is what that
//! leaves for the data.
//!
//! The origin URI is the event's source — the topic endpoint it was
//! published to — with the event id as its fragment. A send target is a
//! topic endpoint URL, or empty for this transport's own.

pub mod base64;
pub mod client;
pub mod error;
pub mod event;
pub mod json;
pub mod loopback;
pub mod message;
pub mod session;
pub mod target;
pub mod text;
pub mod webhook;

use std::time::Duration;

use vstd::prelude::*;

pub use client::{Client, API_VERSION, KEY_HEADER};
pub use error::TransportError;
pub use event::{CloudEvent, Ids, ENVELOPE, EVENT_CEILING};
pub use session::{Event, Session};
pub use webhook::Delivery;

use client::ClientModel;
use error::Failure;
use event::EventModel;
use message::{Outgoing, OutgoingModel};
use session::SessionModel;
use target::HttpTarget;
use text::decimal;
use webhook::DeliveryModel;

verus! {

/// What the loopback pair agrees on: one topic key.
pub const LOOPBACK_KEY: &'static str = "probe";

/// The largest Stream one event carries.
pub open spec fn brim() -> int {
    (EVENT_CEILING - ENVELOPE) / 4 * 3
}

/// The largest Stream one event carries: what a mebibyte leaves for the
/// data once the envelope has its share and base64 has taken four bytes
/// for three.
#[must_use]
pub fn ceiling() -> (ceiling: usize)
    ensures
        ceiling == brim(),
        ceiling == 785_664,
{
    (EVENT_CEILING - ENVELOPE) / 4 * 3
}

/// The data of a Stream leaves the envelope its share of an event exactly
/// where the Stream is not over the ceiling.
pub proof fn law_ceiling_is_what_fits(data: Seq<u8>)
    ensures
        data.len() <= brim() <==> base64::encoded(data).len() + ENVELOPE <= EVENT_CEILING,
{
    base64::lemma_encoded_len(data);
}

/// What arrived: the bytes of a Stream, and where they came from.
#[verifier::ext_equal]
pub struct Arrival {
    pub origin_uri: Seq<char>,
    pub bytes: Seq<u8>,
}

/// A Stream as it arrived, and where it came from.
#[derive(Debug, PartialEq, Eq)]
pub struct Arrived {
    pub origin_uri: String,
    pub bytes: Vec<u8>,
}

impl View for Arrived {
    type V = Arrival;

    open spec fn view(&self) -> Arrival {
        Arrival { origin_uri: self.origin_uri@, bytes: self.bytes@ }
    }
}

/// What `arrived` are, in order.
pub open spec fn arrivals(arrived: Seq<Arrived>) -> Seq<Arrival> {
    arrived.map_values(|each: Arrived| each@)
}

/// The Stream an event carries.
pub open spec fn arrival_of(event: EventModel) -> Arrival {
    Arrival { origin_uri: event::origin_of(event), bytes: event.data }
}

/// The Streams a delivery carries: one for each event, none in a handshake
/// or a validation.
pub open spec fn arrivals_of(delivery: DeliveryModel) -> Seq<Arrival> {
    match delivery {
        DeliveryModel::Events(events) => events.map_values(|event: EventModel| arrival_of(event)),
        _ => Seq::empty(),
    }
}

/// What a transport holds.
#[verifier::ext_equal]
pub struct TransportModel {
    pub topic_url: Seq<char>,
    pub key: Seq<char>,
    pub bind: Seq<char>,
    pub timeout: Option<Duration>,
}

impl TransportModel {
    /// The topic a target names, or this transport's own where it names
    /// none.
    pub open spec fn resolved(self, target: Seq<char>) -> Seq<char> {
        if target.len() == 0 {
            self.topic_url
        } else {
            target
        }
    }

    /// The event that carries `bytes` to `target`.
    pub open spec fn carrier(
        self,
        target: Seq<char>,
        bytes: Seq<u8>,
        id: Seq<char>,
    ) -> EventModel {
        EventModel { id, source: self.resolved(target), kind: event::STREAM_TYPE@, data: bytes }
    }

    /// What is sent where to send `bytes` to `target`.
    pub open spec fn sending(
        self,
        target: Seq<char>,
        bytes: Seq<u8>,
        id: Seq<char>,
    ) -> Result<OutgoingModel, Failure> {
        if bytes.len() > brim() {
            Err(
                error::lasting(
                    text::numeral(bytes.len(), 10) + " bytes is over the "@ + text::numeral(
                        brim() as nat,
                        10,
                    ) + " one Event Grid event carries"@,
                ),
            )
        } else {
            client::publishing(
                ClientModel { key: self.key, timeout: self.timeout },
                self.resolved(target),
                self.carrier(target, bytes, id),
            )
        }
    }
}

pub struct EventGridTransport {
    topic_url: String,
    key: String,
    bind: String,
    timeout: Option<Duration>,
}

impl View for EventGridTransport {
    type V = TransportModel;

    closed spec fn view(&self) -> TransportModel {
        TransportModel {
            topic_url: self.topic_url@,
            key: self.key@,
            bind: self.bind@,
            timeout: self.timeout,
        }
    }
}

impl Clone for EventGridTransport {
    fn clone(&self) -> (transport: Self)
        ensures
            transport@ == self@,
    {
        Self {
            topic_url: self.topic_url.clone(),
            key: self.key.clone(),
            bind: self.bind.clone(),
            timeout: self.timeout,
        }
    }
}

/// Nothing is refused for its content: of two Streams of one length, to one
/// target, both are sent or neither is.
pub proof fn law_nothing_is_refused_for_its_content(
    transport: TransportModel,
    target: Seq<char>,
    bytes: Seq<u8>,
    id: Seq<char>,
    other_bytes: Seq<u8>,
    other_id: Seq<char>,
)
    requires
        bytes.len() == other_bytes.len(),
    ensures
        transport.sending(target, bytes, id) is Ok <==> transport.sending(
            target,
            other_bytes,
            other_id,
        ) is Ok,
{
}

/// One event is one Stream: the event that carries a Stream is read back from
/// what it is written as, and brings the same bytes, from the topic they were
/// sent to with the event's id as the fragment.
pub proof fn law_stream_arrives_whole(
    transport: TransportModel,
    target: Seq<char>,
    bytes: Seq<u8>,
    id: Seq<char>,
)
    ensures
        event::event_of(event::event_json(transport.carrier(target, bytes, id))) matches Ok(event)
            && arrivals_of(DeliveryModel::Events(seq![event])) == seq![
            Arrival { origin_uri: transport.resolved(target).push('#') + id, bytes },
        ],
{
    let event = transport.carrier(target, bytes, id);
    event::law_event_reads_back(event);
    assert(arrivals_of(DeliveryModel::Events(seq![event])) =~= seq![arrival_of(event)]);
}

impl EventGridTransport {
    /// Publish to the topic endpoint at `topic_url` — `https://<topic>.
    /// <region>-1.eventgrid.azure.net/api/events` in the cloud,
    /// `http://host:port/api/events` for a stand-in.
    #[must_use]
    pub fn new(topic_url: &str) -> (transport: Self)
        ensures
            transport@ == (TransportModel {
                topic_url: topic_url@,
                key: Seq::empty(),
                bind: "127.0.0.1:0"@,
                timeout: None,
            }),
    {
        Self {
            topic_url: topic_url.to_owned(),
            key: String::new(),
            bind: "127.0.0.1:0".to_owned(),
            timeout: None,
        }
    }

    /// Present this topic key.
    #[must_use]
    pub fn with_key(self, key: &str) -> (transport: Self)
        ensures
            transport@ == (TransportModel { key: key@, ..self@ }),
    {
        let mut transport = self;
        transport.key = key.to_owned();
        transport
    }

    /// Listen for deliveries at `bind` — the address the subscription's
    /// webhook URL resolves to.
    #[must_use]
    pub fn listening_at(self, bind: &str) -> (transport: Self)
        ensures
            transport@ == (TransportModel { bind: bind@, ..self@ }),
    {
        let mut transport = self;
        transport.bind = bind.to_owned();
        transport
    }

    /// Give up on an endpoint that stops answering after `timeout`.
    #[must_use]
    pub fn timing_out_after(self, timeout: Duration) -> (transport: Self)
        ensures
            transport@ == (TransportModel { timeout: Some(timeout), ..self@ }),
    {
        let mut transport = self;
        transport.timeout = Some(timeout);
        transport
    }

    /// The topic endpoint this transport publishes to.
    #[must_use]
    pub fn topic_url(&self) -> (topic_url: &str)
        ensures
            topic_url@ == self@.topic_url,
    {
        self.topic_url.as_str()
    }

    /// The address the webhook is bound at.
    #[must_use]
    pub fn bind(&self) -> (bind: &str)
        ensures
            bind@ == self@.bind,
    {
        self.bind.as_str()
    }

    /// How long an endpoint may be silent.
    #[must_use]
    pub fn timeout(&self) -> (timeout: Option<Duration>)
        ensures
            timeout == self@.timeout,
    {
        self.timeout
    }

    /// The client this transport publishes through.
    #[must_use]
    pub fn client(&self) -> (client: Client)
        ensures
            client@ == (ClientModel { key: self@.key, timeout: self@.timeout }),
    {
        let client = Client::new(self.key.as_str());
        match self.timeout {
            Some(timeout) => client.timing_out_after(timeout),
            None => client,
        }
    }

    /// A far end that expects this transport's key, for a test or the
    /// playground to run on loopback.
    #[must_use]
    pub fn session(&self) -> (session: Session)
        ensures
            session@ == (SessionModel {
                key: self@.key,
                events: Seq::empty(),
                timeout: self@.timeout,
            }),
    {
        let session = Session::new(self.key.as_str());
        match self.timeout {
            Some(timeout) => session.timing_out_after(timeout),
            None => session,
        }
    }

    /// What one delivery brings: the events it carried as Streams; a
    /// handshake or a validation, answered, as nothing yet.
    pub fn accept_one(&self, delivery: Delivery) -> (arrived: Vec<Arrived>)
        ensures
            arrivals(arrived@) == arrivals_of(delivery@),
            delivery matches Delivery::Events(events) ==> {
                &&& arrived@.len() == events@.len()
                &&& forall|at: int|
                    0 <= at < events@.len() ==> (#[trigger] arrived@[at]).bytes@
                        == events@[at].data@ && arrived@[at].origin_uri@ == events@[at].source@
                        + "#"@ + events@[at].id@
            },
            !(delivery is Events) ==> arrived@.len() == 0,
    {
        let mut arrived: Vec<Arrived> = Vec::new();
        match delivery {
            Delivery::Events(events) => {
                for event in it: events
                    invariant
                        it.seq() == events@,
                        arrived@.len() == it.index(),
                        forall|at: int|
                            0 <= at < arrived@.len() ==> (#[trigger] arrived@[at])@ == arrival_of(
                                it.seq()[at]@,
                            ),
                        forall|at: int|
                            0 <= at < arrived@.len() ==> (#[trigger] arrived@[at]).bytes@
                                == it.seq()[at].data@ && arrived@[at].origin_uri@
                                == it.seq()[at].source@ + "#"@ + it.seq()[at].id@,
                {
                    proof {
                        event::law_an_event_is_named_by_source_and_id(event@, 0, 0);
                    }
                    let origin_uri = event.origin();
                    arrived.push(Arrived { origin_uri, bytes: event.data });
                }
            },
            Delivery::Handshake(_) => {},
            Delivery::Validation(_) => {},
        }
        assert(arrivals(arrived@) =~= arrivals_of(delivery@));
        arrived
    }

    /// The topic a target names, or this transport's own where it names
    /// none.
    fn resolve<'a>(&'a self, target: &'a str) -> (topic_url: &'a str)
        ensures
            topic_url@ == self@.resolved(target@),
    {
        if target.is_empty() {
            self.topic_url.as_str()
        } else {
            target
        }
    }

    /// The name this transport goes by.
    #[must_use]
    pub fn name(&self) -> (name: &'static str)
        ensures
            name@ == "azure-event-grid"@,
    {
        "azure-event-grid"
    }

    /// Send `bytes` to `target` as one event, made in the second `secs` under
    /// a fresh id of `ids`: what is sent where. Nothing is refused for its
    /// content. A topic with this transport's key takes the event, where the
    /// path is a topic's and the event, envelope and all, is not too large;
    /// and it is not, where the envelope is within its share. The answer is for [`client::judge`].
    ///
    /// # Errors
    /// Where `bytes` is over the ceiling, or the topic's URL is not HTTP.
    pub fn send(&self, target: &str, bytes: &[u8], ids: &mut Ids, secs: u64) -> (outgoing: Result<
        Outgoing,
        TransportError,
    >)
        ensures
            self@.sending(target@, bytes@, event::id_of(secs, old(ids)@)) == match outgoing {
                Ok(outgoing) => Ok::<OutgoingModel, Failure>(outgoing@),
                Err(error) => Err(error@),
            },
            outgoing matches Ok(outgoing) ==> (text::ended(
                outgoing@.request.path,
                "/api/events"@,
            ) && outgoing@.request.body.len() <= EVENT_CEILING ==> session::published_of(
                self@.key,
                outgoing@.request,
            ) == Ok::<Seq<EventModel>, session::Refusal>(
                seq![self@.carrier(target@, bytes@, event::id_of(secs, old(ids)@))],
            )),
            outgoing matches Ok(outgoing) ==> (event::enveloped(
                self@.carrier(target@, bytes@, event::id_of(secs, old(ids)@)),
            ) ==> outgoing@.request.body.len() <= EVENT_CEILING),
            final(ids)@ == if bytes@.len() > brim() {
                old(ids)@
            } else {
                event::counted(old(ids)@)
            },
    {
        if bytes.len() > ceiling() {
            let mut message = decimal(bytes.len() as u64);
            message.append(" bytes is over the ");
            message.append(decimal(ceiling() as u64).as_str());
            message.append(" one Event Grid event carries");
            return Err(TransportError::permanent(message.as_str()));
        }
        proof {
            law_ceiling_is_what_fits(bytes@);
        }
        let topic_url = self.resolve(target);
        self.client().publish(topic_url, &CloudEvent::stream(topic_url, bytes, ids, secs))
    }

    /// Both ends on this machine: the session stands as the topic on an
    /// ephemeral local port, the webhook listens on another, one key, this
    /// timeout on every side.
    #[must_use]
    pub fn loopback(timeout: Duration) -> (transport: Self)
        ensures
            transport@ == (TransportModel {
                topic_url: "http://127.0.0.1:0/api/events"@,
                key: LOOPBACK_KEY@,
                bind: "127.0.0.1:0"@,
                timeout: Some(timeout),
            }),
    {
        Self::new("http://127.0.0.1:0/api/events").with_key(LOOPBACK_KEY).timing_out_after(timeout)
    }

    /// The largest Stream a round takes.
    #[must_use]
    pub fn ceiling(&self) -> (most: Option<usize>)
        ensures
            most == Some(brim() as usize),
    {
        Some(ceiling())
    }

    /// The address a session is bound at to stand as this transport's topic.
    ///
    /// # Errors
    /// Where the topic's URL is not HTTP.
    pub fn topic_authority(&self) -> (authority: Result<String, TransportError>)
        ensures
            match target::target_of(self@.topic_url) {
                Ok(target) => authority matches Ok(authority) && authority@ == target.authority,
                Err(failure) => authority matches Err(error) && error@ == failure,
            },
    {
        match HttpTarget::parse(self.topic_url.as_str()) {
            Ok(target) => Ok(target.authority),
            Err(error) => Err(error),
        }
    }

    /// A fresh near end presenting this transport's key, for the topic on
    /// `address`.
    #[must_use]
    pub fn near(&self, address: &str) -> (near: Self)
        ensures
            near@ == (TransportModel { topic_url: loopback::topic_url(address@), ..self@ }),
    {
        Self {
            topic_url: loopback::topic_at(address),
            key: self.key.clone(),
            bind: self.bind.clone(),
            timeout: self.timeout,
        }
    }

    /// Publish the payload as one event, made in the second `secs` under a
    /// fresh id of `ids`, from a fresh near end presenting this transport's
    /// key, to the topic on `address`: what is sent where. A session of this
    /// transport takes the event, where that, envelope and all, is not too
    /// large; and it is not, where the envelope is within its share.
    ///
    /// # Errors
    /// Where `payload` is over the ceiling, or there is no such address.
    pub fn send_to(
        &self,
        address: &str,
        payload: &[u8],
        ids: &mut Ids,
        secs: u64,
    ) -> (outgoing: Result<Outgoing, TransportError>)
        ensures
            (TransportModel { topic_url: loopback::topic_url(address@), ..self@ }).sending(
                Seq::empty(),
                payload@,
                event::id_of(secs, old(ids)@),
            ) == match outgoing {
                Ok(outgoing) => Ok::<OutgoingModel, Failure>(outgoing@),
                Err(error) => Err(error@),
            },
            address@.len() > 0 && !address@.contains('/') ==> {
                &&& outgoing is Ok <==> payload@.len() <= brim()
                &&& outgoing matches Ok(outgoing) ==> (outgoing@.request.body.len()
                    <= EVENT_CEILING || event::enveloped(
                    event::stream_of(loopback::topic_url(address@), payload@, secs, old(ids)@),
                ) ==> session::published_of(
                    self@.key,
                    outgoing@.request,
                ) == Ok::<Seq<EventModel>, session::Refusal>(
                    seq![
                        event::stream_of(loopback::topic_url(address@), payload@, secs, old(ids)@),
                    ],
                ))
            },
            final(ids)@ == if payload@.len() > brim() {
                old(ids)@
            } else {
                event::counted(old(ids)@)
            },
    {
        proof {
            reveal_strlit("");
            assert(""@ =~= Seq::empty());
            if address@.len() > 0 && !address@.contains('/') {
                loopback::law_far_end_is_reached(address@);
            }
        }
        self.near(address).send("", payload, ids, secs)
    }
}

/// A delivery brings one Stream for each of its events, whatever their type, in
/// order: the bytes of the event, from its source with its id as the fragment. A
/// handshake and a validation bring none.
pub proof fn law_each_event_arrives_as_its_own_bytes(
    events: Seq<EventModel>,
    text: Seq<char>,
    arrived: Arrived,
)
    ensures
        arrivals_of(DeliveryModel::Events(events)).len() == events.len(),
        forall|at: int|
            0 <= at < events.len() ==> (#[trigger] arrivals_of(DeliveryModel::Events(events))[at])
                == (Arrival {
                origin_uri: events[at].source + "#"@ + events[at].id,
                bytes: events[at].data,
            }),
        arrivals_of(DeliveryModel::Handshake(text)).len() == 0,
        arrivals_of(DeliveryModel::Validation(text)).len() == 0,
        arrived@.origin_uri == arrived.origin_uri@,
        arrived@.bytes == arrived.bytes@,
{
    let streams = arrivals_of(DeliveryModel::Events(events));
    assert forall|at: int| 0 <= at < events.len() implies (#[trigger] streams[at]) == (Arrival {
        origin_uri: events[at].source + "#"@ + events[at].id,
        bytes: events[at].data,
    }) by {
        event::law_an_event_is_named_by_source_and_id(events[at], 0, 0);
    }
}

/// The ceiling is what a mebibyte leaves beside a kibibyte of envelope, three
/// bytes for four.
pub proof fn law_the_ceiling_is_what_a_mebibyte_leaves()
    ensures
        EVENT_CEILING == 1048576,
        ENVELOPE == 1024,
        brim() == 785664,
        brim() / 3 * 4 + 1024 == 1048576,
{
}

/// What is sent of a Stream to the topic that a scheme, an authority and a path
/// name.
pub open spec fn sent(
    transport: TransportModel,
    secure: bool,
    authority: Seq<char>,
    path: Seq<char>,
    bytes: Seq<u8>,
    id: Seq<char>,
) -> OutgoingModel {
    OutgoingModel {
        endpoint: target::scheme(secure) + authority,
        request: message::RequestModel {
            method: "POST"@,
            path: if path.len() == 0 {
                "/"@
            } else {
                path
            },
            query: seq![("api-version"@, "2018-01-01"@)],
            headers: seq![
                ("Host"@, authority),
                ("aeg-sas-key"@, transport.key),
                ("Content-Type"@, "application/cloudevents+json; charset=utf-8"@),
            ],
            body: vstd::utf8::encode_utf8(
                json::json_write(
                    event::event_json(
                        EventModel {
                            id,
                            source: target::scheme(secure) + authority + path,
                            kind: "se.xmip.stream"@,
                            data: bytes,
                        },
                    ),
                ),
            ),
        },
        timeout: transport.timeout,
    }
}

/// A Stream that is not over the ceiling goes to the topic that its target
/// names, `http` or `https`: to that endpoint, host and path, from that very
/// source. The transport's own topic has no part in it, and is where a Stream
/// goes whose target names none.
pub proof fn law_a_stream_goes_to_the_topic_it_names(
    transport: TransportModel,
    secure: bool,
    authority: Seq<char>,
    path: Seq<char>,
    bytes: Seq<u8>,
    id: Seq<char>,
)
    requires
        bytes.len() <= 785664,
        authority.len() > 0,
        !authority.contains('/'),
        path.len() > 0 ==> path[0] == '/',
    ensures
        transport.sending(target::scheme(secure) + authority + path, bytes, id) == Ok::<
            OutgoingModel,
            Failure,
        >(sent(transport, secure, authority, path, bytes, id)),
        transport.topic_url == target::scheme(secure) + authority + path ==> transport.sending(
            Seq::empty(),
            bytes,
            id,
        ) == Ok::<OutgoingModel, Failure>(sent(transport, secure, authority, path, bytes, id)),
        transport.carrier(target::scheme(secure) + authority + path, bytes, id) == (EventModel {
            id,
            source: target::scheme(secure) + authority + path,
            kind: "se.xmip.stream"@,
            data: bytes,
        }),
{
    let url = target::scheme(secure) + authority + path;
    let event = EventModel { id, source: url, kind: "se.xmip.stream"@, data: bytes };
    client::law_a_publish_goes_to_its_topic(
        ClientModel { key: transport.key, timeout: transport.timeout },
        secure,
        authority,
        path,
        event,
        Seq::empty(),
    );
    assert(url.len() > 0);
}

/// A target is the topic it says, and one that says nothing is the transport's
/// own.
pub proof fn law_a_target_is_its_own_topic(
    transport: TransportModel,
    target: Seq<char>,
    bytes: Seq<u8>,
    id: Seq<char>,
)
    ensures
        target.len() > 0 ==> transport.resolved(target) == target,
        target.len() == 0 ==> transport.resolved(target) == transport.topic_url,
        transport.carrier(target, bytes, id).source == transport.resolved(target),
        transport.carrier(target, bytes, id).data == bytes,
        transport.carrier(target, bytes, id).id == id,
        transport.carrier(target, bytes, id).kind == "se.xmip.stream"@,
{
}

/// The words that name the ceiling.
proof fn lemma_brim()
    ensures
        text::numeral(785664, 10) == "785664"@,
{
    reveal_strlit("785664");
    reveal_with_fuel(text::numeral, 7);
    assert(text::numeral(785664, 10) =~= "785664"@);
}

/// A Stream is refused exactly where it is over the ceiling, whatever the target,
/// or where the topic's URL is not HTTP; and then for good, with the reason.
pub proof fn law_a_stream_is_refused_with_the_reason(
    transport: TransportModel,
    target: Seq<char>,
    bytes: Seq<u8>,
    id: Seq<char>,
)
    ensures
        bytes.len() > 785664 ==> transport.sending(target, bytes, id) == Err::<
            OutgoingModel,
            Failure,
        >(
            Failure {
                message: text::numeral(bytes.len(), 10) + " bytes is over the "@ + "785664"@
                    + " one Event Grid event carries"@,
                retryable: false,
            },
        ),
        bytes.len() <= 785664 ==> (transport.sending(target, bytes, id) is Ok
            <==> target::target_of(
            if target.len() == 0 {
                transport.topic_url
            } else {
                target
            },
        ) is Ok),
        bytes.len() <= 785664 && transport.sending(target, bytes, id) is Err
            ==> transport.sending(target, bytes, id) == Err::<OutgoingModel, Failure>(
            Failure {
                message: "not an HTTP URL: "@ + if target.len() == 0 {
                    transport.topic_url
                } else {
                    target
                },
                retryable: false,
            },
        ),
{
    lemma_brim();
    target::law_only_such_a_url_names_something(transport.resolved(target));
}

/// The whole way of a Stream: what is sent of it is taken by a topic with the
/// key as the one event that carries it, that event delivered is the one the
/// webhook reads, and the Stream that arrives is the bytes that were sent, from
/// the topic they were sent to with the event's id as the fragment. Of the event's
/// text this takes that it is read back and is not too large.
pub proof fn law_a_stream_goes_the_whole_way(
    transport: TransportModel,
    secure: bool,
    authority: Seq<char>,
    stem: Seq<char>,
    bytes: Seq<u8>,
    id: Seq<char>,
    hook: Seq<char>,
)
    requires
        bytes.len() <= 785664,
        authority.len() > 0,
        !authority.contains('/'),
        stem.len() > 0 ==> stem[0] == '/',
        ({
            let source = target::scheme(secure) + authority + (stem + "/api/events"@);
            let tree = event::event_json(
                EventModel { id, source, kind: "se.xmip.stream"@, data: bytes },
            );
            json::reads_as(json::json_write(tree), tree) && vstd::utf8::encode_utf8(
                json::json_write(tree),
            ).len() <= 1048576
        }),
    ensures
        ({
            let source = target::scheme(secure) + authority + (stem + "/api/events"@);
            let event = EventModel { id, source, kind: "se.xmip.stream"@, data: bytes };
            &&& transport.sending(source, bytes, id) matches Ok(outgoing)
                && session::published_of(transport.key, outgoing.request) == Ok::<
                Seq<EventModel>,
                session::Refusal,
            >(seq![event])
            &&& webhook::delivery_of(
                webhook::notification(
                    hook,
                    event::CONTENT_TYPE@,
                    json::json_write(event::event_json(event)),
                ),
            ) matches Ok((delivery, answer)) && answer.status == 200 && arrivals_of(delivery)
                == seq![Arrival { origin_uri: source + "#"@ + id, bytes }]
        }),
{
    let path = stem + "/api/events"@;
    reveal_strlit("/api/events");
    let source = target::scheme(secure) + authority + path;
    let event = EventModel { id, source, kind: "se.xmip.stream"@, data: bytes };
    let tree = event::event_json(event);
    law_a_stream_goes_to_the_topic_it_names(transport, secure, authority, path, bytes, id);
    let request = sent(transport, secure, authority, path, bytes, id).request;
    reveal_strlit("Host");
    reveal_strlit("aeg-sas-key");
    assert(text::folded("Host"@).len() != text::folded("aeg-sas-key"@).len());
    assert(request.headers.drop_first()[0] == ("aeg-sas-key"@, transport.key));
    reveal_with_fuel(message::header_in, 2);
    assert(message::header_in(request.headers, "aeg-sas-key"@) == Some(transport.key));
    assert(session::publishes(transport.key, request, stem));
    event::law_event_reads_back(event);
    session::law_a_value_is_held_alone(transport.key, request, stem, tree);
    session::law_a_value_is_weighed_by_its_text(tree, session::size_of(tree));
    let delivery = webhook::notification(hook, event::CONTENT_TYPE@, json::json_write(tree));
    lemma_notification_is_no_validation(delivery.headers);
    reveal_strlit("POST");
    reveal_strlit("OPTIONS");
    assert("POST"@.len() != "OPTIONS"@.len());
    webhook::law_a_value_alone_is_one_event(delivery, tree);
    law_each_event_arrives_as_its_own_bytes(seq![event], Seq::empty(), arbitrary());
    assert(arrivals_of(DeliveryModel::Events(seq![event])) =~= seq![
        Arrival { origin_uri: source + "#"@ + id, bytes },
    ]);
}

/// A notification is no validation.
proof fn lemma_notification_is_no_validation(headers: Seq<(Seq<char>, Seq<char>)>)
    requires
        headers.len() == 2,
        headers[0].0 == "Content-Type"@,
        headers[1] == ("aeg-event-type"@, "Notification"@),
    ensures
        message::header_in(headers, "aeg-event-type"@) != Some("SubscriptionValidation"@),
{
    reveal_strlit("Content-Type");
    reveal_strlit("aeg-event-type");
    reveal_strlit("Notification");
    reveal_strlit("SubscriptionValidation");
    assert(text::folded("Content-Type"@).len() != text::folded("aeg-event-type"@).len());
    assert(headers.drop_first()[0] == headers[1]);
    reveal_with_fuel(message::header_in, 2);
    assert("Notification"@.len() != "SubscriptionValidation"@.len());
}

} // verus!
