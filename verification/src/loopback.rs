//! One round on this machine: a session stands as the topic and takes the one
//! publish, opens the handshake with the webhook, and delivers to it. The
//! far end is the topic and the subscription both, so what comes back went
//! through the topic and arrived the way a Receive Location takes it.
//!
//! The round waits on sockets between its steps; what each step comes to is
//! decided here.

use vstd::prelude::*;

use crate::error::{protocol_error, Failure, TransportError};
use crate::event::{CloudEvent, EventModel};
use crate::session::{Event, Report};
use crate::target::TargetModel;
use crate::Arrived;

verus! {

/// The URL of the topic a session stands as at `address`.
pub open spec fn topic_url(address: Seq<char>) -> Seq<char> {
    "http://"@ + address + "/api/events"@
}

/// The URL of the webhook at `address`.
pub open spec fn hook_url(address: Seq<char>) -> Seq<char> {
    "http://"@ + address + "/hook"@
}

/// The URL of the topic a session stands as at `address`.
#[must_use]
pub fn topic_at(address: &str) -> (url: String)
    ensures
        url@ == topic_url(address@),
{
    let mut url = "http://".to_owned();
    url.append(address);
    url.append("/api/events");
    url
}

/// The URL of the webhook at `address`.
#[must_use]
pub fn hook_at(address: &str) -> (url: String)
    ensures
        url@ == hook_url(address@),
{
    let mut url = "http://".to_owned();
    url.append(address);
    url.append("/hook");
    url
}

/// What stands before the first slash of `address` and a path behind it is
/// `address`, where that has no slash of its own.
proof fn lemma_before_slash(address: Seq<char>, path: Seq<char>)
    requires
        !address.contains('/'),
        path.len() > 0,
        path[0] == '/',
    ensures
        crate::target::before_slash(address + path) == address.len(),
    decreases address.len(),
{
    let whole = address + path;
    if address.len() == 0 {
        assert(whole =~= path);
    } else {
        let rest = address.drop_first();
        assert(whole.drop_first() =~= rest + path);
        assert(whole[0] == address[0]);
        assert(address.contains(address[0]));
        assert forall|letter: char| rest.contains(letter) implies address.contains(letter) by {
            let at = choose|at: int| 0 <= at < rest.len() && rest[at] == letter;
            assert(address[at + 1] == letter);
        }
        lemma_before_slash(rest, path);
    }
}

/// A URL made of an address and a path names them both.
proof fn lemma_named(address: Seq<char>, path: Seq<char>)
    requires
        address.len() > 0,
        !address.contains('/'),
        path.len() > 0,
        path[0] == '/',
    ensures
        crate::target::target_of("http://"@ + address + path) == Ok::<TargetModel, Failure>(
            TargetModel { secure: false, authority: address, path },
        ),
{
    reveal_strlit("http://");
    let url = "http://"@ + address + path;
    let rest = url.skip(7);
    assert(rest =~= address + path);
    assert("http://"@.is_prefix_of(url));
    lemma_before_slash(address, path);
    assert(rest.take(address.len() as int) =~= address);
    assert(rest.skip(address.len() as int) =~= path);
}

/// The topic at an address is reached there, at a topic's path, and the
/// webhook at an address there, at its own.
pub proof fn law_far_end_is_reached(address: Seq<char>)
    requires
        address.len() > 0,
        !address.contains('/'),
    ensures
        crate::target::target_of(topic_url(address)) == Ok::<TargetModel, Failure>(
            TargetModel { secure: false, authority: address, path: "/api/events"@ },
        ),
        crate::target::target_of(hook_url(address)) == Ok::<TargetModel, Failure>(
            TargetModel { secure: false, authority: address, path: "/hook"@ },
        ),
        crate::text::ended("/api/events"@, "/api/events"@),
{
    reveal_strlit("/api/events");
    reveal_strlit("/hook");
    lemma_named(address, "/api/events"@);
    lemma_named(address, "/hook"@);
    assert("/api/events"@.skip(0) =~= "/api/events"@);
}

/// A round's event is within its share of an event, whatever the payload: the
/// topic at an address of at most 891 ASCII characters, which stands in JSON
/// as it is, is a source of ordinary length.
pub proof fn law_round_is_enveloped(
    address: Seq<char>,
    payload: Seq<u8>,
    secs: u64,
    count: u64,
)
    requires
        vstd::utf8::is_ascii_chars(address),
        crate::json::verbatim(address),
        address.len() <= 891,
    ensures
        crate::event::enveloped(
            crate::event::stream_of(topic_url(address), payload, secs, count),
        ),
{
    let source = topic_url(address);
    reveal_strlit("http://");
    reveal_strlit("/api/events");
    assert(vstd::utf8::is_ascii_chars(source));
    vstd::utf8::is_ascii_chars_encode_utf8(source);
    crate::event::law_ordinary_source_is_enveloped(source, payload, secs, count);
}

/// The event of a publish, where the session took it.
pub open spec fn published_event(report: Report) -> Result<EventModel, Failure> {
    match report {
        Report::Published(event) => Ok(event),
        Report::Refused(code) => Err(crate::error::lasting("the session refused: "@ + code)),
    }
}

/// The event of a publish, where the session took it.
///
/// # Errors
/// Where the session refused it.
pub fn published(event: Event) -> (published: Result<CloudEvent, TransportError>)
    ensures
        published_event(event@) == match published {
            Ok(event) => Ok::<EventModel, Failure>(event@),
            Err(error) => Err(error@),
        },
{
    match event {
        Event::Published(event) => Ok(event),
        Event::Refused(code) => {
            let mut message = "the session refused: ".to_owned();
            message.append(code.as_str());
            Err(protocol_error(message.as_str()))
        },
    }
}

/// What the far end does once it has taken the publish, one step after the
/// other.
#[derive(Debug, PartialEq, Eq)]
pub enum Step {
    /// Open with the handshake at the webhook.
    Open,
    /// Deliver the event to the webhook.
    Deliver,
    /// Poke the webhook, so that it does not wait for what will not come: the
    /// handshake or the delivery failed so.
    Poke(TransportError),
    /// Wait for the webhook to end: this is what the delivery came to.
    Join(Result<(), TransportError>),
}

/// What the far end does behind `step`, which came to `outcome`.
pub open spec fn behind(step: Step, outcome: Result<(), TransportError>) -> Step {
    match (step, outcome) {
        (Step::Open, Ok(_)) => Step::Deliver,
        (Step::Open, Err(failure)) => Step::Poke(failure),
        (Step::Deliver, Ok(_)) => Step::Join(Ok(())),
        (Step::Deliver, Err(failure)) => Step::Poke(failure),
        (Step::Poke(failure), _) => Step::Join(Err(failure)),
        (Step::Join(delivered), _) => Step::Join(delivered),
    }
}

/// What the far end does behind `step`, which came to `outcome`: the handshake
/// is opened with, the event delivered where the handshake was allowed, the
/// webhook poked where one of the two failed, and then waited for.
pub fn follow(step: Step, outcome: Result<(), TransportError>) -> (next: Step)
    ensures
        next == behind(step, outcome),
{
    match (step, outcome) {
        (Step::Open, Ok(_)) => Step::Deliver,
        (Step::Open, Err(failure)) => Step::Poke(failure),
        (Step::Deliver, Ok(_)) => Step::Join(Ok(())),
        (Step::Deliver, Err(failure)) => Step::Poke(failure),
        (Step::Poke(failure), _) => Step::Join(Err(failure)),
        (Step::Join(delivered), _) => Step::Join(delivered),
    }
}

/// Nothing is opened with again, and the event is delivered behind a handshake
/// that was allowed, and behind nothing else.
pub proof fn law_only_an_allowed_handshake_is_delivered_behind(
    step: Step,
    outcome: Result<(), TransportError>,
)
    ensures
        !(behind(step, outcome) is Open),
        behind(step, outcome) is Deliver <==> step is Open && outcome is Ok,
{
}

/// The steps of a round, from the first: where the handshake fails, nothing is
/// delivered, and where it or the delivery fails, the webhook is poked, and the
/// round comes to that failure, whatever becomes of the poke and whatever the
/// webhook took.
pub proof fn law_round_comes_to_its_first_failure(
    opened: Result<(), TransportError>,
    delivered: Result<(), TransportError>,
    poked: Result<(), TransportError>,
    taken: Result<Vec<Arrived>, TransportError>,
)
    ensures
        match (opened, delivered) {
            (Err(failure), _) => {
                &&& behind(Step::Open, opened) == Step::Poke(failure)
                &&& behind(behind(Step::Open, opened), poked) == Step::Join(Err(failure))
                &&& concluded(Err(failure), Some(taken)) == Conclusion::Failed(failure)
            },
            (Ok(_), Err(failure)) => {
                &&& behind(Step::Open, opened) == Step::Deliver
                &&& behind(Step::Deliver, delivered) == Step::Poke(failure)
                &&& behind(behind(Step::Deliver, delivered), poked) == Step::Join(Err(failure))
                &&& concluded(Err(failure), Some(taken)) == Conclusion::Failed(failure)
            },
            (Ok(_), Ok(_)) => {
                &&& behind(Step::Open, opened) == Step::Deliver
                &&& behind(Step::Deliver, delivered) == Step::Join(Ok(()))
                &&& concluded(Ok(()), Some(taken)) == match taken {
                    Err(failure) => Conclusion::Failed(failure),
                    Ok(arrived) => if arrived@.len() > 0 {
                        Conclusion::Arrived(arrived@[0])
                    } else {
                        Conclusion::Empty
                    },
                }
            },
        },
{
}

/// What the webhook does once it has taken a delivery.
#[derive(Debug, PartialEq, Eq)]
pub enum Next {
    /// Accept another: this one was the handshake.
    Accept,
    /// This is what was taken.
    Done(Result<Vec<Arrived>, TransportError>),
}

/// What the webhook does once it has taken a delivery, the `first` or the one
/// behind it: a first that brought nothing was the handshake, and the event is
/// still to come.
pub fn next(first: bool, taken: Result<Vec<Arrived>, TransportError>) -> (next: Next)
    ensures
        next == if first && (taken matches Ok(arrived) && arrived@.len() == 0) {
            Next::Accept
        } else {
            Next::Done(taken)
        },
{
    let handshake = match &taken {
        Ok(arrived) => first && arrived.is_empty(),
        Err(_) => false,
    };
    if handshake {
        Next::Accept
    } else {
        Next::Done(taken)
    }
}

/// What a round comes to.
pub enum Conclusion {
    /// The webhook broke off.
    Broken,
    /// The delivery failed so, or the webhook did.
    Failed(TransportError),
    /// The webhook took nothing.
    Empty,
    /// This is the Stream that arrived.
    Arrived(Arrived),
}

/// What a round comes to whose delivery came to `delivered`, and whose webhook
/// took `taken`, or broke off where that is nothing.
pub open spec fn concluded(
    delivered: Result<(), TransportError>,
    taken: Option<Result<Vec<Arrived>, TransportError>>,
) -> Conclusion {
    match (taken, delivered) {
        (None, _) => Conclusion::Broken,
        (Some(_), Err(failure)) => Conclusion::Failed(failure),
        (Some(Err(failure)), Ok(_)) => Conclusion::Failed(failure),
        (Some(Ok(taken)), Ok(_)) => if taken@.len() > 0 {
            Conclusion::Arrived(taken@[0])
        } else {
            Conclusion::Empty
        },
    }
}

/// What a round comes to: the first Stream the webhook took, where it ran to
/// its end, everything was delivered, and it took one. `taken` is nothing
/// where the webhook broke off.
pub fn conclude(
    delivered: Result<(), TransportError>,
    taken: Option<Result<Vec<Arrived>, TransportError>>,
) -> (arrived: Result<Arrived, TransportError>)
    ensures
        match concluded(delivered, taken) {
            Conclusion::Broken => arrived matches Err(error) && error@ == crate::error::lasting(
                "the webhook's thread panicked"@,
            ),
            Conclusion::Failed(failure) => arrived == Err::<Arrived, TransportError>(failure),
            Conclusion::Empty => arrived matches Err(error) && error@ == crate::error::lasting(
                "delivered, but the webhook took nothing"@,
            ),
            Conclusion::Arrived(stream) => arrived == Ok::<Arrived, TransportError>(stream),
        },
{
    match (taken, delivered) {
        (None, _) => Err(protocol_error("the webhook's thread panicked")),
        (Some(_), Err(failure)) => Err(failure),
        (Some(Err(failure)), Ok(_)) => Err(failure),
        (Some(Ok(taken)), Ok(_)) => if taken.is_empty() {
            Err(protocol_error("delivered, but the webhook took nothing"))
        } else {
            let mut taken = taken;
            Ok(taken.remove(0))
        },
    }
}

/// A session stands as a topic, and the webhook listens, at the address it was
/// given, each at a path of its own.
pub proof fn law_the_far_end_is_at_its_address(address: Seq<char>)
    ensures
        topic_url(address) == "http://"@ + address + "/api/events"@,
        hook_url(address) == "http://"@ + address + "/hook"@,
{
}

/// A round goes on with the event that the session took, and ends with the code
/// that it refused with.
pub proof fn law_a_round_goes_on_with_what_was_taken(event: EventModel, code: Seq<char>)
    ensures
        published_event(Report::Published(event)) == Ok::<EventModel, Failure>(event),
        published_event(Report::Refused(code)) == Err::<EventModel, Failure>(
            Failure { message: "the session refused: "@ + code, retryable: false },
        ),
{
}

/// A webhook that broke off ends the round so, whatever was delivered.
pub proof fn law_a_broken_webhook_ends_the_round(delivered: Result<(), TransportError>)
    ensures
        concluded(delivered, None) is Broken,
{
}

/// Behind the poke the webhook is waited for, and behind that there is nothing
/// else to do, whatever came of it.
pub proof fn law_a_round_ends_once(
    failure: TransportError,
    delivered: Result<(), TransportError>,
    outcome: Result<(), TransportError>,
)
    ensures
        behind(Step::Poke(failure), outcome) == Step::Join(Err(failure)),
        behind(Step::Join(delivered), outcome) == Step::Join(delivered),
{
}

} // verus!
