//! One `CloudEvent`: the envelope a Stream travels in, written and read.
//!
//! Event Grid takes and delivers events in the `CloudEvents` 1.0 schema,
//! one JSON object: `specversion`, `type`, `source`, `id`, and the data.
//! A Stream is bytes, so it travels as `data_base64` — the schema's field
//! for binary data — and comes back the same bytes. An event another
//! publisher wrote with `data` instead is read too: a string as its UTF-8,
//! any other JSON as its text. A field that is null is read as one that is
//! not there. Both halves are here, so the publisher and the webhook cannot
//! drift.

use vstd::prelude::*;

use crate::base64;
use crate::error::{protocol_error, Failure, TransportError};
use crate::json::{Json, Tree};
use crate::text::{hexadecimal, same};

verus! {

/// The content type one event travels under.
pub const CONTENT_TYPE: &'static str = "application/cloudevents+json; charset=utf-8";

/// The content type a batch of events travels under.
pub const BATCH_CONTENT_TYPE: &'static str = "application/cloudevents-batch+json; charset=utf-8";

/// The `type` every event this transport publishes carries.
pub const STREAM_TYPE: &'static str = "se.xmip.stream";

/// The largest event Event Grid carries, envelope and all: one mebibyte.
pub const EVENT_CEILING: usize = 1024 * 1024;

/// What of that is kept for the envelope — the four fields and their
/// names, a source URL of ordinary length — so the data has the rest.
pub const ENVELOPE: usize = 1024;

/// What an event says.
#[verifier::ext_equal]
pub struct EventModel {
    pub id: Seq<char>,
    pub source: Seq<char>,
    pub kind: Seq<char>,
    pub data: Seq<u8>,
}

/// The members of the object that the schema writes an event as.
pub open spec fn event_members(event: EventModel) -> Seq<(Seq<char>, Tree)> {
    seq![
        ("specversion"@, Tree::Text("1.0"@)),
        ("type"@, Tree::Text(event.kind)),
        ("source"@, Tree::Text(event.source)),
        ("id"@, Tree::Text(event.id)),
        ("data_base64"@, Tree::Text(base64::encoded(event.data))),
    ]
}

/// The event as the schema writes it.
pub open spec fn event_json(event: EventModel) -> Tree {
    Tree::Object(crate::json::object_of(event_members(event)))
}

/// The data of the event that `tree` writes.
pub open spec fn data_of(tree: Tree) -> Result<Seq<u8>, Failure> {
    match tree.member("data_base64"@) {
        Tree::Text(text) => match base64::decoded(text) {
            Ok(data) => Ok(data),
            Err(malformed) => Err(
                crate::error::lasting(
                    "data_base64 that is not base64: "@ + base64::words(malformed),
                ),
            ),
        },
        Tree::Null => match tree.member("data"@) {
            Tree::Text(text) => Ok(vstd::utf8::encode_utf8(text)),
            Tree::Null => Ok(Seq::empty()),
            other => Ok(vstd::utf8::encode_utf8(crate::json::json_write(other))),
        },
        _ => Err(
            crate::error::lasting("data_base64 that is not base64: a value that is not text"@),
        ),
    }
}

/// The text of the field `name` of the event that `tree` writes.
pub open spec fn field_of(tree: Tree, name: Seq<char>) -> Result<Seq<char>, Failure> {
    match tree.member(name).text() {
        Some(text) => Ok(text),
        None => Err(crate::error::lasting("an event with no "@ + name)),
    }
}

/// The event that `tree` writes around `data`.
pub open spec fn event_around(tree: Tree, data: Seq<u8>) -> Result<EventModel, Failure> {
    match (field_of(tree, "id"@), field_of(tree, "source"@), field_of(tree, "type"@)) {
        (Err(failure), _, _) => Err(failure),
        (_, Err(failure), _) => Err(failure),
        (_, _, Err(failure)) => Err(failure),
        (Ok(id), Ok(source), Ok(kind)) => Ok(EventModel { id, source, kind, data }),
    }
}

/// The event that `tree` writes, or why it is not one.
pub open spec fn event_of(tree: Tree) -> Result<EventModel, Failure> {
    if tree.member("specversion"@).text() != Some("1.0"@) {
        Err(crate::error::lasting("an event that is not CloudEvents 1.0"@))
    } else {
        match data_of(tree) {
            Err(failure) => Err(failure),
            Ok(data) => event_around(tree, data),
        }
    }
}

/// One event.
#[derive(Debug, PartialEq, Eq)]
pub struct CloudEvent {
    pub id: String,
    pub source: String,
    pub kind: String,
    pub data: Vec<u8>,
}

impl View for CloudEvent {
    type V = EventModel;

    open spec fn view(&self) -> EventModel {
        EventModel { id: self.id@, source: self.source@, kind: self.kind@, data: self.data@ }
    }
}

impl Clone for CloudEvent {
    fn clone(&self) -> (event: Self)
        ensures
            event@ == self@,
    {
        Self {
            id: self.id.clone(),
            source: self.source.clone(),
            kind: self.kind.clone(),
            data: vstd::slice::slice_to_vec(self.data.as_slice()),
        }
    }
}

/// The text of the field `name` of `value`.
fn field(value: &Json, name: &str) -> (text: Result<String, TransportError>)
    ensures
        field_of(value@, name@) == match text {
            Ok(text) => Ok::<Seq<char>, Failure>(text@),
            Err(error) => Err(error@),
        },
{
    match value.member_text(name) {
        Some(text) => Ok(text.clone()),
        None => {
            let mut message = "an event with no ".to_owned();
            message.append(name);
            Err(protocol_error(message.as_str()))
        },
    }
}

impl CloudEvent {
    /// A Stream as an event from `source`, made in the second `secs`, under
    /// a fresh id of `ids`.
    #[must_use]
    pub fn stream(source: &str, data: &[u8], ids: &mut Ids, secs: u64) -> (event: Self)
        ensures
            event@ == stream_of(source@, data@, secs, old(ids)@),
            final(ids)@ == counted(old(ids)@),
    {
        Self {
            id: ids.fresh(secs),
            source: source.to_owned(),
            kind: STREAM_TYPE.to_owned(),
            data: vstd::slice::slice_to_vec(data),
        }
    }

    /// The event as the schema writes it.
    #[must_use]
    pub fn to_json(&self) -> (json: Json)
        ensures
            json@ == event_json(self@),
    {
        let mut members: Vec<(String, Json)> = Vec::new();
        members.push(("specversion".to_owned(), Json::Text("1.0".to_owned())));
        members.push(("type".to_owned(), Json::Text(self.kind.clone())));
        members.push(("source".to_owned(), Json::Text(self.source.clone())));
        members.push(("id".to_owned(), Json::Text(self.id.clone())));
        members.push(
            ("data_base64".to_owned(), Json::Text(base64::encode(self.data.as_slice()))),
        );
        assert(crate::json::named_trees(members@) =~= event_members(self@));
        Json::Object(members)
    }

    /// The event `value` writes around `data`: its id, its source and its
    /// type.
    ///
    /// # Errors
    /// Where one of them is not there, or not text.
    pub fn around(value: &Json, data: Vec<u8>) -> (event: Result<Self, TransportError>)
        ensures
            event_around(value@, data@) == match event {
                Ok(event) => Ok::<EventModel, Failure>(event@),
                Err(error) => Err(error@),
            },
    {
        let id = match field(value, "id") {
            Ok(id) => id,
            Err(error) => return Err(error),
        };
        let source = match field(value, "source") {
            Ok(source) => source,
            Err(error) => return Err(error),
        };
        let kind = match field(value, "type") {
            Ok(kind) => kind,
            Err(error) => return Err(error),
        };
        Ok(Self { id, source, kind, data })
    }

    /// The event `value` writes, or why it is not one.
    ///
    /// # Errors
    /// Where `value` is not a `CloudEvent`: no `specversion` 1.0, no id, no
    /// source, no type, or `data_base64` that is not base64, be it text or
    /// another value.
    pub fn from_json(value: &Json) -> (event: Result<Self, TransportError>)
        ensures
            event_of(value@) == match event {
                Ok(event) => Ok::<EventModel, Failure>(event@),
                Err(error) => Err(error@),
            },
    {
        let current = match value.member_text("specversion") {
            Some(version) => same(version.as_str(), "1.0"),
            None => false,
        };
        if !current {
            return Err(protocol_error("an event that is not CloudEvents 1.0"));
        }
        let data: Vec<u8> = match value.member("data_base64") {
            Some(Json::Text(text)) => match base64::decode(text.as_str()) {
                Ok(data) => data,
                Err(malformed) => {
                    let mut message = "data_base64 that is not base64: ".to_owned();
                    message.append(malformed.message());
                    return Err(protocol_error(message.as_str()));
                },
            },
            None | Some(Json::Null) => match value.member("data") {
                Some(Json::Text(text)) => text.as_str().as_bytes_vec(),
                None | Some(Json::Null) => Vec::new(),
                Some(other) => other.write().as_str().as_bytes_vec(),
            },
            Some(_) => {
                return Err(
                    protocol_error("data_base64 that is not base64: a value that is not text"),
                );
            },
        };
        Self::around(value, data)
    }

    /// The event as an origin names it: its source with its id as the
    /// fragment.
    #[must_use]
    pub fn origin(&self) -> (origin: String)
        ensures
            origin@ == origin_of(self@),
    {
        let mut origin = self.source.clone();
        origin.push('#');
        origin.append(self.id.as_str());
        origin
    }
}

/// The origin that names an event: its source with its id as the fragment.
pub open spec fn origin_of(event: EventModel) -> Seq<char> {
    event.source.push('#') + event.id
}

/// The id of the event made in the second `secs`, as the `count`th.
pub open spec fn id_of(secs: u64, count: u64) -> Seq<char> {
    crate::text::numeral(secs as nat, 16).push('-') + crate::text::numeral(count as nat, 16)
}

/// The id of the event made in the second `secs`, as the `count`th.
pub fn fresh_id(secs: u64, count: u64) -> (id: String)
    ensures
        id@ == id_of(secs, count),
{
    let mut id = hexadecimal(secs);
    id.push('-');
    id.append(hexadecimal(count).as_str());
    id
}

/// The event that carries `data` as a Stream from `source`, made in the second
/// `secs`, as the `count`th.
pub open spec fn stream_of(
    source: Seq<char>,
    data: Seq<u8>,
    secs: u64,
    count: u64,
) -> EventModel {
    EventModel { id: id_of(secs, count), source, kind: STREAM_TYPE@, data }
}

/// The count behind `count`: one more, and from the largest back to zero.
pub open spec fn counted(count: u64) -> u64 {
    if count == u64::MAX {
        0
    } else {
        (count + 1) as u64
    }
}

/// The count that `count` has come to once `ids` more have been given.
pub open spec fn later(count: u64, ids: nat) -> u64
    decreases ids,
{
    if ids == 0 {
        count
    } else {
        later(counted(count), (ids - 1) as nat)
    }
}

/// The ids that are given from `count` on, one in each of the seconds
/// `moments`, in that order.
pub open spec fn given(count: u64, moments: Seq<u64>) -> Seq<Seq<char>>
    decreases moments.len(),
{
    if moments.len() == 0 {
        Seq::empty()
    } else {
        seq![id_of(moments[0], count)] + given(counted(count), moments.drop_first())
    }
}

/// The ids of a process: the count that the next of them carries.
#[derive(Debug)]
pub struct Ids {
    next: u64,
}

impl View for Ids {
    type V = u64;

    closed spec fn view(&self) -> u64 {
        self.next
    }
}

impl Ids {
    /// No id given yet: the first carries the count one.
    #[must_use]
    pub fn new() -> (ids: Self)
        ensures
            ids@ == 1,
    {
        Self { next: 1 }
    }

    /// An id no other event from this process carries: the moment and a
    /// count.
    pub fn fresh(&mut self, secs: u64) -> (id: String)
        ensures
            id@ == id_of(secs, old(self)@),
            final(self)@ == counted(old(self)@),
    {
        let count: u64 = self.next;
        self.next = if count == u64::MAX {
            0
        } else {
            count + 1
        };
        fresh_id(secs, count)
    }
}

/// The names an event is written under differ from each other.
proof fn lemma_event_members(event: EventModel)
    ensures
        crate::json::distinct(event_members(event)),
{
    reveal_strlit("specversion");
    reveal_strlit("type");
    reveal_strlit("source");
    reveal_strlit("id");
    reveal_strlit("data_base64");
    let members = event_members(event);
    assert forall|a: int, b: int| 0 <= a < b < members.len() implies (#[trigger] members[a]).0 != (
    #[trigger] members[b]).0 by {
        if a == 0 && b == 4 {
            assert(members[0].0[0] != members[4].0[0]);
        } else {
            assert(members[a].0.len() != members[b].0.len());
        }
    }
}

/// An event is written as an object of texts, which `Json::write` writes so
/// that it is read back.
pub proof fn lemma_event_plain(event: EventModel)
    ensures
        forall|depth: nat| depth > 0 ==> #[trigger] event_json(event).plain(depth),
{
    lemma_event_members(event);
    crate::json::lemma_texts_plain(event_members(event));
}

/// The id, the source and the type of `event` stand in its text as they are:
/// none holds a control character, a quote or a backslash.
pub open spec fn ordinary(event: EventModel) -> bool {
    &&& crate::json::verbatim(event.id)
    &&& crate::json::verbatim(event.source)
    &&& crate::json::verbatim(event.kind)
}

/// The bytes of the text of an ordinary `event` that are not its data.
pub open spec fn envelope_of(event: EventModel) -> int {
    68 + crate::json::bytes_in(event.id) + crate::json::bytes_in(event.source)
        + crate::json::bytes_in(event.kind)
}

/// The text of `event` but for its data is within what is kept for it.
pub open spec fn enveloped(event: EventModel) -> bool {
    ordinary(event) && envelope_of(event) <= ENVELOPE
}

/// The text of an ordinary event is its envelope and the base64 of its data.
pub proof fn lemma_event_size(event: EventModel, text: Seq<char>)
    requires
        ordinary(event),
        crate::json::sized(text, event_json(event)),
    ensures
        crate::json::bytes_in(text) == envelope_of(event) + base64::encoded(event.data).len(),
{
    let members = event_members(event);
    lemma_event_members(event);
    reveal_strlit("specversion");
    reveal_strlit("1.0");
    reveal_strlit("type");
    reveal_strlit("source");
    reveal_strlit("id");
    reveal_strlit("data_base64");
    base64::lemma_encoded_verbatim(event.data);
    broadcast use vstd::utf8::is_ascii_chars_encode_utf8;

    assert(vstd::utf8::is_ascii_chars("specversion"@));
    assert(vstd::utf8::is_ascii_chars("1.0"@));
    assert(vstd::utf8::is_ascii_chars("type"@));
    assert(vstd::utf8::is_ascii_chars("source"@));
    assert(vstd::utf8::is_ascii_chars("id"@));
    assert(vstd::utf8::is_ascii_chars("data_base64"@));
    assert forall|at: int| 0 <= at < members.len() implies crate::json::verbatim_text(
        #[trigger] members[at],
    ) by {}
    assert(crate::json::bytes_in(text) == crate::json::texts_size(members));
    reveal_with_fuel(crate::json::texts_size, 6);
}

/// A fresh id is at most 33 bytes, and stands in JSON as it is.
pub proof fn lemma_fresh_id(secs: u64, count: u64)
    ensures
        crate::json::verbatim(id_of(secs, count)),
        crate::json::bytes_in(id_of(secs, count)) <= 33,
{
    let id = id_of(secs, count);
    crate::text::lemma_numeral(secs as nat, 16);
    crate::text::lemma_numeral(count as nat, 16);
    assert(vstd::arithmetic::power::pow(16, 16) == 0x1_0000_0000_0000_0000int) by {
        reveal(vstd::arithmetic::power::pow);
        reveal_with_fuel(vstd::arithmetic::power::pow, 17);
    }
    crate::text::lemma_numeral_len(secs as nat, 16, 16);
    crate::text::lemma_numeral_len(count as nat, 16, 16);
    assert(vstd::utf8::is_ascii_chars(id));
    vstd::utf8::is_ascii_chars_encode_utf8(id);
}

/// A source of ordinary length leaves the envelope within its share: the event
/// that carries a Stream from a source of at most 909 bytes, which stands in
/// JSON as it is, under a fresh id, is enveloped.
pub proof fn law_ordinary_source_is_enveloped(
    source: Seq<char>,
    data: Seq<u8>,
    secs: u64,
    count: u64,
)
    requires
        crate::json::verbatim(source),
        crate::json::bytes_in(source) <= 909,
    ensures
        enveloped(stream_of(source, data, secs, count)),
{
    reveal_strlit("se.xmip.stream");
    assert(vstd::utf8::is_ascii_chars(STREAM_TYPE@));
    vstd::utf8::is_ascii_chars_encode_utf8(STREAM_TYPE@);
    lemma_fresh_id(secs, count);
}

/// An event that is written reads back whole, whatever its fields and its
/// bytes are.
pub proof fn law_event_reads_back(event: EventModel)
    ensures
        event_of(event_json(event)) == Ok::<EventModel, Failure>(event),
{
    let members = event_members(event);
    let tree = event_json(event);
    lemma_event_members(event);
    crate::json::lemma_object_of(members);
    assert(tree.member(members[0].0) == members[0].1);
    assert(tree.member(members[1].0) == members[1].1);
    assert(tree.member(members[2].0) == members[2].1);
    assert(tree.member(members[3].0) == members[3].1);
    assert(tree.member(members[4].0) == members[4].1);
    base64::lemma_decoded_encoded(event.data);
}

/// Two events are written alike only where they are the same event.
pub proof fn law_event_json_injective(a: EventModel, b: EventModel)
    requires
        event_json(a) == event_json(b),
    ensures
        a == b,
{
    law_event_reads_back(a);
    law_event_reads_back(b);
}

/// The ids of two events are the same only where the moment and the count
/// are.
pub proof fn law_fresh_ids_differ(secs: u64, count: u64, other_secs: u64, other_count: u64)
    requires
        id_of(secs, count) == id_of(other_secs, other_count),
    ensures
        secs == other_secs,
        count == other_count,
{
    let (a, b) = (
        crate::text::numeral(secs as nat, 16),
        crate::text::numeral(other_secs as nat, 16),
    );
    let (c, d) = (
        crate::text::numeral(count as nat, 16),
        crate::text::numeral(other_count as nat, 16),
    );
    let id = id_of(secs, count);
    crate::text::lemma_numeral(secs as nat, 16);
    crate::text::lemma_numeral(other_secs as nat, 16);
    assert(id[a.len() as int] == '-');
    assert(id[b.len() as int] == '-');
    if a.len() < b.len() {
        assert(id[a.len() as int] == b[a.len() as int]);
        assert(b.contains('-'));
    }
    if b.len() < a.len() {
        assert(id[b.len() as int] == a[b.len() as int]);
        assert(a.contains('-'));
    }
    assert(a =~= id.take(a.len() as int));
    assert(b =~= id.take(a.len() as int));
    assert(c =~= id.skip(a.len() as int + 1));
    assert(d =~= id.skip(a.len() as int + 1));
    crate::text::lemma_numeral_injective(secs as nat, other_secs as nat, 16);
    crate::text::lemma_numeral_injective(count as nat, other_count as nat, 16);
}

/// The count moves on by one for each id, around the whole of `u64`.
proof fn lemma_later(count: u64, ids: nat)
    ensures
        later(count, ids) == (count + ids) % 0x1_0000_0000_0000_0000,
    decreases ids,
{
    if ids > 0 {
        lemma_later(counted(count), (ids - 1) as nat);
    }
}

/// What the count has come to after some ids, and then after more, it has come
/// to after all of them.
proof fn lemma_later_still(count: u64, ids: nat, more: nat)
    ensures
        later(later(count, ids), more) == later(count, ids + more),
    decreases ids,
{
    if ids > 0 {
        lemma_later_still(counted(count), (ids - 1) as nat, more);
    }
}

/// Each of the ids that are given carries the count of those before it.
proof fn lemma_given(count: u64, moments: Seq<u64>)
    ensures
        given(count, moments).len() == moments.len(),
        forall|at: int|
            0 <= at < moments.len() ==> #[trigger] given(count, moments)[at] == id_of(
                moments[at],
                later(count, at as nat),
            ),
    decreases moments.len(),
{
    if moments.len() > 0 {
        let rest = moments.drop_first();
        lemma_given(counted(count), rest);
        assert forall|at: int| 0 <= at < moments.len() implies #[trigger] given(count, moments)[at]
            == id_of(moments[at], later(count, at as nat)) by {
            if at > 0 {
                assert(given(count, moments)[at] == given(counted(count), rest)[at - 1]);
            }
        }
    }
}

/// An id is not given again, whatever the moment, before the count has gone
/// all the way around.
proof fn lemma_later_id_differs(count: u64, ids: nat, secs: u64, other_secs: u64)
    requires
        0 < ids < 0x1_0000_0000_0000_0000,
    ensures
        id_of(secs, count) != id_of(other_secs, later(count, ids)),
{
    lemma_later(count, ids);
    if id_of(secs, count) == id_of(other_secs, later(count, ids)) {
        law_fresh_ids_differ(secs, count, other_secs, later(count, ids));
    }
}

/// No id is given twice, even within one second or once the clock went back:
/// of as many ids as there are counts, no two are the same.
pub proof fn law_no_id_is_given_twice(count: u64, moments: Seq<u64>)
    requires
        moments.len() <= 0x1_0000_0000_0000_0000,
    ensures
        given(count, moments).len() == moments.len(),
        given(count, moments).no_duplicates(),
{
    let ids = given(count, moments);
    lemma_given(count, moments);
    assert forall|a: int, b: int| 0 <= a < b < ids.len() implies ids[a] != ids[b] by {
        let (first, more) = (a as nat, (b - a) as nat);
        lemma_later_still(count, first, more);
        lemma_later_id_differs(later(count, first), more, moments[a], moments[b]);
    }
}

/// Two Streams are not events of one id, equal though they be, before the count
/// has gone all the way around: one is made first, and `ids` ids, its own and
/// those in between, are given before the other's.
pub proof fn law_streams_carry_different_ids(
    count: u64,
    ids: nat,
    source: Seq<char>,
    data: Seq<u8>,
    secs: u64,
    other_source: Seq<char>,
    other_data: Seq<u8>,
    other_secs: u64,
)
    requires
        0 < ids < 0x1_0000_0000_0000_0000,
    ensures
        stream_of(source, data, secs, count).id != stream_of(
            other_source,
            other_data,
            other_secs,
            later(count, ids),
        ).id,
{
    lemma_later_id_differs(count, ids, secs, other_secs);
}

/// An event that is read has no `data_base64`, or has the base64 of its bytes
/// there: nothing else under that name is taken, or passed over.
pub proof fn law_data_base64_is_base64(tree: Tree)
    ensures
        event_of(tree) matches Ok(event) ==> (tree.member("data_base64"@) is Null || tree.member(
            "data_base64"@,
        ) == Tree::Text(base64::encoded(event.data))),
{
    if let Tree::Text(text) = tree.member("data_base64"@) {
        base64::lemma_encoded_decoded(text);
    }
}

/// An event is written as an object of five texts: the version of the schema,
/// its type, its source and its id as they are, and its bytes as base64.
pub proof fn law_event_is_written_as_five_texts(event: EventModel)
    ensures
        event_json(event) matches Tree::Object(held) && {
            &&& held.dom() == set![
                "specversion"@,
                "type"@,
                "source"@,
                "id"@,
                "data_base64"@,
            ]
            &&& held["specversion"@] == Tree::Text("1.0"@)
            &&& held["type"@] == Tree::Text(event.kind)
            &&& held["source"@] == Tree::Text(event.source)
            &&& held["id"@] == Tree::Text(event.id)
            &&& held["data_base64"@] == Tree::Text(base64::encoded(event.data))
        },
{
    let members = event_members(event);
    let held = crate::json::object_of(members);
    lemma_event_members(event);
    crate::json::lemma_object_of(members);
    crate::json::lemma_object_of_names(members);
    let names = set!["specversion"@, "type"@, "source"@, "id"@, "data_base64"@];
    assert(members[0].0 == "specversion"@ && members[1].0 == "type"@ && members[2].0 == "source"@
        && members[3].0 == "id"@ && members[4].0 == "data_base64"@);
    assert forall|name: Seq<char>| held.dom().contains(name) implies names.contains(name) by {
        assert(held.contains_key(name));
        let at = choose|at: int| 0 <= at < members.len() && (#[trigger] members[at]).0 == name;
        assert(at == 0 || at == 1 || at == 2 || at == 3 || at == 4);
    }
    assert(held.dom() =~= names);
}

/// `tree` is an object of the schema's version that names an event's id, source
/// and type.
pub open spec fn names_an_event(
    tree: Tree,
    id: Seq<char>,
    source: Seq<char>,
    kind: Seq<char>,
) -> bool {
    &&& crate::json::says(tree, "specversion"@, "1.0"@)
    &&& crate::json::says(tree, "id"@, id)
    &&& crate::json::says(tree, "source"@, source)
    &&& crate::json::says(tree, "type"@, kind)
}

/// Text that another publisher wrote as `data` is read as its UTF-8, whatever
/// it looks like.
pub proof fn law_text_is_read_as_its_utf8(
    tree: Tree,
    id: Seq<char>,
    source: Seq<char>,
    kind: Seq<char>,
    text: Seq<char>,
)
    requires
        names_an_event(tree, id, source, kind),
        crate::json::silent(tree, "data_base64"@),
        crate::json::says(tree, "data"@, text),
    ensures
        event_of(tree) == Ok::<EventModel, Failure>(
            EventModel { id, source, kind, data: vstd::utf8::encode_utf8(text) },
        ),
{
}

/// An event with no data, or null, is read as one of no bytes.
pub proof fn law_no_data_is_no_bytes(
    tree: Tree,
    id: Seq<char>,
    source: Seq<char>,
    kind: Seq<char>,
)
    requires
        names_an_event(tree, id, source, kind),
        crate::json::silent(tree, "data_base64"@),
        crate::json::silent(tree, "data"@),
    ensures
        event_of(tree) == Ok::<EventModel, Failure>(
            EventModel { id, source, kind, data: Seq::empty() },
        ),
{
}

/// Any other JSON that another publisher wrote as `data` is read as its text,
/// all of it.
pub proof fn law_other_json_is_read_as_its_text(
    tree: Tree,
    id: Seq<char>,
    source: Seq<char>,
    kind: Seq<char>,
    other: Tree,
)
    requires
        names_an_event(tree, id, source, kind),
        crate::json::silent(tree, "data_base64"@),
        tree matches Tree::Object(held) && held.contains_key("data"@) && held["data"@] == other,
        !(other is Null),
        !(other is Text),
    ensures
        event_of(tree) == Ok::<EventModel, Failure>(
            EventModel {
                id,
                source,
                kind,
                data: vstd::utf8::encode_utf8(crate::json::json_write(other)),
            },
        ),
{
}

/// The base64 of bytes under `data_base64` is read as those bytes, whatever
/// stands under `data`.
pub proof fn law_base64_is_read_as_its_bytes(
    tree: Tree,
    id: Seq<char>,
    source: Seq<char>,
    kind: Seq<char>,
    data: Seq<u8>,
)
    requires
        names_an_event(tree, id, source, kind),
        crate::json::says(tree, "data_base64"@, base64::encoded(data)),
    ensures
        event_of(tree) == Ok::<EventModel, Failure>(EventModel { id, source, kind, data }),
{
    base64::lemma_decoded_encoded(data);
}

/// What stands under `data_base64`, and is neither null nor the base64 of any
/// bytes, is why the event is refused, whatever else it says.
pub proof fn law_what_is_not_base64_is_refused(tree: Tree, held: Map<Seq<char>, Tree>)
    requires
        tree == Tree::Object(held),
        crate::json::says(tree, "specversion"@, "1.0"@),
        held.contains_key("data_base64"@),
        !(held["data_base64"@] is Null),
        forall|data: Seq<u8>|
            held["data_base64"@] != Tree::Text(#[trigger] base64::encoded(data)),
    ensures
        event_of(tree) matches Err(failure) && !failure.retryable
            && "data_base64 that is not base64: "@.is_prefix_of(failure.message),
{
    reveal_strlit("data_base64 that is not base64: ");
    reveal_strlit("data_base64 that is not base64: a value that is not text");
    let start = "data_base64 that is not base64: "@;
    if let Tree::Text(text) = held["data_base64"@] {
        base64::lemma_encoded_decoded(text);
        if let Err(malformed) = base64::decoded(text) {
            let message = start + base64::words(malformed);
            assert(message.take(start.len() as int) =~= start);
        }
    } else {
        let message = "data_base64 that is not base64: a value that is not text"@;
        assert(message.take(start.len() as int) =~= start);
    }
}

/// What is not of the schema's version is no event, whatever else it says.
pub proof fn law_another_version_is_refused(tree: Tree)
    requires
        !crate::json::says(tree, "specversion"@, "1.0"@),
    ensures
        event_of(tree) == Err::<EventModel, Failure>(
            Failure { message: "an event that is not CloudEvents 1.0"@, retryable: false },
        ),
{
    match tree {
        Tree::Object(held) => {
            if held.contains_key("specversion"@) {
                if let Tree::Text(text) = held["specversion"@] {
                    assert(text != "1.0"@);
                }
            }
        },
        _ => {},
    }
}

/// No text stands in `tree` under `name`.
pub open spec fn unsaid(tree: Tree, name: Seq<char>) -> bool {
    forall|text: Seq<char>| !#[trigger] crate::json::says(tree, name, text)
}

proof fn lemma_unsaid(tree: Tree, name: Seq<char>)
    ensures
        unsaid(tree, name) ==> field_of(tree, name) == Err::<Seq<char>, Failure>(
            Failure { message: "an event with no "@ + name, retryable: false },
        ),
        !unsaid(tree, name) ==> field_of(tree, name) is Ok && crate::json::says(
            tree,
            name,
            field_of(tree, name)->Ok_0,
        ),
{
    if unsaid(tree, name) {
        if let Tree::Text(text) = tree.member(name) {
            assert(crate::json::says(tree, name, text));
        }
    } else {
        let text = choose|text: Seq<char>| #[trigger] crate::json::says(tree, name, text);
        assert(tree.member(name) == Tree::Text(text));
    }
}

/// An event takes its id, its source and its type as they are written, and is
/// refused for the first of them that is not.
pub proof fn law_an_event_names_id_source_and_type(tree: Tree, data: Seq<u8>)
    ensures
        match event_around(tree, data) {
            Ok(event) => {
                &&& crate::json::says(tree, "id"@, event.id)
                &&& crate::json::says(tree, "source"@, event.source)
                &&& crate::json::says(tree, "type"@, event.kind)
                &&& event.data == data
            },
            Err(failure) => !failure.retryable && if unsaid(tree, "id"@) {
                failure.message == "an event with no id"@
            } else if unsaid(tree, "source"@) {
                failure.message == "an event with no source"@
            } else {
                unsaid(tree, "type"@) && failure.message == "an event with no type"@
            },
        },
        event_of(tree) matches Ok(event) ==> {
            &&& crate::json::says(tree, "specversion"@, "1.0"@)
            &&& crate::json::says(tree, "id"@, event.id)
            &&& crate::json::says(tree, "source"@, event.source)
            &&& crate::json::says(tree, "type"@, event.kind)
        },
{
    lemma_unsaid(tree, "id"@);
    lemma_unsaid(tree, "source"@);
    lemma_unsaid(tree, "type"@);
    reveal_strlit("an event with no ");
    reveal_strlit("an event with no id");
    reveal_strlit("an event with no source");
    reveal_strlit("an event with no type");
    reveal_strlit("id");
    reveal_strlit("source");
    reveal_strlit("type");
    assert("an event with no "@ + "id"@ =~= "an event with no id"@);
    assert("an event with no "@ + "source"@ =~= "an event with no source"@);
    assert("an event with no "@ + "type"@ =~= "an event with no type"@);
    if event_of(tree) is Ok {
        assert(crate::json::says(tree, "specversion"@, "1.0"@)) by {
            if !crate::json::says(tree, "specversion"@, "1.0"@) {
                law_another_version_is_refused(tree);
            }
        }
    }
}

/// An event whose data is read, and which does not name its id, its source or
/// its type, is refused for the first of them.
pub proof fn law_an_event_without_a_name_is_refused(tree: Tree, data: Seq<u8>)
    requires
        crate::json::says(tree, "specversion"@, "1.0"@),
        crate::json::silent(tree, "data_base64"@) || crate::json::says(
            tree,
            "data_base64"@,
            base64::encoded(data),
        ),
        unsaid(tree, "id"@) || unsaid(tree, "source"@) || unsaid(tree, "type"@),
    ensures
        event_of(tree) == Err::<EventModel, Failure>(
            Failure {
                message: if unsaid(tree, "id"@) {
                    "an event with no id"@
                } else if unsaid(tree, "source"@) {
                    "an event with no source"@
                } else {
                    "an event with no type"@
                },
                retryable: false,
            },
        ),
{
    lemma_unsaid(tree, "id"@);
    lemma_unsaid(tree, "source"@);
    lemma_unsaid(tree, "type"@);
    base64::lemma_decoded_encoded(data);
    assert(data_of(tree) is Ok);
    law_an_event_names_id_source_and_type(tree, data_of(tree)->Ok_0);
}

/// An origin is the event's source, a hash and its id, and an id is the second
/// and the count in hexadecimal, a dash between them.
pub proof fn law_an_event_is_named_by_source_and_id(event: EventModel, secs: u64, count: u64)
    ensures
        origin_of(event) == event.source + "#"@ + event.id,
        id_of(secs, count) == crate::text::numeral(secs as nat, 16) + "-"@ + crate::text::numeral(
            count as nat,
            16,
        ),
{
    reveal_strlit("#");
    reveal_strlit("-");
    assert(origin_of(event) =~= event.source + "#"@ + event.id);
    assert(id_of(secs, count) =~= crate::text::numeral(secs as nat, 16) + "-"@
        + crate::text::numeral(count as nat, 16));
}

/// A Stream becomes an event of its own source and its own bytes, of one type,
/// and the count behind it is the next.
pub proof fn law_a_stream_is_carried_as_it_is(
    source: Seq<char>,
    data: Seq<u8>,
    secs: u64,
    count: u64,
)
    ensures
        stream_of(source, data, secs, count).source == source,
        stream_of(source, data, secs, count).data == data,
        stream_of(source, data, secs, count).kind == "se.xmip.stream"@,
        stream_of(source, data, secs, count).id == id_of(secs, count),
        counted(count) == (count + 1) % 0x1_0000_0000_0000_0000,
{
}

/// An event says what it holds.
pub proof fn law_an_event_says_what_it_holds(event: CloudEvent)
    ensures
        event@.id == event.id@,
        event@.source == event.source@,
        event@.kind == event.kind@,
        event@.data == event.data@,
{
}

} // verus!
