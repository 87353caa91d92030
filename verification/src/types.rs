//! Protocol messages, responses and errors.

use vstd::prelude::*;
use vstd::string::*;

use crate::codec::{json_text, parsed_json, readable, reads_as};
use crate::event::{event_json, event_of, law_event_round_trip, number_json};
use crate::event::{tags_json, texts_json};
use crate::filter::{condition_members, filter_json, filter_views};
use crate::json::{item_views, law_objects_have_their_members, Json, JsonView, NumberView};
use crate::text::same_text;

pub use crate::event::{NostrEvent, NostrEventView};
pub use crate::filter::{Filter, FilterView, TagFilters};

verus! {

// ---------------------------------------------------------------------------
// Outbound messages (client to relay)
// ---------------------------------------------------------------------------

/// All messages the client can send to a relay.
#[derive(Debug, Clone)]
pub enum ClientMessage {
    /// `["REQ", <id>, <filter>, ...]`
    Req { id: String, filters: Vec<Filter> },
    /// `["CLOSE", <id>]`
    Close { id: String },
    /// `["EVENT", <event>]`
    Event(NostrEvent),
    /// `["AUTH", <event>]`, of NIP-42
    Auth(NostrEvent),
    /// `["COUNT", <id>, <filter>, ...]`, of NIP-45
    Count { id: String, filters: Vec<Filter> },
}

/// The mathematical value of a [`ClientMessage`].
#[verifier::ext_equal]
pub enum ClientMessageView {
    Req { id: Seq<char>, filters: Seq<FilterView> },
    Close { id: Seq<char> },
    Event(NostrEventView),
    Auth(NostrEventView),
    Count { id: Seq<char>, filters: Seq<FilterView> },
}

impl View for ClientMessage {
    type V = ClientMessageView;

    open spec fn view(&self) -> ClientMessageView {
        match self {
            ClientMessage::Req { id, filters } => ClientMessageView::Req {
                id: id@,
                filters: filter_views(filters@),
            },
            ClientMessage::Close { id } => ClientMessageView::Close { id: id@ },
            ClientMessage::Event(event) => ClientMessageView::Event(event@),
            ClientMessage::Auth(event) => ClientMessageView::Auth(event@),
            ClientMessage::Count { id, filters } => ClientMessageView::Count {
                id: id@,
                filters: filter_views(filters@),
            },
        }
    }
}

/// The array of a verb, an identifier and any number of filters.
pub open spec fn id_filters_json(
    verb: Seq<char>,
    id: Seq<char>,
    filters: Seq<FilterView>,
) -> JsonView {
    JsonView::Array(
        seq![JsonView::Str(verb), JsonView::Str(id)] + Seq::new(
            filters.len(),
            |i: int| filter_json(filters[i]),
        ),
    )
}

/// The JSON array that stands for a message to the relay.
pub open spec fn client_message_json(message: ClientMessageView) -> JsonView {
    match message {
        ClientMessageView::Req { id, filters } => id_filters_json("REQ"@, id, filters),
        ClientMessageView::Close { id } => JsonView::Array(
            seq![JsonView::Str("CLOSE"@), JsonView::Str(id)],
        ),
        ClientMessageView::Event(event) => JsonView::Array(
            seq![JsonView::Str("EVENT"@), event_json(event)],
        ),
        ClientMessageView::Auth(event) => JsonView::Array(
            seq![JsonView::Str("AUTH"@), event_json(event)],
        ),
        ClientMessageView::Count { id, filters } => id_filters_json("COUNT"@, id, filters),
    }
}

proof fn lemma_texts_readable(texts: Seq<Seq<char>>, levels: nat)
    requires
        levels >= 1,
    ensures
        texts_json(texts).whole_numbers(),
        texts_json(texts).within_depth(levels),
{
    reveal_with_fuel(JsonView::whole_numbers, 2);
    reveal_with_fuel(JsonView::within_depth, 2);
}

proof fn lemma_event_readable(event: NostrEventView, levels: nat)
    requires
        levels >= 3,
    ensures
        event_json(event).whole_numbers(),
        event_json(event).within_depth(levels),
{
    let tags = tags_json(event.tags)->Array_0;
    assert forall|i: int| 0 <= i < tags.len() implies (#[trigger] tags[i]).whole_numbers()
        && tags[i].within_depth((levels - 2) as nat) by {
        lemma_texts_readable(event.tags[i], (levels - 2) as nat);
    }
    assert(tags_json(event.tags).whole_numbers());
    assert(tags_json(event.tags).within_depth((levels - 1) as nat));
    reveal_with_fuel(JsonView::whole_numbers, 2);
    reveal_with_fuel(JsonView::within_depth, 2);
}

proof fn lemma_filter_readable(filter: FilterView, levels: nat)
    requires
        levels >= 2,
        filter.tags.dom().finite(),
    ensures
        filter_json(filter).whole_numbers(),
        filter_json(filter).within_depth(levels),
{
    let members = filter_json(filter)->Object_0;
    let conditions = condition_members(filter);
    assert(conditions.dom().finite());
    assert(members.dom() =~= conditions.dom().union(filter.tags.dom()));
    assert forall|name: Seq<char>|
        members.dom().contains(name) implies (#[trigger] members[name]).whole_numbers()
        && members[name].within_depth((levels - 1) as nat) by {
        reveal_with_fuel(JsonView::whole_numbers, 2);
        reveal_with_fuel(JsonView::within_depth, 2);
        if filter.tags.dom().contains(name) {
            lemma_texts_readable(filter.tags[name], (levels - 1) as nat);
        }
    }
}

/// Every filter of a list of filters is readable.
proof fn lemma_id_filters_readable(verb: Seq<char>, id: Seq<char>, filters: Seq<Filter>)
    ensures
        readable(id_filters_json(verb, id, filter_views(filters))),
{
    let document = id_filters_json(verb, id, filter_views(filters));
    let items = document->Array_0;
    assert forall|i: int| 0 <= i < items.len() implies (#[trigger] items[i]).whole_numbers()
        && items[i].within_depth(126) by {
        if i >= 2 {
            let filter = filters[i - 2];
            filter.tags.lemma_finite();
            assert(items[i] == filter_json(filter@));
            lemma_filter_readable(filter@, 126);
        } else {
            assert(items[i] is Str);
        }
    }
}

/// Every message to the relay stands for a document that is readable once
/// written.
proof fn lemma_client_message_readable(message: ClientMessage)
    ensures
        readable(client_message_json(message@)),
{
    match message {
        ClientMessage::Req { id, filters } => lemma_id_filters_readable("REQ"@, id@, filters@),
        ClientMessage::Count { id, filters } => lemma_id_filters_readable("COUNT"@, id@, filters@),
        ClientMessage::Close { id } => {
            reveal_with_fuel(JsonView::whole_numbers, 2);
            reveal_with_fuel(JsonView::within_depth, 2);
        },
        ClientMessage::Event(event) | ClientMessage::Auth(event) => {
            lemma_event_readable(event@, 126);
            let items = client_message_json(message@)->Array_0;
            assert(items[0] is Str);
            assert(items[1] == event_json(event@));
            assert(forall|i: int|
                0 <= i < items.len() ==> (#[trigger] items[i]).whole_numbers()
                    && items[i].within_depth(126));
        },
    }
}

impl ClientMessage {
    /// The message as a JSON array.
    pub fn to_document(&self) -> (json: Json)
        ensures
            json@ == client_message_json(self@),
            json.writable(),
    {
        match self {
            ClientMessage::Req { id, filters } => serialize_id_filters("REQ", id.as_str(), filters),
            ClientMessage::Close { id } => pair_to_json("CLOSE", Json::Str(id.clone())),
            ClientMessage::Event(event) => pair_to_json("EVENT", event.to_document()),
            ClientMessage::Auth(event) => pair_to_json("AUTH", event.to_document()),
            ClientMessage::Count { id, filters } => serialize_id_filters(
                "COUNT",
                id.as_str(),
                filters,
            ),
        }
    }

    /// The message as the JSON text that goes to the relay.
    ///
    /// The text is valid JSON, and reads as the array that the message stands
    /// for.
    pub fn to_json(&self) -> (text: String)
        ensures
            text@ == json_text(client_message_json(self@)),
            reads_as(text@, client_message_json(self@)),
    {
        proof {
            lemma_client_message_readable(*self);
        }
        self.to_document().to_text()
    }
}

/// Builds the array of a verb and one more document.
fn pair_to_json(verb: &str, second: Json) -> (json: Json)
    requires
        second.writable(),
    ensures
        json@ == JsonView::Array(seq![JsonView::Str(verb@), second@]),
        json.writable(),
{
    let mut items: Vec<Json> = Vec::new();
    items.push(Json::Str(verb.to_owned()));
    items.push(second);
    proof {
        assert(item_views(items@) =~= seq![JsonView::Str(verb@), second@]);
        reveal_with_fuel(Json::writable, 2);
    }
    Json::Array(items)
}

/// Builds the array of a verb, an identifier and any number of filters.
fn serialize_id_filters(verb: &str, id: &str, filters: &Vec<Filter>) -> (json: Json)
    ensures
        json@ == id_filters_json(verb@, id@, filter_views(filters@)),
        json.writable(),
{
    let mut parts: Vec<Json> = Vec::new();
    parts.push(Json::Str(verb.to_owned()));
    parts.push(Json::Str(id.to_owned()));
    let mut i: usize = 0;
    while i < filters.len()
        invariant
            i <= filters.len(),
            parts@.len() == i + 2,
            parts@[0]@ == JsonView::Str(verb@),
            parts@[1]@ == JsonView::Str(id@),
            forall|j: int| 0 <= j < i ==> (#[trigger] parts@[j + 2])@ == filter_json(filters@[j]@),
            forall|j: int| 0 <= j < parts@.len() ==> (#[trigger] parts@[j]).writable(),
        decreases filters.len() - i,
    {
        let ghost before = parts@;
        parts.push(filters[i].to_document());
        proof {
            assert forall|j: int| 0 <= j < i + 1 implies (#[trigger] parts@[j + 2])@ == filter_json(
                filters@[j]@,
            ) by {
                if j < i {
                    assert(parts@[j + 2] == before[j + 2]);
                }
            }
        }
        i = i + 1;
    }
    proof {
        let items = id_filters_json(verb@, id@, filter_views(filters@))->Array_0;
        assert forall|j: int| 0 <= j < items.len() implies item_views(parts@)[j] == items[j] by {
            if j >= 2 {
                assert(parts@[(j - 2) + 2]@ == filter_json(filters@[j - 2]@));
            }
        }
        assert(item_views(parts@) =~= items);
    }
    Json::Array(parts)
}

// ---------------------------------------------------------------------------
// Inbound messages (relay to client)
// ---------------------------------------------------------------------------

/// Raw parsed relay message, before any subscription filtering.
#[derive(Debug, Clone)]
pub enum RelayMessage {
    /// `["EVENT", <sub-id>, <event>]`
    Event { sub_id: String, event: NostrEvent },
    /// `["EOSE", <sub-id>]`
    Eose { sub_id: String },
    /// `["CLOSED", <sub-id>, <reason>]`
    Closed { sub_id: String, reason: String },
    /// `["OK", <event-id>, <ok>, <message>]`
    OkReply { event_id: String, ok: bool, message: String },
    /// `["AUTH", <challenge>]`
    Auth { challenge: String },
    /// `["NOTICE", <message>]`
    Notice { message: String },
    /// `["COUNT", <sub-id>, {"count": N}]`
    Count { sub_id: String, count: u64 },
}

/// The mathematical value of a [`RelayMessage`].
#[verifier::ext_equal]
pub enum RelayMessageView {
    Event { sub_id: Seq<char>, event: NostrEventView },
    Eose { sub_id: Seq<char> },
    Closed { sub_id: Seq<char>, reason: Seq<char> },
    OkReply { event_id: Seq<char>, ok: bool, message: Seq<char> },
    Auth { challenge: Seq<char> },
    Notice { message: Seq<char> },
    Count { sub_id: Seq<char>, count: u64 },
}

impl View for RelayMessage {
    type V = RelayMessageView;

    open spec fn view(&self) -> RelayMessageView {
        match self {
            RelayMessage::Event { sub_id, event } => RelayMessageView::Event {
                sub_id: sub_id@,
                event: event@,
            },
            RelayMessage::Eose { sub_id } => RelayMessageView::Eose { sub_id: sub_id@ },
            RelayMessage::Closed { sub_id, reason } => RelayMessageView::Closed {
                sub_id: sub_id@,
                reason: reason@,
            },
            RelayMessage::OkReply { event_id, ok, message } => RelayMessageView::OkReply {
                event_id: event_id@,
                ok: *ok,
                message: message@,
            },
            RelayMessage::Auth { challenge } => RelayMessageView::Auth { challenge: challenge@ },
            RelayMessage::Notice { message } => RelayMessageView::Notice { message: message@ },
            RelayMessage::Count { sub_id, count } => RelayMessageView::Count {
                sub_id: sub_id@,
                count: *count,
            },
        }
    }
}

/// What is wrong with a frame that is no relay message.
#[derive(Debug, Clone)]
pub enum ParseError {
    /// The frame is no JSON text, or the event in it is malformed.
    Json(String),
    /// The message is not a JSON array.
    NotArray,
    /// The array does not begin with a string.
    MissingKind,
    /// A field is missing, or is not of the right kind.
    MissingField(&'static str),
    /// The kind of the message is not known.
    UnknownKind(String),
}

/// The mathematical value of a [`ParseError`].
#[verifier::ext_equal]
pub enum ParseErrorView {
    Json(Seq<char>),
    NotArray,
    MissingKind,
    MissingField(Seq<char>),
    UnknownKind(Seq<char>),
}

impl View for ParseError {
    type V = ParseErrorView;

    open spec fn view(&self) -> ParseErrorView {
        match self {
            ParseError::Json(message) => ParseErrorView::Json(message@),
            ParseError::NotArray => ParseErrorView::NotArray,
            ParseError::MissingKind => ParseErrorView::MissingKind,
            ParseError::MissingField(name) => ParseErrorView::MissingField(name@),
            ParseError::UnknownKind(kind) => ParseErrorView::UnknownKind(kind@),
        }
    }
}

/// What a frame stands for: a relay message, or the fault that it has.
pub type MessageResult = Result<RelayMessage, ParseError>;

/// The mathematical value of a [`MessageResult`].
pub type MessageResultView = Result<RelayMessageView, ParseErrorView>;

/// The view of a parse result.
pub open spec fn message_result_view(result: MessageResult) -> MessageResultView {
    match result {
        Ok(message) => Ok(message@),
        Err(error) => Err(error@),
    }
}

/// The text at a position of an array.
pub open spec fn text_at(items: Seq<JsonView>, at: int) -> Option<Seq<char>> {
    if 0 <= at < items.len() {
        items[at].as_str()
    } else {
        None
    }
}

/// The text at a position of an array, and the empty text where there is none.
pub open spec fn text_or_empty(items: Seq<JsonView>, at: int) -> Seq<char> {
    match text_at(items, at) {
        Some(text) => text,
        None => Seq::empty(),
    }
}

/// The boolean at a position of an array.
pub open spec fn bool_at(items: Seq<JsonView>, at: int) -> Option<bool> {
    if 0 <= at < items.len() {
        items[at].as_bool()
    } else {
        None
    }
}

/// An `EVENT` message.
pub open spec fn event_message(items: Seq<JsonView>) -> MessageResultView {
    match text_at(items, 1) {
        None => Err(ParseErrorView::MissingField("sub_id"@)),
        Some(sub_id) => if items.len() <= 2 {
            Err(ParseErrorView::MissingField("event"@))
        } else {
            match event_of(items[2]) {
                Err(message) => Err(ParseErrorView::Json(message)),
                Ok(event) => Ok(RelayMessageView::Event { sub_id, event }),
            }
        },
    }
}

/// An `EOSE` message.
pub open spec fn eose_message(items: Seq<JsonView>) -> MessageResultView {
    match text_at(items, 1) {
        None => Err(ParseErrorView::MissingField("sub_id"@)),
        Some(sub_id) => Ok(RelayMessageView::Eose { sub_id }),
    }
}

/// A `CLOSED` message. The reason may be left out.
pub open spec fn closed_message(items: Seq<JsonView>) -> MessageResultView {
    match text_at(items, 1) {
        None => Err(ParseErrorView::MissingField("sub_id"@)),
        Some(sub_id) => Ok(RelayMessageView::Closed { sub_id, reason: text_or_empty(items, 2) }),
    }
}

/// An `OK` message. The message in it may be left out.
pub open spec fn ok_message(items: Seq<JsonView>) -> MessageResultView {
    match (text_at(items, 1), bool_at(items, 2)) {
        (None, _) => Err(ParseErrorView::MissingField("event_id"@)),
        (Some(_), None) => Err(ParseErrorView::MissingField("ok"@)),
        (Some(event_id), Some(ok)) => Ok(
            RelayMessageView::OkReply { event_id, ok, message: text_or_empty(items, 3) },
        ),
    }
}

/// An `AUTH` message.
pub open spec fn auth_message(items: Seq<JsonView>) -> MessageResultView {
    match text_at(items, 1) {
        None => Err(ParseErrorView::MissingField("challenge"@)),
        Some(challenge) => Ok(RelayMessageView::Auth { challenge }),
    }
}

/// A `NOTICE` message. The message in it may be left out.
pub open spec fn notice_message(items: Seq<JsonView>) -> MessageResultView {
    Ok(RelayMessageView::Notice { message: text_or_empty(items, 1) })
}

/// A `COUNT` message.
pub open spec fn count_message(items: Seq<JsonView>) -> MessageResultView {
    match text_at(items, 1) {
        None => Err(ParseErrorView::MissingField("sub_id"@)),
        Some(sub_id) => if items.len() <= 2 {
            Err(ParseErrorView::MissingField("count_obj"@))
        } else {
            match items[2].get("count"@) {
                Some(member) => match member.as_u64() {
                    Some(count) => Ok(RelayMessageView::Count { sub_id, count }),
                    None => Err(ParseErrorView::MissingField("count"@)),
                },
                None => Err(ParseErrorView::MissingField("count"@)),
            }
        },
    }
}

/// The message of the given kind in an array.
pub open spec fn message_of_kind(kind: Seq<char>, items: Seq<JsonView>) -> MessageResultView {
    if kind == "EVENT"@ {
        event_message(items)
    } else if kind == "EOSE"@ {
        eose_message(items)
    } else if kind == "CLOSED"@ {
        closed_message(items)
    } else if kind == "OK"@ {
        ok_message(items)
    } else if kind == "AUTH"@ {
        auth_message(items)
    } else if kind == "NOTICE"@ {
        notice_message(items)
    } else if kind == "COUNT"@ {
        count_message(items)
    } else {
        Err(ParseErrorView::UnknownKind(kind))
    }
}

/// The relay message that a document stands for.
pub open spec fn message_of(document: JsonView) -> MessageResultView {
    match document {
        JsonView::Array(items) => match text_at(items, 0) {
            Some(kind) => message_of_kind(kind, items),
            None => Err(ParseErrorView::MissingKind),
        },
        _ => Err(ParseErrorView::NotArray),
    }
}

/// The relay message that a frame stands for.
pub open spec fn message_of_text(text: Seq<char>) -> MessageResultView {
    match parsed_json(text) {
        Ok(document) => message_of(document),
        Err(message) => Err(ParseErrorView::Json(message)),
    }
}

fn read_text_at(items: &Vec<Json>, at: usize) -> (text: Option<&str>)
    ensures
        match text {
            Some(text) => text_at(item_views(items@), at as int) == Some(text@),
            None => text_at(item_views(items@), at as int) is None,
        },
{
    if at < items.len() {
        items[at].as_str()
    } else {
        None
    }
}

fn read_text_or_empty(items: &Vec<Json>, at: usize) -> (text: String)
    ensures
        text@ == text_or_empty(item_views(items@), at as int),
{
    match read_text_at(items, at) {
        Some(text) => text.to_owned(),
        None => String::new(),
    }
}

fn read_bool_at(items: &Vec<Json>, at: usize) -> (value: Option<bool>)
    ensures
        value == bool_at(item_views(items@), at as int),
{
    if at < items.len() {
        items[at].as_bool()
    } else {
        None
    }
}

fn read_event_message(items: &Vec<Json>) -> (r: MessageResult)
    ensures
        message_result_view(r) == event_message(item_views(items@)),
{
    match read_text_at(items, 1) {
        None => Err(ParseError::MissingField("sub_id")),
        Some(sub_id) => if items.len() <= 2 {
            Err(ParseError::MissingField("event"))
        } else {
            match NostrEvent::from_document(&items[2]) {
                Ok(event) => Ok(RelayMessage::Event { sub_id: sub_id.to_owned(), event }),
                Err(message) => Err(ParseError::Json(message)),
            }
        },
    }
}

fn read_ok_message(items: &Vec<Json>) -> (r: MessageResult)
    ensures
        message_result_view(r) == ok_message(item_views(items@)),
{
    match read_text_at(items, 1) {
        None => Err(ParseError::MissingField("event_id")),
        Some(event_id) => match read_bool_at(items, 2) {
            None => Err(ParseError::MissingField("ok")),
            Some(ok) => Ok(
                RelayMessage::OkReply {
                    event_id: event_id.to_owned(),
                    ok,
                    message: read_text_or_empty(items, 3),
                },
            ),
        },
    }
}

fn read_count_message(items: &Vec<Json>) -> (r: MessageResult)
    ensures
        message_result_view(r) == count_message(item_views(items@)),
{
    match read_text_at(items, 1) {
        None => Err(ParseError::MissingField("sub_id")),
        Some(sub_id) => if items.len() <= 2 {
            Err(ParseError::MissingField("count_obj"))
        } else {
            match items[2].get("count") {
                Some(member) => match member.as_u64() {
                    Some(count) => Ok(RelayMessage::Count { sub_id: sub_id.to_owned(), count }),
                    None => Err(ParseError::MissingField("count")),
                },
                None => Err(ParseError::MissingField("count")),
            }
        },
    }
}

impl RelayMessage {
    /// Reads a document as a relay message.
    pub fn from_document(document: &Json) -> (r: MessageResult)
        ensures
            message_result_view(r) == message_of(document@),
    {
        let items = match document.as_array() {
            Some(items) => items,
            None => return Err(ParseError::NotArray),
        };
        let kind = match read_text_at(items, 0) {
            Some(kind) => kind,
            None => return Err(ParseError::MissingKind),
        };
        if same_text(kind, "EVENT") {
            read_event_message(items)
        } else if same_text(kind, "EOSE") {
            match read_text_at(items, 1) {
                Some(sub_id) => Ok(RelayMessage::Eose { sub_id: sub_id.to_owned() }),
                None => Err(ParseError::MissingField("sub_id")),
            }
        } else if same_text(kind, "CLOSED") {
            match read_text_at(items, 1) {
                Some(sub_id) => Ok(
                    RelayMessage::Closed {
                        sub_id: sub_id.to_owned(),
                        reason: read_text_or_empty(items, 2),
                    },
                ),
                None => Err(ParseError::MissingField("sub_id")),
            }
        } else if same_text(kind, "OK") {
            read_ok_message(items)
        } else if same_text(kind, "AUTH") {
            match read_text_at(items, 1) {
                Some(challenge) => Ok(RelayMessage::Auth { challenge: challenge.to_owned() }),
                None => Err(ParseError::MissingField("challenge")),
            }
        } else if same_text(kind, "NOTICE") {
            Ok(RelayMessage::Notice { message: read_text_or_empty(items, 1) })
        } else if same_text(kind, "COUNT") {
            read_count_message(items)
        } else {
            Err(ParseError::UnknownKind(kind.to_owned()))
        }
    }

    /// Parses a raw JSON frame received from the relay.
    pub fn from_json(text: &str) -> (r: MessageResult)
        ensures
            message_result_view(r) == message_of_text(text@),
    {
        match Json::from_text(text) {
            Ok(document) => RelayMessage::from_document(&document),
            Err(message) => Err(ParseError::Json(message)),
        }
    }
}

// ---------------------------------------------------------------------------
// Per-subscription messages and responses
// ---------------------------------------------------------------------------

/// Messages emitted by a subscription.
#[derive(Debug, Clone)]
pub enum ReqMessage {
    /// Subscription is open and active.
    Open { from: String, id: String, filters: Vec<Filter> },
    /// An event matching the subscription filters.
    Event { from: String, id: String, event: NostrEvent },
    /// End of stored events; live subscription follows.
    Eose { from: String, id: String },
    /// Relay closed the subscription.
    Closed { from: String, id: String, reason: String },
}

/// The mathematical value of a [`ReqMessage`].
#[verifier::ext_equal]
pub enum ReqMessageView {
    Open { from: Seq<char>, id: Seq<char>, filters: Seq<FilterView> },
    Event { from: Seq<char>, id: Seq<char>, event: NostrEventView },
    Eose { from: Seq<char>, id: Seq<char> },
    Closed { from: Seq<char>, id: Seq<char>, reason: Seq<char> },
}

impl View for ReqMessage {
    type V = ReqMessageView;

    open spec fn view(&self) -> ReqMessageView {
        match self {
            ReqMessage::Open { from, id, filters } => ReqMessageView::Open {
                from: from@,
                id: id@,
                filters: filter_views(filters@),
            },
            ReqMessage::Event { from, id, event } => ReqMessageView::Event {
                from: from@,
                id: id@,
                event: event@,
            },
            ReqMessage::Eose { from, id } => ReqMessageView::Eose { from: from@, id: id@ },
            ReqMessage::Closed { from, id, reason } => ReqMessageView::Closed {
                from: from@,
                id: id@,
                reason: reason@,
            },
        }
    }
}

impl ReqMessageView {
    /// The relay that the message comes from.
    pub open spec fn from(self) -> Seq<char> {
        match self {
            ReqMessageView::Open { from, .. } => from,
            ReqMessageView::Event { from, .. } => from,
            ReqMessageView::Eose { from, .. } => from,
            ReqMessageView::Closed { from, .. } => from,
        }
    }

    /// The subscription that the message belongs to.
    pub open spec fn id(self) -> Seq<char> {
        match self {
            ReqMessageView::Open { id, .. } => id,
            ReqMessageView::Event { id, .. } => id,
            ReqMessageView::Eose { id, .. } => id,
            ReqMessageView::Closed { id, .. } => id,
        }
    }
}

/// Response from publishing an event.
#[derive(Debug, Clone)]
pub struct PublishResponse {
    pub from: String,
    pub event_id: String,
    pub ok: bool,
    pub message: String,
}

/// The mathematical value of a [`PublishResponse`].
#[verifier::ext_equal]
pub struct PublishResponseView {
    pub from: Seq<char>,
    pub event_id: Seq<char>,
    pub ok: bool,
    pub message: Seq<char>,
}

impl View for PublishResponse {
    type V = PublishResponseView;

    open spec fn view(&self) -> PublishResponseView {
        PublishResponseView {
            from: self.from@,
            event_id: self.event_id@,
            ok: self.ok,
            message: self.message@,
        }
    }
}

/// NIP-45 COUNT response.
#[derive(Debug, Clone)]
pub struct CountResponse {
    pub from: String,
    pub sub_id: String,
    pub count: u64,
}

/// The mathematical value of a [`CountResponse`].
#[verifier::ext_equal]
pub struct CountResponseView {
    pub from: Seq<char>,
    pub sub_id: Seq<char>,
    pub count: u64,
}

impl View for CountResponse {
    type V = CountResponseView;

    open spec fn view(&self) -> CountResponseView {
        CountResponseView { from: self.from@, sub_id: self.sub_id@, count: self.count }
    }
}

// ---------------------------------------------------------------------------
// Errors
// ---------------------------------------------------------------------------

/// The wording of a [`ParseError`].
pub open spec fn parse_error_text(error: ParseErrorView) -> Seq<char> {
    match error {
        ParseErrorView::Json(message) => "JSON parse error: "@ + message,
        ParseErrorView::NotArray => "message is not a JSON array"@,
        ParseErrorView::MissingKind => "message array is missing the kind string"@,
        ParseErrorView::MissingField(name) => "missing field: "@ + name,
        ParseErrorView::UnknownKind(kind) => "unknown relay message kind: "@ + kind,
    }
}

impl ParseError {
    /// The error in words.
    pub fn message(&self) -> (text: String)
        ensures
            text@ == parse_error_text(self@),
    {
        match self {
            ParseError::Json(message) => "JSON parse error: ".to_owned().concat(message.as_str()),
            ParseError::NotArray => "message is not a JSON array".to_owned(),
            ParseError::MissingKind => "message array is missing the kind string".to_owned(),
            ParseError::MissingField(name) => "missing field: ".to_owned().concat(name),
            ParseError::UnknownKind(kind) => "unknown relay message kind: ".to_owned().concat(
                kind.as_str(),
            ),
        }
    }
}

/// What can go wrong between the client and a relay.
#[derive(Debug, Clone)]
pub enum RelayError {
    WebSocket(String),
    ConnectionClosed,
    Parse(ParseError),
    RelayClosed { id: String, reason: String },
    AuthRequired,
    Url(String),
    Timeout,
}

/// The mathematical value of a [`RelayError`].
#[verifier::ext_equal]
pub enum RelayErrorView {
    WebSocket(Seq<char>),
    ConnectionClosed,
    Parse(ParseErrorView),
    RelayClosed { id: Seq<char>, reason: Seq<char> },
    AuthRequired,
    Url(Seq<char>),
    Timeout,
}

impl View for RelayError {
    type V = RelayErrorView;

    open spec fn view(&self) -> RelayErrorView {
        match self {
            RelayError::WebSocket(message) => RelayErrorView::WebSocket(message@),
            RelayError::ConnectionClosed => RelayErrorView::ConnectionClosed,
            RelayError::Parse(error) => RelayErrorView::Parse(error@),
            RelayError::RelayClosed { id, reason } => RelayErrorView::RelayClosed {
                id: id@,
                reason: reason@,
            },
            RelayError::AuthRequired => RelayErrorView::AuthRequired,
            RelayError::Url(message) => RelayErrorView::Url(message@),
            RelayError::Timeout => RelayErrorView::Timeout,
        }
    }
}

/// The wording of a [`RelayError`].
pub open spec fn relay_error_text(error: RelayErrorView) -> Seq<char> {
    match error {
        RelayErrorView::WebSocket(message) => "WebSocket error: "@ + message,
        RelayErrorView::ConnectionClosed => "Connection closed"@,
        RelayErrorView::Parse(error) => "Parse error: "@ + parse_error_text(error),
        RelayErrorView::RelayClosed { id, reason } => "Relay closed subscription "@ + id
            + " with reason: "@ + reason,
        RelayErrorView::AuthRequired => "Auth required"@,
        RelayErrorView::Url(message) => "URL parse error: "@ + message,
        RelayErrorView::Timeout => "Operation timed out"@,
    }
}

impl RelayError {
    /// The error in words.
    pub fn message(&self) -> (text: String)
        ensures
            text@ == relay_error_text(self@),
    {
        match self {
            RelayError::WebSocket(message) => "WebSocket error: ".to_owned().concat(
                message.as_str(),
            ),
            RelayError::ConnectionClosed => "Connection closed".to_owned(),
            RelayError::Parse(error) => "Parse error: ".to_owned().concat(error.message().as_str()),
            RelayError::RelayClosed { id, reason } => "Relay closed subscription ".to_owned().concat(
                id.as_str(),
            ).concat(" with reason: ").concat(reason.as_str()),
            RelayError::AuthRequired => "Auth required".to_owned(),
            RelayError::Url(message) => "URL parse error: ".to_owned().concat(message.as_str()),
            RelayError::Timeout => "Operation timed out".to_owned(),
        }
    }
}

impl From<ParseError> for RelayError {
    fn from(error: ParseError) -> (r: Self)
        ensures
            r == RelayError::Parse(error),
    {
        RelayError::Parse(error)
    }
}

impl vstd::std_specs::convert::FromSpecImpl<ParseError> for RelayError {
    open spec fn obeys_from_spec() -> bool {
        true
    }

    open spec fn from_spec(error: ParseError) -> RelayError {
        RelayError::Parse(error)
    }
}

// ---------------------------------------------------------------------------
// Laws
// ---------------------------------------------------------------------------

/// The JSON array in which a relay sends a message.
pub open spec fn relay_message_json(message: RelayMessageView) -> JsonView {
    JsonView::Array(
        match message {
            RelayMessageView::Event { sub_id, event } => seq![
                JsonView::Str("EVENT"@),
                JsonView::Str(sub_id),
                event_json(event),
            ],
            RelayMessageView::Eose { sub_id } => seq![
                JsonView::Str("EOSE"@),
                JsonView::Str(sub_id),
            ],
            RelayMessageView::Closed { sub_id, reason } => seq![
                JsonView::Str("CLOSED"@),
                JsonView::Str(sub_id),
                JsonView::Str(reason),
            ],
            RelayMessageView::OkReply { event_id, ok, message } => seq![
                JsonView::Str("OK"@),
                JsonView::Str(event_id),
                JsonView::Bool(ok),
                JsonView::Str(message),
            ],
            RelayMessageView::Auth { challenge } => seq![
                JsonView::Str("AUTH"@),
                JsonView::Str(challenge),
            ],
            RelayMessageView::Notice { message } => seq![
                JsonView::Str("NOTICE"@),
                JsonView::Str(message),
            ],
            RelayMessageView::Count { sub_id, count } => seq![
                JsonView::Str("COUNT"@),
                JsonView::Str(sub_id),
                JsonView::Object(map!["count"@ => number_json(count)]),
            ],
        },
    )
}

/// The kinds of relay messages are different from one another.
proof fn lemma_kinds_differ()
    ensures
        "EVENT"@ != "EOSE"@,
        "EVENT"@ != "CLOSED"@,
        "EVENT"@ != "OK"@,
        "EVENT"@ != "AUTH"@,
        "EVENT"@ != "NOTICE"@,
        "EVENT"@ != "COUNT"@,
        "EOSE"@ != "CLOSED"@,
        "EOSE"@ != "OK"@,
        "EOSE"@ != "AUTH"@,
        "EOSE"@ != "NOTICE"@,
        "EOSE"@ != "COUNT"@,
        "CLOSED"@ != "OK"@,
        "CLOSED"@ != "AUTH"@,
        "CLOSED"@ != "NOTICE"@,
        "CLOSED"@ != "COUNT"@,
        "OK"@ != "AUTH"@,
        "OK"@ != "NOTICE"@,
        "OK"@ != "COUNT"@,
        "AUTH"@ != "NOTICE"@,
        "AUTH"@ != "COUNT"@,
        "NOTICE"@ != "COUNT"@,
{
    reveal_strlit("EVENT");
    reveal_strlit("EOSE");
    reveal_strlit("CLOSED");
    reveal_strlit("OK");
    reveal_strlit("AUTH");
    reveal_strlit("NOTICE");
    reveal_strlit("COUNT");
    assert("EVENT"@.len() == 5 && "COUNT"@.len() == 5 && "EVENT"@[0] != "COUNT"@[0]);
    assert("EOSE"@.len() == 4 && "AUTH"@.len() == 4 && "EOSE"@[0] != "AUTH"@[0]);
    assert("CLOSED"@.len() == 6 && "NOTICE"@.len() == 6 && "CLOSED"@[0] != "NOTICE"@[0]);
    assert("OK"@.len() == 2);
}

/// Every message that a relay sends in its documented form is read as that
/// message.
pub proof fn law_documented_messages_are_read(message: RelayMessageView)
    ensures
        message_of(relay_message_json(message)) == Ok::<RelayMessageView, ParseErrorView>(message),
{
    lemma_kinds_differ();
    if let RelayMessageView::Event { event, .. } = message {
        law_event_round_trip(event);
    }
    if let RelayMessageView::Count { sub_id, count } = message {
        let members = map!["count"@ => number_json(count)];
        assert(members.dom().contains("count"@));
    }
    let items = relay_message_json(message)->Array_0;
    assert(items[0] is Str);
    assert(items[1] is Str);
}

/// The same for the text of a frame.
pub proof fn law_documented_frames_are_read(text: Seq<char>, message: RelayMessageView)
    requires
        reads_as(text, relay_message_json(message)),
    ensures
        message_of_text(text) == Ok::<RelayMessageView, ParseErrorView>(message),
{
    law_documented_messages_are_read(message);
}

/// How many items the array of a message of the given kind has, its kind
/// included.
pub open spec fn items_of_kind(kind: Seq<char>) -> nat {
    if kind == "EOSE"@ || kind == "AUTH"@ || kind == "NOTICE"@ {
        2
    } else if kind == "EVENT"@ || kind == "CLOSED"@ || kind == "COUNT"@ {
        3
    } else if kind == "OK"@ {
        4
    } else {
        1
    }
}

/// What stands in an array after the items of its kind is ignored.
pub proof fn law_further_items_are_ignored(
    kind: Seq<char>,
    items: Seq<JsonView>,
    further: Seq<JsonView>,
)
    requires
        text_at(items, 0) == Some(kind),
        items.len() >= items_of_kind(kind),
    ensures
        message_of(JsonView::Array(items + further)) == message_of(JsonView::Array(items)),
{
    lemma_kinds_differ();
    let longer = items + further;
    assert(longer[0] == items[0]);
    assert(items.len() > 1 ==> longer[1] == items[1]);
    assert(items.len() > 2 ==> longer[2] == items[2]);
    assert(items.len() > 3 ==> longer[3] == items[3]);
}

/// The kind decides what a frame is: a message is of the kind that its array
/// begins with.
pub proof fn law_kind_decides(items: Seq<JsonView>)
    requires
        message_of(JsonView::Array(items)) is Ok,
    ensures
        text_at(items, 0) == Some(
            match message_of(JsonView::Array(items))->Ok_0 {
                RelayMessageView::Event { .. } => "EVENT"@,
                RelayMessageView::Eose { .. } => "EOSE"@,
                RelayMessageView::Closed { .. } => "CLOSED"@,
                RelayMessageView::OkReply { .. } => "OK"@,
                RelayMessageView::Auth { .. } => "AUTH"@,
                RelayMessageView::Notice { .. } => "NOTICE"@,
                RelayMessageView::Count { .. } => "COUNT"@,
            },
        ),
{
}

/// The array that goes to the relay begins with the verb of the message, and
/// the identifier of a subscription or count follows it.
pub proof fn law_client_messages_begin_with_verb(message: ClientMessageView)
    ensures
        client_message_json(message) matches JsonView::Array(items) && text_at(items, 0) == Some(
            match message {
                ClientMessageView::Req { .. } => "REQ"@,
                ClientMessageView::Close { .. } => "CLOSE"@,
                ClientMessageView::Event(_) => "EVENT"@,
                ClientMessageView::Auth(_) => "AUTH"@,
                ClientMessageView::Count { .. } => "COUNT"@,
            },
        ) && match message {
            ClientMessageView::Req { id, .. } => text_at(items, 1) == Some(id),
            ClientMessageView::Close { id } => text_at(items, 1) == Some(id),
            ClientMessageView::Count { id, .. } => text_at(items, 1) == Some(id),
            ClientMessageView::Event(event) => items[1] == event_json(event),
            ClientMessageView::Auth(event) => items[1] == event_json(event),
        },
{
}

/// An event that is published or sent for authentication can be read out of the
/// message as it was.
pub proof fn law_sent_events_can_be_read(event: NostrEventView)
    ensures
        client_message_json(ClientMessageView::Event(event)) matches JsonView::Array(items)
            && items.len() == 2 && event_of(items[1]) == Ok::<NostrEventView, Seq<char>>(event),
        client_message_json(ClientMessageView::Auth(event)) matches JsonView::Array(items)
            && items.len() == 2 && event_of(items[1]) == Ok::<NostrEventView, Seq<char>>(event),
{
    law_event_round_trip(event);
}

/// Every filter of a subscription or count is written after the identifier, in
/// the order of the filters.
pub proof fn law_filters_are_written_in_order(id: Seq<char>, filters: Seq<FilterView>, at: int)
    requires
        0 <= at < filters.len(),
    ensures
        client_message_json(ClientMessageView::Req { id, filters }) matches JsonView::Array(items)
            && items.len() == filters.len() + 2 && items[at + 2] == filter_json(filters[at]),
        client_message_json(ClientMessageView::Count { id, filters }) matches JsonView::Array(items)
            && items.len() == filters.len() + 2 && items[at + 2] == filter_json(filters[at]),
{
}

// ---------------------------------------------------------------------------
// Laws of what stands in a message
// ---------------------------------------------------------------------------

/// A frame is an `EVENT` message exactly where it is an array of the kind, the
/// identifier and a document that is read as the event, and perhaps more.
pub proof fn law_event_messages(items: Seq<JsonView>, sub_id: Seq<char>, event: NostrEventView)
    ensures
        message_of(JsonView::Array(items)) == Ok::<RelayMessageView, ParseErrorView>(
            RelayMessageView::Event { sub_id, event },
        ) <==> items.len() >= 3 && items[0] == JsonView::Str("EVENT"@) && items[1] == JsonView::Str(
            sub_id,
        ) && event_of(items[2]) == Ok::<NostrEventView, Seq<char>>(event),
{
    lemma_kinds_differ();
}

/// A frame is an `EOSE` message exactly where it is an array of the kind and the
/// identifier, and perhaps more.
pub proof fn law_eose_messages(items: Seq<JsonView>, sub_id: Seq<char>)
    ensures
        message_of(JsonView::Array(items)) == Ok::<RelayMessageView, ParseErrorView>(
            RelayMessageView::Eose { sub_id },
        ) <==> items.len() >= 2 && items[0] == JsonView::Str("EOSE"@) && items[1] == JsonView::Str(
            sub_id,
        ),
{
    lemma_kinds_differ();
}

/// A frame is a `CLOSED` message exactly where it is an array of the kind, the
/// identifier and the reason, and perhaps more. Without a text there, the reason
/// is empty.
pub proof fn law_closed_messages(items: Seq<JsonView>, sub_id: Seq<char>, reason: Seq<char>)
    ensures
        message_of(JsonView::Array(items)) == Ok::<RelayMessageView, ParseErrorView>(
            RelayMessageView::Closed { sub_id, reason },
        ) <==> items.len() >= 2 && items[0] == JsonView::Str("CLOSED"@) && items[1]
            == JsonView::Str(sub_id) && if items.len() > 2 && items[2] is Str {
            items[2] == JsonView::Str(reason)
        } else {
            reason.len() == 0
        },
{
    lemma_kinds_differ();
    assert(reason.len() == 0 ==> reason =~= Seq::<char>::empty());
}

/// A frame is an `OK` message exactly where it is an array of the kind, the
/// event's identifier, the verdict and the message, and perhaps more. Without a
/// text there, the message is empty.
pub proof fn law_ok_messages(
    items: Seq<JsonView>,
    event_id: Seq<char>,
    ok: bool,
    message: Seq<char>,
)
    ensures
        message_of(JsonView::Array(items)) == Ok::<RelayMessageView, ParseErrorView>(
            RelayMessageView::OkReply { event_id, ok, message },
        ) <==> items.len() >= 3 && items[0] == JsonView::Str("OK"@) && items[1] == JsonView::Str(
            event_id,
        ) && items[2] == JsonView::Bool(ok) && if items.len() > 3 && items[3] is Str {
            items[3] == JsonView::Str(message)
        } else {
            message.len() == 0
        },
{
    lemma_kinds_differ();
    assert(message.len() == 0 ==> message =~= Seq::<char>::empty());
}

/// A frame is an `AUTH` message exactly where it is an array of the kind and the
/// challenge, and perhaps more.
pub proof fn law_auth_messages(items: Seq<JsonView>, challenge: Seq<char>)
    ensures
        message_of(JsonView::Array(items)) == Ok::<RelayMessageView, ParseErrorView>(
            RelayMessageView::Auth { challenge },
        ) <==> items.len() >= 2 && items[0] == JsonView::Str("AUTH"@) && items[1] == JsonView::Str(
            challenge,
        ),
{
    lemma_kinds_differ();
}

/// A frame is a `NOTICE` message exactly where it is an array of the kind and the
/// message, and perhaps more. Without a text there, the message is empty.
pub proof fn law_notice_messages(items: Seq<JsonView>, message: Seq<char>)
    ensures
        message_of(JsonView::Array(items)) == Ok::<RelayMessageView, ParseErrorView>(
            RelayMessageView::Notice { message },
        ) <==> items.len() >= 1 && items[0] == JsonView::Str("NOTICE"@) && if items.len() > 1
            && items[1] is Str {
            items[1] == JsonView::Str(message)
        } else {
            message.len() == 0
        },
{
    lemma_kinds_differ();
    assert(message.len() == 0 ==> message =~= Seq::<char>::empty());
}

/// A frame is a `COUNT` message exactly where it is an array of the kind, the
/// identifier and an object with the count, and perhaps more.
pub proof fn law_count_messages(items: Seq<JsonView>, sub_id: Seq<char>, count: u64)
    ensures
        message_of(JsonView::Array(items)) == Ok::<RelayMessageView, ParseErrorView>(
            RelayMessageView::Count { sub_id, count },
        ) <==> items.len() >= 3 && items[0] == JsonView::Str("COUNT"@) && items[1] == JsonView::Str(
            sub_id,
        ) && (items[2] matches JsonView::Object(members) && members.dom().contains("count"@)
            && members["count"@] == JsonView::Number(NumberView::Unsigned(count))),
{
    lemma_kinds_differ();
    if items.len() >= 3 {
        law_objects_have_their_members(items[2], "count"@);
    }
}

/// When a document is refused, and why.
pub proof fn law_refused_documents(document: JsonView, kind: Seq<char>, message: Seq<char>)
    ensures
        message_of(document) == Err::<RelayMessageView, ParseErrorView>(ParseErrorView::NotArray)
            <==> document !is Array,
        message_of(document) == Err::<RelayMessageView, ParseErrorView>(ParseErrorView::MissingKind)
            <==> (document matches JsonView::Array(items) && (items.len() == 0
            || items[0] !is Str)),
        message_of(document) == Err::<RelayMessageView, ParseErrorView>(
            ParseErrorView::UnknownKind(kind),
        ) <==> (document matches JsonView::Array(items) && items.len() > 0 && items[0]
            == JsonView::Str(kind) && kind != "EVENT"@ && kind != "EOSE"@ && kind != "CLOSED"@
            && kind != "OK"@ && kind != "AUTH"@ && kind != "NOTICE"@ && kind != "COUNT"@),
        message_of(document) == Err::<RelayMessageView, ParseErrorView>(
            ParseErrorView::Json(message),
        ) <==> (document matches JsonView::Array(items) && items.len() > 2 && items[0]
            == JsonView::Str("EVENT"@) && items[1] is Str && event_of(items[2]) == Err::<
            NostrEventView,
            Seq<char>,
        >(message)),
{
    lemma_kinds_differ();
}

/// The array has no text after its kind.
pub open spec fn lacks_id(items: Seq<JsonView>) -> bool {
    items.len() < 2 || items[1] !is Str
}

/// Which field is missing in an array of a known kind.
pub proof fn law_missing_fields(items: Seq<JsonView>)
    ensures
        lacks_id(items) <==> items.len() < 2 || items[1] !is Str,
        items.len() > 0 && (items[0] == JsonView::Str("EVENT"@) || items[0] == JsonView::Str(
            "EOSE"@,
        ) || items[0] == JsonView::Str("CLOSED"@) || items[0] == JsonView::Str("COUNT"@))
            && lacks_id(items) ==> message_of(JsonView::Array(items)) == Err::<
            RelayMessageView,
            ParseErrorView,
        >(ParseErrorView::MissingField("sub_id"@)),
        items.len() == 2 && items[0] == JsonView::Str("EVENT"@) && !lacks_id(items) ==> message_of(
            JsonView::Array(items),
        ) == Err::<RelayMessageView, ParseErrorView>(ParseErrorView::MissingField("event"@)),
        items.len() > 0 && items[0] == JsonView::Str("OK"@) && lacks_id(items) ==> message_of(
            JsonView::Array(items),
        ) == Err::<RelayMessageView, ParseErrorView>(ParseErrorView::MissingField("event_id"@)),
        items.len() > 0 && items[0] == JsonView::Str("OK"@) && !lacks_id(items) && (items.len() < 3
            || items[2] !is Bool) ==> message_of(JsonView::Array(items)) == Err::<
            RelayMessageView,
            ParseErrorView,
        >(ParseErrorView::MissingField("ok"@)),
        items.len() > 0 && items[0] == JsonView::Str("AUTH"@) && lacks_id(items) ==> message_of(
            JsonView::Array(items),
        ) == Err::<RelayMessageView, ParseErrorView>(ParseErrorView::MissingField("challenge"@)),
        items.len() == 2 && items[0] == JsonView::Str("COUNT"@) && !lacks_id(items) ==> message_of(
            JsonView::Array(items),
        ) == Err::<RelayMessageView, ParseErrorView>(ParseErrorView::MissingField("count_obj"@)),
        items.len() > 2 && items[0] == JsonView::Str("COUNT"@) && !lacks_id(items) && !(
        items[2] matches JsonView::Object(members) && members.dom().contains("count"@) && (
        members["count"@] matches JsonView::Number(NumberView::Unsigned(_)))) ==> message_of(
            JsonView::Array(items),
        ) == Err::<RelayMessageView, ParseErrorView>(ParseErrorView::MissingField("count"@)),
{
    lemma_kinds_differ();
    if items.len() >= 3 {
        law_objects_have_their_members(items[2], "count"@);
    }
}

/// A frame stands for what its document stands for; where it is no JSON, that is
/// the error.
pub proof fn law_frames_are_documents(text: Seq<char>, document: JsonView, message: Seq<char>)
    ensures
        parsed_json(text) == Ok::<JsonView, Seq<char>>(document) ==> message_of_text(text)
            == message_of(document),
        parsed_json(text) == Err::<JsonView, Seq<char>>(message) ==> message_of_text(text) == Err::<
            RelayMessageView,
            ParseErrorView,
        >(ParseErrorView::Json(message)),
{
}

/// The array that goes to the relay for each message, item by item.
pub proof fn law_client_message_items(message: ClientMessageView)
    ensures
        client_message_json(message) matches JsonView::Array(items) && match message {
            ClientMessageView::Req { id, filters } => {
                &&& items.len() == 2 + filters.len()
                &&& items[0] == JsonView::Str("REQ"@)
                &&& items[1] == JsonView::Str(id)
                &&& forall|i: int|
                    0 <= i < filters.len() ==> items[2 + i] == filter_json(#[trigger] filters[i])
            },
            ClientMessageView::Close { id } => items.len() == 2 && items[0] == JsonView::Str(
                "CLOSE"@,
            ) && items[1] == JsonView::Str(id),
            ClientMessageView::Event(event) => items.len() == 2 && items[0] == JsonView::Str(
                "EVENT"@,
            ) && items[1] == event_json(event),
            ClientMessageView::Auth(event) => items.len() == 2 && items[0] == JsonView::Str(
                "AUTH"@,
            ) && items[1] == event_json(event),
            ClientMessageView::Count { id, filters } => {
                &&& items.len() == 2 + filters.len()
                &&& items[0] == JsonView::Str("COUNT"@)
                &&& items[1] == JsonView::Str(id)
                &&& forall|i: int|
                    0 <= i < filters.len() ==> items[2 + i] == filter_json(#[trigger] filters[i])
            },
        },
{
}

/// A message to the relay in memory stands for the message with the same
/// content.
pub proof fn law_client_message_content(message: ClientMessage)
    ensures
        match message {
            ClientMessage::Req { id, filters } => message@ == (ClientMessageView::Req {
                id: id@,
                filters: filter_views(filters@),
            }),
            ClientMessage::Close { id } => message@ == (ClientMessageView::Close { id: id@ }),
            ClientMessage::Event(event) => message@ == ClientMessageView::Event(event@),
            ClientMessage::Auth(event) => message@ == ClientMessageView::Auth(event@),
            ClientMessage::Count { id, filters } => message@ == (ClientMessageView::Count {
                id: id@,
                filters: filter_views(filters@),
            }),
        },
{
}

/// A message from the relay in memory stands for the message with the same
/// content.
pub proof fn law_relay_message_content(message: RelayMessage)
    ensures
        match message {
            RelayMessage::Event { sub_id, event } => message@ == (RelayMessageView::Event {
                sub_id: sub_id@,
                event: event@,
            }),
            RelayMessage::Eose { sub_id } => message@ == (RelayMessageView::Eose {
                sub_id: sub_id@,
            }),
            RelayMessage::Closed { sub_id, reason } => message@ == (RelayMessageView::Closed {
                sub_id: sub_id@,
                reason: reason@,
            }),
            RelayMessage::OkReply { event_id, ok, message: text } => message@ == (
            RelayMessageView::OkReply { event_id: event_id@, ok, message: text@ }),
            RelayMessage::Auth { challenge } => message@ == (RelayMessageView::Auth {
                challenge: challenge@,
            }),
            RelayMessage::Notice { message: text } => message@ == (RelayMessageView::Notice {
                message: text@,
            }),
            RelayMessage::Count { sub_id, count } => message@ == (RelayMessageView::Count {
                sub_id: sub_id@,
                count,
            }),
        },
{
}

/// A message of a subscription in memory stands for the message with the same
/// content.
pub proof fn law_req_message_content(message: ReqMessage)
    ensures
        match message {
            ReqMessage::Open { from, id, filters } => message@ == (ReqMessageView::Open {
                from: from@,
                id: id@,
                filters: filter_views(filters@),
            }),
            ReqMessage::Event { from, id, event } => message@ == (ReqMessageView::Event {
                from: from@,
                id: id@,
                event: event@,
            }),
            ReqMessage::Eose { from, id } => message@ == (ReqMessageView::Eose {
                from: from@,
                id: id@,
            }),
            ReqMessage::Closed { from, id, reason } => message@ == (ReqMessageView::Closed {
                from: from@,
                id: id@,
                reason: reason@,
            }),
        },
{
}

/// Responses in memory stand for the responses with the same content.
pub proof fn law_response_content(publish: PublishResponse, count: CountResponse)
    ensures
        publish@.from == publish.from@,
        publish@.event_id == publish.event_id@,
        publish@.ok == publish.ok,
        publish@.message == publish.message@,
        count@.from == count.from@,
        count@.sub_id == count.sub_id@,
        count@.count == count.count,
{
}

/// Errors in memory stand for the errors with the same content, and a parse
/// result for what it holds.
pub proof fn law_error_content(parse: ParseError, relay: RelayError, result: MessageResult)
    ensures
        match parse {
            ParseError::Json(message) => parse@ == ParseErrorView::Json(message@),
            ParseError::NotArray => parse@ == ParseErrorView::NotArray,
            ParseError::MissingKind => parse@ == ParseErrorView::MissingKind,
            ParseError::MissingField(name) => parse@ == ParseErrorView::MissingField(name@),
            ParseError::UnknownKind(kind) => parse@ == ParseErrorView::UnknownKind(kind@),
        },
        match relay {
            RelayError::WebSocket(message) => relay@ == RelayErrorView::WebSocket(message@),
            RelayError::ConnectionClosed => relay@ == RelayErrorView::ConnectionClosed,
            RelayError::Parse(error) => relay@ == RelayErrorView::Parse(error@),
            RelayError::RelayClosed { id, reason } => relay@ == (RelayErrorView::RelayClosed {
                id: id@,
                reason: reason@,
            }),
            RelayError::AuthRequired => relay@ == RelayErrorView::AuthRequired,
            RelayError::Url(message) => relay@ == RelayErrorView::Url(message@),
            RelayError::Timeout => relay@ == RelayErrorView::Timeout,
        },
        match result {
            Ok(message) => message_result_view(result) == Ok::<RelayMessageView, ParseErrorView>(
                message@,
            ),
            Err(error) => message_result_view(result) == Err::<RelayMessageView, ParseErrorView>(
                error@,
            ),
        },
{
}

/// What each error says, around whatever text it carries.
pub proof fn law_error_wording(text: Seq<char>, other: Seq<char>, error: ParseErrorView)
    ensures
        parse_error_text(ParseErrorView::Json(text)) == "JSON parse error: "@ + text,
        parse_error_text(ParseErrorView::NotArray) == "message is not a JSON array"@,
        parse_error_text(ParseErrorView::MissingKind)
            == "message array is missing the kind string"@,
        parse_error_text(ParseErrorView::MissingField(text)) == "missing field: "@ + text,
        parse_error_text(ParseErrorView::UnknownKind(text)) == "unknown relay message kind: "@
            + text,
        relay_error_text(RelayErrorView::WebSocket(text)) == "WebSocket error: "@ + text,
        relay_error_text(RelayErrorView::ConnectionClosed) == "Connection closed"@,
        relay_error_text(RelayErrorView::Parse(error)) == "Parse error: "@ + parse_error_text(error),
        relay_error_text(RelayErrorView::RelayClosed { id: text, reason: other })
            == "Relay closed subscription "@ + text + " with reason: "@ + other,
        relay_error_text(RelayErrorView::AuthRequired) == "Auth required"@,
        relay_error_text(RelayErrorView::Url(text)) == "URL parse error: "@ + text,
        relay_error_text(RelayErrorView::Timeout) == "Operation timed out"@,
{
}

} // verus!
