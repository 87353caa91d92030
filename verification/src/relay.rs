//! The Nostr side of a relay connection.
//!
//! Subscriptions and requests are described here as the decisions that they
//! take: which messages go to the relay, which inbound frames belong to whom,
//! what a caller gets to see of them, and when a stream ends. Nothing in here
//! waits; the caller reports what happened, and is told what to do.

use std::time::Duration;

use vstd::prelude::*;
use vstd::string::*;

use crate::codec::{json_text, parsed_json, reads_as};
use crate::event::event_of;
use crate::filter::{clone_filters, filter_views};
use crate::json::JsonView;
use crate::socket::{Delivery, Received, RelaySocket, SocketError, SocketErrorView, SocketView};
use crate::socket::{disconnect_order, received_texts, seconds, yielded};
use crate::socket::{DeliveryView, Order, ReceivedView, SocketStep};
use crate::text::{contains, occurs_in};
use crate::types::{client_message_json, law_closed_messages, law_documented_frames_are_read};
use crate::types::{law_eose_messages, law_event_messages};
use crate::types::{message_of_text, message_result_view, relay_message_json};
use crate::types::{ClientMessage, ClientMessageView, CountResponse, CountResponseView};
use crate::types::{Filter, FilterView, MessageResult, MessageResultView};
use crate::types::{NostrEvent, NostrEventView, ParseErrorView, PublishResponse, PublishResponseView};
use crate::types::{RelayError, RelayErrorView, RelayMessage, RelayMessageView};
use crate::types::{ReqMessage, ReqMessageView};

pub use crate::socket::DEFAULT_KEEP_ALIVE;

verus! {

/// How many characters the identifier of a subscription has.
pub const SUBSCRIPTION_ID_LEN: usize = 12;

/// How many seconds a request waits for the answer of the relay.
pub const REPLY_TIMEOUT_SECS: u64 = 10;

/// The characters that identifiers are made of: letters, digits, `_` and `-`.
pub open spec fn is_id_char(c: char) -> bool {
    ||| 'a' <= c <= 'z'
    ||| 'A' <= c <= 'Z'
    ||| '0' <= c <= '9'
    ||| c == '_'
    ||| c == '-'
}

/// A text of the given number of identifier characters.
pub open spec fn is_id(id: Seq<char>, len: nat) -> bool {
    &&& id.len() == len
    &&& forall|i: int| 0 <= i < id.len() ==> is_id_char(#[trigger] id[i])
}

/// `nanoid::format` with nanoid's default random source and URL-safe alphabet:
/// a random text of the given number of characters from that alphabet. Which
/// text it is depends on chance, and is left open.
#[verifier::external_body]
fn random_id(len: usize) -> (id: String)
    requires
        0 < len <= 1024,
    ensures
        is_id(id@, len as nat),
{
    nanoid::format(nanoid::rngs::default, &nanoid::alphabet::SAFE, len)
}

// ---------------------------------------------------------------------------
// Errors of the socket as errors of the relay
// ---------------------------------------------------------------------------

/// The error of the relay that an error of its socket is.
pub open spec fn relay_error_of(error: SocketErrorView) -> RelayErrorView {
    match error {
        SocketErrorView::Connect(message) => RelayErrorView::WebSocket(message),
        SocketErrorView::Closed => RelayErrorView::ConnectionClosed,
    }
}

impl From<SocketError> for RelayError {
    fn from(error: SocketError) -> (r: Self)
        ensures
            r@ == relay_error_of(error@),
            match error {
                SocketError::Connect(message) => r == RelayError::WebSocket(message),
                SocketError::Closed => r == RelayError::ConnectionClosed,
            },
    {
        match error {
            SocketError::Connect(message) => RelayError::WebSocket(message),
            SocketError::Closed => RelayError::ConnectionClosed,
        }
    }
}

impl vstd::std_specs::convert::FromSpecImpl<SocketError> for RelayError {
    open spec fn obeys_from_spec() -> bool {
        true
    }

    open spec fn from_spec(error: SocketError) -> RelayError {
        match error {
            SocketError::Connect(message) => RelayError::WebSocket(message),
            SocketError::Closed => RelayError::ConnectionClosed,
        }
    }
}

// ---------------------------------------------------------------------------
// Subscriptions
// ---------------------------------------------------------------------------

/// An item of the stream of a subscription.
pub type StreamItem = Result<ReqMessage, RelayError>;

/// The mathematical value of a [`StreamItem`].
pub type StreamItemView = Result<ReqMessageView, RelayErrorView>;

/// The view of a stream item.
pub open spec fn item_view(item: StreamItem) -> StreamItemView {
    match item {
        Ok(message) => Ok(message@),
        Err(error) => Err(error@),
    }
}

/// The view of a stream item that may not be there.
pub open spec fn optional_item_view(item: Option<StreamItem>) -> Option<StreamItemView> {
    match item {
        Some(item) => Some(item_view(item)),
        None => None,
    }
}

/// A subscription that nobody polled yet: nothing has been sent for it.
#[derive(Debug)]
pub struct Subscription {
    from: String,
    filters: Vec<Filter>,
}

/// The mathematical value of a [`Subscription`].
#[verifier::ext_equal]
pub struct SubscriptionView {
    pub from: Seq<char>,
    pub filters: Seq<FilterView>,
}

impl View for Subscription {
    type V = SubscriptionView;

    closed spec fn view(&self) -> SubscriptionView {
        SubscriptionView { from: self.from@, filters: filter_views(self.filters@) }
    }
}

/// A subscription whose channel is being opened.
#[derive(Debug)]
pub struct Opening {
    from: String,
    id: String,
    filters: Vec<Filter>,
}

/// The messages of a subscription to the relay.
#[derive(Debug)]
pub struct Handshake {
    /// The message that opens the subscription at the relay.
    pub subscribe_msg: String,
    /// The message that ends the subscription at the relay.
    pub unsubscribe_msg: String,
}

/// The mathematical value of an [`Opening`].
#[verifier::ext_equal]
pub struct OpeningView {
    pub from: Seq<char>,
    pub id: Seq<char>,
    pub filters: Seq<FilterView>,
}

impl View for Opening {
    type V = OpeningView;

    closed spec fn view(&self) -> OpeningView {
        OpeningView { from: self.from@, id: self.id@, filters: filter_views(self.filters@) }
    }
}

/// A subscription whose channel is open.
#[derive(Debug)]
pub struct LiveSubscription {
    from: String,
    id: String,
    ended: bool,
}

/// The mathematical value of a [`LiveSubscription`].
#[verifier::ext_equal]
pub struct LiveView {
    /// The relay that the subscription is with.
    pub from: Seq<char>,
    /// The identifier of the subscription.
    pub id: Seq<char>,
    /// The stream of the subscription has ended.
    pub ended: bool,
}

impl View for LiveSubscription {
    type V = LiveView;

    closed spec fn view(&self) -> LiveView {
        LiveView { from: self.from@, id: self.id@, ended: self.ended }
    }
}

/// What a message from the relay is to the subscription with the given
/// identifier. Messages for other subscriptions, messages of other kinds and
/// malformed frames are nothing to it.
pub open spec fn subscription_message(
    from: Seq<char>,
    id: Seq<char>,
    message: MessageResultView,
) -> Option<ReqMessageView> {
    match message {
        Ok(RelayMessageView::Event { sub_id, event }) => if sub_id == id {
            Some(ReqMessageView::Event { from, id, event })
        } else {
            None
        },
        Ok(RelayMessageView::Eose { sub_id }) => if sub_id == id {
            Some(ReqMessageView::Eose { from, id })
        } else {
            None
        },
        Ok(RelayMessageView::Closed { sub_id, reason }) => if sub_id == id {
            Some(ReqMessageView::Closed { from, id, reason })
        } else {
            None
        },
        _ => None,
    }
}

/// What the channel of a subscription reports.
pub enum ChannelInput {
    /// A frame came in.
    Frame(Seq<char>),
    /// The connection is gone.
    End,
}

/// The stream ends with this item.
pub open spec fn is_last(item: StreamItemView) -> bool {
    match item {
        Ok(message) => message is Closed,
        Err(_) => true,
    }
}

impl LiveView {
    /// The item that a parsed message gives rise to.
    pub open spec fn message_item(self, message: MessageResultView) -> Option<StreamItemView> {
        if self.ended {
            None
        } else {
            match subscription_message(self.from, self.id, message) {
                Some(message) => Some(Ok(message)),
                None => None,
            }
        }
    }

    /// The frame is one that the channel of the subscription lets through: the
    /// identifier stands in it.
    pub open spec fn lets_through(self, frame: Seq<char>) -> bool {
        occurs_in(self.id, frame)
    }

    /// The item that a report of the channel gives rise to.
    pub open spec fn item(self, input: ChannelInput) -> Option<StreamItemView> {
        match input {
            ChannelInput::Frame(frame) => if self.lets_through(frame) {
                self.message_item(message_of_text(frame))
            } else {
                None
            },
            ChannelInput::End => if self.ended {
                None
            } else {
                Some(Err(RelayErrorView::ConnectionClosed))
            },
        }
    }

    /// The subscription after it yielded an item, if it did.
    pub open spec fn after(self, item: Option<StreamItemView>) -> LiveView {
        match item {
            Some(item) => LiveView { ended: self.ended || is_last(item), ..self },
            None => self,
        }
    }

    /// The subscription after a sequence of reports of the channel.
    pub open spec fn after_inputs(self, inputs: Seq<ChannelInput>) -> LiveView
        decreases inputs.len(),
    {
        if inputs.len() == 0 {
            self
        } else {
            self.after(self.item(inputs[0])).after_inputs(inputs.drop_first())
        }
    }

    /// The items of the stream, for a sequence of reports of the channel.
    pub open spec fn items(self, inputs: Seq<ChannelInput>) -> Seq<StreamItemView>
        decreases inputs.len(),
    {
        if inputs.len() == 0 {
            Seq::empty()
        } else {
            let item = self.item(inputs[0]);
            let rest = self.after(item).items(inputs.drop_first());
            match item {
                Some(item) => seq![item] + rest,
                None => rest,
            }
        }
    }
}

impl OpeningView {
    /// The first item of the stream: the subscription is open, or why it is not.
    pub open spec fn first_item(self, outcome: Result<(), SocketErrorView>) -> StreamItemView {
        match outcome {
            Ok(_) => Ok(
                ReqMessageView::Open { from: self.from, id: self.id, filters: self.filters },
            ),
            Err(error) => Err(relay_error_of(error)),
        }
    }

    /// All items of the stream, for the outcome of opening the channel and a
    /// sequence of reports of the channel.
    pub open spec fn stream(
        self,
        outcome: Result<(), SocketErrorView>,
        inputs: Seq<ChannelInput>,
    ) -> Seq<StreamItemView> {
        let live = LiveView { from: self.from, id: self.id, ended: outcome is Err };
        seq![self.first_item(outcome)] + live.items(inputs)
    }

    /// The message that opens the subscription at the relay.
    pub open spec fn subscribe_message(self) -> ClientMessageView {
        ClientMessageView::Req { id: self.id, filters: self.filters }
    }

    /// The message that ends the subscription at the relay.
    pub open spec fn unsubscribe_message(self) -> ClientMessageView {
        ClientMessageView::Close { id: self.id }
    }
}

/// The text is what goes to the relay for the message.
pub open spec fn is_text_of(text: Seq<char>, message: ClientMessageView) -> bool {
    &&& text == json_text(client_message_json(message))
    &&& reads_as(text, client_message_json(message))
}

impl Subscription {
    /// Starts the subscription under a fresh random identifier.
    pub fn start(self) -> (r: (Opening, Handshake))
        ensures
            is_id(r.0@.id, 12),
            r.0@ == (OpeningView { from: self@.from, id: r.0@.id, filters: self@.filters }),
            is_text_of(r.1.subscribe_msg@, r.0@.subscribe_message()),
            is_text_of(r.1.unsubscribe_msg@, r.0@.unsubscribe_message()),
    {
        self.start_with_id(random_id(SUBSCRIPTION_ID_LEN))
    }

    /// Starts the subscription under the given identifier.
    pub fn start_with_id(self, id: String) -> (r: (Opening, Handshake))
        ensures
            r.0@ == (OpeningView { from: self@.from, id: id@, filters: self@.filters }),
            is_text_of(r.1.subscribe_msg@, r.0@.subscribe_message()),
            is_text_of(r.1.unsubscribe_msg@, r.0@.unsubscribe_message()),
    {
        let filters = clone_filters(&self.filters);
        let subscribe_msg = ClientMessage::Req { id: id.clone(), filters }.to_json();
        let unsubscribe_msg = ClientMessage::Close { id: id.clone() }.to_json();
        (
            Opening { from: self.from, id, filters: self.filters },
            Handshake { subscribe_msg, unsubscribe_msg },
        )
    }
}

/// The view of the outcome of opening a channel.
pub open spec fn outcome_view(outcome: Result<(), SocketError>) -> Result<(), SocketErrorView> {
    match outcome {
        Ok(_) => Ok(()),
        Err(error) => Err(error@),
    }
}

impl Opening {
    /// The identifier of the subscription.
    pub fn id(&self) -> (id: &str)
        ensures
            id@ == self@.id,
    {
        self.id.as_str()
    }

    /// Takes in the outcome of opening the channel, and gives the first item of
    /// the stream. The stream goes on only where the channel is open.
    pub fn opened(self, outcome: Result<(), SocketError>) -> (r: (
        StreamItem,
        Option<LiveSubscription>,
    ))
        ensures
            item_view(r.0) == self@.first_item(outcome_view(outcome)),
            match r.1 {
                Some(live) => outcome is Ok && live@ == (LiveView {
                    from: self@.from,
                    id: self@.id,
                    ended: false,
                }),
                None => outcome is Err,
            },
    {
        match outcome {
            Ok(_) => {
                let live = LiveSubscription {
                    from: self.from.clone(),
                    id: self.id.clone(),
                    ended: false,
                };
                (
                    Ok(ReqMessage::Open { from: self.from, id: self.id, filters: self.filters }),
                    Some(live),
                )
            },
            Err(error) => (Err(RelayError::from(error)), None),
        }
    }
}

impl LiveSubscription {
    /// The identifier of the subscription.
    pub fn id(&self) -> (id: &str)
        ensures
            id@ == self@.id,
    {
        self.id.as_str()
    }

    /// Whether the stream of the subscription has ended.
    pub fn has_ended(&self) -> (ended: bool)
        ensures
            ended == self@.ended,
    {
        self.ended
    }

    /// Whether the channel of the subscription lets a frame through: those
    /// frames in which the identifier stands.
    pub fn lets_through(&self, frame: &str) -> (through: bool)
        ensures
            through == self@.lets_through(frame@),
    {
        contains(frame, self.id.as_str())
    }

    /// Takes in a parsed message, and gives the item to yield, if there is one.
    pub fn on_message(&mut self, message: MessageResult) -> (item: Option<StreamItem>)
        ensures
            optional_item_view(item) == old(self)@.message_item(message_result_view(message)),
            final(self)@ == old(self)@.after(optional_item_view(item)),
    {
        if self.ended {
            return None;
        }
        match message {
            Ok(RelayMessage::Event { sub_id, event }) => if sub_id == self.id {
                Some(Ok(ReqMessage::Event { from: self.from.clone(), id: sub_id, event }))
            } else {
                None
            },
            Ok(RelayMessage::Eose { sub_id }) => if sub_id == self.id {
                Some(Ok(ReqMessage::Eose { from: self.from.clone(), id: sub_id }))
            } else {
                None
            },
            Ok(RelayMessage::Closed { sub_id, reason }) => if sub_id == self.id {
                self.ended = true;
                Some(Ok(ReqMessage::Closed { from: self.from.clone(), id: sub_id, reason }))
            } else {
                None
            },
            _ => None,
        }
    }

    /// Takes in a frame, and gives the item to yield, if there is one.
    pub fn on_frame(&mut self, frame: &str) -> (item: Option<StreamItem>)
        ensures
            optional_item_view(item) == old(self)@.item(ChannelInput::Frame(frame@)),
            final(self)@ == old(self)@.after(optional_item_view(item)),
    {
        if self.lets_through(frame) {
            self.on_message(RelayMessage::from_json(frame))
        } else {
            None
        }
    }

    /// Takes in that the connection is gone, and gives the item to yield, if
    /// there is one.
    pub fn on_end(&mut self) -> (item: Option<StreamItem>)
        ensures
            optional_item_view(item) == old(self)@.item(ChannelInput::End),
            final(self)@ == old(self)@.after(optional_item_view(item)),
    {
        if self.ended {
            return None;
        }
        self.ended = true;
        Some(Err(RelayError::ConnectionClosed))
    }
}

// ---------------------------------------------------------------------------
// Stream adapters
// ---------------------------------------------------------------------------

/// An item of a stream of events.
pub type EventItem = Result<NostrEvent, RelayError>;

/// The mathematical value of an [`EventItem`].
pub type EventItemView = Result<NostrEventView, RelayErrorView>;

/// The view of an item of a stream of events.
pub open spec fn event_item_view(item: EventItem) -> EventItemView {
    match item {
        Ok(event) => Ok(event@),
        Err(error) => Err(error@),
    }
}

/// The event or the error in a stream item, where there is one.
pub open spec fn event_item(item: StreamItemView) -> Option<EventItemView> {
    match item {
        Ok(ReqMessageView::Event { event, .. }) => Some(Ok(event)),
        Ok(_) => None,
        Err(error) => Some(Err(error)),
    }
}

/// The events and errors in a stream.
pub open spec fn event_items(items: Seq<StreamItemView>) -> Seq<EventItemView>
    decreases items.len(),
{
    if items.len() == 0 {
        Seq::empty()
    } else {
        match event_item(items[0]) {
            Some(item) => seq![item] + event_items(items.drop_first()),
            None => event_items(items.drop_first()),
        }
    }
}

/// What an adapter does with an item of the stream that it adapts.
#[derive(Debug)]
pub enum Adapted {
    /// Yield an item.
    Yield(EventItem),
    /// Yield nothing.
    Skip,
    /// Yield an item and end.
    YieldLast(EventItem),
    /// End.
    End,
}

/// The mathematical value of an [`Adapted`].
#[verifier::ext_equal]
pub enum AdaptedView {
    Yield(EventItemView),
    Skip,
    YieldLast(EventItemView),
    End,
}

impl View for Adapted {
    type V = AdaptedView;

    open spec fn view(&self) -> AdaptedView {
        match self {
            Adapted::Yield(item) => AdaptedView::Yield(event_item_view(*item)),
            Adapted::Skip => AdaptedView::Skip,
            Adapted::YieldLast(item) => AdaptedView::YieldLast(event_item_view(*item)),
            Adapted::End => AdaptedView::End,
        }
    }
}

/// What becomes of a stream item where only stored events are wanted: `Eose`
/// ends the stream, and so does an error, which is kept.
pub open spec fn stored_event_step(item: StreamItemView) -> AdaptedView {
    match item {
        Ok(ReqMessageView::Event { event, .. }) => AdaptedView::Yield(Ok(event)),
        Ok(ReqMessageView::Eose { .. }) => AdaptedView::End,
        Ok(_) => AdaptedView::Skip,
        Err(error) => AdaptedView::YieldLast(Err(error)),
    }
}

/// The stored events of a stream.
pub open spec fn stored_event_items(items: Seq<StreamItemView>) -> Seq<EventItemView>
    decreases items.len(),
{
    if items.len() == 0 {
        Seq::empty()
    } else {
        match stored_event_step(items[0]) {
            AdaptedView::Yield(item) => seq![item] + stored_event_items(items.drop_first()),
            AdaptedView::Skip => stored_event_items(items.drop_first()),
            AdaptedView::YieldLast(item) => seq![item],
            AdaptedView::End => Seq::empty(),
        }
    }
}

/// Filters a stream down to events: `Open`, `Eose` and `Closed` are discarded,
/// and errors are kept.
pub fn events(item: StreamItem) -> (r: Option<EventItem>)
    ensures
        match r {
            Some(kept) => event_item(item_view(item)) == Some(event_item_view(kept)),
            None => event_item(item_view(item)) is None,
        },
{
    match item {
        Ok(ReqMessage::Event { event, .. }) => Some(Ok(event)),
        Ok(_) => None,
        Err(error) => Some(Err(error)),
    }
}

/// Filters a stream down to events, and ends it when `Eose` arrives. Errors are
/// kept, and end it too.
pub fn until_eose(item: StreamItem) -> (r: Adapted)
    ensures
        r@ == stored_event_step(item_view(item)),
{
    match item {
        Ok(ReqMessage::Event { event, .. }) => Adapted::Yield(Ok(event)),
        Ok(ReqMessage::Eose { .. }) => Adapted::End,
        Ok(_) => Adapted::Skip,
        Err(error) => Adapted::YieldLast(Err(error)),
    }
}

// ---------------------------------------------------------------------------
// Requests with one answer
// ---------------------------------------------------------------------------

/// What the listener of a request is woken by.
#[derive(Debug)]
pub enum ListenEvent {
    /// The caller no longer waits for the answer.
    CallerGone,
    /// The receiver of the inbound frames reports.
    Received(Received),
}

/// The mathematical value of a [`ListenEvent`].
#[verifier::ext_equal]
pub enum ListenEventView {
    CallerGone,
    Received(ReceivedView),
}

impl View for ListenEvent {
    type V = ListenEventView;

    open spec fn view(&self) -> ListenEventView {
        match self {
            ListenEvent::CallerGone => ListenEventView::CallerGone,
            ListenEvent::Received(received) => ListenEventView::Received(received@),
        }
    }
}

/// What the listener of a request does next.
#[derive(Debug)]
pub enum Listen<T> {
    /// Go on listening.
    Wait,
    /// Hand the answer to the caller, and stop.
    Reply(T),
    /// Stop without an answer.
    Stop,
}

/// The mathematical value of a [`Listen`].
#[verifier::ext_equal]
pub enum ListenView<V> {
    Wait,
    Reply(V),
    Stop,
}

impl<T: View> View for Listen<T> {
    type V = ListenView<T::V>;

    open spec fn view(&self) -> ListenView<T::V> {
        match self {
            Listen::Wait => ListenView::Wait,
            Listen::Reply(answer) => ListenView::Reply(answer@),
            Listen::Stop => ListenView::Stop,
        }
    }
}

/// What a listener does when it is woken, for the answer that the frame it is
/// woken by holds: an answer ends the wait, and so does the end of the
/// connection or of the caller's interest.
pub open spec fn listen_step<V>(event: ListenEventView, answer: Option<V>) -> ListenView<V> {
    match event {
        ListenEventView::Received(ReceivedView::Text(_)) => match answer {
            Some(answer) => ListenView::Reply(answer),
            None => ListenView::Wait,
        },
        ListenEventView::Received(ReceivedView::Lagged(_)) => ListenView::Wait,
        ListenEventView::Received(ReceivedView::Closed) => ListenView::Stop,
        ListenEventView::CallerGone => ListenView::Stop,
    }
}

/// What the relay says in the frame that a listener is woken by.
pub open spec fn heard(event: ListenEventView) -> Option<MessageResultView> {
    match event {
        ListenEventView::Received(ReceivedView::Text(frame)) => Some(message_of_text(frame)),
        _ => None,
    }
}

/// Where a listener gets with what it does one after the other.
pub open spec fn first_outcome<V>(steps: Seq<ListenView<V>>) -> ListenView<V>
    decreases steps.len(),
{
    if steps.len() == 0 {
        ListenView::Wait
    } else if steps[0] is Wait {
        first_outcome(steps.drop_first())
    } else {
        steps[0]
    }
}

/// How a request ended.
#[derive(Debug)]
pub enum Waited<T> {
    /// There was no connection, or the request could not be queued.
    NotSent(SocketError),
    /// The listener gave an answer.
    Answered(T),
    /// The listener stopped without an answer.
    Abandoned,
    /// There was no answer in time.
    TimedOut,
}

/// The result of a request, by how it ended.
pub fn settle<T>(waited: Waited<T>) -> (r: Result<T, RelayError>)
    ensures
        match waited {
            Waited::NotSent(error) => r matches Err(relay_error) && relay_error@ == relay_error_of(
                error@,
            ),
            Waited::Answered(answer) => r == Ok::<T, RelayError>(answer),
            Waited::Abandoned => r matches Err(error) && error is ConnectionClosed,
            Waited::TimedOut => r matches Err(error) && error is Timeout,
        },
{
    match waited {
        Waited::NotSent(error) => Err(RelayError::from(error)),
        Waited::Answered(answer) => Ok(answer),
        Waited::Abandoned => Err(RelayError::ConnectionClosed),
        Waited::TimedOut => Err(RelayError::Timeout),
    }
}

/// An event on its way to the relay, which answers with an `OK` message.
#[derive(Debug)]
pub struct OkRequest {
    from: String,
    event_id: String,
}

/// The mathematical value of an [`OkRequest`].
#[verifier::ext_equal]
pub struct OkRequestView {
    /// The relay that the event goes to.
    pub from: Seq<char>,
    /// The identifier of the event.
    pub event_id: Seq<char>,
}

impl View for OkRequest {
    type V = OkRequestView;

    closed spec fn view(&self) -> OkRequestView {
        OkRequestView { from: self.from@, event_id: self.event_id@ }
    }
}

impl OkRequestView {
    /// The answer that a message from the relay is to the request: only an `OK`
    /// message for the same event is one.
    pub open spec fn answer(self, message: MessageResultView) -> Option<PublishResponseView> {
        match message {
            Ok(RelayMessageView::OkReply { event_id, ok, message }) => if event_id
                == self.event_id {
                Some(PublishResponseView { from: self.from, event_id, ok, message })
            } else {
                None
            },
            _ => None,
        }
    }

    /// What the listener of the request does when it is woken.
    pub open spec fn listen(self, event: ListenEventView) -> ListenView<PublishResponseView> {
        listen_step(
            event,
            match heard(event) {
                Some(message) => self.answer(message),
                None => None,
            },
        )
    }

    /// What the listener does with a sequence of events.
    pub open spec fn steps(self, events: Seq<ListenEventView>) -> Seq<
        ListenView<PublishResponseView>,
    > {
        Seq::new(events.len(), |i: int| self.listen(events[i]))
    }

    /// How far the listener gets with a sequence of events.
    pub open spec fn outcome(self, events: Seq<ListenEventView>) -> ListenView<PublishResponseView> {
        first_outcome(self.steps(events))
    }
}

impl OkRequest {
    /// The answer that a message from the relay is to the request, if it is one.
    pub fn answer(&self, message: MessageResult) -> (r: Option<PublishResponse>)
        ensures
            match r {
                Some(response) => self@.answer(message_result_view(message)) == Some(response@),
                None => self@.answer(message_result_view(message)) is None,
            },
    {
        match message {
            Ok(RelayMessage::OkReply { event_id, ok, message }) => if event_id == self.event_id {
                Some(PublishResponse { from: self.from.clone(), event_id, ok, message })
            } else {
                None
            },
            _ => None,
        }
    }

    /// What the listener of the request does when it is woken.
    pub fn listen(&self, event: ListenEvent) -> (r: Listen<PublishResponse>)
        ensures
            r@ == self@.listen(event@),
    {
        match event {
            ListenEvent::CallerGone => Listen::Stop,
            ListenEvent::Received(Received::Closed) => Listen::Stop,
            ListenEvent::Received(Received::Lagged(_)) => Listen::Wait,
            ListenEvent::Received(Received::Text(frame)) => match self.answer(
                RelayMessage::from_json(frame.as_str()),
            ) {
                Some(response) => Listen::Reply(response),
                None => Listen::Wait,
            },
        }
    }
}

/// A NIP-45 count on its way, which the relay answers with a `COUNT` message.
#[derive(Debug)]
pub struct CountRequest {
    from: String,
    id: String,
}

/// The mathematical value of a [`CountRequest`].
#[verifier::ext_equal]
pub struct CountRequestView {
    /// The relay that the request goes to.
    pub from: Seq<char>,
    /// The identifier of the request.
    pub id: Seq<char>,
}

impl View for CountRequest {
    type V = CountRequestView;

    closed spec fn view(&self) -> CountRequestView {
        CountRequestView { from: self.from@, id: self.id@ }
    }
}

impl CountRequestView {
    /// The answer that a message from the relay is to the request: only a
    /// `COUNT` message with the same identifier is one.
    pub open spec fn answer(self, message: MessageResultView) -> Option<CountResponseView> {
        match message {
            Ok(RelayMessageView::Count { sub_id, count }) => if sub_id == self.id {
                Some(CountResponseView { from: self.from, sub_id, count })
            } else {
                None
            },
            _ => None,
        }
    }

    /// What the listener of the request does when it is woken.
    pub open spec fn listen(self, event: ListenEventView) -> ListenView<CountResponseView> {
        listen_step(
            event,
            match heard(event) {
                Some(message) => self.answer(message),
                None => None,
            },
        )
    }

    /// What the listener does with a sequence of events.
    pub open spec fn steps(self, events: Seq<ListenEventView>) -> Seq<
        ListenView<CountResponseView>,
    > {
        Seq::new(events.len(), |i: int| self.listen(events[i]))
    }

    /// How far the listener gets with a sequence of events.
    pub open spec fn outcome(self, events: Seq<ListenEventView>) -> ListenView<CountResponseView> {
        first_outcome(self.steps(events))
    }
}

impl CountRequest {
    /// The answer that a message from the relay is to the request, if it is one.
    pub fn answer(&self, message: MessageResult) -> (r: Option<CountResponse>)
        ensures
            match r {
                Some(response) => self@.answer(message_result_view(message)) == Some(response@),
                None => self@.answer(message_result_view(message)) is None,
            },
    {
        match message {
            Ok(RelayMessage::Count { sub_id, count }) => if sub_id == self.id {
                Some(CountResponse { from: self.from.clone(), sub_id, count })
            } else {
                None
            },
            _ => None,
        }
    }

    /// What the listener of the request does when it is woken.
    pub fn listen(&self, event: ListenEvent) -> (r: Listen<CountResponse>)
        ensures
            r@ == self@.listen(event@),
    {
        match event {
            ListenEvent::CallerGone => Listen::Stop,
            ListenEvent::Received(Received::Closed) => Listen::Stop,
            ListenEvent::Received(Received::Lagged(_)) => Listen::Wait,
            ListenEvent::Received(Received::Text(frame)) => match self.answer(
                RelayMessage::from_json(frame.as_str()),
            ) {
                Some(response) => Listen::Reply(response),
                None => Listen::Wait,
            },
        }
    }
}

// ---------------------------------------------------------------------------
// Parsed messages
// ---------------------------------------------------------------------------

/// What the stream of parsed messages does with a parsed frame.
pub open spec fn parsed_delivery(message: MessageResultView) -> DeliveryView<RelayMessageView> {
    match message {
        Ok(message) => DeliveryView::Yield(message),
        Err(error) => DeliveryView::Malformed(error),
    }
}

/// What the stream of parsed messages does with a report of its receiver.
pub open spec fn message_delivery(received: ReceivedView) -> DeliveryView<RelayMessageView> {
    match received {
        ReceivedView::Text(frame) => parsed_delivery(message_of_text(frame)),
        ReceivedView::Lagged(lost) => DeliveryView::Lagged(lost),
        ReceivedView::Closed => DeliveryView::End,
    }
}

/// What the stream of parsed messages does with a parsed frame: a malformed one
/// is left out.
pub fn deliver_message(message: MessageResult) -> (delivery: Delivery<RelayMessage>)
    ensures
        delivery@ == parsed_delivery(message_result_view(message)),
{
    match message {
        Ok(message) => Delivery::Yield(message),
        Err(error) => Delivery::Malformed(error),
    }
}

// ---------------------------------------------------------------------------
// Relay
// ---------------------------------------------------------------------------

/// A Nostr relay client.
///
/// Nothing here connects: a subscription or a request tells what to send, and
/// the socket tells how to get at a connection.
#[derive(Debug)]
pub struct Relay {
    socket: RelaySocket,
}

impl View for Relay {
    type V = SocketView;

    closed spec fn view(&self) -> SocketView {
        self.socket@
    }
}

impl Relay {
    /// Creates a new relay with the default keep-alive (30 s).
    pub fn new(url: &str) -> (r: Self)
        ensures
            r@ == SocketView::fresh(url@, seconds(30)),
    {
        Relay { socket: RelaySocket::new(url) }
    }

    /// Creates a new relay with a custom keep-alive duration.
    pub fn with_keep_alive(url: &str, keep_alive: Duration) -> (r: Self)
        ensures
            r@ == SocketView::fresh(url@, keep_alive),
    {
        Relay { socket: RelaySocket::with_keep_alive(url, keep_alive) }
    }

    /// The address of the relay.
    pub fn url(&self) -> (url: &str)
        ensures
            url@ == self@.url,
    {
        self.socket.url()
    }

    /// Whether there is a connection.
    pub fn is_connected(&self) -> (connected: bool)
        ensures
            connected == (self@.connection is Some),
    {
        self.socket.is_connected()
    }

    /// The count of open subscriptions.
    pub fn subscription_count(&self) -> (count: usize)
        ensures
            count == self@.channels,
    {
        self.socket.channel_count()
    }

    /// The underlying [`RelaySocket`].
    pub fn socket(&self) -> (socket: &RelaySocket)
        ensures
            socket@ == self@,
    {
        &self.socket
    }

    /// The underlying [`RelaySocket`], for the steps that change it.
    pub fn socket_mut(&mut self) -> (socket: &mut RelaySocket)
        ensures
            socket@ == old(self)@,
            final(self)@ == final(socket)@,
    {
        &mut self.socket
    }

    /// Opens the socket explicitly: any connection will do, and an error of the
    /// socket is an error of the relay.
    pub fn connect(ready: Result<u64, SocketError>) -> (r: Result<(), RelayError>)
        ensures
            match (ready, r) {
                (Ok(_), Ok(_)) => true,
                (Err(error), Err(relay_error)) => relay_error@ == relay_error_of(error@),
                _ => false,
            },
    {
        match RelaySocket::connect(ready) {
            Ok(_) => Ok(()),
            Err(error) => Err(RelayError::from(error)),
        }
    }

    /// Closes the socket on purpose. Gives the order that closes the
    /// connection, where there is one.
    pub fn disconnect(&mut self) -> (order: Option<Order>)
        ensures
            final(self)@ == old(self)@.after(SocketStep::Disconnected),
            order == disconnect_order(old(self)@.connection),
    {
        self.socket.disconnect()
    }

    /// Subscribes to the relay with the given filters.
    ///
    /// Nothing happens until the subscription is started.
    pub fn req(&self, filters: Vec<Filter>) -> (subscription: Subscription)
        ensures
            subscription@ == (SubscriptionView {
                from: self@.url,
                filters: filter_views(filters@),
            }),
    {
        Subscription { from: self.socket.url().to_owned(), filters }
    }

    /// Publishes a Nostr event. Gives the request and the text to send.
    pub fn publish(&self, event: NostrEvent) -> (r: (OkRequest, String))
        ensures
            r.0@ == (OkRequestView { from: self@.url, event_id: event@.id }),
            is_text_of(r.1@, ClientMessageView::Event(event@)),
    {
        let event_id = event.id.clone();
        self.await_ok_response(ClientMessage::Event(event), event_id)
    }

    /// Sends a NIP-42 AUTH response event. Gives the request and the text to
    /// send.
    pub fn auth(&self, event: NostrEvent) -> (r: (OkRequest, String))
        ensures
            r.0@ == (OkRequestView { from: self@.url, event_id: event@.id }),
            is_text_of(r.1@, ClientMessageView::Auth(event@)),
    {
        let event_id = event.id.clone();
        self.await_ok_response(ClientMessage::Auth(event), event_id)
    }

    /// A message that the relay answers with an `OK` message for the given
    /// event, and the text to send.
    fn await_ok_response(&self, outbound: ClientMessage, event_id: String) -> (r: (
        OkRequest,
        String,
    ))
        ensures
            r.0@ == (OkRequestView { from: self@.url, event_id: event_id@ }),
            is_text_of(r.1@, outbound@),
    {
        let request = OkRequest { from: self.socket.url().to_owned(), event_id };
        (request, outbound.to_json())
    }

    /// Sends a NIP-45 COUNT request under a fresh random identifier. Gives the
    /// request and the text to send.
    pub fn count(&self, filters: Vec<Filter>) -> (r: (CountRequest, String))
        ensures
            r.0@.from == self@.url,
            is_id(r.0@.id, 12),
            is_text_of(
                r.1@,
                ClientMessageView::Count { id: r.0@.id, filters: filter_views(filters@) },
            ),
    {
        self.count_with_id(random_id(SUBSCRIPTION_ID_LEN), filters)
    }

    /// Sends a NIP-45 COUNT request under the given identifier. Gives the
    /// request and the text to send.
    pub fn count_with_id(&self, id: String, filters: Vec<Filter>) -> (r: (CountRequest, String))
        ensures
            r.0@ == (CountRequestView { from: self@.url, id: id@ }),
            is_text_of(
                r.1@,
                ClientMessageView::Count { id: id@, filters: filter_views(filters@) },
            ),
    {
        let request = CountRequest { from: self.socket.url().to_owned(), id: id.clone() };
        (request, ClientMessage::Count { id, filters }.to_json())
    }

    /// What the stream of parsed messages does with a report of its receiver:
    /// it yields every frame that is a relay message, leaves malformed ones
    /// out, goes on over a gap, and ends with the connection.
    pub fn messages(received: Received) -> (delivery: Delivery<RelayMessage>)
        ensures
            delivery@ == message_delivery(received@),
    {
        match received {
            Received::Text(frame) => deliver_message(RelayMessage::from_json(frame.as_str())),
            Received::Lagged(lost) => Delivery::Lagged(lost),
            Received::Closed => Delivery::End,
        }
    }
}

// ---------------------------------------------------------------------------
// Laws
// ---------------------------------------------------------------------------

/// A subscription that has ended yields nothing more.
pub proof fn law_ended_stays_ended(live: LiveView, inputs: Seq<ChannelInput>)
    requires
        live.ended,
    ensures
        live.items(inputs) == Seq::<StreamItemView>::empty(),
    decreases inputs.len(),
{
    if inputs.len() > 0 {
        assert(live.item(inputs[0]) is None);
        law_ended_stays_ended(live, inputs.drop_first());
    }
}

/// A subscription gets to see only what is its own: every message that its
/// stream yields carries its identifier and the address of its relay.
pub proof fn law_stream_is_own(
    opening: OpeningView,
    outcome: Result<(), SocketErrorView>,
    inputs: Seq<ChannelInput>,
    at: int,
)
    requires
        0 <= at < opening.stream(outcome, inputs).len(),
    ensures
        opening.stream(outcome, inputs)[at] matches Ok(message) ==> message.id() == opening.id
            && message.from() == opening.from,
{
    let live = LiveView { from: opening.from, id: opening.id, ended: outcome is Err };
    if at > 0 {
        lemma_items_are_own(live, inputs, at - 1);
    }
}

proof fn lemma_items_are_own(live: LiveView, inputs: Seq<ChannelInput>, at: int)
    requires
        0 <= at < live.items(inputs).len(),
    ensures
        live.items(inputs)[at] matches Ok(message) ==> message.id() == live.id && message.from()
            == live.from,
    decreases inputs.len(),
{
    let item = live.item(inputs[0]);
    let next = live.after(item);
    match item {
        Some(_) => if at > 0 {
            lemma_items_are_own(next, inputs.drop_first(), at - 1);
        },
        None => lemma_items_are_own(next, inputs.drop_first(), at),
    }
}

/// A stream ends with its first error or `Closed` message: nothing comes after
/// such an item.
pub proof fn law_stream_ends(
    opening: OpeningView,
    outcome: Result<(), SocketErrorView>,
    inputs: Seq<ChannelInput>,
    at: int,
)
    requires
        0 <= at < opening.stream(outcome, inputs).len(),
        is_last(opening.stream(outcome, inputs)[at]),
    ensures
        at == opening.stream(outcome, inputs).len() - 1,
{
    let live = LiveView { from: opening.from, id: opening.id, ended: outcome is Err };
    if at > 0 {
        lemma_items_end(live, inputs, at - 1);
    } else {
        law_ended_stays_ended(live, inputs);
    }
}

proof fn lemma_items_end(live: LiveView, inputs: Seq<ChannelInput>, at: int)
    requires
        0 <= at < live.items(inputs).len(),
        is_last(live.items(inputs)[at]),
    ensures
        at == live.items(inputs).len() - 1,
    decreases inputs.len(),
{
    let item = live.item(inputs[0]);
    let next = live.after(item);
    let rest = inputs.drop_first();
    match item {
        Some(first) => if at > 0 {
            lemma_items_end(next, rest, at - 1);
        } else {
            law_ended_stays_ended(next, rest);
        },
        None => lemma_items_end(next, rest, at),
    }
}

/// A stream begins with `Open` where the channel was opened, and consists of
/// the error alone where it was not. `Open` comes only once.
pub proof fn law_stream_begins_with_open(
    opening: OpeningView,
    outcome: Result<(), SocketErrorView>,
    inputs: Seq<ChannelInput>,
)
    ensures
        ({
            let stream = opening.stream(outcome, inputs);
            match outcome {
                Ok(_) => {
                    &&& stream.len() > 0
                    &&& stream[0] == Ok::<ReqMessageView, RelayErrorView>(
                        ReqMessageView::Open {
                            from: opening.from,
                            id: opening.id,
                            filters: opening.filters,
                        },
                    )
                    &&& forall|at: int|
                        0 < at < stream.len() ==> !(#[trigger] stream[at] matches Ok(
                            ReqMessageView::Open { .. },
                        ))
                },
                Err(error) => stream =~= seq![
                    Err::<ReqMessageView, RelayErrorView>(relay_error_of(error)),
                ],
            }
        }),
{
    let live = LiveView { from: opening.from, id: opening.id, ended: outcome is Err };
    let stream = opening.stream(outcome, inputs);
    if outcome is Err {
        law_ended_stays_ended(live, inputs);
    } else {
        assert forall|at: int| 0 < at < stream.len() implies !(#[trigger] stream[at] matches Ok(
            ReqMessageView::Open { .. },
        )) by {
            lemma_items_are_not_open(live, inputs, at - 1);
            assert(stream[at] == live.items(inputs)[at - 1]);
        }
    }
}

proof fn lemma_items_are_not_open(live: LiveView, inputs: Seq<ChannelInput>, at: int)
    requires
        0 <= at < live.items(inputs).len(),
    ensures
        !(live.items(inputs)[at] matches Ok(ReqMessageView::Open { .. })),
    decreases inputs.len(),
{
    let item = live.item(inputs[0]);
    let next = live.after(item);
    match item {
        Some(_) => if at > 0 {
            lemma_items_are_not_open(next, inputs.drop_first(), at - 1);
        },
        None => lemma_items_are_not_open(next, inputs.drop_first(), at),
    }
}

/// Subscriptions on one socket are isolated: no frame gives rise to a message
/// in two of them.
pub proof fn law_subscriptions_are_isolated(a: LiveView, b: LiveView, frame: Seq<char>)
    requires
        a.id != b.id,
    ensures
        a.item(ChannelInput::Frame(frame)) is None || b.item(ChannelInput::Frame(frame)) is None,
{
}

/// A frame that is no `EVENT`, `EOSE` or `CLOSED` message for a subscription
/// goes by it without a trace.
pub proof fn law_other_frames_go_by(live: LiveView, frame: Seq<char>)
    requires
        subscription_message(live.from, live.id, message_of_text(frame)) is None,
    ensures
        live.item(ChannelInput::Frame(frame)) is None,
        live.after(live.item(ChannelInput::Frame(frame))) == live,
{
}

/// While a subscription is live, every message for it that its channel lets
/// through is delivered. Only `Closed` ends the subscription.
pub proof fn law_own_messages_are_delivered(
    live: LiveView,
    frame: Seq<char>,
    message: ReqMessageView,
)
    requires
        !live.ended,
        live.lets_through(frame),
        subscription_message(live.from, live.id, message_of_text(frame)) == Some(message),
    ensures
        live.item(ChannelInput::Frame(frame)) == Some(
            Ok::<ReqMessageView, RelayErrorView>(message),
        ),
        live.after(live.item(ChannelInput::Frame(frame))) == (LiveView {
            ended: message is Closed,
            ..live
        }),
{
}

/// An event that the relay sends to a live subscription in the documented form
/// is delivered as it was sent, provided that the identifier stands in the frame
/// as it is.
pub proof fn law_sent_events_are_delivered(live: LiveView, frame: Seq<char>, event: NostrEventView)
    requires
        !live.ended,
        live.lets_through(frame),
        reads_as(
            frame,
            relay_message_json(RelayMessageView::Event { sub_id: live.id, event }),
        ),
    ensures
        live.item(ChannelInput::Frame(frame)) == Some(
            Ok::<ReqMessageView, RelayErrorView>(
                ReqMessageView::Event { from: live.from, id: live.id, event },
            ),
        ),
        live.after(live.item(ChannelInput::Frame(frame))) == live,
{
    law_documented_frames_are_read(
        frame,
        RelayMessageView::Event { sub_id: live.id, event },
    );
}

/// The end of the stored events does not end a subscription: the live feed
/// continues.
pub proof fn law_eose_keeps_the_feed_open(live: LiveView, frame: Seq<char>)
    requires
        !live.ended,
        message_of_text(frame) == Ok::<RelayMessageView, ParseErrorView>(
            RelayMessageView::Eose { sub_id: live.id },
        ),
    ensures
        !live.after(live.item(ChannelInput::Frame(frame))).ended,
{
}

/// The items of a stream over two stretches of reports are those over the
/// first, followed by those over the second.
pub proof fn law_items_come_in_order(
    live: LiveView,
    first: Seq<ChannelInput>,
    second: Seq<ChannelInput>,
)
    ensures
        live.items(first + second) == live.items(first) + live.after_inputs(first).items(second),
    decreases first.len(),
{
    if first.len() > 0 {
        let item = live.item(first[0]);
        assert((first + second).drop_first() =~= first.drop_first() + second);
        assert((first + second)[0] == first[0]);
        law_items_come_in_order(live.after(item), first.drop_first(), second);
        assert(live.items(first + second) =~= live.items(first) + live.after_inputs(first).items(
            second,
        ));
    } else {
        assert(first + second =~= second);
        assert(live.items(first) + live.items(second) =~= live.items(second));
    }
}

/// One-shot queries see a beginning of what the event stream shows: what
/// `until_eose` yields is what `events` yields, cut off.
pub proof fn law_until_eose_is_prefix_of_events(items: Seq<StreamItemView>)
    ensures
        stored_event_items(items).is_prefix_of(event_items(items)),
    decreases items.len(),
{
    if items.len() > 0 {
        law_until_eose_is_prefix_of_events(items.drop_first());
    }
}

/// `until_eose` shows nothing of what comes after `Eose`.
pub proof fn law_until_eose_stops_at_eose(
    before: Seq<StreamItemView>,
    from: Seq<char>,
    id: Seq<char>,
    after: Seq<StreamItemView>,
)
    ensures
        stored_event_items(before.push(Ok(ReqMessageView::Eose { from, id })) + after)
            == stored_event_items(before),
    decreases before.len(),
{
    let eose = Ok::<ReqMessageView, RelayErrorView>(ReqMessageView::Eose { from, id });
    let whole = before.push(eose) + after;
    if before.len() > 0 {
        law_until_eose_stops_at_eose(before.drop_first(), from, id, after);
        assert(whole.drop_first() =~= before.drop_first().push(eose) + after);
        assert(whole[0] == before[0]);
    } else {
        assert(whole[0] == eose);
    }
}

/// Where `until_eose` cuts a stream off: before the first `Eose`, or just after
/// the first error, whichever comes first, or at the end where there is neither.
pub open spec fn is_cut(items: Seq<StreamItemView>, end: nat) -> bool {
    &&& end <= items.len()
    &&& forall|i: int|
        0 <= i < end ==> !(#[trigger] items[i] matches Ok(ReqMessageView::Eose { .. }))
    &&& forall|i: int| 0 <= i < end - 1 ==> (#[trigger] items[i]) is Ok
    &&& {
        ||| end == items.len()
        ||| items[end as int] matches Ok(ReqMessageView::Eose { .. })
        ||| end > 0 && items[end - 1] is Err
    }
}

/// The number of items before the cut.
pub open spec fn cut_of(items: Seq<StreamItemView>) -> nat
    decreases items.len(),
{
    if items.len() == 0 {
        0
    } else {
        match items[0] {
            Ok(ReqMessageView::Eose { .. }) => 0,
            Ok(_) => 1 + cut_of(items.drop_first()),
            Err(_) => 1,
        }
    }
}

/// Of any stream, whatever comes in it after an error, `until_eose` shows what
/// `events` shows of the items before the cut.
pub proof fn law_until_eose_is_events_cut_off(items: Seq<StreamItemView>)
    ensures
        is_cut(items, cut_of(items)),
        stored_event_items(items) == event_items(items.take(cut_of(items) as int)),
    decreases items.len(),
{
    if items.len() > 0 {
        let rest = items.drop_first();
        let end = cut_of(items);
        law_until_eose_is_events_cut_off(rest);
        match items[0] {
            Ok(ReqMessageView::Eose { .. }) => {
                assert(items.take(0) =~= Seq::empty());
            },
            Ok(_) => {
                let shorter = cut_of(rest);
                assert forall|i: int| 0 <= i < end implies !(#[trigger] items[i] matches Ok(
                    ReqMessageView::Eose { .. },
                )) by {
                    assert(i > 0 ==> items[i] == rest[i - 1]);
                }
                assert forall|i: int| 0 <= i < end - 1 implies (#[trigger] items[i]) is Ok by {
                    assert(i > 0 ==> items[i] == rest[i - 1]);
                }
                assert(shorter < rest.len() ==> items[end as int] == rest[shorter as int]);
                assert(shorter > 0 ==> items[end - 1] == rest[shorter - 1]);
                assert(items.take(end as int).drop_first() =~= rest.take(shorter as int));
            },
            Err(_) => {
                let first = items.take(1);
                assert(first[0] == items[0]);
                assert(event_items(first.drop_first()) =~= Seq::empty());
                assert(event_items(first) =~= stored_event_items(items));
            },
        }
    } else {
        assert(items.take(0) =~= Seq::empty());
    }
}

/// In a stream without an `Eose` and with no error but perhaps at its end,
/// `until_eose` shows every event.
pub proof fn law_until_eose_shows_all_stored_events(items: Seq<StreamItemView>)
    requires
        forall|i: int|
            0 <= i < items.len() ==> !(#[trigger] items[i] matches Ok(ReqMessageView::Eose { .. })),
        forall|i: int| 0 <= i < items.len() - 1 ==> (#[trigger] items[i]) is Ok,
    ensures
        stored_event_items(items) == event_items(items),
    decreases items.len(),
{
    if items.len() > 0 {
        let rest = items.drop_first();
        assert forall|i: int| 0 <= i < rest.len() implies !(#[trigger] rest[i] matches Ok(
            ReqMessageView::Eose { .. },
        )) by {
            assert(rest[i] == items[i + 1]);
        }
        assert forall|i: int| 0 <= i < rest.len() - 1 implies (#[trigger] rest[i]) is Ok by {
            assert(rest[i] == items[i + 1]);
        }
        law_until_eose_shows_all_stored_events(rest);
        if items[0] is Err {
            assert(items.len() == 1);
            assert(rest.len() == 0);
            assert(event_items(items) =~= stored_event_items(items));
        }
    }
}

/// A publish or auth request is answered for its own event only, and by the
/// relay that it went to.
pub proof fn law_ok_answers_own_event(request: OkRequestView, message: MessageResultView)
    ensures
        request.answer(message) matches Some(response) ==> response.event_id == request.event_id
            && response.from == request.from,
{
}

/// A refusal is an answer too: an `OK` message that the relay sends for the
/// event reaches the caller with its verdict and its reason, whatever they are.
pub proof fn law_refusals_are_answered(
    request: OkRequestView,
    frame: Seq<char>,
    ok: bool,
    reason: Seq<char>,
)
    requires
        reads_as(
            frame,
            relay_message_json(
                RelayMessageView::OkReply { event_id: request.event_id, ok, message: reason },
            ),
        ),
    ensures
        request.answer(message_of_text(frame)) == Some(
            PublishResponseView {
                from: request.from,
                event_id: request.event_id,
                ok,
                message: reason,
            },
        ),
{
    law_documented_frames_are_read(
        frame,
        RelayMessageView::OkReply { event_id: request.event_id, ok, message: reason },
    );
}

/// A count that the relay sends for the request reaches the caller.
pub proof fn law_counts_are_answered(request: CountRequestView, frame: Seq<char>, count: u64)
    requires
        reads_as(
            frame,
            relay_message_json(RelayMessageView::Count { sub_id: request.id, count }),
        ),
    ensures
        request.answer(message_of_text(frame)) == Some(
            CountResponseView { from: request.from, sub_id: request.id, count },
        ),
{
    law_documented_frames_are_read(
        frame,
        RelayMessageView::Count { sub_id: request.id, count },
    );
}

/// A count request is answered under its own identifier only, and by the relay
/// that it went to.
pub proof fn law_count_answers_own_request(request: CountRequestView, message: MessageResultView)
    ensures
        request.answer(message) matches Some(response) ==> response.sub_id == request.id
            && response.from == request.from,
{
}

/// The first step that is no wait is where a listener gets.
proof fn lemma_first_outcome<V>(
    before: Seq<ListenView<V>>,
    last: ListenView<V>,
    after: Seq<ListenView<V>>,
)
    requires
        forall|i: int| 0 <= i < before.len() ==> (#[trigger] before[i]) is Wait,
        last !is Wait,
    ensures
        first_outcome(before.push(last) + after) == last,
    decreases before.len(),
{
    let whole = before.push(last) + after;
    if before.len() > 0 {
        let rest = before.drop_first();
        assert forall|i: int| 0 <= i < rest.len() implies (#[trigger] rest[i]) is Wait by {
            assert(rest[i] == before[i + 1]);
        }
        lemma_first_outcome(rest, last, after);
        assert(whole.drop_first() =~= rest.push(last) + after);
        assert(whole[0] == before[0]);
    } else {
        assert(whole[0] == last);
    }
}

/// A publish or auth request is settled by the first frame that answers it: what
/// comes before without an answer, and all that comes after, does not matter.
pub proof fn law_first_ok_answer_settles(
    request: OkRequestView,
    before: Seq<ListenEventView>,
    frame: Seq<char>,
    after: Seq<ListenEventView>,
    response: PublishResponseView,
)
    requires
        forall|i: int| 0 <= i < before.len() ==> request.listen(#[trigger] before[i]) is Wait,
        request.answer(message_of_text(frame)) == Some(response),
    ensures
        request.outcome(
            before.push(ListenEventView::Received(ReceivedView::Text(frame))) + after,
        ) == ListenView::Reply(response),
{
    let event = ListenEventView::Received(ReceivedView::Text(frame));
    lemma_first_outcome(request.steps(before), request.listen(event), request.steps(after));
    assert(request.steps(before.push(event) + after) =~= request.steps(before).push(
        request.listen(event),
    ) + request.steps(after));
}

/// A publish or auth request that was not answered before the connection closed stays
/// unanswered.
pub proof fn law_closed_connection_leaves_ok_unanswered(
    request: OkRequestView,
    before: Seq<ListenEventView>,
    after: Seq<ListenEventView>,
)
    requires
        forall|i: int| 0 <= i < before.len() ==> request.listen(#[trigger] before[i]) is Wait,
    ensures
        request.outcome(
            before.push(ListenEventView::Received(ReceivedView::Closed)) + after,
        ) is Stop,
{
    let event = ListenEventView::Received(ReceivedView::Closed);
    lemma_first_outcome(request.steps(before), request.listen(event), request.steps(after));
    assert(request.steps(before.push(event) + after) =~= request.steps(before).push(
        request.listen(event),
    ) + request.steps(after));
}

/// A count request is settled by the first frame that answers it: what
/// comes before without an answer, and all that comes after, does not matter.
pub proof fn law_first_count_answer_settles(
    request: CountRequestView,
    before: Seq<ListenEventView>,
    frame: Seq<char>,
    after: Seq<ListenEventView>,
    response: CountResponseView,
)
    requires
        forall|i: int| 0 <= i < before.len() ==> request.listen(#[trigger] before[i]) is Wait,
        request.answer(message_of_text(frame)) == Some(response),
    ensures
        request.outcome(
            before.push(ListenEventView::Received(ReceivedView::Text(frame))) + after,
        ) == ListenView::Reply(response),
{
    let event = ListenEventView::Received(ReceivedView::Text(frame));
    lemma_first_outcome(request.steps(before), request.listen(event), request.steps(after));
    assert(request.steps(before.push(event) + after) =~= request.steps(before).push(
        request.listen(event),
    ) + request.steps(after));
}

/// A count request that was not answered before the connection closed stays
/// unanswered.
pub proof fn law_closed_connection_leaves_count_unanswered(
    request: CountRequestView,
    before: Seq<ListenEventView>,
    after: Seq<ListenEventView>,
)
    requires
        forall|i: int| 0 <= i < before.len() ==> request.listen(#[trigger] before[i]) is Wait,
    ensures
        request.outcome(
            before.push(ListenEventView::Received(ReceivedView::Closed)) + after,
        ) is Stop,
{
    let event = ListenEventView::Received(ReceivedView::Closed);
    lemma_first_outcome(request.steps(before), request.listen(event), request.steps(after));
    assert(request.steps(before.push(event) + after) =~= request.steps(before).push(
        request.listen(event),
    ) + request.steps(after));
}

/// What the stream of parsed messages does with a sequence of reports.
pub open spec fn message_deliveries(reports: Seq<ReceivedView>) -> Seq<
    DeliveryView<RelayMessageView>,
> {
    Seq::new(reports.len(), |i: int| message_delivery(reports[i]))
}

/// The relay messages among a sequence of frames.
pub open spec fn parsed_messages(frames: Seq<Seq<char>>) -> Seq<RelayMessageView>
    decreases frames.len(),
{
    if frames.len() == 0 {
        Seq::empty()
    } else {
        match message_of_text(frames[0]) {
            Ok(message) => seq![message] + parsed_messages(frames.drop_first()),
            Err(_) => parsed_messages(frames.drop_first()),
        }
    }
}

/// The stream of parsed messages yields every relay message that is received
/// before the end of the connection, in order, and goes on over malformed
/// frames and gaps.
pub proof fn law_messages_are_yielded_in_order(reports: Seq<ReceivedView>)
    ensures
        yielded(message_deliveries(reports)) == parsed_messages(received_texts(reports)),
    decreases reports.len(),
{
    if reports.len() > 0 {
        let rest = reports.drop_first();
        law_messages_are_yielded_in_order(rest);
        assert(message_deliveries(reports).drop_first() =~= message_deliveries(rest));
        if let ReceivedView::Text(text) = reports[0] {
            assert((seq![text] + received_texts(rest)).drop_first() =~= received_texts(rest));
        }
    }
}

// ---------------------------------------------------------------------------
// Laws of what a subscription yields
// ---------------------------------------------------------------------------

/// A message that was parsed gives rise to an item exactly where the
/// subscription is live and the message is an event, the end of the stored
/// events or a closing for this subscription; and then to just that.
pub proof fn law_items_of_messages(
    live: LiveView,
    message: MessageResultView,
    event: NostrEventView,
    reason: Seq<char>,
)
    ensures
        live.message_item(message) == Some(
            Ok::<ReqMessageView, RelayErrorView>(
                ReqMessageView::Event { from: live.from, id: live.id, event },
            ),
        ) <==> !live.ended && message == Ok::<RelayMessageView, ParseErrorView>(
            RelayMessageView::Event { sub_id: live.id, event },
        ),
        live.message_item(message) == Some(
            Ok::<ReqMessageView, RelayErrorView>(
                ReqMessageView::Eose { from: live.from, id: live.id },
            ),
        ) <==> !live.ended && message == Ok::<RelayMessageView, ParseErrorView>(
            RelayMessageView::Eose { sub_id: live.id },
        ),
        live.message_item(message) == Some(
            Ok::<ReqMessageView, RelayErrorView>(
                ReqMessageView::Closed { from: live.from, id: live.id, reason },
            ),
        ) <==> !live.ended && message == Ok::<RelayMessageView, ParseErrorView>(
            RelayMessageView::Closed { sub_id: live.id, reason },
        ),
        live.message_item(message) is Some ==> !live.ended && match message {
            Ok(RelayMessageView::Event { sub_id, .. }) => sub_id == live.id,
            Ok(RelayMessageView::Eose { sub_id }) => sub_id == live.id,
            Ok(RelayMessageView::Closed { sub_id, .. }) => sub_id == live.id,
            _ => false,
        },
{
}

/// A frame gives rise to what its message gives rise to, where the identifier
/// stands in it, and to nothing else. The end of the connection gives rise to an
/// error, once.
pub proof fn law_items_of_inputs(live: LiveView, frame: Seq<char>)
    ensures
        live.lets_through(frame) <==> occurs_in(live.id, frame),
        occurs_in(live.id, frame) ==> live.item(ChannelInput::Frame(frame)) == live.message_item(
            message_of_text(frame),
        ),
        !occurs_in(live.id, frame) ==> live.item(ChannelInput::Frame(frame)) is None,
        !live.ended ==> live.item(ChannelInput::End) == Some(
            Err::<ReqMessageView, RelayErrorView>(RelayErrorView::ConnectionClosed),
        ),
        live.ended ==> live.item(ChannelInput::End) is None,
{
}

/// Yielding leaves the subscription what it is, and ends it exactly where the
/// item is a closing or an error.
pub proof fn law_life_after_an_item(live: LiveView, item: StreamItemView)
    ensures
        live.after(None) == live,
        live.after(Some(item)).from == live.from,
        live.after(Some(item)).id == live.id,
        live.after(Some(item)).ended <==> live.ended || item is Err || (item matches Ok(
            ReqMessageView::Closed { .. },
        )),
{
}

/// The end of the stored events that the relay sends to a live subscription, in
/// a frame in which the identifier stands, is delivered, and the subscription
/// goes on.
pub proof fn law_sent_eose_is_delivered(live: LiveView, frame: Seq<char>, items: Seq<JsonView>)
    requires
        !live.ended,
        occurs_in(live.id, frame),
        parsed_json(frame) == Ok::<JsonView, Seq<char>>(JsonView::Array(items)),
        items.len() >= 2,
        items[0] == JsonView::Str("EOSE"@),
        items[1] == JsonView::Str(live.id),
    ensures
        live.item(ChannelInput::Frame(frame)) == Some(
            Ok::<ReqMessageView, RelayErrorView>(
                ReqMessageView::Eose { from: live.from, id: live.id },
            ),
        ),
        live.after(live.item(ChannelInput::Frame(frame))) == live,
{
    law_eose_messages(items, live.id);
}

/// An event that the relay sends to a live subscription, in a frame in which the
/// identifier stands, is delivered as it is, and the subscription goes on.
pub proof fn law_sent_event_is_delivered(
    live: LiveView,
    frame: Seq<char>,
    items: Seq<JsonView>,
    event: NostrEventView,
)
    requires
        !live.ended,
        occurs_in(live.id, frame),
        parsed_json(frame) == Ok::<JsonView, Seq<char>>(JsonView::Array(items)),
        items.len() >= 3,
        items[0] == JsonView::Str("EVENT"@),
        items[1] == JsonView::Str(live.id),
        event_of(items[2]) == Ok::<NostrEventView, Seq<char>>(event),
    ensures
        live.item(ChannelInput::Frame(frame)) == Some(
            Ok::<ReqMessageView, RelayErrorView>(
                ReqMessageView::Event { from: live.from, id: live.id, event },
            ),
        ),
        live.after(live.item(ChannelInput::Frame(frame))) == live,
{
    law_event_messages(items, live.id, event);
}

/// A closing that the relay sends to a live subscription, in a frame in which the
/// identifier stands, is delivered with its reason, and ends the subscription.
pub proof fn law_sent_closing_is_delivered(
    live: LiveView,
    frame: Seq<char>,
    items: Seq<JsonView>,
    reason: Seq<char>,
)
    requires
        !live.ended,
        occurs_in(live.id, frame),
        parsed_json(frame) == Ok::<JsonView, Seq<char>>(JsonView::Array(items)),
        items.len() >= 3,
        items[0] == JsonView::Str("CLOSED"@),
        items[1] == JsonView::Str(live.id),
        items[2] == JsonView::Str(reason),
    ensures
        live.item(ChannelInput::Frame(frame)) == Some(
            Ok::<ReqMessageView, RelayErrorView>(
                ReqMessageView::Closed { from: live.from, id: live.id, reason },
            ),
        ),
        live.after(live.item(ChannelInput::Frame(frame))).ended,
{
    law_closed_messages(items, live.id, reason);
}

/// The first item of a stream says that the subscription is open, under its
/// identifier and with its filters, or why it is not.
pub proof fn law_first_items(opening: OpeningView, message: Seq<char>)
    ensures
        opening.first_item(Ok(())) == Ok::<ReqMessageView, RelayErrorView>(
            ReqMessageView::Open {
                from: opening.from,
                id: opening.id,
                filters: opening.filters,
            },
        ),
        opening.first_item(Err(SocketErrorView::Connect(message))) == Err::<
            ReqMessageView,
            RelayErrorView,
        >(RelayErrorView::WebSocket(message)),
        opening.first_item(Err(SocketErrorView::Closed)) == Err::<ReqMessageView, RelayErrorView>(
            RelayErrorView::ConnectionClosed,
        ),
{
}

/// A subscription is opened with its identifier and its filters, and ended with
/// its identifier.
pub proof fn law_handshake(opening: OpeningView, text: Seq<char>, message: ClientMessageView)
    ensures
        opening.subscribe_message() == (ClientMessageView::Req {
            id: opening.id,
            filters: opening.filters,
        }),
        opening.unsubscribe_message() == (ClientMessageView::Close { id: opening.id }),
        is_text_of(text, message) <==> text == json_text(client_message_json(message))
            && parsed_json(text) == Ok::<JsonView, Seq<char>>(client_message_json(message)),
{
}

/// Identifiers have the length that was asked for, and are made of letters,
/// digits, `_` and `-`.
pub proof fn law_identifiers(id: Seq<char>, len: nat)
    ensures
        is_id(id, len) <==> id.len() == len && forall|i: int|
            0 <= i < id.len() ==> ('a' <= #[trigger] id[i] <= 'z' || 'A' <= id[i] <= 'Z' || '0'
                <= id[i] <= '9' || id[i] == '_' || id[i] == '-'),
{
}

/// An error of the socket is an error of the relay, with the same message.
pub proof fn law_socket_errors_are_relay_errors(message: Seq<char>)
    ensures
        relay_error_of(SocketErrorView::Connect(message)) == RelayErrorView::WebSocket(message),
        relay_error_of(SocketErrorView::Closed) == RelayErrorView::ConnectionClosed,
{
}

// ---------------------------------------------------------------------------
// Laws of what the adapters yield
// ---------------------------------------------------------------------------

/// Of a stream item, `events` keeps the event or the error that it is, whatever
/// that is, and nothing else.
pub proof fn law_kept_items(
    item: StreamItemView,
    from: Seq<char>,
    id: Seq<char>,
    event: NostrEventView,
    error: RelayErrorView,
)
    ensures
        event_item(
            Ok::<ReqMessageView, RelayErrorView>(ReqMessageView::Event { from, id, event }),
        ) == Some(Ok::<NostrEventView, RelayErrorView>(event)),
        event_item(Err::<ReqMessageView, RelayErrorView>(error)) == Some(
            Err::<NostrEventView, RelayErrorView>(error),
        ),
        event_item(item) is None <==> (item matches Ok(message) && (message is Open
            || message is Eose || message is Closed)),
{
}

/// The events and errors of a stream are those of its parts, one after the
/// other: an event gives itself, an error gives itself, and all else nothing.
pub proof fn law_events_of_a_stream(before: Seq<StreamItemView>, item: StreamItemView)
    ensures
        event_items(Seq::<StreamItemView>::empty()) == Seq::<EventItemView>::empty(),
        match item {
            Ok(ReqMessageView::Event { event, .. }) => event_items(before.push(item))
                == event_items(before).push(Ok::<NostrEventView, RelayErrorView>(event)),
            Ok(_) => event_items(before.push(item)) == event_items(before),
            Err(error) => event_items(before.push(item)) == event_items(before).push(
                Err::<NostrEventView, RelayErrorView>(error),
            ),
        },
    decreases before.len(),
{
    let whole = before.push(item);
    if before.len() > 0 {
        let rest = before.drop_first();
        law_events_of_a_stream(rest, item);
        assert(whole.drop_first() =~= rest.push(item));
        assert(whole[0] == before[0]);
        if let Some(first) = event_item(before[0]) {
            assert(event_items(whole) == seq![first] + event_items(rest.push(item)));
            match event_item(item) {
                Some(last) => {
                    assert(event_items(whole) =~= event_items(before).push(last));
                },
                None => {},
            }
        }
    } else {
        assert(whole[0] == item);
        assert(event_items(whole.drop_first()) =~= Seq::empty());
        assert(event_items(before) =~= Seq::empty());
    }
}

/// `until_eose` yields every event as it is and goes on, ends with `Eose`, yields
/// an error as it is and ends with it, and skips all else.
pub proof fn law_stored_event_steps(
    item: StreamItemView,
    from: Seq<char>,
    id: Seq<char>,
    event: NostrEventView,
    error: RelayErrorView,
)
    ensures
        stored_event_step(
            Ok::<ReqMessageView, RelayErrorView>(ReqMessageView::Event { from, id, event }),
        ) == AdaptedView::Yield(Ok(event)),
        stored_event_step(Err::<ReqMessageView, RelayErrorView>(error)) == AdaptedView::YieldLast(
            Err(error),
        ),
        stored_event_step(item) is End <==> (item matches Ok(message) && message is Eose),
        stored_event_step(item) is Skip <==> (item matches Ok(message) && (message is Open
            || message is Closed)),
{
}

// ---------------------------------------------------------------------------
// Laws of what answers a request
// ---------------------------------------------------------------------------

/// A publish or auth request is answered exactly by an `OK` message for its
/// event, with the verdict and the reason of that message. No other message
/// answers it.
pub proof fn law_ok_answers(
    request: OkRequestView,
    message: MessageResultView,
    response: PublishResponseView,
)
    ensures
        request.answer(message) == Some(response) <==> message == Ok::<
            RelayMessageView,
            ParseErrorView,
        >(
            RelayMessageView::OkReply {
                event_id: request.event_id,
                ok: response.ok,
                message: response.message,
            },
        ) && response.event_id == request.event_id && response.from == request.from,
        request.answer(message) is Some ==> (message matches Ok(
            RelayMessageView::OkReply { event_id, .. },
        ) && event_id == request.event_id),
{
}

/// A count request is answered exactly by a `COUNT` message under its
/// identifier, with the count of that message. No other message answers it.
pub proof fn law_count_answers(
    request: CountRequestView,
    message: MessageResultView,
    response: CountResponseView,
)
    ensures
        request.answer(message) == Some(response) <==> message == Ok::<
            RelayMessageView,
            ParseErrorView,
        >(RelayMessageView::Count { sub_id: request.id, count: response.count })
            && response.sub_id == request.id && response.from == request.from,
        request.answer(message) is Some ==> (message matches Ok(
            RelayMessageView::Count { sub_id, .. },
        ) && sub_id == request.id),
{
}

/// The listener of a publish or auth request replies exactly with the answer
/// that a frame holds, stops exactly where the connection or the caller is gone,
/// and waits in all other cases.
pub proof fn law_ok_listening(
    request: OkRequestView,
    event: ListenEventView,
    response: PublishResponseView,
)
    ensures
        request.listen(event) == ListenView::Reply(response) <==> (
        event matches ListenEventView::Received(ReceivedView::Text(frame)) && request.answer(
            message_of_text(frame),
        ) == Some(response)),
        request.listen(event) is Stop <==> event is CallerGone || event
            == ListenEventView::Received(ReceivedView::Closed),
        request.listen(event) is Wait <==> (event matches ListenEventView::Received(
            ReceivedView::Lagged(_),
        )) || (event matches ListenEventView::Received(ReceivedView::Text(frame))
            && request.answer(message_of_text(frame)) is None),
{
}

/// The listener of a count request replies exactly with the answer that a frame
/// holds, stops exactly where the connection or the caller is gone, and waits in
/// all other cases.
pub proof fn law_count_listening(
    request: CountRequestView,
    event: ListenEventView,
    response: CountResponseView,
)
    ensures
        request.listen(event) == ListenView::Reply(response) <==> (
        event matches ListenEventView::Received(ReceivedView::Text(frame)) && request.answer(
            message_of_text(frame),
        ) == Some(response)),
        request.listen(event) is Stop <==> event is CallerGone || event
            == ListenEventView::Received(ReceivedView::Closed),
        request.listen(event) is Wait <==> (event matches ListenEventView::Received(
            ReceivedView::Lagged(_),
        )) || (event matches ListenEventView::Received(ReceivedView::Text(frame))
            && request.answer(message_of_text(frame)) is None),
{
}

/// The stream of parsed messages yields exactly the message that a frame stands
/// for, leaves out exactly the malformed frames, tells of every gap, and ends
/// exactly with the connection.
pub proof fn law_message_deliveries(
    received: ReceivedView,
    message: RelayMessageView,
    error: ParseErrorView,
    lost: u64,
)
    ensures
        message_delivery(received) == DeliveryView::Yield(message) <==> (
        received matches ReceivedView::Text(frame) && message_of_text(frame) == Ok::<
            RelayMessageView,
            ParseErrorView,
        >(message)),
        message_delivery(received) == DeliveryView::<RelayMessageView>::Malformed(error) <==> (
        received matches ReceivedView::Text(frame) && message_of_text(frame) == Err::<
            RelayMessageView,
            ParseErrorView,
        >(error)),
        message_delivery(received) == DeliveryView::<RelayMessageView>::Lagged(lost) <==> received
            == ReceivedView::Lagged(lost),
        message_delivery(received) is End <==> received is Closed,
        parsed_delivery(Ok(message)) == DeliveryView::Yield(message),
        parsed_delivery(Err(error)) == DeliveryView::<RelayMessageView>::Malformed(error),
{
}

/// Items, outcomes and steps in memory stand for those with the same content.
pub proof fn law_stream_content(
    item: StreamItem,
    event_item: EventItem,
    outcome: Result<(), SocketError>,
    adapted: Adapted,
)
    ensures
        match item {
            Ok(message) => item_view(item) == Ok::<ReqMessageView, RelayErrorView>(message@),
            Err(error) => item_view(item) == Err::<ReqMessageView, RelayErrorView>(error@),
        },
        optional_item_view(Some(item)) == Some(item_view(item)),
        optional_item_view(None) is None,
        match event_item {
            Ok(event) => event_item_view(event_item) == Ok::<NostrEventView, RelayErrorView>(event@),
            Err(error) => event_item_view(event_item) == Err::<NostrEventView, RelayErrorView>(
                error@,
            ),
        },
        match outcome {
            Ok(_) => outcome_view(outcome) is Ok,
            Err(error) => outcome_view(outcome) == Err::<(), SocketErrorView>(error@),
        },
        match adapted {
            Adapted::Yield(kept) => adapted@ == AdaptedView::Yield(event_item_view(kept)),
            Adapted::Skip => adapted@ == AdaptedView::Skip,
            Adapted::YieldLast(kept) => adapted@ == AdaptedView::YieldLast(event_item_view(kept)),
            Adapted::End => adapted@ == AdaptedView::End,
        },
{
}

/// What a listener is woken by and does, in memory, stands for that with the
/// same content.
pub proof fn law_listener_content<T: View>(event: ListenEvent, step: Listen<T>)
    ensures
        match event {
            ListenEvent::CallerGone => event@ == ListenEventView::CallerGone,
            ListenEvent::Received(received) => event@ == ListenEventView::Received(received@),
        },
        match step {
            Listen::Wait => step@ == ListenView::<T::V>::Wait,
            Listen::Reply(answer) => step@ == ListenView::Reply(answer@),
            Listen::Stop => step@ == ListenView::<T::V>::Stop,
        },
{
}

/// How long an identifier is, and how long a request waits.
pub proof fn law_request_limits()
    ensures
        SUBSCRIPTION_ID_LEN == 12,
        REPLY_TIMEOUT_SECS == 10,
{
}

} // verus!
