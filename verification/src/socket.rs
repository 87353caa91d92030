//! The life of a shared WebSocket connection.
//!
//! [`RelaySocket`] is the state that all users of one socket share: whether it
//! is connected, and how many channels are open on it. Its methods are the
//! steps that change this state. Each of them says what has to be done on the
//! wire, and leaves the doing to the caller.

use std::time::Duration;

use vstd::prelude::*;
use vstd::string::*;

use crate::types::{ParseError, ParseErrorView};

verus! {

/// Default keep-alive: how many seconds the socket stays open after the last
/// channel is dropped.
pub const DEFAULT_KEEP_ALIVE: u64 = 30;

/// How many inbound frames are kept for a receiver that is behind.
pub const FRAME_BACKLOG: usize = 1024;

/// The duration of a whole number of seconds.
pub uninterp spec fn seconds(secs: u64) -> Duration;

/// `Duration::from_secs`: the duration of the given number of seconds.
pub assume_specification[ Duration::from_secs ](secs: u64) -> (duration: Duration)
    ensures
        duration == seconds(secs),
;

// ---------------------------------------------------------------------------
// Errors
// ---------------------------------------------------------------------------

/// What can go wrong with the socket.
#[derive(Debug, Clone)]
pub enum SocketError {
    /// The connection could not be opened.
    Connect(String),
    /// The connection is closed.
    Closed,
}

/// The mathematical value of a [`SocketError`].
#[verifier::ext_equal]
pub enum SocketErrorView {
    Connect(Seq<char>),
    Closed,
}

impl View for SocketError {
    type V = SocketErrorView;

    open spec fn view(&self) -> SocketErrorView {
        match self {
            SocketError::Connect(message) => SocketErrorView::Connect(message@),
            SocketError::Closed => SocketErrorView::Closed,
        }
    }
}

/// The wording of a [`SocketError`].
pub open spec fn socket_error_text(error: SocketErrorView) -> Seq<char> {
    match error {
        SocketErrorView::Connect(message) => "WebSocket connect error: "@ + message,
        SocketErrorView::Closed => "WebSocket connection is closed"@,
    }
}

impl SocketError {
    /// The error in words.
    pub fn message(&self) -> (text: String)
        ensures
            text@ == socket_error_text(self@),
    {
        match self {
            SocketError::Connect(message) => "WebSocket connect error: ".to_owned().concat(
                message.as_str(),
            ),
            SocketError::Closed => "WebSocket connection is closed".to_owned(),
        }
    }
}

// ---------------------------------------------------------------------------
// The connection task
// ---------------------------------------------------------------------------

/// An order to the task that owns a connection.
#[derive(Debug)]
pub enum Command {
    /// Write a text frame.
    Send(String),
    /// Close the connection.
    Disconnect,
}

/// An order, with the number of the connection that it is for.
#[derive(Debug)]
pub struct Order {
    pub connection: u64,
    pub command: Command,
}

/// What the task that owns a connection is woken by.
#[derive(Debug)]
pub enum ActorEvent {
    /// A text frame came in.
    Text(String),
    /// A close frame came in.
    CloseFrame,
    /// A frame of another kind came in.
    OtherFrame,
    /// Reading from the connection failed.
    ReadError,
    /// No more frames will come in.
    StreamEnd,
    /// Writing to the connection failed.
    WriteError,
    /// An order came in.
    Command(Command),
    /// Nobody is left to give orders.
    CommandsEnd,
}

/// What the task that owns a connection does next.
#[derive(Debug)]
pub enum ActorStep {
    /// Hand the text to every receiver, and go on.
    Broadcast(String),
    /// Write the text to the connection, and go on. Where that fails,
    /// [`ActorEvent::WriteError`] is what happens next.
    Write(String),
    /// Go on.
    Continue,
    /// Stop.
    Stop,
    /// Close the connection and stop.
    CloseAndStop,
}

/// The mathematical value of a [`Command`].
#[verifier::ext_equal]
pub enum CommandView {
    Send(Seq<char>),
    Disconnect,
}

impl View for Command {
    type V = CommandView;

    open spec fn view(&self) -> CommandView {
        match self {
            Command::Send(text) => CommandView::Send(text@),
            Command::Disconnect => CommandView::Disconnect,
        }
    }
}

/// The mathematical value of an [`ActorEvent`].
#[verifier::ext_equal]
pub enum ActorEventView {
    Text(Seq<char>),
    CloseFrame,
    OtherFrame,
    ReadError,
    StreamEnd,
    WriteError,
    Command(CommandView),
    CommandsEnd,
}

impl View for ActorEvent {
    type V = ActorEventView;

    open spec fn view(&self) -> ActorEventView {
        match self {
            ActorEvent::Text(text) => ActorEventView::Text(text@),
            ActorEvent::CloseFrame => ActorEventView::CloseFrame,
            ActorEvent::OtherFrame => ActorEventView::OtherFrame,
            ActorEvent::ReadError => ActorEventView::ReadError,
            ActorEvent::StreamEnd => ActorEventView::StreamEnd,
            ActorEvent::WriteError => ActorEventView::WriteError,
            ActorEvent::Command(command) => ActorEventView::Command(command@),
            ActorEvent::CommandsEnd => ActorEventView::CommandsEnd,
        }
    }
}

/// The mathematical value of an [`ActorStep`].
#[verifier::ext_equal]
pub enum ActorStepView {
    Broadcast(Seq<char>),
    Write(Seq<char>),
    Continue,
    Stop,
    CloseAndStop,
}

impl View for ActorStep {
    type V = ActorStepView;

    open spec fn view(&self) -> ActorStepView {
        match self {
            ActorStep::Broadcast(text) => ActorStepView::Broadcast(text@),
            ActorStep::Write(text) => ActorStepView::Write(text@),
            ActorStep::Continue => ActorStepView::Continue,
            ActorStep::Stop => ActorStepView::Stop,
            ActorStep::CloseAndStop => ActorStepView::CloseAndStop,
        }
    }
}

impl ActorEventView {
    /// What the task does about the event.
    pub open spec fn step(self) -> ActorStepView {
        match self {
            ActorEventView::Text(text) => ActorStepView::Broadcast(text),
            ActorEventView::CloseFrame => ActorStepView::Stop,
            ActorEventView::OtherFrame => ActorStepView::Continue,
            ActorEventView::ReadError => ActorStepView::Stop,
            ActorEventView::StreamEnd => ActorStepView::Stop,
            ActorEventView::WriteError => ActorStepView::Stop,
            ActorEventView::Command(CommandView::Send(text)) => ActorStepView::Write(text),
            ActorEventView::Command(CommandView::Disconnect) => ActorStepView::CloseAndStop,
            ActorEventView::CommandsEnd => ActorStepView::CloseAndStop,
        }
    }

    /// The event ends the task.
    pub open spec fn is_stop(self) -> bool {
        self.step() is Stop || self.step() is CloseAndStop
    }
}

/// What the task that owns a connection does when it is woken.
///
/// When the task stops, the connection is gone:
/// [`RelaySocket::connection_lost`] takes that in.
pub fn actor_step(event: ActorEvent) -> (step: ActorStep)
    ensures
        step@ == event@.step(),
{
    match event {
        ActorEvent::Text(text) => ActorStep::Broadcast(text),
        ActorEvent::CloseFrame => ActorStep::Stop,
        ActorEvent::OtherFrame => ActorStep::Continue,
        ActorEvent::ReadError => ActorStep::Stop,
        ActorEvent::StreamEnd => ActorStep::Stop,
        ActorEvent::WriteError => ActorStep::Stop,
        ActorEvent::Command(Command::Send(text)) => ActorStep::Write(text),
        ActorEvent::Command(Command::Disconnect) => ActorStep::CloseAndStop,
        ActorEvent::CommandsEnd => ActorStep::CloseAndStop,
    }
}

// ---------------------------------------------------------------------------
// Inbound frames
// ---------------------------------------------------------------------------

/// What a receiver of the inbound frames reports.
#[derive(Debug)]
pub enum Received {
    /// The next frame.
    Text(String),
    /// So many frames were lost because the receiver was too slow.
    Lagged(u64),
    /// The connection is gone.
    Closed,
}

/// What a stream does with a report of its receiver.
#[derive(Debug)]
pub enum Delivery<T> {
    /// Yield an item.
    Yield(T),
    /// Yield nothing.
    Skip,
    /// Yield nothing; so many frames were lost.
    Lagged(u64),
    /// Yield nothing; the frame is malformed.
    Malformed(ParseError),
    /// End the stream.
    End,
}

/// The mathematical value of a [`Received`].
#[verifier::ext_equal]
pub enum ReceivedView {
    Text(Seq<char>),
    Lagged(u64),
    Closed,
}

impl View for Received {
    type V = ReceivedView;

    open spec fn view(&self) -> ReceivedView {
        match self {
            Received::Text(text) => ReceivedView::Text(text@),
            Received::Lagged(lost) => ReceivedView::Lagged(*lost),
            Received::Closed => ReceivedView::Closed,
        }
    }
}

/// The mathematical value of a [`Delivery`].
#[verifier::ext_equal]
pub enum DeliveryView<V> {
    Yield(V),
    Skip,
    Lagged(u64),
    Malformed(ParseErrorView),
    End,
}

impl<T: View> View for Delivery<T> {
    type V = DeliveryView<T::V>;

    open spec fn view(&self) -> DeliveryView<T::V> {
        match self {
            Delivery::Yield(item) => DeliveryView::Yield(item@),
            Delivery::Skip => DeliveryView::Skip,
            Delivery::Lagged(lost) => DeliveryView::Lagged(*lost),
            Delivery::Malformed(error) => DeliveryView::Malformed(error@),
            Delivery::End => DeliveryView::End,
        }
    }
}

impl ReceivedView {
    /// What the stream of all frames does with the report.
    pub open spec fn frame_delivery(self) -> DeliveryView<Seq<char>> {
        match self {
            ReceivedView::Text(text) => DeliveryView::Yield(text),
            ReceivedView::Lagged(lost) => DeliveryView::Lagged(lost),
            ReceivedView::Closed => DeliveryView::End,
        }
    }

    /// What the stream of a channel that selects these frames does with the
    /// report.
    pub open spec fn channel_delivery(self, selects: spec_fn(Seq<char>) -> bool) -> DeliveryView<
        Seq<char>,
    > {
        match self {
            ReceivedView::Text(text) => if selects(text) {
                DeliveryView::Yield(text)
            } else {
                DeliveryView::Skip
            },
            ReceivedView::Lagged(lost) => DeliveryView::Lagged(lost),
            ReceivedView::Closed => DeliveryView::End,
        }
    }
}

/// The filter selects exactly these frames.
pub open spec fn filters_by<F: Fn(&str) -> bool>(
    filter: F,
    selects: spec_fn(Seq<char>) -> bool,
) -> bool {
    forall|frame: &str, selected: bool| #[trigger]
        call_ensures(filter, (frame,), selected) ==> selected == selects(frame@)
}

/// What the stream of a channel does with a report: it yields the frames that
/// the channel's filter selects, goes on over a gap, and ends with the
/// connection.
pub fn deliver_filtered(received: Received, filter: impl Fn(&str) -> bool) -> (delivery: Delivery<
    String,
>)
    requires
        forall|frame: &str| #[trigger] call_requires(filter, (frame,)),
    ensures
        match received {
            Received::Text(text) => {
                ||| delivery == Delivery::Yield(text) && exists|frame: &str|
                    frame@ == text@ && #[trigger] call_ensures(filter, (frame,), true)
                ||| delivery is Skip && exists|frame: &str|
                    frame@ == text@ && #[trigger] call_ensures(filter, (frame,), false)
            },
            Received::Lagged(lost) => delivery == Delivery::<String>::Lagged(lost),
            Received::Closed => delivery is End,
        },
        forall|selects: spec_fn(Seq<char>) -> bool|
            filters_by(filter, selects) ==> delivery@ == #[trigger] received@.channel_delivery(
                selects,
            ),
{
    match received {
        Received::Text(text) => if filter(text.as_str()) {
            Delivery::Yield(text)
        } else {
            Delivery::Skip
        },
        Received::Lagged(lost) => Delivery::Lagged(lost),
        Received::Closed => Delivery::End,
    }
}

// ---------------------------------------------------------------------------
// RelaySocket
// ---------------------------------------------------------------------------

/// The shared state of a lazy, reference-counted WebSocket connection.
///
/// - Opens on first use. Uses at the same time share one connection.
/// - All channels share one connection.
/// - After the last channel drops, a keep-alive timer starts; if no new channel
///   opens before it expires, the connection closes.
///
/// A connection is known by a number that the caller chooses when it opens one.
/// A timer is known by a number that the socket chooses when it starts one.
#[derive(Debug)]
pub struct RelaySocket {
    url: String,
    connection: Option<u64>,
    dialing: bool,
    channels: usize,
    epoch: u64,
    keep_alive: Duration,
    timer: Option<u64>,
    timers: u64,
}

/// The mathematical value of a [`RelaySocket`].
#[verifier::ext_equal]
pub struct SocketView {
    /// Where the socket connects to.
    pub url: Seq<char>,
    /// The connection in use, where there is one.
    pub connection: Option<u64>,
    /// A connection is being opened.
    pub dialing: bool,
    /// The count of open channels.
    pub channels: usize,
    /// How often the socket was closed on purpose. Channels from before the
    /// last time do not count.
    pub epoch: u64,
    /// How long the connection outlives the last channel.
    pub keep_alive: Duration,
    /// The timer that was started last, as long as it can close the connection.
    pub timer: Option<u64>,
    /// How many timers were started.
    pub timers: u64,
}

impl View for RelaySocket {
    type V = SocketView;

    closed spec fn view(&self) -> SocketView {
        SocketView {
            url: self.url@,
            connection: self.connection,
            dialing: self.dialing,
            channels: self.channels,
            epoch: self.epoch,
            keep_alive: self.keep_alive,
            timer: self.timer,
            timers: self.timers,
        }
    }
}

/// One more channel. The count wraps around at its upper end.
pub open spec fn one_more(channels: usize) -> usize {
    if channels == usize::MAX {
        0
    } else {
        (channels + 1) as usize
    }
}

/// The number after the given one. Numbers wrap around at their upper end.
pub open spec fn next_number(number: u64) -> u64 {
    if number == u64::MAX {
        0
    } else {
        (number + 1) as u64
    }
}

/// The steps that change a socket.
pub enum SocketStep {
    /// A use of the socket asked for a connection.
    Asked,
    /// The connection with this number was opened.
    Dialed(u64),
    /// A connection could not be opened.
    DialFailed,
    /// The connection with this number ended.
    Lost(u64),
    /// A channel was opened.
    Opened,
    /// A channel that was opened in this epoch was dropped.
    Dropped(u64),
    /// The keep-alive timer with this number expired.
    Expired(u64),
    /// The socket was closed on purpose.
    Disconnected,
}

impl SocketView {
    /// A socket that was not used yet.
    pub open spec fn fresh(url: Seq<char>, keep_alive: Duration) -> SocketView {
        SocketView {
            url,
            connection: None,
            dialing: false,
            channels: 0,
            epoch: 0,
            keep_alive,
            timer: None,
            timers: 0,
        }
    }

    /// A use of the socket that asks now has to open a connection.
    pub open spec fn would_dial(self) -> bool {
        self.connection is None && !self.dialing
    }

    /// A channel of the given epoch that is dropped now is one that counts.
    pub open spec fn counts(self, epoch: u64) -> bool {
        epoch == self.epoch && self.channels > 0
    }

    /// A channel of the given epoch that is dropped now is the last one.
    pub open spec fn is_last(self, epoch: u64) -> bool {
        epoch == self.epoch && self.channels == 1
    }

    /// The timer with the given number closes the connection if it expires now.
    pub open spec fn is_due(self, timer: u64) -> bool {
        self.channels == 0 && self.timer == Some(timer)
    }

    /// The socket after a keep-alive timer was started.
    pub open spec fn with_timer(self) -> SocketView {
        SocketView { timer: Some(self.timers), timers: next_number(self.timers), ..self }
    }

    /// The socket after a step.
    pub open spec fn after(self, step: SocketStep) -> SocketView {
        match step {
            SocketStep::Asked => SocketView {
                dialing: self.dialing || self.connection is None,
                ..self
            },
            SocketStep::Dialed(number) => SocketView {
                connection: match self.connection {
                    Some(existing) => Some(existing),
                    None => Some(number),
                },
                dialing: false,
                ..self
            },
            SocketStep::DialFailed => SocketView { dialing: false, ..self },
            SocketStep::Lost(number) => if self.connection == Some(number) {
                SocketView { connection: None, ..self }
            } else {
                self
            },
            SocketStep::Opened => SocketView {
                channels: one_more(self.channels),
                timer: None,
                ..self
            },
            SocketStep::Dropped(epoch) => if self.is_last(epoch) {
                SocketView { channels: 0, ..self.with_timer() }
            } else if self.counts(epoch) {
                SocketView { channels: (self.channels - 1) as usize, ..self }
            } else {
                self
            },
            SocketStep::Expired(timer) => if self.is_due(timer) {
                SocketView { connection: None, timer: None, ..self }
            } else {
                self
            },
            SocketStep::Disconnected => SocketView {
                connection: None,
                channels: 0,
                epoch: next_number(self.epoch),
                ..self
            },
        }
    }

    /// The socket after a sequence of steps.
    pub open spec fn after_all(self, steps: Seq<SocketStep>) -> SocketView
        decreases steps.len(),
    {
        if steps.len() == 0 {
            self
        } else {
            self.after_all(steps.drop_last()).after(steps.last())
        }
    }

    /// The timer that starts when a channel of the given epoch is dropped now,
    /// with its duration: one for the last channel, and none for any other.
    pub open spec fn timer_on_drop(self, epoch: u64) -> Option<(u64, Duration)> {
        if self.is_last(epoch) {
            Some((self.timers, self.keep_alive))
        } else {
            None
        }
    }
}

/// How a use of the socket gets at a connection.
#[derive(Debug)]
pub enum ConnectStep {
    /// The connection with this number is open.
    Ready(u64),
    /// A connection has to be opened to this address.
    Dial(String),
    /// A connection is being opened by another use. Ask again when its outcome
    /// was reported.
    Wait,
}

/// The outbound half of a channel. It writes to the connection that the channel
/// was opened on.
#[derive(Debug)]
pub struct SocketSender {
    connection: u64,
}

impl View for SocketSender {
    type V = u64;

    /// The number of the connection that the channel was opened on.
    closed spec fn view(&self) -> u64 {
        self.connection
    }
}

impl Clone for SocketSender {
    /// All clones write to the same connection.
    fn clone(&self) -> (r: Self)
        ensures
            r@ == self@,
    {
        SocketSender { connection: self.connection }
    }
}

impl SocketSender {
    /// Sends a raw text frame to the relay.
    pub fn send(&self, text: String) -> (order: Order)
        ensures
            order == (Order { connection: self@, command: Command::Send(text) }),
    {
        Order { connection: self.connection, command: Command::Send(text) }
    }
}

/// Tears a channel down when it is dropped.
#[derive(Debug)]
pub struct DropGuard {
    connection: u64,
    epoch: u64,
    unsubscribe_msg: String,
}

/// The mathematical value of a [`DropGuard`].
#[verifier::ext_equal]
pub struct DropGuardView {
    /// The number of the connection that the channel was opened on.
    pub connection: u64,
    /// The epoch of the socket in which the channel was opened.
    pub epoch: u64,
    /// The message that ends the channel at the other side.
    pub unsubscribe_msg: Seq<char>,
}

impl View for DropGuard {
    type V = DropGuardView;

    closed spec fn view(&self) -> DropGuardView {
        DropGuardView {
            connection: self.connection,
            epoch: self.epoch,
            unsubscribe_msg: self.unsubscribe_msg@,
        }
    }
}

/// What the end of a channel asks for.
#[derive(Debug)]
pub struct Teardown {
    /// The order that ends the channel at the other side.
    pub order: Order,
    /// The keep-alive timer to start, by its number, and how long it runs;
    /// there is one where this was the last channel.
    pub timer: Option<(u64, Duration)>,
}

/// The order to close a connection, where there is one.
pub open spec fn disconnect_order(connection: Option<u64>) -> Option<Order> {
    match connection {
        Some(connection) => Some(Order { connection, command: Command::Disconnect }),
        None => None,
    }
}

/// The outcome of handing an order to the task that owns the connection: the
/// task is gone if it did not take the order.
pub fn queued(accepted: bool) -> (r: Result<(), SocketError>)
    ensures
        accepted <==> r is Ok,
        r matches Err(error) ==> error is Closed,
{
    if accepted {
        Ok(())
    } else {
        Err(SocketError::Closed)
    }
}

impl RelaySocket {
    /// Creates a new socket with the default keep-alive (30 s). It is not
    /// connected yet.
    pub fn new(url: &str) -> (r: Self)
        ensures
            r@ == SocketView::fresh(url@, seconds(30)),
    {
        Self::with_keep_alive(url, Duration::from_secs(DEFAULT_KEEP_ALIVE))
    }

    /// Creates a new socket with a custom keep-alive duration. It is not
    /// connected yet.
    pub fn with_keep_alive(url: &str, keep_alive: Duration) -> (r: Self)
        ensures
            r@ == SocketView::fresh(url@, keep_alive),
    {
        RelaySocket {
            url: url.to_owned(),
            connection: None,
            dialing: false,
            channels: 0,
            epoch: 0,
            keep_alive,
            timer: None,
            timers: 0,
        }
    }

    /// The address of the relay.
    pub fn url(&self) -> (url: &str)
        ensures
            url@ == self@.url,
    {
        self.url.as_str()
    }

    /// Whether there is a connection.
    pub fn is_connected(&self) -> (connected: bool)
        ensures
            connected == (self@.connection is Some),
    {
        self.connection.is_some()
    }

    /// The count of open channels.
    pub fn channel_count(&self) -> (count: usize)
        ensures
            count == self@.channels,
    {
        self.channels
    }

    /// Ensures that the socket is open: how a use of it gets at a connection. It
    /// takes the one that is open, opens one where there is none, and waits
    /// where another use is opening one.
    ///
    /// Safe to call by several uses at the same time: only one connection is
    /// opened.
    pub fn ensure_connected(&mut self) -> (step: ConnectStep)
        ensures
            final(self)@ == old(self)@.after(SocketStep::Asked),
            match step {
                ConnectStep::Ready(number) => old(self)@.connection == Some(number),
                ConnectStep::Dial(url) => old(self)@.would_dial() && url@ == old(self)@.url,
                ConnectStep::Wait => old(self)@.connection is None && old(self)@.dialing,
            },
    {
        match self.connection {
            Some(number) => ConnectStep::Ready(number),
            None => if self.dialing {
                ConnectStep::Wait
            } else {
                self.dialing = true;
                ConnectStep::Dial(self.url.clone())
            },
        }
    }

    /// Takes in the outcome of opening a connection, and gives the number of
    /// the connection to use. Those who wait for the outcome can ask again.
    ///
    /// Where there is a connection all the same, that one stays: the caller
    /// drops the new one.
    pub fn dialed(&mut self, outcome: Result<u64, String>) -> (r: Result<u64, SocketError>)
        ensures
            match outcome {
                Ok(number) => {
                    &&& final(self)@ == old(self)@.after(SocketStep::Dialed(number))
                    &&& r matches Ok(used) && final(self)@.connection == Some(used)
                },
                Err(message) => {
                    &&& final(self)@ == old(self)@.after(SocketStep::DialFailed)
                    &&& r matches Err(error) && error@ == SocketErrorView::Connect(message@)
                },
            },
    {
        self.dialing = false;
        match outcome {
            Ok(number) => match self.connection {
                Some(existing) => Ok(existing),
                None => {
                    self.connection = Some(number);
                    Ok(number)
                },
            },
            Err(message) => Err(SocketError::Connect(message)),
        }
    }

    /// Takes in that the connection with the given number ended: the task that
    /// owned it stopped. It is no longer handed out.
    pub fn connection_lost(&mut self, number: u64)
        ensures
            final(self)@ == old(self)@.after(SocketStep::Lost(number)),
    {
        match self.connection {
            Some(existing) => {
                if existing == number {
                    self.connection = None;
                }
            },
            None => {},
        }
    }

    /// Opens the socket explicitly: any connection will do.
    pub fn connect(ready: Result<u64, SocketError>) -> (r: Result<(), SocketError>)
        ensures
            match ready {
                Ok(_) => r is Ok,
                Err(error) => r == Err::<(), SocketError>(error),
            },
    {
        match ready {
            Ok(_) => Ok(()),
            Err(error) => Err(error),
        }
    }

    /// Sends a raw text frame over the given connection.
    /// [`queued`] takes in whether the order was accepted.
    pub fn send(connection: u64, text: String) -> (order: Order)
        ensures
            order == (Order { connection, command: Command::Send(text) }),
    {
        Order { connection, command: Command::Send(text) }
    }

    /// What the stream of all inbound frames does with a report of its
    /// receiver: it yields every frame, goes on over a gap, and ends with the
    /// connection.
    pub fn messages(received: Received) -> (delivery: Delivery<String>)
        ensures
            delivery@ == received@.frame_delivery(),
    {
        match received {
            Received::Text(text) => Delivery::Yield(text),
            Received::Lagged(lost) => Delivery::Lagged(lost),
            Received::Closed => Delivery::End,
        }
    }

    /// Closes the socket on purpose. Gives the order that closes the
    /// connection, where there is one.
    pub fn disconnect(&mut self) -> (order: Option<Order>)
        ensures
            final(self)@ == old(self)@.after(SocketStep::Disconnected),
            order == disconnect_order(old(self)@.connection),
    {
        let order = match self.connection {
            Some(connection) => Some(Order { connection, command: Command::Disconnect }),
            None => None,
        };
        self.connection = None;
        self.channels = 0;
        self.epoch = self.epoch.wrapping_add(1);
        order
    }

    /// Starts a keep-alive timer, in place of any earlier one. Gives its number,
    /// and how long it runs.
    pub(crate) fn schedule_keep_alive(&mut self) -> (timer: (u64, Duration))
        ensures
            final(self)@ == old(self)@.with_timer(),
            timer == (old(self)@.timers, old(self)@.keep_alive),
    {
        let number = self.timers;
        self.timer = Some(number);
        self.timers = number.wrapping_add(1);
        (number, self.keep_alive)
    }

    /// Takes in that the keep-alive timer with the given number expired. Gives
    /// the order that closes the connection, where there is one, no channel is
    /// open, and no channel was opened since the timer started.
    pub fn keep_alive_expired(&mut self, timer: u64) -> (order: Option<Order>)
        ensures
            final(self)@ == old(self)@.after(SocketStep::Expired(timer)),
            order == if old(self)@.is_due(timer) {
                disconnect_order(old(self)@.connection)
            } else {
                None
            },
    {
        let newest = match self.timer {
            Some(number) => number == timer,
            None => false,
        };
        if self.channels == 0 && newest {
            let order = match self.connection {
                Some(connection) => Some(Order { connection, command: Command::Disconnect }),
                None => None,
            };
            self.connection = None;
            self.timer = None;
            order
        } else {
            None
        }
    }

    /// Opens a channel on the given connection. `queue` hands the order with the
    /// first message to the task that owns the connection, and says whether it
    /// was accepted.
    ///
    /// Gives the guard that ends the channel and the sender that writes to it.
    /// Where the order was not accepted, there is no channel.
    pub fn multiplex(
        &mut self,
        connection: u64,
        subscribe_msg: String,
        unsubscribe_msg: String,
        queue: impl FnOnce(Order) -> bool,
    ) -> (r: Result<(DropGuard, SocketSender), SocketError>)
        requires
            call_requires(
                queue,
                ((Order { connection, command: Command::Send(subscribe_msg) }),),
            ),
        ensures
            call_ensures(
                queue,
                ((Order { connection, command: Command::Send(subscribe_msg) }),),
                r is Ok,
            ),
            match r {
                Ok((guard, sender)) => {
                    &&& final(self)@ == old(self)@.after(SocketStep::Opened)
                    &&& guard@ == (DropGuardView {
                        connection,
                        epoch: old(self)@.epoch,
                        unsubscribe_msg: unsubscribe_msg@,
                    })
                    &&& sender@ == connection
                },
                Err(error) => final(self)@ == old(self)@ && error is Closed,
            },
    {
        let accepted = queue(Order { connection, command: Command::Send(subscribe_msg) });
        self.multiplexed(connection, unsubscribe_msg, accepted)
    }

    /// Takes in whether the first message of a channel was accepted. If so, the
    /// channel is open: it counts, the guard ends it, and the sender writes to
    /// it. If not, nothing changes.
    pub fn multiplexed(
        &mut self,
        connection: u64,
        unsubscribe_msg: String,
        accepted: bool,
    ) -> (r: Result<(DropGuard, SocketSender), SocketError>)
        ensures
            match r {
                Ok((guard, sender)) => {
                    &&& accepted
                    &&& final(self)@ == old(self)@.after(SocketStep::Opened)
                    &&& guard@ == (DropGuardView {
                        connection,
                        epoch: old(self)@.epoch,
                        unsubscribe_msg: unsubscribe_msg@,
                    })
                    &&& sender@ == connection
                },
                Err(error) => !accepted && final(self)@ == old(self)@ && error is Closed,
            },
    {
        if accepted {
            self.channels = self.channels.wrapping_add(1);
            self.timer = None;
            let guard = DropGuard { connection, epoch: self.epoch, unsubscribe_msg };
            Ok((guard, SocketSender { connection }))
        } else {
            Err(SocketError::Closed)
        }
    }
}

impl DropGuard {
    /// Ends the channel: the other side is told, over the connection that the
    /// channel was opened on; the channel no longer counts; and the keep-alive
    /// timer starts if it was the last one.
    ///
    /// A channel from before the socket was closed on purpose does not count any
    /// more, so that its end changes nothing.
    pub fn release(self, socket: &mut RelaySocket) -> (teardown: Teardown)
        ensures
            final(socket)@ == old(socket)@.after(SocketStep::Dropped(self@.epoch)),
            teardown.order.connection == self@.connection,
            teardown.order.command matches Command::Send(text) && text@ == self@.unsubscribe_msg,
            teardown.timer == old(socket)@.timer_on_drop(self@.epoch),
    {
        let mut timer = None;
        if self.epoch == socket.epoch && socket.channels > 0 {
            socket.channels = socket.channels - 1;
            if socket.channels == 0 {
                timer = Some(socket.schedule_keep_alive());
            }
        }
        let order = Order {
            connection: self.connection,
            command: Command::Send(self.unsubscribe_msg),
        };
        Teardown { order, timer }
    }
}

// ---------------------------------------------------------------------------
// Laws of the socket
// ---------------------------------------------------------------------------

/// How often the socket was closed on purpose.
pub open spec fn disconnects(steps: Seq<SocketStep>) -> nat
    decreases steps.len(),
{
    if steps.len() == 0 {
        0
    } else {
        disconnects(steps.drop_last()) + if steps.last() is Disconnected {
            1nat
        } else {
            0nat
        }
    }
}

/// How often a channel was dropped.
pub open spec fn drops(steps: Seq<SocketStep>) -> nat
    decreases steps.len(),
{
    if steps.len() == 0 {
        0
    } else {
        drops(steps.drop_last()) + if steps.last() is Dropped {
            1nat
        } else {
            0nat
        }
    }
}

/// How many of the channels that were opened after so many purposeful closings
/// of the socket were not dropped yet.
pub open spec fn held(steps: Seq<SocketStep>, epoch: nat) -> int
    decreases steps.len(),
{
    if steps.len() == 0 {
        0
    } else {
        held(steps.drop_last(), epoch) + match steps.last() {
            SocketStep::Opened => if disconnects(steps.drop_last()) == epoch {
                1int
            } else {
                0int
            },
            SocketStep::Dropped(dropped) => if dropped == epoch {
                -1int
            } else {
                0int
            },
            _ => 0int,
        }
    }
}

/// How many channels are open: closing the socket on purpose ends those before.
pub open spec fn open_channels(steps: Seq<SocketStep>) -> int {
    held(steps, disconnects(steps))
}

/// The runs that there are: only a channel that was opened is dropped, and only
/// once, at any time, also after the socket was closed on purpose. Channels,
/// closings and drops are no more than machine numbers can count.
pub open spec fn possible(steps: Seq<SocketStep>) -> bool
    decreases steps.len(),
{
    if steps.len() == 0 {
        true
    } else {
        &&& possible(steps.drop_last())
        &&& steps.last() matches SocketStep::Dropped(epoch) ==> held(
            steps.drop_last(),
            epoch as nat,
        ) > 0
        &&& open_channels(steps) <= usize::MAX
        &&& disconnects(steps) <= u64::MAX
        &&& drops(steps) <= u64::MAX
    }
}

/// No channel is from a later epoch than the present one, and none is dropped
/// that is not there.
proof fn lemma_held(steps: Seq<SocketStep>, epoch: nat)
    requires
        possible(steps),
    ensures
        0 <= held(steps, epoch),
        epoch > disconnects(steps) ==> held(steps, epoch) == 0,
    decreases steps.len(),
{
    if steps.len() > 0 {
        lemma_held(steps.drop_last(), epoch);
    }
}

/// A socket counts the channels that are open, whatever happened before: a
/// channel from before the socket was closed on purpose does not disturb the
/// count when it is dropped.
pub proof fn law_channels_counted(url: Seq<char>, keep_alive: Duration, steps: Seq<SocketStep>)
    requires
        possible(steps),
    ensures
        SocketView::fresh(url, keep_alive).after_all(steps).channels == open_channels(steps),
        SocketView::fresh(url, keep_alive).after_all(steps).epoch == disconnects(steps),
        SocketView::fresh(url, keep_alive).after_all(steps).timers <= drops(steps),
    decreases steps.len(),
{
    if steps.len() > 0 {
        let shorter = steps.drop_last();
        law_channels_counted(url, keep_alive, shorter);
        lemma_held(shorter, disconnects(shorter));
        lemma_held(shorter, disconnects(shorter) + 1);
    }
}

/// The keep-alive timer starts exactly when the last open channel is dropped,
/// and runs for the keep-alive duration.
pub proof fn law_timer_starts_with_last_drop(
    url: Seq<char>,
    keep_alive: Duration,
    steps: Seq<SocketStep>,
    epoch: u64,
)
    requires
        possible(steps.push(SocketStep::Dropped(epoch))),
    ensures
        ({
            let before = SocketView::fresh(url, keep_alive).after_all(steps);
            before.timer_on_drop(epoch) == if epoch == disconnects(steps) && open_channels(
                steps.push(SocketStep::Dropped(epoch)),
            ) == 0 {
                Some((before.timers, keep_alive))
            } else {
                None
            }
        }),
{
    assert(steps.push(SocketStep::Dropped(epoch)).drop_last() =~= steps);
    law_channels_counted(url, keep_alive, steps);
    law_address_and_keep_alive_stay(SocketView::fresh(url, keep_alive), steps);
}

/// When a keep-alive timer expires, the connection closes if no channel is open
/// and no other timer was started nor a channel opened in the meantime; else
/// the socket stays as it is.
pub proof fn law_expiry_closes_idle_socket(
    url: Seq<char>,
    keep_alive: Duration,
    steps: Seq<SocketStep>,
    timer: u64,
)
    requires
        possible(steps),
    ensures
        ({
            let before = SocketView::fresh(url, keep_alive).after_all(steps);
            let after = before.after(SocketStep::Expired(timer));
            &&& open_channels(steps) == 0 && before.timer == Some(timer)
                ==> after.connection is None
            &&& open_channels(steps) > 0 || before.timer != Some(timer) ==> after == before
        }),
{
    law_channels_counted(url, keep_alive, steps);
}

/// After the last channel is dropped, the keep-alive timer starts; if no new
/// channel opens before it expires, the socket closes.
pub proof fn law_keep_alive(
    url: Seq<char>,
    keep_alive: Duration,
    before: Seq<SocketStep>,
    epoch: u64,
    between: Seq<SocketStep>,
)
    requires
        epoch == disconnects(before),
        open_channels(before.push(SocketStep::Dropped(epoch))) == 0,
        possible(before.push(SocketStep::Dropped(epoch))),
        possible(before.push(SocketStep::Dropped(epoch)) + between),
        forall|i: int| 0 <= i < between.len() ==> !((#[trigger] between[i]) is Opened),
        forall|i: int|
            0 <= i < between.len() ==> #[trigger] between[i] != SocketStep::Expired(
                SocketView::fresh(url, keep_alive).after_all(before).timers,
            ),
    ensures
        ({
            let timer = SocketView::fresh(url, keep_alive).after_all(before).timers;
            &&& SocketView::fresh(url, keep_alive).after_all(before).timer_on_drop(epoch) == Some(
                (timer, keep_alive),
            )
            &&& SocketView::fresh(url, keep_alive).after_all(
                before.push(SocketStep::Dropped(epoch)) + between,
            ).is_due(timer)
            &&& SocketView::fresh(url, keep_alive).after_all(
                (before.push(SocketStep::Dropped(epoch)) + between).push(
                    SocketStep::Expired(timer),
                ),
            ).connection is None
        }),
    decreases between.len(),
{
    let fresh = SocketView::fresh(url, keep_alive);
    let dropped = before.push(SocketStep::Dropped(epoch));
    let run = dropped + between;
    let timer = fresh.after_all(before).timers;
    assert(dropped.drop_last() =~= before);
    law_timer_starts_with_last_drop(url, keep_alive, before, epoch);
    if between.len() > 0 {
        let shorter = between.drop_last();
        assert(run.drop_last() =~= dropped + shorter);
        assert(run.last() == between[between.len() - 1]);
        assert forall|i: int| 0 <= i < shorter.len() implies !((#[trigger] shorter[i]) is Opened)
            && shorter[i] != SocketStep::Expired(timer) by {
            assert(shorter[i] == between[i]);
        }
        law_keep_alive(url, keep_alive, before, epoch, shorter);
    } else {
        assert(run =~= dropped);
        assert(fresh.after_all(dropped) == fresh.after_all(before).after(
            SocketStep::Dropped(epoch),
        ));
    }
    assert(run.push(SocketStep::Expired(timer)).drop_last() =~= run);
}

/// A timer that an open channel has overtaken changes nothing when it expires,
/// however many channels were opened and dropped since.
pub proof fn law_overtaken_timer_changes_nothing(
    socket: SocketView,
    timer: u64,
    steps: Seq<SocketStep>,
)
    requires
        timer < socket.timers,
        socket.timers + drops(steps) <= u64::MAX,
    ensures
        ({
            let later = socket.after(SocketStep::Opened).after_all(steps);
            later.after(SocketStep::Expired(timer)) == later
        }),
{
    lemma_newer_timers(socket.after(SocketStep::Opened), timer, steps);
}

/// A timer that is no longer the newest does not become so again.
proof fn lemma_newer_timers(socket: SocketView, timer: u64, steps: Seq<SocketStep>)
    requires
        socket.timer != Some(timer),
        timer < socket.timers,
        socket.timers + drops(steps) <= u64::MAX,
    ensures
        socket.after_all(steps).timer != Some(timer),
        socket.timers <= socket.after_all(steps).timers <= socket.timers + drops(steps),
    decreases steps.len(),
{
    if steps.len() > 0 {
        lemma_newer_timers(socket, timer, steps.drop_last());
    }
}

/// After the last drop the socket stays open until its timer expires, as long
/// as the connection does not end by itself and is not closed on purpose. No
/// earlier timer closes it.
pub proof fn law_stays_open_until_timer_expires(
    socket: SocketView,
    timer: u64,
    connection: u64,
    steps: Seq<SocketStep>,
)
    requires
        socket.channels == 0,
        socket.timer == Some(timer),
        socket.connection == Some(connection),
        forall|i: int|
            0 <= i < steps.len() ==> !((#[trigger] steps[i]) is Opened) && steps[i]
                != SocketStep::Expired(timer) && steps[i] != SocketStep::Lost(connection) && !(
            steps[i] is Disconnected),
    ensures
        socket.after_all(steps).connection == Some(connection),
        socket.after_all(steps).is_due(timer),
    decreases steps.len(),
{
    if steps.len() > 0 {
        let shorter = steps.drop_last();
        assert forall|i: int| 0 <= i < shorter.len() implies !((#[trigger] shorter[i]) is Opened)
            && shorter[i] != SocketStep::Expired(timer) && shorter[i] != SocketStep::Lost(
            connection,
        ) && !(shorter[i] is Disconnected) by {
            assert(shorter[i] == steps[i]);
        }
        law_stays_open_until_timer_expires(socket, timer, connection, shorter);
        assert(steps[steps.len() - 1] == steps.last());
    }
}

/// A channel from before the socket was closed on purpose changes nothing when
/// it is dropped, and starts no timer.
pub proof fn law_stale_drop_changes_nothing(socket: SocketView, epoch: u64)
    requires
        epoch != socket.epoch,
    ensures
        socket.after(SocketStep::Dropped(epoch)) == socket,
        socket.timer_on_drop(epoch) is None,
{
}

/// A socket connects lazily: as long as no connection was opened, there is
/// none, whatever else happens.
pub proof fn law_connects_lazily(url: Seq<char>, keep_alive: Duration, steps: Seq<SocketStep>)
    requires
        forall|i: int| 0 <= i < steps.len() ==> !((#[trigger] steps[i]) is Dialed),
    ensures
        SocketView::fresh(url, keep_alive).after_all(steps).connection is None,
    decreases steps.len(),
{
    if steps.len() > 0 {
        let shorter = steps.drop_last();
        assert forall|i: int| 0 <= i < shorter.len() implies !((#[trigger] shorter[i]) is Dialed) by {
            assert(shorter[i] == steps[i]);
        }
        law_connects_lazily(url, keep_alive, shorter);
        assert(steps[steps.len() - 1] == steps.last());
    }
}

impl SocketView {
    /// The step takes a connection away.
    pub open spec fn closes(self, step: SocketStep) -> bool {
        match step {
            SocketStep::Lost(number) => self.connection == Some(number),
            SocketStep::Expired(timer) => self.is_due(timer),
            SocketStep::Disconnected => self.connection is Some,
            _ => false,
        }
    }

    /// How often a use of the socket is told to open a connection.
    pub open spec fn dials(self, steps: Seq<SocketStep>) -> nat
        decreases steps.len(),
    {
        if steps.len() == 0 {
            0
        } else {
            self.dials(steps.drop_last()) + if steps.last() is Asked && self.after_all(
                steps.drop_last(),
            ).would_dial() {
                1nat
            } else {
                0nat
            }
        }
    }

    /// How often a connection could not be opened or was taken away.
    pub open spec fn failures(self, steps: Seq<SocketStep>) -> nat
        decreases steps.len(),
    {
        if steps.len() == 0 {
            0
        } else {
            self.failures(steps.drop_last()) + if steps.last() is DialFailed || self.after_all(
                steps.drop_last(),
            ).closes(steps.last()) {
                1nat
            } else {
                0nat
            }
        }
    }
}

/// All uses share one connection: once there is one, no other takes its place
/// before it ended, was closed on purpose, or was closed by an expired timer.
pub proof fn law_one_connection(socket: SocketView, number: u64, steps: Seq<SocketStep>)
    requires
        socket.connection == Some(number),
        forall|i: int|
            0 <= i < steps.len() ==> !socket.after_all(steps.take(i)).closes(#[trigger] steps[i]),
    ensures
        socket.after_all(steps).connection == Some(number),
    decreases steps.len(),
{
    if steps.len() > 0 {
        let shorter = steps.drop_last();
        assert forall|i: int| 0 <= i < shorter.len() implies !socket.after_all(
            shorter.take(i),
        ).closes(#[trigger] shorter[i]) by {
            assert(shorter[i] == steps[i]);
            assert(shorter.take(i) =~= steps.take(i));
        }
        law_one_connection(socket, number, shorter);
        assert(steps.take(steps.len() - 1) =~= shorter);
        assert(!socket.after_all(steps.take(steps.len() - 1)).closes(steps[steps.len() - 1]));
    }
}

/// Only one connection is ever opened, however many uses ask for one at the
/// same time: each further one needs that the one before could not be opened,
/// or was taken away.
pub proof fn law_only_one_connection_is_opened(
    url: Seq<char>,
    keep_alive: Duration,
    steps: Seq<SocketStep>,
)
    ensures
        SocketView::fresh(url, keep_alive).dials(steps) <= 1 + SocketView::fresh(
            url,
            keep_alive,
        ).failures(steps),
{
    lemma_dials(url, keep_alive, steps);
}

proof fn lemma_dials(url: Seq<char>, keep_alive: Duration, steps: Seq<SocketStep>)
    ensures
        ({
            let fresh = SocketView::fresh(url, keep_alive);
            fresh.dials(steps) <= fresh.failures(steps) + if fresh.after_all(steps).would_dial() {
                0nat
            } else {
                1nat
            }
        }),
    decreases steps.len(),
{
    if steps.len() > 0 {
        lemma_dials(url, keep_alive, steps.drop_last());
    }
}

/// Between two uses that are told to open a connection stands a reported
/// outcome: while one opens a connection, no other does.
pub proof fn law_dials_are_apart(socket: SocketView, between: Seq<SocketStep>)
    requires
        socket.would_dial(),
        forall|i: int|
            0 <= i < between.len() ==> !((#[trigger] between[i]) is Dialed) && !(
            between[i] is DialFailed),
    ensures
        !socket.after(SocketStep::Asked).after_all(between).would_dial(),
        socket.after(SocketStep::Asked).after_all(between).dialing,
    decreases between.len(),
{
    if between.len() > 0 {
        let shorter = between.drop_last();
        assert forall|i: int| 0 <= i < shorter.len() implies !((#[trigger] shorter[i]) is Dialed)
            && !(shorter[i] is DialFailed) by {
            assert(shorter[i] == between[i]);
        }
        law_dials_are_apart(socket, shorter);
        assert(between[between.len() - 1] == between.last());
    }
}

/// Uses at the same time share the one connection that the first of them opens:
/// those that ask before it is there wait for it, and get it.
pub proof fn law_concurrent_uses_share_one_connection(
    socket: SocketView,
    waiting: Seq<SocketStep>,
    number: u64,
)
    requires
        socket.would_dial(),
        forall|i: int| 0 <= i < waiting.len() ==> (#[trigger] waiting[i]) is Asked,
    ensures
        socket.after(SocketStep::Asked).dials(waiting) == 0,
        socket.after(SocketStep::Asked).after_all(waiting).after(
            SocketStep::Dialed(number),
        ).connection == Some(number),
    decreases waiting.len(),
{
    if waiting.len() > 0 {
        let shorter = waiting.drop_last();
        assert forall|i: int| 0 <= i < shorter.len() implies (#[trigger] shorter[i]) is Asked by {
            assert(shorter[i] == waiting[i]);
        }
        law_concurrent_uses_share_one_connection(socket, shorter, number);
        law_dials_are_apart(socket, shorter);
        assert(waiting[waiting.len() - 1] == waiting.last());
    }
}

/// No connection is opened while there is one.
pub proof fn law_no_dial_while_connected(
    url: Seq<char>,
    keep_alive: Duration,
    steps: Seq<SocketStep>,
)
    ensures
        ({
            let socket = SocketView::fresh(url, keep_alive).after_all(steps);
            !(socket.dialing && socket.connection is Some)
        }),
    decreases steps.len(),
{
    if steps.len() > 0 {
        law_no_dial_while_connected(url, keep_alive, steps.drop_last());
    }
}

/// A connection that ended is not handed out again: the next use of the socket
/// opens a new one.
pub proof fn law_lost_connection_is_replaced(
    url: Seq<char>,
    keep_alive: Duration,
    steps: Seq<SocketStep>,
    lost: u64,
    number: u64,
)
    requires
        SocketView::fresh(url, keep_alive).after_all(steps).connection == Some(lost),
    ensures
        ({
            let after = SocketView::fresh(url, keep_alive).after_all(steps).after(
                SocketStep::Lost(lost),
            );
            &&& after.would_dial()
            &&& after.after(SocketStep::Asked).after(SocketStep::Dialed(number)).connection == Some(
                number,
            )
        }),
{
    law_no_dial_while_connected(url, keep_alive, steps);
}

/// No step changes the address or the keep-alive duration.
pub proof fn law_address_and_keep_alive_stay(socket: SocketView, steps: Seq<SocketStep>)
    ensures
        socket.after_all(steps).url == socket.url,
        socket.after_all(steps).keep_alive == socket.keep_alive,
    decreases steps.len(),
{
    if steps.len() > 0 {
        law_address_and_keep_alive_stay(socket, steps.drop_last());
    }
}

/// Closing on purpose leaves no connection and no channel, and the socket can
/// be connected anew.
pub proof fn law_disconnect_starts_afresh(socket: SocketView, number: u64)
    ensures
        socket.after(SocketStep::Disconnected).connection is None,
        socket.after(SocketStep::Disconnected).channels == 0,
        socket.after(SocketStep::Disconnected).after(SocketStep::Dialed(number)).connection == Some(
            number,
        ),
{
}

// ---------------------------------------------------------------------------
// Laws of the connection task
// ---------------------------------------------------------------------------

/// The texts that the task hands to the receivers, for a sequence of events.
pub open spec fn broadcasts(events: Seq<ActorEventView>) -> Seq<Seq<char>>
    decreases events.len(),
{
    if events.len() == 0 || events[0].is_stop() {
        Seq::empty()
    } else {
        match events[0].step() {
            ActorStepView::Broadcast(text) => seq![text] + broadcasts(events.drop_first()),
            _ => broadcasts(events.drop_first()),
        }
    }
}

/// The texts that the task writes to the connection, for a sequence of events.
pub open spec fn writes(events: Seq<ActorEventView>) -> Seq<Seq<char>>
    decreases events.len(),
{
    if events.len() == 0 || events[0].is_stop() {
        Seq::empty()
    } else {
        match events[0].step() {
            ActorStepView::Write(text) => seq![text] + writes(events.drop_first()),
            _ => writes(events.drop_first()),
        }
    }
}

/// The text frames among the events.
pub open spec fn text_frames(events: Seq<ActorEventView>) -> Seq<Seq<char>>
    decreases events.len(),
{
    if events.len() == 0 {
        Seq::empty()
    } else {
        match events[0] {
            ActorEventView::Text(text) => seq![text] + text_frames(events.drop_first()),
            _ => text_frames(events.drop_first()),
        }
    }
}

/// The texts of the orders to write among the events.
pub open spec fn ordered_texts(events: Seq<ActorEventView>) -> Seq<Seq<char>>
    decreases events.len(),
{
    if events.len() == 0 {
        Seq::empty()
    } else {
        match events[0] {
            ActorEventView::Command(CommandView::Send(text)) => seq![text] + ordered_texts(
                events.drop_first(),
            ),
            _ => ordered_texts(events.drop_first()),
        }
    }
}

/// As long as the task runs, the receivers get every text frame, and the
/// connection every text that was ordered, in order.
pub proof fn law_task_passes_texts_on_in_order(events: Seq<ActorEventView>)
    requires
        forall|i: int| 0 <= i < events.len() ==> !(#[trigger] events[i]).is_stop(),
    ensures
        broadcasts(events) == text_frames(events),
        writes(events) == ordered_texts(events),
    decreases events.len(),
{
    if events.len() > 0 {
        let rest = events.drop_first();
        assert forall|i: int| 0 <= i < rest.len() implies !(#[trigger] rest[i]).is_stop() by {
            assert(rest[i] == events[i + 1]);
        }
        law_task_passes_texts_on_in_order(rest);
    }
}

/// The receivers get the text frames before the first event that stops the
/// task, in order, and none after it; the same holds of the ordered texts.
pub proof fn law_task_ends_with_first_stop(
    before: Seq<ActorEventView>,
    stop: ActorEventView,
    after: Seq<ActorEventView>,
)
    requires
        forall|i: int| 0 <= i < before.len() ==> !(#[trigger] before[i]).is_stop(),
        stop.is_stop(),
    ensures
        broadcasts(before.push(stop) + after) == text_frames(before),
        writes(before.push(stop) + after) == ordered_texts(before),
    decreases before.len(),
{
    let whole = before.push(stop) + after;
    if before.len() > 0 {
        let rest = before.drop_first();
        assert forall|i: int| 0 <= i < rest.len() implies !(#[trigger] rest[i]).is_stop() by {
            assert(rest[i] == before[i + 1]);
        }
        law_task_ends_with_first_stop(rest, stop, after);
        assert(whole.drop_first() =~= rest.push(stop) + after);
        assert(whole[0] == before[0]);
    } else {
        assert(whole[0] == stop);
    }
}

// ---------------------------------------------------------------------------
// Laws of the streams of frames
// ---------------------------------------------------------------------------

/// The items that a stream yields, for what it does with each report.
pub open spec fn yielded<V>(deliveries: Seq<DeliveryView<V>>) -> Seq<V>
    decreases deliveries.len(),
{
    if deliveries.len() == 0 {
        Seq::empty()
    } else {
        match deliveries[0] {
            DeliveryView::Yield(item) => seq![item] + yielded(deliveries.drop_first()),
            DeliveryView::End => Seq::empty(),
            _ => yielded(deliveries.drop_first()),
        }
    }
}

/// The texts that a receiver reports until it reports the end.
pub open spec fn received_texts(reports: Seq<ReceivedView>) -> Seq<Seq<char>>
    decreases reports.len(),
{
    if reports.len() == 0 {
        Seq::empty()
    } else {
        match reports[0] {
            ReceivedView::Text(text) => seq![text] + received_texts(reports.drop_first()),
            ReceivedView::Lagged(_) => received_texts(reports.drop_first()),
            ReceivedView::Closed => Seq::empty(),
        }
    }
}

/// What the stream of all frames does with a sequence of reports.
pub open spec fn frame_deliveries(reports: Seq<ReceivedView>) -> Seq<DeliveryView<Seq<char>>> {
    Seq::new(reports.len(), |i: int| reports[i].frame_delivery())
}

/// What the stream of a channel that selects these frames does with a sequence
/// of reports.
pub open spec fn channel_deliveries(
    reports: Seq<ReceivedView>,
    selects: spec_fn(Seq<char>) -> bool,
) -> Seq<DeliveryView<Seq<char>>> {
    Seq::new(reports.len(), |i: int| reports[i].channel_delivery(selects))
}

/// What comes after the end of a stream is not seen.
pub proof fn law_nothing_is_yielded_after_end<V>(
    before: Seq<DeliveryView<V>>,
    after: Seq<DeliveryView<V>>,
)
    ensures
        yielded(before.push(DeliveryView::End) + after) == yielded(before),
    decreases before.len(),
{
    let whole = before.push(DeliveryView::End) + after;
    if before.len() > 0 {
        law_nothing_is_yielded_after_end(before.drop_first(), after);
        assert(whole.drop_first() =~= before.drop_first().push(DeliveryView::End) + after);
        assert(whole[0] == before[0]);
    } else {
        assert(whole[0] == DeliveryView::<V>::End);
    }
}

/// The stream of all frames yields every text that is received before the end
/// of the connection, in order, and goes on over gaps.
pub proof fn law_frames_are_yielded_in_order(reports: Seq<ReceivedView>)
    ensures
        yielded(frame_deliveries(reports)) == received_texts(reports),
    decreases reports.len(),
{
    if reports.len() > 0 {
        law_frames_are_yielded_in_order(reports.drop_first());
        assert(frame_deliveries(reports).drop_first() =~= frame_deliveries(reports.drop_first()));
    }
}

/// The stream of a channel yields every text that its filter selects of those
/// received before the end of the connection, in order, and goes on over gaps.
pub proof fn law_selected_frames_are_yielded_in_order(
    reports: Seq<ReceivedView>,
    selects: spec_fn(Seq<char>) -> bool,
)
    ensures
        yielded(channel_deliveries(reports, selects)) == received_texts(reports).filter(selects),
    decreases reports.len(),
{
    reveal(Seq::filter);
    if reports.len() > 0 {
        let rest = reports.drop_first();
        law_selected_frames_are_yielded_in_order(rest, selects);
        assert(channel_deliveries(reports, selects).drop_first() =~= channel_deliveries(
            rest,
            selects,
        ));
        if let ReceivedView::Text(text) = reports[0] {
            Seq::filter_distributes_over_add(seq![text], received_texts(rest), selects);
            assert(seq![text].drop_last() =~= Seq::empty());
            assert(seq![text].drop_last().filter(selects) =~= Seq::empty());
        }
    }
}

// ---------------------------------------------------------------------------
// Laws of the single steps
// ---------------------------------------------------------------------------

/// Which events stop the task that owns a connection. No frame but a close
/// frame does, and no order but the one to disconnect.
pub proof fn law_what_stops_the_task(event: ActorEventView)
    ensures
        event.is_stop() <==> event is CloseFrame || event is ReadError || event is StreamEnd
            || event is WriteError || event is CommandsEnd || event == ActorEventView::Command(
            CommandView::Disconnect,
        ),
        event.is_stop() <==> event.step() is Stop || event.step() is CloseAndStop,
        event.step() is CloseAndStop <==> event is CommandsEnd || event == ActorEventView::Command(
            CommandView::Disconnect,
        ),
{
}

/// Every text that comes in is handed on as it is, every text that is ordered is
/// written as it is, and nothing else is handed on or written.
pub proof fn law_task_hands_texts_on(event: ActorEventView, text: Seq<char>)
    ensures
        event.step() == ActorStepView::Broadcast(text) <==> event == ActorEventView::Text(text),
        event.step() == ActorStepView::Write(text) <==> event == ActorEventView::Command(
            CommandView::Send(text),
        ),
        event.step() is Continue <==> event is OtherFrame,
{
}

/// Events and steps of the task in memory stand for those with the same content.
pub proof fn law_task_content(event: ActorEvent, step: ActorStep, command: Command)
    ensures
        match event {
            ActorEvent::Text(text) => event@ == ActorEventView::Text(text@),
            ActorEvent::CloseFrame => event@ == ActorEventView::CloseFrame,
            ActorEvent::OtherFrame => event@ == ActorEventView::OtherFrame,
            ActorEvent::ReadError => event@ == ActorEventView::ReadError,
            ActorEvent::StreamEnd => event@ == ActorEventView::StreamEnd,
            ActorEvent::WriteError => event@ == ActorEventView::WriteError,
            ActorEvent::Command(command) => event@ == ActorEventView::Command(command@),
            ActorEvent::CommandsEnd => event@ == ActorEventView::CommandsEnd,
        },
        match step {
            ActorStep::Broadcast(text) => step@ == ActorStepView::Broadcast(text@),
            ActorStep::Write(text) => step@ == ActorStepView::Write(text@),
            ActorStep::Continue => step@ == ActorStepView::Continue,
            ActorStep::Stop => step@ == ActorStepView::Stop,
            ActorStep::CloseAndStop => step@ == ActorStepView::CloseAndStop,
        },
        match command {
            Command::Send(text) => command@ == CommandView::Send(text@),
            Command::Disconnect => command@ == CommandView::Disconnect,
        },
{
}

/// The stream of all frames yields every text and only those, tells of every
/// gap, and ends exactly with the connection.
pub proof fn law_frame_deliveries(received: ReceivedView, text: Seq<char>, lost: u64)
    ensures
        received.frame_delivery() == DeliveryView::Yield(text) <==> received == ReceivedView::Text(
            text,
        ),
        received.frame_delivery() == DeliveryView::<Seq<char>>::Lagged(lost) <==> received
            == ReceivedView::Lagged(lost),
        received.frame_delivery() is End <==> received is Closed,
{
}

/// The stream of a channel yields every text that the channel selects and only
/// those, skips every other, tells of every gap, and ends exactly with the
/// connection.
pub proof fn law_channel_deliveries(
    received: ReceivedView,
    selects: spec_fn(Seq<char>) -> bool,
    text: Seq<char>,
    lost: u64,
)
    ensures
        received.channel_delivery(selects) == DeliveryView::Yield(text) <==> received
            == ReceivedView::Text(text) && selects(text),
        received.channel_delivery(selects) is Skip <==> (received matches ReceivedView::Text(other)
            && !selects(other)),
        received.channel_delivery(selects) == DeliveryView::<Seq<char>>::Lagged(lost) <==> received
            == ReceivedView::Lagged(lost),
        received.channel_delivery(selects) is End <==> received is Closed,
{
}

/// Reports and deliveries in memory stand for those with the same content.
pub proof fn law_delivery_content<T: View>(received: Received, delivery: Delivery<T>)
    ensures
        match received {
            Received::Text(text) => received@ == ReceivedView::Text(text@),
            Received::Lagged(lost) => received@ == ReceivedView::Lagged(lost),
            Received::Closed => received@ == ReceivedView::Closed,
        },
        match delivery {
            Delivery::Yield(item) => delivery@ == DeliveryView::Yield(item@),
            Delivery::Skip => delivery@ == DeliveryView::<T::V>::Skip,
            Delivery::Lagged(lost) => delivery@ == DeliveryView::<T::V>::Lagged(lost),
            Delivery::Malformed(error) => delivery@ == DeliveryView::<T::V>::Malformed(error@),
            Delivery::End => delivery@ == DeliveryView::<T::V>::End,
        },
{
}

/// Errors of the socket in memory stand for those with the same content, and
/// each says what it is, around whatever text it carries.
pub proof fn law_socket_errors(error: SocketError, text: Seq<char>)
    ensures
        match error {
            SocketError::Connect(message) => error@ == SocketErrorView::Connect(message@),
            SocketError::Closed => error@ == SocketErrorView::Closed,
        },
        socket_error_text(SocketErrorView::Connect(text)) == "WebSocket connect error: "@ + text,
        socket_error_text(SocketErrorView::Closed) == "WebSocket connection is closed"@,
{
}

/// A new socket is for its address and its keep-alive duration, and nothing has
/// happened to it.
pub proof fn law_fresh_socket(url: Seq<char>, keep_alive: Duration)
    ensures
        ({
            let socket = SocketView::fresh(url, keep_alive);
            &&& socket.url == url
            &&& socket.keep_alive == keep_alive
            &&& socket.connection is None
            &&& !socket.dialing
            &&& socket.channels == 0
            &&& socket.epoch == 0
            &&& socket.timer is None
            &&& socket.timers == 0
        }),
{
}

/// A use of the socket has to dial exactly where there is no connection and none
/// is being opened. Asking marks that one is being opened, and changes nothing
/// else.
pub proof fn law_asking(socket: SocketView)
    ensures
        socket.would_dial() <==> socket.connection is None && !socket.dialing,
        ({
            let after = socket.after(SocketStep::Asked);
            &&& after.dialing == (socket.connection is None || socket.dialing)
            &&& after == (SocketView { dialing: after.dialing, ..socket })
        }),
{
}

/// The outcome of opening a connection ends the opening. A connection that was
/// opened is used, unless there is one; nothing else changes.
pub proof fn law_dialing_outcome(socket: SocketView, number: u64)
    ensures
        ({
            let after = socket.after(SocketStep::Dialed(number));
            &&& !after.dialing
            &&& socket.connection is None ==> after.connection == Some(number)
            &&& socket.connection is Some ==> after.connection == socket.connection
            &&& after == (SocketView { dialing: false, connection: after.connection, ..socket })
        }),
        socket.after(SocketStep::DialFailed) == (SocketView { dialing: false, ..socket }),
{
}

/// The end of the connection in use leaves none, and the end of any other
/// changes nothing.
pub proof fn law_losing_a_connection(socket: SocketView, number: u64)
    ensures
        socket.connection == Some(number) ==> socket.after(SocketStep::Lost(number)) == (
        SocketView { connection: None, ..socket }),
        socket.connection != Some(number) ==> socket.after(SocketStep::Lost(number)) == socket,
{
}

/// Opening a channel counts one more, overtakes any timer, and changes nothing
/// else.
pub proof fn law_opening_a_channel(socket: SocketView)
    ensures
        ({
            let after = socket.after(SocketStep::Opened);
            &&& socket.channels < usize::MAX ==> after.channels == socket.channels + 1
            &&& socket.channels == usize::MAX ==> after.channels == 0
            &&& after.timer is None
            &&& after == (SocketView { channels: after.channels, timer: None, ..socket })
        }),
{
}

/// Dropping a channel of this epoch counts one less, down to none. The drop of
/// the last one starts a timer under a new number, for the keep-alive duration;
/// no other drop does. Nothing else changes.
pub proof fn law_dropping_a_channel(socket: SocketView, epoch: u64)
    ensures
        ({
            let after = socket.after(SocketStep::Dropped(epoch));
            let last = epoch == socket.epoch && socket.channels == 1;
            &&& epoch == socket.epoch && socket.channels > 0 ==> after.channels == socket.channels
                - 1
            &&& epoch != socket.epoch || socket.channels == 0 ==> after == socket
            &&& last ==> after.timer == Some(socket.timers)
            &&& last && socket.timers < u64::MAX ==> after.timers == socket.timers + 1
            &&& last && socket.timers == u64::MAX ==> after.timers == 0
            &&& !last ==> after.timer == socket.timer && after.timers == socket.timers
            &&& after == (SocketView {
                channels: after.channels,
                timer: after.timer,
                timers: after.timers,
                ..socket
            })
            &&& socket.timer_on_drop(epoch) == if last {
                Some((socket.timers, socket.keep_alive))
            } else {
                None
            }
        }),
{
}

/// Starting a timer makes it the newest one, under a new number, and changes
/// nothing else.
pub proof fn law_starting_a_timer(socket: SocketView)
    ensures
        ({
            let after = socket.with_timer();
            &&& after.timer == Some(socket.timers)
            &&& socket.timers < u64::MAX ==> after.timers == socket.timers + 1
            &&& socket.timers == u64::MAX ==> after.timers == 0
            &&& after == (SocketView { timer: after.timer, timers: after.timers, ..socket })
        }),
{
}

/// A timer is due exactly where no channel is open and it is the newest one. If
/// it is, its expiry closes the connection; if not, it changes nothing.
pub proof fn law_expiry_of_a_timer(socket: SocketView, timer: u64)
    ensures
        socket.is_due(timer) <==> socket.channels == 0 && socket.timer == Some(timer),
        socket.channels == 0 && socket.timer == Some(timer) ==> socket.after(
            SocketStep::Expired(timer),
        ) == (SocketView { connection: None, timer: None, ..socket }),
        socket.channels > 0 || socket.timer != Some(timer) ==> socket.after(
            SocketStep::Expired(timer),
        ) == socket,
{
}

/// Closing on purpose leaves no connection and no channel, begins a new epoch,
/// and changes nothing else.
pub proof fn law_closing_on_purpose(socket: SocketView)
    ensures
        ({
            let after = socket.after(SocketStep::Disconnected);
            &&& after.connection is None
            &&& after.channels == 0
            &&& after.epoch != socket.epoch
            &&& socket.epoch < u64::MAX ==> after.epoch == socket.epoch + 1
            &&& after == (SocketView {
                connection: None,
                channels: 0,
                epoch: after.epoch,
                ..socket
            })
        }),
{
}

/// The order to close a connection is for that connection; without a connection
/// there is none.
pub proof fn law_order_to_close(connection: u64)
    ensures
        disconnect_order(Some(connection)) == Some(
            Order { connection, command: Command::Disconnect },
        ),
        disconnect_order(None) is None,
{
}

/// A filter selects exactly the frames on which it says so.
pub proof fn law_filters_select<F: Fn(&str) -> bool>(
    filter: F,
    selects: spec_fn(Seq<char>) -> bool,
    frame: &str,
    selected: bool,
)
    requires
        filters_by(filter, selects),
        call_ensures(filter, (frame,), selected),
    ensures
        selected == selects(frame@),
{
}

/// How many inbound frames are kept, and how long the default keep-alive is.
pub proof fn law_limits()
    ensures
        FRAME_BACKLOG == 1024,
        DEFAULT_KEEP_ALIVE == 30,
{
}

} // verus!
