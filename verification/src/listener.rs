//! The session with the feed: the keepalive handoff and the rules that take
//! a connection from the handshake to the stream of market messages.

use crate::decode::{is_first_fault_of, market_decodable, rows_levels, DecodeError};
use crate::levels::{apply_batch, Side};
use crate::models::{MarketMsgRoot, WelcomeMsg};
use crate::orderbook::OrderBook;
use crate::server::ServerConfig;
use crate::websocket::{
    address_text, connection_url, parsed_url, ping_message, ping_text,
    subscribe_message, subscribe_text, InvalidEndpoint,
};
use vstd::prelude::*;
use vstd::string::StringExecFns;

verus! {

/// The topic that a session subscribes to.
pub const TOPIC: &'static str = "/contractMarket/level2Depth5:ETHUSDTM";

/// The word that a ping is due. Only a [`KeepaliveCoordinator`] makes one.
#[derive(Debug)]
pub struct Ping {
    seal: (),
}

/// The word that the ping was sent. Only a [`Listener`] makes one.
#[derive(Debug)]
pub struct Pong {
    seal: (),
}

/// Paces the pings of a session: after each interval it says once that a
/// ping is due, and says no more until it has been told that the ping was
/// sent.
pub struct KeepaliveCoordinator {
    interval_millis: u64,
    outstanding: bool,
}

impl KeepaliveCoordinator {
    /// Milliseconds between two pings.
    pub closed spec fn interval(&self) -> u64 {
        self.interval_millis
    }

    /// A ping was called for and has not been confirmed yet.
    pub closed spec fn outstanding(&self) -> bool {
        self.outstanding
    }

    /// A coordinator with no ping outstanding.
    pub fn new(interval_millis: u64) -> (coordinator: Self)
        ensures
            coordinator.interval() == interval_millis,
            !coordinator.outstanding(),
    {
        KeepaliveCoordinator { interval_millis, outstanding: false }
    }

    /// Milliseconds between two pings.
    pub fn interval_millis(&self) -> (millis: u64)
        ensures
            millis == self.interval(),
    {
        self.interval_millis
    }

    /// Whether a ping was called for and has not been confirmed yet.
    pub fn is_outstanding(&self) -> (outstanding: bool)
        ensures
            outstanding == self.outstanding(),
    {
        self.outstanding
    }

    /// The interval has passed. Calls for a ping, unless one is outstanding:
    /// then nothing is handed out and nothing changes.
    pub fn timer_elapsed(&mut self) -> (due: Option<Ping>)
        ensures
            due is Some <==> !old(self).outstanding(),
            final(self).outstanding(),
            final(self).interval() == old(self).interval(),
    {
        if self.outstanding {
            None
        } else {
            self.outstanding = true;
            Some(Ping { seal: () })
        }
    }

    /// The ping was sent. Returns whether one was outstanding; either way
    /// none is afterwards.
    pub fn confirm(&mut self, pong: Pong) -> (accepted: bool)
        ensures
            accepted == old(self).outstanding(),
            !final(self).outstanding(),
            final(self).interval() == old(self).interval(),
    {
        let accepted = self.outstanding;
        self.outstanding = false;
        accepted
    }
}

/// Why a session ended in failure.
#[derive(Clone, Copy, Debug, PartialEq, Eq, Structural)]
pub enum Failure {
    /// The configuration's address is no URL.
    InvalidEndpoint,
    /// The connection could not be established.
    Connect,
    /// The first message was no welcome.
    Handshake,
    /// Reading or writing failed.
    Transport,
    /// An event that the state does not expect.
    Unexpected,
}

/// How a session ended.
#[derive(Clone, Copy, Debug, PartialEq, Eq, Structural)]
pub enum Termination {
    Closed,
    Failed(Failure),
}

/// Where the steady loop of a streaming session stands.
#[derive(Clone, Copy, Debug, PartialEq, Eq, Structural)]
pub enum Phase {
    /// Looking whether a ping is due.
    Polling,
    /// Sending the ping that was due.
    Pinging,
    /// Telling the coordinator that the ping was sent.
    Confirming,
    /// Waiting for the next message.
    Reading,
    /// Showing the book after a market message.
    Rendering,
    /// Reporting a message that could not be used.
    Reporting,
}

/// The state of a session.
#[derive(Clone, Copy, Debug, PartialEq, Eq, Structural)]
pub enum SessionState {
    Connecting,
    AwaitingWelcome,
    Subscribing,
    Streaming(Phase),
    Terminated(Termination),
}

/// A message as the decoder hands it over.
#[derive(Debug)]
pub enum Inbound {
    Welcome(WelcomeMsg),
    Market(MarketMsgRoot),
    /// An acknowledgement that carries nothing for the book.
    Ack,
    /// A payload that is none of the above.
    Undecodable,
}

/// The value of the `type` field that marks a welcome.
pub const WELCOME: &'static str = "welcome";

impl Inbound {
    /// Sorts a payload by what it could be decoded as: a market message
    /// where it is one; else, where it carries an id and a type, a welcome
    /// if the type is [`WELCOME`] and an acknowledgement if not; else
    /// nothing of use.
    pub fn classify(market: Option<MarketMsgRoot>, control: Option<WelcomeMsg>) -> (inbound:
        Inbound)
        ensures
            inbound == match (market, control) {
                (Some(message), _) => Inbound::Market(message),
                (None, Some(header)) => if header.type_field@ == WELCOME@ {
                    Inbound::Welcome(header)
                } else {
                    Inbound::Ack
                },
                (None, None) => Inbound::Undecodable,
            },
    {
        match market {
            Some(message) => Inbound::Market(message),
            None => match control {
                Some(header) => {
                    if header.type_field == String::from_str(WELCOME) {
                        Inbound::Welcome(header)
                    } else {
                        Inbound::Ack
                    }
                },
                None => Inbound::Undecodable,
            },
        }
    }
}

/// What came of the last action.
#[derive(Debug)]
pub enum Event {
    /// The action was carried out; it has nothing to hand back.
    Done,
    /// The transport failed.
    Failed,
    /// The peer closed the connection.
    Closed,
    /// A read returned this message.
    Message(Inbound),
    /// A look at the coordinator returned this.
    Keepalive(Option<Ping>),
}

/// Why a message was not used.
#[derive(Clone, Copy, Debug, PartialEq, Eq, Structural)]
pub enum DecodeFailure {
    /// The payload is no message.
    Payload,
    /// The message holds a row that is no price level.
    Row(DecodeError),
}

/// What to do next.
#[derive(Debug)]
pub enum Action {
    /// Open the connection to this URL.
    Connect(String),
    /// Wait for the next message.
    Read,
    /// Send this text.
    Send(String),
    /// Look, without waiting, whether a ping is due.
    PollKeepalive,
    /// Tell the coordinator that the ping was sent.
    ConfirmKeepalive(Pong),
    /// Show the book.
    Render,
    /// Report that the last message was not used.
    Report(DecodeFailure),
    /// The session is over.
    Stop,
}

/// An action with its texts as sequences.
pub enum ActionView {
    Connect(Seq<char>),
    Read,
    Send(Seq<char>),
    PollKeepalive,
    ConfirmKeepalive,
    Render,
    Report(DecodeFailure),
    Stop,
}

impl View for Action {
    type V = ActionView;

    open spec fn view(&self) -> ActionView {
        match *self {
            Action::Connect(url) => ActionView::Connect(url@),
            Action::Read => ActionView::Read,
            Action::Send(text) => ActionView::Send(text@),
            Action::PollKeepalive => ActionView::PollKeepalive,
            Action::ConfirmKeepalive(_) => ActionView::ConfirmKeepalive,
            Action::Render => ActionView::Render,
            Action::Report(failure) => ActionView::Report(failure),
            Action::Stop => ActionView::Stop,
        }
    }
}

/// The state that follows `state` on `event`.
pub open spec fn next_state(state: SessionState, event: Event) -> SessionState {
    match state {
        SessionState::Connecting => match event {
            Event::Done => SessionState::AwaitingWelcome,
            Event::Failed | Event::Closed => SessionState::Terminated(
                Termination::Failed(Failure::Connect),
            ),
            _ => SessionState::Terminated(Termination::Failed(Failure::Unexpected)),
        },
        SessionState::AwaitingWelcome => match event {
            Event::Message(Inbound::Welcome(_)) => SessionState::Subscribing,
            Event::Message(_) => SessionState::Terminated(Termination::Failed(Failure::Handshake)),
            Event::Failed => SessionState::Terminated(Termination::Failed(Failure::Transport)),
            Event::Closed => SessionState::Terminated(Termination::Closed),
            _ => SessionState::Terminated(Termination::Failed(Failure::Unexpected)),
        },
        SessionState::Subscribing => match event {
            Event::Done => SessionState::Streaming(Phase::Polling),
            Event::Failed => SessionState::Terminated(Termination::Failed(Failure::Transport)),
            Event::Closed => SessionState::Terminated(Termination::Closed),
            _ => SessionState::Terminated(Termination::Failed(Failure::Unexpected)),
        },
        SessionState::Streaming(Phase::Polling) => match event {
            Event::Keepalive(Some(_)) => SessionState::Streaming(Phase::Pinging),
            Event::Keepalive(None) => SessionState::Streaming(Phase::Reading),
            _ => SessionState::Terminated(Termination::Failed(Failure::Unexpected)),
        },
        SessionState::Streaming(Phase::Pinging) => match event {
            Event::Done => SessionState::Streaming(Phase::Confirming),
            Event::Failed => SessionState::Terminated(Termination::Failed(Failure::Transport)),
            Event::Closed => SessionState::Terminated(Termination::Closed),
            _ => SessionState::Terminated(Termination::Failed(Failure::Unexpected)),
        },
        SessionState::Streaming(Phase::Confirming) => match event {
            Event::Done => SessionState::Streaming(Phase::Reading),
            _ => SessionState::Terminated(Termination::Failed(Failure::Unexpected)),
        },
        SessionState::Streaming(Phase::Reading) => match event {
            Event::Message(Inbound::Market(message)) => if market_decodable(message.data) {
                SessionState::Streaming(Phase::Rendering)
            } else {
                SessionState::Streaming(Phase::Reporting)
            },
            Event::Message(Inbound::Undecodable) => SessionState::Streaming(Phase::Reporting),
            Event::Message(_) => SessionState::Streaming(Phase::Polling),
            Event::Failed => SessionState::Terminated(Termination::Failed(Failure::Transport)),
            Event::Closed => SessionState::Terminated(Termination::Closed),
            _ => SessionState::Terminated(Termination::Failed(Failure::Unexpected)),
        },
        SessionState::Streaming(Phase::Rendering) | SessionState::Streaming(
            Phase::Reporting,
        ) => match event {
            Event::Done => SessionState::Streaming(Phase::Polling),
            _ => SessionState::Terminated(Termination::Failed(Failure::Unexpected)),
        },
        SessionState::Terminated(how) => SessionState::Terminated(how),
    }
}

/// The connection id after `event` in `state`: the id of the welcome where
/// the event is the awaited welcome, the id as it was otherwise.
pub open spec fn next_connect_id(state: SessionState, event: Event, id: Seq<char>) -> Seq<char> {
    match (state, event) {
        (SessionState::AwaitingWelcome, Event::Message(Inbound::Welcome(welcome))) => welcome.id@,
        _ => id,
    }
}

/// The action that a session takes on entering `state` with connection id
/// `id`. On entering the report of an unusable message the action names
/// what was wrong with it, which this function leaves open.
pub open spec fn action_fits(action: ActionView, state: SessionState, id: Seq<char>) -> bool {
    match state {
        SessionState::Connecting => action is Connect,
        SessionState::AwaitingWelcome => action == ActionView::Read,
        SessionState::Subscribing => action == ActionView::Send(subscribe_text(id, TOPIC@)),
        SessionState::Streaming(Phase::Polling) => action == ActionView::PollKeepalive,
        SessionState::Streaming(Phase::Pinging) => action == ActionView::Send(ping_text(id)),
        SessionState::Streaming(Phase::Confirming) => action == ActionView::ConfirmKeepalive,
        SessionState::Streaming(Phase::Reading) => action == ActionView::Read,
        SessionState::Streaming(Phase::Rendering) => action == ActionView::Render,
        SessionState::Streaming(Phase::Reporting) => action is Report,
        SessionState::Terminated(_) => action == ActionView::Stop,
    }
}

/// Drives one session: it is told what came of the last action and says
/// what to do next.
pub struct Listener {
    cfg: ServerConfig,
    connect_id: String,
    state: SessionState,
}

impl Listener {
    /// The state of the session.
    pub closed spec fn state(&self) -> SessionState {
        self.state
    }

    /// The id of the connection; empty before the welcome.
    pub closed spec fn connect_id(&self) -> Seq<char> {
        self.connect_id@
    }

    /// The endpoint of the configuration.
    pub closed spec fn endpoint(&self) -> Seq<char> {
        self.cfg.endpoint@
    }

    /// The token of the configuration.
    pub closed spec fn token(&self) -> Seq<char> {
        self.cfg.token@
    }

    /// The keepalive interval of the configuration, in milliseconds.
    pub closed spec fn ping_interval(&self) -> u64 {
        self.cfg.ping_interval
    }

    /// The configuration is the one of `other`.
    pub open spec fn same_config(&self, other: &Listener) -> bool {
        &&& self.endpoint() == other.endpoint()
        &&& self.token() == other.token()
        &&& self.ping_interval() == other.ping_interval()
    }

    /// A session that has not connected yet.
    pub fn new(cfg: ServerConfig) -> (listener: Self)
        ensures
            listener.state() == SessionState::Connecting,
            listener.connect_id() == Seq::<char>::empty(),
            listener.endpoint() == cfg.endpoint@,
            listener.token() == cfg.token@,
            listener.ping_interval() == cfg.ping_interval,
    {
        Listener { cfg, connect_id: String::new(), state: SessionState::Connecting }
    }

    /// The state of the session.
    pub fn current_state(&self) -> (state: SessionState)
        ensures
            state == self.state(),
    {
        self.state
    }

    /// The id of the connection; empty before the welcome.
    pub fn connection_id(&self) -> (id: &str)
        ensures
            id@ == self.connect_id(),
    {
        self.connect_id.as_str()
    }

    /// A coordinator for the pings of this session.
    pub fn keepalive(&self) -> (coordinator: KeepaliveCoordinator)
        ensures
            coordinator.interval() == self.ping_interval(),
            !coordinator.outstanding(),
    {
        KeepaliveCoordinator::new(self.cfg.ping_interval)
    }

    /// The first action, given the address to connect to: connect to it, or
    /// end the session where there is none. A session that is past
    /// connecting ends as well, unless it has ended already.
    pub fn begin(&mut self, url: Result<String, InvalidEndpoint>) -> (action: Action)
        ensures
            final(self).same_config(old(self)),
            final(self).connect_id() == old(self).connect_id(),
            final(self).state() == match old(self).state() {
                SessionState::Connecting => if url is Ok {
                    SessionState::Connecting
                } else {
                    SessionState::Terminated(Termination::Failed(Failure::InvalidEndpoint))
                },
                SessionState::Terminated(how) => SessionState::Terminated(how),
                _ => SessionState::Terminated(Termination::Failed(Failure::Unexpected)),
            },
            action@ == if old(self).state() == SessionState::Connecting && url is Ok {
                ActionView::Connect(url->Ok_0@)
            } else {
                ActionView::Stop
            },
    {
        match self.state {
            SessionState::Connecting => match url {
                Ok(url) => Action::Connect(url),
                Err(_) => {
                    self.state = SessionState::Terminated(
                        Termination::Failed(Failure::InvalidEndpoint),
                    );
                    Action::Stop
                },
            },
            SessionState::Terminated(_) => Action::Stop,
            _ => {
                self.state = SessionState::Terminated(Termination::Failed(Failure::Unexpected));
                Action::Stop
            },
        }
    }

    /// The first action: connect to the configuration's address, or end the
    /// session where that address is no URL.
    pub fn start(&mut self) -> (action: Action)
        ensures
            final(self).same_config(old(self)),
            final(self).connect_id() == old(self).connect_id(),
            final(self).state() == match old(self).state() {
                SessionState::Connecting => if parsed_url(
                    address_text(old(self).endpoint(), old(self).token()),
                ) is Some {
                    SessionState::Connecting
                } else {
                    SessionState::Terminated(Termination::Failed(Failure::InvalidEndpoint))
                },
                SessionState::Terminated(how) => SessionState::Terminated(how),
                _ => SessionState::Terminated(Termination::Failed(Failure::Unexpected)),
            },
            action@ == match parsed_url(address_text(old(self).endpoint(), old(self).token())) {
                Some(url) if old(self).state() == SessionState::Connecting => ActionView::Connect(
                    url,
                ),
                _ => ActionView::Stop,
            },
    {
        let url = connection_url(&self.cfg);
        self.begin(url)
    }

    /// Takes what came of the last action and says what to do next.
    ///
    /// The state moves as [`next_state`] says. A welcome that was awaited
    /// sets the connection id. A market message that arrives while one is
    /// awaited is applied to the book, bids then asks, if every row of it is
    /// a price level; no other event changes the book.
    pub fn step(&mut self, book: &mut OrderBook, event: Event) -> (action: Action)
        requires
            old(book).wf(),
        ensures
            final(book).wf(),
            final(book).depth() == old(book).depth(),
            final(self).same_config(old(self)),
            final(self).state() == next_state(old(self).state(), event),
            final(self).connect_id() == next_connect_id(
                old(self).state(),
                event,
                old(self).connect_id(),
            ),
            action_fits(action@, final(self).state(), final(self).connect_id()),
            final(self).state() != SessionState::Connecting,
            match event {
                Event::Message(Inbound::Market(message)) if old(self).state()
                    == SessionState::Streaming(Phase::Reading) => {
                    if market_decodable(message.data) {
                        &&& final(book).bid_levels() == apply_batch(
                            Side::Bid,
                            old(book).bid_levels(),
                            rows_levels(message.data.bids@),
                            old(book).depth(),
                        )
                        &&& final(book).ask_levels() == apply_batch(
                            Side::Ask,
                            old(book).ask_levels(),
                            rows_levels(message.data.asks@),
                            old(book).depth(),
                        )
                    } else {
                        &&& final(book).bid_levels() == old(book).bid_levels()
                        &&& final(book).ask_levels() == old(book).ask_levels()
                        &&& exists|e: DecodeError|
                            action@ == ActionView::Report(DecodeFailure::Row(e))
                                && is_first_fault_of(message.data, e)
                    }
                },
                _ => {
                    &&& final(book).bid_levels() == old(book).bid_levels()
                    &&& final(book).ask_levels() == old(book).ask_levels()
                    &&& final(self).state() == SessionState::Streaming(Phase::Reporting)
                        ==> action@ == ActionView::Report(DecodeFailure::Payload)
                },
            },
    {
        let unexpected = SessionState::Terminated(Termination::Failed(Failure::Unexpected));
        let transport = SessionState::Terminated(Termination::Failed(Failure::Transport));
        let closed = SessionState::Terminated(Termination::Closed);
        let mut failure = DecodeFailure::Payload;
        let next = match self.state {
            SessionState::Connecting => match event {
                Event::Done => SessionState::AwaitingWelcome,
                Event::Failed => SessionState::Terminated(Termination::Failed(Failure::Connect)),
                Event::Closed => SessionState::Terminated(Termination::Failed(Failure::Connect)),
                _ => unexpected,
            },
            SessionState::AwaitingWelcome => match event {
                Event::Message(Inbound::Welcome(welcome)) => {
                    self.connect_id = welcome.id;
                    SessionState::Subscribing
                },
                Event::Message(_) => SessionState::Terminated(
                    Termination::Failed(Failure::Handshake),
                ),
                Event::Failed => transport,
                Event::Closed => closed,
                _ => unexpected,
            },
            SessionState::Subscribing => match event {
                Event::Done => SessionState::Streaming(Phase::Polling),
                Event::Failed => transport,
                Event::Closed => closed,
                _ => unexpected,
            },
            SessionState::Streaming(Phase::Polling) => match event {
                Event::Keepalive(Some(_)) => SessionState::Streaming(Phase::Pinging),
                Event::Keepalive(None) => SessionState::Streaming(Phase::Reading),
                _ => unexpected,
            },
            SessionState::Streaming(Phase::Pinging) => match event {
                Event::Done => SessionState::Streaming(Phase::Confirming),
                Event::Failed => transport,
                Event::Closed => closed,
                _ => unexpected,
            },
            SessionState::Streaming(Phase::Confirming) => match event {
                Event::Done => SessionState::Streaming(Phase::Reading),
                _ => unexpected,
            },
            SessionState::Streaming(Phase::Reading) => match event {
                Event::Message(Inbound::Market(message)) => {
                    match book.apply_market_data(&message.data) {
                        Ok(()) => SessionState::Streaming(Phase::Rendering),
                        Err(e) => {
                            failure = DecodeFailure::Row(e);
                            SessionState::Streaming(Phase::Reporting)
                        },
                    }
                },
                Event::Message(Inbound::Undecodable) => SessionState::Streaming(Phase::Reporting),
                Event::Message(_) => SessionState::Streaming(Phase::Polling),
                Event::Failed => transport,
                Event::Closed => closed,
                _ => unexpected,
            },
            SessionState::Streaming(Phase::Rendering) => match event {
                Event::Done => SessionState::Streaming(Phase::Polling),
                _ => unexpected,
            },
            SessionState::Streaming(Phase::Reporting) => match event {
                Event::Done => SessionState::Streaming(Phase::Polling),
                _ => unexpected,
            },
            SessionState::Terminated(how) => SessionState::Terminated(how),
        };
        self.state = next;
        match next {
            SessionState::Connecting => Action::Stop,
            SessionState::AwaitingWelcome => Action::Read,
            SessionState::Subscribing => Action::Send(
                subscribe_message(self.connect_id.as_str(), TOPIC),
            ),
            SessionState::Streaming(Phase::Polling) => Action::PollKeepalive,
            SessionState::Streaming(Phase::Pinging) => Action::Send(
                ping_message(self.connect_id.as_str()),
            ),
            SessionState::Streaming(Phase::Confirming) => Action::ConfirmKeepalive(
                Pong { seal: () },
            ),
            SessionState::Streaming(Phase::Reading) => Action::Read,
            SessionState::Streaming(Phase::Rendering) => Action::Render,
            SessionState::Streaming(Phase::Reporting) => Action::Report(failure),
            SessionState::Terminated(_) => Action::Stop,
        }
    }
}

} // verus!
