//! The decisions of one transport session: what to do on a command, on a
//! timer, and on each thing read from the connection. The caller owns the
//! socket and the clock; it carries out the returned [`Action`] and feeds
//! the next input. Times are milliseconds on the caller's monotonic clock.

use vstd::prelude::*;
use crate::com::mdns::Endpoint;
use crate::text::{decimal, format_decimal};

verus! {

/// Time between two pings.
pub const PING_INTERVAL: u64 = 2000;

/// Time without a pong after which the session starts to close.
pub const PONG_TIMEOUT: u64 = 5000;

/// Time a graceful close may take before the session is cut.
pub const CLOSE_TIMEOUT: u64 = 5000;

/// What the owner of a session asks of it.
#[derive(Debug, PartialEq, Eq)]
pub enum Command {
    Quit,
    Message(String),
}

/// What a session reports to its owner.
#[derive(Debug, PartialEq, Eq)]
pub enum Event {
    Connected,
    Disconnected,
    Message(String),
}

/// Where a session stands in its life.
#[derive(Clone, Copy, Debug, PartialEq, Eq, Structural)]
pub enum State {
    Connecting,
    Connected,
    Closing,
    Closed,
}

/// The outcome of one read from the connection.
#[derive(Debug, PartialEq, Eq)]
pub enum Incoming {
    /// A pong frame.
    Pong,
    /// A text frame.
    Text(String),
    /// Any other frame.
    Frame,
    /// The closing handshake is complete.
    ConnectionClosed,
    /// The peer went away without a closing handshake.
    ResetWithoutClosingHandshake,
    /// Nothing to read right now.
    WouldBlock,
    /// A read error that is not `WouldBlock`.
    IoError,
    /// Any other error.
    Error,
}

/// What the caller must do next.
#[derive(Debug, PartialEq, Eq)]
pub enum Action {
    /// Nothing.
    Idle,
    /// Write a text frame.
    Write(String),
    /// Write a ping frame.
    Ping,
    /// Start the closing handshake.
    Close,
    /// Hand an event to the owner. After `Event::Disconnected` the session
    /// is over and the connection is to be dropped.
    Emit(Event),
}

/// One input to a session.
#[derive(Debug, PartialEq, Eq)]
pub enum Input {
    /// The outcome of the connection attempt.
    Connect { success: bool, now: u64 },
    /// A command of the owner.
    Command { cmd: Command, now: u64 },
    /// A look at the ping timer; `writable` says whether the connection
    /// can be written to.
    PingTimer { now: u64, writable: bool },
    /// A look at the liveness and close deadlines.
    Watchdog { now: u64 },
    /// The outcome of one read.
    Incoming { input: Incoming, now: u64 },
}

/// The state of a session as the contracts see it.
pub struct SessionView {
    pub state: State,
    pub ping_time: u64,
    pub pong_time: u64,
    pub close_time: u64,
}

/// The decision state of one transport session.
pub struct WebSocket {
    state: State,
    ping_time: u64,
    pong_time: u64,
    close_time: u64,
}

impl View for WebSocket {
    type V = SessionView;

    closed spec fn view(&self) -> SessionView {
        SessionView {
            state: self.state,
            ping_time: self.ping_time,
            pong_time: self.pong_time,
            close_time: self.close_time,
        }
    }
}

/// Time passed from `since` to `now`, zero if the clock reads earlier.
pub open spec fn elapsed(since: u64, now: u64) -> int {
    if now >= since {
        now - since
    } else {
        0
    }
}

/// Whether the session holds an open connection.
pub open spec fn live(s: SessionView) -> bool {
    s.state == State::Connected || s.state == State::Closing
}

/// The session and the action after the outcome of the connection attempt.
pub open spec fn after_connect(s: SessionView, success: bool, now: u64) -> (SessionView, Action) {
    if s.state != State::Connecting {
        (s, Action::Idle)
    } else if success {
        (
            SessionView { state: State::Connected, ping_time: now, pong_time: now, ..s },
            Action::Emit(Event::Connected),
        )
    } else {
        (SessionView { state: State::Closed, ..s }, Action::Emit(Event::Disconnected))
    }
}

/// The session and the action after a command of the owner.
pub open spec fn after_command(s: SessionView, cmd: Command, now: u64) -> (SessionView, Action) {
    if s.state != State::Connected {
        (s, Action::Idle)
    } else {
        match cmd {
            Command::Quit => (
                SessionView { state: State::Closing, close_time: now, ..s },
                Action::Close,
            ),
            Command::Message(m) => (s, Action::Write(m)),
        }
    }
}

/// The session and the action when the ping timer is looked at.
pub open spec fn after_ping_timer(s: SessionView, now: u64, writable: bool) -> (
    SessionView,
    Action,
) {
    if live(s) && elapsed(s.ping_time, now) >= PING_INTERVAL {
        (
            SessionView { ping_time: now, ..s },
            if writable {
                Action::Ping
            } else {
                Action::Idle
            },
        )
    } else {
        (s, Action::Idle)
    }
}

/// The session and the action when the liveness and close deadlines are
/// looked at.
pub open spec fn after_watchdog(s: SessionView, now: u64) -> (SessionView, Action) {
    if s.state == State::Closing && elapsed(s.close_time, now) >= CLOSE_TIMEOUT {
        (SessionView { state: State::Closed, ..s }, Action::Emit(Event::Disconnected))
    } else if s.state == State::Connected && elapsed(s.pong_time, now) >= PONG_TIMEOUT {
        (SessionView { state: State::Closing, close_time: now, ..s }, Action::Close)
    } else {
        (s, Action::Idle)
    }
}

/// The session and the action after one read from the connection.
pub open spec fn after_incoming(s: SessionView, input: Incoming, now: u64) -> (
    SessionView,
    Action,
) {
    if !live(s) {
        (s, Action::Idle)
    } else {
        match input {
            Incoming::Pong => (SessionView { pong_time: now, ..s }, Action::Idle),
            Incoming::Text(m) => (s, Action::Emit(Event::Message(m))),
            Incoming::ConnectionClosed
            | Incoming::ResetWithoutClosingHandshake
            | Incoming::IoError => (
                SessionView { state: State::Closed, ..s },
                Action::Emit(Event::Disconnected),
            ),
            Incoming::Frame | Incoming::WouldBlock | Incoming::Error => (s, Action::Idle),
        }
    }
}

/// The session and the action after any one input.
pub open spec fn step(s: SessionView, input: Input) -> (SessionView, Action) {
    match input {
        Input::Connect { success, now } => after_connect(s, success, now),
        Input::Command { cmd, now } => after_command(s, cmd, now),
        Input::PingTimer { now, writable } => after_ping_timer(s, now, writable),
        Input::Watchdog { now } => after_watchdog(s, now),
        Input::Incoming { input, now } => after_incoming(s, input, now),
    }
}

/// How far a state is along the life of a session.
pub open spec fn rank(state: State) -> int {
    match state {
        State::Connecting => 0,
        State::Connected => 1,
        State::Closing => 2,
        State::Closed => 3,
    }
}

/// The session after a run of inputs.
pub open spec fn run(s: SessionView, inputs: Seq<Input>) -> SessionView
    decreases inputs.len(),
{
    if inputs.len() == 0 {
        s
    } else {
        step(run(s, inputs.drop_last()), inputs.last()).0
    }
}

/// How many times a run of inputs makes the session report `Disconnected`.
pub open spec fn disconnects(s: SessionView, inputs: Seq<Input>) -> nat
    decreases inputs.len(),
{
    if inputs.len() == 0 {
        0
    } else {
        let before = run(s, inputs.drop_last());
        let more: nat = if step(before, inputs.last()).1 == Action::Emit(Event::Disconnected) {
            1
        } else {
            0
        };
        disconnects(s, inputs.drop_last()) + more
    }
}

/// A session never moves back in its life, it reports `Disconnected`
/// exactly on the step that ends it, an ended session ignores every
/// input, and a message is handed on only while the connection is open.
pub proof fn lemma_step(s: SessionView, input: Input)
    ensures
        rank(s.state) <= rank(step(s, input).0.state),
        step(s, input).1 == Action::Emit(Event::Disconnected) <==> s.state != State::Closed && step(
            s,
            input,
        ).0.state == State::Closed,
        s.state == State::Closed ==> step(s, input) == (s, Action::Idle),
        step(s, input).1 matches Action::Emit(Event::Message(_)) ==> live(s),
        step(s, input).1 == Action::Emit(Event::Connected) <==> s.state == State::Connecting
            && step(s, input).0.state == State::Connected,
{
}

/// Over any run of inputs a session that has not ended reports
/// `Disconnected` once if the run ends it, and not at all otherwise.
pub proof fn lemma_disconnected_once(s: SessionView, inputs: Seq<Input>)
    requires
        s.state != State::Closed,
    ensures
        disconnects(s, inputs) == if run(s, inputs).state == State::Closed {
            1nat
        } else {
            0nat
        },
    decreases inputs.len(),
{
    if inputs.len() > 0 {
        lemma_disconnected_once(s, inputs.drop_last());
        lemma_step(run(s, inputs.drop_last()), inputs.last());
    }
}

/// Without a pong the watchdog starts the close once `PONG_TIMEOUT` has
/// passed, and cuts the session `CLOSE_TIMEOUT` after that, whatever the
/// peer does.
pub proof fn lemma_liveness(s: SessionView, first: u64, second: u64)
    requires
        s.state == State::Connected,
        first - s.pong_time >= PONG_TIMEOUT,
        second - first >= CLOSE_TIMEOUT,
    ensures
        after_watchdog(s, first).1 == Action::Close,
        after_watchdog(s, first).0.state == State::Closing,
        after_watchdog(after_watchdog(s, first).0, second).1 == Action::Emit(Event::Disconnected),
        after_watchdog(after_watchdog(s, first).0, second).0.state == State::Closed,
{
}

/// The address at which a session to the endpoint is opened: the four
/// octets of the address in decimal with dots between them, the port,
/// and the path `/websocket`.
pub open spec fn url_text(endpoint: Endpoint) -> Seq<char> {
    "ws://"@ + decimal((endpoint.addr / 0x100_0000) as nat) + "."@ + decimal(
        (endpoint.addr / 0x1_0000 % 0x100) as nat,
    ) + "."@ + decimal((endpoint.addr / 0x100 % 0x100) as nat) + "."@ + decimal(
        (endpoint.addr % 0x100) as nat,
    ) + ":"@ + decimal(endpoint.port as nat) + "/websocket"@
}

/// The address at which a session to the endpoint is opened.
pub fn url(endpoint: Endpoint) -> (text: String)
    ensures
        text@ == url_text(endpoint),
{
    let addr: u32 = endpoint.addr;
    let mut text = String::from_str("ws://");
    let first = format_decimal((addr / 0x100_0000) as u64);
    text.append(first.as_str());
    text.append(".");
    let second = format_decimal((addr / 0x1_0000 % 0x100) as u64);
    text.append(second.as_str());
    text.append(".");
    let third = format_decimal((addr / 0x100 % 0x100) as u64);
    text.append(third.as_str());
    text.append(".");
    let fourth = format_decimal((addr % 0x100) as u64);
    text.append(fourth.as_str());
    text.append(":");
    let port = format_decimal(endpoint.port as u64);
    text.append(port.as_str());
    text.append("/websocket");
    text
}

fn elapsed_since(since: u64, now: u64) -> (d: u64)
    ensures
        d == elapsed(since, now),
{
    if now >= since {
        now - since
    } else {
        0
    }
}

impl WebSocket {
    /// A session that has yet to connect.
    pub fn new() -> (ws: Self)
        ensures
            ws@ == (SessionView {
                state: State::Connecting,
                ping_time: 0,
                pong_time: 0,
                close_time: 0,
            }),
    {
        WebSocket { state: State::Connecting, ping_time: 0, pong_time: 0, close_time: 0 }
    }

    /// Where the session stands.
    pub fn state(&self) -> (s: State)
        ensures
            s == self@.state,
    {
        self.state
    }

    /// Takes any one input and says what to do next.
    pub fn step(&mut self, input: Input) -> (action: Action)
        ensures
            (final(self)@, action) == step(old(self)@, input),
    {
        match input {
            Input::Connect { success, now } => self.on_connect(success, now),
            Input::Command { cmd, now } => self.on_command(cmd, now),
            Input::PingTimer { now, writable } => self.on_ping_timer(now, writable),
            Input::Watchdog { now } => self.on_watchdog(now),
            Input::Incoming { input, now } => self.on_incoming(input, now),
        }
    }

    /// Takes the outcome of the connection attempt. Success starts both
    /// timers and reports `Connected`; failure ends the session with
    /// `Disconnected`.
    pub fn on_connect(&mut self, success: bool, now: u64) -> (action: Action)
        ensures
            (final(self)@, action) == after_connect(old(self)@, success, now),
    {
        if self.state != State::Connecting {
            Action::Idle
        } else if success {
            self.state = State::Connected;
            self.ping_time = now;
            self.pong_time = now;
            Action::Emit(Event::Connected)
        } else {
            self.state = State::Closed;
            Action::Emit(Event::Disconnected)
        }
    }

    /// Takes a command of the owner. While connected, `Quit` starts the
    /// closing handshake and a message is written out; in any other state
    /// the command is dropped.
    pub fn on_command(&mut self, cmd: Command, now: u64) -> (action: Action)
        ensures
            (final(self)@, action) == after_command(old(self)@, cmd, now),
    {
        if self.state != State::Connected {
            Action::Idle
        } else {
            match cmd {
                Command::Quit => {
                    self.state = State::Closing;
                    self.close_time = now;
                    Action::Close
                },
                Command::Message(m) => Action::Write(m),
            }
        }
    }

    /// Looks at the ping timer. Once `PING_INTERVAL` has passed since the
    /// last look that was due, the timer restarts and a ping goes out if the
    /// connection can be written to.
    pub fn on_ping_timer(&mut self, now: u64, writable: bool) -> (action: Action)
        ensures
            (final(self)@, action) == after_ping_timer(old(self)@, now, writable),
    {
        let is_live = self.state == State::Connected || self.state == State::Closing;
        if is_live && elapsed_since(self.ping_time, now) >= PING_INTERVAL {
            self.ping_time = now;
            if writable {
                Action::Ping
            } else {
                Action::Idle
            }
        } else {
            Action::Idle
        }
    }

    /// Looks at the deadlines. A connected session without a pong for
    /// `PONG_TIMEOUT` starts to close; a closing session that has not
    /// finished within `CLOSE_TIMEOUT` is cut and reports `Disconnected`.
    pub fn on_watchdog(&mut self, now: u64) -> (action: Action)
        ensures
            (final(self)@, action) == after_watchdog(old(self)@, now),
    {
        if self.state == State::Closing && elapsed_since(self.close_time, now) >= CLOSE_TIMEOUT {
            self.state = State::Closed;
            Action::Emit(Event::Disconnected)
        } else if self.state == State::Connected && elapsed_since(self.pong_time, now)
            >= PONG_TIMEOUT {
            self.state = State::Closing;
            self.close_time = now;
            Action::Close
        } else {
            Action::Idle
        }
    }

    /// Takes the outcome of one read. A pong restarts the liveness window,
    /// a text frame is handed on, and a closed or broken connection ends
    /// the session with `Disconnected`.
    pub fn on_incoming(&mut self, input: Incoming, now: u64) -> (action: Action)
        ensures
            (final(self)@, action) == after_incoming(old(self)@, input, now),
    {
        let is_live = self.state == State::Connected || self.state == State::Closing;
        if !is_live {
            Action::Idle
        } else {
            match input {
                Incoming::Pong => {
                    self.pong_time = now;
                    Action::Idle
                },
                Incoming::Text(m) => Action::Emit(Event::Message(m)),
                Incoming::ConnectionClosed
                | Incoming::ResetWithoutClosingHandshake
                | Incoming::IoError => {
                    self.state = State::Closed;
                    Action::Emit(Event::Disconnected)
                },
                Incoming::Frame | Incoming::WouldBlock | Incoming::Error => Action::Idle,
            }
        }
    }
}

} // verus!
