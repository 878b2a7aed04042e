use audio_backend::com::mdns::Endpoint;
use audio_backend::com::websocket::{
    url, Action, Command, Event, Incoming, Input, State, WebSocket, CLOSE_TIMEOUT, PING_INTERVAL,
    PONG_TIMEOUT,
};

fn connected(now: u64) -> WebSocket {
    let mut ws = WebSocket::new();
    assert_eq!(ws.state(), State::Connecting);
    assert_eq!(ws.on_connect(true, now), Action::Emit(Event::Connected));
    assert_eq!(ws.state(), State::Connected);
    ws
}

#[test]
fn timing_constants() {
    assert_eq!(PING_INTERVAL, 2000);
    assert_eq!(PONG_TIMEOUT, 5000);
    assert_eq!(CLOSE_TIMEOUT, 5000);
}

#[test]
fn failed_connect_reports_disconnected() {
    let mut ws = WebSocket::new();
    assert_eq!(ws.on_connect(false, 10), Action::Emit(Event::Disconnected));
    assert_eq!(ws.state(), State::Closed);
    assert_eq!(ws.on_connect(true, 20), Action::Idle);
    assert_eq!(ws.on_watchdog(100_000), Action::Idle);
    assert_eq!(ws.on_incoming(Incoming::Text("x".to_string()), 30), Action::Idle);
    assert_eq!(ws.on_command(Command::Quit, 30), Action::Idle);
    assert_eq!(ws.state(), State::Closed);
}

#[test]
fn nothing_happens_before_the_connection() {
    let mut ws = WebSocket::new();
    assert_eq!(ws.on_command(Command::Message("m".to_string()), 0), Action::Idle);
    assert_eq!(ws.on_ping_timer(10_000, true), Action::Idle);
    assert_eq!(ws.on_watchdog(10_000), Action::Idle);
    assert_eq!(ws.on_incoming(Incoming::Text("x".to_string()), 0), Action::Idle);
    assert_eq!(ws.state(), State::Connecting);
}

#[test]
fn messages_pass_in_both_directions() {
    let mut ws = connected(0);
    assert_eq!(
        ws.on_command(Command::Message("out".to_string()), 1),
        Action::Write("out".to_string())
    );
    assert_eq!(
        ws.on_incoming(Incoming::Text("in".to_string()), 2),
        Action::Emit(Event::Message("in".to_string()))
    );
    assert_eq!(ws.on_incoming(Incoming::Frame, 3), Action::Idle);
    assert_eq!(ws.on_incoming(Incoming::WouldBlock, 3), Action::Idle);
    assert_eq!(ws.on_incoming(Incoming::Error, 3), Action::Idle);
    assert_eq!(ws.state(), State::Connected);
}

#[test]
fn ping_goes_out_every_interval() {
    let mut ws = connected(1000);
    assert_eq!(ws.on_ping_timer(2999, true), Action::Idle);
    assert_eq!(ws.on_ping_timer(3000, true), Action::Ping);
    assert_eq!(ws.on_ping_timer(3001, true), Action::Idle);
    assert_eq!(ws.on_ping_timer(4999, true), Action::Idle);
    // Not writable: no ping, and the timer starts anew all the same.
    assert_eq!(ws.on_ping_timer(5000, false), Action::Idle);
    assert_eq!(ws.on_ping_timer(6999, true), Action::Idle);
    assert_eq!(ws.on_ping_timer(7000, true), Action::Ping);
}

#[test]
fn clock_that_reads_earlier_counts_as_no_time() {
    let mut ws = connected(5000);
    assert_eq!(ws.on_ping_timer(0, true), Action::Idle);
    assert_eq!(ws.on_watchdog(0), Action::Idle);
    assert_eq!(ws.state(), State::Connected);
}

#[test]
fn pong_keeps_the_session_alive() {
    let mut ws = connected(0);
    assert_eq!(ws.on_watchdog(4999), Action::Idle);
    assert_eq!(ws.on_incoming(Incoming::Pong, 4999), Action::Idle);
    assert_eq!(ws.on_watchdog(9998), Action::Idle);
    assert_eq!(ws.state(), State::Connected);
    assert_eq!(ws.on_watchdog(9999), Action::Close);
    assert_eq!(ws.state(), State::Closing);
}

#[test]
fn silence_closes_and_then_cuts_the_session() {
    let mut ws = connected(0);
    assert_eq!(ws.on_ping_timer(2000, true), Action::Ping);
    assert_eq!(ws.on_ping_timer(4000, true), Action::Ping);
    assert_eq!(ws.on_watchdog(4999), Action::Idle);
    assert_eq!(ws.on_watchdog(5000), Action::Close);
    assert_eq!(ws.state(), State::Closing);
    // A text does not stand for a pong, and the close goes on.
    assert_eq!(
        ws.on_incoming(Incoming::Text("late".to_string()), 6000),
        Action::Emit(Event::Message("late".to_string()))
    );
    assert_eq!(ws.on_watchdog(9999), Action::Idle);
    assert_eq!(ws.on_watchdog(10_000), Action::Emit(Event::Disconnected));
    assert_eq!(ws.state(), State::Closed);
    assert_eq!(ws.on_watchdog(20_000), Action::Idle);
}

#[test]
fn close_handshake_ends_the_session() {
    let mut ws = connected(0);
    assert_eq!(ws.on_command(Command::Quit, 100), Action::Close);
    assert_eq!(ws.state(), State::Closing);
    // A second quit neither closes again nor moves the deadline.
    assert_eq!(ws.on_command(Command::Quit, 4000), Action::Idle);
    assert_eq!(ws.on_command(Command::Message("m".to_string()), 4000), Action::Idle);
    assert_eq!(ws.on_watchdog(5099), Action::Idle);
    assert_eq!(ws.on_incoming(Incoming::ConnectionClosed, 5099), Action::Emit(Event::Disconnected));
    assert_eq!(ws.state(), State::Closed);
    assert_eq!(ws.on_incoming(Incoming::ConnectionClosed, 5100), Action::Idle);
}

#[test]
fn quit_without_answer_is_cut_after_the_timeout() {
    let mut ws = connected(0);
    assert_eq!(ws.on_command(Command::Quit, 100), Action::Close);
    assert_eq!(ws.on_watchdog(5099), Action::Idle);
    assert_eq!(ws.on_watchdog(5100), Action::Emit(Event::Disconnected));
}

#[test]
fn broken_connection_ends_the_session() {
    for input in [Incoming::ResetWithoutClosingHandshake, Incoming::IoError, Incoming::ConnectionClosed] {
        let mut ws = connected(0);
        assert_eq!(ws.on_incoming(input, 10), Action::Emit(Event::Disconnected));
        assert_eq!(ws.state(), State::Closed);
    }
}

#[test]
fn step_takes_every_input() {
    let mut ws = WebSocket::new();
    assert_eq!(
        ws.step(Input::Connect { success: true, now: 0 }),
        Action::Emit(Event::Connected)
    );
    assert_eq!(ws.step(Input::PingTimer { now: 2000, writable: true }), Action::Ping);
    assert_eq!(
        ws.step(Input::Command { cmd: Command::Message("m".to_string()), now: 2100 }),
        Action::Write("m".to_string())
    );
    assert_eq!(ws.step(Input::Incoming { input: Incoming::Pong, now: 2200 }), Action::Idle);
    assert_eq!(ws.step(Input::Watchdog { now: 7199 }), Action::Idle);
    assert_eq!(ws.step(Input::Watchdog { now: 7200 }), Action::Close);
    assert_eq!(ws.step(Input::Watchdog { now: 12_200 }), Action::Emit(Event::Disconnected));
    assert_eq!(ws.state(), State::Closed);
}

#[test]
fn url_spells_address_port_and_path() {
    assert_eq!(url(Endpoint { addr: 0xC0A8_BC37, port: 80 }), "ws://192.168.188.55:80/websocket");
    assert_eq!(url(Endpoint { addr: 0, port: 0 }), "ws://0.0.0.0:0/websocket");
    assert_eq!(
        url(Endpoint { addr: u32::MAX, port: 65535 }),
        "ws://255.255.255.255:65535/websocket"
    );
    assert_eq!(url(Endpoint { addr: 0x0A00_0001, port: 8080 }), "ws://10.0.0.1:8080/websocket");
}
