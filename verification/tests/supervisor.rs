use audio_backend::com::{Action, Com, Command, Endpoint, Event, Input, Phase};

const DEVICE: Endpoint = Endpoint { addr: 0xC0A8_BC37, port: 80 };

#[test]
fn payload_without_session_is_dropped() {
    let mut com = Com::new();
    assert_eq!(com.phase(), Phase::Discovering);
    assert_eq!(com.on_command(Command::Message("m".to_string())), Action::Idle);
    assert_eq!(com.phase(), Phase::Discovering);
}

#[test]
fn endpoint_opens_one_session() {
    let mut com = Com::new();
    assert_eq!(com.on_endpoint(DEVICE), Action::Open(DEVICE));
    assert_eq!(com.phase(), Phase::Session { up: false });
    assert_eq!(com.on_endpoint(Endpoint { addr: 1, port: 2 }), Action::Idle);
    assert_eq!(com.phase(), Phase::Session { up: false });
}

#[test]
fn messages_pass_between_connected_and_disconnected() {
    let mut com = Com::new();
    assert_eq!(com.on_event(Event::Message("early".to_string())), Action::Idle);
    com.on_endpoint(DEVICE);
    assert_eq!(com.on_event(Event::Message("early".to_string())), Action::Idle);
    assert_eq!(com.on_event(Event::Connected), Action::Forward(Event::Connected));
    assert_eq!(com.phase(), Phase::Session { up: true });
    assert_eq!(com.on_event(Event::Connected), Action::Idle);
    assert_eq!(
        com.on_event(Event::Message("in".to_string())),
        Action::Forward(Event::Message("in".to_string()))
    );
    assert_eq!(
        com.on_command(Command::Message("out".to_string())),
        Action::Send("out".to_string())
    );
    assert_eq!(com.on_event(Event::Disconnected), Action::Rediscover);
    assert_eq!(com.phase(), Phase::Discovering);
    assert_eq!(com.on_event(Event::Message("late".to_string())), Action::Idle);
    assert_eq!(com.on_command(Command::Message("out".to_string())), Action::Idle);
}

#[test]
fn failed_session_goes_back_to_discovery() {
    let mut com = Com::new();
    com.on_endpoint(DEVICE);
    assert_eq!(com.on_event(Event::Disconnected), Action::Rediscover);
    assert_eq!(com.phase(), Phase::Discovering);
    assert_eq!(com.on_endpoint(DEVICE), Action::Open(DEVICE));
}

#[test]
fn quit_shuts_down_once() {
    let mut com = Com::new();
    com.on_endpoint(DEVICE);
    com.on_event(Event::Connected);
    assert_eq!(com.on_command(Command::Quit), Action::Shutdown);
    assert_eq!(com.phase(), Phase::Stopped);
    assert_eq!(com.on_command(Command::Quit), Action::Idle);
    assert_eq!(com.on_endpoint(DEVICE), Action::Idle);
    assert_eq!(com.on_event(Event::Message("m".to_string())), Action::Idle);
    assert_eq!(com.on_command(Command::Message("m".to_string())), Action::Idle);
}

#[test]
fn supervisor_step_takes_every_input() {
    let mut com = Com::new();
    assert_eq!(com.step(Input::Endpoint(DEVICE)), Action::Open(DEVICE));
    assert_eq!(com.step(Input::Event(Event::Connected)), Action::Forward(Event::Connected));
    assert_eq!(
        com.step(Input::Command(Command::Message("m".to_string()))),
        Action::Send("m".to_string())
    );
    assert_eq!(com.step(Input::Event(Event::Disconnected)), Action::Rediscover);
    assert_eq!(com.step(Input::Command(Command::Quit)), Action::Shutdown);
}
