use audio_backend::com::mdns::{
    Action, Endpoint, Input, LocalAddr, Mdns, ADDRESS_INTERVAL, SERVICE_TYPE,
};

const HOME: LocalAddr = LocalAddr::V4(0xC0A8_0002);
const AWAY: LocalAddr = LocalAddr::V4(0x0A00_0002);

#[test]
fn service_type_names_the_device_class() {
    assert_eq!(SERVICE_TYPE, "_audio-jsonrpc-ws._tcp.local.");
    assert_eq!(ADDRESS_INTERVAL, 1000);
}

#[test]
fn address_is_looked_at_every_interval() {
    let mut mdns = Mdns::new(500);
    assert!(!mdns.address_check_due(1499));
    assert!(mdns.address_check_due(1500));
    assert!(!mdns.address_check_due(0));
    assert_eq!(mdns.on_address(None, 1500), Action::Idle);
    assert!(!mdns.address_check_due(2499));
    assert!(mdns.address_check_due(2500));
}

#[test]
fn browse_starts_when_an_address_appears() {
    let mut mdns = Mdns::new(0);
    assert!(!mdns.is_browsing());
    assert_eq!(mdns.on_address(None, 1000), Action::Idle);
    assert_eq!(mdns.on_address(Some(HOME), 2000), Action::Start);
    assert!(mdns.is_browsing());
    assert_eq!(mdns.on_address(Some(HOME), 3000), Action::Idle);
    assert!(mdns.is_browsing());
}

#[test]
fn changed_address_restarts_the_browse() {
    let mut mdns = Mdns::new(0);
    assert_eq!(mdns.on_address(Some(HOME), 1000), Action::Start);
    assert_eq!(mdns.on_address(Some(AWAY), 2000), Action::Restart);
    assert!(mdns.is_browsing());
    assert_eq!(mdns.on_address(Some(AWAY), 3000), Action::Idle);
    assert_eq!(mdns.on_address(Some(LocalAddr::V6(0x0A00_0002)), 4000), Action::Restart);
}

#[test]
fn lost_address_stops_the_browse() {
    let mut mdns = Mdns::new(0);
    assert_eq!(mdns.on_address(Some(HOME), 1000), Action::Start);
    assert_eq!(mdns.on_address(None, 2000), Action::Stop);
    assert!(!mdns.is_browsing());
    assert_eq!(mdns.on_address(None, 3000), Action::Idle);
    assert_eq!(mdns.on_address(Some(HOME), 4000), Action::Start);
}

#[test]
fn endpoint_is_handed_on_while_browsing() {
    let mut mdns = Mdns::new(0);
    assert_eq!(mdns.on_resolved(Some(0xC0A8_BC37), 80), None);
    mdns.on_address(Some(HOME), 1000);
    assert_eq!(
        mdns.on_resolved(Some(0xC0A8_BC37), 80),
        Some(Endpoint { addr: 0xC0A8_BC37, port: 80 })
    );
    assert_eq!(mdns.on_resolved(None, 80), None);
    mdns.on_address(None, 2000);
    assert_eq!(mdns.on_resolved(Some(0xC0A8_BC37), 80), None);
}

#[test]
fn quit_stops_for_good() {
    let mut mdns = Mdns::new(0);
    mdns.on_address(Some(HOME), 1000);
    assert_eq!(mdns.on_quit(), Action::Stop);
    assert!(!mdns.is_browsing());
    assert_eq!(mdns.on_address(Some(AWAY), 2000), Action::Idle);
    assert!(!mdns.is_browsing());
    assert_eq!(mdns.on_resolved(Some(1), 80), None);
    assert_eq!(mdns.on_quit(), Action::Idle);

    let mut idle = Mdns::new(0);
    assert_eq!(idle.on_quit(), Action::Idle);
}

#[test]
fn discovery_step_takes_every_input() {
    let mut mdns = Mdns::new(0);
    let mut alive = 0;
    let inputs = [
        Input::Address { found: None, now: 1000 },
        Input::Address { found: Some(HOME), now: 2000 },
        Input::Address { found: Some(AWAY), now: 3000 },
        Input::Address { found: None, now: 4000 },
        Input::Address { found: Some(HOME), now: 5000 },
        Input::Quit,
        Input::Address { found: Some(AWAY), now: 6000 },
    ];
    let expected = [
        Action::Idle,
        Action::Start,
        Action::Restart,
        Action::Stop,
        Action::Start,
        Action::Stop,
        Action::Idle,
    ];
    for (input, action) in inputs.into_iter().zip(expected) {
        assert_eq!(mdns.step(input), action);
        match action {
            Action::Start => alive += 1,
            Action::Stop => alive -= 1,
            Action::Restart | Action::Idle => {}
        }
        assert_eq!(alive, if mdns.is_browsing() { 1 } else { 0 });
    }
}
