//! The decisions of device discovery: when to start, stop or restart the
//! browse as the machine's own network address comes, changes and goes,
//! and which resolved service is handed on as an endpoint. The caller owns
//! the browse daemon and the clock and carries out the returned
//! [`Action`].

use vstd::prelude::*;

verus! {

/// The service type the device advertises.
pub const SERVICE_TYPE: &'static str = "_audio-jsonrpc-ws._tcp.local.";

/// Time between two looks at the machine's own address, in milliseconds.
pub const ADDRESS_INTERVAL: u64 = 1000;

/// A network address of this machine, as the number its bits spell.
#[derive(Clone, Copy, Debug, PartialEq, Eq, Structural)]
pub enum LocalAddr {
    V4(u32),
    V6(u128),
}

/// Where the device can be reached: an IPv4 address, as the number its
/// four octets spell from first to last, and a port.
#[derive(Clone, Copy, Debug, PartialEq, Eq, Structural)]
pub struct Endpoint {
    pub addr: u32,
    pub port: u16,
}

/// What the caller must do with the browse.
#[derive(Clone, Copy, Debug, PartialEq, Eq, Structural)]
pub enum Action {
    /// Nothing.
    Idle,
    /// Start a browse on a new daemon.
    Start,
    /// Stop the running browse and release its daemon.
    Stop,
    /// Stop the running browse, release its daemon, then start a new one.
    Restart,
}

/// The state of discovery as the contracts see it.
pub struct DiscoveryView {
    /// The address the running browse was started on, if one is running.
    pub addr: Option<LocalAddr>,
    /// Whether discovery has been shut down.
    pub done: bool,
    /// When the machine's address was last looked at.
    pub checked: u64,
}

/// The decision state of device discovery.
pub struct Mdns {
    addr: Option<LocalAddr>,
    done: bool,
    checked: u64,
}

impl View for Mdns {
    type V = DiscoveryView;

    closed spec fn view(&self) -> DiscoveryView {
        DiscoveryView { addr: self.addr, done: self.done, checked: self.checked }
    }
}

/// Whether a browse is running.
pub open spec fn browsing(d: DiscoveryView) -> bool {
    d.addr is Some
}

/// Discovery and the action after a look at the machine's address, where
/// `found` is the address it has now, if any.
pub open spec fn after_address(d: DiscoveryView, found: Option<LocalAddr>, now: u64) -> (
    DiscoveryView,
    Action,
) {
    if d.done {
        (d, Action::Idle)
    } else {
        let next = DiscoveryView { addr: found, checked: now, ..d };
        match (d.addr, found) {
            (None, None) => (next, Action::Idle),
            (None, Some(_)) => (next, Action::Start),
            (Some(_), None) => (next, Action::Stop),
            (Some(old), Some(new)) => (
                next,
                if old == new {
                    Action::Idle
                } else {
                    Action::Restart
                },
            ),
        }
    }
}

/// Discovery and the action after a request to shut down.
pub open spec fn after_quit(d: DiscoveryView) -> (DiscoveryView, Action) {
    (
        DiscoveryView { addr: None, done: true, ..d },
        if browsing(d) {
            Action::Stop
        } else {
            Action::Idle
        },
    )
}

/// The endpoint handed on for a resolved service, where `addr` is the
/// first address of the record, if it has one.
pub open spec fn resolved(d: DiscoveryView, addr: Option<u32>, port: u16) -> Option<Endpoint> {
    match addr {
        Some(a) if browsing(d) => Some(Endpoint { addr: a, port }),
        _ => None,
    }
}

/// How many daemons are alive after `action`, given how many were before.
pub open spec fn daemons_after(before: int, action: Action) -> int {
    match action {
        Action::Idle => before,
        Action::Start => before + 1,
        Action::Stop => before - 1,
        Action::Restart => before - 1 + 1,
    }
}

/// How many daemons are alive in a state: one while browsing, else none.
pub open spec fn daemons(d: DiscoveryView) -> int {
    if browsing(d) {
        1
    } else {
        0
    }
}

/// A look at the address starts a browse only when none is running, stops
/// one only when one is, and on a changed address stops the old browse
/// before the new one starts: the actions keep one daemon alive while
/// browsing and none otherwise.
pub proof fn lemma_address_keeps_one_daemon(d: DiscoveryView, found: Option<LocalAddr>, now: u64)
    ensures
        daemons(after_address(d, found, now).0) == daemons_after(
            daemons(d),
            after_address(d, found, now).1,
        ),
        after_address(d, found, now).1 == Action::Restart <==> !d.done && d.addr is Some
            && found is Some && d.addr != found,
        after_address(d, found, now).1 == Action::Start ==> !browsing(d),
        after_address(d, found, now).1 == Action::Stop ==> browsing(d),
{
}

/// A shutdown releases the daemon if one is alive, and afterwards no look
/// at the address starts another and no resolved service is handed on.
pub proof fn lemma_quit_is_final(
    d: DiscoveryView,
    found: Option<LocalAddr>,
    now: u64,
    addr: Option<u32>,
    port: u16,
)
    ensures
        daemons(after_quit(d).0) == 0,
        daemons(after_quit(d).0) == daemons_after(daemons(d), after_quit(d).1),
        after_address(after_quit(d).0, found, now) == (after_quit(d).0, Action::Idle),
        resolved(after_quit(d).0, addr, port) is None,
{
}

/// One input to discovery.
#[derive(Clone, Copy, Debug, PartialEq, Eq, Structural)]
pub enum Input {
    /// A look at the machine's address, with the address it has now.
    Address { found: Option<LocalAddr>, now: u64 },
    /// A request to shut down.
    Quit,
}

/// Discovery and the action after any one input.
pub open spec fn step(d: DiscoveryView, input: Input) -> (DiscoveryView, Action) {
    match input {
        Input::Address { found, now } => after_address(d, found, now),
        Input::Quit => after_quit(d),
    }
}

/// Discovery after a run of inputs.
pub open spec fn run(d: DiscoveryView, inputs: Seq<Input>) -> DiscoveryView
    decreases inputs.len(),
{
    if inputs.len() == 0 {
        d
    } else {
        step(run(d, inputs.drop_last()), inputs.last()).0
    }
}

/// How many daemons are alive after the actions of a run of inputs have
/// been carried out, given how many were before.
pub open spec fn alive(before: int, d: DiscoveryView, inputs: Seq<Input>) -> int
    decreases inputs.len(),
{
    if inputs.len() == 0 {
        before
    } else {
        daemons_after(
            alive(before, d, inputs.drop_last()),
            step(run(d, inputs.drop_last()), inputs.last()).1,
        )
    }
}

/// Over any run of inputs no daemon leaks: after every input one daemon
/// is alive if a browse is running, and none otherwise.
pub proof fn lemma_no_daemon_leaks(d: DiscoveryView, inputs: Seq<Input>)
    ensures
        alive(daemons(d), d, inputs) == daemons(run(d, inputs)),
        0 <= alive(daemons(d), d, inputs) <= 1,
    decreases inputs.len(),
{
    if inputs.len() > 0 {
        lemma_no_daemon_leaks(d, inputs.drop_last());
        let before = run(d, inputs.drop_last());
        match inputs.last() {
            Input::Address { found, now } => {
                lemma_address_keeps_one_daemon(before, found, now);
            },
            Input::Quit => {},
        }
    }
}

impl Mdns {
    /// Discovery before the first look at the machine's address.
    pub fn new(now: u64) -> (m: Self)
        ensures
            m@ == (DiscoveryView { addr: None, done: false, checked: now }),
    {
        Mdns { addr: None, done: false, checked: now }
    }

    /// Takes any one input and says what to do with the browse.
    pub fn step(&mut self, input: Input) -> (action: Action)
        ensures
            (final(self)@, action) == step(old(self)@, input),
    {
        match input {
            Input::Address { found, now } => self.on_address(found, now),
            Input::Quit => self.on_quit(),
        }
    }

    /// Whether a browse is running.
    pub fn is_browsing(&self) -> (b: bool)
        ensures
            b == browsing(self@),
    {
        self.addr.is_some()
    }

    /// Whether `ADDRESS_INTERVAL` has passed since the last look at the
    /// machine's address.
    pub fn address_check_due(&self, now: u64) -> (due: bool)
        ensures
            due == (now >= self@.checked && now - self@.checked >= ADDRESS_INTERVAL),
    {
        now >= self.checked && now - self.checked >= ADDRESS_INTERVAL
    }

    /// Takes the result of a look at the machine's address: a browse starts
    /// when an address appears, restarts when it changes, and stops when
    /// it is lost.
    pub fn on_address(&mut self, found: Option<LocalAddr>, now: u64) -> (action: Action)
        ensures
            (final(self)@, action) == after_address(old(self)@, found, now),
    {
        if self.done {
            return Action::Idle;
        }
        let action = match (self.addr, found) {
            (None, None) => Action::Idle,
            (None, Some(_)) => Action::Start,
            (Some(_), None) => Action::Stop,
            (Some(old), Some(new)) => {
                if old == new {
                    Action::Idle
                } else {
                    Action::Restart
                }
            },
        };
        self.addr = found;
        self.checked = now;
        action
    }

    /// Shuts discovery down for good.
    pub fn on_quit(&mut self) -> (action: Action)
        ensures
            (final(self)@, action) == after_quit(old(self)@),
    {
        let action = if self.addr.is_some() {
            Action::Stop
        } else {
            Action::Idle
        };
        self.addr = None;
        self.done = true;
        action
    }

    /// Takes a resolved service, with the first address of its record if
    /// it has one, and hands on an endpoint while a browse is running.
    pub fn on_resolved(&self, addr: Option<u32>, port: u16) -> (endpoint: Option<Endpoint>)
        ensures
            endpoint == resolved(self@, addr, port),
    {
        match addr {
            Some(a) => {
                if self.addr.is_some() {
                    Some(Endpoint { addr: a, port })
                } else {
                    None
                }
            },
            None => None,
        }
    }
}

} // verus!
