//! Keeps one logical channel to the device alive: discovery while no
//! endpoint is known, one transport session while one is. The caller owns
//! the discovery and session workers and carries out the returned
//! [`Action`].

use vstd::prelude::*;

pub mod mdns;
pub mod websocket;

pub use crate::com::mdns::Endpoint;
pub use crate::com::websocket::Event;

verus! {

/// What the owner of the channel asks of it.
#[derive(Debug, PartialEq, Eq)]
pub enum Command {
    Quit,
    Message(String),
}

/// What the supervisor is busy with.
#[derive(Clone, Copy, Debug, PartialEq, Eq, Structural)]
pub enum Phase {
    /// No endpoint is known; discovery runs.
    Discovering,
    /// A session to an endpoint exists; `up` says whether it has reported
    /// `Connected`.
    Session { up: bool },
    /// The channel has been shut down.
    Stopped,
}

/// What the caller must do next.
#[derive(Debug, PartialEq, Eq)]
pub enum Action {
    /// Nothing.
    Idle,
    /// Hand the payload to the session.
    Send(String),
    /// Stop discovery and open a session to the endpoint.
    Open(Endpoint),
    /// Hand the event to the owner.
    Forward(Event),
    /// Drop the session, start discovery anew, and hand `Disconnected`
    /// to the owner.
    Rediscover,
    /// Stop discovery and the session, whichever runs.
    Shutdown,
}

/// The decision state of the connectivity supervisor.
pub struct Com {
    phase: Phase,
}

impl View for Com {
    type V = Phase;

    closed spec fn view(&self) -> Phase {
        self.phase
    }
}

/// The phase and the action after a command of the owner.
pub open spec fn after_command(phase: Phase, cmd: Command) -> (Phase, Action) {
    match cmd {
        Command::Quit => (
            Phase::Stopped,
            if phase == Phase::Stopped {
                Action::Idle
            } else {
                Action::Shutdown
            },
        ),
        Command::Message(m) => (
            phase,
            if phase is Session {
                Action::Send(m)
            } else {
                Action::Idle
            },
        ),
    }
}

/// The phase and the action after discovery has found an endpoint.
pub open spec fn after_endpoint(phase: Phase, endpoint: Endpoint) -> (Phase, Action) {
    if phase == Phase::Discovering {
        (Phase::Session { up: false }, Action::Open(endpoint))
    } else {
        (phase, Action::Idle)
    }
}

/// The phase and the action after an event of the session.
pub open spec fn after_event(phase: Phase, event: Event) -> (Phase, Action) {
    match phase {
        Phase::Session { up } => match event {
            Event::Connected => if up {
                (phase, Action::Idle)
            } else {
                (Phase::Session { up: true }, Action::Forward(Event::Connected))
            },
            Event::Message(m) => if up {
                (phase, Action::Forward(Event::Message(m)))
            } else {
                (phase, Action::Idle)
            },
            Event::Disconnected => (Phase::Discovering, Action::Rediscover),
        },
        _ => (phase, Action::Idle),
    }
}

/// A session is opened only while none exists, and a message of the
/// session reaches the owner only between the session's `Connected` and
/// its `Disconnected`.
pub proof fn lemma_one_session(phase: Phase, endpoint: Endpoint, event: Event)
    ensures
        after_endpoint(phase, endpoint).1 is Open ==> phase == Phase::Discovering,
        after_endpoint(phase, endpoint).1 is Open ==> after_endpoint(phase, endpoint).0 is Session,
        after_event(phase, event).1 matches Action::Forward(Event::Message(_)) ==> phase
            == (Phase::Session { up: true }),
        after_event(phase, event).0 == (Phase::Session { up: true }) && phase != (Phase::Session {
            up: true,
        }) ==> after_event(phase, event).1 == Action::Forward(Event::Connected),
        phase is Session && event is Disconnected ==> after_event(phase, event) == (
            Phase::Discovering,
            Action::Rediscover,
        ),
{
}

/// One input to the supervisor.
#[derive(Debug, PartialEq, Eq)]
pub enum Input {
    /// A command of the owner.
    Command(Command),
    /// An endpoint found by discovery.
    Endpoint(Endpoint),
    /// An event of the session.
    Event(Event),
}

/// The phase and the action after any one input.
pub open spec fn step(phase: Phase, input: Input) -> (Phase, Action) {
    match input {
        Input::Command(cmd) => after_command(phase, cmd),
        Input::Endpoint(endpoint) => after_endpoint(phase, endpoint),
        Input::Event(event) => after_event(phase, event),
    }
}

/// The phase after a run of inputs.
pub open spec fn run(phase: Phase, inputs: Seq<Input>) -> Phase
    decreases inputs.len(),
{
    if inputs.len() == 0 {
        phase
    } else {
        step(run(phase, inputs.drop_last()), inputs.last()).0
    }
}

/// The actions of a run of inputs, one for each input.
pub open spec fn actions(phase: Phase, inputs: Seq<Input>) -> Seq<Action>
    decreases inputs.len(),
{
    if inputs.len() == 0 {
        Seq::<Action>::empty()
    } else {
        actions(phase, inputs.drop_last()).push(
            step(run(phase, inputs.drop_last()), inputs.last()).1,
        )
    }
}

/// Whether the owner has been told of a connection and not yet of its
/// end: the last of the actions that report one or the other reports a
/// connection.
pub open spec fn bracket_open(done: Seq<Action>) -> bool
    decreases done.len(),
{
    if done.len() == 0 {
        false
    } else {
        match done.last() {
            Action::Forward(Event::Connected) => true,
            Action::Rediscover => false,
            Action::Shutdown => false,
            _ => bracket_open(done.drop_last()),
        }
    }
}

/// The actions of the first part of a run are the first part of the
/// actions of the run.
pub proof fn lemma_actions_prefix(phase: Phase, inputs: Seq<Input>, n: int)
    requires
        0 <= n <= inputs.len(),
    ensures
        actions(phase, inputs).len() == inputs.len(),
        actions(phase, inputs).take(n) == actions(phase, inputs.take(n)),
    decreases inputs.len(),
{
    if inputs.len() == 0 {
        assert(inputs.take(n) =~= inputs);
        assert(actions(phase, inputs).take(n) =~= actions(phase, inputs));
    } else if n == inputs.len() {
        lemma_actions_prefix(phase, inputs.drop_last(), n - 1);
        assert(inputs.take(n) =~= inputs);
        assert(actions(phase, inputs).take(n) =~= actions(phase, inputs));
    } else {
        lemma_actions_prefix(phase, inputs.drop_last(), n);
        assert(inputs.drop_last().take(n) =~= inputs.take(n));
        assert(actions(phase, inputs).take(n) =~= actions(phase, inputs.drop_last()).take(n));
    }
}

/// Over any run of inputs from the start, a session counts as up exactly
/// while the owner has been told of a connection and not yet of its end.
pub proof fn lemma_up_is_bracket(inputs: Seq<Input>)
    ensures
        run(Phase::Discovering, inputs) == (Phase::Session { up: true }) <==> bracket_open(
            actions(Phase::Discovering, inputs),
        ),
    decreases inputs.len(),
{
    if inputs.len() > 0 {
        lemma_up_is_bracket(inputs.drop_last());
        let done = actions(Phase::Discovering, inputs);
        assert(done.drop_last() =~= actions(Phase::Discovering, inputs.drop_last()));
    }
}

/// Over any run of inputs from the start, a message of a session reaches
/// the owner only after a connection has been reported and before its
/// end has.
pub proof fn lemma_messages_in_bracket(inputs: Seq<Input>, i: int)
    requires
        0 <= i < inputs.len(),
        actions(Phase::Discovering, inputs)[i] matches Action::Forward(Event::Message(_)),
    ensures
        bracket_open(actions(Phase::Discovering, inputs).take(i)),
{
    let start = Phase::Discovering;
    lemma_actions_prefix(start, inputs, i);
    lemma_actions_prefix(start, inputs, i + 1);
    let upto = inputs.take(i + 1);
    assert(upto.drop_last() =~= inputs.take(i));
    assert(actions(start, upto).last() == actions(start, inputs)[i]);
    lemma_up_is_bracket(inputs.take(i));
}

impl Com {
    /// A supervisor that starts out discovering.
    pub fn new() -> (com: Self)
        ensures
            com@ == Phase::Discovering,
    {
        Com { phase: Phase::Discovering }
    }

    /// Takes any one input and says what to do next.
    pub fn step(&mut self, input: Input) -> (action: Action)
        ensures
            (final(self)@, action) == step(old(self)@, input),
    {
        match input {
            Input::Command(cmd) => self.on_command(cmd),
            Input::Endpoint(endpoint) => self.on_endpoint(endpoint),
            Input::Event(event) => self.on_event(event),
        }
    }

    /// What the supervisor is busy with.
    pub fn phase(&self) -> (phase: Phase)
        ensures
            phase == self@,
    {
        self.phase
    }

    /// Takes a command of the owner. A payload goes to the session if one
    /// exists and is dropped otherwise; `Quit` shuts the channel down.
    pub fn on_command(&mut self, cmd: Command) -> (action: Action)
        ensures
            (final(self)@, action) == after_command(old(self)@, cmd),
    {
        match cmd {
            Command::Quit => {
                let action = if self.phase == Phase::Stopped {
                    Action::Idle
                } else {
                    Action::Shutdown
                };
                self.phase = Phase::Stopped;
                action
            },
            Command::Message(m) => {
                match self.phase {
                    Phase::Session { .. } => Action::Send(m),
                    _ => Action::Idle,
                }
            },
        }
    }

    /// Takes an endpoint found by discovery: while discovering, a session
    /// to it is opened; at any other time it is ignored.
    pub fn on_endpoint(&mut self, endpoint: Endpoint) -> (action: Action)
        ensures
            (final(self)@, action) == after_endpoint(old(self)@, endpoint),
    {
        if self.phase == Phase::Discovering {
            self.phase = Phase::Session { up: false };
            Action::Open(endpoint)
        } else {
            Action::Idle
        }
    }

    /// Takes an event of the session. `Connected` and the messages after
    /// it are handed on; `Disconnected` forgets the session and sends the
    /// supervisor back to discovery.
    pub fn on_event(&mut self, event: Event) -> (action: Action)
        ensures
            (final(self)@, action) == after_event(old(self)@, event),
    {
        match self.phase {
            Phase::Session { up } => match event {
                Event::Connected => {
                    if up {
                        Action::Idle
                    } else {
                        self.phase = Phase::Session { up: true };
                        Action::Forward(Event::Connected)
                    }
                },
                Event::Message(m) => {
                    if up {
                        Action::Forward(Event::Message(m))
                    } else {
                        Action::Idle
                    }
                },
                Event::Disconnected => {
                    self.phase = Phase::Discovering;
                    Action::Rediscover
                },
            },
            _ => Action::Idle,
        }
    }
}

} // verus!
