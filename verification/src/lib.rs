//! Connectivity core for a networked audio device: discovery and transport
//! decisions, request correlation, the catalog that mirrors the device's
//! files, and the backend that drives a synchronization from the replies
//! that come in.

use vstd::prelude::*;

pub mod com;
pub mod data;
pub mod database;
pub mod event;
pub mod json;
pub mod pattern;
pub mod text;

use crate::database::data::{appended, cleared, next_unsynced, with_info, DataView};
pub use crate::database::{Database, DirEntry};
use crate::event::EventView;
pub use crate::event::{Event, Reload};
use crate::json::decode::response_in;
use crate::json::types::{
    ParamsView, RpcErrorView, RpcResultView, GET_FILE_INFO, GET_FILE_LIST, GET_VERSION,
};
use crate::json::value::json_text;
use crate::json::{
    issued, parsed, request_text, ErrReq, Message, MessageView, Rpc, RpcError, RpcResult, RpcView,
    RPC_VERSION,
};
use crate::text::{format_signed, signed_decimal};

verus! {

/// What the user asks of the backend.
#[derive(Clone, Copy, Debug, PartialEq, Eq, Structural)]
pub enum Command {
    Resync,
    Quit,
}

/// What the caller must do next.
#[derive(Debug, PartialEq, Eq)]
pub enum Action {
    /// Hand the event to the user.
    Emit(Event),
    /// Send the payload to the device.
    Send(String),
    /// Stop the backend.
    Stop,
}

/// An action as the contracts see it.
pub enum ActionView {
    Emit(EventView),
    Send(Seq<char>),
    Stop,
}

impl View for Action {
    type V = ActionView;

    open spec fn view(&self) -> ActionView {
        match self {
            Action::Emit(e) => ActionView::Emit(e@),
            Action::Send(s) => ActionView::Send(s@),
            Action::Stop => ActionView::Stop,
        }
    }
}

/// The views of a sequence of actions.
pub open spec fn action_views(v: Seq<Action>) -> Seq<ActionView> {
    Seq::new(v.len(), |i: int| v[i]@)
}

/// The state of a synchronization and what a step makes of it: the
/// correlator, the catalog, and the actions in the order in which they
/// are due.
pub struct Outcome {
    pub rpc: RpcView,
    pub data: DataView,
    pub actions: Seq<ActionView>,
}

/// The text that reports an error of the device: the method, the message
/// and, in brackets, the code.
pub open spec fn error_text(e: RpcErrorView) -> Seq<char> {
    e.method + ": "@ + e.message + " ("@ + signed_decimal(e.code as int) + ")"@
}

/// The next step of the walk over the files that lack their metadata: a
/// progress report and a request for the first such file, or the end of
/// the resync if there is none.
pub open spec fn walked(rpc: RpcView, data: DataView) -> Outcome {
    match next_unsynced(data.tracks) {
        Some(name) => Outcome {
            rpc: issued(rpc, GET_FILE_INFO@),
            data,
            actions: seq![
                ActionView::Emit(
                    EventView::Reload(
                        Reload::Step(Some((data.synced as usize, data.total as usize))),
                    ),
                ),
                ActionView::Send(
                    request_text(
                        RPC_VERSION@,
                        GET_FILE_INFO@,
                        Some(ParamsView::FileInfo { filename: name }),
                        issued(rpc, GET_FILE_INFO@).id,
                    ),
                ),
            ],
        },
        None => Outcome {
            rpc,
            data,
            actions: seq![ActionView::Emit(EventView::Reload(Reload::Stop))],
        },
    }
}

/// Whether a reply may lead to another request: a page of the listing
/// and metadata may, a version and an error do not.
pub open spec fn issues_request(msg: MessageView) -> bool {
    msg matches MessageView::Response(Ok(r)) && !(r is Version)
}

/// What a reply of the device leads to.
///
/// A version is reported. A page of the listing goes into the catalog,
/// which is cleared first if the page is the first; after the last page
/// the walk over the files begins, before it the next page is asked for.
/// Metadata is recorded and the walk goes on. An error is reported, and
/// ends the resync if it answers a listing or a metadata request.
pub open spec fn after_message(rpc: RpcView, data: DataView, msg: MessageView) -> Outcome {
    match msg {
        MessageView::Response(Ok(RpcResultView::Version(v))) => Outcome {
            rpc,
            data,
            actions: seq![ActionView::Emit(EventView::Version(v))],
        },
        MessageView::Response(Ok(RpcResultView::FileList(l))) => {
            let begun = if l.first {
                cleared(data)
            } else {
                data
            };
            let listed = appended(begun, l.files, l.last);
            if l.last {
                walked(rpc, listed)
            } else {
                Outcome {
                    rpc: issued(rpc, GET_FILE_LIST@),
                    data: listed,
                    actions: seq![
                        ActionView::Emit(EventView::Reload(Reload::Step(None))),
                        ActionView::Send(
                            request_text(
                                RPC_VERSION@,
                                GET_FILE_LIST@,
                                Some(ParamsView::FileList { start: false }),
                                issued(rpc, GET_FILE_LIST@).id,
                            ),
                        ),
                    ],
                }
            }
        },
        MessageView::Response(Ok(RpcResultView::FileInfo(i))) => walked(rpc, with_info(data, i)),
        MessageView::Response(Err(e)) => Outcome {
            rpc,
            data,
            actions: if e.request == ErrReq::FileList || e.request == ErrReq::FileInfo {
                seq![
                    ActionView::Emit(EventView::Error(error_text(e))),
                    ActionView::Emit(EventView::Reload(Reload::Stop)),
                ]
            } else {
                seq![ActionView::Emit(EventView::Error(error_text(e)))]
            },
        },
    }
}

/// What a command of the user leads to: a resync clears the catalog,
/// reports its start and asks for the first page of the listing; a quit
/// stops the backend.
pub open spec fn after_command(rpc: RpcView, data: DataView, cmd: Command) -> Outcome {
    match cmd {
        Command::Resync => Outcome {
            rpc: issued(rpc, GET_FILE_LIST@),
            data: cleared(data),
            actions: seq![
                ActionView::Emit(EventView::Reload(Reload::Start)),
                ActionView::Send(
                    request_text(
                        RPC_VERSION@,
                        GET_FILE_LIST@,
                        Some(ParamsView::FileList { start: true }),
                        issued(rpc, GET_FILE_LIST@).id,
                    ),
                ),
            ],
        },
        Command::Quit => Outcome { rpc, data, actions: seq![ActionView::Stop] },
    }
}

/// What a text of the device leads to: nothing if it is dropped, and what
/// the reply leads to otherwise.
pub open spec fn after_text(rpc: RpcView, data: DataView, text: Seq<char>) -> Outcome {
    let (rpc, message) = parsed(rpc, response_in(json_text(text)));
    match message {
        Some(m) => after_message(rpc, data, m),
        None => Outcome { rpc, data, actions: Seq::<ActionView>::empty() },
    }
}

/// What an event of the channel leads to: a connection is reported and
/// the device's version asked for; a disconnection is reported, and
/// changes neither the pending requests nor the catalog; a text is read
/// as a reply.
pub open spec fn after_event(rpc: RpcView, data: DataView, event: com::Event) -> Outcome {
    match event {
        com::Event::Connected => Outcome {
            rpc: issued(rpc, GET_VERSION@),
            data,
            actions: seq![
                ActionView::Emit(EventView::Connected),
                ActionView::Send(
                    request_text(RPC_VERSION@, GET_VERSION@, None, issued(rpc, GET_VERSION@).id),
                ),
            ],
        },
        com::Event::Disconnected => Outcome {
            rpc,
            data,
            actions: seq![ActionView::Emit(EventView::Disconnected)],
        },
        com::Event::Message(text) => after_text(rpc, data, text@),
    }
}

/// The backend: drives the synchronization of the catalog from the
/// commands of the user and the events of the channel. The caller runs
/// the channel and carries out the returned actions in order.
pub struct Backend {
    rpc: Rpc,
}

impl View for Backend {
    type V = RpcView;

    closed spec fn view(&self) -> RpcView {
        self.rpc@
    }
}

impl Backend {
    /// Whether the backend is valid.
    pub open spec fn wf(&self) -> bool {
        crate::json::valid(self@)
    }

    /// A backend that has issued no request.
    pub fn new() -> (backend: Self)
        ensures
            backend.wf(),
            backend@ == (RpcView { id: 0, pending: Map::<u32, Seq<char>>::empty() }),
    {
        Backend { rpc: Rpc::new() }
    }

    /// Whether the backend can issue another request: the identifiers
    /// are not used up.
    pub fn can_request(&self) -> (ok: bool)
        ensures
            ok == (self@.id < u32::MAX),
    {
        self.rpc.can_request()
    }

    /// Reports the progress and asks for the metadata of the first file
    /// that lacks it, or reports the end of the resync.
    fn walk(&mut self, database: &Database) -> (actions: Vec<Action>)
        requires
            old(self).wf(),
            old(self)@.id < u32::MAX,
        ensures
            final(self).wf(),
            final(self)@ == walked(old(self)@, database@.data).rpc,
            action_views(actions@) == walked(old(self)@, database@.data).actions,
    {
        match database.get_unsynced_file() {
            Some(f) => {
                let stats = database.sync_stats();
                let text = self.rpc.get_file_info(f);
                let step = Event::Reload(Reload::Step(Some(stats)));
                let actions = vec![Action::Emit(step), Action::Send(text)];
                assert(action_views(actions@) =~= walked(old(self)@, database@.data).actions);
                actions
            },
            None => {
                let actions = vec![Action::Emit(Event::Reload(Reload::Stop))];
                assert(action_views(actions@) =~= walked(old(self)@, database@.data).actions);
                actions
            },
        }
    }

    /// Takes a command of the user.
    pub fn handle_command(&mut self, cmd: Command, database: &mut Database) -> (actions: Vec<
        Action,
    >)
        requires
            old(self).wf(),
            old(database).wf(),
            cmd == Command::Resync ==> old(self)@.id < u32::MAX,
        ensures
            final(self).wf(),
            final(database).wf(),
            final(database)@.commands == old(database)@.commands,
            final(self)@ == after_command(old(self)@, old(database)@.data, cmd).rpc,
            final(database)@.data == after_command(old(self)@, old(database)@.data, cmd).data,
            action_views(actions@) == after_command(old(self)@, old(database)@.data, cmd).actions,
    {
        match cmd {
            Command::Resync => {
                database.clear_file_list();
                let text = self.rpc.get_file_list(true);
                let actions = vec![Action::Emit(Event::Reload(Reload::Start)), Action::Send(text)];
                assert(action_views(actions@) =~= after_command(
                    old(self)@,
                    old(database)@.data,
                    cmd,
                ).actions);
                actions
            },
            Command::Quit => {
                let actions = vec![Action::Stop];
                assert(action_views(actions@) =~= after_command(
                    old(self)@,
                    old(database)@.data,
                    cmd,
                ).actions);
                actions
            },
        }
    }

    /// Takes an event of the channel.
    pub fn handle_event(&mut self, event: com::Event, database: &mut Database) -> (actions: Vec<
        Action,
    >)
        requires
            old(self).wf(),
            old(database).wf(),
            !(event is Disconnected) ==> old(self)@.id < u32::MAX,
        ensures
            final(self).wf(),
            final(database).wf(),
            final(database)@.commands == old(database)@.commands,
            final(self)@ == after_event(old(self)@, old(database)@.data, event).rpc,
            final(database)@.data == after_event(old(self)@, old(database)@.data, event).data,
            action_views(actions@) == after_event(old(self)@, old(database)@.data, event).actions,
    {
        match event {
            com::Event::Connected => {
                let text = self.rpc.get_version();
                let actions = vec![Action::Emit(Event::Connected), Action::Send(text)];
                assert(action_views(actions@) =~= after_event(
                    old(self)@,
                    old(database)@.data,
                    event,
                ).actions);
                actions
            },
            com::Event::Disconnected => {
                let actions = vec![Action::Emit(Event::Disconnected)];
                assert(action_views(actions@) =~= after_event(
                    old(self)@,
                    old(database)@.data,
                    event,
                ).actions);
                actions
            },
            com::Event::Message(text) => {
                match self.rpc.parse(text.as_str()) {
                    Some(m) => self.handle_message(m, database),
                    None => {
                        let actions: Vec<Action> = Vec::new();
                        assert(action_views(actions@) =~= Seq::<ActionView>::empty());
                        actions
                    },
                }
            },
        }
    }

    /// Takes a reply of the device that the correlator has let through.
    pub fn handle_message(&mut self, msg: Message, database: &mut Database) -> (actions: Vec<
        Action,
    >)
        requires
            old(self).wf(),
            old(database).wf(),
            issues_request(msg@) ==> old(self)@.id < u32::MAX,
        ensures
            final(self).wf(),
            final(database).wf(),
            final(database)@.commands == old(database)@.commands,
            final(self)@ == after_message(old(self)@, old(database)@.data, msg@).rpc,
            final(database)@.data == after_message(old(self)@, old(database)@.data, msg@).data,
            action_views(actions@) == after_message(old(self)@, old(database)@.data, msg@).actions,
    {
        let ghost expected = after_message(old(self)@, old(database)@.data, msg@);
        match msg {
            Message::Response(Ok(RpcResult::Version(ver))) => {
                let evt = Event::Version(
                    event::Version {
                        project: ver.project,
                        version: ver.version,
                        esp_idf: ver.esp_idf,
                    },
                );
                let actions = vec![Action::Emit(evt)];
                assert(action_views(actions@) =~= expected.actions);
                actions
            },
            Message::Response(Ok(RpcResult::FileList(lst))) => {
                if lst.first {
                    database.clear_file_list();
                }
                let last = lst.last;
                database.update_file_list(lst.files, last);
                if last {
                    self.walk(database)
                } else {
                    let text = self.rpc.get_file_list(false);
                    let step = Event::Reload(Reload::Step(None));
                    let actions = vec![Action::Emit(step), Action::Send(text)];
                    assert(action_views(actions@) =~= expected.actions);
                    actions
                }
            },
            Message::Response(Ok(RpcResult::FileInfo(info))) => {
                database.set_file_info(info);
                self.walk(database)
            },
            Message::Response(Err(e)) => {
                let text = describe(&e);
                let stops = match e.request {
                    ErrReq::FileList => true,
                    ErrReq::FileInfo => true,
                    _ => false,
                };
                if stops {
                    let stop = Event::Reload(Reload::Stop);
                    let actions = vec![Action::Emit(Event::Error(text)), Action::Emit(stop)];
                    assert(action_views(actions@) =~= expected.actions);
                    actions
                } else {
                    let actions = vec![Action::Emit(Event::Error(text))];
                    assert(action_views(actions@) =~= expected.actions);
                    actions
                }
            },
        }
    }
}

/// The text that reports an error of the device.
pub fn describe(e: &RpcError) -> (text: String)
    ensures
        text@ == error_text(e@),
{
    let mut text = e.method.clone();
    text.append(": ");
    text.append(e.message.as_str());
    text.append(" (");
    let code = format_signed(e.code as i32);
    text.append(code.as_str());
    text.append(")");
    text
}

/// One request at a time: whatever comes in, at most one request goes
/// out for it, as the last of the actions, and it carries the one
/// identifier that was issued.
pub proof fn lemma_one_request_at_a_time(rpc: RpcView, data: DataView, event: com::Event)
    requires
        crate::json::valid(rpc),
        rpc.id < u32::MAX,
    ensures
        forall|i: int|
            0 <= i < after_event(rpc, data, event).actions.len() && (#[trigger] after_event(
                rpc,
                data,
                event,
            ).actions[i]) is Send ==> i == after_event(rpc, data, event).actions.len() - 1
                && after_event(rpc, data, event).rpc.id == rpc.id + 1,
        after_event(rpc, data, event).rpc.id == rpc.id || after_event(rpc, data, event).rpc.id
            == rpc.id + 1,
        after_event(rpc, data, event).rpc.id == rpc.id + 1 ==> after_event(
            rpc,
            data,
            event,
        ).actions.len() > 0 && after_event(rpc, data, event).actions.last() is Send,
{
    if let com::Event::Message(text) = event {
        let reply = response_in(json_text(text@));
        if let Some(r) = reply {
            crate::json::lemma_reply_uses_one(rpc, r);
        }
    }
}

/// A disconnection is always taken: it is reported, and neither the
/// pending requests nor the catalog change, whatever request is still
/// without its reply.
pub proof fn lemma_disconnect_is_taken(rpc: RpcView, data: DataView)
    ensures
        after_event(rpc, data, com::Event::Disconnected) == (Outcome {
            rpc,
            data,
            actions: seq![ActionView::Emit(EventView::Disconnected)],
        }),
{
}

/// A resync that ends with an error is reported to the user before it
/// stops: an error that answers a listing or a metadata request leads
/// to an error event followed by the end of the resync, and an error
/// that answers a version request only to the error event.
pub proof fn lemma_abort_is_reported(rpc: RpcView, data: DataView, e: RpcErrorView)
    ensures
        after_message(rpc, data, MessageView::Response(Err(e))).actions[0] == ActionView::Emit(
            EventView::Error(error_text(e)),
        ),
        after_message(rpc, data, MessageView::Response(Err(e))).actions.contains(
            ActionView::Emit(EventView::Reload(Reload::Stop)),
        ) <==> e.request == ErrReq::FileList || e.request == ErrReq::FileInfo,
        after_message(rpc, data, MessageView::Response(Err(e))).rpc == rpc,
        after_message(rpc, data, MessageView::Response(Err(e))).data == data,
{
    let actions = after_message(rpc, data, MessageView::Response(Err(e))).actions;
    if e.request == ErrReq::FileList || e.request == ErrReq::FileInfo {
        assert(actions[1] == ActionView::Emit(EventView::Reload(Reload::Stop)));
    }
}

} // verus!
