//! Builds requests, keeps the table of pending ones, and matches replies
//! to them.

use std::collections::HashMap;
use vstd::prelude::*;

pub mod decode;
pub mod types;
pub mod value;

use crate::json::decode::{decode, response_in, Response, ResponseView};
use crate::json::types::{
    check_type, method_of, request_kind, request_of, ParamGetFileInfo, ParamGetFileList, Params,
    ParamsView, RpcErrorView, RpcResultView, GET_FILE_INFO, GET_FILE_LIST, GET_VERSION,
};
pub use crate::json::types::{ErrReq, RpcError, RpcResult};
use crate::json::value::{json_quoted, json_text, quote};
use crate::text::{decimal, format_decimal, str_eq};

verus! {

/// The protocol version that every request carries and every reply must
/// carry.
pub const RPC_VERSION: &'static str = "2.0";

/// A request, ready to be written out.
#[derive(Debug, PartialEq, Eq)]
pub struct Request {
    pub jsonrpc: &'static str,
    pub method: &'static str,
    pub params: Option<Params>,
    pub id: u32,
}

/// What a reply of the device amounts to.
#[derive(Debug, PartialEq, Eq)]
pub enum Message {
    /// The answer to a pending request: its result, or the error that the
    /// device reports for it.
    Response(Result<RpcResult, RpcError>),
}

pub enum MessageView {
    Response(Result<RpcResultView, RpcErrorView>),
}

impl View for Message {
    type V = MessageView;

    open spec fn view(&self) -> MessageView {
        match self {
            Message::Response(Ok(r)) => MessageView::Response(Ok(r@)),
            Message::Response(Err(e)) => MessageView::Response(Err(e@)),
        }
    }
}

/// The view of a message that may be missing.
pub open spec fn message_view(m: Option<Message>) -> Option<MessageView> {
    match m {
        Some(m) => Some(m@),
        None => None,
    }
}

/// The view of parameters that may be missing.
pub open spec fn params_view(p: Option<Params>) -> Option<ParamsView> {
    match p {
        Some(p) => Some(p@),
        None => None,
    }
}

/// The correlator as the contracts see it.
pub struct RpcView {
    /// The identifier of the request issued last, zero before the first.
    pub id: u32,
    /// The method of each request that still waits for its reply.
    pub pending: Map<u32, Seq<char>>,
}

/// The correlator: numbers the requests and remembers which method each
/// pending one called.
pub struct Rpc {
    id: u32,
    map: HashMap<u32, &'static str>,
}

impl View for Rpc {
    type V = RpcView;

    closed spec fn view(&self) -> RpcView {
        RpcView {
            id: self.id,
            pending: Map::new(|k: u32| self.map@.contains_key(k), |k: u32| self.map@[k]@),
        }
    }
}

/// What holds of every correlator: no pending request has an identifier
/// above the one issued last.
pub open spec fn valid(v: RpcView) -> bool {
    forall|k: u32| v.pending.contains_key(k) ==> k <= v.id
}

/// The correlator after a request for `method` has been issued under the
/// next identifier.
pub open spec fn issued(v: RpcView, method: Seq<char>) -> RpcView {
    RpcView { id: (v.id + 1) as u32, pending: v.pending.insert((v.id + 1) as u32, method) }
}

/// The text of the parameters of a request.
pub open spec fn params_text(p: ParamsView) -> Seq<char> {
    match p {
        ParamsView::FileList { start } => "{\"start\":"@ + if start {
            "true"@
        } else {
            "false"@
        } + "}"@,
        ParamsView::FileInfo { filename } => "{\"filename\":"@ + json_quoted(filename) + "}"@,
    }
}

/// The text of a request: an object with the members `jsonrpc`, `method`,
/// `params` if there are any, and `id`, in this order and without
/// spaces.
pub open spec fn request_text(
    jsonrpc: Seq<char>,
    method: Seq<char>,
    params: Option<ParamsView>,
    id: u32,
) -> Seq<char> {
    "{\"jsonrpc\":"@ + json_quoted(jsonrpc) + ",\"method\":"@ + json_quoted(method) + match params {
        Some(p) => ",\"params\":"@ + params_text(p),
        None => Seq::<char>::empty(),
    } + ",\"id\":"@ + decimal(id as nat) + "}"@
}

/// The correlator and the message after a result has come in under `id`.
/// Without an identifier, or with one that is not pending, nothing
/// changes and nothing is handed on. Otherwise the entry is used up, and
/// the result is handed on if it has the shape that the recorded method
/// answers with.
pub open spec fn answered(v: RpcView, result: RpcResultView, id: Option<u32>) -> (
    RpcView,
    Option<MessageView>,
) {
    match id {
        Some(id) if v.pending.contains_key(id) => (
            RpcView { pending: v.pending.remove(id), ..v },
            if v.pending[id] == method_of(result) {
                Some(MessageView::Response(Ok(result)))
            } else {
                None
            },
        ),
        _ => (v, None),
    }
}

/// The correlator and the message after an error has come in under `id`.
/// Without an identifier, or with one that is not pending, nothing
/// changes and nothing is handed on. Otherwise the entry is used up, and
/// the error is handed on with the recorded method and the kind of
/// request that it names, unless it names none.
pub open spec fn failed(v: RpcView, error: RpcErrorView, id: Option<u32>) -> (
    RpcView,
    Option<MessageView>,
) {
    match id {
        Some(id) if v.pending.contains_key(id) => (
            RpcView { pending: v.pending.remove(id), ..v },
            if request_of(v.pending[id]) != ErrReq::Unknown {
                Some(
                    MessageView::Response(
                        Err(
                            RpcErrorView {
                                request: request_of(v.pending[id]),
                                method: v.pending[id],
                                ..error
                            },
                        ),
                    ),
                )
            } else {
                None
            },
        ),
        _ => (v, None),
    }
}

/// The correlator and the message after a reply has come in. A reply of
/// another protocol version, or with neither result nor error, is
/// dropped; an error goes before a result.
pub open spec fn dispatched(v: RpcView, reply: ResponseView) -> (RpcView, Option<MessageView>) {
    if reply.jsonrpc != RPC_VERSION@ {
        (v, None)
    } else {
        match (reply.error, reply.result) {
            (Some(e), _) => failed(v, e, reply.id),
            (None, Some(r)) => answered(v, r, reply.id),
            (None, None) => (v, None),
        }
    }
}

/// The correlator and the message after a text has come in: a text that
/// spells no reply is dropped.
pub open spec fn parsed(v: RpcView, reply: Option<ResponseView>) -> (RpcView, Option<MessageView>) {
    match reply {
        Some(r) => dispatched(v, r),
        None => (v, None),
    }
}

/// A new request gets an identifier that no pending request has, and
/// joins the pending ones under it.
pub proof fn lemma_identifier_is_fresh(v: RpcView, method: Seq<char>)
    requires
        valid(v),
        v.id < u32::MAX,
    ensures
        !v.pending.contains_key(issued(v, method).id),
        issued(v, method).pending == v.pending.insert(issued(v, method).id, method),
        issued(v, method).id > v.id,
        valid(issued(v, method)),
{
}

/// A reply under an identifier that is not pending, or under none, is
/// dropped and leaves every pending entry as it was.
pub proof fn lemma_unknown_identifier(v: RpcView, reply: ResponseView)
    requires
        match reply.id {
            Some(id) => !v.pending.contains_key(id),
            None => true,
        },
    ensures
        dispatched(v, reply) == (v, None::<MessageView>),
{
}

/// A result of another shape than the recorded method answers with is
/// dropped, and its pending entry is used up all the same.
pub proof fn lemma_mismatch_consumes(v: RpcView, reply: ResponseView, id: u32)
    requires
        reply.jsonrpc == RPC_VERSION@,
        reply.error is None,
        reply.result is Some,
        reply.id == Some(id),
        v.pending.contains_key(id),
        v.pending[id] != method_of(reply.result->0),
    ensures
        dispatched(v, reply).1 is None,
        dispatched(v, reply).0 == (RpcView { pending: v.pending.remove(id), ..v }),
        !dispatched(v, reply).0.pending.contains_key(id),
{
}

/// A reply never adds a pending entry, and uses up at most the one under
/// its own identifier.
pub proof fn lemma_reply_uses_one(v: RpcView, reply: ResponseView)
    requires
        valid(v),
    ensures
        valid(dispatched(v, reply).0),
        dispatched(v, reply).0.id == v.id,
        dispatched(v, reply).0 == v || (reply.id is Some && v.pending.contains_key(reply.id->0)
            && dispatched(v, reply).0.pending == v.pending.remove(reply.id->0)),
        dispatched(v, reply).1 is Some ==> reply.id is Some && v.pending.contains_key(reply.id->0),
{
}

/// The JSON literal of a string.
fn quoted(s: &str) -> (text: String)
    ensures
        text@ == json_quoted(s@),
{
    match quote(s) {
        Ok(text) => text,
        // Writing a string into memory does not fail.
        Err(_) => String::new(),
    }
}

impl Request {
    /// The request as JSON text.
    pub fn to_json(&self) -> (text: String)
        ensures
            text@ == request_text(self.jsonrpc@, self.method@, params_view(self.params), self.id),
    {
        let mut text = String::from_str("{\"jsonrpc\":");
        text.append(quoted(self.jsonrpc).as_str());
        text.append(",\"method\":");
        text.append(quoted(self.method).as_str());
        let ghost head = text@;
        match &self.params {
            Some(Params::FileList(p)) => {
                text.append(",\"params\":");
                text.append("{\"start\":");
                if p.start {
                    text.append("true");
                } else {
                    text.append("false");
                }
                text.append("}");
                assert(text@ =~= head + (",\"params\":"@ + params_text(self.params->0@)));
            },
            Some(Params::FileInfo(p)) => {
                text.append(",\"params\":");
                text.append("{\"filename\":");
                text.append(quoted(p.filename.as_str()).as_str());
                text.append("}");
                assert(text@ =~= head + (",\"params\":"@ + params_text(self.params->0@)));
            },
            None => {
                assert(text@ =~= head + Seq::<char>::empty());
            },
        }
        text.append(",\"id\":");
        text.append(format_decimal(self.id as u64).as_str());
        text.append("}");
        text
    }
}

impl Rpc {
    /// Whether the correlator is valid.
    pub open spec fn wf(&self) -> bool {
        valid(self@)
    }

    /// A correlator that has issued nothing.
    pub fn new() -> (rpc: Self)
        ensures
            rpc.wf(),
            rpc@ == (RpcView { id: 0, pending: Map::<u32, Seq<char>>::empty() }),
    {
        let rpc = Rpc { id: 0, map: HashMap::new() };
        assert(rpc@.pending =~= Map::<u32, Seq<char>>::empty());
        rpc
    }

    /// Whether another request can be issued: the identifiers are not
    /// used up.
    pub fn can_request(&self) -> (ok: bool)
        ensures
            ok == (self@.id < u32::MAX),
    {
        self.id < u32::MAX
    }

    /// How many requests wait for their reply.
    pub fn pending(&self) -> (n: usize)
        ensures
            n == self@.pending.dom().len(),
    {
        assert(self@.pending.dom() =~= self.map@.dom());
        self.map.len()
    }

    /// Issues a request: gives it the next identifier, which no pending
    /// request has, and records the method under it.
    pub fn request(&mut self, method: &'static str, params: Option<Params>) -> (request: Request)
        requires
            old(self).wf(),
            old(self)@.id < u32::MAX,
        ensures
            final(self).wf(),
            final(self)@ == issued(old(self)@, method@),
            !old(self)@.pending.contains_key(request.id),
            request.id == final(self)@.id,
            request.jsonrpc == RPC_VERSION,
            request.method == method,
            request.params == params,
    {
        self.id = self.id + 1;
        self.map.insert(self.id, method);
        assert(final(self)@.pending =~= issued(old(self)@, method@).pending);
        Request { jsonrpc: RPC_VERSION, method, params, id: self.id }
    }

    /// Issues a `get-version` request and gives its text.
    pub fn get_version(&mut self) -> (text: String)
        requires
            old(self).wf(),
            old(self)@.id < u32::MAX,
        ensures
            final(self).wf(),
            final(self)@ == issued(old(self)@, GET_VERSION@),
            text@ == request_text(RPC_VERSION@, GET_VERSION@, None, final(self)@.id),
    {
        let rpc = self.request(GET_VERSION, None);
        rpc.to_json()
    }

    /// Issues a `get-file-list` request and gives its text; `start` asks
    /// for the first page, otherwise for the next.
    pub fn get_file_list(&mut self, start: bool) -> (text: String)
        requires
            old(self).wf(),
            old(self)@.id < u32::MAX,
        ensures
            final(self).wf(),
            final(self)@ == issued(old(self)@, GET_FILE_LIST@),
            text@ == request_text(
                RPC_VERSION@,
                GET_FILE_LIST@,
                Some(ParamsView::FileList { start }),
                final(self)@.id,
            ),
    {
        let rpc = self.request(GET_FILE_LIST, Some(Params::FileList(ParamGetFileList { start })));
        rpc.to_json()
    }

    /// Issues a `get-file-info` request for `filename` and gives its
    /// text.
    pub fn get_file_info(&mut self, filename: String) -> (text: String)
        requires
            old(self).wf(),
            old(self)@.id < u32::MAX,
        ensures
            final(self).wf(),
            final(self)@ == issued(old(self)@, GET_FILE_INFO@),
            text@ == request_text(
                RPC_VERSION@,
                GET_FILE_INFO@,
                Some(ParamsView::FileInfo { filename: filename@ }),
                final(self)@.id,
            ),
    {
        let params = Params::FileInfo(ParamGetFileInfo { filename });
        let rpc = self.request(GET_FILE_INFO, Some(params));
        rpc.to_json()
    }

    /// Takes a text that came in. A text that is not JSON, spells no
    /// reply, carries another protocol version or an identifier that is
    /// not pending is dropped and changes nothing. Otherwise the pending
    /// entry is used up, and the reply is handed on if it is an error or
    /// a result of the shape that the recorded method answers with.
    pub fn parse(&mut self, msg: &str) -> (message: Option<Message>)
        requires
            old(self).wf(),
        ensures
            final(self).wf(),
            (final(self)@, message_view(message)) == parsed(
                old(self)@,
                response_in(json_text(msg@)),
            ),
    {
        match decode(msg) {
            Some(reply) => self.dispatch(reply),
            None => None,
        }
    }

    /// Takes a reply that came in: see [`Rpc::parse`].
    pub fn dispatch(&mut self, reply: Response) -> (message: Option<Message>)
        requires
            old(self).wf(),
        ensures
            final(self).wf(),
            (final(self)@, message_view(message)) == dispatched(old(self)@, reply@),
    {
        let Response { jsonrpc, result, error, id } = reply;
        if !str_eq(jsonrpc.as_str(), RPC_VERSION) {
            return None;
        }
        match error {
            Some(mut e) => {
                if self.check_error(&mut e, id) {
                    Some(Message::Response(Err(e)))
                } else {
                    None
                }
            },
            None => match result {
                Some(r) => {
                    if self.check_id(&r, id) {
                        Some(Message::Response(Ok(r)))
                    } else {
                        None
                    }
                },
                None => None,
            },
        }
    }

    /// Uses up the pending entry under `id` and says whether the result
    /// has the shape that its method answers with.
    fn check_id(&mut self, res: &RpcResult, id: Option<u32>) -> (ok: bool)
        requires
            old(self).wf(),
        ensures
            final(self).wf(),
            final(self)@ == answered(old(self)@, res@, id).0,
            ok == answered(old(self)@, res@, id).1 is Some,
    {
        match id {
            Some(id) => match self.map.remove(&id) {
                Some(m) => {
                    assert(final(self)@.pending =~= old(self)@.pending.remove(id));
                    check_type(res, m)
                },
                None => {
                    assert(final(self)@.pending =~= old(self)@.pending);
                    false
                },
            },
            None => false,
        }
    }

    /// Uses up the pending entry under `id`, writes its method and the
    /// kind of request into the error, and says whether the error is to
    /// be handed on.
    fn check_error(&mut self, e: &mut RpcError, id: Option<u32>) -> (ok: bool)
        requires
            old(self).wf(),
        ensures
            final(self).wf(),
            final(self)@ == failed(old(self)@, old(e)@, id).0,
            ok == failed(old(self)@, old(e)@, id).1 is Some,
            ok ==> failed(old(self)@, old(e)@, id).1 == Some(
                MessageView::Response(Err(final(e)@)),
            ),
    {
        match id {
            Some(id) => match self.map.remove(&id) {
                Some(m) => {
                    assert(final(self)@.pending =~= old(self)@.pending.remove(id));
                    e.method = String::from_str(m);
                    e.request = request_kind(m);
                    e.request != ErrReq::Unknown
                },
                None => {
                    assert(final(self)@.pending =~= old(self)@.pending);
                    false
                },
            },
            None => false,
        }
    }
}

} // verus!
