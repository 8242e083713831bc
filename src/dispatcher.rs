//! The dispatcher: classifies each message, keeps the pending-request
//! table, and decides whether a message goes to a handler, is forwarded
//! verbatim to the other peer, or is dropped.

use vstd::prelude::*;
use crate::frame::{encode_frame, frame_of};
use vstd::string::StringSliceAdditionalSpecFns;
use crate::json::{copy_json, entry_value, is_str, lemma_push_new_key, member, same_json, take_entry, Json};
use crate::message::{
    classify, id_key_of, kind_of, method_name, method_of, request_id, IdKey, MessageKind, RequestId,
};
use crate::pending::PendingTable;
use crate::registry::Registry;

verus! {

/// What becomes of one incoming message.
pub enum Route<H> {
    /// Send the message unchanged to the other peer.
    Forward(Json),
    /// Give the message to this handler.
    Handle(H, Json),
    /// Drop the message: it is neither request, response nor notification.
    Drop,
}

/// Where a message from the client goes, given the client-side handlers.
pub open spec fn frontend_route<H>(handlers: Map<Seq<char>, H>, msg: Json) -> Route<H> {
    if kind_of(msg) == MessageKind::IllFormed {
        Route::Drop
    } else {
        match method_of(msg) {
            Some(m) => if handlers.contains_key(m) {
                Route::Handle(handlers[m], msg)
            } else {
                Route::Forward(msg)
            },
            None => Route::Forward(msg),
        }
    }
}

/// The pending table once a message from the client has been seen: a
/// request with a usable id and a method name is recorded under its id.
pub open spec fn pending_after_frontend(p: Map<IdKey, Seq<char>>, msg: Json) -> Map<IdKey, Seq<char>> {
    if kind_of(msg) == MessageKind::Request {
        match (id_key_of(msg), method_of(msg)) {
            (Some(k), Some(m)) => p.insert(k, m),
            _ => p,
        }
    } else {
        p
    }
}

/// The method that governs a message from the server: for a response, the
/// method of the request it answers; for a notification, its own.
pub open spec fn governing_method(p: Map<IdKey, Seq<char>>, msg: Json) -> Option<Seq<char>> {
    match kind_of(msg) {
        MessageKind::Response => match id_key_of(msg) {
            Some(k) => if p.contains_key(k) {
                Some(p[k])
            } else {
                None
            },
            None => None,
        },
        MessageKind::Notification => method_of(msg),
        _ => None,
    }
}

/// The pending table once a message from the server has been seen: a
/// response takes its id out.
pub open spec fn pending_after_backend(p: Map<IdKey, Seq<char>>, msg: Json) -> Map<IdKey, Seq<char>> {
    if kind_of(msg) == MessageKind::Response {
        match id_key_of(msg) {
            Some(k) => p.remove(k),
            None => p,
        }
    } else {
        p
    }
}

/// Where a message from the server goes, given the server-side handlers and
/// the pending table before it.
pub open spec fn backend_route<H>(
    handlers: Map<Seq<char>, H>,
    p: Map<IdKey, Seq<char>>,
    msg: Json,
) -> Route<H> {
    if kind_of(msg) == MessageKind::IllFormed {
        Route::Drop
    } else {
        match governing_method(p, msg) {
            Some(m) => if handlers.contains_key(m) {
                Route::Handle(handlers[m], msg)
            } else {
                Route::Forward(msg)
            },
            None => Route::Forward(msg),
        }
    }
}

/// The member names of a JSON-RPC message differ from one another.
pub proof fn lemma_member_names_distinct()
    ensures
        "jsonrpc"@ != "id"@,
        "jsonrpc"@ != "method"@,
        "jsonrpc"@ != "params"@,
        "id"@ != "method"@,
        "id"@ != "params"@,
        "method"@ != "params"@,
{
    reveal_strlit("jsonrpc");
    reveal_strlit("id");
    reveal_strlit("method");
    reveal_strlit("params");
    assert("jsonrpc"@.len() == 7 && "id"@.len() == 2 && "method"@.len() == 6);
    assert("method"@[0] == 'm' && "params"@[0] == 'p');
}

/// The value, or `null` when there is none.
pub open spec fn or_null(v: Option<Json>) -> Json {
    match v {
        Some(j) => j,
        None => Json::Null,
    }
}

/// Routes messages between the client (frontend) and the server (backend).
pub struct Dispatcher<H> {
    handlers_from_frontend: Registry<H>,
    handlers_from_backend: Registry<H>,
    pending_requests: PendingTable,
}

impl<H: Copy> Dispatcher<H> {
    pub closed spec fn frontend_handlers(&self) -> Map<Seq<char>, H> {
        self.handlers_from_frontend@
    }

    pub closed spec fn backend_handlers(&self) -> Map<Seq<char>, H> {
        self.handlers_from_backend@
    }

    pub closed spec fn pending(&self) -> Map<IdKey, Seq<char>> {
        self.pending_requests@
    }

    /// A dispatcher with no handlers and no pending request.
    pub fn new() -> (r: Self)
        ensures
            r.frontend_handlers() == Map::<Seq<char>, H>::empty(),
            r.backend_handlers() == Map::<Seq<char>, H>::empty(),
            r.pending() == Map::<IdKey, Seq<char>>::empty(),
    {
        Dispatcher {
            handlers_from_frontend: Registry::new(),
            handlers_from_backend: Registry::new(),
            pending_requests: PendingTable::new(),
        }
    }

    /// Registers a handler for client requests of `method`.
    pub fn register_req_from_frontend(&mut self, method: &str, handler: H)
        ensures
            final(self).frontend_handlers() == old(self).frontend_handlers().insert(method@, handler),
            final(self).backend_handlers() == old(self).backend_handlers(),
            final(self).pending() == old(self).pending(),
    {
        self.handlers_from_frontend.register(method.to_owned(), handler);
    }

    /// Registers a handler for client notifications of `method`.
    pub fn register_notification_from_frontend(&mut self, method: &str, handler: H)
        ensures
            final(self).frontend_handlers() == old(self).frontend_handlers().insert(method@, handler),
            final(self).backend_handlers() == old(self).backend_handlers(),
            final(self).pending() == old(self).pending(),
    {
        self.handlers_from_frontend.register(method.to_owned(), handler);
    }

    /// Registers a handler for the server's responses to requests of `method`.
    pub fn register_req_resp_from_backend(&mut self, method: &str, handler: H)
        ensures
            final(self).backend_handlers() == old(self).backend_handlers().insert(method@, handler),
            final(self).frontend_handlers() == old(self).frontend_handlers(),
            final(self).pending() == old(self).pending(),
    {
        self.handlers_from_backend.register(method.to_owned(), handler);
    }

    /// Registers a handler for server notifications of `method`.
    pub fn register_notification_from_backend(&mut self, method: &str, handler: H)
        ensures
            final(self).backend_handlers() == old(self).backend_handlers().insert(method@, handler),
            final(self).frontend_handlers() == old(self).frontend_handlers(),
            final(self).pending() == old(self).pending(),
    {
        self.handlers_from_backend.register(method.to_owned(), handler);
    }

    /// Takes a message from the client. A request is recorded in the
    /// pending table before it is routed; then a registered handler gets
    /// the message, or it is forwarded verbatim to the server.
    pub fn handle_from_frontend(&mut self, rpc: Json) -> (r: Route<H>)
        ensures
            r == frontend_route(old(self).frontend_handlers(), rpc),
            final(self).pending() == pending_after_frontend(old(self).pending(), rpc),
            final(self).frontend_handlers() == old(self).frontend_handlers(),
            final(self).backend_handlers() == old(self).backend_handlers(),
    {
        let kind = classify(&rpc);
        if kind == MessageKind::IllFormed {
            return Route::Drop;
        }
        let handler = match method_name(&rpc) {
            Some(m) => {
                if kind == MessageKind::Request {
                    match request_id(&rpc) {
                        Some(id) => {
                            self.pending_requests.insert(id, m.clone());
                        },
                        None => {},
                    }
                }
                self.handlers_from_frontend.lookup(m)
            },
            None => None,
        };
        match handler {
            Some(h) => Route::Handle(h, rpc),
            None => Route::Forward(rpc),
        }
    }

    /// Takes a message from the server. A response takes its id out of the
    /// pending table, and the method of the request it answers picks the
    /// handler; a notification picks it by its own method. Without a
    /// registered handler the message is forwarded verbatim to the client.
    pub fn handle_from_backend(&mut self, rpc: Json) -> (r: Route<H>)
        ensures
            r == backend_route(old(self).backend_handlers(), old(self).pending(), rpc),
            final(self).pending() == pending_after_backend(old(self).pending(), rpc),
            final(self).frontend_handlers() == old(self).frontend_handlers(),
            final(self).backend_handlers() == old(self).backend_handlers(),
    {
        let kind = classify(&rpc);
        let handler = match kind {
            MessageKind::IllFormed => {
                return Route::Drop;
            },
            MessageKind::Response => match request_id(&rpc) {
                Some(id) => match self.pending_requests.remove(&id) {
                    Some(m) => self.handlers_from_backend.lookup(&m),
                    None => None,
                },
                None => None,
            },
            MessageKind::Notification => match method_name(&rpc) {
                Some(m) => self.handlers_from_backend.lookup(m),
                None => None,
            },
            MessageKind::Request => None,
        };
        match handler {
            Some(h) => Route::Handle(h, rpc),
            None => Route::Forward(rpc),
        }
    }

    /// Whether the client request with this id still awaits its response.
    pub fn is_pending(&self, id: &RequestId) -> (r: bool)
        ensures
            r == self.pending().contains_key(id.key()),
    {
        self.pending_requests.contains(id)
    }

    /// Whether some client request still awaits its response.
    pub fn has_pending(&self) -> (r: bool)
        ensures
            r == (self.pending() != Map::<IdKey, Seq<char>>::empty()),
    {
        !self.pending_requests.is_empty()
    }

    /// Rebuilds a request or notification in the standard JSON-RPC shape:
    /// `jsonrpc` "2.0", the `id` if there is one, then `method` and
    /// `params`, each `null` when missing. Other members are left out.
    pub fn format_notification_or_request(rpc: Json) -> (r: Json)
        ensures
            r is Object,
            member(r, "jsonrpc"@) matches Some(v) && is_str(v, "2.0"@),
            member(r, "id"@) == member(rpc, "id"@),
            member(r, "method"@) == Some(or_null(member(rpc, "method"@))),
            member(r, "params"@) == Some(or_null(member(rpc, "params"@))),
            forall|k: Seq<char>|
                k != "jsonrpc"@ && k != "id"@ && k != "method"@ && k != "params"@ ==> #[trigger] member(r, k)
                    == None::<Json>,
    {
        proof {
            lemma_member_names_distinct();
        }
        let (id, method, params) = match rpc {
            Json::Object(mut es) => {
                let id = take_entry(&mut es, "id");
                let method = take_entry(&mut es, "method");
                let params = take_entry(&mut es, "params");
                (id, method, params)
            },
            _ => (None, None, None),
        };
        let mut out: Vec<(String, Json)> = Vec::new();
        let ghost none_yet = out@;
        assert(forall|k: Seq<char>| #[trigger] entry_value(none_yet, k) == None::<Json>) by {
            assert forall|k: Seq<char>| #[trigger] entry_value(none_yet, k) == None::<Json> by {
                assert(crate::json::find_key(none_yet, k, 0) == None::<int>);
            }
        }
        let first = ("jsonrpc".to_owned(), Json::Str("2.0".to_owned()));
        let ghost version_entry = first;
        out.push(first);
        proof {
            lemma_push_new_key(none_yet, version_entry);
        }
        let ghost after_version = out@;
        match id {
            Some(id) => {
                let entry = ("id".to_owned(), id);
                let ghost e = entry;
                out.push(entry);
                proof {
                    lemma_push_new_key(after_version, e);
                }
            },
            None => {},
        }
        let ghost after_id = out@;
        let entry = ("method".to_owned(), match method {
            Some(m) => m,
            None => Json::Null,
        });
        let ghost method_entry = entry;
        out.push(entry);
        proof {
            lemma_push_new_key(after_id, method_entry);
        }
        let ghost after_method = out@;
        let entry = ("params".to_owned(), match params {
            Some(p) => p,
            None => Json::Null,
        });
        let ghost params_entry = entry;
        out.push(entry);
        proof {
            lemma_push_new_key(after_method, params_entry);
        }
        Json::Object(out)
    }

    /// Builds a request from the `params` of `rpc`: `jsonrpc` "2.0", then
    /// copies of the `id` and `method` found in those params, then the
    /// params themselves; whatever is missing is `null`.
    pub fn format_result(rpc: Json) -> (r: Json)
        ensures
            r is Object,
            member(r, "jsonrpc"@) matches Some(v) && is_str(v, "2.0"@),
            member(r, "params"@) == Some(or_null(member(rpc, "params"@))),
            member(r, "id"@) matches Some(x) && same_json(
                or_null(member(or_null(member(rpc, "params"@)), "id"@)),
                x,
            ),
            member(r, "method"@) matches Some(x) && same_json(
                or_null(member(or_null(member(rpc, "params"@)), "method"@)),
                x,
            ),
            forall|k: Seq<char>|
                k != "jsonrpc"@ && k != "id"@ && k != "method"@ && k != "params"@ ==> #[trigger] member(r, k)
                    == None::<Json>,
    {
        proof {
            lemma_member_names_distinct();
        }
        let params = match rpc {
            Json::Object(mut es) => take_entry(&mut es, "params"),
            _ => None,
        };
        let params = match params {
            Some(p) => p,
            None => Json::Null,
        };
        let id = match params.get("id") {
            Some(v) => copy_json(v),
            None => Json::Null,
        };
        let method = match params.get("method") {
            Some(v) => copy_json(v),
            None => Json::Null,
        };
        let mut out: Vec<(String, Json)> = Vec::new();
        let ghost none_yet = out@;
        assert forall|k: Seq<char>| #[trigger] entry_value(none_yet, k) == None::<Json> by {
            assert(crate::json::find_key(none_yet, k, 0) == None::<int>);
        }
        let entry = ("jsonrpc".to_owned(), Json::Str("2.0".to_owned()));
        let ghost version_entry = entry;
        out.push(entry);
        proof {
            lemma_push_new_key(none_yet, version_entry);
        }
        let ghost after_version = out@;
        let entry = ("id".to_owned(), id);
        let ghost id_entry = entry;
        out.push(entry);
        proof {
            lemma_push_new_key(after_version, id_entry);
        }
        let ghost after_id = out@;
        let entry = ("method".to_owned(), method);
        let ghost method_entry = entry;
        out.push(entry);
        proof {
            lemma_push_new_key(after_id, method_entry);
        }
        let ghost after_method = out@;
        let entry = ("params".to_owned(), params);
        let ghost params_entry = entry;
        out.push(entry);
        proof {
            lemma_push_new_key(after_method, params_entry);
        }
        Json::Object(out)
    }

    /// Frames a serialized message body for the wire.
    pub fn format_lsp_message(body: &str) -> (r: Vec<u8>)
        ensures
            r@ == frame_of(body.spec_bytes()),
    {
        encode_frame(body.as_bytes())
    }
}

/// A client request with a usable id and method name is in the pending
/// table, under its id and with its method, before it is routed anywhere.
pub proof fn lemma_request_recorded(p: Map<IdKey, Seq<char>>, msg: Json)
    requires
        kind_of(msg) == MessageKind::Request,
        id_key_of(msg) is Some,
        method_of(msg) is Some,
    ensures
        pending_after_frontend(p, msg).contains_key(id_key_of(msg)->Some_0),
        pending_after_frontend(p, msg)[id_key_of(msg)->Some_0] == method_of(msg)->Some_0,
{
}

/// A response from the server takes its id out of the pending table, so
/// whether it is forwarded or handled, the table no longer holds that id;
/// entries under other ids stay as they were.
pub proof fn lemma_response_clears_pending<H>(handlers: Map<Seq<char>, H>, p: Map<IdKey, Seq<char>>, msg: Json)
    requires
        kind_of(msg) == MessageKind::Response,
        id_key_of(msg) is Some,
    ensures
        !pending_after_backend(p, msg).contains_key(id_key_of(msg)->Some_0),
        forall|k: IdKey| k != id_key_of(msg)->Some_0 ==> #[trigger] pending_after_backend(p, msg).contains_key(k)
            == p.contains_key(k) && (p.contains_key(k) ==> pending_after_backend(p, msg)[k] == p[k]),
        !(backend_route(handlers, p, msg) is Drop),
{
}

/// Messages that are not requests, responses or notifications are dropped
/// in both directions and leave the pending table alone.
pub proof fn lemma_ill_formed_dropped<H>(
    client_handlers: Map<Seq<char>, H>,
    server_handlers: Map<Seq<char>, H>,
    p: Map<IdKey, Seq<char>>,
    msg: Json,
)
    requires
        kind_of(msg) == MessageKind::IllFormed,
    ensures
        frontend_route(client_handlers, msg) is Drop,
        backend_route(server_handlers, p, msg) is Drop,
        pending_after_frontend(p, msg) == p,
        pending_after_backend(p, msg) == p,
{
}

/// A client message whose method has no client-side handler goes to the
/// server as the very value that came in.
pub proof fn lemma_frontend_forwards_verbatim<H>(handlers: Map<Seq<char>, H>, msg: Json)
    requires
        kind_of(msg) != MessageKind::IllFormed,
        !(method_of(msg) matches Some(m) && handlers.contains_key(m)),
    ensures
        frontend_route(handlers, msg) == Route::<H>::Forward(msg),
{
}

/// A server message whose governing method has no server-side handler, or
/// that has none, goes to the client as the very value that came in.
pub proof fn lemma_backend_forwards_verbatim<H>(handlers: Map<Seq<char>, H>, p: Map<IdKey, Seq<char>>, msg: Json)
    requires
        kind_of(msg) != MessageKind::IllFormed,
        !(governing_method(p, msg) matches Some(m) && handlers.contains_key(m)),
    ensures
        backend_route(handlers, p, msg) == Route::<H>::Forward(msg),
{
}

/// Whatever order the server answers two outstanding requests in, each
/// answer finds the method of its own request, and once both have come
/// back neither id is pending.
pub proof fn lemma_answers_in_any_order(p: Map<IdKey, Seq<char>>, first: Json, second: Json, answer: Json)
    requires
        kind_of(first) == MessageKind::Request,
        kind_of(second) == MessageKind::Request,
        kind_of(answer) == MessageKind::Response,
        id_key_of(first) is Some,
        id_key_of(second) is Some,
        method_of(first) is Some,
        method_of(second) is Some,
        id_key_of(first) != id_key_of(second),
        id_key_of(answer) == id_key_of(first),
    ensures
        governing_method(pending_after_frontend(pending_after_frontend(p, first), second), answer)
            == method_of(first),
        !pending_after_backend(pending_after_frontend(pending_after_frontend(p, first), second), answer)
            .contains_key(id_key_of(first)->Some_0),
        pending_after_backend(pending_after_frontend(pending_after_frontend(p, first), second), answer)
            .contains_key(id_key_of(second)->Some_0),
{
}

} // verus!
