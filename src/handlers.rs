//! Built-in handlers: the rewrite of the server's `initialize` response.

use vstd::prelude::*;
use tower_lsp::lsp_types::request::{Initialize, Request};
use crate::dispatcher::{backend_route, pending_after_frontend, Dispatcher, Route};
use crate::message::{id_key_of, kind_of, method_of, IdKey, MessageKind};
use crate::json::{entry_value, find_entry, find_key, is_str, member, set_entry, Json};

verus! {

/// `v` is `{"name": "codefuse", "version": "0.1.0"}`.
pub open spec fn is_brand(v: Json) -> bool {
    match v {
        Json::Object(es) => es@.len() == 2 && es@[0].0@ == "name"@ && is_str(es@[0].1, "codefuse"@)
            && es@[1].0@ == "version"@ && is_str(es@[1].1, "0.1.0"@),
        _ => false,
    }
}

/// `new` is `old` with `result.serverInfo` set to the brand and every other
/// member, of the message and of its result, unchanged.
pub open spec fn rebranded(old: Json, new: Json) -> bool {
    &&& new is Object
    &&& forall|k: Seq<char>| k != "result"@ ==> member(new, k) == member(old, k)
    &&& member(new, "result"@) matches Some(res) && res is Object && {
        &&& member(res, "serverInfo"@) matches Some(info) && is_brand(info)
        &&& forall|k: Seq<char>|
            k != "serverInfo"@ ==> member(res, k) == member(member(old, "result"@)->Some_0, k)
    }
}

/// The name under which LSP sends the `initialize` request.
pub open spec fn initialize_name() -> Seq<char> {
    "initialize"@
}

/// Relies on lsp_types' `Initialize` request type: its `METHOD` constant is
/// the method name `initialize`.
#[verifier::external_body]
fn initialize_method() -> (r: &'static str)
    ensures
        r@ == initialize_name(),
{
    <Initialize as Request>::METHOD
}

fn brand() -> (r: Json)
    ensures
        is_brand(r),
{
    let mut es: Vec<(String, Json)> = Vec::new();
    es.push(("name".to_owned(), Json::Str("codefuse".to_owned())));
    es.push(("version".to_owned(), Json::Str("0.1.0".to_owned())));
    Json::Object(es)
}

/// Rewrites the server's response to `initialize`: `result.serverInfo`
/// becomes `{"name": "codefuse", "version": "0.1.0"}` and all else stays.
/// A message whose `result` is missing or no object passes unchanged.
pub fn handle_initialize(rpc: Json) -> (r: Json)
    ensures
        match member(rpc, "result"@) {
            Some(Json::Object(_)) => rebranded(rpc, r),
            _ => r == rpc,
        },
{
    match rpc {
        Json::Object(mut top) => {
            let i = match find_entry(&top, "result") {
                Some(i) => i,
                None => {
                    return Json::Object(top);
                },
            };
            let is_object = match &top[i].1 {
                Json::Object(_) => true,
                _ => false,
            };
            if !is_object {
                return Json::Object(top);
            }
            let ghost before = top@;
            let (name, result) = top.remove(i);
            let mut fields = match result {
                Json::Object(fields) => fields,
                _ => Vec::new(),
            };
            let ghost old_fields = fields@;
            set_entry(&mut fields, "serverInfo".to_owned(), brand());
            top.insert(i, (name, Json::Object(fields)));
            proof {
                crate::json::lemma_find_key_in_range(before, "result"@, 0);
                assert(top@ == before.update(i as int, top@[i as int]));
                assert forall|k: int| 0 <= k < before.len() implies (#[trigger] before[k]).0@ == top@[k].0@ by {
                    if k != i {
                        assert(top@[k] == before[k]);
                    }
                }
                crate::json::lemma_find_key_same_keys(before, top@, "result"@, 0);
                assert forall|k: Seq<char>| k != "result"@ implies entry_value(top@, k) == entry_value(before, k) by {
                    crate::json::lemma_find_key_same_keys(before, top@, k, 0);
                    crate::json::lemma_find_key_in_range(before, k, 0);
                    if let Some(q) = find_key(before, k, 0) {
                        assert(q != i);
                        assert(top@[q] == before[q]);
                    }
                }
            }
            Json::Object(top)
        },
        other => other,
    }
}

/// Registers the built-in handlers: `rebrand` for the server's responses to
/// `initialize`.
pub fn setup_handlers<H: Copy>(dispatcher: &mut Dispatcher<H>, rebrand: H)
    ensures
        final(dispatcher).backend_handlers() == old(dispatcher).backend_handlers().insert(
            initialize_name(),
            rebrand,
        ),
        final(dispatcher).frontend_handlers() == old(dispatcher).frontend_handlers(),
        final(dispatcher).pending() == old(dispatcher).pending(),
{
    dispatcher.register_req_resp_from_backend(initialize_method(), rebrand);
}

/// With the built-ins registered, the server's response to a client's
/// `initialize` request goes to the rebranding handler, whatever the server
/// put in it and whatever else is pending.
pub proof fn lemma_initialize_response_rebranded<H>(
    server_handlers: Map<Seq<char>, H>,
    rebrand: H,
    p: Map<IdKey, Seq<char>>,
    request: Json,
    response: Json,
)
    requires
        server_handlers.contains_key(initialize_name()),
        server_handlers[initialize_name()] == rebrand,
        kind_of(request) == MessageKind::Request,
        method_of(request) == Some(initialize_name()),
        id_key_of(request) is Some,
        kind_of(response) == MessageKind::Response,
        id_key_of(response) == id_key_of(request),
    ensures
        backend_route(server_handlers, pending_after_frontend(p, request), response) == Route::Handle(
            rebrand,
            response,
        ),
{
}

} // verus!
