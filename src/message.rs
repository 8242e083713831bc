//! JSON-RPC message shapes, told apart by which members a message has.

use vstd::prelude::*;
use crate::json::{Json, member};

verus! {

/// The shape of a JSON-RPC message.
#[derive(Debug, Clone, Copy, PartialEq, Eq, Structural)]
pub enum MessageKind {
    /// Has `method` and `id`.
    Request,
    /// Has `id` and no `method`.
    Response,
    /// Has `method` and no `id`.
    Notification,
    /// Anything else: dropped, never forwarded.
    IllFormed,
}

pub open spec fn kind_of(msg: Json) -> MessageKind {
    let has_id = member(msg, "id"@) is Some;
    let has_method = member(msg, "method"@) is Some;
    if has_method && has_id {
        MessageKind::Request
    } else if has_method {
        MessageKind::Notification
    } else if has_id {
        MessageKind::Response
    } else {
        MessageKind::IllFormed
    }
}

/// The method name, when `method` is a string.
pub open spec fn method_of(msg: Json) -> Option<Seq<char>> {
    match member(msg, "method"@) {
        Some(Json::Str(s)) => Some(s@),
        _ => None,
    }
}

/// A request id as a table key: integers and strings never meet.
pub enum IdKey {
    Int(int),
    Str(Seq<char>),
}

/// The key of an `id` value; ids of any other type have none.
pub open spec fn key_of(id: Json) -> Option<IdKey> {
    match id {
        Json::Int(i) => Some(IdKey::Int(i as int)),
        Json::Str(s) => Some(IdKey::Str(s@)),
        _ => None,
    }
}

/// The table key of the message's `id`.
pub open spec fn id_key_of(msg: Json) -> Option<IdKey> {
    match member(msg, "id"@) {
        Some(id) => key_of(id),
        None => None,
    }
}

/// A request id as it is kept in the pending-request table.
#[derive(Debug, PartialEq)]
pub enum RequestId {
    Int(i128),
    Str(String),
}

impl RequestId {
    pub open spec fn key(&self) -> IdKey {
        match self {
            RequestId::Int(i) => IdKey::Int(*i as int),
            RequestId::Str(s) => IdKey::Str(s@),
        }
    }
}

/// Classifies a message by the members it has.
pub fn classify(msg: &Json) -> (r: MessageKind)
    ensures
        r == kind_of(*msg),
{
    let has_id = msg.get("id").is_some();
    let has_method = msg.get("method").is_some();
    if has_method && has_id {
        MessageKind::Request
    } else if has_method {
        MessageKind::Notification
    } else if has_id {
        MessageKind::Response
    } else {
        MessageKind::IllFormed
    }
}

/// The method name of a message whose `method` is a string.
pub fn method_name(msg: &Json) -> (r: Option<&String>)
    ensures
        match r {
            Some(s) => method_of(*msg) == Some(s@),
            None => method_of(*msg) == None::<Seq<char>>,
        },
{
    match msg.get("method") {
        Some(m) => m.as_str(),
        None => None,
    }
}

/// The key under which the message's `id` is kept, if it has one.
pub fn request_id(msg: &Json) -> (r: Option<RequestId>)
    ensures
        match r {
            Some(id) => id_key_of(*msg) == Some(id.key()),
            None => id_key_of(*msg) == None::<IdKey>,
        },
{
    match msg.get("id") {
        Some(Json::Int(i)) => Some(RequestId::Int(*i)),
        Some(Json::Str(s)) => Some(RequestId::Str(s.clone())),
        _ => None,
    }
}

} // verus!
