//! Classification of JSON-RPC 2.0 messages, for every transport.

use vstd::prelude::*;
use vstd::string::*;

use crate::governance::evaluator::{text_member, text_of_member};
use crate::governance::task::types::JsonRpcId;
use crate::json::{Json, JsonNumber, JsonView};
use crate::text::same_text;

verus! {

/// Kind of a JSON-RPC message. `T` holds a text.
#[derive(Debug, Clone, PartialEq, Eq)]
pub enum JsonRpcMessageKind<T = String> {
    /// Has `id` and `method`: a request that expects a response.
    Request { id: JsonRpcId<T>, method: T },
    /// Has `id` but no `method`: a response to an earlier request.
    Response { id: JsonRpcId<T> },
    /// Has `method` but no `id`: a notification.
    Notification { method: T },
}

/// Why a message cannot be classified.
#[derive(Debug, Clone, Copy, PartialEq, Eq, Structural)]
pub enum JsonRpcClassifyError {
    /// The member `jsonrpc` is missing or not `"2.0"`.
    InvalidVersion,
    /// The member `id` is there, but no string, integer or null.
    InvalidId,
    /// The message has neither `id` nor `method`.
    Unclassifiable,
}

impl JsonRpcMessageKind {
    /// The kind with its strings taken as character sequences.
    pub open spec fn view(self) -> JsonRpcMessageKind<Seq<char>> {
        match self {
            JsonRpcMessageKind::Request { id, method } => JsonRpcMessageKind::Request {
                id: id@,
                method: method@,
            },
            JsonRpcMessageKind::Response { id } => JsonRpcMessageKind::Response { id: id@ },
            JsonRpcMessageKind::Notification { method } => JsonRpcMessageKind::Notification {
                method: method@,
            },
        }
    }
}

impl JsonRpcClassifyError {
    /// The text that tells a person what is wrong.
    pub open spec fn text(self) -> Seq<char> {
        match self {
            JsonRpcClassifyError::InvalidVersion => "missing or invalid jsonrpc version field"@,
            JsonRpcClassifyError::InvalidId => "invalid id field"@,
            JsonRpcClassifyError::Unclassifiable => "message has neither id nor method"@,
        }
    }

    /// The text that tells a person what is wrong.
    pub fn message(&self) -> (r: String)
        ensures
            r@ == self.text(),
    {
        match self {
            JsonRpcClassifyError::InvalidVersion => {
                "missing or invalid jsonrpc version field".to_owned()
            },
            JsonRpcClassifyError::InvalidId => "invalid id field".to_owned(),
            JsonRpcClassifyError::Unclassifiable => "message has neither id nor method".to_owned(),
        }
    }
}

/// The identifier that a value stands for: a string, an integer of 64 bits with
/// sign, or null.
pub open spec fn id_in(value: JsonView) -> Option<JsonRpcId<Seq<char>>> {
    match value {
        JsonView::Number(JsonNumber::Int(n)) => Some(JsonRpcId::Number(n)),
        JsonView::Number(JsonNumber::Uint(n)) => if n <= i64::MAX {
            Some(JsonRpcId::Number(n as i64))
        } else {
            None
        },
        JsonView::String(s) => Some(JsonRpcId::String(s)),
        JsonView::Null => Some(JsonRpcId::Null),
        _ => None,
    }
}

/// What a message is. The version is judged first, then the identifier.
pub open spec fn classified(value: JsonView) -> Result<
    JsonRpcMessageKind<Seq<char>>,
    JsonRpcClassifyError,
> {
    if text_member(value, "jsonrpc"@) != Some("2.0"@) {
        Err(JsonRpcClassifyError::InvalidVersion)
    } else {
        match (value.member("id"@), text_member(value, "method"@)) {
            (Some(v), method) => match (id_in(v), method) {
                (Some(id), Some(method)) => Ok(JsonRpcMessageKind::Request { id, method }),
                (Some(id), None) => Ok(JsonRpcMessageKind::Response { id }),
                (None, _) => Err(JsonRpcClassifyError::InvalidId),
            },
            (None, Some(method)) => Ok(JsonRpcMessageKind::Notification { method }),
            (None, None) => Err(JsonRpcClassifyError::Unclassifiable),
        }
    }
}

/// The view of the outcome of a classification.
pub open spec fn kind_view(r: Result<JsonRpcMessageKind, JsonRpcClassifyError>) -> Result<
    JsonRpcMessageKind<Seq<char>>,
    JsonRpcClassifyError,
> {
    match r {
        Ok(k) => Ok(k@),
        Err(e) => Err(e),
    }
}

/// Reads an identifier.
fn parse_id(value: &Json) -> (r: Option<JsonRpcId>)
    ensures
        match r {
            Some(id) => id_in(value@) == Some(id@),
            None => id_in(value@) is None,
        },
{
    match value {
        Json::Number(n) => match n {
            JsonNumber::Int(i) => Some(JsonRpcId::Number(*i)),
            JsonNumber::Uint(u) => {
                if *u <= i64::MAX as u64 {
                    Some(JsonRpcId::Number(*u as i64))
                } else {
                    None
                }
            },
            JsonNumber::Real(_) => None,
        },
        Json::String(s) => Some(JsonRpcId::String(s.clone())),
        Json::Null => Some(JsonRpcId::Null),
        _ => None,
    }
}

/// Classifies a JSON-RPC message.
pub fn classify_jsonrpc(value: &Json) -> (r: Result<JsonRpcMessageKind, JsonRpcClassifyError>)
    ensures
        kind_view(r) == classified(value@),
{
    match text_of_member(value, "jsonrpc") {
        Some(version) => {
            if !same_text(version.as_str(), "2.0") {
                return Err(JsonRpcClassifyError::InvalidVersion);
            }
        },
        None => {
            return Err(JsonRpcClassifyError::InvalidVersion);
        },
    }
    let id = match value.get("id") {
        Some(v) => match parse_id(v) {
            Some(id) => Some(id),
            None => {
                return Err(JsonRpcClassifyError::InvalidId);
            },
        },
        None => None,
    };
    let method = text_of_member(value, "method");
    match (id, method) {
        (Some(id), Some(method)) => Ok(JsonRpcMessageKind::Request { id, method }),
        (Some(id), None) => Ok(JsonRpcMessageKind::Response { id }),
        (None, Some(method)) => Ok(JsonRpcMessageKind::Notification { method }),
        (None, None) => Err(JsonRpcClassifyError::Unclassifiable),
    }
}

/// A message of the right version is a request, a response or a notification by
/// the presence of an identifier and a method alone.
pub proof fn law_kind_by_presence(value: JsonView)
    requires
        text_member(value, "jsonrpc"@) == Some("2.0"@),
        value.member("id"@) is Some ==> id_in(value.member("id"@)->0) is Some,
    ensures
        ({
            let id = value.member("id"@) is Some;
            let method = text_member(value, "method"@) is Some;
            let r = classified(value);
            &&& id && method <==> r is Ok && r->Ok_0 is Request
            &&& id && !method <==> r is Ok && r->Ok_0 is Response
            &&& !id && method <==> r is Ok && r->Ok_0 is Notification
            &&& !id && !method <==> r == Err::<JsonRpcMessageKind<Seq<char>>, _>(
                JsonRpcClassifyError::Unclassifiable,
            )
        }),
{
}

/// A message is what its members say: it must be of version `2.0`; its identifier is
/// the string, the integer or the null that it holds, and anything else is refused;
/// its method is the string that it holds.
pub proof fn law_messages_are_what_they_say(value: JsonView)
    ensures
        ({
            let r = classified(value);
            let good = value.member("jsonrpc"@) == Some(JsonView::String("2.0"@));
            let id = value.member("id"@);
            let method = value.member("method"@);
            &&& !good <==> r is Err && r->Err_0 is InvalidVersion
            &&& good && id is Some && (id->0 is Bool || id->0 is Array || id->0 is Object) ==> r
                is Err && r->Err_0 is InvalidId
            &&& r is Ok ==> {
                &&& r->Ok_0 is Request ==> method == Some(
                    JsonView::String(r->Ok_0->Request_method),
                ) && names_id(id, r->Ok_0->Request_id)
                &&& r->Ok_0 is Notification ==> method == Some(
                    JsonView::String(r->Ok_0->Notification_method),
                ) && id is None
                &&& r->Ok_0 is Response ==> names_id(id, r->Ok_0->Response_id) && !(method
                    is Some && method->0 is String)
            }
            &&& good && id is Some && (id->0 is Null || id->0 is String || id->0 is Number
                && id->0->Number_0 is Int) ==> r is Ok
        }),
{
}

/// Whether a value is the one that an identifier stands for.
pub open spec fn names_id(value: Option<JsonView>, id: JsonRpcId<Seq<char>>) -> bool {
    match id {
        JsonRpcId::Null => value == Some(JsonView::Null),
        JsonRpcId::String(s) => value == Some(JsonView::String(s)),
        JsonRpcId::Number(n) => {
            ||| value == Some(JsonView::Number(JsonNumber::Int(n)))
            ||| n >= 0 && value == Some(JsonView::Number(JsonNumber::Uint(n as u64)))
        },
    }
}

} // verus!
