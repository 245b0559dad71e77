//! The messages the node exchanges: service requests it receives, and the
//! registration and status updates it sends, framed as JSON.

use vstd::prelude::*;
use crate::json::{json_quoted, json_unquote, lemma_quote_unquote, quote_json};
use crate::text::push_str;

verus! {

/// The kind of service a request is for.
#[derive(Clone, Copy, Debug, PartialEq, Eq, Structural)]
pub enum ServiceType {
    Storage,
    Faas,
    Paas,
}

/// What a service request asks for.
#[allow(non_camel_case_types)]
#[derive(Clone, Copy, Debug, PartialEq, Eq, Structural)]
pub enum ServiceMsgType {
    SERVICEINIT,
    SERVICEUPDATE,
    SERVICEMANAGE,
}

/// A service request: its sender, kind, service and JSON content.
#[derive(Debug)]
pub struct ServiceMessage {
    pub uuid: String,
    pub msg_type: ServiceMsgType,
    pub service_type: ServiceType,
    pub content: String,
}

/// What a node message reports.
#[allow(non_camel_case_types)]
#[derive(Clone, Copy, Debug, PartialEq, Eq, Structural)]
pub enum MsgType {
    REGISTER,
    UPDATE_SYSTAT,
}

/// The name of a message kind as it is written in JSON.
pub open spec fn msg_type_name(t: MsgType) -> Seq<char> {
    match t {
        MsgType::REGISTER => "REGISTER"@,
        MsgType::UPDATE_SYSTAT => "UPDATE_SYSTAT"@,
    }
}

/// A message from the node: its sender, kind and content.
#[derive(Debug)]
pub struct NodeMessage {
    pub uuid: String,
    pub msg_type: MsgType,
    pub content: String,
}

/// A message the node sends.
#[derive(Debug)]
pub enum Message {
    Node(NodeMessage),
}

/// The JSON text of `Message::Node` with the given fields, in the layout of
/// `serde_json` for the externally tagged enum around the struct.
pub open spec fn node_message_json(uuid: Seq<char>, kind: Seq<char>, content: Seq<char>) -> Seq<
    char,
> {
    "{\"Node\":{\"uuid\":"@ + json_quoted(uuid) + ",\"msg_type\":"@ + json_quoted(kind)
        + ",\"content\":"@ + json_quoted(content) + "}}"@
}

/// The text of a node message before its content literal.
pub open spec fn node_message_prefix(uuid: Seq<char>, kind: Seq<char>) -> Seq<char> {
    "{\"Node\":{\"uuid\":"@ + json_quoted(uuid) + ",\"msg_type\":"@ + json_quoted(kind)
        + ",\"content\":"@
}

/// A node message carries its content whole: the text is a fixed prefix,
/// the content's string literal and `}}`; reading that literal back gives
/// the content; and two messages from one sender of one kind are equal
/// only if their contents are.
pub proof fn lemma_message_carries_content(
    uuid: Seq<char>,
    kind: Seq<char>,
    c1: Seq<char>,
    c2: Seq<char>,
)
    ensures
        node_message_json(uuid, kind, c1) == node_message_prefix(uuid, kind) + json_quoted(c1)
            + "}}"@,
        json_unquote(
            node_message_json(uuid, kind, c1).subrange(
                node_message_prefix(uuid, kind).len() as int,
                node_message_json(uuid, kind, c1).len() - "}}"@.len(),
            ),
        ) == Some(c1),
        node_message_json(uuid, kind, c1) == node_message_json(uuid, kind, c2) ==> c1 == c2,
{
    let p = node_message_prefix(uuid, kind);
    let e = "}}"@;
    let m1 = node_message_json(uuid, kind, c1);
    let m2 = node_message_json(uuid, kind, c2);
    assert(m1 =~= p + json_quoted(c1) + e);
    assert(m2 =~= p + json_quoted(c2) + e);
    assert(m1.subrange(p.len() as int, m1.len() - e.len()) =~= json_quoted(c1));
    assert(m2.subrange(p.len() as int, m2.len() - e.len()) =~= json_quoted(c2));
    lemma_quote_unquote(c1);
    lemma_quote_unquote(c2);
}

/// The sender name the node puts in its messages.
pub open spec fn node_uuid() -> Seq<char> {
    "Node_uuid"@
}

impl MsgType {
    /// The name of this kind as it is written in JSON.
    pub fn name(&self) -> (r: &'static str)
        ensures
            r@ == msg_type_name(*self),
    {
        match self {
            MsgType::REGISTER => "REGISTER",
            MsgType::UPDATE_SYSTAT => "UPDATE_SYSTAT",
        }
    }
}

impl NodeMessage {
    /// A message of kind `msg_type` with `content`, sent as `Node_uuid`.
    pub fn new(msg_type: MsgType, content: String) -> (r: NodeMessage)
        ensures
            r.uuid@ == node_uuid(),
            r.msg_type == msg_type,
            r.content == content,
    {
        NodeMessage { uuid: "Node_uuid".to_owned(), msg_type, content }
    }

    /// The registration message for a resource report given as JSON text.
    pub fn register(stat_json: &str) -> (r: String)
        ensures
            r@ == node_message_json(node_uuid(), "REGISTER"@, stat_json@),
    {
        let msg = Message::Node(NodeMessage::new(MsgType::REGISTER, stat_json.to_owned()));
        msg.to_json()
    }

    /// The status-update message for an update given as JSON text.
    pub fn update(stat_json: &str) -> (r: String)
        ensures
            r@ == node_message_json(node_uuid(), "UPDATE_SYSTAT"@, stat_json@),
    {
        let msg = Message::Node(NodeMessage::new(MsgType::UPDATE_SYSTAT, stat_json.to_owned()));
        msg.to_json()
    }
}

impl Message {
    /// The JSON text of this message.
    pub fn to_json(&self) -> (r: String)
        ensures
            match self {
                Message::Node(m) => r@ == node_message_json(
                    m.uuid@,
                    msg_type_name(m.msg_type),
                    m.content@,
                ),
            },
    {
        match self {
            Message::Node(m) => {
                let mut out = String::new();
                push_str(&mut out, "{\"Node\":{\"uuid\":");
                let q = quote_json(m.uuid.as_str());
                push_str(&mut out, q.as_str());
                push_str(&mut out, ",\"msg_type\":");
                let q = quote_json(m.msg_type.name());
                push_str(&mut out, q.as_str());
                push_str(&mut out, ",\"content\":");
                let q = quote_json(m.content.as_str());
                push_str(&mut out, q.as_str());
                push_str(&mut out, "}}");
                out
            },
        }
    }
}

} // verus!
