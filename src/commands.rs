//! The protocol's messages and their JSON wire form.

use vstd::prelude::*;
use crate::json::{json_quoted, quote};
use crate::sdp::SessionDescription;

verus! {

/// The closed set of frames that travel between a peer and the server.
#[derive(Clone, Debug)]
pub enum DeviceMessage {
    Register(RegisterPeer),
    Offer(SessionDescription),
    Answer(SessionDescription),
    Quit,
    ListUsersRequest,
    ListUsersResponse(String),
    Registered(RegisterData),
    Echo(String),
    Unknown,
}

/// A peer's request to be known under `name`.
#[derive(Clone, Debug)]
pub struct RegisterPeer {
    pub name: String,
}

/// The server's confirmation of a registration: the name and the address
/// of the connection it is bound to.
#[derive(Clone, Debug)]
pub struct RegisterData {
    pub name: String,
    pub addr: String,
}

impl RegisterPeer {
    pub open spec fn json(self) -> Seq<char> {
        "{\"name\":"@ + json_quoted(self.name@) + "}"@
    }

    pub fn to_json(&self) -> (r: String)
        ensures
            r@ == self.json(),
    {
        let mut s = String::from_str("{\"name\":");
        s.append(quote(self.name.as_str()).as_str());
        s.append("}");
        s
    }
}

impl RegisterData {
    pub open spec fn json(self) -> Seq<char> {
        "{\"name\":"@ + json_quoted(self.name@) + ",\"addr\":"@ + json_quoted(self.addr@) + "}"@
    }

    pub fn to_json(&self) -> (r: String)
        ensures
            r@ == self.json(),
    {
        let mut s = String::from_str("{\"name\":");
        s.append(quote(self.name.as_str()).as_str());
        s.append(",\"addr\":");
        s.append(quote(self.addr.as_str()).as_str());
        s.append("}");
        s
    }
}

/// `{"<tag>":<body>}`: the form of a variant that carries a value.
pub open spec fn tagged(tag: Seq<char>, body: Seq<char>) -> Seq<char> {
    "{\""@ + tag + "\":"@ + body + "}"@
}

pub(crate) fn wrap_tagged(tag: &str, body: String) -> (r: String)
    ensures
        r@ == tagged(tag@, body@),
{
    let mut s = String::from_str("{\"");
    s.append(tag);
    s.append("\":");
    s.append(body.as_str());
    s.append("}");
    s
}

impl DeviceMessage {
    /// The JSON wire form: a variant without data is its name as a string,
    /// a variant with data is an object whose one key is the name.
    pub open spec fn json(self) -> Seq<char> {
        match self {
            DeviceMessage::Register(p) => tagged("Register"@, p.json()),
            DeviceMessage::Offer(d) => tagged("Offer"@, d.json()),
            DeviceMessage::Answer(d) => tagged("Answer"@, d.json()),
            DeviceMessage::Quit => "\"Quit\""@,
            DeviceMessage::ListUsersRequest => "\"ListUsersRequest\""@,
            DeviceMessage::ListUsersResponse(s) => tagged("ListUsersResponse"@, json_quoted(s@)),
            DeviceMessage::Registered(d) => tagged("Registered"@, d.json()),
            DeviceMessage::Echo(s) => tagged("Echo"@, json_quoted(s@)),
            DeviceMessage::Unknown => "\"Unknown\""@,
        }
    }

    pub fn to_json(&self) -> (r: String)
        ensures
            r@ == self.json(),
    {
        match self {
            DeviceMessage::Register(p) => wrap_tagged("Register", p.to_json()),
            DeviceMessage::Offer(d) => wrap_tagged("Offer", d.to_json()),
            DeviceMessage::Answer(d) => wrap_tagged("Answer", d.to_json()),
            DeviceMessage::Quit => String::from_str("\"Quit\""),
            DeviceMessage::ListUsersRequest => String::from_str("\"ListUsersRequest\""),
            DeviceMessage::ListUsersResponse(s) => wrap_tagged(
                "ListUsersResponse",
                quote(s.as_str()),
            ),
            DeviceMessage::Registered(d) => wrap_tagged("Registered", d.to_json()),
            DeviceMessage::Echo(s) => wrap_tagged("Echo", quote(s.as_str())),
            DeviceMessage::Unknown => String::from_str("\"Unknown\""),
        }
    }
}

} // verus!
