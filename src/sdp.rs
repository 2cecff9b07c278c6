//! Session descriptions: the offer/answer payloads that peers exchange.

use vstd::prelude::*;
use crate::json::{json_quoted, quote};

verus! {

/// Which half of the handshake a session description carries.
#[derive(Clone, Copy, Debug, PartialEq, Eq, Structural)]
pub enum SdpType {
    Offer,
    Answer,
}

impl SdpType {
    /// The JSON form: the variant's name as a string.
    pub open spec fn json(self) -> Seq<char> {
        match self {
            SdpType::Offer => "\"Offer\""@,
            SdpType::Answer => "\"Answer\""@,
        }
    }

    pub fn to_json(&self) -> (r: String)
        ensures
            r@ == self.json(),
    {
        match self {
            SdpType::Offer => String::from_str("\"Offer\""),
            SdpType::Answer => String::from_str("\"Answer\""),
        }
    }
}

/// One offer or answer sent from `sender` to `receiver`. The server never
/// reads `description`: it only stores and relays it.
#[derive(Clone, Debug)]
pub struct SessionDescription {
    pub sender: String,
    pub receiver: String,
    pub description: String,
    pub sdp_type: SdpType,
}

/// Length of the placeholder payload that `SessionDescription::random` draws.
pub const RANDOM_DESCRIPTION_LEN: usize = 16;

/// ASCII letters and digits.
pub open spec fn is_alphanumeric(c: char) -> bool {
    ('a' <= c && c <= 'z') || ('A' <= c && c <= 'Z') || ('0' <= c && c <= '9')
}

/// Relies on rand's `Alphanumeric` distribution sampled through
/// `SampleString::sample_string` with the thread-local generator: `len`
/// characters, each an ASCII letter or digit.
#[verifier::external_body]
pub(crate) fn random_alphanumeric(len: usize) -> (r: String)
    ensures
        r@.len() == len,
        forall|i: int| 0 <= i < r@.len() ==> is_alphanumeric(#[trigger] r@[i]),
{
    rand::distr::SampleString::sample_string(&rand::distr::Alphanumeric, &mut rand::rng(), len)
}

impl SessionDescription {
    /// The JSON form: an object with the four fields in declaration order.
    pub open spec fn json(self) -> Seq<char> {
        "{\"sender\":"@ + json_quoted(self.sender@) + ",\"receiver\":"@ + json_quoted(
            self.receiver@,
        ) + ",\"description\":"@ + json_quoted(self.description@) + ",\"sdp_type\":"@
            + self.sdp_type.json() + "}"@
    }

    /// Two descriptions are the same when every field is.
    pub open spec fn same(self, o: SessionDescription) -> bool {
        self.sender@ == o.sender@ && self.receiver@ == o.receiver@ && self.description@
            == o.description@ && self.sdp_type == o.sdp_type
    }

    pub fn new(sender: String, receiver: String, description: String, sdp_type: SdpType) -> (r:
        Self)
        ensures
            r.sender@ == sender@,
            r.receiver@ == receiver@,
            r.description@ == description@,
            r.sdp_type == sdp_type,
    {
        SessionDescription { sender, receiver, description, sdp_type }
    }

    pub fn description(&self) -> (r: String)
        ensures
            r@ == self.description@,
    {
        self.description.clone()
    }

    pub fn sender(&self) -> (r: String)
        ensures
            r@ == self.sender@,
    {
        self.sender.clone()
    }

    pub fn receiver(&self) -> (r: String)
        ensures
            r@ == self.receiver@,
    {
        self.receiver.clone()
    }

    pub fn to_json(&self) -> (r: String)
        ensures
            r@ == self.json(),
    {
        let mut s = String::from_str("{\"sender\":");
        s.append(quote(self.sender.as_str()).as_str());
        s.append(",\"receiver\":");
        s.append(quote(self.receiver.as_str()).as_str());
        s.append(",\"description\":");
        s.append(quote(self.description.as_str()).as_str());
        s.append(",\"sdp_type\":");
        s.append(self.sdp_type.to_json().as_str());
        s.append("}");
        s
    }

    pub fn is_offer(&self) -> (r: bool)
        ensures
            r == (self.sdp_type == SdpType::Offer),
    {
        matches!(self.sdp_type, SdpType::Offer)
    }

    pub fn is_answer(&self) -> (r: bool)
        ensures
            r == (self.sdp_type == SdpType::Answer),
    {
        matches!(self.sdp_type, SdpType::Answer)
    }

    /// A placeholder description with a freshly drawn payload of
    /// `RANDOM_DESCRIPTION_LEN` letters and digits.
    pub fn random(receiver: String, sender: String, sdp_type: SdpType) -> (r: Self)
        ensures
            r.sender@ == sender@,
            r.receiver@ == receiver@,
            r.sdp_type == sdp_type,
            r.description@.len() == RANDOM_DESCRIPTION_LEN,
            forall|i: int|
                0 <= i < r.description@.len() ==> is_alphanumeric(#[trigger] r.description@[i]),
    {
        let description = random_alphanumeric(RANDOM_DESCRIPTION_LEN);
        SessionDescription { receiver, sender, description, sdp_type }
    }
}

} // verus!
