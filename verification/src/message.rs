//! The message value carried from the bus to the sessions.

use vstd::prelude::*;

verus! {

/// The mathematical content of a message: its subject and its payload,
/// each as a sequence of characters.
pub struct MessageData {
    pub subject: Seq<char>,
    pub payload: Seq<char>,
}

/// An immutable message: a dot-delimited subject and a text payload.
pub struct Message {
    pub subject: String,
    pub payload: String,
}

impl View for Message {
    type V = MessageData;

    open spec fn view(&self) -> MessageData {
        MessageData { subject: self.subject@, payload: self.payload@ }
    }
}

impl Clone for Message {
    fn clone(&self) -> (r: Self)
        ensures
            r@ == self@,
    {
        Message { subject: self.subject.clone(), payload: self.payload.clone() }
    }
}

/// The text that a byte sequence decodes to when every invalid sequence
/// is replaced rather than rejected: a function of the bytes alone.
pub uninterp spec fn lossy_utf8(bytes: Seq<u8>) -> Seq<char>;

/// Relies on `String::from_utf8_lossy`: the decoded text depends on the
/// bytes alone, and invalid sequences are replaced, never fatal.
#[verifier::external_body]
fn decode_lossy(bytes: &Vec<u8>) -> (r: String)
    ensures
        r@ == lossy_utf8(bytes@),
{
    String::from_utf8_lossy(bytes).into_owned()
}

impl Message {
    /// Build the message for one inbound bus message: the subject as the
    /// bus gave it, the payload decoded permissively from its bytes.
    pub fn from_bus(subject: String, payload: Vec<u8>) -> (m: Message)
        ensures
            m@.subject == subject@,
            m@.payload == lossy_utf8(payload@),
    {
        let payload = decode_lossy(&payload);
        Message { subject, payload }
    }
}

} // verus!
