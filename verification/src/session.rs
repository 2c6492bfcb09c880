//! The per-message logic of a client session: apply the session's filter
//! to a message and, on a match, format the outbound text frame.

use vstd::prelude::*;
use vstd::string::StringExecFns;

use crate::matcher::matches_filter;
use crate::matcher::spec_matches;
use crate::message::Message;
use crate::message::MessageData;

verus! {

/// The outbound wire shape of a forwarded message: one text frame,
/// `Subject: <subject>, Payload: <payload>`, with no escaping.
pub open spec fn wire_format(m: MessageData) -> Seq<char> {
    "Subject: "@ + m.subject + ", Payload: "@ + m.payload
}

/// Format one message as its outbound text frame.
pub fn format_frame(msg: &Message) -> (r: String)
    ensures
        r@ == wire_format(msg@),
{
    let mut out = String::from_str("Subject: ");
    out.append(msg.subject.as_str());
    out.append(", Payload: ");
    out.append(msg.payload.as_str());
    proof {
        assert(out@ =~= wire_format(msg@));
    }
    out
}

/// One step of a session: the frame to send for a received message, or
/// nothing exactly when the session's filter does not match the
/// message's subject.
pub fn session_frame(filter: &str, msg: &Message) -> (r: Option<String>)
    ensures
        r is Some <==> spec_matches(filter@, msg@.subject),
        match r {
            Some(frame) => frame@ == wire_format(msg@),
            None => true,
        },
{
    if matches_filter(filter, msg.subject.as_str()) {
        Some(format_frame(msg))
    } else {
        None
    }
}

} // verus!
