//! The per-message logic of the upstream ingestor: turn one inbound bus
//! message into a `Message` and publish it to the hub.

use vstd::prelude::*;

use crate::hub::Hub;
use crate::hub::pending_after_publish;
use crate::message::Message;
use crate::message::MessageData;
use crate::message::lossy_utf8;

verus! {

/// Ingest one bus message: the subject as the bus gave it, the payload
/// decoded permissively, published to every handle of the hub.
pub fn ingest_bus_message(hub: &mut Hub, subject: String, payload: Vec<u8>)
    requires
        old(hub).inv(),
        old(hub).history().len() < usize::MAX,
    ensures
        final(hub).inv(),
        final(hub).history() == old(hub).history().push(
            MessageData { subject: subject@, payload: lossy_utf8(payload@) },
        ),
        final(hub).cap() == old(hub).cap(),
        final(hub).num_handles() == old(hub).num_handles(),
        forall|h: int|
            0 <= h < old(hub).num_handles() ==> final(hub).pending(h) == pending_after_publish(
                old(hub).pending(h),
                MessageData { subject: subject@, payload: lossy_utf8(payload@) },
                old(hub).cap(),
            ),
{
    let m = Message::from_bus(subject, payload);
    hub.publish(m);
}

} // verus!
