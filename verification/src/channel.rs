use crate::mixer::MixerData;
use tokio::sync::mpsc::error::TryRecvError;
use tokio::sync::mpsc::UnboundedReceiver;
use vstd::prelude::*;

verus! {

/// The receiving half of tokio's unbounded channel. Nothing is known of
/// what it holds.
#[verifier::external_type_specification]
#[verifier::external_body]
#[verifier::reject_recursive_types(T)]
pub struct ExUnboundedReceiver<T>(UnboundedReceiver<T>);

/// What one look into the ingestion channel found.
pub enum Received {
    /// The oldest chunk that was queued.
    Chunk(MixerData),
    /// Nothing is queued, and a sender is still there.
    Empty,
    /// Nothing is queued, and every sender is gone.
    Closed,
}

/// Calls tokio's `UnboundedReceiver::try_recv`, which never waits for a
/// chunk to be sent. What comes back depends on the senders, so nothing is
/// claimed of it.
#[verifier::external_body]
pub(crate) fn try_receive(rx: &mut UnboundedReceiver<MixerData>) -> (received: Received) {
    match rx.try_recv() {
        Ok(data) => Received::Chunk(data),
        Err(TryRecvError::Empty) => Received::Empty,
        Err(TryRecvError::Disconnected) => Received::Closed,
    }
}

/// Calls tokio's `UnboundedReceiver::len`: the number of chunks queued at
/// the moment of the call. Senders may add to it at any time, so nothing is
/// claimed of it.
#[verifier::external_body]
pub(crate) fn queued(rx: &UnboundedReceiver<MixerData>) -> (count: usize) {
    rx.len()
}

/// Takes note of what one look into the channel found. A chunk goes to the
/// end of the batch, and the looking goes on: the result is `None`. An
/// empty or a closed channel leaves the batch as it is and ends the looking:
/// the result says whether the channel is closed for good.
pub fn note_received(batch: &mut Vec<MixerData>, received: Received) -> (end: Option<bool>)
    ensures
        match received {
            Received::Chunk(data) => final(batch)@ == old(batch)@.push(data) && end is None,
            Received::Empty => final(batch)@ == old(batch)@ && end == Some(false),
            Received::Closed => final(batch)@ == old(batch)@ && end == Some(true),
        },
{
    match received {
        Received::Chunk(data) => {
            batch.push(data);
            None
        },
        Received::Empty => Some(false),
        Received::Closed => Some(true),
    }
}

} // verus!
