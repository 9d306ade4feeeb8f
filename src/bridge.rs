//! The crossing point between the store's delivery threads and the frame loop.
//!
//! Delivery threads push `UncbMessage`s into an unbounded channel; once per
//! frame the simulation drains everything that is queued, in arrival order.
use vstd::prelude::*;
use futures_channel::mpsc::{TryRecvError, UnboundedReceiver};
use crate::model::{EntityComponent, Identity, PlayerComponent};

verus! {

/// futures_channel's unbounded receiver, carried as an opaque value.
#[verifier::external_type_specification]
#[verifier::external_body]
#[verifier::reject_recursive_types(T)]
pub struct ExUnboundedReceiver<T>(UnboundedReceiver<T>);

/// A notification from the remote table store, or a session lifecycle event.
#[derive(Debug)]
#[allow(inconsistent_fields)]
pub enum UncbMessage {
    /// The handshake finished; `identity` is this session's own identity.
    Connected { identity: Identity },
    /// The connection to the store is gone.
    Disconnected,
    PlayerInserted { data: PlayerComponent },
    PlayerUpdated { old: PlayerComponent, new: PlayerComponent },
    PlayerRemoved { data: PlayerComponent },
    EntityInserted { data: EntityComponent },
    EntityUpdated { old: EntityComponent, new: EntityComponent },
    EntityRemoved { data: EntityComponent },
}

/// The outcome of one non-blocking poll of the channel.
#[derive(Debug)]
pub enum Received {
    Message(UncbMessage),
    Empty,
    Closed,
}

/// Whether the receiver has reported the end of the stream: every sender is
/// gone and the queue is drained. The receiver keeps this state itself; no
/// delivery thread changes it.
pub uninterp spec fn terminated(r: UnboundedReceiver<UncbMessage>) -> bool;

/// Relies on futures_channel::mpsc::UnboundedReceiver::try_recv: it never blocks,
/// and yields the oldest queued message, or says that none is queued (`Empty`)
/// or that none is queued and every sender is gone (`Closed`). Which of these
/// comes back depends on the delivery threads. Once the end has been reported
/// the receiver drops its channel and reports `Closed` ever after; it reports
/// `Closed` exactly when it ends in that state.
#[verifier::external_body]
fn try_receive(recv: &mut UnboundedReceiver<UncbMessage>) -> (r: Received)
    ensures
        terminated(*old(recv)) ==> r is Closed,
        (r is Closed) == terminated(*final(recv)),
{
    match recv.try_recv() {
        Ok(message) => Received::Message(message),
        Err(TryRecvError::Empty) => Received::Empty,
        Err(TryRecvError::Closed) => Received::Closed,
    }
}

/// Folds one poll outcome into the frame's batch. A closed channel is reported
/// as a final `Disconnected`, so that it takes the disconnect path. Returns
/// whether to keep polling.
pub fn absorb(batch: &mut Vec<UncbMessage>, received: Received) -> (more: bool)
    requires
        old(batch)@.len() < usize::MAX,
    ensures
        match received {
            Received::Message(m) => more && final(batch)@ == old(batch)@.push(m),
            Received::Empty => !more && final(batch)@ == old(batch)@,
            Received::Closed => !more && final(batch)@ == old(batch)@.push(UncbMessage::Disconnected),
        },
{
    match received {
        Received::Message(m) => {
            batch.push(m);
            true
        },
        Received::Empty => false,
        Received::Closed => {
            batch.push(UncbMessage::Disconnected);
            false
        },
    }
}

/// The batch that a sequence of poll outcomes builds, folded as `absorb` does.
pub open spec fn drained(polls: Seq<Received>) -> Seq<UncbMessage>
    decreases polls.len(),
{
    if polls.len() == 0 {
        Seq::empty()
    } else {
        let prev = drained(polls.drop_last());
        match polls.last() {
            Received::Message(m) => prev.push(m),
            Received::Empty => prev,
            Received::Closed => prev.push(UncbMessage::Disconnected),
        }
    }
}

/// The receiving half of the bridge, owned by the simulation thread.
pub struct UncbReceiver {
    pub recv: UnboundedReceiver<UncbMessage>,
}

impl UncbReceiver {
    pub fn new(recv: UnboundedReceiver<UncbMessage>) -> (r: UncbReceiver)
        ensures
            r.recv == recv,
    {
        UncbReceiver { recv }
    }

    /// Takes every message queued since the last call, oldest first, without
    /// blocking. The second result is the sequence of poll outcomes of this
    /// call: every one but the last delivered a message, and the last one
    /// found the queue empty or closed (unless the batch reached the largest
    /// length a vector can have). The batch is exactly what those polls
    /// returned, in order, with a closed channel reported as a final
    /// `Disconnected`; so an open, empty channel gives an empty batch, and no
    /// message appears in two batches.
    pub fn process_messages(&mut self) -> (r: (Vec<UncbMessage>, Ghost<Seq<Received>>))
        ensures
            r.0@ == drained(r.1@),
            forall|k: int| 0 <= k < r.1@.len() - 1 ==> #[trigger] r.1@[k] is Message,
            r.0@.len() < usize::MAX ==> r.1@.len() > 0 && !(r.1@.last() is Message),
            terminated(old(self).recv) ==> r.0@ == seq![UncbMessage::Disconnected],
            terminated(final(self).recv) ==> r.0@.len() > 0 && r.0@.last() is Disconnected,
    {
        let ghost start = self.recv;
        let ghost mut polls: Seq<Received> = Seq::empty();
        let mut batch: Vec<UncbMessage> = Vec::new();
        loop
            invariant_except_break
                batch@.len() == 0 ==> self.recv == start,
                batch@.len() > 0 ==> !terminated(self.recv),
                terminated(start) ==> batch@.len() == 0,
                forall|k: int| 0 <= k < polls.len() ==> #[trigger] polls[k] is Message,
            invariant
                batch@.len() <= usize::MAX,
                batch@ == drained(polls),
            ensures
                terminated(start) ==> batch@ == seq![UncbMessage::Disconnected],
                terminated(self.recv) ==> batch@.len() > 0 && batch@.last() is Disconnected,
                forall|k: int| 0 <= k < polls.len() - 1 ==> #[trigger] polls[k] is Message,
                batch@.len() < usize::MAX ==> polls.len() > 0 && !(polls.last() is Message),
            decreases usize::MAX - batch@.len(),
        {
            if batch.len() == usize::MAX {
                break;
            }
            let received = try_receive(&mut self.recv);
            let ghost outcome = received;
            let ghost before = polls;
            proof {
                polls = polls.push(outcome);
                assert(polls.drop_last() =~= before);
            }
            if !absorb(&mut batch, received) {
                proof {
                    if terminated(start) {
                        assert(batch@ =~= seq![UncbMessage::Disconnected]);
                    }
                }
                break;
            }
        }
        (batch, Ghost(polls))
    }
}

} // verus!
