//! The inbound command queue: an unbounded FIFO channel carrying decoded
//! commands from the host listener into the tick-side drain.  It is backed
//! by a crossbeam channel, whose two handles the queue owns for the life of
//! the bridge; neither end ever blocks.

use vstd::prelude::*;
use crate::messages::{Command, CommandView};

verus! {

#[verifier::external_type_specification]
#[verifier::external_body]
#[verifier::reject_recursive_types(T)]
pub struct ExSender<T>(crossbeam::channel::Sender<T>);

#[verifier::external_type_specification]
#[verifier::external_body]
#[verifier::reject_recursive_types(T)]
pub struct ExReceiver<T>(crossbeam::channel::Receiver<T>);

/// The queue of decoded commands awaiting the simulation, holding both ends
/// of the channel: the listener's producer handle and the drain's consumer
/// handle.
pub struct InboundQueue {
    tx: crossbeam::channel::Sender<Command>,
    rx: crossbeam::channel::Receiver<Command>,
}

/// The commands in the queue, oldest first.
pub uninterp spec fn queue_contents(q: InboundQueue) -> Seq<Command>;

/// The views of the queued commands, oldest first.
pub open spec fn queue_views(q: InboundQueue) -> Seq<CommandView> {
    queue_contents(q).map_values(|c: Command| c@)
}

impl InboundQueue {
    /// Relies on `crossbeam::channel::unbounded`: a newly created channel
    /// holds no messages.
    #[verifier::external_body]
    pub fn new() -> (q: InboundQueue)
        ensures
            queue_contents(q) == Seq::<Command>::empty(),
    {
        let (tx, rx) = crossbeam::channel::unbounded();
        InboundQueue { tx, rx }
    }

    /// Relies on `crossbeam::channel::Sender::send` on an unbounded channel:
    /// it appends the message at the tail without blocking, and cannot
    /// report disconnection while the queue holds its own receiver.
    #[verifier::external_body]
    pub fn push(&mut self, c: Command)
        ensures
            queue_contents(*final(self)) == queue_contents(*old(self)).push(c),
    {
        let _ = self.tx.send(c);
    }

    /// Relies on `crossbeam::channel::Receiver::try_recv`: it takes the
    /// message at the head without blocking, or reports the channel empty;
    /// disconnection cannot be reported while the queue holds its own
    /// sender.
    #[verifier::external_body]
    pub fn try_pop(&mut self) -> (r: Option<Command>)
        ensures
            match r {
                Some(c) => queue_contents(*old(self)).len() > 0 && c == queue_contents(
                    *old(self),
                )[0] && queue_contents(*final(self)) == queue_contents(*old(self)).drop_first(),
                None => queue_contents(*old(self)).len() == 0 && queue_contents(*final(self))
                    == queue_contents(*old(self)),
            },
    {
        match self.rx.try_recv() {
            Ok(c) => Some(c),
            Err(_) => None,
        }
    }

    /// Relies on `crossbeam::channel::Receiver::len`: the number of messages
    /// currently in the channel.
    #[verifier::external_body]
    pub fn len(&self) -> (n: usize)
        ensures
            n == queue_contents(*self).len(),
    {
        self.rx.len()
    }
}

} // verus!
