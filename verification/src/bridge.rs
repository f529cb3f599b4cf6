//! The bridge lifecycle: one object, created once at startup, owning the
//! inbound queue's handles and the context identities.  Its methods are the
//! decision cores of the three per-tick duties: the host listener's
//! decode-and-enqueue step, the tick-side drain, and the outbound forwarder
//! with its self-echo guard.

use vstd::prelude::*;
use crate::decode::{
    enqueued_views, native_outcome, native_strategy, outcome_view, text_outcome, text_strategy,
};
use crate::messages::{Command, CommandView, DecodeError, HostValue, PostEvent};
use crate::queue::{queue_contents, queue_views, InboundQueue};
use crate::wire::{encode_event, encode_event_wire};

verus! {

/// Identities of the execution contexts the bridge can see: its own, and
/// the top-level ancestor context, when the host exposes one.  Contexts are
/// compared by identity only.
#[derive(Clone, Copy)]
pub struct HostContext {
    /// The context the bridge itself runs in.
    pub current: u64,
    /// The top-level ancestor context, if any.
    pub ancestor: Option<u64>,
}

/// Where an outbound event must go: to the ancestor exactly when one exists
/// and differs from the bridge's own context; nowhere otherwise.
pub open spec fn forward_target(ctx: HostContext) -> Option<u64> {
    match ctx.ancestor {
        Some(a) => if a != ctx.current {
            Some(a)
        } else {
            None
        },
        None => None,
    }
}

/// Law (self-echo guard): when the ancestor context resolves to the
/// bridge's own context — or no ancestor exists — there is no forwarding
/// target, so forwarding an event produces no send at all.
pub proof fn lemma_self_echo_guard(ctx: HostContext)
    requires
        ctx.ancestor is None || ctx.ancestor == Some(ctx.current),
    ensures
        forward_target(ctx) is None,
{
}

/// What both decode strategies did with one inbound delivery.  Failures are
/// observability data: they are reported here and nowhere else.
pub struct DecodeReport {
    /// The string-JSON strategy's result.
    pub text: Result<Command, DecodeError>,
    /// The native-structure strategy's result.
    pub native: Result<Command, DecodeError>,
}

/// The bridge's process-wide state, created once at startup.
pub struct Bridge {
    /// The inbound command queue shared by listener and drain.
    pub queue: InboundQueue,
    /// The context identities read once at startup.
    pub context: HostContext,
}

impl Bridge {
    /// Sets up a bridge with an empty inbound queue.
    pub fn new(context: HostContext) -> (b: Bridge)
        ensures
            queue_contents(b.queue) == Seq::<Command>::empty(),
            b.context == context,
    {
        Bridge { queue: InboundQueue::new(), context }
    }

    /// Handles one raw inbound value, as the host listener does: both decode
    /// strategies are attempted, in order, every success is enqueued
    /// immediately, and both outcomes are reported.  A malformed delivery
    /// enqueues nothing and is only reported.
    pub fn accept_inbound(&mut self, v: &HostValue) -> (r: DecodeReport)
        ensures
            outcome_view(r.text) == text_outcome(v@),
            outcome_view(r.native) == native_outcome(v@),
            queue_views(final(self).queue) == queue_views(old(self).queue) + enqueued_views(v@),
            final(self).context == old(self).context,
    {
        let text = text_strategy(v);
        let ghost mid0 = self.queue;
        if let Ok(c) = &text {
            self.queue.push(c.clone());
            proof {
                assert(queue_views(self.queue) =~= queue_views(mid0) + seq![c@]);
            }
        }
        let ghost mid1 = self.queue;
        let native = native_strategy(v);
        if let Ok(c) = &native {
            self.queue.push(c.clone());
            proof {
                assert(queue_views(self.queue) =~= queue_views(mid1) + seq![c@]);
            }
        }
        proof {
            assert(queue_views(self.queue) =~= queue_views(old(self).queue) + enqueued_views(v@));
        }
        DecodeReport { text, native }
    }

    /// Drains at most one command per tick, in arrival order: the oldest
    /// queued command when any is waiting, `None` when the queue is idle.
    /// The deliberate one-per-tick cap keeps the drain non-blocking.
    pub fn drain_one(&mut self) -> (r: Option<Command>)
        ensures
            final(self).context == old(self).context,
            match r {
                Some(c) => queue_contents(old(self).queue).len() > 0 && c == queue_contents(
                    old(self).queue,
                )[0] && queue_contents(final(self).queue) == queue_contents(
                    old(self).queue,
                ).drop_first(),
                None => queue_contents(old(self).queue).len() == 0 && queue_contents(
                    final(self).queue,
                ) == queue_contents(old(self).queue),
            },
    {
        self.queue.try_pop()
    }

    /// How many commands are waiting to be drained.
    pub fn pending(&self) -> (n: usize)
        ensures
            n == queue_contents(self.queue).len(),
    {
        self.queue.len()
    }

    /// Plans the forwarding of one outbound event: the target context and
    /// the encoded wire text, or `None` when the self-echo guard suppresses
    /// the send.
    pub fn forward(&self, e: &PostEvent) -> (r: Option<(u64, String)>)
        ensures
            match r {
                Some(d) => forward_target(self.context) == Some(d.0) && d.1@ == encode_event(e@),
                None => forward_target(self.context) is None,
            },
    {
        match self.context.ancestor {
            Some(a) => {
                if a != self.context.current {
                    Some((a, encode_event_wire(e)))
                } else {
                    None
                }
            }
            None => None,
        }
    }

    /// Plans one tick's outbound forwarding: every event is encoded and
    /// addressed independently, so one failing send cannot block the
    /// others; the self-echo guard suppresses the whole batch.
    pub fn forward_all(&self, events: &Vec<PostEvent>) -> (r: Vec<(u64, String)>)
        ensures
            forward_target(self.context) is None ==> r@.len() == 0,
            forward_target(self.context) is Some ==> r@.len() == events@.len() && (forall|i: int|
                0 <= i < r@.len() ==> forward_target(self.context) == Some(r@[i].0) && r@[i].1@
                    == encode_event(events@[i]@)),
    {
        let mut out: Vec<(u64, String)> = Vec::new();
        let mut i: usize = 0;
        while i < events.len()
            invariant
                i <= events@.len(),
                forward_target(self.context) is None ==> out@.len() == 0,
                forward_target(self.context) is Some ==> out@.len() == i && (forall|k: int|
                    0 <= k < i ==> forward_target(self.context) == Some(out@[k].0) && out@[k].1@
                        == encode_event(events@[k]@)),
            decreases events@.len() - i,
        {
            match self.forward(&events[i]) {
                Some(d) => out.push(d),
                None => {}
            }
            i = i + 1;
        }
        out
    }
}

} // verus!
