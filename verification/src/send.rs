//! The send unit: the state machine for one connection's writer half.
//!
//! The runtime drains the outbound channel of one connection and, per
//! message, asks the unit what to do: the unit orders the write, then
//! consumes the observed result of the write-and-flush.  A failed write
//! yields one disconnect report and ends the unit; messages still queued
//! behind the failing one are never ordered written.  The outbound channel
//! closing ends the unit quietly, with no disconnect report of its own.

use vstd::prelude::*;
use vstd::pervasive::unreached;
use crate::message::Message;

verus! {

/// What the runtime must do next for one connection's writer half.
pub enum SendAction {
    /// Write this message to the writer half and flush, then report the
    /// outcome back to the unit.
    Write(Message),
    /// The write succeeded: await the next outbound message.
    Proceed,
    /// The write failed: invoke the disconnect callback; the unit has
    /// ended and no further message is written.
    Disconnect,
}

/// Where the unit stands between events.
#[derive(Clone, Copy, PartialEq, Eq, Structural, Debug)]
pub enum SendPhase {
    /// Awaiting the next outbound message.
    Awaiting,
    /// A write was ordered; awaiting its outcome.
    Writing,
    /// The unit has ended: the channel closed or a write failed.
    Done,
}

/// The state machine for one connection's writer half.
pub struct SendUnit {
    phase: SendPhase,
}

impl SendUnit {
    /// Where the unit stands.
    pub closed spec fn phase(&self) -> SendPhase {
        self.phase
    }

    /// A fresh unit for a newly routed writer half.
    pub fn new() -> (r: Self)
        ensures
            r.phase() is Awaiting,
    {
        SendUnit { phase: SendPhase::Awaiting }
    }

    /// The next outbound message arrived: the unit orders it written,
    /// unchanged, and awaits the outcome.
    pub fn on_outbound(&mut self, m: Message) -> (act: SendAction)
        requires
            old(self).phase() is Awaiting,
        ensures
            act == SendAction::Write(m),
            final(self).phase() is Writing,
    {
        self.phase = SendPhase::Writing;
        SendAction::Write(m)
    }

    /// The outcome of the ordered write-and-flush: on success the unit
    /// awaits the next message; on failure it reports the one disconnect
    /// and ends, so no later message can be ordered written.
    pub fn on_write_result(&mut self, ok: bool) -> (act: SendAction)
        requires
            old(self).phase() is Writing,
        ensures
            ok ==> act == SendAction::Proceed && final(self).phase() is Awaiting,
            !ok ==> act == SendAction::Disconnect && final(self).phase() is Done,
    {
        if ok {
            self.phase = SendPhase::Awaiting;
            SendAction::Proceed
        } else {
            self.phase = SendPhase::Done;
            SendAction::Disconnect
        }
    }

    /// Where the unit stands, for the runtime to consult between events.
    pub fn current_phase(&self) -> (p: SendPhase)
        ensures
            p == self.phase(),
    {
        self.phase
    }

    /// The outbound channel closed with no failure: the unit ends quietly.
    pub fn on_channel_closed(&mut self)
        requires
            old(self).phase() is Awaiting,
        ensures
            final(self).phase() is Done,
    {
        self.phase = SendPhase::Done;
    }
}

/// The index of the first failed write outcome, or the length when every
/// write succeeds.
pub open spec fn first_failure(oks: Seq<bool>) -> int
    decreases oks.len(),
{
    if oks.len() == 0 {
        0
    } else if !oks[0] {
        0
    } else {
        1 + first_failure(oks.drop_first())
    }
}

/// The messages that reach the wire when `msgs` are enqueued in order and
/// the i-th attempted write succeeds exactly when `oks[i]` holds: the
/// prefix before the first failure.
pub open spec fn wire_delivery(msgs: Seq<Message>, oks: Seq<bool>) -> Seq<Message> {
    msgs.take(if first_failure(oks) <= msgs.len() {
        first_failure(oks)
    } else {
        msgs.len() as int
    })
}

pub proof fn lemma_first_failure_bounds(oks: Seq<bool>)
    ensures
        0 <= first_failure(oks) <= oks.len(),
        forall|j: int| 0 <= j < first_failure(oks) ==> oks[j] == true,
        first_failure(oks) < oks.len() ==> oks[first_failure(oks)] == false,
    decreases oks.len(),
{
    if oks.len() > 0 && oks[0] {
        lemma_first_failure_bounds(oks.drop_first());
        assert forall|j: int| 0 <= j < first_failure(oks) implies oks[j] == true by {
            if j > 0 {
                assert(oks.drop_first()[j - 1] == oks[j]);
            }
        }
    }
}

/// Law: outbound messages reach the wire in enqueue order, as a prefix of
/// the queue; once a write fails, no message enqueued after the failing one
/// is delivered.
pub proof fn lemma_send_order_and_cutoff(msgs: Seq<Message>, oks: Seq<bool>)
    requires
        msgs.len() == oks.len(),
    ensures
        wire_delivery(msgs, oks).len() <= msgs.len(),
        forall|i: int| 0 <= i < wire_delivery(msgs, oks).len() ==> wire_delivery(msgs, oks)[i]
            == msgs[i],
        first_failure(oks) < msgs.len() ==> wire_delivery(msgs, oks).len() == first_failure(oks),
{
    lemma_first_failure_bounds(oks);
}

/// The send path's outcome for one connection: what reached the wire, and
/// whether a write failure forced a disconnect.
pub struct SendOutcome {
    /// The messages written and flushed successfully, in enqueue order.
    pub written: Vec<Message>,
    /// Whether a write failed, forcing the one disconnect report.
    pub disconnected: bool,
}

/// Drain one connection's outbound queue: feed a fresh unit each message in
/// order, writing until a write fails or the queue is exhausted.  `oks[i]`
/// is the outcome the writer half gives the i-th attempted write; the unit
/// is verified for every such outcome.
pub fn drain_outbound(msgs: Vec<Message>, oks: &Vec<bool>) -> (out: SendOutcome)
    requires
        msgs@.len() == oks@.len(),
    ensures
        out.written@ == wire_delivery(msgs@, oks@),
        out.disconnected == (first_failure(oks@) < oks@.len()),
{
    proof {
        lemma_first_failure_bounds(oks@);
    }
    let ghost m0 = msgs@;
    let mut queue = msgs;
    let mut unit = SendUnit::new();
    let mut written: Vec<Message> = Vec::new();
    let mut i: usize = 0;
    while i < oks.len()
        invariant
            m0 == msgs@,
            msgs@.len() == oks@.len(),
            0 <= i <= oks@.len(),
            queue@ == msgs@.skip(i as int),
            unit.phase() is Awaiting,
            written@ == msgs@.take(i as int),
            forall|j: int| 0 <= j < i ==> oks@[j] == true,
        decreases oks@.len() - i,
    {
        let ghost pending = queue@;
        let msg = queue.remove(0);
        proof {
            assert(pending.drop_first() =~= msgs@.skip(i as int + 1));
            assert(msg == msgs@[i as int]);
        }
        let act = unit.on_outbound(msg);
        let m = (match act {
            SendAction::Write(m) => m,
            _ => unreached(),
        });
        let ok = oks[i];
        let res = unit.on_write_result(ok);
        if ok {
            written.push(m);
            i = i + 1;
            proof {
                assert(written@ =~= msgs@.take(i as int));
            }
        } else {
            proof {
                lemma_first_failure_is(oks@, i as int);
                assert(written@ =~= wire_delivery(msgs@, oks@));
            }
            return SendOutcome { written, disconnected: true };
        }
    }
    proof {
        lemma_first_failure_all_ok(oks@);
        assert(written@ =~= wire_delivery(msgs@, oks@));
    }
    SendOutcome { written, disconnected: false }
}

/// The first failure is at `i` when every earlier write succeeded and the
/// write at `i` failed.
pub proof fn lemma_first_failure_is(oks: Seq<bool>, i: int)
    requires
        0 <= i < oks.len(),
        forall|j: int| 0 <= j < i ==> oks[j] == true,
        oks[i] == false,
    ensures
        first_failure(oks) == i,
    decreases i,
{
    if i > 0 {
        assert(oks[0] == true);
        assert forall|j: int| 0 <= j < i - 1 implies oks.drop_first()[j] == true by {
            assert(oks.drop_first()[j] == oks[j + 1]);
        }
        assert(oks.drop_first()[i - 1] == oks[i]);
        lemma_first_failure_is(oks.drop_first(), i - 1);
    }
}

/// There is no failure when every write succeeded.
pub proof fn lemma_first_failure_all_ok(oks: Seq<bool>)
    requires
        forall|j: int| 0 <= j < oks.len() ==> oks[j] == true,
    ensures
        first_failure(oks) == oks.len(),
    decreases oks.len(),
{
    if oks.len() > 0 {
        assert forall|j: int| 0 <= j < oks.drop_first().len() implies oks.drop_first()[j]
            == true by {
            assert(oks.drop_first()[j] == oks[j + 1]);
        }
        lemma_first_failure_all_ok(oks.drop_first());
    }
}

} // verus!
