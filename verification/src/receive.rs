//! The receive unit: the state machine for one connection's reader half.
//!
//! The runtime drains the reader half of one connection and feeds each
//! observed event — a decoded frame, or the stream failing — to a
//! [`ReceiveUnit`].  The unit decides, per event, which callback the
//! application receives: deliver the frame, or report a disconnect.  A close
//! frame ends the unit after exactly one disconnect report; so does a read
//! failure (the unit reports the disconnect rather than leaving the
//! application unaware that the connection ended).  Once ended, the unit
//! accepts no further events, so no callback for this connection can follow
//! its disconnect.

use vstd::prelude::*;
use crate::message::Message;

verus! {

/// One event observed on a reader half.
pub enum ReadEvent {
    /// The next decoded frame.
    Frame(Message),
    /// The underlying stream ended with an error (connection reset,
    /// protocol error) before a close frame was seen.
    Failed,
}

/// What the runtime must do with one reader event: the callback to invoke.
pub enum ReadAction {
    /// Invoke the message callback with this frame.
    Deliver(Message),
    /// Invoke the disconnect callback; the unit has ended.
    Disconnect,
}

/// The action a single reader event causes.
pub open spec fn read_action_of(ev: ReadEvent) -> ReadAction {
    match ev {
        ReadEvent::Frame(m) => if m.spec_is_close() {
            ReadAction::Disconnect
        } else {
            ReadAction::Deliver(m)
        },
        ReadEvent::Failed => ReadAction::Disconnect,
    }
}

/// Whether the unit keeps draining after this event.
pub open spec fn read_continues(ev: ReadEvent) -> bool {
    read_action_of(ev) is Deliver
}

/// The state machine for one connection's reader half.
pub struct ReceiveUnit {
    live: bool,
}

impl ReceiveUnit {
    /// Whether the unit is still draining its reader half.  A unit that is
    /// not live has reported its disconnect and accepts no further events.
    pub closed spec fn is_live(&self) -> bool {
        self.live
    }

    /// A fresh unit for a newly routed reader half.
    pub fn new() -> (r: Self)
        ensures
            r.is_live(),
    {
        ReceiveUnit { live: true }
    }

    /// Whether the unit is still draining, for the runtime to consult
    /// between events.
    pub fn live(&self) -> (r: bool)
        ensures
            r == self.is_live(),
    {
        self.live
    }

    /// Consume one reader event and return the callback it causes.
    ///
    /// A payload frame is delivered unchanged; a close frame or a read
    /// failure yields the one disconnect report, after which the unit is no
    /// longer live.
    pub fn on_event(&mut self, ev: ReadEvent) -> (act: ReadAction)
        requires
            old(self).is_live(),
        ensures
            act == read_action_of(ev),
            final(self).is_live() == read_continues(ev),
    {
        match ev {
            ReadEvent::Frame(m) => {
                if m.is_close() {
                    self.live = false;
                    ReadAction::Disconnect
                } else {
                    ReadAction::Deliver(m)
                }
            },
            ReadEvent::Failed => {
                self.live = false;
                ReadAction::Disconnect
            },
        }
    }
}

/// The callbacks a fresh unit produces when fed `evs` in order, stopping
/// when the unit ends.
pub open spec fn read_trace(evs: Seq<ReadEvent>) -> Seq<ReadAction>
    decreases evs.len(),
{
    if evs.len() == 0 {
        Seq::empty()
    } else if read_continues(evs[0]) {
        seq![read_action_of(evs[0])] + read_trace(evs.drop_first())
    } else {
        seq![ReadAction::Disconnect]
    }
}

/// Drain a reader half: feed a fresh unit every event in order until the
/// unit ends or the events run out, collecting the callbacks to invoke.
pub fn drain_reader(events: Vec<ReadEvent>) -> (acts: Vec<ReadAction>)
    ensures
        acts@ == read_trace(events@),
{
    let ghost evs0 = events@;
    let mut queue = events;
    let mut unit = ReceiveUnit::new();
    let mut acts: Vec<ReadAction> = Vec::new();
    while queue.len() > 0
        invariant
            unit.is_live(),
            evs0 == events@,
            read_trace(evs0) == acts@ + read_trace(queue@),
        decreases queue@.len(),
    {
        let ghost pending = queue@;
        let ev = queue.remove(0);
        proof {
            assert(pending.drop_first() =~= queue@);
        }
        let act = unit.on_event(ev);
        let stop = matches!(act, ReadAction::Disconnect);
        let ghost a0 = acts@;
        acts.push(act);
        if stop {
            proof {
                assert(acts@ =~= a0 + seq![ReadAction::Disconnect]);
                assert(acts@ =~= read_trace(evs0));
            }
            return acts;
        }
        proof {
            assert(acts@ =~= a0 + seq![read_action_of(pending[0])]);
            assert(acts@ + read_trace(queue@) =~= read_trace(evs0));
        }
    }
    proof {
        assert(acts@ + read_trace(queue@) =~= acts@);
        assert(acts@ =~= read_trace(evs0));
    }
    acts
}

/// Law: when the event at `k` is the first close frame or read failure,
/// the callbacks are exactly one delivery per earlier frame, in wire order
/// and at the same position, then one disconnect, and nothing after it.
pub proof fn lemma_disconnect_on_close(evs: Seq<ReadEvent>, k: int)
    requires
        0 <= k < evs.len(),
        forall|i: int| 0 <= i < k ==> read_continues(#[trigger] evs[i]),
        !read_continues(evs[k]),
    ensures
        read_trace(evs).len() == k + 1,
        forall|i: int| 0 <= i < k ==> read_trace(evs)[i] == read_action_of(#[trigger] evs[i]),
        forall|i: int| 0 <= i < k ==> read_trace(evs)[i] is Deliver,
        read_trace(evs)[k] == ReadAction::Disconnect,
    decreases k,
{
    if k == 0 {
        assert(read_trace(evs) == seq![ReadAction::Disconnect]);
    } else {
        let rest = evs.drop_first();
        assert forall|i: int| 0 <= i < k - 1 implies read_continues(#[trigger] rest[i]) by {
            assert(rest[i] == evs[i + 1]);
        }
        assert(rest[k - 1] == evs[k]);
        lemma_disconnect_on_close(rest, k - 1);
        assert(read_continues(evs[0]));
        assert(read_trace(evs) == seq![read_action_of(evs[0])] + read_trace(rest));
        assert forall|i: int| 0 <= i < k implies read_trace(evs)[i] == read_action_of(
            #[trigger] evs[i],
        ) && read_trace(evs)[i] is Deliver by {
            if i > 0 {
                assert(read_trace(evs)[i] == read_trace(rest)[i - 1]);
                assert(rest[i - 1] == evs[i]);
            }
        }
    }
}

/// Law: when no event ends the unit, every frame is delivered, in wire
/// order and at the same position, and no disconnect is ever reported.
pub proof fn lemma_all_delivered(evs: Seq<ReadEvent>)
    requires
        forall|i: int| 0 <= i < evs.len() ==> read_continues(#[trigger] evs[i]),
    ensures
        read_trace(evs).len() == evs.len(),
        forall|i: int| 0 <= i < evs.len() ==> read_trace(evs)[i] == read_action_of(
            #[trigger] evs[i],
        ),
        forall|i: int| 0 <= i < evs.len() ==> read_trace(evs)[i] is Deliver,
    decreases evs.len(),
{
    if evs.len() > 0 {
        let rest = evs.drop_first();
        assert forall|i: int| 0 <= i < rest.len() implies read_continues(#[trigger] rest[i]) by {
            assert(rest[i] == evs[i + 1]);
        }
        lemma_all_delivered(rest);
        assert forall|i: int| 0 <= i < evs.len() implies read_trace(evs)[i] == read_action_of(
            #[trigger] evs[i],
        ) && read_trace(evs)[i] is Deliver by {
            if i > 0 {
                assert(read_trace(evs)[i] == read_trace(rest)[i - 1]);
                assert(rest[i - 1] == evs[i]);
            }
        }
    }
}

} // verus!
