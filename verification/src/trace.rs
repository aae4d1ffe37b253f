//! The trace model: what any sequence of events does to the routing state.
//!
//! Each slot is reduced to the plain values routing depends on — whether
//! the connection was approved, the identity it was approved under, and
//! where its two units stand — and each event of the routing core becomes
//! a transition on the sequence of those views.  Every mutating method of
//! [`crate::server::ServerCore`] promises that it performs exactly one of
//! these transitions, so the laws proved here by induction over event
//! sequences hold of every run of the core: an identity never changes once
//! assigned, a rejected connection never sees an event take effect, and
//! events on one connection never change another.

use vstd::prelude::*;
use vstd::pervasive::arbitrary;
use crate::message::Message;
use crate::receive::{read_continues, ReadEvent};
use crate::send::SendPhase;

verus! {

/// One slot of the routing core, reduced to the plain values the trace
/// model tracks.
pub struct SlotView<Id> {
    /// Whether the connect callback approved the connection.
    pub active: bool,
    /// The identity it was approved under.
    pub id: Id,
    /// Whether its receive unit is still draining.
    pub recv_live: bool,
    /// Where its send unit stands.
    pub phase: SendPhase,
}

/// One event the runtime can feed the routing core.
pub enum CoreEvent<Id> {
    /// A handshake completed with the connect callback's verdict.
    Accept { verdict: Option<Id> },
    /// A reader event for one slot.
    Reader { slot: int, event: ReadEvent },
    /// The next outbound message for one slot.
    Outbound { slot: int, msg: Message },
    /// The outcome of the write the slot's send unit ordered.
    WriteResult { slot: int, ok: bool },
    /// One slot's outbound channel closed with no failure.
    OutboundClosed { slot: int },
}

/// The view a completed handshake adds: routed and fresh when approved,
/// dead on arrival when rejected.
pub open spec fn accept_view<Id>(verdict: Option<Id>) -> SlotView<Id> {
    match verdict {
        Some(id) => SlotView { active: true, id, recv_live: true, phase: SendPhase::Awaiting },
        None => SlotView {
            active: false,
            id: arbitrary(),
            recv_live: false,
            phase: SendPhase::Done,
        },
    }
}

/// What one event does to the routing state.  An event addressed to a slot
/// that cannot take it — out of range, rejected, or with the named unit
/// already ended or in the wrong phase — changes nothing.
pub open spec fn apply_event<Id>(vs: Seq<SlotView<Id>>, ev: CoreEvent<Id>) -> Seq<SlotView<Id>> {
    match ev {
        CoreEvent::Accept { verdict } => vs.push(accept_view(verdict)),
        CoreEvent::Reader { slot, event } => if 0 <= slot < vs.len() && vs[slot].active
            && vs[slot].recv_live {
            vs.update(
                slot,
                SlotView {
                    active: true,
                    id: vs[slot].id,
                    recv_live: read_continues(event),
                    phase: vs[slot].phase,
                },
            )
        } else {
            vs
        },
        CoreEvent::Outbound { slot, msg } => if 0 <= slot < vs.len() && vs[slot].active
            && vs[slot].phase is Awaiting {
            vs.update(
                slot,
                SlotView {
                    active: true,
                    id: vs[slot].id,
                    recv_live: vs[slot].recv_live,
                    phase: SendPhase::Writing,
                },
            )
        } else {
            vs
        },
        CoreEvent::WriteResult { slot, ok } => if 0 <= slot < vs.len() && vs[slot].active
            && vs[slot].phase is Writing {
            vs.update(
                slot,
                SlotView {
                    active: true,
                    id: vs[slot].id,
                    recv_live: vs[slot].recv_live,
                    phase: if ok {
                        SendPhase::Awaiting
                    } else {
                        SendPhase::Done
                    },
                },
            )
        } else {
            vs
        },
        CoreEvent::OutboundClosed { slot } => if 0 <= slot < vs.len() && vs[slot].active
            && vs[slot].phase is Awaiting {
            vs.update(
                slot,
                SlotView {
                    active: true,
                    id: vs[slot].id,
                    recv_live: vs[slot].recv_live,
                    phase: SendPhase::Done,
                },
            )
        } else {
            vs
        },
    }
}

/// The routing state after a whole sequence of events, first event first.
pub open spec fn apply_events<Id>(vs: Seq<SlotView<Id>>, evs: Seq<CoreEvent<Id>>) -> Seq<
    SlotView<Id>,
>
    decreases evs.len(),
{
    if evs.len() == 0 {
        vs
    } else {
        apply_events(apply_event(vs, evs[0]), evs.drop_first())
    }
}

/// Whether an event is addressed to slot `s`.  A completed handshake is
/// addressed to no existing slot: it only adds a new one.
pub open spec fn touches<Id>(ev: CoreEvent<Id>, s: int) -> bool {
    match ev {
        CoreEvent::Accept { .. } => false,
        CoreEvent::Reader { slot, .. } => slot == s,
        CoreEvent::Outbound { slot, .. } => slot == s,
        CoreEvent::WriteResult { slot, .. } => slot == s,
        CoreEvent::OutboundClosed { slot } => slot == s,
    }
}

/// Law: once a connection is routed under an identity, no sequence of
/// events — addressed to it or to any other connection — removes it or
/// changes that identity, so every callback attributed to the slot carries
/// the identity its connect callback returned.
pub proof fn lemma_identity_stable<Id>(vs: Seq<SlotView<Id>>, evs: Seq<CoreEvent<Id>>, s: int)
    requires
        0 <= s < vs.len(),
        vs[s].active,
    ensures
        apply_events(vs, evs).len() >= vs.len(),
        apply_events(vs, evs)[s].active,
        apply_events(vs, evs)[s].id == vs[s].id,
    decreases evs.len(),
{
    if evs.len() > 0 {
        let vs1 = apply_event(vs, evs[0]);
        assert(vs1.len() >= vs.len() && vs1[s].active && vs1[s].id == vs[s].id);
        lemma_identity_stable(vs1, evs.drop_first(), s);
    }
}

/// Law: a connection the connect callback rejected stays exactly as it
/// was under every sequence of events: no event ever takes effect on it,
/// so no callback is ever attributed to it.
pub proof fn lemma_rejected_never_routed<Id>(vs: Seq<SlotView<Id>>, evs: Seq<CoreEvent<Id>>, s: int)
    requires
        0 <= s < vs.len(),
        !vs[s].active,
    ensures
        apply_events(vs, evs).len() >= vs.len(),
        apply_events(vs, evs)[s] == vs[s],
    decreases evs.len(),
{
    if evs.len() > 0 {
        let vs1 = apply_event(vs, evs[0]);
        assert(vs1.len() >= vs.len() && vs1[s] == vs[s]);
        lemma_rejected_never_routed(vs1, evs.drop_first(), s);
    }
}

/// Law: events addressed to other connections — including every failure
/// on them — leave a connection's routing state exactly as it was.
pub proof fn lemma_isolation<Id>(vs: Seq<SlotView<Id>>, evs: Seq<CoreEvent<Id>>, s: int)
    requires
        0 <= s < vs.len(),
        forall|i: int| 0 <= i < evs.len() ==> !touches(#[trigger] evs[i], s),
    ensures
        apply_events(vs, evs).len() >= vs.len(),
        apply_events(vs, evs)[s] == vs[s],
    decreases evs.len(),
{
    if evs.len() > 0 {
        let vs1 = apply_event(vs, evs[0]);
        assert(vs1.len() >= vs.len() && vs1[s] == vs[s]);
        assert forall|i: int| 0 <= i < evs.drop_first().len() implies !touches(
            #[trigger] evs.drop_first()[i],
            s,
        ) by {
            assert(evs.drop_first()[i] == evs[i + 1]);
        }
        lemma_isolation(vs1, evs.drop_first(), s);
    }
}

} // verus!
