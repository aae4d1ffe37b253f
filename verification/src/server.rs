//! The routing core of one running server: every connection the accept
//! path has completed, each with its application-assigned identity and its
//! two routing units.
//!
//! The accept path hands each completed handshake's verdict — the identity
//! the application's connect callback returned, or nothing — to
//! [`ServerCore::accept`].  An approved connection gets a slot holding its
//! identity and a fresh receive unit and send unit; a rejected one gets a
//! slot that no event is ever accepted for, so no callback can ever be
//! attributed to it.  A handshake that fails never reaches the core at all.
//!
//! Every event method names one slot, changes no other slot, and preserves
//! the slot's identity, so a callback for one connection can never carry
//! another connection's identity, and a failure on one connection cannot
//! disturb the routing state of any other.

use vstd::prelude::*;
use vstd::pervasive::{arbitrary, unreached};
use crate::message::Message;
use crate::receive::{ReceiveUnit, ReadEvent, ReadAction, read_action_of, read_continues};
use crate::send::{SendUnit, SendAction, SendPhase};
use crate::trace::{apply_event, CoreEvent, SlotView};

verus! {

/// One connection the accept path has completed, as the core tracks it.
pub enum ConnSlot<Id> {
    /// The connect callback returned nothing: the connection was dropped
    /// silently and both halves were discarded.
    Rejected,
    /// The connect callback returned an identity: both halves are routed
    /// under it.
    Active { id: Id, recv: ReceiveUnit, send: SendUnit },
}

impl<Id> ConnSlot<Id> {
    /// Whether the connection was approved and is routed.
    pub open spec fn is_active(&self) -> bool {
        matches!(self, ConnSlot::Active { .. })
    }

    /// The identity the connect callback assigned.
    pub open spec fn spec_id(&self) -> Id
        recommends
            self.is_active(),
    {
        match self {
            ConnSlot::Active { id, .. } => *id,
            ConnSlot::Rejected => arbitrary(),
        }
    }

    /// Whether the slot's receive unit is still draining.
    pub open spec fn recv_live(&self) -> bool {
        match self {
            ConnSlot::Active { recv, .. } => recv.is_live(),
            ConnSlot::Rejected => false,
        }
    }

    /// Where the slot's send unit stands.
    pub open spec fn send_phase(&self) -> SendPhase
        recommends
            self.is_active(),
    {
        match self {
            ConnSlot::Active { send, .. } => send.phase(),
            ConnSlot::Rejected => SendPhase::Done,
        }
    }

    /// The slot reduced to the plain values the trace model tracks.
    pub open spec fn summary(&self) -> SlotView<Id> {
        SlotView {
            active: self.is_active(),
            id: self.spec_id(),
            recv_live: self.recv_live(),
            phase: self.send_phase(),
        }
    }
}

/// The routing state of one running server.
pub struct ServerCore<Id> {
    conns: Vec<ConnSlot<Id>>,
}

impl<Id> ServerCore<Id> {
    /// The slots in acceptance order.
    pub closed spec fn slots(&self) -> Seq<ConnSlot<Id>> {
        self.conns@
    }

    /// The slots reduced to the trace model's views.  Every mutating
    /// method performs exactly one transition of the trace model on these,
    /// so the laws proved in [`crate::trace`] hold of every run of the
    /// core.
    pub open spec fn views(&self) -> Seq<SlotView<Id>> {
        self.slots().map_values(|s: ConnSlot<Id>| s.summary())
    }

    /// A fresh core with no connections.
    pub fn new() -> (r: Self)
        ensures
            r.slots() == Seq::<ConnSlot<Id>>::empty(),
    {
        ServerCore { conns: Vec::new() }
    }

    /// Record a completed handshake with the connect callback's verdict.
    ///
    /// An identity yields an active slot holding exactly that identity,
    /// with both routing units fresh; no identity yields a rejected slot
    /// that no event method accepts, so no callback is ever attributed to
    /// the connection.  Earlier slots are untouched.
    pub fn accept(&mut self, verdict: Option<Id>) -> (slot: usize)
        ensures
            slot as int == old(self).slots().len(),
            final(self).slots().len() == old(self).slots().len() + 1,
            forall|j: int| 0 <= j < old(self).slots().len() ==> final(self).slots()[j] == old(
                self,
            ).slots()[j],
            verdict is Some <==> final(self).slots()[slot as int].is_active(),
            verdict is Some ==> final(self).slots()[slot as int].spec_id() == verdict->0,
            verdict is Some ==> final(self).slots()[slot as int].recv_live(),
            verdict is Some ==> final(self).slots()[slot as int].send_phase() is Awaiting,
            final(self).views() == apply_event(old(self).views(), CoreEvent::Accept { verdict }),
    {
        let slot = self.conns.len();
        match verdict {
            Some(id) => {
                self.conns.push(ConnSlot::Active {
                    id,
                    recv: ReceiveUnit::new(),
                    send: SendUnit::new(),
                });
            },
            None => {
                self.conns.push(ConnSlot::Rejected);
            },
        }
        proof {
            assert(self.views() =~= apply_event(
                old(self).views(),
                CoreEvent::Accept { verdict },
            ));
        }
        slot
    }

    /// The identity an active slot is routed under.
    pub fn identity(&self, slot: usize) -> (id: &Id)
        requires
            slot < self.slots().len(),
            self.slots()[slot as int].is_active(),
        ensures
            *id == self.slots()[slot as int].spec_id(),
    {
        match &self.conns[slot] {
            ConnSlot::Active { id, .. } => id,
            ConnSlot::Rejected => unreached(),
        }
    }

    /// Feed one reader event of an active slot to its receive unit.
    ///
    /// The callback ordered is attributed to this slot alone, whose
    /// identity is unchanged; every other slot is untouched.
    pub fn reader_event(&mut self, slot: usize, ev: ReadEvent) -> (act: ReadAction)
        requires
            slot < old(self).slots().len(),
            old(self).slots()[slot as int].recv_live(),
        ensures
            act == read_action_of(ev),
            final(self).slots().len() == old(self).slots().len(),
            forall|j: int|
                0 <= j < old(self).slots().len() && j != slot ==> final(self).slots()[j] == old(
                    self,
                ).slots()[j],
            final(self).slots()[slot as int].is_active(),
            final(self).slots()[slot as int].spec_id() == old(self).slots()[
                slot as int
            ].spec_id(),
            final(self).slots()[slot as int].recv_live() == read_continues(ev),
            final(self).slots()[slot as int].send_phase() == old(self).slots()[
                slot as int
            ].send_phase(),
            final(self).views() == apply_event(
                old(self).views(),
                (CoreEvent::Reader { slot: slot as int, event: ev }),
            ),
    {
        let entry = self.conns.remove(slot);
        match entry {
            ConnSlot::Active { id, mut recv, send } => {
                let act = recv.on_event(ev);
                self.conns.insert(slot, ConnSlot::Active { id, recv, send });
                proof {
                    assert(self.views() =~= apply_event(
                        old(self).views(),
                        (CoreEvent::Reader { slot: slot as int, event: ev }),
                    ));
                }
                act
            },
            ConnSlot::Rejected => unreached(),
        }
    }

    /// Feed the next outbound message of an active slot to its send unit.
    pub fn outbound(&mut self, slot: usize, m: Message) -> (act: SendAction)
        requires
            slot < old(self).slots().len(),
            old(self).slots()[slot as int].is_active(),
            old(self).slots()[slot as int].send_phase() is Awaiting,
        ensures
            act == SendAction::Write(m),
            final(self).slots().len() == old(self).slots().len(),
            forall|j: int|
                0 <= j < old(self).slots().len() && j != slot ==> final(self).slots()[j] == old(
                    self,
                ).slots()[j],
            final(self).slots()[slot as int].is_active(),
            final(self).slots()[slot as int].spec_id() == old(self).slots()[
                slot as int
            ].spec_id(),
            final(self).slots()[slot as int].recv_live() == old(self).slots()[
                slot as int
            ].recv_live(),
            final(self).slots()[slot as int].send_phase() is Writing,
            final(self).views() == apply_event(
                old(self).views(),
                (CoreEvent::Outbound { slot: slot as int, msg: m }),
            ),
    {
        let entry = self.conns.remove(slot);
        match entry {
            ConnSlot::Active { id, recv, mut send } => {
                let act = send.on_outbound(m);
                self.conns.insert(slot, ConnSlot::Active { id, recv, send });
                proof {
                    assert(self.views() =~= apply_event(
                        old(self).views(),
                        (CoreEvent::Outbound { slot: slot as int, msg: m }),
                    ));
                }
                act
            },
            ConnSlot::Rejected => unreached(),
        }
    }

    /// Feed the outcome of an ordered write back to an active slot's send
    /// unit.
    pub fn write_result(&mut self, slot: usize, ok: bool) -> (act: SendAction)
        requires
            slot < old(self).slots().len(),
            old(self).slots()[slot as int].is_active(),
            old(self).slots()[slot as int].send_phase() is Writing,
        ensures
            ok ==> act == SendAction::Proceed,
            !ok ==> act == SendAction::Disconnect,
            final(self).slots().len() == old(self).slots().len(),
            forall|j: int|
                0 <= j < old(self).slots().len() && j != slot ==> final(self).slots()[j] == old(
                    self,
                ).slots()[j],
            final(self).slots()[slot as int].is_active(),
            final(self).slots()[slot as int].spec_id() == old(self).slots()[
                slot as int
            ].spec_id(),
            final(self).slots()[slot as int].recv_live() == old(self).slots()[
                slot as int
            ].recv_live(),
            ok ==> final(self).slots()[slot as int].send_phase() is Awaiting,
            !ok ==> final(self).slots()[slot as int].send_phase() is Done,
            final(self).views() == apply_event(
                old(self).views(),
                (CoreEvent::WriteResult { slot: slot as int, ok }),
            ),
    {
        let entry = self.conns.remove(slot);
        match entry {
            ConnSlot::Active { id, recv, mut send } => {
                let act = send.on_write_result(ok);
                self.conns.insert(slot, ConnSlot::Active { id, recv, send });
                proof {
                    assert(self.views() =~= apply_event(
                        old(self).views(),
                        (CoreEvent::WriteResult { slot: slot as int, ok }),
                    ));
                }
                act
            },
            ConnSlot::Rejected => unreached(),
        }
    }

    /// An active slot's outbound channel closed with no failure: its send
    /// unit ends quietly.
    pub fn outbound_closed(&mut self, slot: usize)
        requires
            slot < old(self).slots().len(),
            old(self).slots()[slot as int].is_active(),
            old(self).slots()[slot as int].send_phase() is Awaiting,
        ensures
            final(self).slots().len() == old(self).slots().len(),
            forall|j: int|
                0 <= j < old(self).slots().len() && j != slot ==> final(self).slots()[j] == old(
                    self,
                ).slots()[j],
            final(self).slots()[slot as int].is_active(),
            final(self).slots()[slot as int].spec_id() == old(self).slots()[
                slot as int
            ].spec_id(),
            final(self).slots()[slot as int].recv_live() == old(self).slots()[
                slot as int
            ].recv_live(),
            final(self).slots()[slot as int].send_phase() is Done,
            final(self).views() == apply_event(
                old(self).views(),
                (CoreEvent::OutboundClosed { slot: slot as int }),
            ),
    {
        let entry = self.conns.remove(slot);
        match entry {
            ConnSlot::Active { id, recv, mut send } => {
                send.on_channel_closed();
                self.conns.insert(slot, ConnSlot::Active { id, recv, send });
                proof {
                    assert(self.views() =~= apply_event(
                        old(self).views(),
                        (CoreEvent::OutboundClosed { slot: slot as int }),
                    ));
                }
            },
            ConnSlot::Rejected => unreached(),
        }
    }

    /// Whether a slot was approved and is routed.
    pub fn is_routed(&self, slot: usize) -> (r: bool)
        requires
            slot < self.slots().len(),
        ensures
            r == self.slots()[slot as int].is_active(),
    {
        matches!(&self.conns[slot], ConnSlot::Active { .. })
    }
}

} // verus!
