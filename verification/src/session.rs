//! The session endpoint: flow windows, handle allocation and delivery-id
//! assignment.

use vstd::prelude::*;
use crate::link_error::AttachError;

verus! {

broadcast use vstd::seq::group_seq_axioms;

/// The lifecycle states of a session endpoint.
#[derive(Clone, Copy, PartialEq, Eq, Structural, Debug)]
pub enum SessionState {
    /// No begin has been exchanged.
    Unmapped,
    /// The local begin is sent, the remote one is pending.
    BeginSent,
    /// The remote begin arrived first.
    BeginReceived,
    /// Both begins were exchanged.
    Mapped,
    /// The local end is sent, the remote one is pending.
    EndSent,
    /// The remote end arrived first.
    EndReceived,
    /// The session is being discarded after an error.
    Discarding,
}

/// The four counters of session flow control.
#[derive(Clone, Copy, PartialEq, Eq, Structural, Debug)]
pub struct SessionFlow {
    /// The transfer-id the next outgoing transfer will claim.
    pub next_outgoing_id: u32,
    /// How many more transfers this peer may send.
    pub outgoing_window: u32,
    /// The transfer-id expected on the next incoming transfer.
    pub next_incoming_id: u32,
    /// How many more transfers this peer is prepared to receive.
    pub incoming_window: u32,
}

impl SessionFlow {
    /// A fresh session's counters.
    pub fn new(outgoing_window: u32, incoming_window: u32) -> (r: Self)
        ensures
            r.next_outgoing_id == 0,
            r.outgoing_window == outgoing_window,
            r.next_incoming_id == 0,
            r.incoming_window == incoming_window,
    {
        SessionFlow {
            next_outgoing_id: 0,
            outgoing_window,
            next_incoming_id: 0,
            incoming_window,
        }
    }

    /// Accounts for one transfer sent: emission is blocked while the
    /// outgoing window is empty; otherwise the next outgoing id rises and
    /// the window shrinks. The transfer claims the old next outgoing id as
    /// its delivery id, so delivery ids rise monotonically.
    pub fn on_transfer_sent(&mut self) -> (r: Result<u32, AttachError>)
        ensures
            r is Ok <==> old(self).outgoing_window > 0 && old(self).next_outgoing_id
                < 0xffffffff,
            r matches Ok(id) ==> id == old(self).next_outgoing_id && *final(self) == (
            SessionFlow {
                next_outgoing_id: (old(self).next_outgoing_id + 1) as u32,
                outgoing_window: (old(self).outgoing_window - 1) as u32,
                ..*old(self)
            }),
            r is Err ==> *final(self) == *old(self),
    {
        if self.outgoing_window == 0 {
            return Err(AttachError::IllegalSessionState);
        }
        if self.next_outgoing_id == 0xffffffff {
            return Err(AttachError::IllegalSessionState);
        }
        let id = self.next_outgoing_id;
        self.next_outgoing_id = self.next_outgoing_id + 1;
        self.outgoing_window = self.outgoing_window - 1;
        Ok(id)
    }

    /// Accounts for one transfer received: reception is refused while the
    /// incoming window is empty; otherwise the next incoming id rises and
    /// the window shrinks until a flow replenishes it.
    pub fn on_transfer_received(&mut self) -> (r: Result<(), AttachError>)
        ensures
            r is Ok <==> old(self).incoming_window > 0 && old(self).next_incoming_id
                < 0xffffffff,
            r is Ok ==> *final(self) == (SessionFlow {
                next_incoming_id: (old(self).next_incoming_id + 1) as u32,
                incoming_window: (old(self).incoming_window - 1) as u32,
                ..*old(self)
            }),
            r is Err ==> *final(self) == *old(self),
    {
        if self.incoming_window == 0 {
            return Err(AttachError::IllegalSessionState);
        }
        if self.next_incoming_id == 0xffffffff {
            return Err(AttachError::IllegalSessionState);
        }
        self.next_incoming_id = self.next_incoming_id + 1;
        self.incoming_window = self.incoming_window - 1;
        Ok(())
    }

    /// Refills the incoming window, as a flow announces.
    pub fn replenish_incoming(&mut self, incoming_window: u32)
        ensures
            *final(self) == (SessionFlow { incoming_window, ..*old(self) }),
    {
        self.incoming_window = incoming_window;
    }

    /// Whether a flow should be emitted to replenish the peer's view of the
    /// incoming window: when it has dropped below the given threshold.
    pub fn should_send_flow(&self, threshold: u32) -> (r: bool)
        ensures
            r == (self.incoming_window < threshold),
    {
        self.incoming_window < threshold
    }
}

/// The handle table of one direction of a session: the handle of a live
/// link is its index, so no two live links of the same direction can ever
/// share a handle, and allocation is first-fit.
pub struct HandleTable {
    /// One slot per handle; a live link holds its name in its slot.
    pub slots: Vec<Option<String>>,
}

impl HandleTable {
    /// Whether a handle names a live link.
    pub open spec fn live(&self, h: int) -> bool {
        0 <= h < self.slots@.len() && self.slots@[h] is Some
    }

    /// An empty table.
    pub fn new() -> (r: Self)
        ensures
            r.slots@.len() == 0,
    {
        HandleTable { slots: Vec::new() }
    }

    /// Whether some live link carries the given name.
    pub fn name_in_use(&self, name: &String) -> (r: bool)
        ensures
            r == exists|h: int| self.live(h) && ((#[trigger] self.slots@[h]) matches Some(n)
                && n@ == name@),
    {
        let mut i: usize = 0;
        while i < self.slots.len()
            invariant
                0 <= i <= self.slots@.len(),
                forall|h: int| 0 <= h < i ==> !((#[trigger] self.slots@[h]) matches Some(n)
                    && n@ == name@),
            decreases self.slots@.len() - i,
        {
            match &self.slots[i] {
                Some(n) => {
                    if n.eq(name) {
                        proof {
                            assert(self.live(i as int) && (self.slots@[i as int] matches Some(
                                m,
                            ) && m@ == name@));
                        }
                        return true;
                    }
                },
                None => {},
            }
            i = i + 1;
        }
        false
    }

    /// Allocates the lowest free handle for a link name: first-fit with
    /// reuse of freed handles. The returned handle was not live before, so
    /// allocation is collision-free; a duplicate name is refused, as is a
    /// table whose whole 32-bit handle space is live. Every other slot is
    /// untouched.
    pub fn allocate(&mut self, name: String) -> (r: Result<u32, AttachError>)
        ensures
            r matches Ok(h) ==> !old(self).live(h as int) && final(self).live(h as int)
                && ((final(self).slots@[h as int] matches Some(n) && n@ == name@))
                && (forall|j: int| 0 <= j < final(self).slots@.len() && j != h
                    ==> final(self).slots@[j] == old(self).slots@.index(j))
                && (final(self).slots@.len() == old(self).slots@.len()
                    || final(self).slots@.len() == old(self).slots@.len() + 1)
                && (final(self).slots@.len() == old(self).slots@.len() + 1
                    ==> h == old(self).slots@.len()),
            r is Err ==> final(self).slots@ == old(self).slots@,
            r matches Err(e) ==> (e == AttachError::DuplicatedLinkName
                || e == AttachError::IllegalSessionState),
            r matches Err(e) && e == AttachError::DuplicatedLinkName ==> (exists|h: int|
                old(self).live(h) && ((#[trigger] old(self).slots@[h]) matches Some(n)
                    && n@ == name@)),
            r matches Err(e) && e == AttachError::IllegalSessionState ==> old(
                self,
            ).slots@.len() >= 0xffffffff,
            !(exists|h: int| old(self).live(h) && ((#[trigger] old(self).slots@[h])
                matches Some(n) && n@ == name@)) && old(self).slots@.len() < 0xffffffff
                ==> r is Ok,
    {
        if self.name_in_use(&name) {
            return Err(AttachError::DuplicatedLinkName);
        }
        let mut i: usize = 0;
        while i < self.slots.len()
            invariant
                0 <= i <= self.slots@.len(),
                self.slots@ == old(self).slots@,
                forall|h: int| 0 <= h < i ==> (#[trigger] self.slots@[h]) is Some,
                !(exists|h: int| old(self).live(h) && ((#[trigger] old(self).slots@[h])
                    matches Some(n) && n@ == name@)),
            decreases self.slots@.len() - i,
        {
            if self.slots[i].is_none() {
                if i >= 0xffffffff {
                    return Err(AttachError::IllegalSessionState);
                }
                self.slots.set(i, Some(name));
                return Ok(i as u32);
            }
            i = i + 1;
        }
        if self.slots.len() >= 0xffffffff {
            return Err(AttachError::IllegalSessionState);
        }
        let h = self.slots.len();
        self.slots.push(Some(name));
        Ok(h as u32)
    }

    /// Frees a handle on detach, returning it to the pool; any other slot
    /// is untouched.
    pub fn free(&mut self, h: u32)
        ensures
            !final(self).live(h as int),
            final(self).slots@.len() == old(self).slots@.len(),
            forall|j: int| 0 <= j < final(self).slots@.len() && j != h
                ==> final(self).slots@[j] == old(self).slots@.index(j),
    {
        if (h as usize) < self.slots.len() {
            self.slots.set(h as usize, None);
        }
    }
}

/// Handle allocation is collision-free: an allocation makes live exactly
/// the handle it returns, beyond those live before, so no two live links of
/// one direction ever share a handle.
pub proof fn lemma_allocation_collision_free(told: HandleTable, tnew: HandleTable, h: int)
    requires
        !told.live(h),
        tnew.live(h),
        tnew.slots@.len() == told.slots@.len() || tnew.slots@.len() == told.slots@.len() + 1,
        tnew.slots@.len() == told.slots@.len() + 1 ==> h == told.slots@.len(),
        forall|j: int| 0 <= j < tnew.slots@.len() && j != h ==> tnew.slots@[j]
            == told.slots@.index(j),
    ensures
        forall|j: int| #[trigger] tnew.live(j) <==> (told.live(j) || j == h),
{
    assert forall|j: int| #[trigger] tnew.live(j) <==> (told.live(j) || j == h) by {
        if j != h {
            if tnew.live(j) {
                assert(j < told.slots@.len());
            }
            if told.live(j) {
                assert(tnew.slots@[j] == told.slots@.index(j));
            }
        }
    }
}

} // verus!
