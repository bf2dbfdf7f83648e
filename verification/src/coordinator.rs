//! Who may publish a poll's snapshot: one submission per poll at a time, and
//! the newest submission last.
//!
//! Every submission carries a stamp, and a later submission for the same poll
//! carries a greater one. The coordinator only decides; sending, waiting and
//! aborting a running push are the caller's work. A caller that is told to
//! wait aborts the push it is given, waits, and submits again.

use std::collections::HashMap;
use vstd::prelude::*;

verus! {

/// The submission that holds a poll's slot.
#[derive(Clone, Copy, Debug, PartialEq, Eq, Structural)]
pub struct Slot {
    /// The stamp of the submission.
    pub stamp: u64,
    /// Whether a newer submission has asked it to give way.
    pub cancelled: bool,
}

/// Where a poll stands.
#[derive(Clone, Copy, Debug, PartialEq, Eq, Structural)]
pub enum Phase {
    /// Nothing is being published.
    Idle,
    /// A submission is publishing.
    Publishing,
    /// A submission is publishing and has been asked to give way.
    Cancelling,
}

/// The answer to a submission.
#[derive(Clone, Copy, Debug, PartialEq, Eq, Structural)]
pub enum Admission {
    /// The slot is yours: publish, then release it.
    Run,
    /// The slot is held by the older submission `evict`, which has now been
    /// asked to give way: abort it, wait, and submit again.
    Wait { evict: u64 },
    /// The slot is held by a submission that is not older: drop this one.
    Superseded,
}

/// The phase of a poll in a slot map.
pub open spec fn phase_in(slots: Map<u64, Slot>, id: u64) -> Phase {
    if !slots.dom().contains(id) {
        Phase::Idle
    } else if slots[id].cancelled {
        Phase::Cancelling
    } else {
        Phase::Publishing
    }
}

/// The answer to the submission `stamp` for the poll `id`.
pub open spec fn admission_in(slots: Map<u64, Slot>, id: u64, stamp: u64) -> Admission {
    if !slots.dom().contains(id) {
        Admission::Run
    } else if slots[id].stamp < stamp {
        Admission::Wait { evict: slots[id].stamp }
    } else {
        Admission::Superseded
    }
}

/// The slot map after the submission `stamp` for the poll `id`: a free slot
/// is taken, an older holder is marked, and nothing else changes.
pub open spec fn after_submit(slots: Map<u64, Slot>, id: u64, stamp: u64) -> Map<u64, Slot> {
    match admission_in(slots, id, stamp) {
        Admission::Run => slots.insert(id, Slot { stamp, cancelled: false }),
        Admission::Wait { evict } => slots.insert(id, Slot { stamp: evict, cancelled: true }),
        Admission::Superseded => slots,
    }
}

/// Whether the submission `stamp` holds the slot of the poll `id`.
pub open spec fn holds_in(slots: Map<u64, Slot>, id: u64, stamp: u64) -> bool {
    slots.dom().contains(id) && slots[id].stamp == stamp
}

/// The slot map after the submission `stamp` has ended, however it ended:
/// its slot is free, and no other slot is touched.
pub open spec fn after_release(slots: Map<u64, Slot>, id: u64, stamp: u64) -> Map<u64, Slot> {
    if holds_in(slots, id, stamp) {
        slots.remove(id)
    } else {
        slots
    }
}

/// Whether the submission `stamp` must give up its push: it was asked to give
/// way, or the slot is not its own.
pub open spec fn must_abandon_in(slots: Map<u64, Slot>, id: u64, stamp: u64) -> bool {
    !holds_in(slots, id, stamp) || slots[id].cancelled
}

/// The slots of the polls that are being published.
pub struct Coordinator {
    slots: HashMap<u64, Slot>,
}

impl View for Coordinator {
    type V = Map<u64, Slot>;

    closed spec fn view(&self) -> Map<u64, Slot> {
        self.slots@
    }
}

impl Coordinator {
    /// A coordinator with every poll idle.
    pub fn new() -> (c: Coordinator)
        ensures
            c@ == Map::<u64, Slot>::empty(),
    {
        Coordinator { slots: HashMap::new() }
    }

    /// Submits the snapshot stamped `stamp` for the poll `id`.
    pub fn submit(&mut self, id: u64, stamp: u64) -> (answer: Admission)
        ensures
            answer == admission_in(old(self)@, id, stamp),
            final(self)@ == after_submit(old(self)@, id, stamp),
    {
        broadcast use vstd::std_specs::hash::group_hash_axioms;

        let held: Option<Slot> = match self.slots.get(&id) {
            Some(slot) => Some(*slot),
            None => None,
        };
        match held {
            None => {
                self.slots.insert(id, Slot { stamp, cancelled: false });
                Admission::Run
            },
            Some(slot) => {
                if slot.stamp < stamp {
                    self.slots.insert(id, Slot { stamp: slot.stamp, cancelled: true });
                    Admission::Wait { evict: slot.stamp }
                } else {
                    Admission::Superseded
                }
            },
        }
    }

    /// Ends the submission `stamp` for the poll `id`, whether its push went
    /// out, failed or was aborted. Says whether it held the slot.
    pub fn release(&mut self, id: u64, stamp: u64) -> (held: bool)
        ensures
            held == holds_in(old(self)@, id, stamp),
            final(self)@ == after_release(old(self)@, id, stamp),
    {
        broadcast use vstd::std_specs::hash::group_hash_axioms;

        let held = match self.slots.get(&id) {
            Some(slot) => slot.stamp == stamp,
            None => false,
        };
        if held {
            self.slots.remove(&id);
        }
        held
    }

    /// Whether the submission `stamp` must give up its push. A submission
    /// asks this just before the push.
    pub fn must_abandon(&self, id: u64, stamp: u64) -> (b: bool)
        ensures
            b == must_abandon_in(self@, id, stamp),
    {
        broadcast use vstd::std_specs::hash::group_hash_axioms;

        match self.slots.get(&id) {
            Some(slot) => slot.stamp != stamp || slot.cancelled,
            None => true,
        }
    }

    /// The phase of the poll `id`.
    pub fn phase(&self, id: u64) -> (p: Phase)
        ensures
            p == phase_in(self@, id),
    {
        broadcast use vstd::std_specs::hash::group_hash_axioms;

        match self.slots.get(&id) {
            Some(slot) => if slot.cancelled {
                Phase::Cancelling
            } else {
                Phase::Publishing
            },
            None => Phase::Idle,
        }
    }

    /// Whether every poll is idle: no slot is held.
    pub fn is_idle(&self) -> (b: bool)
        ensures
            b == (self@ == Map::<u64, Slot>::empty()),
            b == (forall|id: u64| !self@.dom().contains(id)),
            b == (forall|id: u64| phase_in(self@, id) == Phase::Idle),
    {
        broadcast use vstd::std_specs::hash::group_hash_axioms;

        let b = self.slots.len() == 0;
        proof {
            if b {
                assert(self@.dom().len() == 0);
                assert(self@.dom() =~= Set::<u64>::empty());
                assert(self@ =~= Map::<u64, Slot>::empty());
            } else {
                assert(self@.dom().len() > 0);
                let held = self@.dom().choose();
                assert(self@.dom().contains(held)) by {
                    if self@.dom() =~= Set::<u64>::empty() {
                        assert(self@.dom().len() == 0);
                    }
                }
                assert(phase_in(self@, held) != Phase::Idle);
            }
            if forall|id: u64| !self@.dom().contains(id) {
                assert(self@.dom() =~= Set::<u64>::empty());
                assert(self@ =~= Map::<u64, Slot>::empty());
            }
            if forall|id: u64| phase_in(self@, id) == Phase::Idle {
                assert forall|id: u64| !self@.dom().contains(id) by {
                    assert(phase_in(self@, id) == Phase::Idle);
                }
            }
        }
        b
    }
}

/// A submission for one poll changes no other poll's slot, and a release
/// changes none either.
pub proof fn lemma_polls_are_independent(
    slots: Map<u64, Slot>,
    id: u64,
    stamp: u64,
    other: u64,
)
    requires
        other != id,
    ensures
        phase_in(after_submit(slots, id, stamp), other) == phase_in(slots, other),
        phase_in(after_release(slots, id, stamp), other) == phase_in(slots, other),
        after_submit(slots, id, stamp).dom().contains(other) ==> after_submit(slots, id, stamp)[other]
            == slots[other],
        after_release(slots, id, stamp).dom().contains(other) ==> after_release(
            slots,
            id,
            stamp,
        )[other] == slots[other],
{
}

/// The holder of a slot changes only through its own release: a submission
/// never takes a held slot, and a release by anyone else frees nothing.
pub proof fn lemma_holder_stays(slots: Map<u64, Slot>, id: u64, holder: u64, stamp: u64)
    requires
        holds_in(slots, id, holder),
    ensures
        holds_in(after_submit(slots, id, stamp), id, holder),
        stamp != holder ==> holds_in(after_release(slots, id, stamp), id, holder),
        phase_in(after_release(slots, id, holder), id) == Phase::Idle,
{
}

/// A newer submission always wins over an older one that is still running.
/// When `newer` arrives while `older` holds the slot, `older` is asked to
/// give way and must abandon its push; once `older` has ended, the slot is
/// free, `newer` gets it on asking again and need not abandon; and when
/// `newer` has ended too, the poll is idle and the slot map as it was before
/// either came.
pub proof fn lemma_newer_supersedes(slots: Map<u64, Slot>, id: u64, older: u64, newer: u64)
    requires
        !slots.dom().contains(id),
        older < newer,
    ensures
        ({
            let a = after_submit(slots, id, older);
            let b = after_submit(a, id, newer);
            let c = after_release(b, id, older);
            let d = after_submit(c, id, newer);
            let e = after_release(d, id, newer);
            &&& admission_in(slots, id, older) == Admission::Run
            &&& phase_in(a, id) == Phase::Publishing
            &&& !must_abandon_in(a, id, older)
            &&& admission_in(a, id, newer) == (Admission::Wait { evict: older })
            &&& phase_in(b, id) == Phase::Cancelling
            &&& must_abandon_in(b, id, older)
            &&& phase_in(c, id) == Phase::Idle
            &&& admission_in(c, id, newer) == Admission::Run
            &&& phase_in(d, id) == Phase::Publishing
            &&& !must_abandon_in(d, id, newer)
            &&& e == slots
        }),
{
    let a = after_submit(slots, id, older);
    let b = after_submit(a, id, newer);
    let c = after_release(b, id, older);
    let d = after_submit(c, id, newer);
    let e = after_release(d, id, newer);
    assert(c =~= slots);
    assert(e =~= slots);
}

/// An older submission that arrives late never displaces a newer one: it is
/// told so, and nothing changes.
pub proof fn lemma_older_never_displaces(slots: Map<u64, Slot>, id: u64, holder: u64, late: u64)
    requires
        holds_in(slots, id, holder),
        late <= holder,
    ensures
        admission_in(slots, id, late) == Admission::Superseded,
        after_submit(slots, id, late) == slots,
{
}

} // verus!
