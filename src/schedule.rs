//! The start scheduler: which container to start next, and what the run has
//! once every start came back.
//!
//! Relaxed containers are all launched at once and report back in any
//! order. Strict containers start one at a time in declaration order, and
//! the first failure stops the strict phase. Every report lands in the slot
//! of its container's declaration index, so the running containers come out
//! in declaration order whatever the order of completion.

use vstd::prelude::*;

use crate::composition::StartPolicy;
use crate::container::{cleanup_of_pending, projects_pending, CleanupContainer, PendingContainer, RunningContainer};
use crate::error::DockerTestError;
use crate::keeper::Keeper;

verus! {

/// Where the start of one container stands.
#[derive(Debug)]
pub enum Slot {
    /// Not started, or started and not yet reported.
    Waiting,
    /// Started and ready.
    Running(RunningContainer),
    /// Its start or readiness failed.
    Failed(DockerTestError),
}

/// `list` holds, in increasing order, exactly the declaration indices of the
/// containers of `pending` with policy `policy`.
pub open spec fn lists_policy(list: Seq<usize>, pending: Seq<PendingContainer>, policy: StartPolicy) -> bool {
    &&& forall|p: int|
        0 <= p < list.len() ==> (#[trigger] list[p]) < pending.len() && pending[list[p] as int].start_policy
            == policy
    &&& forall|p: int, q: int| 0 <= p < q < list.len() ==> (#[trigger] list[p]) < (#[trigger] list[q])
    &&& forall|i: int|
        0 <= i < pending.len() && (#[trigger] pending[i]).start_policy == policy ==> exists|p: int|
            0 <= p < list.len() && list[p] == i
}

/// The start of a run's containers, slot by slot.
pub struct StartSchedule {
    /// The handle of each slot.
    pub handles: Vec<String>,
    /// The pending container of each slot.
    pub pending: Vec<PendingContainer>,
    /// The strict slots, in declaration order.
    pub strict: Vec<usize>,
    /// The relaxed slots, in declaration order.
    pub relaxed: Vec<usize>,
    /// How many strict containers were started.
    pub next_strict: usize,
    /// The outcome of each slot.
    pub slots: Vec<Slot>,
}

impl StartSchedule {
    /// The schedule's bookkeeping agrees with its slots.
    pub open spec fn wf(&self) -> bool {
        &&& self.handles@.len() == self.pending@.len()
        &&& self.slots@.len() == self.pending@.len()
        &&& lists_policy(self.strict@, self.pending@, StartPolicy::Strict)
        &&& lists_policy(self.relaxed@, self.pending@, StartPolicy::Relaxed)
        &&& self.next_strict <= self.strict@.len()
        &&& forall|p: int|
            0 <= p < self.next_strict ==> !(self.slots@[(#[trigger] self.strict@[p]) as int] is Waiting)
        &&& forall|p: int|
            self.next_strict <= p < self.strict@.len() ==> self.slots@[(
            #[trigger] self.strict@[p]) as int] is Waiting
        &&& forall|p: int|
            0 <= p < self.next_strict - 1 ==> self.slots@[(#[trigger] self.strict@[p]) as int] is Running
    }

    /// Whether a strict container failed; it is then the last one started.
    pub open spec fn strict_failed(&self) -> bool {
        self.next_strict > 0 && self.slots@[self.strict@[self.next_strict - 1] as int] is Failed
    }

    /// The slot of the strict container to start next, if any.
    pub open spec fn next_strict_spec(&self) -> Option<usize> {
        if self.strict_failed() || self.next_strict == self.strict@.len() {
            None
        } else {
            Some(self.strict@[self.next_strict as int])
        }
    }

    /// Whether every start that will be made has reported.
    pub open spec fn complete(&self) -> bool {
        &&& self.next_strict_spec() is None
        &&& forall|p: int| 0 <= p < self.relaxed@.len() ==> !(self.slots@[(#[trigger] self.relaxed@[p]) as int] is Waiting)
    }

    /// Whether `p` is the first relaxed position, in declaration order,
    /// whose container failed.
    pub open spec fn first_relaxed_failure(&self, p: int) -> bool {
        &&& 0 <= p < self.relaxed@.len()
        &&& self.slots@[self.relaxed@[p] as int] is Failed
        &&& forall|q: int| 0 <= q < p ==> !(self.slots@[(#[trigger] self.relaxed@[q]) as int] is Failed)
    }

    /// The schedule of the pending containers of `pending`: relaxed and
    /// strict slots apart, each in declaration order, nothing started.
    pub fn new(pending: Keeper<PendingContainer>) -> (r: StartSchedule)
        requires
            pending.wf(),
        ensures
            r.wf(),
            r.handles == pending.handles,
            r.pending == pending.kept,
            r.next_strict == 0,
            forall|i: int| 0 <= i < r.slots@.len() ==> (#[trigger] r.slots@[i]) is Waiting,
    {
        let Keeper { handles, kept } = pending;
        let mut strict: Vec<usize> = Vec::new();
        let mut relaxed: Vec<usize> = Vec::new();
        let mut slots: Vec<Slot> = Vec::new();
        let mut i: usize = 0;
        while i < kept.len()
            invariant
                i <= kept@.len(),
                slots@.len() == i,
                forall|j: int| 0 <= j < i ==> (#[trigger] slots@[j]) is Waiting,
                forall|p: int| 0 <= p < strict@.len() ==> (#[trigger] strict@[p]) < i && kept@[strict@[p] as int].start_policy == StartPolicy::Strict,
                forall|p: int| 0 <= p < relaxed@.len() ==> (#[trigger] relaxed@[p]) < i && kept@[relaxed@[p] as int].start_policy == StartPolicy::Relaxed,
                forall|p: int, q: int| 0 <= p < q < strict@.len() ==> (#[trigger] strict@[p]) < (#[trigger] strict@[q]),
                forall|p: int, q: int| 0 <= p < q < relaxed@.len() ==> (#[trigger] relaxed@[p]) < (#[trigger] relaxed@[q]),
                forall|j: int| 0 <= j < i && (#[trigger] kept@[j]).start_policy == StartPolicy::Strict ==> exists|p: int| 0 <= p < strict@.len() && strict@[p] == j,
                forall|j: int| 0 <= j < i && (#[trigger] kept@[j]).start_policy == StartPolicy::Relaxed ==> exists|p: int| 0 <= p < relaxed@.len() && relaxed@[p] == j,
            decreases kept@.len() - i,
        {
            let ghost (s0, r0) = (strict@, relaxed@);
            match kept[i].start_policy {
                StartPolicy::Strict => {
                    strict.push(i);
                    assert(strict@[s0.len() as int] == i);
                },
                StartPolicy::Relaxed => {
                    relaxed.push(i);
                    assert(relaxed@[r0.len() as int] == i);
                },
            }
            assert forall|j: int| 0 <= j <= i && (#[trigger] kept@[j]).start_policy == StartPolicy::Strict implies exists|p: int| 0 <= p < strict@.len() && strict@[p] == j by {
                if j < i {
                    let p = choose|p: int| 0 <= p < s0.len() && s0[p] == j;
                    assert(strict@[p] == s0[p]);
                }
            }
            assert forall|j: int| 0 <= j <= i && (#[trigger] kept@[j]).start_policy == StartPolicy::Relaxed implies exists|p: int| 0 <= p < relaxed@.len() && relaxed@[p] == j by {
                if j < i {
                    let p = choose|p: int| 0 <= p < r0.len() && r0[p] == j;
                    assert(relaxed@[p] == r0[p]);
                }
            }
            slots.push(Slot::Waiting);
            i += 1;
        }
        StartSchedule { handles, pending: kept, strict, relaxed, next_strict: 0, slots }
    }

    /// The relaxed slots, all to be launched at once.
    pub fn relaxed_slots(&self) -> (r: &Vec<usize>)
        ensures
            *r == self.relaxed,
    {
        &self.relaxed
    }

    /// The pending container of slot `i`.
    pub fn pending_at(&self, i: usize) -> (r: &PendingContainer)
        requires
            i < self.pending@.len(),
        ensures
            *r == self.pending@[i as int],
    {
        &self.pending[i]
    }

    /// The slot of the strict container to start next: none once a strict
    /// container failed or all were started.
    pub fn next_strict(&self) -> (r: Option<usize>)
        requires
            self.wf(),
        ensures
            r == self.next_strict_spec(),
    {
        if self.next_strict == self.strict.len() {
            return None;
        }
        if self.next_strict > 0 {
            match &self.slots[self.strict[self.next_strict - 1]] {
                Slot::Failed(_) => {
                    return None;
                },
                _ => {},
            }
        }
        Some(self.strict[self.next_strict])
    }

    /// Records the outcome of the strict container that `next_strict` named.
    pub fn strict_started(&mut self, outcome: Result<RunningContainer, DockerTestError>)
        requires
            old(self).wf(),
            old(self).next_strict_spec() is Some,
        ensures
            final(self).wf(),
            final(self).next_strict == old(self).next_strict + 1,
            final(self).slots@ == old(self).slots@.update(
                old(self).strict@[old(self).next_strict as int] as int,
                match outcome {
                    Ok(c) => Slot::Running(c),
                    Err(e) => Slot::Failed(e),
                },
            ),
            final(self).handles == old(self).handles,
            final(self).pending == old(self).pending,
            final(self).strict == old(self).strict,
            final(self).relaxed == old(self).relaxed,
    {
        let ns = self.next_strict;
        let len = self.strict.len();
        assert(ns < len);
        let i = self.strict[ns];
        let slot = match outcome {
            Ok(c) => Slot::Running(c),
            Err(e) => Slot::Failed(e),
        };
        self.slots.set(i, slot);
        self.next_strict = ns + 1;
        assert forall|p: int| 0 <= p < self.next_strict - 1 implies self.slots@[(#[trigger] self.strict@[p]) as int] is Running by {
            if p < self.next_strict - 2 {
                assert(self.strict@[p] < self.strict@[self.next_strict - 1]);
            } else {
                assert(!old(self).strict_failed());
                assert(self.strict@[p] < self.strict@[self.next_strict - 1]);
            }
        }
        assert forall|p: int| self.next_strict <= p < self.strict@.len() implies self.slots@[(#[trigger] self.strict@[p]) as int] is Waiting by {
            assert(self.strict@[self.next_strict - 1] < self.strict@[p]);
        }
        assert forall|p: int| 0 <= p < self.next_strict implies !(self.slots@[(#[trigger] self.strict@[p]) as int] is Waiting) by {
            if p < self.next_strict - 1 {
                assert(self.strict@[p] < self.strict@[self.next_strict - 1]);
            }
        }
    }

    /// Records the outcome of the relaxed container of slot `i`; a strict
    /// failure does not keep relaxed outcomes out.
    pub fn relaxed_finished(&mut self, i: usize, outcome: Result<RunningContainer, DockerTestError>)
        requires
            old(self).wf(),
            i < old(self).pending@.len(),
            old(self).pending@[i as int].start_policy == StartPolicy::Relaxed,
            old(self).slots@[i as int] is Waiting,
        ensures
            final(self).wf(),
            final(self).next_strict == old(self).next_strict,
            final(self).slots@ == old(self).slots@.update(
                i as int,
                match outcome {
                    Ok(c) => Slot::Running(c),
                    Err(e) => Slot::Failed(e),
                },
            ),
            final(self).handles == old(self).handles,
            final(self).pending == old(self).pending,
            final(self).strict == old(self).strict,
            final(self).relaxed == old(self).relaxed,
    {
        let slot = match outcome {
            Ok(c) => Slot::Running(c),
            Err(e) => Slot::Failed(e),
        };
        self.slots.set(i, slot);
        assert forall|p: int| 0 <= p < self.strict@.len() implies (#[trigger] self.strict@[p]) != i by {
            assert(self.pending@[self.strict@[p] as int].start_policy == StartPolicy::Strict);
        }
    }

    /// The run's running containers in declaration order, or the first
    /// error, a strict one before any relaxed one, and the projection of
    /// every created container for cleanup.
    pub fn finish(self) -> (r: Result<Keeper<RunningContainer>, (DockerTestError, Vec<CleanupContainer>)>)
        requires
            self.wf(),
            self.complete(),
        ensures
            self.strict_failed() ==> r is Err && self.slots@[self.strict@[self.next_strict - 1] as int] == Slot::Failed(r->Err_0.0),
            !self.strict_failed() && (exists|p: int| self.first_relaxed_failure(p)) ==> r is Err && exists|p: int| #[trigger] self.first_relaxed_failure(p) && self.slots@[self.relaxed@[p] as int] == Slot::Failed(r->Err_0.0),
            !self.strict_failed() && !(exists|p: int| self.first_relaxed_failure(p)) ==> r is Ok,
            r matches Err((_, cleanup)) ==> cleanup@.len() == self.pending@.len() && forall|i: int| 0 <= i < cleanup@.len() ==> projects_pending(#[trigger] cleanup@[i], self.pending@[i]),
            r matches Ok(k) ==> k.wf() && k.handles == self.handles && k.kept@.len() == self.slots@.len() && forall|i: int| 0 <= i < k.kept@.len() ==> self.slots@[i] == Slot::Running(#[trigger] k.kept@[i]),
    {
        let ghost me = self;
        let StartSchedule { handles, pending, strict, relaxed, next_strict, slots } = self;
        let ghost s0 = slots@;
        let mut slots = slots;
        if next_strict > 0 {
            let i = strict[next_strict - 1];
            if let Slot::Failed(_) = &slots[i] {
                let mut taken = Slot::Waiting;
                core::mem::swap(&mut taken, &mut slots[i]);
                if let Slot::Failed(e) = taken {
                    return Err((e, cleanup_of_pending(&pending)));
                }
                assert(false);
            }
        }
        let mut p: usize = 0;
        while p < relaxed.len()
            invariant
                slots@ == s0,
                me == self,
                me.slots@ == s0,
                me.relaxed == relaxed,
                me.pending == pending,
                !me.strict_failed(),
                p <= relaxed@.len(),
                forall|q: int| 0 <= q < p ==> !(s0[(#[trigger] relaxed@[q]) as int] is Failed),
                forall|q: int| 0 <= q < relaxed@.len() ==> (#[trigger] relaxed@[q]) < s0.len(),
            decreases relaxed@.len() - p,
        {
            let i = relaxed[p];
            if let Slot::Failed(_) = &slots[i] {
                let mut taken = Slot::Waiting;
                core::mem::swap(&mut taken, &mut slots[i]);
                if let Slot::Failed(e) = taken {
                    assert(me.first_relaxed_failure(p as int));
                    return Err((e, cleanup_of_pending(&pending)));
                }
                assert(false);
            }
            p += 1;
        }
        assert forall|i: int| 0 <= i < s0.len() implies s0[i] is Running by {
            if pending@[i].start_policy == StartPolicy::Strict {
                let p = choose|p: int| 0 <= p < strict@.len() && strict@[p] == i;
                assert(!(s0[strict@[p] as int] is Waiting));
            } else {
                let p = choose|p: int| 0 <= p < relaxed@.len() && relaxed@[p] == i;
                assert(!(s0[relaxed@[p] as int] is Waiting));
            }
        }
        let mut kept: Vec<RunningContainer> = Vec::new();
        let n = slots.len();
        let mut i: usize = 0;
        while i < n
            invariant
                n == s0.len(),
                slots@.len() == n,
                i <= n,
                kept@.len() == i,
                forall|j: int| 0 <= j < i ==> s0[j] == Slot::Running(#[trigger] kept@[j]),
                forall|j: int| i <= j < n ==> #[trigger] slots@[j] == s0[j],
                forall|j: int| 0 <= j < n ==> (#[trigger] s0[j]) is Running,
            decreases n - i,
        {
            let mut taken = Slot::Waiting;
            core::mem::swap(&mut taken, &mut slots[i]);
            if let Slot::Running(c) = taken {
                kept.push(c);
            }
            i += 1;
        }
        Ok(Keeper { handles, kept })
    }
}

/// Once a strict container failed, the schedule names no further strict
/// container to start, and no strict container declared after the failed one
/// has started. Relaxed containers are not held back: the relaxed slots are
/// still all the relaxed containers, and each may still report.
pub proof fn lemma_strict_failure_stops_strict_phase(s: StartSchedule)
    requires
        s.wf(),
        s.strict_failed(),
    ensures
        s.next_strict_spec() is None,
        forall|i: int|
            0 <= i < s.pending@.len() && (#[trigger] s.pending@[i]).start_policy == StartPolicy::Strict
                && i > s.strict@[s.next_strict - 1] ==> s.slots@[i] is Waiting,
        lists_policy(s.relaxed@, s.pending@, StartPolicy::Relaxed),
{
    assert forall|i: int|
        0 <= i < s.pending@.len() && (#[trigger] s.pending@[i]).start_policy == StartPolicy::Strict
            && i > s.strict@[s.next_strict - 1] implies s.slots@[i] is Waiting by {
        let p = choose|p: int| 0 <= p < s.strict@.len() && s.strict@[p] == i;
        if p < s.next_strict - 1 {
            assert(s.strict@[p] < s.strict@[s.next_strict - 1]);
        }
        assert(p >= s.next_strict);
    }
}

/// Two relaxed reports on different slots leave the same slots in either
/// order: what `finish` hands back does not depend on which container
/// completed first.
pub proof fn lemma_relaxed_reports_commute(slots: Seq<Slot>, i: int, a: Slot, j: int, b: Slot)
    requires
        0 <= i < slots.len(),
        0 <= j < slots.len(),
        i != j,
    ensures
        slots.update(i, a).update(j, b) == slots.update(j, b).update(i, a),
{
    assert(slots.update(i, a).update(j, b) =~= slots.update(j, b).update(i, a));
}

/// The order of a successful start is the order of declaration, whatever the
/// order in which the containers reported: when each slot reported a
/// container with the identifier of its pending container, the running
/// containers that `finish` hands back carry the pending identifiers in
/// declaration order.
pub proof fn lemma_declaration_order_kept(s: StartSchedule, k: Keeper<RunningContainer>)
    requires
        s.wf(),
        k.kept@.len() == s.slots@.len(),
        forall|i: int| 0 <= i < k.kept@.len() ==> s.slots@[i] == Slot::Running(#[trigger] k.kept@[i]),
        forall|i: int|
            0 <= i < s.slots@.len() && (#[trigger] s.slots@[i]) is Running ==> s.slots@[i]->Running_0.id@
                == s.pending@[i].id@,
    ensures
        k.kept@.len() == s.pending@.len(),
        forall|i: int| 0 <= i < k.kept@.len() ==> (#[trigger] k.kept@[i]).id@ == s.pending@[i].id@,
{
    assert forall|i: int| 0 <= i < k.kept@.len() implies (#[trigger] k.kept@[i]).id@ == s.pending@[i].id@ by {
        assert(s.slots@[i] is Running);
    }
}

} // verus!
