//! The work dispatcher: one counter from which workers claim image indices.
//!
//! A worker claims under whatever lock the caller holds, and renders the image
//! after it has let go of the lock. The counter itself knows nothing about
//! workers, which is why the set of indices handed out does not depend on how
//! many of them there are or on the order in which they arrive.

use vstd::prelude::*;

verus! {

/// The mathematical state of a dispatcher: the next index to hand out and the
/// number of images wanted.
pub struct DispatchState {
    pub next: int,
    pub target: int,
}

impl DispatchState {
    /// The state before any claim.
    pub open spec fn initial(target: int) -> DispatchState {
        DispatchState { next: 0, target }
    }

    /// No index is left to hand out.
    pub open spec fn exhausted(self) -> bool {
        self.next >= self.target
    }

    /// What a claim made in this state is answered with.
    pub open spec fn answer(self) -> Option<int> {
        if self.exhausted() {
            None
        } else {
            Some(self.next)
        }
    }

    /// The state that a claim made in this state leaves behind.
    pub open spec fn after_claim(self) -> DispatchState {
        if self.exhausted() {
            self
        } else {
            DispatchState { next: self.next + 1, target: self.target }
        }
    }

    /// The state after `k` claims in a row.
    pub open spec fn after_claims(self, k: nat) -> DispatchState
        decreases k,
    {
        if k == 0 {
            self
        } else {
            self.after_claim().after_claims((k - 1) as nat)
        }
    }
}

/// The answer to claim number `k` (counted from zero) on a fresh dispatcher
/// for `target` images.
pub open spec fn nth_answer(target: int, k: nat) -> Option<int> {
    DispatchState::initial(target).after_claims(k).answer()
}

/// In a run of claims, where `run[k]` is the worker whose claim was served as
/// number `k`: `worker` has been told that the target is reached.
pub open spec fn was_stopped(target: int, run: Seq<nat>, worker: nat) -> bool {
    exists|k: int|
        0 <= k < run.len() && #[trigger] run[k] == worker && nth_answer(target, k as nat).is_none()
}

/// A run in which every worker is numbered below `workers`, and every worker
/// has gone on claiming until it was told that the target is reached.
pub open spec fn is_complete_run(workers: nat, target: int, run: Seq<nat>) -> bool {
    &&& forall|k: int| 0 <= k < run.len() ==> #[trigger] run[k] < workers
    &&& forall|w: nat| w < workers ==> #[trigger] was_stopped(target, run, w)
}

/// The indices that `worker` was given in a run.
pub open spec fn indices_of(target: int, run: Seq<nat>, worker: nat) -> Set<int> {
    Set::new(
        |index: int|
            exists|k: int|
                0 <= k < run.len() && #[trigger] run[k] == worker && nth_answer(target, k as nat)
                    == Some(index),
    )
}

/// The indices that were given to anyone in a run.
pub open spec fn indices_given(target: int, run: Seq<nat>) -> Set<int> {
    Set::new(
        |index: int|
            exists|k: int|
                0 <= k < run.len() && #[trigger] nth_answer(target, k as nat) == Some(index),
    )
}

/// The indices of a batch of `target` images: `0` up to `target - 1`.
pub open spec fn batch(target: int) -> Set<int> {
    Set::new(|index: int| 0 <= index < target)
}

/// Where `k` claims in a row leave a dispatcher.
pub proof fn lemma_after_claims(s: DispatchState, k: nat)
    ensures
        s.after_claims(k) == (DispatchState {
            next: if s.next + k <= s.target {
                s.next + k
            } else if s.next <= s.target {
                s.target
            } else {
                s.next
            },
            target: s.target,
        }),
    decreases k,
{
    if k > 0 {
        lemma_after_claims(s.after_claim(), (k - 1) as nat);
    }
}

/// On a fresh dispatcher the claims are answered in order: claim number `k`
/// gets index `k` while `k` is below the target, and nothing from then on.
/// So no index is skipped, none is given twice, and none is given once the
/// target is reached.
pub proof fn law_claims_in_order(target: int, k: nat)
    ensures
        nth_answer(target, k) == if k < target {
            Some(k as int)
        } else {
            None
        },
{
    lemma_after_claims(DispatchState::initial(target), k);
}

/// In a complete run with at least one worker, the indices given are exactly
/// those of the batch.
pub proof fn law_run_covers_batch(workers: nat, target: int, run: Seq<nat>)
    requires
        workers >= 1,
        is_complete_run(workers, target, run),
    ensures
        indices_given(target, run) == batch(target),
{
    assert(was_stopped(target, run, 0));
    let stop = choose|k: int|
        0 <= k < run.len() && #[trigger] run[k] == 0nat && nth_answer(target, k as nat).is_none();
    law_claims_in_order(target, stop as nat);
    assert forall|index: int| batch(target).contains(index) implies indices_given(
        target,
        run,
    ).contains(index) by {
        law_claims_in_order(target, index as nat);
        assert(0 <= index < run.len() && nth_answer(target, index as nat) == Some(index));
    }
    assert forall|index: int| indices_given(target, run).contains(index) implies batch(
        target,
    ).contains(index) by {
        let k = choose|k: int|
            0 <= k < run.len() && #[trigger] nth_answer(target, k as nat) == Some(index);
        law_claims_in_order(target, k as nat);
    }
    assert(indices_given(target, run) =~= batch(target));
}

/// No index is given to two workers.
pub proof fn law_workers_share_nothing(target: int, run: Seq<nat>, a: nat, b: nat)
    requires
        a != b,
    ensures
        indices_of(target, run, a).disjoint(indices_of(target, run, b)),
{
    assert forall|index: int|
        !(indices_of(target, run, a).contains(index) && indices_of(target, run, b).contains(
            index,
        )) by {
        if indices_of(target, run, a).contains(index) && indices_of(target, run, b).contains(index) {
            let ka = choose|k: int|
                0 <= k < run.len() && #[trigger] run[k] == a && nth_answer(target, k as nat)
                    == Some(index);
            let kb = choose|k: int|
                0 <= k < run.len() && #[trigger] run[k] == b && nth_answer(target, k as nat)
                    == Some(index);
            law_claims_in_order(target, ka as nat);
            law_claims_in_order(target, kb as nat);
        }
    }
}

/// Every index that was given went to one of the workers.
pub proof fn law_every_index_has_a_worker(workers: nat, target: int, run: Seq<nat>, index: int)
    requires
        is_complete_run(workers, target, run),
        indices_given(target, run).contains(index),
    ensures
        exists|w: nat| w < workers && #[trigger] indices_of(target, run, w).contains(index),
{
    let k = choose|k: int|
        0 <= k < run.len() && #[trigger] nth_answer(target, k as nat) == Some(index);
    assert(run[k] < workers);
    assert(indices_of(target, run, run[k]).contains(index));
}

/// The set of indices produced does not depend on how many workers there are,
/// nor on the order in which they claim: two complete runs for the same
/// target give the same indices.
pub proof fn law_indices_independent_of_workers(
    target: int,
    workers_a: nat,
    run_a: Seq<nat>,
    workers_b: nat,
    run_b: Seq<nat>,
)
    requires
        workers_a >= 1,
        workers_b >= 1,
        is_complete_run(workers_a, target, run_a),
        is_complete_run(workers_b, target, run_b),
    ensures
        indices_given(target, run_a) == indices_given(target, run_b),
{
    law_run_covers_batch(workers_a, target, run_a);
    law_run_covers_batch(workers_b, target, run_b);
}

/// The shared counter. Whoever holds it exclusively may claim.
#[derive(Debug)]
pub struct Dispatcher {
    next: i32,
    target: i32,
}

impl View for Dispatcher {
    type V = DispatchState;

    closed spec fn view(&self) -> DispatchState {
        DispatchState { next: self.next as int, target: self.target as int }
    }
}

impl Dispatcher {
    /// The counter never runs below zero nor past a positive target.
    #[verifier::type_invariant]
    closed spec fn in_range(&self) -> bool {
        0 <= self.next && (self.next <= self.target || self.next == 0)
    }

    /// The number of indices handed out so far. Every dispatcher is a fresh
    /// one after that many claims.
    pub fn handed_out(&self) -> (n: i32)
        ensures
            n == self@.next,
            n >= 0,
            self@ == DispatchState::initial(self@.target).after_claims(n as nat),
    {
        proof {
            use_type_invariant(self);
            lemma_after_claims(DispatchState::initial(self@.target), self@.next as nat);
        }
        self.next
    }

    /// The number of images wanted.
    pub fn target(&self) -> (n: i32)
        ensures
            n == self@.target,
    {
        self.target
    }

    /// A dispatcher for `target` images, with nothing handed out yet.
    pub fn new(target: i32) -> (d: Dispatcher)
        ensures
            d@ == DispatchState::initial(target as int),
    {
        Dispatcher { next: 0, target }
    }

    /// Claims the next index. `Some(index)` reserves `index` for the caller
    /// alone; `None` says that the target is reached and leaves the counter
    /// as it was.
    pub fn claim(&mut self) -> (claimed: Option<i32>)
        ensures
            final(self)@ == old(self)@.after_claim(),
            match claimed {
                Some(index) => old(self)@.answer() == Some(index as int) && 0 <= index
                    < old(self)@.target,
                None => old(self)@.answer().is_none(),
            },
    {
        proof {
            use_type_invariant(&*self);
        }
        if self.next >= self.target {
            None
        } else {
            let index: i32 = self.next;
            self.next = index + 1;
            Some(index)
        }
    }
}

} // verus!
