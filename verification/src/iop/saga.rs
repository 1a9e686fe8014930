//! The compensating half of the pipeline: which steps to undo, and in which
//! order, when a step fails after an external effect was made.
//!
//! The driver tells the saga, before each step, whether the context carries
//! an effect that would have to be undone; after a failure it asks which
//! completed steps to compensate.
use vstd::prelude::*;

verus! {

/// Progress of one pipeline run.
pub struct Saga {
    /// Steps that completed.
    executed: usize,
    /// Whether a context with reversible effects was seen before some step.
    undo_captured: bool,
}

/// The mathematical content of a [`Saga`].
pub struct SagaView {
    pub executed: nat,
    pub undo_captured: bool,
}

impl View for Saga {
    type V = SagaView;

    closed spec fn view(&self) -> SagaView {
        SagaView { executed: self.executed as nat, undo_captured: self.undo_captured }
    }
}

/// The state after seeing, before the next step, whether the context carries
/// reversible effects.
pub open spec fn before_step_spec(s: SagaView, reversible: bool) -> SagaView {
    SagaView { executed: s.executed, undo_captured: s.undo_captured || reversible }
}

/// The state after a step completed.
pub open spec fn succeeded_spec(s: SagaView) -> SagaView {
    SagaView { executed: s.executed + 1, undo_captured: s.undo_captured }
}

/// The steps to compensate after a failure: every completed step, last first,
/// when an effect was captured; none otherwise.
pub open spec fn compensations_spec(s: SagaView) -> Seq<nat> {
    if s.undo_captured {
        Seq::new(s.executed, |i: int| (s.executed - 1 - i) as nat)
    } else {
        Seq::empty()
    }
}

/// The state of a run whose steps `0..k` completed, just before step `k`,
/// given whether the context before each step carried reversible effects.
pub open spec fn drive(reversible: Seq<bool>, k: nat) -> SagaView
    decreases k,
{
    if k == 0 {
        before_step_spec(SagaView { executed: 0, undo_captured: false }, reversible[0])
    } else {
        before_step_spec(succeeded_spec(drive(reversible, (k - 1) as nat)), reversible[k as int])
    }
}

impl Saga {
    /// A run that has not started.
    pub fn new() -> (r: Saga)
        ensures
            r@.executed == 0,
            !r@.undo_captured,
    {
        Saga { executed: 0, undo_captured: false }
    }

    /// Records, before the next step, whether the context carries reversible
    /// effects; returns whether the context has to be kept for undoing.
    pub fn before_step(&mut self, reversible: bool) -> (capture: bool)
        ensures
            final(self)@ == before_step_spec(old(self)@, reversible),
            capture == reversible,
    {
        self.undo_captured = self.undo_captured || reversible;
        reversible
    }

    /// Records that the step completed.
    pub fn step_succeeded(&mut self)
        requires
            old(self)@.executed < usize::MAX,
        ensures
            final(self)@ == succeeded_spec(old(self)@),
    {
        self.executed = self.executed + 1;
    }

    /// The completed steps to compensate after a failure, last first.
    pub fn compensations(&self) -> (r: Vec<usize>)
        ensures
            r@.map_values(|i: usize| i as nat) == compensations_spec(self@),
    {
        let mut r: Vec<usize> = Vec::new();
        if !self.undo_captured {
            assert(r@.map_values(|i: usize| i as nat) =~= compensations_spec(self@));
            return r;
        }
        let mut k: usize = self.executed;
        while k > 0
            invariant
                k <= self.executed,
                self.undo_captured,
                r@.len() == self.executed - k,
                forall|j: int| 0 <= j < r@.len() ==> r@[j] == self.executed - 1 - j,
            decreases k,
        {
            r.push(k - 1);
            k = k - 1;
        }
        assert(r@.map_values(|i: usize| i as nat) =~= compensations_spec(self@));
        r
    }
}

/// Whether the context carries reversible effects after the first `k`
/// steps, each completed step having reported whether it left one.
pub open spec fn effects_after(outs: Seq<Option<bool>>, k: int) -> bool
    decreases k,
{
    if k <= 0 {
        false
    } else {
        effects_after(outs, k - 1) || outs[k - 1] == Some(true)
    }
}

/// What a run reports, the steps having answered `outs` in order (`None`
/// for a failure, else whether the step left a reversible effect): when all
/// `n` steps completed, success with no compensation; otherwise the run
/// stopped at its first failure, and the completed steps are compensated,
/// last first, when an effect had been left before the failing step.
pub open spec fn run_reported(outs: Seq<Option<bool>>, n: nat, completed: bool, reversible: bool, compensated: Seq<nat>) -> bool {
    if outs.len() == n && forall|i: int| 0 <= i < n ==> #[trigger] outs[i] is Some {
        completed && reversible == effects_after(outs, n as int) && compensated.len() == 0
    } else {
        let k = outs.len() - 1;
        &&& 1 <= outs.len() <= n
        &&& outs[k] is None
        &&& forall|i: int| 0 <= i < k ==> #[trigger] outs[i] is Some
        &&& !completed
        &&& reversible == effects_after(outs, k)
        &&& compensated == compensations_spec(SagaView { executed: k as nat, undo_captured: effects_after(outs, k) })
    }
}

/// `outs` are answers that `step` can give to the steps `0..outs.len()`.
pub open spec fn answered_by<F: Fn(usize) -> Option<bool>>(step: F, outs: Seq<Option<bool>>) -> bool {
    forall|i: int| 0 <= i < outs.len() ==> call_ensures(step, (i as usize,), #[trigger] outs[i])
}

/// What a run of the pipeline's steps came to.
#[derive(Debug)]
pub struct RunReport {
    /// Every step completed.
    pub completed: bool,
    /// The context carries reversible effects at the end of the run.
    pub reversible: bool,
    /// The steps compensated after a failure, in the order they were undone.
    pub compensated: Vec<usize>,
}

proof fn lemma_effects_prefix(outs: Seq<Option<bool>>, x: Option<bool>, k: int)
    requires
        k <= outs.len(),
    ensures
        effects_after(outs.push(x), k) == effects_after(outs, k),
    decreases k,
{
    if k > 0 {
        lemma_effects_prefix(outs, x, k - 1);
        assert(outs.push(x)[k - 1] == outs[k - 1]);
    }
}

/// Runs the `n` steps of the pipeline in order, `step(i)` performing step
/// `i`, and stops at the first failure; the steps completed before it are
/// undone, last first, when a reversible effect had been left by then.
pub fn run_steps<F: Fn(usize) -> Option<bool>>(n: usize, step: F) -> (r: RunReport)
    requires
        forall|i: usize| i < n ==> #[trigger] call_requires(step, (i,)),
    ensures
        exists|outs: Seq<Option<bool>>|
            #[trigger] answered_by(step, outs) && run_reported(
                outs,
                n as nat,
                r.completed,
                r.reversible,
                r.compensated@.map_values(|i: usize| i as nat),
            ),
{
    let mut saga = Saga::new();
    let mut reversible = false;
    let ghost mut outs: Seq<Option<bool>> = Seq::empty();
    let mut i: usize = 0;
    while i < n
        invariant
            i <= n,
            forall|j: usize| j < n ==> #[trigger] call_requires(step, (j,)),
            outs.len() == i,
            forall|j: int| 0 <= j < i ==> #[trigger] outs[j] is Some,
            answered_by(step, outs),
            reversible == effects_after(outs, i as int),
            saga@.executed == i,
            saga@.undo_captured ==> reversible,
        decreases n - i,
    {
        saga.before_step(reversible);
        let out = step(i);
        proof {
            lemma_effects_prefix(outs, out, i as int);
            outs = outs.push(out);
            assert(outs[i as int] == out);
        }
        match out {
            None => {
                let compensated = saga.compensations();
                proof {
                    assert(!(forall|j: int| 0 <= j < n ==> #[trigger] outs[j] is Some));
                    assert(answered_by(step, outs));
                }
                return RunReport { completed: false, reversible, compensated };
            },
            Some(left) => {
                saga.step_succeeded();
                reversible = reversible || left;
            },
        }
        i = i + 1;
    }
    let compensated: Vec<usize> = Vec::new();
    proof {
        assert(compensated@.map_values(|i: usize| i as nat) =~= Seq::<nat>::empty());
        assert(answered_by(step, outs));
    }
    RunReport { completed: true, reversible, compensated }
}

/// The run always remembers the steps that completed.
pub proof fn lemma_drive_executed(reversible: Seq<bool>, k: nat)
    requires
        k < reversible.len(),
    ensures
        drive(reversible, k).executed == k,
        drive(reversible, k).undo_captured <==> exists|i: int| 0 <= i <= k && #[trigger] reversible[i],
    decreases k,
{
    if k > 0 {
        lemma_drive_executed(reversible, (k - 1) as nat);
        if reversible[k as int] {
            assert(exists|i: int| 0 <= i <= k && #[trigger] reversible[i]) by {
                assert(reversible[k as int]);
            }
        }
        if drive(reversible, (k - 1) as nat).undo_captured {
            let i = choose|i: int| 0 <= i <= k - 1 && #[trigger] reversible[i];
            assert(0 <= i <= k && reversible[i]);
        }
        if exists|i: int| 0 <= i <= k && #[trigger] reversible[i] {
            let i = choose|i: int| 0 <= i <= k && #[trigger] reversible[i];
            if i < k {
                assert(exists|i: int| 0 <= i <= k - 1 && #[trigger] reversible[i]);
            }
        }
    }
}

/// A failure with no reversible effect in any context up to the failing step
/// compensates nothing: the steps before made no effect to undo.
pub proof fn lemma_no_effect_no_compensation(reversible: Seq<bool>, k: nat)
    requires
        k < reversible.len(),
        forall|i: int| 0 <= i <= k ==> !reversible[i],
    ensures
        compensations_spec(drive(reversible, k)) == Seq::<nat>::empty(),
{
    lemma_drive_executed(reversible, k);
}

/// A failure at step `k` after a reversible effect was seen compensates every
/// completed step exactly once, in reverse order: `k-1`, ..., `0`.
pub proof fn lemma_compensation_in_reverse(reversible: Seq<bool>, k: nat)
    requires
        k < reversible.len(),
        exists|i: int| 0 <= i <= k && #[trigger] reversible[i],
    ensures
        compensations_spec(drive(reversible, k)).len() == k,
        forall|j: int| 0 <= j < k ==> #[trigger] compensations_spec(drive(reversible, k))[j] == k - 1 - j,
{
    lemma_drive_executed(reversible, k);
}

} // verus!
