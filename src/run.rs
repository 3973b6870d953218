use vstd::prelude::*;

verus! {

/// What the driver of a simulation run does next.
#[derive(Clone, Copy, Debug, PartialEq, Eq, Structural)]
pub enum Action {
    /// Emit one state record of every point.
    Emit,
    /// Advance the whole network by one fixed time step.
    Advance,
    /// The run is over.
    Finish,
}

/// The actions of a run of `n` steps: the initial record, then one step
/// followed by one record, `n` times.
pub open spec fn schedule(n: nat) -> Seq<Action> {
    Seq::new(2 * n + 1, |i: int| if i % 2 == 0 { Action::Emit } else { Action::Advance })
}

/// The action at position `p` of a run of `n` steps; past its end, `Finish`.
pub open spec fn action_at(n: nat, p: nat) -> Action {
    if p < schedule(n).len() {
        schedule(n)[p as int]
    } else {
        Action::Finish
    }
}

pub open spec fn is_emit(a: Action) -> bool {
    a == Action::Emit
}

pub open spec fn is_advance(a: Action) -> bool {
    a == Action::Advance
}

/// A fixed-length run: no convergence test, no early end.
pub struct Run {
    steps: u64,
    done: u64,
    emitted: bool,
}

impl Run {
    /// The number of steps the run was made for.
    pub closed spec fn total(self) -> nat {
        self.steps as nat
    }

    /// How many actions the run has handed out.
    pub closed spec fn position(self) -> nat {
        2 * (self.done as nat) + if self.emitted { 1nat } else { 0nat }
    }

    pub closed spec fn well_formed(self) -> bool {
        self.done <= self.steps
    }

    pub fn new(steps: u64) -> (r: Run)
        ensures
            r.well_formed(),
            r.total() == steps,
            r.position() == 0,
    {
        Run { steps, done: 0, emitted: false }
    }

    /// Hands out the next action of the run's schedule, then `Finish`
    /// for ever.
    pub fn next(&mut self) -> (a: Action)
        requires
            old(self).well_formed(),
        ensures
            final(self).well_formed(),
            final(self).total() == old(self).total(),
            a == action_at(old(self).total(), old(self).position()),
            final(self).position() == if a == Action::Finish {
                old(self).position()
            } else {
                old(self).position() + 1
            },
    {
        if !self.emitted {
            self.emitted = true;
            Action::Emit
        } else if self.done < self.steps {
            self.done = self.done + 1;
            self.emitted = false;
            Action::Advance
        } else {
            Action::Finish
        }
    }
}

/// A run of `n` steps emits `n + 1` records and advances `n` times, the
/// initial record first and a record after every step.
pub proof fn lemma_record_count(n: nat)
    ensures
        schedule(n).filter(|a: Action| is_emit(a)).len() == n + 1,
        schedule(n).filter(|a: Action| is_advance(a)).len() == n,
        schedule(n)[0] == Action::Emit,
        schedule(n).last() == Action::Emit,
    decreases n,
{
    if n > 0 {
        let m = (n - 1) as nat;
        lemma_record_count(m);
        let tail = seq![Action::Advance, Action::Emit];
        assert(schedule(n) =~= schedule(m) + tail);
        Seq::filter_distributes_over_add(schedule(m), tail, |a: Action| is_emit(a));
        Seq::filter_distributes_over_add(schedule(m), tail, |a: Action| is_advance(a));
        reveal_with_fuel(Seq::filter, 3);
        assert(tail.filter(|a: Action| is_emit(a)) =~= seq![Action::Emit]);
        assert(tail.filter(|a: Action| is_advance(a)) =~= seq![Action::Advance]);
    } else {
        reveal_with_fuel(Seq::filter, 2);
        assert(schedule(0) =~= seq![Action::Emit]);
        assert(schedule(0).filter(|a: Action| is_emit(a)) =~= seq![Action::Emit]);
        assert(schedule(0).filter(|a: Action| is_advance(a)) =~= Seq::<Action>::empty());
    }
}

} // verus!
