//! The course of a run.
//!
//! A run is a number of output ticks. At each tick one snapshot is written,
//! and then a fixed number of steps is taken. `Run` keeps the place in that
//! course and says what comes next; the caller writes the snapshots and
//! carries out the steps.

use vstd::prelude::*;

verus! {

/// What a run does next.
#[derive(Clone, Copy, Debug, PartialEq, Eq, Structural)]
pub enum Tick {
    /// Write a snapshot of the bodies as they are.
    Snapshot,
    /// Take one step.
    Step,
    /// Nothing: the run is over.
    Done,
}

/// What stands at place `at` in the course of a run of `outputs` ticks with
/// `steps` steps in each: a snapshot at the start of each tick, then its
/// steps, and nothing after the last tick.
pub open spec fn tick_at(outputs: nat, steps: nat, at: nat) -> Tick {
    if at >= outputs * (steps + 1) {
        Tick::Done
    } else if at % (steps + 1) == 0 {
        Tick::Snapshot
    } else {
        Tick::Step
    }
}

/// The number of steps among the first `upto` places of the course.
pub open spec fn steps_among(outputs: nat, steps: nat, upto: nat) -> nat
    decreases upto,
{
    if upto == 0 {
        0
    } else {
        steps_among(outputs, steps, (upto - 1) as nat) + if tick_at(
            outputs,
            steps,
            (upto - 1) as nat,
        ) is Step {
            1nat
        } else {
            0nat
        }
    }
}

/// The number of snapshots among the first `upto` places of the course.
pub open spec fn snapshots_among(outputs: nat, steps: nat, upto: nat) -> nat
    decreases upto,
{
    if upto == 0 {
        0
    } else {
        snapshots_among(outputs, steps, (upto - 1) as nat) + if tick_at(
            outputs,
            steps,
            (upto - 1) as nat,
        ) is Snapshot {
            1nat
        } else {
            0nat
        }
    }
}

/// The place in the course of a run.
#[derive(Clone, Copy, Debug)]
pub struct Run {
    outputs: u64,
    steps: u64,
    /// Snapshots handed out so far.
    written: u64,
    /// Steps handed out since the latest snapshot.
    stepped: u64,
}

impl Run {
    /// The number of output ticks of the run.
    pub closed spec fn outputs(self) -> nat {
        self.outputs as nat
    }

    /// The number of steps in each tick.
    pub closed spec fn steps_per_output(self) -> nat {
        self.steps as nat
    }

    /// How many snapshots and steps have been handed out so far.
    pub closed spec fn position(self) -> nat {
        if self.written == 0 {
            0
        } else {
            ((self.written - 1) * (self.steps + 1) + 1 + self.stepped) as nat
        }
    }

    /// The counts stay within the run.
    pub closed spec fn wf(self) -> bool {
        &&& self.written <= self.outputs
        &&& self.stepped <= self.steps
        &&& self.written == 0 ==> self.stepped == 0
    }

    /// A run of `outputs` ticks with `steps_per_output` steps in each, at
    /// its start.
    pub fn new(outputs: u64, steps_per_output: u64) -> (run: Run)
        ensures
            run.wf(),
            run.outputs() == outputs,
            run.steps_per_output() == steps_per_output,
            run.position() == 0,
    {
        Run { outputs, steps: steps_per_output, written: 0, stepped: 0 }
    }

    /// The number of steps in the whole run, `outputs * steps_per_output`,
    /// where it fits.
    pub fn total_steps(&self) -> (total: Option<u64>)
        ensures
            match total {
                Some(count) => count == self.outputs() * self.steps_per_output(),
                None => self.outputs() * self.steps_per_output() > u64::MAX,
            },
    {
        self.outputs.checked_mul(self.steps)
    }

    /// Says what comes next and moves on. Once the run is over it stays
    /// over.
    pub fn next(&mut self) -> (tick: Tick)
        requires
            old(self).wf(),
        ensures
            final(self).wf(),
            final(self).outputs() == old(self).outputs(),
            final(self).steps_per_output() == old(self).steps_per_output(),
            tick == tick_at(old(self).outputs(), old(self).steps_per_output(), old(self).position()),
            final(self).position() == if tick is Done {
                old(self).position()
            } else {
                old(self).position() + 1
            },
    {
        proof {
            lemma_place(
                self.outputs as nat,
                self.steps as nat,
                self.written as nat,
                self.stepped as nat,
            );
        }
        if self.written > 0 && self.stepped < self.steps {
            self.stepped += 1;
            Tick::Step
        } else if self.written < self.outputs {
            proof {
                let width = self.steps + 1;
                assert(self.written * width == (self.written - 1) * width + 1 + self.steps)
                    by (nonlinear_arith)
                    requires
                        width == self.steps + 1,
                ;
            }
            self.written += 1;
            self.stepped = 0;
            Tick::Snapshot
        } else {
            Tick::Done
        }
    }
}

/// What stands at the place reached after `written` snapshots and `stepped`
/// steps since the latest of them.
proof fn lemma_place(outputs: nat, steps: nat, written: nat, stepped: nat)
    requires
        written <= outputs,
        stepped <= steps,
        written == 0 ==> stepped == 0,
    ensures
        ({
            let at = if written == 0 {
                0
            } else {
                ((written - 1) * (steps + 1) + 1 + stepped) as nat
            };
            tick_at(outputs, steps, at) == if written > 0 && stepped < steps {
                Tick::Step
            } else if written < outputs {
                Tick::Snapshot
            } else {
                Tick::Done
            }
        }),
{
    let width = (steps + 1) as int;
    if written == 0 {
        assert(0nat % ((steps + 1) as nat) == 0);
        if outputs >= 1 {
            assert(outputs * (steps + 1) >= 1) by (nonlinear_arith)
                requires
                    outputs >= 1,
                    steps >= 0,
            ;
        } else {
            assert(outputs * (steps + 1) == 0) by (nonlinear_arith)
                requires
                    outputs == 0,
            ;
        }
    } else {
        let at = (written - 1) * width + 1 + stepped;
        assert((written - 1) * width >= 0) by (nonlinear_arith)
            requires
                written >= 1,
                width >= 1,
        ;
        if stepped < steps {
            vstd::arithmetic::div_mod::lemma_fundamental_div_mod_converse(
                at,
                width,
                written - 1,
                (1 + stepped) as int,
            );
            assert(at < outputs * width) by (nonlinear_arith)
                requires
                    at == (written - 1) * width + 1 + stepped,
                    1 + stepped < width,
                    written <= outputs,
                    width >= 1,
            ;
        } else {
            assert(at == written * width) by (nonlinear_arith)
                requires
                    at == (written - 1) * width + 1 + stepped,
                    stepped + 1 == width,
            ;
            vstd::arithmetic::div_mod::lemma_fundamental_div_mod_converse(
                at,
                width,
                written as int,
                0,
            );
            if written < outputs {
                assert(written * width < outputs * width) by (nonlinear_arith)
                    requires
                        written < outputs,
                        width >= 1,
                ;
            } else {
                assert(written * width == outputs * width) by (nonlinear_arith)
                    requires
                        written == outputs,
                ;
            }
        }
    }
}

/// Within tick `tick`, after its snapshot and `stepped` of its steps, the
/// course has held `tick + 1` snapshots and `tick * steps + stepped` steps.
proof fn lemma_counts_within(outputs: nat, steps: nat, tick: nat, stepped: nat)
    requires
        tick < outputs,
        stepped <= steps,
    ensures
        steps_among(outputs, steps, tick * (steps + 1) + 1 + stepped) == tick * steps + stepped,
        snapshots_among(outputs, steps, tick * (steps + 1) + 1 + stepped) == tick + 1,
    decreases tick, stepped,
{
    let width = steps + 1;
    let upto = tick * width + 1 + stepped;
    if stepped > 0 {
        lemma_counts_within(outputs, steps, tick, (stepped - 1) as nat);
        lemma_place(outputs, steps, tick + 1, (stepped - 1) as nat);
        assert((tick + 1 - 1) * width + 1 + (stepped - 1) == upto - 1);
    } else if tick > 0 {
        lemma_counts_within(outputs, steps, (tick - 1) as nat, steps);
        lemma_place(outputs, steps, tick, steps);
        assert((tick - 1) * width + 1 + steps == tick * width) by (nonlinear_arith)
            requires
                width == steps + 1,
        ;
        assert((tick - 1) * steps + steps == tick * steps) by (nonlinear_arith);
    } else {
        lemma_place(outputs, steps, 0, 0);
        assert(tick * width == 0) by (nonlinear_arith)
            requires
                tick == 0,
        ;
        assert(tick * steps == 0) by (nonlinear_arith)
            requires
                tick == 0,
        ;
        assert(steps_among(outputs, steps, 0) == 0);
        assert(snapshots_among(outputs, steps, 0) == 0);
    }
}

/// A run holds one snapshot for each output tick and
/// `outputs * steps` steps in all.
pub proof fn lemma_run_totals(outputs: nat, steps: nat)
    ensures
        snapshots_among(outputs, steps, outputs * (steps + 1)) == outputs,
        steps_among(outputs, steps, outputs * (steps + 1)) == outputs * steps,
{
    if outputs == 0 {
        assert(outputs * (steps + 1) == 0) by (nonlinear_arith)
            requires
                outputs == 0,
        ;
        assert(outputs * steps == 0) by (nonlinear_arith)
            requires
                outputs == 0,
        ;
    } else {
        let last = (outputs - 1) as nat;
        lemma_counts_within(outputs, steps, last, steps);
        assert(last * (steps + 1) + 1 + steps == outputs * (steps + 1)) by (nonlinear_arith)
            requires
                last == outputs - 1,
        ;
        assert(last * steps + steps == outputs * steps) by (nonlinear_arith)
            requires
                last == outputs - 1,
        ;
    }
}

/// Once the run is over it stays over: nothing stands after the last step
/// of the last tick.
pub proof fn lemma_run_ends(outputs: nat, steps: nat, at: nat)
    requires
        at >= outputs * (steps + 1),
    ensures
        tick_at(outputs, steps, at) == Tick::Done,
        steps_among(outputs, steps, at) == outputs * steps,
        snapshots_among(outputs, steps, at) == outputs,
    decreases at,
{
    if at == outputs * (steps + 1) {
        lemma_run_totals(outputs, steps);
    } else {
        lemma_run_ends(outputs, steps, (at - 1) as nat);
    }
}

} // verus!
