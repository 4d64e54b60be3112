use vstd::arithmetic::div_mod::lemma_fundamental_div_mod_converse;
use vstd::prelude::*;

verus! {

/// One unit of work in a time step. The schedule decides the order; the
/// caller carries each action out on the bodies and constraints it owns.
#[derive(Copy, Clone, Debug, PartialEq, Eq, Structural)]
pub enum StepAction {
    /// Advance every body of finite mass by one substep.
    Integrate,
    /// Set every constraint's multiplier back to zero.
    ResetMultipliers,
    /// Solve the constraint with this insertion index once.
    Solve(usize),
    /// Derive the velocities of every body of finite mass from its change of pose.
    UpdateVelocities,
}

/// The number of actions in one substep: integration, the reset of the
/// multipliers, `iterations` sweeps over all constraints, and the velocity update.
pub open spec fn substep_len(iterations: nat, constraints: nat) -> nat {
    3 + iterations * constraints
}

/// The action at place `offset` of a substep.
pub open spec fn substep_action(iterations: nat, constraints: nat, offset: int) -> StepAction
    recommends
        0 <= offset < substep_len(iterations, constraints),
{
    if offset == 0 {
        StepAction::Integrate
    } else if offset == 1 {
        StepAction::ResetMultipliers
    } else if offset < 2 + iterations * constraints {
        StepAction::Solve(((offset - 2) % (constraints as int)) as usize)
    } else {
        StepAction::UpdateVelocities
    }
}

/// The whole time step: `sub_steps` substeps, one after the other.
pub open spec fn step_plan(sub_steps: nat, iterations: nat, constraints: nat) -> Seq<StepAction> {
    Seq::new(
        sub_steps * substep_len(iterations, constraints),
        |p: int| substep_action(iterations, constraints, p % (substep_len(iterations, constraints) as int)),
    )
}

/// Where a substep stands.
#[derive(Copy, Clone, Debug, PartialEq, Eq, Structural)]
enum Stage {
    Integrate,
    Reset,
    Solve,
    Update,
}

/// Walks through the plan of one time step, one action per call of `next`.
///
/// It counts substeps, sweeps and constraints separately, so no count
/// overflows even where the plan is longer than `usize::MAX`.
pub struct StepSchedule {
    sub_steps: usize,
    iterations: usize,
    constraints: usize,
    substep: usize,
    stage: Stage,
    iteration: usize,
    constraint: usize,
}

impl StepSchedule {
    #[verifier::type_invariant]
    spec fn well_formed(self) -> bool {
        &&& self.substep <= self.sub_steps
        &&& self.substep == self.sub_steps ==> self.stage == Stage::Integrate
        &&& if self.stage == Stage::Solve {
            self.iteration < self.iterations && self.constraint < self.constraints
        } else {
            self.iteration == 0 && self.constraint == 0
        }
    }

    pub closed spec fn sub_steps_spec(&self) -> nat {
        self.sub_steps as nat
    }

    pub closed spec fn iterations_spec(&self) -> nat {
        self.iterations as nat
    }

    pub closed spec fn constraints_spec(&self) -> nat {
        self.constraints as nat
    }

    /// The actions of the time step that this schedule walks through.
    pub open spec fn plan(&self) -> Seq<StepAction> {
        step_plan(self.sub_steps_spec(), self.iterations_spec(), self.constraints_spec())
    }

    spec fn offset(&self) -> int {
        match self.stage {
            Stage::Integrate => 0,
            Stage::Reset => 1,
            Stage::Solve => 2 + self.iteration * self.constraints + self.constraint,
            Stage::Update => 2 + self.iterations * self.constraints,
        }
    }

    /// The number of actions already handed out.
    pub closed spec fn position(&self) -> int {
        self.substep * substep_len(self.iterations as nat, self.constraints as nat) + self.offset()
    }

    pub fn new(sub_steps: usize, iterations: usize, constraints: usize) -> (schedule: StepSchedule)
        ensures
            schedule.sub_steps_spec() == sub_steps,
            schedule.iterations_spec() == iterations,
            schedule.constraints_spec() == constraints,
            schedule.position() == 0,
    {
        let schedule = StepSchedule {
            sub_steps,
            iterations,
            constraints,
            substep: 0,
            stage: Stage::Integrate,
            iteration: 0,
            constraint: 0,
        };
        assert(schedule.position() == 0) by (nonlinear_arith)
            requires
                schedule.substep == 0,
                schedule.offset() == 0,
                schedule.position() == schedule.substep * substep_len(
                    schedule.iterations as nat,
                    schedule.constraints as nat,
                ) + schedule.offset(),
        ;
        schedule
    }

    /// Hands out the next action of the plan, or `None` once the plan is done.
    pub fn next(&mut self) -> (action: Option<StepAction>)
        ensures
            final(self).plan() == old(self).plan(),
            final(self).sub_steps_spec() == old(self).sub_steps_spec(),
            final(self).iterations_spec() == old(self).iterations_spec(),
            final(self).constraints_spec() == old(self).constraints_spec(),
            0 <= old(self).position() <= old(self).plan().len(),
            old(self).position() < old(self).plan().len() ==> action == Some(
                old(self).plan()[old(self).position()],
            ) && final(self).position() == old(self).position() + 1,
            old(self).position() == old(self).plan().len() ==> action.is_none()
                && final(self).position() == old(self).position(),
    {
        proof {
            use_type_invariant(&*self);
            self.lemma_position();
        }
        if self.substep >= self.sub_steps {
            return None;
        }
        let ghost before = *self;
        let (action, after) = match self.stage {
            Stage::Integrate => (
                StepAction::Integrate,
                StepSchedule {
                    sub_steps: self.sub_steps,
                    iterations: self.iterations,
                    constraints: self.constraints,
                    substep: self.substep,
                    stage: Stage::Reset,
                    iteration: 0,
                    constraint: 0,
                },
            ),
            Stage::Reset => {
                let stage = if self.iterations > 0 && self.constraints > 0 {
                    Stage::Solve
                } else {
                    Stage::Update
                };
                (
                    StepAction::ResetMultipliers,
                    StepSchedule {
                        sub_steps: self.sub_steps,
                        iterations: self.iterations,
                        constraints: self.constraints,
                        substep: self.substep,
                        stage,
                        iteration: 0,
                        constraint: 0,
                    },
                )
            },
            Stage::Solve => {
                let after = if self.constraint + 1 < self.constraints {
                    StepSchedule {
                        sub_steps: self.sub_steps,
                        iterations: self.iterations,
                        constraints: self.constraints,
                        substep: self.substep,
                        stage: Stage::Solve,
                        iteration: self.iteration,
                        constraint: self.constraint + 1,
                    }
                } else if self.iteration + 1 < self.iterations {
                    StepSchedule {
                        sub_steps: self.sub_steps,
                        iterations: self.iterations,
                        constraints: self.constraints,
                        substep: self.substep,
                        stage: Stage::Solve,
                        iteration: self.iteration + 1,
                        constraint: 0,
                    }
                } else {
                    StepSchedule {
                        sub_steps: self.sub_steps,
                        iterations: self.iterations,
                        constraints: self.constraints,
                        substep: self.substep,
                        stage: Stage::Update,
                        iteration: 0,
                        constraint: 0,
                    }
                };
                (StepAction::Solve(self.constraint), after)
            },
            Stage::Update => (
                StepAction::UpdateVelocities,
                StepSchedule {
                    sub_steps: self.sub_steps,
                    iterations: self.iterations,
                    constraints: self.constraints,
                    substep: self.substep + 1,
                    stage: Stage::Integrate,
                    iteration: 0,
                    constraint: 0,
                },
            ),
        };
        proof {
            before.lemma_successor(after);
        }
        *self = after;
        Some(action)
    }

    /// A well-formed schedule stands inside its plan or at its end, and where
    /// it stands inside, the plan's action there is the one of its stage.
    proof fn lemma_position(self)
        requires
            self.well_formed(),
        ensures
            0 <= self.position() <= self.plan().len(),
            self.substep == self.sub_steps <==> self.position() == self.plan().len(),
            self.substep < self.sub_steps ==> self.plan()[self.position()] == (match self.stage {
                Stage::Integrate => StepAction::Integrate,
                Stage::Reset => StepAction::ResetMultipliers,
                Stage::Solve => StepAction::Solve(self.constraint),
                Stage::Update => StepAction::UpdateVelocities,
            }),
    {
        let s = self.substep as int;
        let n = self.sub_steps as int;
        let k = self.iterations as int;
        let m = self.constraints as int;
        let len = substep_len(self.iterations as nat, self.constraints as nat) as int;
        let off = self.offset();
        assert(len == 3 + k * m);
        assert(0 <= k * m) by (nonlinear_arith)
            requires
                0 <= k,
                0 <= m,
        ;
        if self.stage == Stage::Solve {
            let it = self.iteration as int;
            let c = self.constraint as int;
            assert(0 <= it * m && it * m + m <= k * m) by (nonlinear_arith)
                requires
                    0 <= it < k,
                    0 <= m,
            ;
            lemma_fundamental_div_mod_converse(it * m + c, m, it, c);
            assert(off - 2 == it * m + c);
        }
        assert(0 <= off < len);
        assert(0 <= s * len && (s < n ==> s * len + len <= n * len) && (s == n ==> s * len == n
            * len)) by (nonlinear_arith)
            requires
                0 <= s <= n,
                0 < len,
        ;
        assert(self.plan().len() == n * len);
        if s < n {
            lemma_fundamental_div_mod_converse(s * len + off, len, s, off);
            assert(self.position() % len == off);
        }
    }

    /// The step from `self` to `after` that `next` takes moves one place on.
    proof fn lemma_successor(self, after: StepSchedule)
        requires
            self.well_formed(),
            self.substep < self.sub_steps,
            after.sub_steps == self.sub_steps,
            after.iterations == self.iterations,
            after.constraints == self.constraints,
            match self.stage {
                Stage::Integrate => after.substep == self.substep && after.stage == Stage::Reset
                    && after.iteration == 0 && after.constraint == 0,
                Stage::Reset => after.substep == self.substep && after.iteration == 0
                    && after.constraint == 0 && after.stage == (if self.iterations > 0
                    && self.constraints > 0 {
                    Stage::Solve
                } else {
                    Stage::Update
                }),
                Stage::Solve => after.substep == self.substep && (if self.constraint + 1
                    < self.constraints {
                    after.stage == Stage::Solve && after.iteration == self.iteration
                        && after.constraint == self.constraint + 1
                } else if self.iteration + 1 < self.iterations {
                    after.stage == Stage::Solve && after.iteration == self.iteration + 1
                        && after.constraint == 0
                } else {
                    after.stage == Stage::Update && after.iteration == 0 && after.constraint == 0
                }),
                Stage::Update => after.substep == self.substep + 1 && after.stage
                    == Stage::Integrate && after.iteration == 0 && after.constraint == 0,
            },
        ensures
            after.well_formed(),
            after.position() == self.position() + 1,
            after.plan() == self.plan(),
    {
        let s = self.substep as int;
        let k = self.iterations as int;
        let m = self.constraints as int;
        let it = self.iteration as int;
        let len = substep_len(self.iterations as nat, self.constraints as nat) as int;
        assert(len == 3 + k * m);
        assert((s + 1) * len == s * len + len) by (nonlinear_arith);
        assert((it + 1) * m == it * m + m) by (nonlinear_arith);
        assert((k == 0 || m == 0) ==> k * m == 0) by (nonlinear_arith);
        assert(0 * m == 0);
        if self.stage == Stage::Solve && self.constraint + 1 >= self.constraints && self.iteration
            + 1 >= self.iterations {
            assert(it * m + m == k * m) by (nonlinear_arith)
                requires
                    it + 1 == k,
            ;
        }
    }
}

/// The plan holds `sub_steps` times the actions of one substep, so the number
/// of constraint solves in a time step is bounded by
/// `sub_steps * iterations * constraints`.
pub proof fn lemma_plan_len(sub_steps: nat, iterations: nat, constraints: nat)
    ensures
        step_plan(sub_steps, iterations, constraints).len() == sub_steps * (3 + iterations
            * constraints),
{
}

/// Every substep begins with the integration, then resets the multipliers,
/// and ends with the velocity update.
pub proof fn lemma_substep_frame(sub_steps: nat, iterations: nat, constraints: nat, substep: nat)
    requires
        substep < sub_steps,
    ensures
        ({
            let len = substep_len(iterations, constraints) as int;
            let plan = step_plan(sub_steps, iterations, constraints);
            &&& substep * len + len <= plan.len()
            &&& plan[substep * len] == StepAction::Integrate
            &&& plan[substep * len + 1] == StepAction::ResetMultipliers
            &&& plan[substep * len + len - 1] == StepAction::UpdateVelocities
        }),
{
    let len = substep_len(iterations, constraints) as int;
    let s = substep as int;
    assert(0 <= s * len && s * len + len <= sub_steps * len) by (nonlinear_arith)
        requires
            0 <= s < sub_steps,
            0 < len,
    ;
    lemma_fundamental_div_mod_converse(s * len, len, s, 0);
    lemma_fundamental_div_mod_converse(s * len + 1, len, s, 1);
    lemma_fundamental_div_mod_converse(s * len + len - 1, len, s, len - 1);
}

/// Between the reset and the velocity update of every substep, the
/// constraints are solved in insertion order, sweep after sweep: the solve of
/// constraint `constraint` in sweep `iteration` stands at place
/// `2 + iteration * constraints + constraint` of the substep.
pub proof fn lemma_sweep_order(
    sub_steps: nat,
    iterations: nat,
    constraints: nat,
    substep: nat,
    iteration: nat,
    constraint: nat,
)
    requires
        substep < sub_steps,
        iteration < iterations,
        constraint < constraints,
    ensures
        ({
            let len = substep_len(iterations, constraints) as int;
            let place = substep * len + 2 + iteration * constraints + constraint;
            let plan = step_plan(sub_steps, iterations, constraints);
            &&& place < plan.len()
            &&& plan[place] == StepAction::Solve(constraint as usize)
        }),
{
    let len = substep_len(iterations, constraints) as int;
    let s = substep as int;
    let m = constraints as int;
    let it = iteration as int;
    let c = constraint as int;
    let off = 2 + it * m + c;
    assert(0 <= it * m && it * m + m <= iterations * m) by (nonlinear_arith)
        requires
            0 <= it < iterations,
            0 <= m,
    ;
    assert(0 <= s * len && s * len + len <= sub_steps * len) by (nonlinear_arith)
        requires
            0 <= s < sub_steps,
            0 < len,
    ;
    lemma_fundamental_div_mod_converse(s * len + off, len, s, off);
    lemma_fundamental_div_mod_converse(it * m + c, m, it, c);
    assert(off - 2 == it * m + c);
}

} // verus!
