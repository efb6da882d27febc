use vstd::prelude::*;
use std::collections::VecDeque;
use crate::alphabet::{Color, State};
use crate::context::Ctx;

verus! {

/// A transition rule: called once per step with the machine's context, it
/// reads the symbol under the head, writes one, moves the head and sets the
/// next control state. It may keep state of its own between calls.
///
/// `apply` returns whether the rule handled the context; `false` is a
/// coverage gap (a state and symbol the rule has no transition for), on
/// which `run` stops.
pub trait Transition<S, C>: Sized {
    /// What one call of `apply` does: from the rule `self` and the context
    /// `before`, it leaves the rule `rule_after` and the context `after`, and
    /// returns `handled`. A rule that does not state its effect promises
    /// nothing.
    open spec fn effect(
        &self,
        before: Ctx<S, C>,
        rule_after: Self,
        after: Ctx<S, C>,
        handled: bool,
    ) -> bool {
        true
    }

    fn apply(&mut self, ctx: &mut Ctx<S, C>) -> (handled: bool)
        ensures
            old(self).effect(*old(ctx), *final(self), *final(ctx), handled),
    ;
}

/// Each entry of `trace` after the first is what one handled application of
/// the rule leaves from the entry before it, whose control state does not
/// halt.
pub open spec fn is_run<S: State, C: Color, R: Transition<S, C>>(
    trace: Seq<(R, Ctx<S, C>)>,
) -> bool {
    forall|i: int|
        0 <= i < trace.len() - 1 ==> !(#[trigger] trace[i]).1.state.spec_is_halt()
            && trace[i].0.effect(trace[i].1, trace[i + 1].0, trace[i + 1].1, true)
}

/// `k` handled applications of the rule lead from `(rule0, ctx0)` to
/// `(rule1, ctx1)`, each from a control state that does not halt.
pub open spec fn runs<S: State, C: Color, R: Transition<S, C>>(
    rule0: R,
    ctx0: Ctx<S, C>,
    rule1: R,
    ctx1: Ctx<S, C>,
    k: nat,
) -> bool {
    exists|trace: Seq<(R, Ctx<S, C>)>|
        #[trigger] is_run(trace) && trace.len() == k + 1 && trace[0] == (rule0, ctx0)
            && trace.last() == (rule1, ctx1)
}

/// The number of cells of `tape` that are not blank.
pub open spec fn non_blank_count<C: Color>(tape: Seq<C>) -> nat
    decreases tape.len(),
{
    if tape.len() == 0 {
        0
    } else {
        non_blank_count(tape.drop_last()) + if tape.last() == C::spec_blank() {
            0nat
        } else {
            1nat
        }
    }
}

/// A single-tape machine driven by the transition rule `R`.
pub struct TuringMachine<S, C, R> {
    steps: usize,
    ctx: Ctx<S, C>,
    transition_fn: R,
}

impl<S: State, C: Color, R: Transition<S, C>> TuringMachine<S, C, R> {
    /// Steps taken so far.
    pub closed spec fn step_count(&self) -> nat {
        self.steps as nat
    }

    /// The control state.
    pub open spec fn control(&self) -> S {
        self.context().state
    }

    /// The materialized tape.
    pub open spec fn cells(&self) -> Seq<C> {
        self.context().tape@
    }

    /// The transition rule as it stands now.
    pub closed spec fn rule(&self) -> R {
        self.transition_fn
    }

    /// The head, control state and tape that the rule sees.
    pub closed spec fn context(&self) -> Ctx<S, C> {
        self.ctx
    }

    /// The head's index into the tape.
    pub open spec fn head_index(&self) -> nat {
        self.context().head as nat
    }

    /// A machine on `tape`, in the initial state, with the head on the first
    /// cell and no steps taken.
    pub fn new(tape: Vec<C>, transition_fn: R) -> (r: Self)
        ensures
            r.step_count() == 0,
            r.head_index() == 0,
            r.control() == S::spec_initial(),
            r.cells() == tape@,
            r.rule() == transition_fn,
    {
        let mut rest = tape;
        let mut cells: VecDeque<C> = VecDeque::new();
        while rest.len() > 0
            invariant
                rest@ + cells@ == tape@,
            decreases rest@.len(),
        {
            let last = rest.pop().unwrap();
            cells.push_front(last);
            proof {
                assert(rest@ + cells@ =~= tape@);
            }
        }
        proof {
            assert(cells@ =~= tape@);
        }
        TuringMachine { steps: 0, ctx: Ctx { head: 0, state: S::initial(), tape: cells }, transition_fn }
    }

    /// Steps until the control state halts or the rule reports a coverage
    /// gap. The step counter cannot pass `usize::MAX`, so the run also stops
    /// there. Returns `false` on a coverage gap: the last step was not
    /// handled.
    pub fn run(&mut self) -> (r: bool)
        ensures
            final(self).step_count() >= old(self).step_count(),
            old(self).control().spec_is_halt() ==> *final(self) == *old(self) && r,
            r ==> runs(
                old(self).rule(),
                old(self).context(),
                final(self).rule(),
                final(self).context(),
                (final(self).step_count() - old(self).step_count()) as nat,
            ),
            r ==> final(self).control().spec_is_halt() || final(self).step_count() == usize::MAX,
            !r ==> final(self).step_count() > old(self).step_count() && exists|
                rm: R,
                cm: Ctx<S, C>,
            |
                #[trigger] runs(
                    old(self).rule(),
                    old(self).context(),
                    rm,
                    cm,
                    (final(self).step_count() - old(self).step_count() - 1) as nat,
                ) && !cm.state.spec_is_halt() && rm.effect(
                    cm,
                    final(self).rule(),
                    final(self).context(),
                    false,
                ),
    {
        let ghost mut trace: Seq<(R, Ctx<S, C>)> = seq![(self.rule(), self.context())];
        proof {
            assert(is_run(trace));
        }
        loop
            invariant
                self.steps >= old(self).steps,
                old(self).control().spec_is_halt() ==> *self == *old(self),
                is_run(trace),
                trace.len() == self.steps - old(self).steps + 1,
                trace[0] == (old(self).rule(), old(self).context()),
                trace.last() == (self.rule(), self.context()),
            decreases usize::MAX - self.steps,
        {
            if self.ctx.state.is_halt() || self.steps == usize::MAX {
                proof {
                    assert(runs(
                        old(self).rule(),
                        old(self).context(),
                        self.rule(),
                        self.context(),
                        (self.steps - old(self).steps) as nat,
                    ));
                }
                return true;
            }
            let ghost rule_before = self.rule();
            let ghost ctx_before = self.context();
            let handled = self.step();
            proof {
                assert(runs(
                    old(self).rule(),
                    old(self).context(),
                    rule_before,
                    ctx_before,
                    (self.steps - old(self).steps - 1) as nat,
                ));
            }
            if !handled {
                return false;
            }
            proof {
                let next = trace.push((self.rule(), self.context()));
                assert forall|i: int| 0 <= i < next.len() - 1 implies !(#[trigger] next[i]).1.state.spec_is_halt()
                    && next[i].0.effect(next[i].1, next[i + 1].0, next[i + 1].1, true) by {
                    if i < trace.len() - 1 {
                        assert(next[i] == trace[i] && next[i + 1] == trace[i + 1]);
                    }
                }
                trace = next;
            }
        }
    }

    pub fn steps(&self) -> (r: usize)
        ensures
            r == self.step_count(),
    {
        self.steps
    }

    pub fn tape(&self) -> (r: &VecDeque<C>)
        ensures
            r@ == self.cells(),
    {
        &self.ctx.tape
    }

    pub fn state(&self) -> (r: &S)
        ensures
            *r == self.control(),
    {
        &self.ctx.state
    }

    /// Applies the transition rule once to the machine's context and counts
    /// the step, whatever the rule did, also on a halting state. Returns
    /// whether the rule handled the context.
    pub fn step(&mut self) -> (handled: bool)
        requires
            old(self).step_count() < usize::MAX,
        ensures
            final(self).step_count() == old(self).step_count() + 1,
            old(self).rule().effect(
                old(self).context(),
                final(self).rule(),
                final(self).context(),
                handled,
            ),
    {
        let handled = self.run_transition();
        self.steps = self.steps + 1;
        handled
    }

    fn run_transition(&mut self) -> (handled: bool)
        ensures
            final(self).steps == old(self).steps,
            old(self).rule().effect(
                old(self).context(),
                final(self).rule(),
                final(self).context(),
                handled,
            ),
    {
        self.transition_fn.apply(&mut self.ctx)
    }

    /// The number of tape cells that do not hold the blank symbol.
    pub fn count_non_zeros(&self) -> (r: usize)
        ensures
            r == non_blank_count(self.cells()),
    {
        let blank = C::blank();
        let mut n: usize = 0;
        let mut i: usize = 0;
        while i < self.ctx.tape.len()
            invariant
                i <= self.ctx.tape@.len(),
                blank == C::spec_blank(),
                n == non_blank_count(self.ctx.tape@.take(i as int)),
                n <= i,
            decreases self.ctx.tape@.len() - i,
        {
            proof {
                assert(self.ctx.tape@.take(i + 1).drop_last() =~= self.ctx.tape@.take(i as int));
            }
            if !self.ctx.tape[i].same(&blank) {
                n = n + 1;
            }
            i = i + 1;
        }
        proof {
            assert(self.ctx.tape@.take(i as int) =~= self.ctx.tape@);
        }
        n
    }
}

} // verus!
