use crate::command::Command;
use vstd::prelude::*;

verus! {

/// How strongly a task holds on to control. `Force` tasks are never preempted by the strategy.
#[derive(Clone, Copy, Debug, PartialEq, Eq, Structural)]
pub enum Priority {
    Idle,
    Striking,
    Force,
}

/// What the task below learns when control comes back to it.
#[derive(Clone, Copy, Debug, PartialEq, Eq, Structural)]
pub enum Resume {
    /// Nothing happened underneath since the last call (or the task is new).
    Fresh,
    /// The child it called finished normally.
    ChildReturned,
    /// The child it called gave up.
    ChildAborted,
}

/// The outcome of one `execute` step.
pub enum Action<B> {
    /// Emit this tick's command and stay on top of the stack.
    Yield(Command),
    /// Push a child and run it at once.
    Call(B),
    /// Hand over to another task at the same depth.
    TailCall(B),
    /// Finish; the parent resumes within the same tick.
    Return,
    /// Give up; the parent resumes within the same tick and is told so.
    Abort,
}

/// A resumable unit of control logic. `C` is the per-tick context it reads.
pub trait Behavior<C>: Sized {
    spec fn priority_spec(&self) -> Priority;

    /// The task's name.
    spec fn name_spec(&self) -> Seq<char>;

    /// The effect of one `execute` step: the task, in context `ctx` and with `resume`, turns
    /// into `next` and returns `r`.
    spec fn execute_spec(self, ctx: C, resume: Resume, next: Self, r: Action<Self>) -> bool;

    fn name(&self) -> (r: &'static str)
        ensures
            r@ == self.name_spec(),
    ;

    fn priority(&self) -> (r: Priority)
        ensures
            r == self.priority_spec(),
    ;

    fn execute(&mut self, ctx: &mut C, resume: Resume) -> (r: Action<Self>)
        ensures
            old(self).execute_spec(*old(ctx), resume, *final(self), r),
    ;
}

/// The policy above the task stack: what to run when nothing is running, and when to preempt.
pub trait Strategy<C, B> {
    /// `r` is a task the strategy, as it is, may start in context `ctx` when nothing runs.
    spec fn baseline_spec(&self, ctx: C, r: B) -> bool;

    /// `r` is what the strategy, as it is, may answer in context `ctx` when asked whether to
    /// preempt `current`: `Some` of the task to run instead, or `None`.
    spec fn interrupt_spec(&self, ctx: C, current: B, r: Option<B>) -> bool;

    fn baseline(&mut self, ctx: &mut C) -> (r: B)
        ensures
            old(self).baseline_spec(*old(ctx), r),
    ;

    fn interrupt(&mut self, ctx: &mut C, current: &B) -> (r: Option<B>)
        ensures
            old(self).interrupt_spec(*old(ctx), *current, r),
    ;
}

/// The stack after one action of its top task. Only `Call` grows it, only `Return` and
/// `Abort` shrink it.
pub open spec fn stack_after<B>(stack: Seq<B>, a: Action<B>) -> Seq<B> {
    match a {
        Action::Yield(_) => stack,
        Action::Call(child) => stack.push(child),
        Action::TailCall(next) => if stack.len() == 0 {
            seq![next]
        } else {
            stack.drop_last().push(next)
        },
        Action::Return => if stack.len() == 0 {
            stack
        } else {
            stack.drop_last()
        },
        Action::Abort => if stack.len() == 0 {
            stack
        } else {
            stack.drop_last()
        },
    }
}

pub open spec fn is_call<B>(a: Action<B>) -> bool {
    a is Call
}

pub open spec fn is_pop<B>(a: Action<B>) -> bool {
    a is Return || a is Abort
}

/// The stack after a sequence of actions, each taken by the task then on top.
pub open spec fn run_actions<B>(stack: Seq<B>, acts: Seq<Action<B>>) -> Seq<B>
    decreases acts.len(),
{
    if acts.len() == 0 {
        stack
    } else {
        stack_after(run_actions(stack, acts.drop_last()), acts.last())
    }
}

/// Number of `Call`s in a sequence of actions.
pub open spec fn calls<B>(acts: Seq<Action<B>>) -> int
    decreases acts.len(),
{
    if acts.len() == 0 {
        0
    } else {
        calls(acts.drop_last()) + if is_call(acts.last()) {
            1int
        } else {
            0
        }
    }
}

/// Number of `Return`s and `Abort`s in a sequence of actions.
pub open spec fn pops<B>(acts: Seq<Action<B>>) -> int
    decreases acts.len(),
{
    if acts.len() == 0 {
        0
    } else {
        pops(acts.drop_last()) + if is_pop(acts.last()) {
            1int
        } else {
            0
        }
    }
}

/// The stack after one step in which the task on top became `next` and took action `a`.
/// On an empty stack only a `Call` has an effect: it starts a new root.
pub open spec fn step_after<B>(stack: Seq<B>, next: B, a: Action<B>) -> Seq<B> {
    if stack.len() == 0 {
        stack_after(stack, a)
    } else {
        stack_after(stack.drop_last().push(next), a)
    }
}

/// The stack after a sequence of steps, each by the task then on top.
pub open spec fn run_steps<B>(stack: Seq<B>, steps: Seq<(B, Action<B>)>) -> Seq<B>
    decreases steps.len(),
{
    if steps.len() == 0 {
        stack
    } else {
        let last = steps.last();
        step_after(run_steps(stack, steps.drop_last()), last.0, last.1)
    }
}

pub open spec fn actions_of<B>(steps: Seq<(B, Action<B>)>) -> Seq<Action<B>> {
    steps.map_values(|p: (B, Action<B>)| p.1)
}

/// A task's own state changing never changes the depth: steps move the stack exactly as their
/// actions do, as far as its length goes.
pub proof fn lemma_steps_len<B>(stack: Seq<B>, steps: Seq<(B, Action<B>)>)
    ensures
        run_steps(stack, steps).len() == run_actions(stack, actions_of(steps)).len(),
    decreases steps.len(),
{
    if steps.len() > 0 {
        lemma_steps_len(stack, steps.drop_last());
        assert(actions_of(steps).drop_last() =~= actions_of(steps.drop_last()));
    }
}

/// Stack discipline, in general: when every action but a `Call` is taken by a task that is on
/// the stack (a `Call` on an empty stack starts a new root), the depth is the starting depth
/// plus the calls not yet returned from or aborted.
pub proof fn lemma_depth_formula<B>(stack: Seq<B>, acts: Seq<Action<B>>)
    requires
        forall|k: int|
            0 <= k < acts.len() && !is_call(#[trigger] acts[k]) ==> run_actions(stack, acts.take(k)).len()
                > 0,
    ensures
        run_actions(stack, acts).len() == stack.len() + calls(acts) - pops(acts),
    decreases acts.len(),
{
    if acts.len() > 0 {
        let init = acts.drop_last();
        assert forall|k: int| 0 <= k < init.len() && !is_call(#[trigger] init[k]) implies run_actions(
            stack,
            init.take(k),
        ).len() > 0 by {
            assert(init.take(k) =~= acts.take(k));
            assert(init[k] == acts[k]);
        }
        lemma_depth_formula(stack, init);
        assert(acts.take(init.len() as int) =~= init);
        let k = init.len() as int;
        if !is_call(acts[k]) {
            assert(run_actions(stack, acts.take(k)).len() > 0);
        }
    }
}

/// Stack discipline: as long as some task is running, the depth is the starting depth plus
/// the calls not yet returned from or aborted, whatever the interleaving of yields, calls,
/// tail calls, returns and aborts.
pub proof fn lemma_depth_counts_open_calls<B>(stack: Seq<B>, acts: Seq<Action<B>>)
    requires
        forall|k: int| 0 <= k < acts.len() ==> #[trigger] run_actions(stack, acts.take(k)).len() > 0,
    ensures
        run_actions(stack, acts).len() == stack.len() + calls(acts) - pops(acts),
    decreases acts.len(),
{
    if acts.len() > 0 {
        let init = acts.drop_last();
        assert forall|k: int| 0 <= k < init.len() implies #[trigger] run_actions(stack, init.take(k)).len()
            > 0 by {
            assert(init.take(k) =~= acts.take(k));
        }
        lemma_depth_counts_open_calls(stack, init);
        assert(acts.take(init.len() as int) =~= init);
    }
}

/// Returning or aborting from the only task left empties the stack, so a new baseline task
/// has to be chosen.
pub proof fn lemma_root_exit_empties<B>(root: B, a: Action<B>)
    requires
        is_pop(a),
    ensures
        stack_after(seq![root], a).len() == 0,
{
}

/// Upper bound on the `execute` steps in one tick. Reaching it means the tasks keep
/// handing control around without producing a command; the tick then emits the safe command.
pub const MAX_STEPS_PER_TICK: u32 = 64;

/// Drives the task stack: one resolution per tick, with the strategy's preemption check first.
pub struct Runner<B, S> {
    stack: Vec<B>,
    strategy: S,
    /// The stack as the last tick's resolution began (after any preemption).
    tick_start: Ghost<Seq<B>>,
    /// The steps of the last tick's resolution, in order: the task that acted (as it was
    /// after acting) and its action. A baseline task the strategy supplied for an empty stack
    /// appears as that task calling itself.
    tick_steps: Ghost<Seq<(B, Action<B>)>>,
    /// The strategy's answer when last asked whether to preempt (`None` also when not asked).
    interrupt_answer: Ghost<Option<B>>,
}

impl<B, S> Runner<B, S> {
    pub closed spec fn stack_view(&self) -> Seq<B> {
        self.stack@
    }

    pub closed spec fn strategy_view(&self) -> S {
        self.strategy
    }

    pub closed spec fn tick_start(&self) -> Seq<B> {
        self.tick_start@
    }

    pub closed spec fn tick_steps(&self) -> Seq<(B, Action<B>)> {
        self.tick_steps@
    }

    pub closed spec fn interrupt_answer(&self) -> Option<B> {
        self.interrupt_answer@
    }

    pub fn new(strategy: S) -> (r: Runner<B, S>)
        ensures
            r.stack_view().len() == 0,
            r.strategy_view() == strategy,
    {
        Runner {
            stack: Vec::new(),
            strategy,
            tick_start: Ghost(Seq::empty()),
            tick_steps: Ghost(Seq::empty()), interrupt_answer: Ghost(None),
        }
    }

    pub fn with_current(strategy: S, behavior: B) -> (r: Runner<B, S>)
        ensures
            r.stack_view() == seq![behavior],
            r.strategy_view() == strategy,
    {
        let mut stack = Vec::new();
        stack.push(behavior);
        Runner { stack, strategy, tick_start: Ghost(Seq::empty()), tick_steps: Ghost(Seq::empty()), interrupt_answer: Ghost(None) }
    }

    /// Drops every running task and starts over with `behavior`.
    pub fn reset_to(&mut self, behavior: B)
        ensures
            final(self).stack_view() == seq![behavior],
            final(self).strategy_view() == old(self).strategy_view(),
    {
        let mut stack = Vec::new();
        stack.push(behavior);
        self.stack = stack;
    }

    pub fn depth(&self) -> (r: usize)
        ensures
            r == self.stack_view().len(),
    {
        self.stack.len()
    }

    pub fn top(&self) -> (r: Option<&B>)
        ensures
            self.stack_view().len() == 0 ==> r.is_none(),
            self.stack_view().len() > 0 ==> r == Some(&self.stack_view().last()),
    {
        if self.stack.len() == 0 {
            None
        } else {
            Some(&self.stack[self.stack.len() - 1])
        }
    }
}

/// Applies the action that the task on top of `stack` returned; `top` is that task, already
/// taken off the stack. Returns the command if the action was a yield.
fn apply<B>(stack: &mut Vec<B>, top: B, a: Action<B>) -> (r: Option<Command>)
    ensures
        final(stack)@ == stack_after(old(stack)@.push(top), a),
        r == (match a {
            Action::Yield(c) => Some(c),
            _ => None::<Command>,
        }),
{
    match a {
        Action::Yield(c) => {
            stack.push(top);
            Some(c)
        },
        Action::Call(child) => {
            stack.push(top);
            stack.push(child);
            None
        },
        Action::TailCall(next) => {
            proof {
                assert(old(stack)@.push(top).drop_last() =~= old(stack)@);
            }
            stack.push(next);
            None
        },
        Action::Return => {
            proof {
                assert(old(stack)@.push(top).drop_last() =~= old(stack)@);
            }
            None
        },
        Action::Abort => {
            proof {
                assert(old(stack)@.push(top).drop_last() =~= old(stack)@);
            }
            None
        },
    }
}

impl<B, S> Runner<B, S> {
    /// The strategy may replace the whole stack by a new task, unless the task on top is a
    /// `Force` task. Returns whether it did.
    pub fn consider_interrupt<C>(&mut self, ctx: &mut C) -> (r: bool) where
        B: Behavior<C>,
        S: Strategy<C, B>,

        ensures
            !may_interrupt::<C, B>(old(self).stack_view()) ==> !r && final(self).stack_view() == old(
                self,
            ).stack_view() && final(self).strategy_view() == old(self).strategy_view(),
            may_interrupt::<C, B>(old(self).stack_view()) ==> interrupt_done::<C, B, S>(
                old(self).stack_view(),
                old(self).strategy_view(),
                *old(ctx),
                final(self).interrupt_answer(),
                final(self).stack_view(),
            ),
            r <==> may_interrupt::<C, B>(old(self).stack_view()) && final(self).interrupt_answer() is Some,
            final(self).tick_start() == old(self).tick_start(),
            final(self).tick_steps() == old(self).tick_steps(),
    {
        let n = self.stack.len();
        if n == 0 {
            return false;
        }
        if self.stack[n - 1].priority() == Priority::Force {
            return false;
        }
        let answer = self.strategy.interrupt(ctx, &self.stack[n - 1]);
        self.interrupt_answer = Ghost(answer);
        match answer {
            Some(b) => {
                let mut fresh = Vec::new();
                fresh.push(b);
                self.stack = fresh;
                proof {
                    assert(self.stack@ =~= seq![b]);
                }
                true
            },
            None => false,
        }
    }

    /// One tick: the preemption check, then `execute` on the top task, following calls,
    /// tail calls, returns and aborts until a task yields. An empty stack is refilled from
    /// the strategy's baseline. The command is clamped; if no task yields within
    /// `MAX_STEPS_PER_TICK` steps, the neutral command is sent. The tick's actions are
    /// recorded (see `tick_spec`).
    #[verifier::rlimit(50)]
    pub fn tick<C>(&mut self, ctx: &mut C) -> (r: Command) where
        B: Behavior<C>,
        S: Strategy<C, B>,

        ensures
            tick_spec::<C, B, S>(*old(self), *final(self), *old(ctx), r),
    {
        let ghost ctx0 = *ctx;
        self.consider_interrupt(ctx);
        let ghost s0 = self.stack@;
        let ghost answer = self.interrupt_answer@;
        let ghost old_stack = old(self).stack@;
        let ghost mut steps: Seq<(B, Action<B>)> = Seq::empty();
        let ghost mut ins: Seq<(bool, C, Resume, S)> = Seq::empty();
        proof {
            lemma_trace_empty::<C, B, S>(s0);
        }
        let mut resume = Resume::Fresh;
        let mut count: u32 = 0;
        while count < MAX_STEPS_PER_TICK
            invariant
                count <= MAX_STEPS_PER_TICK,
                old_stack == old(self).stack_view(),
                ctx0 == *old(ctx),
                self.interrupt_answer@ == answer,
                !may_interrupt::<C, B>(old_stack) ==> s0 == old_stack,
                may_interrupt::<C, B>(old_stack) ==> interrupt_done::<C, B, S>(
                    old_stack,
                    old(self).strategy_view(),
                    ctx0,
                    answer,
                    s0,
                ),
                self.stack@ == run_steps(s0, steps),
                steps.len() <= 2 * count,
                steps.len() >= count,
                trace_ok::<C, B, S>(s0, steps, ins),
                resume == next_resume_spec(steps, ins),
            decreases MAX_STEPS_PER_TICK - count,
        {
            count = count + 1;
            if self.stack.len() == 0 {
                let ghost st = self.strategy;
                let ghost bctx = *ctx;
                let b = self.strategy.baseline(ctx);
                proof {
                    lemma_trace_baseline::<C, B, S>(s0, steps, ins, b, bctx, st);
                    steps = steps.push((b, Action::Call(b)));
                    ins = ins.push((true, bctx, Resume::Fresh, st));
                }
                self.stack.push(b);
                proof {
                    assert(self.stack@ =~= run_steps(s0, steps));
                }
                resume = Resume::Fresh;
            }
            let ghost before = self.stack@;
            assert(before.len() > 0);
            let ghost prev = steps;
            let mut top = self.stack.pop().unwrap();
            assert(self.stack@ =~= before.drop_last());
            let ghost gctx = *ctx;
            let ghost old_top = top;
            assert(old_top == before.last());
            let a = top.execute(ctx, resume);
            let next_resume = match &a {
                Action::Return => Resume::ChildReturned,
                Action::Abort => Resume::ChildAborted,
                _ => Resume::Fresh,
            };
            let ghost ga = a;
            let ghost gt = top;
            proof {
                lemma_trace_step::<C, B, S>(s0, steps, ins, gt, ga, gctx, resume, self.strategy);
                steps = steps.push((gt, ga));
                ins = ins.push((false, gctx, resume, self.strategy));
            }
            let applied = apply(&mut self.stack, top, a);
            proof {
                assert(steps.drop_last() =~= prev);
                assert(steps.last() == (gt, ga));
                assert(self.stack@ == run_steps(s0, steps));
            }
            match applied {
                Some(c) => {
                    self.tick_start = Ghost(s0);
                    self.tick_steps = Ghost(steps);
                    proof {
                        lemma_tick_depth(s0, steps);
                        assert(tick_inputs_ok::<C, B, S>(s0, steps, ins));
                        assert(self.stack@ == before.drop_last().push(gt));
                        assert(self.stack@.last() == steps.last().0);
                        assert(steps.len() <= 2 * MAX_STEPS_PER_TICK);
                        assert(forall|k: int| 0 <= k < steps.len() - 1 ==> !((#[trigger] steps[k]).1 is Yield));
                        assert(self.tick_start() == s0 && self.tick_steps() == steps);
                        assert(tick_inputs_ok::<C, B, S>(self.tick_start(), self.tick_steps(), ins));
                        assert(exists|i: Seq<(bool, C, Resume, S)>|
                            tick_inputs_ok::<C, B, S>(self.tick_start(), self.tick_steps(), i));
                        assert(forall|k: int|
                            0 <= k < steps.len() && !is_call((#[trigger] steps[k]).1) ==> run_steps(
                                s0,
                                steps.take(k),
                            ).len() > 0);
                        assert(forall|k: int|
                            0 <= k < steps.len() && run_steps(s0, steps.take(k)).len() == 0
                                ==> is_call((#[trigger] steps[k]).1));
                        assert(steps.last().1 == Action::<B>::Yield(c));
                    }
                    return c.clamped();
                },
                None => {},
            }
            resume = next_resume;
        }
        self.tick_start = Ghost(s0);
        self.tick_steps = Ghost(steps);
        proof {
            lemma_trace_facts::<C, B, S>(s0, steps, ins);
            lemma_tick_depth(s0, steps);
        }
        Command::neutral()
    }
}

/// The depth after a tick's steps, from the general stack discipline.
pub proof fn lemma_tick_depth<B>(start: Seq<B>, steps: Seq<(B, Action<B>)>)
    requires
        forall|k: int|
            0 <= k < steps.len() && !is_call((#[trigger] steps[k]).1) ==> run_steps(start, steps.take(k)).len()
                > 0,
    ensures
        run_steps(start, steps).len() == start.len() + calls(actions_of(steps)) - pops(
            actions_of(steps),
        ),
{
    let acts = actions_of(steps);
    assert forall|k: int| 0 <= k < acts.len() && !is_call(#[trigger] acts[k]) implies run_actions(
        start,
        acts.take(k),
    ).len() > 0 by {
        assert(acts[k] == steps[k].1);
        lemma_steps_len(start, steps.take(k));
        assert(actions_of(steps.take(k)) =~= acts.take(k));
    }
    lemma_depth_formula(start, acts);
    lemma_steps_len(start, steps);
}

/// The strategy is asked whether to preempt: some task runs and it is not a `Force` task.
pub open spec fn may_interrupt<C, B: Behavior<C>>(stack: Seq<B>) -> bool {
    stack.len() > 0 && stack.last().priority_spec() != Priority::Force
}

/// The strategy, asked about the top of `stack`, gave `answer`; a task it gave is then all the
/// stack holds, otherwise the stack is unchanged.
pub open spec fn interrupt_done<C, B: Behavior<C>, S: Strategy<C, B>>(
    stack: Seq<B>,
    strategy: S,
    ctx: C,
    answer: Option<B>,
    after: Seq<B>,
) -> bool {
    &&& strategy.interrupt_spec(ctx, stack.last(), answer)
    &&& match answer {
        Some(b) => after == seq![b],
        None => after == stack,
    }
}

/// What the task below is told after an action of its child.
pub open spec fn resume_after<B>(a: Action<B>) -> Resume {
    match a {
        Action::Return => Resume::ChildReturned,
        Action::Abort => Resume::ChildAborted,
        _ => Resume::Fresh,
    }
}

/// The resume value the next `execute` of a tick gets: `Fresh` at the start and after a
/// baseline task was supplied, else what the last action implies.
pub open spec fn next_resume_spec<B, C, S>(steps: Seq<(B, Action<B>)>, ins: Seq<(bool, C, Resume, S)>) -> Resume {
    if steps.len() == 0 || ins.last().0 {
        Resume::Fresh
    } else {
        resume_after(steps.last().1)
    }
}

/// How each step of a tick came about. `ins[k]` is (was the step a baseline task the strategy
/// supplied, the context, the resume value, the strategy's state): a baseline step happens on
/// an empty stack and calls a task the strategy's `baseline_spec` allows; any other step is the top task's `execute`, meeting its `execute_spec`,
/// told `Fresh` first and after a baseline, else what the previous action implies.
pub open spec fn tick_inputs_ok<C, B: Behavior<C>, S: Strategy<C, B>>(
    start: Seq<B>,
    steps: Seq<(B, Action<B>)>,
    ins: Seq<(bool, C, Resume, S)>,
) -> bool {
    &&& ins.len() == steps.len()
    &&& forall|k: int|
        0 <= k < steps.len() && (#[trigger] ins[k]).0 ==> run_steps(start, steps.take(k)).len() == 0
            && steps[k].1 == Action::Call(steps[k].0) && ins[k].3.baseline_spec(ins[k].1, steps[k].0)
    &&& forall|k: int|
        0 <= k < steps.len() && !(#[trigger] ins[k]).0 ==> run_steps(start, steps.take(k)).len() > 0
            && run_steps(start, steps.take(k)).last().execute_spec(
            ins[k].1,
            ins[k].2,
            steps[k].0,
            steps[k].1,
        ) && ins[k].2 == next_resume_spec(steps.take(k), ins.take(k))
}

/// The bookkeeping of a tick in progress.
#[verifier::opaque]
pub open spec fn trace_ok<C, B: Behavior<C>, S: Strategy<C, B>>(
    start: Seq<B>,
    steps: Seq<(B, Action<B>)>,
    ins: Seq<(bool, C, Resume, S)>,
) -> bool {
    &&& tick_inputs_ok::<C, B, S>(start, steps, ins)
    &&& forall|k: int|
        0 <= k < steps.len() && !is_call((#[trigger] steps[k]).1) ==> run_steps(start, steps.take(k)).len()
            > 0
    &&& forall|k: int|
        0 <= k < steps.len() && run_steps(start, steps.take(k)).len() == 0 ==> is_call(
            (#[trigger] steps[k]).1,
        )
    &&& forall|k: int| 0 <= k < steps.len() ==> !((#[trigger] steps[k]).1 is Yield)
}

proof fn lemma_trace_empty<C, B: Behavior<C>, S: Strategy<C, B>>(start: Seq<B>)
    ensures
        trace_ok::<C, B, S>(start, Seq::empty(), Seq::empty()),
{
    reveal(trace_ok);
}

proof fn lemma_trace_baseline<C, B: Behavior<C>, S: Strategy<C, B>>(
    start: Seq<B>,
    steps: Seq<(B, Action<B>)>,
    ins: Seq<(bool, C, Resume, S)>,
    b: B,
    ctx: C,
    st: S,
)
    requires
        trace_ok::<C, B, S>(start, steps, ins),
        run_steps(start, steps).len() == 0,
        st.baseline_spec(ctx, b),
    ensures
        trace_ok::<C, B, S>(
            start,
            steps.push((b, Action::Call(b))),
            ins.push((true, ctx, Resume::Fresh, st)),
        ),
        run_steps(start, steps.push((b, Action::Call(b)))) == seq![b],
{
    reveal(trace_ok);
    let k = steps.len() as int;
    let st2 = steps.push((b, Action::Call(b)));
    let ins2 = ins.push((true, ctx, Resume::Fresh, st));
    assert(st2.take(k) =~= steps);
    assert(st2.drop_last() =~= steps);
    assert(ins2.take(k) =~= ins);
    assert forall|j: int| 0 <= j < st2.len() && !is_call((#[trigger] st2[j]).1) implies run_steps(
        start,
        st2.take(j),
    ).len() > 0 by {
        assert(st2.take(j) =~= steps.take(j));
    }
    assert forall|j: int| 0 <= j < st2.len() && run_steps(start, st2.take(j)).len() == 0 implies is_call(
        (#[trigger] st2[j]).1,
    ) by {
        if j < k {
            assert(st2.take(j) =~= steps.take(j));
        }
    }
    assert forall|j: int| 0 <= j < st2.len() && (#[trigger] ins2[j]).0 implies run_steps(
        start,
        st2.take(j),
    ).len() == 0 && st2[j].1 == Action::Call(st2[j].0) && ins2[j].3.baseline_spec(
        ins2[j].1,
        st2[j].0,
    ) by {
        if j < k {
            assert(st2.take(j) =~= steps.take(j));
            assert(ins2[j] == ins[j]);
        }
    }
    assert forall|j: int| 0 <= j < st2.len() && !(#[trigger] ins2[j]).0 implies run_steps(
        start,
        st2.take(j),
    ).len() > 0 && run_steps(start, st2.take(j)).last().execute_spec(
        ins2[j].1,
        ins2[j].2,
        st2[j].0,
        st2[j].1,
    ) && ins2[j].2 == next_resume_spec(st2.take(j), ins2.take(j)) by {
        assert(j < k);
        assert(st2.take(j) =~= steps.take(j));
        assert(ins2.take(j) =~= ins.take(j));
        assert(ins2[j] == ins[j]);
    }
    assert forall|j: int| 0 <= j < st2.len() implies !((#[trigger] st2[j]).1 is Yield) by {
        if j < k {
            assert(st2[j] == steps[j]);
        }
    }
}

proof fn lemma_trace_step<C, B: Behavior<C>, S: Strategy<C, B>>(
    start: Seq<B>,
    steps: Seq<(B, Action<B>)>,
    ins: Seq<(bool, C, Resume, S)>,
    next: B,
    a: Action<B>,
    ctx: C,
    resume: Resume,
    st: S,
)
    requires
        trace_ok::<C, B, S>(start, steps, ins),
        run_steps(start, steps).len() > 0,
        run_steps(start, steps).last().execute_spec(ctx, resume, next, a),
        resume == next_resume_spec(steps, ins),
    ensures
        tick_inputs_ok::<C, B, S>(start, steps.push((next, a)), ins.push((false, ctx, resume, st))),
        !(a is Yield) ==> trace_ok::<C, B, S>(start, steps.push((next, a)), ins.push((false, ctx, resume, st))),
        forall|k: int|
            0 <= k < steps.len() + 1 && !is_call((#[trigger] steps.push((next, a))[k]).1)
                ==> run_steps(start, steps.push((next, a)).take(k)).len() > 0,
        forall|k: int|
            0 <= k < steps.len() + 1 && run_steps(start, steps.push((next, a)).take(k)).len() == 0
                ==> is_call((#[trigger] steps.push((next, a))[k]).1),
        forall|k: int| 0 <= k < steps.len() ==> !((#[trigger] steps.push((next, a))[k]).1 is Yield),
{
    reveal(trace_ok);
    let k = steps.len() as int;
    let st2 = steps.push((next, a));
    let ins2 = ins.push((false, ctx, resume, st));
    assert(st2.take(k) =~= steps);
    assert(ins2.take(k) =~= ins);
    assert forall|j: int| 0 <= j < st2.len() && !is_call((#[trigger] st2[j]).1) implies run_steps(
        start,
        st2.take(j),
    ).len() > 0 by {
        if j < k {
            assert(st2.take(j) =~= steps.take(j));
        }
    }
    assert forall|j: int| 0 <= j < st2.len() && run_steps(start, st2.take(j)).len() == 0 implies is_call(
        (#[trigger] st2[j]).1,
    ) by {
        if j < k {
            assert(st2.take(j) =~= steps.take(j));
        }
    }
    assert forall|j: int| 0 <= j < st2.len() && (#[trigger] ins2[j]).0 implies run_steps(
        start,
        st2.take(j),
    ).len() == 0 && st2[j].1 == Action::Call(st2[j].0) && ins2[j].3.baseline_spec(
        ins2[j].1,
        st2[j].0,
    ) by {
        assert(j < k);
        assert(st2.take(j) =~= steps.take(j));
        assert(ins2[j] == ins[j]);
    }
    assert forall|j: int| 0 <= j < st2.len() && !(#[trigger] ins2[j]).0 implies run_steps(
        start,
        st2.take(j),
    ).len() > 0 && run_steps(start, st2.take(j)).last().execute_spec(
        ins2[j].1,
        ins2[j].2,
        st2[j].0,
        st2[j].1,
    ) && ins2[j].2 == next_resume_spec(st2.take(j), ins2.take(j)) by {
        if j < k {
            assert(st2.take(j) =~= steps.take(j));
            assert(ins2.take(j) =~= ins.take(j));
            assert(ins2[j] == ins[j]);
        }
    }
    assert forall|j: int| 0 <= j < k implies !((#[trigger] st2[j]).1 is Yield) by {
        assert(st2[j] == steps[j]);
    }
}

proof fn lemma_trace_facts<C, B: Behavior<C>, S: Strategy<C, B>>(
    start: Seq<B>,
    steps: Seq<(B, Action<B>)>,
    ins: Seq<(bool, C, Resume, S)>,
)
    requires
        trace_ok::<C, B, S>(start, steps, ins),
    ensures
        tick_inputs_ok::<C, B, S>(start, steps, ins),
        forall|k: int|
            0 <= k < steps.len() && !is_call((#[trigger] steps[k]).1) ==> run_steps(start, steps.take(k)).len()
                > 0,
        forall|k: int|
            0 <= k < steps.len() && run_steps(start, steps.take(k)).len() == 0 ==> is_call(
                (#[trigger] steps[k]).1,
            ),
        forall|k: int| 0 <= k < steps.len() ==> !((#[trigger] steps[k]).1 is Yield),
{
    reveal(trace_ok);
}

/// What one tick of `old` did, ending in `new` with command `r`.
///
/// Preemption: the resolution starts from the old stack, or, when the strategy interrupted, from
/// its task alone; never interrupted when the old top task is a `Force` task. Resolution: the
/// stack is the start stack after the recorded steps, each taken by the task then on top (a
/// `Call` on an empty stack is the strategy's baseline task); the depth is the start depth plus
/// the calls not yet returned from or aborted; no step but the last yields, so a parent
/// resumes within the tick when its child returns or aborts. Result: the clamp of the yielded
/// command, the yielding task left on top; otherwise, after `MAX_STEPS_PER_TICK` steps at least,
/// the neutral command. Each step that is not a baseline meets the acting task's
/// `execute_spec` (see `tick_inputs_ok`).
pub open spec fn tick_spec<C, B: Behavior<C>, S: Strategy<C, B>>(
    old: Runner<B, S>,
    new: Runner<B, S>,
    ctx: C,
    r: Command,
) -> bool {
    let start = new.tick_start();
    let steps = new.tick_steps();
    let acts = actions_of(steps);
    &&& r.is_clamped()
    &&& !may_interrupt::<C, B>(old.stack_view()) ==> start == old.stack_view()
    &&& may_interrupt::<C, B>(old.stack_view()) ==> interrupt_done::<C, B, S>(
        old.stack_view(),
        old.strategy_view(),
        ctx,
        new.interrupt_answer(),
        start,
    )
    &&& new.stack_view() == run_steps(start, steps)
    &&& new.stack_view().len() == start.len() + calls(acts) - pops(acts)
    &&& forall|k: int|
        0 <= k < steps.len() && !is_call((#[trigger] steps[k]).1) ==> run_steps(start, steps.take(k)).len()
            > 0
    &&& forall|k: int|
        0 <= k < steps.len() && run_steps(start, steps.take(k)).len() == 0 ==> is_call(
            (#[trigger] steps[k]).1,
        )
    &&& forall|k: int| 0 <= k < steps.len() - 1 ==> !((#[trigger] steps[k]).1 is Yield)
    &&& steps.len() <= 2 * MAX_STEPS_PER_TICK
    &&& (steps.len() > 0 && steps.last().1 is Yield) ==> r == (steps.last().1->Yield_0).clamped_spec()
        && new.stack_view().len() > 0 && new.stack_view().last() == steps.last().0
    &&& !(steps.len() > 0 && steps.last().1 is Yield) ==> r == Command::neutral_spec()
        && steps.len() >= MAX_STEPS_PER_TICK
    &&& exists|ins: Seq<(bool, C, Resume, S)>| tick_inputs_ok::<C, B, S>(start, steps, ins)
}

/// Preemption replaces the whole stack: when the strategy, asked about a task that is not a
/// `Force` task, answers with a task, the tick's resolution starts from that task alone.
pub proof fn lemma_tick_interrupt_replaces<C, B: Behavior<C>, S: Strategy<C, B>>(
    old: Runner<B, S>,
    new: Runner<B, S>,
    ctx: C,
    r: Command,
)
    requires
        tick_spec::<C, B, S>(old, new, ctx, r),
        may_interrupt::<C, B>(old.stack_view()),
        new.interrupt_answer() is Some,
    ensures
        old.strategy_view().interrupt_spec(ctx, old.stack_view().last(), new.interrupt_answer()),
        new.tick_start() == seq![new.interrupt_answer()->Some_0],
{
}

/// No preemption of a `Force` task: whatever the strategy would choose, a tick that starts with
/// a `Force` task on top resolves the old stack unchanged.
pub proof fn lemma_tick_force_kept<C, B: Behavior<C>, S: Strategy<C, B>>(
    old: Runner<B, S>,
    new: Runner<B, S>,
    ctx: C,
    r: Command,
)
    requires
        tick_spec::<C, B, S>(old, new, ctx, r),
        old.stack_view().len() > 0,
        old.stack_view().last().priority_spec() == Priority::Force,
    ensures
        new.tick_start() == old.stack_view(),
{
}

/// Stack discipline over a tick: the depth after it is the depth it started from plus the
/// calls (baseline tasks included) not returned from or aborted.
pub proof fn lemma_tick_depth_law<C, B: Behavior<C>, S: Strategy<C, B>>(
    old: Runner<B, S>,
    new: Runner<B, S>,
    ctx: C,
    r: Command,
)
    requires
        tick_spec::<C, B, S>(old, new, ctx, r),
    ensures
        new.stack_view().len() == new.tick_start().len() + calls(actions_of(new.tick_steps())) - pops(
            actions_of(new.tick_steps()),
        ),
{
}

/// When a step of a tick returns or aborts from the only task left, the stack is empty and the
/// next step (if the tick goes on) starts a baseline task from the strategy.
pub proof fn lemma_tick_root_exit<C, B: Behavior<C>, S: Strategy<C, B>>(
    old: Runner<B, S>,
    new: Runner<B, S>,
    ctx: C,
    r: Command,
    k: int,
)
    requires
        tick_spec::<C, B, S>(old, new, ctx, r),
        0 <= k < new.tick_steps().len(),
        run_steps(new.tick_start(), new.tick_steps().take(k)).len() == 1,
        is_pop(new.tick_steps()[k].1),
    ensures
        run_steps(new.tick_start(), new.tick_steps().take(k + 1)).len() == 0,
        k + 1 < new.tick_steps().len() ==> new.tick_steps()[k + 1].1 == Action::Call(
            new.tick_steps()[k + 1].0,
        ) && exists|st: S, c: C| #[trigger] st.baseline_spec(c, new.tick_steps()[k + 1].0),
{
    let steps = new.tick_steps();
    let start = new.tick_start();
    assert(steps.take(k + 1).drop_last() =~= steps.take(k));
    assert(steps.take(k + 1).last() == steps[k]);
    if k + 1 < steps.len() {
        let ins = choose|ins: Seq<(bool, C, Resume, S)>| tick_inputs_ok::<C, B, S>(start, steps, ins);
        assert(ins[k + 1].0);
        assert(ins[k + 1].3.baseline_spec(ins[k + 1].1, steps[k + 1].0));
    }
}

} // verus!
