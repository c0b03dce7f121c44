use crate::command::Command;
use crate::engine::{tick_spec, Runner, Strategy};
use crate::maneuvers::{Context, Task};
use vstd::prelude::*;

verus! {

/// The top-level session: owns the task runner across ticks.
pub struct Brain<S> {
    runner: Runner<Task, S>,
    player_index: Option<i32>,
    /// Game time (in ticks) of the last quick chat a behavior sent. Behaviors read it to
    /// avoid chatting too often and write it when they chat; nothing else touches it.
    pub last_quick_chat: u32,
}

impl<S> Brain<S> {
    pub closed spec fn player_index_spec(&self) -> Option<i32> {
        self.player_index
    }

    pub closed spec fn runner_spec(&self) -> Runner<Task, S> {
        self.runner
    }

    pub fn new(strategy: S) -> (r: Brain<S>)
        ensures
            r.player_index_spec() is None,
            r.runner_spec().stack_view().len() == 0,
    {
        Brain { runner: Runner::new(strategy), player_index: None, last_quick_chat: 0 }
    }

    /// A brain that starts by running `behavior`.
    pub fn with_behavior(strategy: S, behavior: Task) -> (r: Brain<S>)
        ensures
            r.player_index_spec() is None,
            r.runner_spec().stack_view() == seq![behavior],
    {
        Brain { runner: Runner::with_current(strategy, behavior), player_index: None, last_quick_chat: 0 }
    }

    /// Drops whatever is running and starts `behavior`.
    pub fn set_behavior(&mut self, behavior: Task)
        ensures
            final(self).runner_spec().stack_view() == seq![behavior],
            final(self).player_index_spec() == old(self).player_index_spec(),
    {
        self.runner.reset_to(behavior);
    }

    pub fn set_player_index(&mut self, player_index: i32)
        ensures
            final(self).player_index_spec() == Some(player_index),
    {
        self.player_index = Some(player_index);
    }

    pub fn player_index(&self) -> (r: Option<i32>)
        ensures
            r == self.player_index_spec(),
    {
        self.player_index
    }

    /// Decides this tick's controls: one tick of the runner (see `tick_spec`).
    pub fn tick(&mut self, ctx: &mut Context) -> (r: Command) where S: Strategy<Context, Task>
        ensures
            tick_spec::<Context, Task, S>(old(self).runner_spec(), final(self).runner_spec(), *old(ctx), r),
            final(self).player_index_spec() == old(self).player_index_spec(),
    {
        self.runner.tick(ctx)
    }
}

} // verus!
