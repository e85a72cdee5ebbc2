//! Goals an action worker runs: the in-flight table that maps each goal id to
//! the cancel flag of its current run, and what a received message does to it.
//!
//! A `GOAL` starts a run with a fresh flag (a run already under that id keeps
//! its own flag, which no cancel reaches any more); a `CANCEL` names the flag
//! of the run in flight under its id, if any; the goal id leaves the table
//! once a run of it sends its `RESULT`. The flags themselves are shared with
//! the running handlers, so the table only holds them (`H`).
use vstd::prelude::*;
use crate::dispatch::{action_result, ActionDispatch, ActionDispatchView, ActionGoal};
use crate::goal_table::GoalTable;
use crate::queues::ReplyMessage;

verus! {

/// Cancel flag of the current run of each goal in flight, by goal id.
pub struct InflightGoals<H> {
    goals: GoalTable<H>,
}

impl<H> View for InflightGoals<H> {
    type V = Map<Seq<char>, H>;

    closed spec fn view(&self) -> Map<Seq<char>, H> {
        self.goals.map()
    }
}

impl<H> InflightGoals<H> {
    /// Goal ids are distinct.
    pub closed spec fn wf(&self) -> bool {
        self.goals.wf()
    }

    /// No goal in flight.
    pub fn new() -> (t: Self)
        ensures
            t.wf(),
            t@ == Map::<Seq<char>, H>::empty(),
    {
        InflightGoals { goals: GoalTable::new() }
    }

    /// A run of `goal_id` starts with cancel flag `flag` (it replaces the
    /// flag of an earlier run under the same id).
    pub fn start(&mut self, goal_id: String, flag: H)
        requires
            old(self).wf(),
        ensures
            final(self).wf(),
            final(self)@ == old(self)@.insert(goal_id@, flag),
    {
        let _ = self.goals.insert(goal_id, flag);
    }

    /// The cancel flag of the run in flight under `goal_id`, if any.
    pub fn flag_of(&self, goal_id: &str) -> (r: Option<&H>)
        requires
            self.wf(),
        ensures
            match r {
                Some(h) => self@.contains_key(goal_id@) && *h == self@[goal_id@],
                None => !self@.contains_key(goal_id@),
            },
    {
        self.goals.get(goal_id)
    }

    /// `goal_id` is done and leaves the table.
    pub fn finish(&mut self, goal_id: &str)
        requires
            old(self).wf(),
        ensures
            final(self).wf(),
            final(self)@ == old(self)@.remove(goal_id@),
    {
        let _ = self.goals.remove(goal_id);
    }
}

/// What the worker does with a classified message.
pub enum WorkerStep {
    /// Nothing (the message was dropped, or it cancels no goal in flight).
    Idle,
    /// Raise the cancel flag the table holds for `goal_id`.
    Cancel { goal_id: String },
    /// Run the handler for this goal; it is now in flight.
    Run(ActionGoal),
}

/// Apply a received message to the in-flight table: a `GOAL` starts a run
/// with the cancel flag `fresh` and is to be run; a `CANCEL` of a goal in
/// flight names it; anything else is dropped. Only a `GOAL` changes the table.
pub fn worker_step<H>(inflight: &mut InflightGoals<H>, d: ActionDispatch, fresh: H) -> (s: WorkerStep)
    requires
        old(inflight).wf(),
    ensures
        final(inflight).wf(),
        match d@ {
            ActionDispatchView::Ignored => s is Idle && final(inflight)@ == old(inflight)@,
            ActionDispatchView::Cancel { goal_id } => final(inflight)@ == old(inflight)@ && if old(
                inflight,
            )@.contains_key(goal_id) {
                s matches WorkerStep::Cancel { goal_id: g } && g@ == goal_id
            } else {
                s is Idle
            },
            ActionDispatchView::Goal { client_id, goal_id, goal_key, body } => (s matches WorkerStep::Run(g)
                && g.client_id@ == client_id && g.goal_id@ == goal_id && g.goal_key@ == goal_key && g.body@
                == body) && final(inflight)@ == old(inflight)@.insert(goal_key, fresh),
        },
{
    match d {
        ActionDispatch::Ignored => WorkerStep::Idle,
        ActionDispatch::Cancel { goal_id } => {
            if inflight.goals.contains(goal_id.as_str()) {
                WorkerStep::Cancel { goal_id }
            } else {
                WorkerStep::Idle
            }
        },
        ActionDispatch::Goal(g) => {
            inflight.start(g.goal_key.clone(), fresh);
            WorkerStep::Run(g)
        },
    }
}

/// The goal's handler returned `result`: its `RESULT` reply, and the goal id
/// leaves the table.
pub fn finish_goal<H>(inflight: &mut InflightGoals<H>, action_name: String, goal: &ActionGoal, result: Vec<u8>) -> (m:
    ReplyMessage)
    requires
        old(inflight).wf(),
    ensures
        final(inflight).wf(),
        final(inflight)@ == old(inflight)@.remove(goal.goal_key@),
        m matches ReplyMessage::Action { action_name: n, reply } && n@ == action_name@
            && reply.client_id@ == goal.client_id@ && reply.goal_id@ == goal.goal_id@
            && reply.kind@ == crate::dispatch::utf8("RESULT"@) && reply.body@ == result@,
{
    let m = action_result(action_name, goal, result);
    inflight.finish(goal.goal_key.as_str());
    m
}

/// A goal's lifetime in the table: once started, a cancel of its id reaches
/// the flag of that run; a second run under the same id takes over the id, so
/// later cancels reach only the new run's flag; after a result the id is gone
/// and a cancel of it reaches nothing.
pub proof fn law_inflight_lifecycle<H>(m: Map<Seq<char>, H>, goal_id: Seq<char>, first: H, second: H)
    ensures
        ({
            let started = m.insert(goal_id, first);
            let restarted = started.insert(goal_id, second);
            let done = restarted.remove(goal_id);
            &&& started.contains_key(goal_id) && started[goal_id] == first
            &&& restarted.contains_key(goal_id) && restarted[goal_id] == second
            &&& !done.contains_key(goal_id)
        }),
{
}

} // verus!
