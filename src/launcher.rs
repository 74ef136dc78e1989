//! The launcher: tries strategies in order until one starts the worker.
//!
//! Spawning is done by the caller. The launcher says which strategy to try
//! next, takes the outcome of each attempt, and decides when the search ends.

use vstd::prelude::*;

use crate::log::{EntryView, LogEntry};
use crate::strategy::{program_text, LaunchStrategy};

verus! {

/// The outcome of one attempt to start a process.
#[derive(Clone, Debug)]
pub enum SpawnOutcome {
    /// The process started with this identifier.
    Spawned { pid: u32 },
    /// The operating system refused to start it, for this reason.
    Failed { reason: String },
}

pub enum OutcomeView {
    Spawned { pid: u32 },
    Failed { reason: Seq<char> },
}

impl View for SpawnOutcome {
    type V = OutcomeView;

    open spec fn view(&self) -> OutcomeView {
        match self {
            SpawnOutcome::Spawned { pid } => OutcomeView::Spawned { pid: *pid },
            SpawnOutcome::Failed { reason } => OutcomeView::Failed { reason: reason@ },
        }
    }
}

/// A running worker process, and the position of the strategy that started it.
#[derive(Clone, Copy, Debug, PartialEq, Eq, Structural)]
pub struct ProcessHandle {
    pub strategy: usize,
    pub pid: u32,
}

/// Every strategy failed: the reason the preferred one gave, and how many
/// attempts were made.
#[derive(Clone, Debug)]
pub struct LaunchError {
    pub first_reason: String,
    pub attempts: usize,
}

/// What the caller does next.
#[derive(Debug)]
pub enum LaunchAction {
    /// Try to start the strategy at this position.
    Spawn { index: usize },
    /// The search is over.
    Finished { result: Result<ProcessHandle, LaunchError> },
}

pub enum ActionView {
    Spawn { index: nat },
    Launched { strategy: nat, pid: u32 },
    Exhausted { first_reason: Seq<char>, attempts: nat },
}

impl View for LaunchAction {
    type V = ActionView;

    open spec fn view(&self) -> ActionView {
        match self {
            LaunchAction::Spawn { index } => ActionView::Spawn { index: *index as nat },
            LaunchAction::Finished { result: Ok(h) } => ActionView::Launched {
                strategy: h.strategy as nat,
                pid: h.pid,
            },
            LaunchAction::Finished { result: Err(e) } => ActionView::Exhausted {
                first_reason: e.first_reason@,
                attempts: e.attempts as nat,
            },
        }
    }
}

/// The state of a search, over plain values.
pub struct LauncherView {
    pub count: nat,
    pub attempts: nat,
    pub first_reason: Option<Seq<char>>,
    pub launched: Option<(nat, u32)>,
}

/// A fresh search over `count` strategies.
pub open spec fn initial(count: nat) -> LauncherView {
    LauncherView { count, attempts: 0, first_reason: None, launched: None }
}

/// The search still has a strategy to try.
pub open spec fn searching(v: LauncherView) -> bool {
    v.launched is None && v.attempts < v.count
}

pub open spec fn next_spec(v: LauncherView) -> ActionView {
    match v.launched {
        Some((k, pid)) => ActionView::Launched { strategy: k, pid },
        None => if v.attempts < v.count {
            ActionView::Spawn { index: v.attempts }
        } else {
            ActionView::Exhausted {
                first_reason: match v.first_reason {
                    Some(r) => r,
                    None => Seq::empty(),
                },
                attempts: v.attempts,
            }
        },
    }
}

/// The state after the strategy at position `v.attempts` had outcome `o`.
pub open spec fn step_spec(v: LauncherView, o: OutcomeView) -> LauncherView {
    match o {
        OutcomeView::Spawned { pid } => LauncherView {
            attempts: v.attempts + 1,
            launched: Some((v.attempts, pid)),
            ..v
        },
        OutcomeView::Failed { reason } => LauncherView {
            attempts: v.attempts + 1,
            first_reason: if v.attempts == 0 { Some(reason) } else { v.first_reason },
            ..v
        },
    }
}

/// The search run to its end, where `world[i]` is what trying strategy `i`
/// gives.
pub open spec fn drive(v: LauncherView, world: Seq<OutcomeView>) -> LauncherView
    decreases v.count - v.attempts,
{
    if searching(v) && v.attempts < world.len() {
        drive(step_spec(v, world[v.attempts as int]), world)
    } else {
        v
    }
}

/// The positions of the strategies tried, in the order they were tried, by
/// the search run from `v` to its end.
pub open spec fn drive_trace(v: LauncherView, world: Seq<OutcomeView>) -> Seq<nat>
    decreases v.count - v.attempts,
{
    if searching(v) && v.attempts < world.len() {
        seq![v.attempts].add(drive_trace(step_spec(v, world[v.attempts as int]), world))
    } else {
        Seq::empty()
    }
}

/// The log entry for a strategy's failure to start.
pub open spec fn failure_entry(s: LaunchStrategy, reason: Seq<char>) -> EntryView {
    EntryView::SpawnFailed { command: program_text(s.program), reason }
}

proof fn lemma_drive_reaches_success(v: LauncherView, world: Seq<OutcomeView>, k: nat)
    requires
        v.count == world.len(),
        v.launched is None,
        v.attempts <= k < world.len(),
        world[k as int] is Spawned,
        forall|j: int| v.attempts <= j < k ==> #[trigger] world[j] is Failed,
    ensures
        drive(v, world).launched == Some((k, world[k as int]->Spawned_pid)),
        drive(v, world).attempts == k + 1,
        drive_trace(v, world) =~= Seq::new((k + 1 - v.attempts) as nat, |i: int| (v.attempts + i) as nat),
    decreases k - v.attempts,
{
    let next = step_spec(v, world[v.attempts as int]);
    if v.attempts < k {
        lemma_drive_reaches_success(next, world, k);
    } else {
        assert(drive(next, world) == next);
        assert(drive_trace(next, world) == Seq::<nat>::empty());
    }
}

/// When the strategy at position `k` starts the worker and every strategy
/// before it fails, the search ends with a handle attributed to `k`: the
/// strategies before `k` were each tried once, in order, and none after it
/// was tried.
pub proof fn lemma_first_success_wins(world: Seq<OutcomeView>, k: nat)
    requires
        k < world.len(),
        world[k as int] is Spawned,
        forall|j: int| 0 <= j < k ==> #[trigger] world[j] is Failed,
    ensures
        next_spec(drive(initial(world.len()), world)) == (ActionView::Launched {
            strategy: k,
            pid: world[k as int]->Spawned_pid,
        }),
        drive(initial(world.len()), world).attempts == k + 1,
        drive_trace(initial(world.len()), world) =~= Seq::new(k + 1, |i: int| i as nat),
{
    lemma_drive_reaches_success(initial(world.len()), world, k);
}

proof fn lemma_drive_exhausts(v: LauncherView, world: Seq<OutcomeView>)
    requires
        v.count == world.len() > 0,
        v.launched is None,
        v.attempts <= world.len(),
        v.attempts > 0 ==> v.first_reason == Some(world[0]->Failed_reason),
        forall|j: int| 0 <= j < world.len() ==> #[trigger] world[j] is Failed,
    ensures
        drive(v, world).launched is None,
        drive(v, world).attempts == world.len(),
        drive(v, world).first_reason == Some(world[0]->Failed_reason),
        drive_trace(v, world) =~= Seq::new((world.len() - v.attempts) as nat, |i: int| (v.attempts + i) as nat),
    decreases v.count - v.attempts,
{
    if v.attempts < world.len() {
        lemma_drive_exhausts(step_spec(v, world[v.attempts as int]), world);
    }
}

/// When every strategy fails, each is tried once, in order, and the search
/// ends in an error that carries the preferred strategy's reason and a count
/// of attempts equal to the number of strategies.
pub proof fn lemma_all_fail_exhausts(world: Seq<OutcomeView>)
    requires
        world.len() > 0,
        forall|j: int| 0 <= j < world.len() ==> #[trigger] world[j] is Failed,
    ensures
        next_spec(drive(initial(world.len()), world)) == (ActionView::Exhausted {
            first_reason: world[0]->Failed_reason,
            attempts: world.len(),
        }),
        drive_trace(initial(world.len()), world) =~= Seq::new(world.len(), |i: int| i as nat),
{
    lemma_drive_exhausts(initial(world.len()), world);
    let last = drive(initial(world.len()), world);
    assert(last.count == world.len()) by {
        lemma_drive_keeps_count(initial(world.len()), world);
    }
}

proof fn lemma_drive_keeps_count(v: LauncherView, world: Seq<OutcomeView>)
    ensures
        drive(v, world).count == v.count,
    decreases v.count - v.attempts,
{
    if searching(v) && v.attempts < world.len() {
        lemma_drive_keeps_count(step_spec(v, world[v.attempts as int]), world);
    }
}

/// A search that has ended stays ended: it names no further strategy.
pub proof fn lemma_finished_search_is_final(v: LauncherView, world: Seq<OutcomeView>)
    requires
        !searching(v),
    ensures
        drive(v, world) == v,
        drive_trace(v, world) == Seq::<nat>::empty(),
{
}


/// A search through an ordered list of launch strategies.
pub struct Launcher {
    strategies: Vec<LaunchStrategy>,
    attempts: usize,
    first_reason: Option<String>,
    launched: Option<ProcessHandle>,
}

impl View for Launcher {
    type V = LauncherView;

    closed spec fn view(&self) -> LauncherView {
        LauncherView {
            count: self.strategies@.len(),
            attempts: self.attempts as nat,
            first_reason: match self.first_reason {
                Some(r) => Some(r@),
                None => None,
            },
            launched: match self.launched {
                Some(h) => Some((h.strategy as nat, h.pid)),
                None => None,
            },
        }
    }
}

impl Launcher {
    pub closed spec fn strategies_spec(&self) -> Seq<LaunchStrategy> {
        self.strategies@
    }

    pub closed spec fn wf(&self) -> bool {
        &&& self.attempts <= self.strategies@.len()
        &&& (self.first_reason is Some <==> self.attempts > 0 && !(self.attempts == 1 && self.launched is Some))
        &&& match self.launched {
            Some(h) => h.strategy + 1 == self.attempts,
            None => true,
        }
    }

    /// A search over `strategies`, tried in the order given.
    pub fn new(strategies: Vec<LaunchStrategy>) -> (r: Launcher)
        requires
            strategies@.len() > 0,
        ensures
            r.wf(),
            r@ == initial(strategies@.len()),
            r.strategies_spec() == strategies@,
    {
        Launcher { strategies, attempts: 0, first_reason: None, launched: None }
    }

    /// The strategy at position `index`.
    pub fn strategy(&self, index: usize) -> (r: &LaunchStrategy)
        requires
            index < self@.count,
        ensures
            *r == self.strategies_spec()[index as int],
    {
        &self.strategies[index]
    }

    /// What the caller does next.
    pub fn next_action(&self) -> (r: LaunchAction)
        requires
            self.wf(),
        ensures
            r@ == next_spec(self@),
    {
        match self.launched {
            Some(h) => LaunchAction::Finished { result: Ok(h) },
            None => {
                if self.attempts < self.strategies.len() {
                    LaunchAction::Spawn { index: self.attempts }
                } else {
                    let first_reason = match &self.first_reason {
                        Some(r) => r.clone(),
                        None => String::new(),
                    };
                    LaunchAction::Finished {
                        result: Err(LaunchError { first_reason, attempts: self.attempts }),
                    }
                }
            },
        }
    }

    /// Takes the outcome of trying the strategy that `next_action` named, and
    /// returns the entry to log for it.
    pub fn record(&mut self, outcome: SpawnOutcome) -> (entry: LogEntry)
        requires
            old(self).wf(),
            searching(old(self)@),
        ensures
            final(self).wf(),
            final(self)@ == step_spec(old(self)@, outcome@),
            final(self).strategies_spec() == old(self).strategies_spec(),
            entry@ == match outcome@ {
                OutcomeView::Spawned { pid } => EntryView::Spawned {
                    command: program_text(old(self).strategies_spec()[old(self)@.attempts as int].program),
                    pid,
                },
                OutcomeView::Failed { reason } => failure_entry(
                    old(self).strategies_spec()[old(self)@.attempts as int],
                    reason,
                ),
            },
    {
        let index = self.attempts;
        let n = self.strategies.len();
        assert(index < n);
        let command = self.strategies[index].describe();
        self.attempts = index + 1;
        match outcome {
            SpawnOutcome::Spawned { pid } => {
                self.launched = Some(ProcessHandle { strategy: index, pid });
                LogEntry::Spawned { command, pid }
            },
            SpawnOutcome::Failed { reason } => {
                if index == 0 {
                    self.first_reason = Some(reason.clone());
                }
                LogEntry::SpawnFailed { command, reason }
            },
        }
    }
}

} // verus!
