use crate::config::Config;
use vstd::prelude::*;

verus! {

/// Seconds to wait before looking at the cluster again while its snapshot is
/// still empty.
pub const RETRY_INTERVAL_SECS: u64 = 1;

/// Seconds to wait between two complete ticks.
pub const TICK_INTERVAL_SECS: u64 = 3;

/// Current replica count of each worker deployment, by deployment name.
#[derive(Debug)]
pub struct ClusterState {
    pub replicas: Vec<(String, usize)>,
}

/// Why the cluster snapshot could not be read.
#[derive(Debug, PartialEq, Eq)]
pub enum ClusterFetchError {
    /// A worker deployment carries no name.
    MissingName,
    /// A worker deployment states no replica count.
    MissingReplicaCount { deployment: String },
    /// A worker deployment states a negative replica count.
    NegativeReplicaCount { deployment: String, replicas: i32 },
}

/// Source of cluster snapshots, read without blocking.
pub trait ClusterStateFetcher {
    fn get_current_state(&self) -> Result<ClusterState, ClusterFetchError>;
}

/// Pending-job count of each queue, by queue name.
#[derive(Debug)]
pub struct SidekiqState {
    pub queue_lengths: Vec<(String, usize)>,
}

/// Where the control loop stands.
#[derive(Debug, Clone, Copy, PartialEq, Eq, Structural)]
pub enum Phase {
    Idle,
    FetchingCluster,
    FetchingQueues,
    Waiting,
    Cancelled,
    Failed,
}

/// What the runner observed since the last command.
#[derive(Debug)]
pub enum Event {
    /// The loop is started.
    Start,
    ClusterFetched(ClusterState),
    ClusterFetchFailed,
    QueuesFetched(SidekiqState),
    QueueFetchFailed,
    /// The wait that was asked for is over.
    TimerFired,
    /// Cancellation was signalled.
    CancelRequested,
}

/// What the runner is to do next, in order.
#[derive(Debug, PartialEq, Eq)]
pub enum Command {
    FetchClusterState,
    FetchQueueState,
    /// Log that the cluster snapshot is empty.
    WarnEmptyCluster,
    /// Hand the desired replica counts to the actuation boundary.
    Apply(Vec<(String, usize)>),
    /// Wait this many seconds, unless cancellation comes first.
    Sleep(u64),
    /// Leave the loop successfully.
    Stop,
    /// Leave the loop with the error of the failed fetch.
    Abort,
}

pub open spec fn is_live(p: Phase) -> bool {
    !(p is Cancelled) && !(p is Failed)
}

/// The phase that follows `p` on `e`. Events that do not fit the phase
/// change nothing.
pub open spec fn next_phase(p: Phase, e: Event) -> Phase {
    if !is_live(p) {
        p
    } else if e is CancelRequested {
        Phase::Cancelled
    } else {
        match (p, e) {
            (Phase::Idle, Event::Start) => Phase::FetchingCluster,
            (Phase::Waiting, Event::TimerFired) => Phase::FetchingCluster,
            (Phase::FetchingCluster, Event::ClusterFetched(s)) => if s.replicas@.len() == 0 {
                Phase::Waiting
            } else {
                Phase::FetchingQueues
            },
            (Phase::FetchingCluster, Event::ClusterFetchFailed) => Phase::Failed,
            (Phase::FetchingQueues, Event::QueuesFetched(_)) => Phase::Waiting,
            (Phase::FetchingQueues, Event::QueueFetchFailed) => Phase::Failed,
            _ => p,
        }
    }
}

/// The phase reached from `p` by taking `events` in order.
pub open spec fn phase_after(p: Phase, events: Seq<Event>) -> Phase
    decreases events.len(),
{
    if events.len() == 0 {
        p
    } else {
        phase_after(next_phase(p, events[0]), events.drop_first())
    }
}

/// Cancellation observed during the wait between ticks ends the loop for
/// good: whatever events follow, it stays cancelled, and a loop that is no
/// longer live is handed no command by `Scaler::handle`.
pub proof fn lemma_cancel_while_waiting_is_final(later: Seq<Event>)
    ensures
        next_phase(Phase::Waiting, Event::CancelRequested) == Phase::Cancelled,
        phase_after(Phase::Cancelled, later) == Phase::Cancelled,
        !is_live(phase_after(Phase::Cancelled, later)),
    decreases later.len(),
{
    if later.len() > 0 {
        lemma_cancel_while_waiting_is_final(later.drop_first());
    }
}

/// The periodic fetch / decide / wait loop, as a state machine. A runner
/// performs each command and reports what happened as the next event.
pub struct Scaler<C: ClusterStateFetcher, S> {
    pub cluster_fetcher: C,
    pub sidekiq_fetcher: S,
    pub config: Config,
    pub phase: Phase,
}

impl<C: ClusterStateFetcher, S> Scaler<C, S> {
    pub fn new(config: Config, cluster_fetcher: C, sidekiq_fetcher: S) -> (r: Scaler<C, S>)
        requires
            config.wf(),
        ensures
            r.config == config,
            r.cluster_fetcher == cluster_fetcher,
            r.sidekiq_fetcher == sidekiq_fetcher,
            r.phase == Phase::Idle,
    {
        Scaler { cluster_fetcher, sidekiq_fetcher, config, phase: Phase::Idle }
    }

    /// Takes one step of the loop on `event` and returns the commands that it
    /// calls for.
    pub fn handle(&mut self, event: Event) -> (cmds: Vec<Command>)
        requires
            old(self).config.wf(),
        ensures
            final(self).config == old(self).config,
            final(self).cluster_fetcher == old(self).cluster_fetcher,
            final(self).sidekiq_fetcher == old(self).sidekiq_fetcher,
            final(self).phase == next_phase(old(self).phase, event),
            // a finished loop stays finished and asks for nothing more
            !is_live(old(self).phase) ==> cmds@.len() == 0,
            is_live(old(self).phase) && event is CancelRequested ==> cmds@ == seq![Command::Stop],
            (old(self).phase is Idle && event is Start) || (old(self).phase is Waiting
                && event is TimerFired) ==> cmds@ == seq![Command::FetchClusterState],
            old(self).phase is FetchingCluster ==> (event matches Event::ClusterFetched(s) ==> if s.replicas@.len()
                == 0 {
                cmds@ == seq![Command::WarnEmptyCluster, Command::Sleep(RETRY_INTERVAL_SECS)]
            } else {
                cmds@ == seq![Command::FetchQueueState]
            }),
            old(self).phase is FetchingQueues ==> (event matches Event::QueuesFetched(q) ==> {
                &&& cmds@.len() == 2
                &&& cmds@[0] matches Command::Apply(d) && old(self).config.is_desired(
                    q.queue_lengths@,
                    d@,
                )
                &&& cmds@[1] == Command::Sleep(TICK_INTERVAL_SECS)
            }),
            (old(self).phase is FetchingCluster && event is ClusterFetchFailed) || (old(
                self,
            ).phase is FetchingQueues && event is QueueFetchFailed) ==> cmds@ == seq![
                Command::Abort,
            ],
            final(self).phase == old(self).phase ==> cmds@.len() == 0,
    {
        let mut cmds: Vec<Command> = Vec::new();
        if !(self.phase != Phase::Cancelled && self.phase != Phase::Failed) {
            return cmds;
        }
        match event {
            Event::CancelRequested => {
                self.phase = Phase::Cancelled;
                cmds.push(Command::Stop);
            },
            Event::Start => {
                if self.phase == Phase::Idle {
                    self.phase = Phase::FetchingCluster;
                    cmds.push(Command::FetchClusterState);
                }
            },
            Event::TimerFired => {
                if self.phase == Phase::Waiting {
                    self.phase = Phase::FetchingCluster;
                    cmds.push(Command::FetchClusterState);
                }
            },
            Event::ClusterFetched(state) => {
                if self.phase == Phase::FetchingCluster {
                    if state.replicas.len() == 0 {
                        self.phase = Phase::Waiting;
                        cmds.push(Command::WarnEmptyCluster);
                        cmds.push(Command::Sleep(RETRY_INTERVAL_SECS));
                    } else {
                        self.phase = Phase::FetchingQueues;
                        cmds.push(Command::FetchQueueState);
                    }
                }
            },
            Event::ClusterFetchFailed => {
                if self.phase == Phase::FetchingCluster {
                    self.phase = Phase::Failed;
                    cmds.push(Command::Abort);
                }
            },
            Event::QueuesFetched(state) => {
                if self.phase == Phase::FetchingQueues {
                    let desired = self.config.replicas(state.queue_lengths);
                    self.phase = Phase::Waiting;
                    cmds.push(Command::Apply(desired));
                    cmds.push(Command::Sleep(TICK_INTERVAL_SECS));
                }
            },
            Event::QueueFetchFailed => {
                if self.phase == Phase::FetchingQueues {
                    self.phase = Phase::Failed;
                    cmds.push(Command::Abort);
                }
            },
        }
        cmds
    }
}

} // verus!
