//! The sampling worker and the probe for the instruction pointer, as state
//! machines. The caller sleeps, reads the counter and talks to the kernel;
//! the machines say what is done next and what its outcome means.

use crate::types::Sample;
use vstd::prelude::*;

verus! {

/// Milliseconds between two samples.
pub const SAMPLE_PERIOD_MILLIS: u64 = 100;

/// The sample of a counter value and an instruction pointer, taken
/// `elapsed_millis` after the session started. The time stamp keeps the low
/// 64 bits of the elapsed time.
pub fn parse_sample(value: u64, pid: i32, elapsed_millis: u128, ip: u64) -> (sample: Sample)
    ensures
        sample.value == value,
        sample.pid == pid,
        sample.timestamp == elapsed_millis as u64,
        sample.instruction_pointer == ip,
{
    Sample {
        value,
        pid,
        timestamp: #[verifier::truncate] (elapsed_millis as u64),
        instruction_pointer: ip,
    }
}

/// Where a probe for the instruction pointer of a process stands. The probe
/// attaches to the process as a debugger, waits for it to stop, reads its
/// registers and detaches.
#[derive(Debug, Clone, Copy, PartialEq, Eq, Structural)]
pub enum ProbeState {
    /// About to attach to the process.
    Attaching,
    /// Attached; about to wait for the process to stop.
    Waiting,
    /// The process has stopped; about to read its registers.
    Reading,
    /// About to detach. `ip` is what the probe will answer.
    Detaching { ip: u64 },
    /// The probe has ended, detached if it ever attached, with `ip` as its
    /// answer: 0 when anything failed.
    Done { ip: u64 },
}

/// What the caller of a probe does next.
#[derive(Debug, Clone, Copy, PartialEq, Eq, Structural)]
pub enum ProbeAction {
    /// Attach to the process.
    Attach,
    /// Wait for the process to stop.
    WaitForStop,
    /// Read the program counter from the registers of the process.
    ReadRegisters,
    /// Detach from the process.
    Detach,
    /// Nothing: the probe has ended with this instruction pointer.
    Finish { ip: u64 },
}

/// What is done in a state of the probe.
pub open spec fn probe_action(state: ProbeState) -> ProbeAction {
    match state {
        ProbeState::Attaching => ProbeAction::Attach,
        ProbeState::Waiting => ProbeAction::WaitForStop,
        ProbeState::Reading => ProbeAction::ReadRegisters,
        ProbeState::Detaching { .. } => ProbeAction::Detach,
        ProbeState::Done { ip } => ProbeAction::Finish { ip },
    }
}

/// The state after the action of `state` had the outcome `outcome`: `None`
/// when it failed, else a number, which is the program counter when the
/// registers were read.
pub open spec fn probe_next(state: ProbeState, outcome: Option<u64>) -> ProbeState {
    match state {
        ProbeState::Attaching => match outcome {
            Some(_) => ProbeState::Waiting,
            None => ProbeState::Done { ip: 0 },
        },
        ProbeState::Waiting => match outcome {
            Some(_) => ProbeState::Reading,
            None => ProbeState::Detaching { ip: 0 },
        },
        ProbeState::Reading => match outcome {
            Some(ip) => ProbeState::Detaching { ip },
            None => ProbeState::Detaching { ip: 0 },
        },
        ProbeState::Detaching { ip } => ProbeState::Done { ip },
        ProbeState::Done { ip } => ProbeState::Done { ip },
    }
}

/// The state after the outcomes `outcomes`, one action after the other.
pub open spec fn probe_run(state: ProbeState, outcomes: Seq<Option<u64>>) -> ProbeState
    decreases outcomes.len(),
{
    if outcomes.len() == 0 {
        state
    } else {
        probe_next(probe_run(state, outcomes.drop_last()), outcomes.last())
    }
}

impl ProbeState {
    /// The state in which a probe starts.
    pub fn start() -> (state: ProbeState)
        ensures
            state == ProbeState::Attaching,
    {
        ProbeState::Attaching
    }

    /// What the caller does next.
    pub fn action(&self) -> (action: ProbeAction)
        ensures
            action == probe_action(*self),
    {
        match self {
            ProbeState::Attaching => ProbeAction::Attach,
            ProbeState::Waiting => ProbeAction::WaitForStop,
            ProbeState::Reading => ProbeAction::ReadRegisters,
            ProbeState::Detaching { .. } => ProbeAction::Detach,
            ProbeState::Done { ip } => ProbeAction::Finish { ip: *ip },
        }
    }

    /// The state after the action of this one had the outcome `outcome`.
    pub fn advance(self, outcome: Option<u64>) -> (next: ProbeState)
        ensures
            next == probe_next(self, outcome),
    {
        match self {
            ProbeState::Attaching => match outcome {
                Some(_) => ProbeState::Waiting,
                None => ProbeState::Done { ip: 0 },
            },
            ProbeState::Waiting => match outcome {
                Some(_) => ProbeState::Reading,
                None => ProbeState::Detaching { ip: 0 },
            },
            ProbeState::Reading => match outcome {
                Some(ip) => ProbeState::Detaching { ip },
                None => ProbeState::Detaching { ip: 0 },
            },
            ProbeState::Detaching { ip } => ProbeState::Done { ip },
            ProbeState::Done { ip } => ProbeState::Done { ip },
        }
    }
}

/// What a probe answers when its actions have the outcomes `outcomes`: the
/// program counter that was read, or 0 when attaching, waiting or reading
/// failed.
pub open spec fn probe_answer(outcomes: Seq<Option<u64>>) -> u64 {
    if outcomes.len() >= 3 && outcomes[0] is Some && outcomes[1] is Some {
        match outcomes[2] {
            Some(ip) => ip,
            None => 0,
        }
    } else {
        0
    }
}

/// A probe has ended after four actions, whatever their outcomes, with the
/// answer that [`probe_answer`] gives. A probe that attached has detached
/// before it ended: its second or third action left it about to detach.
pub proof fn lemma_probe_detaches(outcomes: Seq<Option<u64>>)
    requires
        outcomes.len() >= 4,
    ensures
        probe_run(ProbeState::Attaching, outcomes) == (ProbeState::Done {
            ip: probe_answer(outcomes),
        }),
        outcomes[0] is Some ==> exists|n: int|
            2 <= n <= 3 && #[trigger] probe_run(ProbeState::Attaching, outcomes.take(n))
                is Detaching,
{
    let start = ProbeState::Attaching;
    assert(outcomes.take(0) == Seq::<Option<u64>>::empty());
    lemma_probe_run_prefixes(start, outcomes, 1);
    lemma_probe_run_prefixes(start, outcomes, 2);
    lemma_probe_run_prefixes(start, outcomes, 3);
    lemma_probe_run_prefixes(start, outcomes, 4);
    lemma_probe_stays_done(start, outcomes, 4);
    if outcomes[0] is Some {
        if outcomes[1] is Some {
            assert(probe_run(start, outcomes.take(3)) is Detaching);
        } else {
            assert(probe_run(start, outcomes.take(2)) is Detaching);
        }
    }
}

/// One more outcome takes the run one state further.
pub proof fn lemma_probe_run_prefixes(state: ProbeState, outcomes: Seq<Option<u64>>, n: int)
    requires
        1 <= n <= outcomes.len(),
    ensures
        probe_run(state, outcomes.take(n)) == probe_next(
            probe_run(state, outcomes.take(n - 1)),
            outcomes[n - 1],
        ),
{
    assert(outcomes.take(n).drop_last() == outcomes.take(n - 1));
}

/// A probe that has ended stays as it is.
pub proof fn lemma_probe_stays_done(state: ProbeState, outcomes: Seq<Option<u64>>, n: int)
    requires
        0 <= n <= outcomes.len(),
        probe_run(state, outcomes.take(n)) is Done,
    ensures
        probe_run(state, outcomes) == probe_run(state, outcomes.take(n)),
    decreases outcomes.len() - n,
{
    if n == outcomes.len() {
        assert(outcomes.take(n) == outcomes);
    } else {
        lemma_probe_run_prefixes(state, outcomes, n + 1);
        lemma_probe_stays_done(state, outcomes, n + 1);
        assert(outcomes.take(n + 1).take(n) == outcomes.take(n));
    }
}

/// Where the sampling worker stands in its round.
#[derive(Debug, Clone, Copy, PartialEq, Eq, Structural)]
pub enum Phase {
    /// Not started.
    Idle,
    /// Asked whether to go on.
    Checking,
    /// Sleeping until the next sample is due.
    Sleeping,
    /// Reading the counter.
    Reading,
    /// Probing the instruction pointer; `value` is what the counter read.
    Probing { value: u64 },
    /// Handing the sample on.
    Pushing,
    /// Ended.
    Stopped,
}

/// What has happened since the last step of the worker.
#[derive(Debug, Clone, Copy)]
pub enum CollectorEvent {
    /// The worker has been started.
    Begin,
    /// The running flag was read.
    Running(bool),
    /// The sleep is over.
    Slept,
    /// The counter was read, or could not be read.
    Counter(Option<u64>),
    /// The instruction pointer was probed, `elapsed_millis` after the worker
    /// was started.
    Probed { ip: u64, elapsed_millis: u128 },
    /// The sample was pushed onto the queue.
    Pushed,
}

/// What the worker does next.
#[derive(Debug, Clone, Copy)]
pub enum CollectorAction {
    /// Read the running flag.
    CheckRunning,
    /// Sleep for this many milliseconds.
    Sleep { millis: u64 },
    /// Read the counter.
    ReadCounter,
    /// Probe the instruction pointer of this process.
    Probe { pid: i32 },
    /// Push this sample onto the queue.
    Push(Sample),
    /// End.
    Stop,
}

/// One step of the worker for the process `pid`: the phase it enters and
/// what it does next. While the flag says to go on, a round sleeps for the
/// period, reads the counter, probes the instruction pointer and pushes the
/// sample. The worker ends when the flag says so, when the counter cannot be
/// read, and on anything that is out of turn.
pub open spec fn collector_step(phase: Phase, pid: i32, event: CollectorEvent) -> (
    Phase,
    CollectorAction,
) {
    match (phase, event) {
        (Phase::Idle, CollectorEvent::Begin) => (Phase::Checking, CollectorAction::CheckRunning),
        (Phase::Checking, CollectorEvent::Running(true)) => (
            Phase::Sleeping,
            CollectorAction::Sleep { millis: SAMPLE_PERIOD_MILLIS },
        ),
        (Phase::Sleeping, CollectorEvent::Slept) => (Phase::Reading, CollectorAction::ReadCounter),
        (Phase::Reading, CollectorEvent::Counter(Some(value))) => (
            Phase::Probing { value },
            CollectorAction::Probe { pid },
        ),
        (Phase::Probing { value }, CollectorEvent::Probed { ip, elapsed_millis }) => (
            Phase::Pushing,
            CollectorAction::Push(
                Sample {
                    value,
                    pid,
                    timestamp: elapsed_millis as u64,
                    instruction_pointer: ip,
                },
            ),
        ),
        (Phase::Pushing, CollectorEvent::Pushed) => (
            Phase::Checking,
            CollectorAction::CheckRunning,
        ),
        _ => (Phase::Stopped, CollectorAction::Stop),
    }
}

/// The sampling worker for one process.
pub struct Collector {
    pid: i32,
    phase: Phase,
}

impl Collector {
    /// The process that is sampled.
    pub closed spec fn pid(&self) -> i32 {
        self.pid
    }

    /// Where the worker stands.
    pub closed spec fn phase(&self) -> Phase {
        self.phase
    }

    /// A worker for the process `pid`, not started yet.
    pub fn new(pid: i32) -> (collector: Self)
        ensures
            collector.pid() == pid,
            collector.phase() == Phase::Idle,
    {
        Collector { pid, phase: Phase::Idle }
    }

    /// Takes in what has happened and says what to do next.
    pub fn step(&mut self, event: CollectorEvent) -> (action: CollectorAction)
        ensures
            final(self).pid() == old(self).pid(),
            (final(self).phase(), action) == collector_step(
                old(self).phase(),
                old(self).pid(),
                event,
            ),
    {
        let (phase, action) = match (self.phase, event) {
            (Phase::Idle, CollectorEvent::Begin) => (
                Phase::Checking,
                CollectorAction::CheckRunning,
            ),
            (Phase::Checking, CollectorEvent::Running(true)) => (
                Phase::Sleeping,
                CollectorAction::Sleep { millis: SAMPLE_PERIOD_MILLIS },
            ),
            (Phase::Sleeping, CollectorEvent::Slept) => (
                Phase::Reading,
                CollectorAction::ReadCounter,
            ),
            (Phase::Reading, CollectorEvent::Counter(Some(value))) => (
                Phase::Probing { value },
                CollectorAction::Probe { pid: self.pid },
            ),
            (Phase::Probing { value }, CollectorEvent::Probed { ip, elapsed_millis }) => (
                Phase::Pushing,
                CollectorAction::Push(parse_sample(value, self.pid, elapsed_millis, ip)),
            ),
            (Phase::Pushing, CollectorEvent::Pushed) => (
                Phase::Checking,
                CollectorAction::CheckRunning,
            ),
            _ => (Phase::Stopped, CollectorAction::Stop),
        };
        self.phase = phase;
        action
    }
}

/// The worker ends at the first look at a flag that says so, and sleeps one
/// period, no more, between two looks at the flag.
pub proof fn lemma_collector_round(pid: i32, value: u64, ip: u64, elapsed_millis: u128)
    ensures
        collector_step(Phase::Checking, pid, CollectorEvent::Running(false)) == (
            Phase::Stopped,
            CollectorAction::Stop,
        ),
        collector_step(Phase::Checking, pid, CollectorEvent::Running(true)) == (
            Phase::Sleeping,
            CollectorAction::Sleep { millis: SAMPLE_PERIOD_MILLIS },
        ),
        collector_step(Phase::Sleeping, pid, CollectorEvent::Slept).1 is ReadCounter,
        collector_step(Phase::Reading, pid, CollectorEvent::Counter(None)).1 is Stop,
        collector_step(Phase::Reading, pid, CollectorEvent::Counter(Some(value))).1 is Probe,
        collector_step(
            Phase::Probing { value },
            pid,
            CollectorEvent::Probed { ip, elapsed_millis },
        ).1 is Push,
        collector_step(Phase::Pushing, pid, CollectorEvent::Pushed).1 is CheckRunning,
{
}

} // verus!
