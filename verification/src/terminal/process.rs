//! The lifecycle of the shell process of a pane, as a state machine: the
//! terminal widget reports what happened, the machine says what to do.
use vstd::prelude::*;

use super::{decoded_exit, ProcessExit};

verus! {

/// How long a closing shell has to end after the hangup before it is
/// killed, in milliseconds.
pub const GRACEFUL_CLOSE_DELAY_MILLIS: u64 = 1500;

/// How long after a close request the pane closes whatever the shell does,
/// in milliseconds.
pub const FORCED_CLOSE_DELAY_MILLIS: u64 = 2500;

/// The timers a close request arms.
pub open spec fn escalation() -> ProcessAction {
    ProcessAction::ScheduleEscalation {
        grace_millis: GRACEFUL_CLOSE_DELAY_MILLIS,
        deadline_millis: FORCED_CLOSE_DELAY_MILLIS,
    }
}

/// Where the shell process of a pane stands.
#[derive(Debug, Clone, Copy, PartialEq, Eq, Structural)]
pub enum ProcessState {
    /// Nothing started yet.
    Idle,
    /// A start is in progress.
    Starting,
    /// The shell runs with this process id.
    Running(i32),
    /// A close was requested; the process id once it is known.
    Closing(Option<i32>),
    /// The shell is gone.
    Exited,
    /// The start failed.
    Failed,
}

/// What the terminal reports.
#[derive(Debug, Clone, Copy, PartialEq, Eq, Structural)]
pub enum ProcessInput {
    /// The pane asks to start its shell.
    SpawnRequested,
    /// The start finished with this process id.
    Spawned(i32),
    /// The start failed (or was cancelled).
    SpawnFailed,
    /// The pane asks to close.
    CloseRequested,
    /// The shell ended with this wait status.
    ChildExited(i32),
    /// The grace period after a close request ran out.
    GraceElapsed,
    /// The deadline after a close request ran out.
    DeadlineElapsed,
}

/// The signals a closing pane sends to its shell.
#[derive(Debug, Clone, Copy, PartialEq, Eq, Structural)]
pub enum ProcessSignal {
    Hangup,
    Kill,
}

/// What the terminal is to do, in order.
#[derive(Debug, Clone, Copy, PartialEq, Eq, Structural)]
pub enum ProcessAction {
    /// Start the shell, keeping a handle to cancel the start.
    StartSpawn,
    /// Drop the handle of the finished start.
    ForgetSpawnHandle,
    /// Tell the pane that its shell runs.
    ReportStarted,
    /// Tell the pane that the start failed.
    ReportSpawnFailed,
    /// Tell the pane how its shell ended.
    ReportExited(ProcessExit),
    /// Send the signal to the process.
    Signal(i32, ProcessSignal),
    /// Keep the callback to run once the shell is gone.
    KeepCloseCallback,
    /// Cancel the start in progress, if a handle is kept.
    CancelSpawn,
    /// Arm two timers, both counted from the close request: after the grace
    /// period the input `GraceElapsed` is due, after the deadline the input
    /// `DeadlineElapsed`.
    ScheduleEscalation { grace_millis: u64, deadline_millis: u64 },
    /// Run the kept callback (once; it is dropped afterwards).
    RunCloseCallback,
    /// Stop passing input to the terminal.
    DisableInput,
}

/// The state after an input.
pub open spec fn next_state(state: ProcessState, input: ProcessInput) -> ProcessState {
    match input {
        ProcessInput::SpawnRequested => ProcessState::Starting,
        ProcessInput::Spawned(pid) => match state {
            ProcessState::Starting => ProcessState::Running(pid),
            ProcessState::Closing(None) => ProcessState::Closing(Some(pid)),
            _ => state,
        },
        ProcessInput::SpawnFailed => match state {
            ProcessState::Starting => ProcessState::Failed,
            ProcessState::Closing(_) => ProcessState::Failed,
            _ => state,
        },
        ProcessInput::CloseRequested => match state {
            ProcessState::Starting => ProcessState::Closing(None),
            ProcessState::Running(pid) => ProcessState::Closing(Some(pid)),
            _ => state,
        },
        ProcessInput::ChildExited(_) => match state {
            ProcessState::Exited => state,
            ProcessState::Failed => state,
            _ => ProcessState::Exited,
        },
        ProcessInput::GraceElapsed => state,
        ProcessInput::DeadlineElapsed => match state {
            ProcessState::Closing(_) => ProcessState::Exited,
            _ => state,
        },
    }
}

/// The actions an input calls for.
pub open spec fn step_actions(state: ProcessState, input: ProcessInput) -> Seq<ProcessAction> {
    match input {
        ProcessInput::SpawnRequested => if state == ProcessState::Idle {
            seq![ProcessAction::StartSpawn]
        } else {
            Seq::empty()
        },
        ProcessInput::Spawned(pid) => seq![ProcessAction::ForgetSpawnHandle] + match state {
            ProcessState::Starting => seq![ProcessAction::ReportStarted],
            ProcessState::Closing(None) => seq![
                ProcessAction::Signal(pid, ProcessSignal::Hangup),
            ],
            _ => Seq::empty(),
        },
        ProcessInput::SpawnFailed => seq![ProcessAction::ForgetSpawnHandle] + match state {
            ProcessState::Closing(_) => seq![ProcessAction::RunCloseCallback],
            ProcessState::Starting => seq![ProcessAction::ReportSpawnFailed],
            _ => Seq::empty(),
        },
        ProcessInput::CloseRequested => match state {
            ProcessState::Starting => seq![
                ProcessAction::KeepCloseCallback,
                ProcessAction::CancelSpawn,
                escalation(),
            ],
            ProcessState::Running(pid) => seq![
                ProcessAction::KeepCloseCallback,
                ProcessAction::Signal(pid, ProcessSignal::Hangup),
                escalation(),
            ],
            _ => Seq::empty(),
        },
        ProcessInput::ChildExited(status) => seq![ProcessAction::DisableInput] + match state {
            ProcessState::Closing(_) => seq![ProcessAction::RunCloseCallback],
            ProcessState::Exited => Seq::empty(),
            ProcessState::Failed => Seq::empty(),
            _ => seq![ProcessAction::ReportExited(decoded_exit(status))],
        },
        ProcessInput::GraceElapsed => match state {
            ProcessState::Closing(Some(pid)) => seq![
                ProcessAction::Signal(pid, ProcessSignal::Kill),
            ],
            _ => Seq::empty(),
        },
        ProcessInput::DeadlineElapsed => match state {
            ProcessState::Closing(_) => seq![ProcessAction::RunCloseCallback],
            _ => Seq::empty(),
        },
    }
}

/// A close request is granted at once when no shell runs or starts.
pub open spec fn close_ready(state: ProcessState, input: ProcessInput) -> bool {
    input == ProcessInput::CloseRequested && (state == ProcessState::Idle || state
        == ProcessState::Exited || state == ProcessState::Failed)
}

/// The outcome of one input: the new state, the actions, and, for a close
/// request, whether the pane may close right away.
#[derive(Debug)]
pub struct ProcessStep {
    pub state: ProcessState,
    pub actions: Vec<ProcessAction>,
    pub close_ready: bool,
}

impl ProcessState {
    /// Handles one input.
    pub fn step(self, input: ProcessInput) -> (r: ProcessStep)
        ensures
            r.state == next_state(self, input),
            r.actions@ == step_actions(self, input),
            r.close_ready == close_ready(self, input),
    {
        let mut actions: Vec<ProcessAction> = Vec::new();
        let mut ready = false;
        let state = match input {
            ProcessInput::SpawnRequested => {
                if self == ProcessState::Idle {
                    actions.push(ProcessAction::StartSpawn);
                }
                ProcessState::Starting
            },
            ProcessInput::Spawned(pid) => {
                actions.push(ProcessAction::ForgetSpawnHandle);
                match self {
                    ProcessState::Starting => {
                        actions.push(ProcessAction::ReportStarted);
                        ProcessState::Running(pid)
                    },
                    ProcessState::Closing(None) => {
                        actions.push(ProcessAction::Signal(pid, ProcessSignal::Hangup));
                        ProcessState::Closing(Some(pid))
                    },
                    _ => self,
                }
            },
            ProcessInput::SpawnFailed => {
                actions.push(ProcessAction::ForgetSpawnHandle);
                match self {
                    ProcessState::Closing(_) => {
                        actions.push(ProcessAction::RunCloseCallback);
                        ProcessState::Failed
                    },
                    ProcessState::Starting => {
                        actions.push(ProcessAction::ReportSpawnFailed);
                        ProcessState::Failed
                    },
                    _ => self,
                }
            },
            ProcessInput::CloseRequested => match self {
                ProcessState::Idle | ProcessState::Exited | ProcessState::Failed => {
                    ready = true;
                    self
                },
                ProcessState::Closing(_) => self,
                ProcessState::Starting => {
                    actions.push(ProcessAction::KeepCloseCallback);
                    actions.push(ProcessAction::CancelSpawn);
                    actions.push(
                        ProcessAction::ScheduleEscalation {
                            grace_millis: GRACEFUL_CLOSE_DELAY_MILLIS,
                            deadline_millis: FORCED_CLOSE_DELAY_MILLIS,
                        },
                    );
                    ProcessState::Closing(None)
                },
                ProcessState::Running(pid) => {
                    actions.push(ProcessAction::KeepCloseCallback);
                    actions.push(ProcessAction::Signal(pid, ProcessSignal::Hangup));
                    actions.push(
                        ProcessAction::ScheduleEscalation {
                            grace_millis: GRACEFUL_CLOSE_DELAY_MILLIS,
                            deadline_millis: FORCED_CLOSE_DELAY_MILLIS,
                        },
                    );
                    ProcessState::Closing(Some(pid))
                },
            },
            ProcessInput::ChildExited(status) => {
                actions.push(ProcessAction::DisableInput);
                match self {
                    ProcessState::Closing(_) => {
                        actions.push(ProcessAction::RunCloseCallback);
                        ProcessState::Exited
                    },
                    ProcessState::Exited | ProcessState::Failed => self,
                    _ => {
                        actions.push(
                            ProcessAction::ReportExited(ProcessExit::from_wait_status(status)),
                        );
                        ProcessState::Exited
                    },
                }
            },
            ProcessInput::GraceElapsed => {
                if let ProcessState::Closing(Some(pid)) = self {
                    actions.push(ProcessAction::Signal(pid, ProcessSignal::Kill));
                }
                self
            },
            ProcessInput::DeadlineElapsed => match self {
                ProcessState::Closing(_) => {
                    actions.push(ProcessAction::RunCloseCallback);
                    ProcessState::Exited
                },
                _ => self,
            },
        };
        proof {
            assert(actions@ =~= step_actions(self, input));
        }
        ProcessStep { state, actions, close_ready: ready }
    }
}

/// The kept close callback runs only while closing, and the step that runs
/// it leaves the closing state, so one close runs it at most once.
pub proof fn law_close_callback_runs_once(state: ProcessState, input: ProcessInput)
    ensures
        step_actions(state, input).contains(ProcessAction::RunCloseCallback) ==> (
        state is Closing && !(next_state(state, input) is Closing)),
{
    if step_actions(state, input).contains(ProcessAction::RunCloseCallback) {
        let k = choose|k: int|
            0 <= k < step_actions(state, input).len() && step_actions(state, input)[k]
                == ProcessAction::RunCloseCallback;
        assert(step_actions(state, input)[k] == ProcessAction::RunCloseCallback);
    }
}

/// A signal only ever goes to the process the machine knows of: the
/// running or closing one, or the one whose start finishes during a close.
pub proof fn law_signals_reach_known_process(
    state: ProcessState,
    input: ProcessInput,
    pid: i32,
    signal: ProcessSignal,
)
    ensures
        step_actions(state, input).contains(ProcessAction::Signal(pid, signal)) ==> (state
            == ProcessState::Running(pid) || state == ProcessState::Closing(Some(pid)) || (state
            == ProcessState::Closing(None) && input == ProcessInput::Spawned(pid))),
{
    if step_actions(state, input).contains(ProcessAction::Signal(pid, signal)) {
        let k = choose|k: int|
            0 <= k < step_actions(state, input).len() && step_actions(state, input)[k]
                == ProcessAction::Signal(pid, signal);
        assert(step_actions(state, input)[k] == ProcessAction::Signal(pid, signal));
    }
}

/// The shell is killed only after the grace period of a close of a known
/// process.
pub proof fn law_kill_only_after_grace(state: ProcessState, input: ProcessInput, pid: i32)
    ensures
        step_actions(state, input).contains(ProcessAction::Signal(pid, ProcessSignal::Kill)) ==> (
        input == ProcessInput::GraceElapsed && state == ProcessState::Closing(Some(pid))),
{
    if step_actions(state, input).contains(ProcessAction::Signal(pid, ProcessSignal::Kill)) {
        let k = choose|k: int|
            0 <= k < step_actions(state, input).len() && step_actions(state, input)[k]
                == ProcessAction::Signal(pid, ProcessSignal::Kill);
        assert(step_actions(state, input)[k] == ProcessAction::Signal(pid, ProcessSignal::Kill));
    }
}

/// Once the shell is gone or failed to start, nothing but a new start
/// request changes the state, and the end is never reported again.
pub proof fn law_end_states_absorb(state: ProcessState, input: ProcessInput, exit: ProcessExit)
    requires
        state == ProcessState::Exited || state == ProcessState::Failed,
        input != ProcessInput::SpawnRequested,
    ensures
        next_state(state, input) == state,
        !step_actions(state, input).contains(ProcessAction::ReportExited(exit)),
        !step_actions(state, input).contains(ProcessAction::RunCloseCallback),
{
    assert(!step_actions(state, input).contains(ProcessAction::ReportExited(exit))) by {
        if step_actions(state, input).contains(ProcessAction::ReportExited(exit)) {
            let k = choose|k: int|
                0 <= k < step_actions(state, input).len() && step_actions(state, input)[k]
                    == ProcessAction::ReportExited(exit);
            assert(step_actions(state, input)[k] == ProcessAction::ReportExited(exit));
        }
    }
    assert(!step_actions(state, input).contains(ProcessAction::RunCloseCallback)) by {
        if step_actions(state, input).contains(ProcessAction::RunCloseCallback) {
            let k = choose|k: int|
                0 <= k < step_actions(state, input).len() && step_actions(state, input)[k]
                    == ProcessAction::RunCloseCallback;
            assert(step_actions(state, input)[k] == ProcessAction::RunCloseCallback);
        }
    }
}

/// A close request is granted at once exactly when no shell runs, starts
/// or is being closed; otherwise the pane waits for the callback.
pub proof fn law_close_ready_when_idle(state: ProcessState)
    ensures
        close_ready(state, ProcessInput::CloseRequested) <==> !(state is Starting || state is Running
            || state is Closing),
{
}

/// Only an idle pane starts a shell.
pub proof fn law_spawn_only_from_idle(state: ProcessState, input: ProcessInput)
    ensures
        step_actions(state, input).contains(ProcessAction::StartSpawn) ==> (state
            == ProcessState::Idle && input == ProcessInput::SpawnRequested),
{
    if step_actions(state, input).contains(ProcessAction::StartSpawn) {
        let k = choose|k: int|
            0 <= k < step_actions(state, input).len() && step_actions(state, input)[k]
                == ProcessAction::StartSpawn;
        assert(step_actions(state, input)[k] == ProcessAction::StartSpawn);
    }
}

/// The state after a sequence of inputs.
pub open spec fn state_after(state: ProcessState, inputs: Seq<ProcessInput>) -> ProcessState
    decreases inputs.len(),
{
    if inputs.len() == 0 {
        state
    } else {
        next_state(state_after(state, inputs.drop_last()), inputs.last())
    }
}

/// The actions of a sequence of inputs, in order.
pub open spec fn actions_after(state: ProcessState, inputs: Seq<ProcessInput>) -> Seq<
    ProcessAction,
>
    decreases inputs.len(),
{
    if inputs.len() == 0 {
        Seq::empty()
    } else {
        actions_after(state, inputs.drop_last()) + step_actions(
            state_after(state, inputs.drop_last()),
            inputs.last(),
        )
    }
}

/// How often an action occurs.
pub open spec fn occurrences(actions: Seq<ProcessAction>, action: ProcessAction) -> nat
    decreases actions.len(),
{
    if actions.len() == 0 {
        0
    } else {
        occurrences(actions.drop_last(), action) + if actions.last() == action {
            1nat
        } else {
            0nat
        }
    }
}

proof fn lemma_occurrences_concat(a: Seq<ProcessAction>, b: Seq<ProcessAction>, action: ProcessAction)
    ensures
        occurrences(a + b, action) == occurrences(a, action) + occurrences(b, action),
    decreases b.len(),
{
    if b.len() > 0 {
        lemma_occurrences_concat(a, b.drop_last(), action);
        assert((a + b).drop_last() =~= a + b.drop_last());
    } else {
        assert(a + b =~= a);
    }
}

/// One step runs the callback no more often than it keeps one, counting
/// a callback held while closing.
proof fn lemma_step_keeps_before_runs(state: ProcessState, input: ProcessInput)
    ensures
        occurrences(step_actions(state, input), ProcessAction::RunCloseCallback) + (if next_state(
            state,
            input,
        ) is Closing {
            1int
        } else {
            0int
        }) <= occurrences(step_actions(state, input), ProcessAction::KeepCloseCallback) + (
        if state is Closing {
            1int
        } else {
            0int
        }),
{
    reveal_with_fuel(occurrences, 4);
    let a = step_actions(state, input);
    assert(a.len() <= 3);
    if a.len() == 2 {
        assert(a.drop_last().drop_last() =~= Seq::<ProcessAction>::empty());
    }
    if a.len() == 3 {
        assert(a.drop_last().drop_last().drop_last() =~= Seq::<ProcessAction>::empty());
    }
}

/// Over any sequence of inputs that starts outside a close, the kept close
/// callback runs at most once per close request that kept it: the runs,
/// plus one for a close still under way, never outnumber the callbacks
/// kept.
pub proof fn law_close_callback_once_per_request(state: ProcessState, inputs: Seq<ProcessInput>)
    requires
        !(state is Closing),
    ensures
        occurrences(actions_after(state, inputs), ProcessAction::RunCloseCallback) + (
        if state_after(state, inputs) is Closing {
            1int
        } else {
            0int
        }) <= occurrences(actions_after(state, inputs), ProcessAction::KeepCloseCallback),
    decreases inputs.len(),
{
    if inputs.len() > 0 {
        let before = inputs.drop_last();
        law_close_callback_once_per_request(state, before);
        let s = state_after(state, before);
        let step = step_actions(s, inputs.last());
        lemma_step_keeps_before_runs(s, inputs.last());
        lemma_occurrences_concat(actions_after(state, before), step, ProcessAction::RunCloseCallback);
        lemma_occurrences_concat(actions_after(state, before), step, ProcessAction::KeepCloseCallback);
    }
}

/// Running two sequences of inputs one after the other.
proof fn lemma_after_concat(state: ProcessState, a: Seq<ProcessInput>, b: Seq<ProcessInput>)
    ensures
        state_after(state, a + b) == state_after(state_after(state, a), b),
        actions_after(state, a + b) == actions_after(state, a) + actions_after(
            state_after(state, a),
            b,
        ),
    decreases b.len(),
{
    if b.len() == 0 {
        assert(a + b =~= a);
        assert(actions_after(state, a) + Seq::<ProcessAction>::empty() =~= actions_after(state, a));
    } else {
        lemma_after_concat(state, a, b.drop_last());
        assert((a + b).drop_last() =~= a + b.drop_last());
        assert((a + b).last() == b.last());
        let mid = state_after(state, a);
        assert(actions_after(state, a) + actions_after(mid, b.drop_last()) + step_actions(
            state_after(mid, b.drop_last()),
            b.last(),
        ) =~= actions_after(state, a) + (actions_after(mid, b.drop_last()) + step_actions(
            state_after(mid, b.drop_last()),
            b.last(),
        )));
    }
}

/// No input asks for a new start.
pub open spec fn without_restart(inputs: Seq<ProcessInput>) -> bool {
    forall|i: int| 0 <= i < inputs.len() ==> inputs[i] != ProcessInput::SpawnRequested
}

/// A close under way, or a shell that is gone.
pub open spec fn closing_or_ended(state: ProcessState) -> bool {
    state is Closing || state == ProcessState::Exited || state == ProcessState::Failed
}

/// One step while closing or ended, other than a new start.
proof fn lemma_close_step(state: ProcessState, input: ProcessInput)
    requires
        closing_or_ended(state),
        input != ProcessInput::SpawnRequested,
    ensures
        closing_or_ended(next_state(state, input)),
        occurrences(step_actions(state, input), ProcessAction::KeepCloseCallback) == 0,
        occurrences(step_actions(state, input), ProcessAction::RunCloseCallback) == if state is Closing
            && !(next_state(state, input) is Closing) {
            1int
        } else {
            0int
        },
        !(state is Closing) ==> next_state(state, input) == state,
{
    reveal_with_fuel(occurrences, 4);
    let step = step_actions(state, input);
    assert(step.len() <= 3);
    if step.len() == 1 {
        assert(step.drop_last() =~= Seq::<ProcessAction>::empty());
    }
    if step.len() == 2 {
        assert(step.drop_last().drop_last() =~= Seq::<ProcessAction>::empty());
    }
    if step.len() == 3 {
        assert(step.drop_last().drop_last().drop_last() =~= Seq::<ProcessAction>::empty());
    }
}

/// While closing or ended and without a new start, the state stays closing
/// or ended, no callback is kept, and the callback runs once exactly when
/// the close ends.
proof fn lemma_close_phase(state: ProcessState, inputs: Seq<ProcessInput>)
    requires
        closing_or_ended(state),
        without_restart(inputs),
    ensures
        closing_or_ended(state_after(state, inputs)),
        !(state is Closing) ==> state_after(state, inputs) == state,
        occurrences(actions_after(state, inputs), ProcessAction::KeepCloseCallback) == 0,
        occurrences(actions_after(state, inputs), ProcessAction::RunCloseCallback) == if state is Closing
            && !(state_after(state, inputs) is Closing) {
            1int
        } else {
            0int
        },
    decreases inputs.len(),
{
    if inputs.len() > 0 {
        let before = inputs.drop_last();
        assert forall|i: int| 0 <= i < before.len() implies before[i]
            != ProcessInput::SpawnRequested by {
            assert(before[i] == inputs[i]);
        }
        lemma_close_phase(state, before);
        let s = state_after(state, before);
        let input = inputs.last();
        assert(input == inputs[inputs.len() - 1]);
        let step = step_actions(s, input);
        lemma_close_step(s, input);
        lemma_occurrences_concat(actions_after(state, before), step, ProcessAction::RunCloseCallback);
        lemma_occurrences_concat(actions_after(state, before), step, ProcessAction::KeepCloseCallback);
    }
}

/// A close asked of a starting or running shell keeps the callback once
/// and, however the close goes on (with no new start in between), has run
/// it exactly once when the deadline has passed; the close is not granted
/// at once, a running shell gets a hangup first, and the request arms the
/// timers: the kill after the grace period, and the deadline, which ends
/// the close, the forced-close delay after the request.
pub proof fn law_close_request_runs_callback_once(
    state: ProcessState,
    middle: Seq<ProcessInput>,
)
    requires
        state == ProcessState::Starting || state is Running,
        without_restart(middle),
    ensures
        ({
            let inputs = seq![ProcessInput::CloseRequested] + middle + seq![
                ProcessInput::DeadlineElapsed,
            ];
            let actions = actions_after(state, inputs);
            &&& !close_ready(state, ProcessInput::CloseRequested)
            &&& occurrences(actions, ProcessAction::KeepCloseCallback) == 1
            &&& occurrences(actions, ProcessAction::RunCloseCallback) == 1
            &&& !(state_after(state, inputs) is Closing)
        }),
        step_actions(state, ProcessInput::CloseRequested).contains(escalation()),
        escalation() == (ProcessAction::ScheduleEscalation {
            grace_millis: 1500,
            deadline_millis: 2500,
        }),
        state matches ProcessState::Running(pid) ==> step_actions(
            state,
            ProcessInput::CloseRequested,
        ).contains(ProcessAction::Signal(pid, ProcessSignal::Hangup)),
{
    let first = seq![ProcessInput::CloseRequested];
    let last = seq![ProcessInput::DeadlineElapsed];
    let closing = next_state(state, ProcessInput::CloseRequested);
    let first_actions = step_actions(state, ProcessInput::CloseRequested);
    reveal_with_fuel(occurrences, 4);
    reveal_with_fuel(state_after, 2);
    reveal_with_fuel(actions_after, 2);
    assert(first.drop_last() =~= Seq::<ProcessInput>::empty());
    assert(last.drop_last() =~= Seq::<ProcessInput>::empty());
    assert(state_after(state, first) == closing);
    assert(actions_after(state, first) =~= first_actions);
    assert(first_actions.drop_last().drop_last().drop_last() =~= Seq::<ProcessAction>::empty());
    assert(occurrences(first_actions, ProcessAction::KeepCloseCallback) == 1);
    assert(occurrences(first_actions, ProcessAction::RunCloseCallback) == 0);
    assert(first_actions[2] == escalation());
    if let ProcessState::Running(pid) = state {
        assert(first_actions[1] == ProcessAction::Signal(pid, ProcessSignal::Hangup));
    }
    lemma_close_phase(closing, middle);
    let ended = state_after(closing, middle);
    let tail = step_actions(ended, ProcessInput::DeadlineElapsed);
    assert(state_after(ended, last) == next_state(ended, ProcessInput::DeadlineElapsed));
    assert(actions_after(ended, last) =~= tail);
    lemma_after_concat(state, first, middle);
    lemma_after_concat(state, first + middle, last);
    lemma_occurrences_concat(actions_after(state, first), actions_after(closing, middle), ProcessAction::RunCloseCallback);
    lemma_occurrences_concat(actions_after(state, first), actions_after(closing, middle), ProcessAction::KeepCloseCallback);
    lemma_occurrences_concat(actions_after(state, first + middle), tail, ProcessAction::RunCloseCallback);
    lemma_occurrences_concat(actions_after(state, first + middle), tail, ProcessAction::KeepCloseCallback);
}

} // verus!
