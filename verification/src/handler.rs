//! The worker's side of the protocol: the signals that it takes and what it
//! does on each of them.

use vstd::prelude::*;
use vstd::string::*;

verus! {

/// What the dispatcher tells a worker.
#[derive(Clone, Copy, PartialEq, Eq, Debug, Structural)]
pub enum Signal {
    /// Simulate one frog and send back its result.
    Job,
    /// Leave the loop, so that the thread can be joined.
    Stop,
}

/// The failure to reach a worker that has hung up its channel.
#[derive(Clone, Copy, PartialEq, Eq, Debug, Structural)]
pub struct SendError;

impl SendError {
    /// What `issue` and `stop` give back for a signal that was, or was not,
    /// taken by the channel of the worker.
    pub fn check(sent: bool) -> (outcome: Result<(), SendError>)
        ensures
            outcome.is_ok() <==> sent,
    {
        if sent {
            Ok(())
        } else {
            Err(SendError)
        }
    }

    /// The words of the error.
    pub fn to_text(&self) -> (text: String)
        ensures
            text@ == "The line is closed"@,
    {
        String::from_str("The line is closed")
    }
}

/// Why a worker gave up.
#[derive(Clone, Copy, PartialEq, Eq, Debug, Structural)]
pub enum WorkerFault {
    /// The dispatcher had hung up the job channel while the worker waited.
    DispatcherGone,
    /// The result channel was closed when the worker sent a result.
    ResultsClosed,
    /// Something was reported that the worker had not asked for.
    OutOfTurn,
}

/// Where a worker stands.
#[derive(Clone, Copy, PartialEq, Eq, Debug, Structural)]
pub enum WorkerState {
    /// Waiting for a signal.
    Idle,
    /// Simulating a frog, or sending its result.
    Running,
    /// Told to stop; the thread can be joined.
    Stopped,
    /// Given up.
    Broken { fault: WorkerFault },
}

/// What is reported to a worker.
#[derive(Clone, Copy, PartialEq, Eq, Debug, Structural)]
pub enum WorkerEvent {
    /// A signal came in on the job channel.
    Received { signal: Signal },
    /// The job channel is closed.
    HungUp,
    /// The result of the frog was sent.
    Delivered,
    /// The result of the frog could not be sent.
    Undelivered,
}

/// What a worker does next.
#[derive(Clone, Copy, PartialEq, Eq, Debug, Structural)]
pub enum WorkerOrder {
    /// Wait for the next signal.
    Await,
    /// Simulate one frog until it is home and send its result.
    Simulate,
    /// Leave the loop.
    Leave,
    /// Give up.
    Die { fault: WorkerFault },
}

/// What a worker in state `state` waits for.
pub open spec fn worker_order(state: WorkerState) -> WorkerOrder {
    match state {
        WorkerState::Idle => WorkerOrder::Await,
        WorkerState::Running => WorkerOrder::Simulate,
        WorkerState::Stopped => WorkerOrder::Leave,
        WorkerState::Broken { fault } => WorkerOrder::Die { fault },
    }
}

/// The state of a worker after `event` was reported to it in state `state`.
/// An idle worker starts on a job signal and stops on a stop signal; a
/// running one goes back to waiting once its result is sent.
pub open spec fn worker_react(state: WorkerState, event: WorkerEvent) -> WorkerState {
    match state {
        WorkerState::Idle => match event {
            WorkerEvent::Received { signal: Signal::Job } => WorkerState::Running,
            WorkerEvent::Received { signal: Signal::Stop } => WorkerState::Stopped,
            WorkerEvent::HungUp => WorkerState::Broken { fault: WorkerFault::DispatcherGone },
            _ => WorkerState::Broken { fault: WorkerFault::OutOfTurn },
        },
        WorkerState::Running => match event {
            WorkerEvent::Delivered => WorkerState::Idle,
            WorkerEvent::Undelivered => WorkerState::Broken { fault: WorkerFault::ResultsClosed },
            _ => WorkerState::Broken { fault: WorkerFault::OutOfTurn },
        },
        WorkerState::Stopped => WorkerState::Broken { fault: WorkerFault::OutOfTurn },
        WorkerState::Broken { fault } => state,
    }
}

impl WorkerState {
    /// The state in which a worker starts: waiting for its first signal.
    pub fn new() -> (state: WorkerState)
        ensures
            state == WorkerState::Idle,
    {
        WorkerState::Idle
    }

    /// What the worker waits for.
    pub fn order(&self) -> (order: WorkerOrder)
        ensures
            order == worker_order(*self),
    {
        match self {
            WorkerState::Idle => WorkerOrder::Await,
            WorkerState::Running => WorkerOrder::Simulate,
            WorkerState::Stopped => WorkerOrder::Leave,
            WorkerState::Broken { fault } => WorkerOrder::Die { fault: *fault },
        }
    }

    /// Takes what was reported and gives the state of the worker then, with
    /// what it does next.
    pub fn step(self, event: WorkerEvent) -> (next: (WorkerState, WorkerOrder))
        ensures
            next.0 == worker_react(self, event),
            next.1 == worker_order(next.0),
    {
        let state = match self {
            WorkerState::Idle => match event {
                WorkerEvent::Received { signal } => match signal {
                    Signal::Job => WorkerState::Running,
                    Signal::Stop => WorkerState::Stopped,
                },
                WorkerEvent::HungUp => WorkerState::Broken { fault: WorkerFault::DispatcherGone },
                _ => WorkerState::Broken { fault: WorkerFault::OutOfTurn },
            },
            WorkerState::Running => match event {
                WorkerEvent::Delivered => WorkerState::Idle,
                WorkerEvent::Undelivered => WorkerState::Broken {
                    fault: WorkerFault::ResultsClosed,
                },
                _ => WorkerState::Broken { fault: WorkerFault::OutOfTurn },
            },
            WorkerState::Stopped => WorkerState::Broken { fault: WorkerFault::OutOfTurn },
            WorkerState::Broken { fault } => self,
        };
        (state, state.order())
    }
}

/// The state of a worker after the events of `events` were reported in
/// order, from `state`.
pub open spec fn worker_run(state: WorkerState, events: Seq<WorkerEvent>) -> WorkerState
    decreases events.len(),
{
    if events.len() == 0 {
        state
    } else {
        worker_react(worker_run(state, events.drop_last()), events.last())
    }
}

/// A worker starts a frog only on a job signal that reaches it while it
/// waits, so never before the result of the frog before was sent; and it
/// stops only on a stop signal that reaches it while it waits, so never with
/// a frog under way.
pub proof fn law_worker_is_reactive(state: WorkerState, event: WorkerEvent)
    ensures
        worker_react(state, event) is Running ==> state is Idle && event == (WorkerEvent::Received {
            signal: Signal::Job,
        }),
        worker_react(state, event) is Stopped ==> state is Idle && event == (WorkerEvent::Received {
            signal: Signal::Stop,
        }),
        worker_react(state, event) is Idle ==> state is Running && event is Delivered,
{
}

/// A worker that has given up stays so, with the fault that it gave up for.
pub proof fn law_worker_stays_broken(state: WorkerState, events: Seq<WorkerEvent>)
    requires
        state is Broken,
    ensures
        worker_run(state, events) == state,
    decreases events.len(),
{
    if events.len() > 0 {
        law_worker_stays_broken(state, events.drop_last());
    }
}

} // verus!
