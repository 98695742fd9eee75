//! The protocol between the dispatcher and its workers as a state machine:
//! what the dispatcher orders next, and how it reacts to what comes back.

use vstd::prelude::*;

verus! {

/// Why a run was given up.
#[derive(Clone, Copy, PartialEq, Eq, Debug, Structural)]
pub enum Fault {
    /// A worker had hung up its channel when a signal was sent to it.
    WorkerGone { worker: usize },
    /// The thread of a worker had panicked when it was joined.
    WorkerPanicked { worker: usize },
    /// A result bore the name of a worker that had no job, or of no worker.
    UnexpectedResult { worker: usize },
    /// The result channel was closed while jobs were still out.
    ResultsLost,
    /// Something was reported that the dispatcher had not asked for.
    OutOfTurn,
}

/// Where a run stands.
#[derive(Clone, Copy, PartialEq, Eq, Debug, Structural)]
pub enum Phase {
    /// Each worker is being handed its first job.
    Priming,
    /// All workers are busy and the next result is awaited.
    Collecting,
    /// The worker whose result was just taken is being handed its next job.
    Reissuing { worker: usize },
    /// The workers are being told to stop.
    Stopping,
    /// The threads of the workers are being joined.
    Joining,
    /// The results that are still in the channel are being taken out.
    Draining,
    /// Every job that was handed out has come back.
    Finished,
    /// The run was given up.
    Failed { fault: Fault },
}

/// What the dispatcher orders.
#[derive(Clone, Copy, PartialEq, Eq, Debug, Structural)]
pub enum Action {
    /// Send the job signal to this worker.
    Issue { worker: usize },
    /// Wait for the next result, then ask whether the run is to be cut short.
    Collect,
    /// Send the stop signal to this worker.
    Stop { worker: usize },
    /// Join the thread of this worker.
    Join { worker: usize },
    /// Wait for the next result or for the result channel to close.
    Drain,
    /// The run is over.
    Finish,
    /// The run is given up.
    Abort { fault: Fault },
}

/// What is reported back to the dispatcher.
#[derive(Clone, Copy, PartialEq, Eq, Debug, Structural)]
pub enum Event {
    /// The signal was sent, or the thread was joined.
    Done,
    /// The signal could not be sent, or the thread had panicked.
    Failed,
    /// A result came in from this worker; `cutoff` says whether the run is
    /// to be cut short, which counts only while jobs are still handed out.
    Result { worker: usize, cutoff: bool },
    /// The result channel is closed.
    Closed,
}

/// The books of the dispatcher.
pub ghost struct PoolState {
    /// The frogs that the run is to simulate.
    pub total: nat,
    /// The number of workers.
    pub threads: nat,
    /// The jobs handed out so far.
    pub issued: nat,
    /// The results taken so far.
    pub collected: nat,
    /// The workers that were told to stop.
    pub stopped: nat,
    /// The workers whose threads were joined.
    pub joined: nat,
    /// For each worker, whether it holds a job whose result was not taken yet.
    pub busy: Seq<bool>,
    /// Whether the run was cut short.
    pub cutoff: bool,
    /// Where the run stands.
    pub phase: Phase,
}

/// The number of workers that hold a job.
pub open spec fn count_busy(busy: Seq<bool>) -> nat
    decreases busy.len(),
{
    if busy.len() == 0 {
        0
    } else if busy.last() {
        count_busy(busy.drop_last()) + 1
    } else {
        count_busy(busy.drop_last())
    }
}

/// The jobs that were handed out and whose results were not taken yet.
pub open spec fn in_flight(s: PoolState) -> nat {
    count_busy(s.busy)
}

/// The books at the start of a run: nothing handed out, every worker idle.
pub open spec fn initial(total: nat, threads: nat) -> PoolState {
    PoolState {
        total,
        threads,
        issued: 0,
        collected: 0,
        stopped: 0,
        joined: 0,
        busy: Seq::new(threads, |i: int| false),
        cutoff: false,
        phase: Phase::Priming,
    }
}

/// What the dispatcher waits for in state `s`.
pub open spec fn pending(s: PoolState) -> Action {
    match s.phase {
        Phase::Priming => Action::Issue { worker: s.issued as usize },
        Phase::Collecting => Action::Collect,
        Phase::Reissuing { worker } => Action::Issue { worker },
        Phase::Stopping => Action::Stop { worker: s.stopped as usize },
        Phase::Joining => Action::Join { worker: s.joined as usize },
        Phase::Draining => Action::Drain,
        Phase::Finished => Action::Finish,
        Phase::Failed { fault } => Action::Abort { fault },
    }
}

/// Whether a result of `worker` is owed: it is a worker and holds a job.
pub open spec fn owed(s: PoolState, worker: usize) -> bool {
    worker < s.threads && s.busy[worker as int]
}

/// Whether the dispatcher waits for results: with jobs still to hand out, or
/// with the last of them on their way.
pub open spec fn awaits_results(s: PoolState) -> bool {
    s.phase is Collecting || s.phase is Draining
}

/// Whether `event` is a result that the dispatcher counts: it waits for
/// results, and the result is owed.
pub open spec fn takes_result(s: PoolState, event: Event) -> bool {
    &&& awaits_results(s)
    &&& event matches Event::Result { worker, cutoff }
    &&& owed(s, worker)
}

/// The books after the run was given up.
pub open spec fn failed(s: PoolState, fault: Fault) -> PoolState {
    PoolState { phase: Phase::Failed { fault }, ..s }
}

/// The books after a job was handed to `worker`. More first jobs follow
/// while a worker is without one; then results are awaited, unless every
/// frog of the run is already out.
pub open spec fn sent(s: PoolState, worker: int) -> PoolState {
    let issued = s.issued + 1;
    PoolState {
        issued: issued as nat,
        busy: s.busy.update(worker, true),
        phase: if issued < s.threads {
            Phase::Priming
        } else if issued == s.total {
            Phase::Stopping
        } else {
            Phase::Collecting
        },
        ..s
    }
}

/// The books after the result of `worker` was taken.
pub open spec fn taken(s: PoolState, worker: int) -> PoolState {
    PoolState { collected: s.collected + 1, busy: s.busy.update(worker, false), ..s }
}

/// The books after one more worker was told to stop.
pub open spec fn halted(s: PoolState) -> PoolState {
    let stopped = s.stopped + 1;
    PoolState {
        stopped: stopped as nat,
        phase: if stopped < s.threads {
            Phase::Stopping
        } else {
            Phase::Joining
        },
        ..s
    }
}

/// The books after one more thread was joined.
pub open spec fn reaped(s: PoolState) -> PoolState {
    let joined = s.joined + 1;
    PoolState {
        joined: joined as nat,
        phase: if joined < s.threads {
            Phase::Joining
        } else {
            Phase::Draining
        },
        ..s
    }
}

/// The books after `event` was reported in state `s`.
pub open spec fn react(s: PoolState, event: Event) -> PoolState {
    match s.phase {
        Phase::Priming => match event {
            Event::Done => sent(s, s.issued as int),
            Event::Failed => failed(s, Fault::WorkerGone { worker: s.issued as usize }),
            _ => failed(s, Fault::OutOfTurn),
        },
        Phase::Collecting => match event {
            Event::Result { worker, cutoff } => if !owed(s, worker) {
                failed(s, Fault::UnexpectedResult { worker })
            } else if cutoff {
                PoolState { cutoff: true, phase: Phase::Stopping, ..taken(s, worker as int) }
            } else {
                PoolState { phase: Phase::Reissuing { worker }, ..taken(s, worker as int) }
            },
            Event::Closed => failed(s, Fault::ResultsLost),
            _ => failed(s, Fault::OutOfTurn),
        },
        Phase::Reissuing { worker } => match event {
            Event::Done => sent(s, worker as int),
            Event::Failed => failed(s, Fault::WorkerGone { worker }),
            _ => failed(s, Fault::OutOfTurn),
        },
        Phase::Stopping => match event {
            Event::Done => halted(s),
            Event::Failed => failed(s, Fault::WorkerGone { worker: s.stopped as usize }),
            _ => failed(s, Fault::OutOfTurn),
        },
        Phase::Joining => match event {
            Event::Done => reaped(s),
            Event::Failed => failed(s, Fault::WorkerPanicked { worker: s.joined as usize }),
            _ => failed(s, Fault::OutOfTurn),
        },
        Phase::Draining => match event {
            Event::Result { worker, cutoff } => if !owed(s, worker) {
                failed(s, Fault::UnexpectedResult { worker })
            } else {
                taken(s, worker as int)
            },
            Event::Closed => if s.issued == s.collected {
                PoolState { phase: Phase::Finished, ..s }
            } else {
                failed(s, Fault::ResultsLost)
            },
            _ => failed(s, Fault::OutOfTurn),
        },
        Phase::Finished => failed(s, Fault::OutOfTurn),
        Phase::Failed { fault } => s,
    }
}

/// The books after the events of `events` were reported in order, from `s`.
pub open spec fn run(s: PoolState, events: Seq<Event>) -> PoolState
    decreases events.len(),
{
    if events.len() == 0 {
        s
    } else {
        react(run(s, events.drop_last()), events.last())
    }
}

/// Whether the run is past handing out jobs.
pub open spec fn winding_down(s: PoolState) -> bool {
    s.phase is Stopping || s.phase is Joining || s.phase is Draining || s.phase is Finished
}

/// Whether the books add up.
pub open spec fn consistent(s: PoolState) -> bool {
    &&& 1 <= s.threads <= s.total <= usize::MAX
    &&& s.busy.len() == s.threads
    &&& count_busy(s.busy) + s.collected == s.issued
    &&& s.issued <= s.total
    &&& s.joined <= s.stopped <= s.threads
    &&& winding_down(s) ==> s.cutoff || s.issued == s.total
    &&& s.cutoff ==> s.collected >= 1 && s.issued < s.total
    &&& match s.phase {
        Phase::Priming => {
            &&& s.issued < s.threads
            &&& s.collected == 0
            &&& s.stopped == 0
            &&& !s.cutoff
            &&& forall|i: int| s.issued <= i < s.threads ==> !#[trigger] s.busy[i]
        },
        Phase::Collecting => {
            &&& s.issued == s.collected + s.threads
            &&& s.issued < s.total
            &&& s.stopped == 0
            &&& !s.cutoff
        },
        Phase::Reissuing { worker } => {
            &&& worker < s.threads
            &&& !s.busy[worker as int]
            &&& s.issued + 1 == s.collected + s.threads
            &&& s.issued < s.total
            &&& s.stopped == 0
            &&& !s.cutoff
        },
        Phase::Stopping => s.stopped < s.threads && s.joined == 0,
        Phase::Joining => s.stopped == s.threads && s.joined < s.threads,
        Phase::Draining => s.joined == s.threads,
        Phase::Finished => s.joined == s.threads && s.collected == s.issued,
        Phase::Failed { fault } => true,
    }
}

/// Changing the entry of one worker changes the count of busy workers by
/// what that entry was and what it becomes.
pub proof fn lemma_count_update(busy: Seq<bool>, worker: int, holds: bool)
    requires
        0 <= worker < busy.len(),
    ensures
        count_busy(busy.update(worker, holds)) + (if busy[worker] {
            1nat
        } else {
            0nat
        }) == count_busy(busy) + (if holds {
            1nat
        } else {
            0nat
        }),
    decreases busy.len(),
{
    let changed = busy.update(worker, holds);
    if worker == busy.len() - 1 {
        assert(changed.drop_last() =~= busy.drop_last());
    } else {
        assert(changed.drop_last() =~= busy.drop_last().update(worker, holds));
        lemma_count_update(busy.drop_last(), worker, holds);
    }
}

/// No more workers are busy than there are, and none where every entry says
/// idle.
pub proof fn lemma_count_bounds(busy: Seq<bool>)
    ensures
        count_busy(busy) <= busy.len(),
        (forall|i: int| 0 <= i < busy.len() ==> !#[trigger] busy[i]) ==> count_busy(busy) == 0,
    decreases busy.len(),
{
    if busy.len() > 0 {
        lemma_count_bounds(busy.drop_last());
        if forall|i: int| 0 <= i < busy.len() ==> !#[trigger] busy[i] {
            assert forall|i: int| 0 <= i < busy.drop_last().len() implies !#[trigger] busy.drop_last()[i] by {
                assert(!busy[i]);
            }
        }
    }
}

/// Where as many workers are busy as there are, each of them is.
pub proof fn lemma_count_full(busy: Seq<bool>)
    requires
        count_busy(busy) == busy.len(),
    ensures
        forall|i: int| 0 <= i < busy.len() ==> #[trigger] busy[i],
    decreases busy.len(),
{
    if busy.len() > 0 {
        lemma_count_bounds(busy.drop_last());
        lemma_count_full(busy.drop_last());
        assert forall|i: int| 0 <= i < busy.len() implies #[trigger] busy[i] by {
            if i < busy.len() - 1 {
                assert(busy.drop_last()[i]);
            }
        }
    }
}

/// At the start of a run the books add up.
pub proof fn law_initial_consistent(total: nat, threads: nat)
    requires
        1 <= threads <= total <= usize::MAX,
    ensures
        consistent(initial(total, threads)),
{
    lemma_count_bounds(initial(total, threads).busy);
}

/// Whatever is reported, the books add up afterwards.
pub proof fn law_react_consistent(s: PoolState, event: Event)
    requires
        consistent(s),
    ensures
        consistent(react(s, event)),
{
    let t = react(s, event);
    lemma_count_bounds(s.busy);
    match s.phase {
        Phase::Priming => {
            if event is Done {
                lemma_count_update(s.busy, s.issued as int, true);
            }
        },
        Phase::Collecting => {
            if let Event::Result { worker, cutoff } = event {
                if owed(s, worker) {
                    lemma_count_update(s.busy, worker as int, false);
                }
            }
        },
        Phase::Reissuing { worker } => {
            if event is Done {
                lemma_count_update(s.busy, worker as int, true);
            }
        },
        Phase::Draining => {
            if let Event::Result { worker, cutoff } = event {
                if owed(s, worker) {
                    lemma_count_update(s.busy, worker as int, false);
                }
            }
        },
        _ => {},
    }
}

/// Whether the run is past handing out jobs, finished or given up.
pub open spec fn settled(s: PoolState) -> bool {
    winding_down(s) || s.phase is Failed
}

/// Nothing that is reported changes the size of the run or takes back what
/// was counted.
pub proof fn law_react_monotone(s: PoolState, event: Event)
    ensures
        react(s, event).total == s.total,
        react(s, event).threads == s.threads,
        react(s, event).issued >= s.issued,
        react(s, event).collected >= s.collected,
        react(s, event).stopped >= s.stopped,
        react(s, event).joined >= s.joined,
        s.cutoff ==> react(s, event).cutoff,
{
}

/// A result that the dispatcher counts is one more result taken, and nothing
/// else is.
pub proof fn law_result_counts(s: PoolState, event: Event)
    ensures
        takes_result(s, event) ==> react(s, event).collected == s.collected + 1,
        !takes_result(s, event) ==> react(s, event).collected == s.collected,
{
}

/// Once the run is past handing out jobs it stays so, and no further job is
/// handed out.
pub proof fn law_react_settled(s: PoolState, event: Event)
    requires
        settled(s),
    ensures
        settled(react(s, event)),
        react(s, event).issued == s.issued,
        react(s, event).cutoff == s.cutoff,
{
}

/// The jobs in flight are those handed out less those taken back, and never
/// more than there are workers: no worker is given a job while it holds one.
pub proof fn law_in_flight_bounded(s: PoolState)
    requires
        consistent(s),
    ensures
        in_flight(s) + s.collected == s.issued,
        in_flight(s) <= s.threads,
        s.issued <= s.total,
{
    lemma_count_bounds(s.busy);
}

/// Whatever the dispatcher orders of a worker, it names one of its workers;
/// and a job goes only to a worker that holds none, so that no worker gets a
/// job before the result of its last one was taken.
pub proof fn law_orders_name_workers(s: PoolState)
    requires
        consistent(s),
    ensures
        pending(s) matches Action::Issue { worker } ==> worker < s.threads && !s.busy[worker as int],
        pending(s) matches Action::Stop { worker } ==> worker < s.threads,
        pending(s) matches Action::Join { worker } ==> worker < s.threads,
{
}

/// While results are awaited in a run that was not cut short, be it with
/// jobs still to hand out or after the last one went out, the jobs in flight
/// are as many as there are workers, or as many as there are results still
/// to come where those are fewer.
pub proof fn law_steady_in_flight(s: PoolState)
    requires
        consistent(s),
        !s.cutoff,
        s.phase is Collecting || winding_down(s),
    ensures
        in_flight(s) == if s.threads <= s.total - s.collected {
            s.threads as int
        } else {
            s.total - s.collected
        },
{
    lemma_count_bounds(s.busy);
}

/// While the next result is awaited with jobs still to hand out, every
/// worker holds a job.
pub proof fn law_all_busy_while_collecting(s: PoolState)
    requires
        consistent(s),
        s.phase is Collecting,
    ensures
        forall|worker: int| 0 <= worker < s.threads ==> #[trigger] s.busy[worker],
        in_flight(s) == s.threads,
        s.threads < s.total,
{
    lemma_count_full(s.busy);
}

/// A finished run has told every worker to stop and joined every thread, and
/// has taken the result of every job that it handed out; where it was not
/// cut short, those are the results of all the frogs of the run.
pub proof fn law_finished(s: PoolState)
    requires
        consistent(s),
        s.phase is Finished,
    ensures
        s.stopped == s.threads,
        s.joined == s.threads,
        in_flight(s) == 0,
        s.collected == s.issued,
        !s.cutoff ==> s.collected == s.total,
{
}

/// Whatever is reported in whatever order, the books add up afterwards.
pub proof fn law_run_consistent(s: PoolState, events: Seq<Event>)
    requires
        consistent(s),
    ensures
        consistent(run(s, events)),
        run(s, events).total == s.total,
        run(s, events).threads == s.threads,
        run(s, events).issued >= s.issued,
        run(s, events).collected >= s.collected,
    decreases events.len(),
{
    if events.len() > 0 {
        law_run_consistent(s, events.drop_last());
        law_react_consistent(run(s, events.drop_last()), events.last());
        law_react_monotone(run(s, events.drop_last()), events.last());
    }
}

/// A run over `total` frogs that comes to its end without being cut short
/// has taken exactly `total` results, whatever the number of workers, has
/// none in flight and has joined every thread.
pub proof fn law_run_complete(total: nat, threads: nat, events: Seq<Event>)
    requires
        1 <= threads <= total <= usize::MAX,
        run(initial(total, threads), events).phase is Finished,
        !run(initial(total, threads), events).cutoff,
    ensures
        run(initial(total, threads), events).collected == total,
        in_flight(run(initial(total, threads), events)) == 0,
        run(initial(total, threads), events).joined == threads,
{
    law_initial_consistent(total, threads);
    law_run_consistent(initial(total, threads), events);
    law_finished(run(initial(total, threads), events));
}

/// Once the run is past handing out jobs, nothing that is reported has
/// another job handed out.
pub proof fn law_run_settled(s: PoolState, events: Seq<Event>)
    requires
        settled(s),
    ensures
        settled(run(s, events)),
        run(s, events).issued == s.issued,
        run(s, events).cutoff == s.cutoff,
    decreases events.len(),
{
    if events.len() > 0 {
        law_run_settled(s, events.drop_last());
        law_react_settled(run(s, events.drop_last()), events.last());
    }
}

/// Where the run is cut short with the result of `worker`, that result
/// counts, no further job is handed out, and whatever follows, the results
/// taken stay between those taken at the cut and the frogs of the run. A
/// run that then comes to its end has also taken the results of the jobs
/// that the other workers held at the cut, and so falls short of the whole
/// run.
pub proof fn law_cutoff_drains(s: PoolState, worker: usize, events: Seq<Event>)
    requires
        consistent(s),
        s.phase is Collecting,
        owed(s, worker),
    ensures
        ({
            let cut = react(s, Event::Result { worker, cutoff: true });
            let end = run(cut, events);
            &&& cut.cutoff
            &&& cut.collected == s.collected + 1
            &&& in_flight(cut) == s.threads - 1
            &&& end.issued == s.issued
            &&& cut.collected <= end.collected <= end.total
            &&& end.phase is Finished ==> end.collected == cut.collected + s.threads - 1
                && end.collected < end.total
        }),
{
    let cut = react(s, Event::Result { worker, cutoff: true });
    let end = run(cut, events);
    law_react_consistent(s, Event::Result { worker, cutoff: true });
    lemma_count_update(s.busy, worker as int, false);
    law_run_consistent(cut, events);
    law_run_settled(cut, events);
    law_in_flight_bounded(end);
}

/// `count` reports that what was ordered was done.
pub open spec fn dones(count: nat) -> Seq<Event>
    decreases count,
{
    if count == 0 {
        Seq::<Event>::empty()
    } else {
        dones((count - 1) as nat).push(Event::Done)
    }
}

/// `count` times a result of the first worker and the report that its next
/// job was handed to it.
pub open spec fn rounds(count: nat) -> Seq<Event>
    decreases count,
{
    if count == 0 {
        Seq::<Event>::empty()
    } else {
        rounds((count - 1) as nat).push(Event::Result { worker: 0, cutoff: false }).push(
            Event::Done,
        )
    }
}

/// One result of each of the first `count` workers, in their order.
pub open spec fn homecomings(count: nat) -> Seq<Event>
    decreases count,
{
    if count == 0 {
        Seq::<Event>::empty()
    } else {
        homecomings((count - 1) as nat).push(
            Event::Result { worker: (count - 1) as usize, cutoff: false },
        )
    }
}

/// What is reported in a run where everything goes well and the first worker
/// is always the first to come back: every worker takes its first job, the
/// first worker brings the results and takes the jobs that are left, every
/// worker stops and is joined, and the results of the last jobs are found in
/// the channel before it closes.
pub open spec fn smooth_run(total: nat, threads: nat) -> Seq<Event> {
    dones(threads) + rounds((total - threads) as nat) + dones(threads) + dones(threads)
        + homecomings(threads).push(Event::Closed)
}

/// One more report is one more reaction.
pub proof fn lemma_run_push(s: PoolState, events: Seq<Event>, event: Event)
    ensures
        run(s, events.push(event)) == react(run(s, events), event),
{
    assert(events.push(event).drop_last() =~= events);
}

/// Reports that follow others are taken from where the others led.
pub proof fn lemma_run_append(s: PoolState, first: Seq<Event>, then: Seq<Event>)
    ensures
        run(s, first + then) == run(run(s, first), then),
    decreases then.len(),
{
    if then.len() == 0 {
        assert(first + then =~= first);
    } else {
        assert((first + then).drop_last() =~= first + then.drop_last());
        lemma_run_append(s, first, then.drop_last());
    }
}

/// The books after the first `done` workers took their first job.
pub open spec fn primed(total: nat, threads: nat, done: nat) -> PoolState {
    PoolState {
        issued: done,
        busy: Seq::new(threads, |i: int| i < done),
        phase: if done < threads {
            Phase::Priming
        } else if done == total {
            Phase::Stopping
        } else {
            Phase::Collecting
        },
        ..initial(total, threads)
    }
}

/// The books after `done` results were taken and as many jobs handed out
/// again, with every worker busy.
pub open spec fn cycled(total: nat, threads: nat, done: nat) -> PoolState {
    PoolState {
        issued: threads + done,
        collected: done,
        busy: Seq::new(threads, |i: int| true),
        phase: if threads + done == total {
            Phase::Stopping
        } else {
            Phase::Collecting
        },
        ..initial(total, threads)
    }
}

/// The books after every job went out, `stopped` workers were told to stop,
/// `joined` threads were joined and the results of the first `drained`
/// workers were taken out of the channel.
pub open spec fn wound_down(
    total: nat,
    threads: nat,
    stopped: nat,
    joined: nat,
    drained: nat,
) -> PoolState {
    PoolState {
        issued: total,
        collected: (total - threads + drained) as nat,
        stopped,
        joined,
        busy: Seq::new(threads, |i: int| i >= drained),
        phase: if stopped < threads {
            Phase::Stopping
        } else if joined < threads {
            Phase::Joining
        } else {
            Phase::Draining
        },
        ..initial(total, threads)
    }
}

proof fn lemma_priming(total: nat, threads: nat, done: nat)
    requires
        1 <= threads <= total <= usize::MAX,
        done <= threads,
    ensures
        run(initial(total, threads), dones(done)) == primed(total, threads, done),
    decreases done,
{
    let start = initial(total, threads);
    if done == 0 {
        assert(primed(total, threads, 0).busy =~= start.busy);
    } else {
        let before = (done - 1) as nat;
        lemma_priming(total, threads, before);
        lemma_run_push(start, dones(before), Event::Done);
        assert(react(primed(total, threads, before), Event::Done).busy =~= primed(
            total,
            threads,
            done,
        ).busy);
    }
}

proof fn lemma_cycling(total: nat, threads: nat, done: nat)
    requires
        1 <= threads <= total <= usize::MAX,
        done <= total - threads,
    ensures
        run(primed(total, threads, threads), rounds(done)) == cycled(total, threads, done),
    decreases done,
{
    let start = primed(total, threads, threads);
    if done == 0 {
        assert(cycled(total, threads, 0).busy =~= start.busy);
    } else {
        let before = (done - 1) as nat;
        let result = Event::Result { worker: 0, cutoff: false };
        lemma_cycling(total, threads, before);
        lemma_run_push(start, rounds(before), result);
        lemma_run_push(start, rounds(before).push(result), Event::Done);
        let waiting = cycled(total, threads, before);
        assert(owed(waiting, 0));
        assert(react(react(waiting, result), Event::Done).busy =~= cycled(
            total,
            threads,
            done,
        ).busy);
    }
}

proof fn lemma_stopping(total: nat, threads: nat, done: nat)
    requires
        1 <= threads <= total <= usize::MAX,
        done <= threads,
    ensures
        run(wound_down(total, threads, 0, 0, 0), dones(done)) == wound_down(
            total,
            threads,
            done,
            0,
            0,
        ),
    decreases done,
{
    if done > 0 {
        let before = (done - 1) as nat;
        lemma_stopping(total, threads, before);
        lemma_run_push(wound_down(total, threads, 0, 0, 0), dones(before), Event::Done);
    }
}

proof fn lemma_joining(total: nat, threads: nat, done: nat)
    requires
        1 <= threads <= total <= usize::MAX,
        done <= threads,
    ensures
        run(wound_down(total, threads, threads, 0, 0), dones(done)) == wound_down(
            total,
            threads,
            threads,
            done,
            0,
        ),
    decreases done,
{
    if done > 0 {
        let before = (done - 1) as nat;
        lemma_joining(total, threads, before);
        lemma_run_push(wound_down(total, threads, threads, 0, 0), dones(before), Event::Done);
    }
}

proof fn lemma_draining(total: nat, threads: nat, done: nat)
    requires
        1 <= threads <= total <= usize::MAX,
        done <= threads,
    ensures
        run(wound_down(total, threads, threads, threads, 0), homecomings(done)) == wound_down(
            total,
            threads,
            threads,
            threads,
            done,
        ),
    decreases done,
{
    let start = wound_down(total, threads, threads, threads, 0);
    if done > 0 {
        let before = (done - 1) as nat;
        let result = Event::Result { worker: before as usize, cutoff: false };
        lemma_draining(total, threads, before);
        lemma_run_push(start, homecomings(before), result);
        let waiting = wound_down(total, threads, threads, threads, before);
        assert(owed(waiting, before as usize));
        assert(react(waiting, result).busy =~= wound_down(
            total,
            threads,
            threads,
            threads,
            done,
        ).busy);
    }
}

/// Every run can come to its end: where everything goes well, the run is
/// finished with the results of all its frogs taken and without having been
/// cut short, whatever the numbers of frogs and of workers.
pub proof fn law_run_can_finish(total: nat, threads: nat)
    requires
        1 <= threads <= total <= usize::MAX,
    ensures
        run(initial(total, threads), smooth_run(total, threads)).phase is Finished,
        !run(initial(total, threads), smooth_run(total, threads)).cutoff,
        run(initial(total, threads), smooth_run(total, threads)).collected == total,
{
    let start = initial(total, threads);
    let rest = (total - threads) as nat;
    let priming = dones(threads);
    let cycling = priming + rounds(rest);
    let stopping = cycling + dones(threads);
    let joining = stopping + dones(threads);
    let draining = joining + homecomings(threads);
    lemma_priming(total, threads, threads);
    lemma_run_append(start, priming, rounds(rest));
    lemma_cycling(total, threads, rest);
    assert(cycled(total, threads, rest).busy =~= wound_down(total, threads, 0, 0, 0).busy);
    assert(run(start, cycling) == wound_down(total, threads, 0, 0, 0));
    lemma_run_append(start, cycling, dones(threads));
    lemma_stopping(total, threads, threads);
    lemma_run_append(start, stopping, dones(threads));
    lemma_joining(total, threads, threads);
    lemma_run_append(start, joining, homecomings(threads));
    lemma_draining(total, threads, threads);
    assert(run(start, draining) == wound_down(total, threads, threads, threads, threads));
    lemma_run_push(start, draining, Event::Closed);
    assert(smooth_run(total, threads) =~= draining.push(Event::Closed));
}

} // verus!
