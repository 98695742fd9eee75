//! The manager of a run: the frogs as it reports them, and the dispatcher
//! that keeps its workers busy.

pub use crate::frog::FrogHeading;
use crate::frog::{heading_name, heading_text, run_to_end, run_within, FrogTrait};
use crate::pool::{consistent, initial, law_initial_consistent, law_react_consistent};
use crate::pool::{awaits_results, failed, law_result_counts, pending, react, takes_result};
use crate::pool::{Action, Event, Fault, Phase, PoolState};
use crate::results::{csv_row, push_csv_row, Aggregator, ResultRecord};
use crate::text::{decimal, push_decimal, push_signed_decimal, signed_decimal};
use crate::walk::{room, signed_displacement, start_state, step, FrogState};
use vstd::prelude::*;
use vstd::string::*;

verus! {

/// Holds the size of a run.
pub struct FrogManager {
    total_frogs: usize,
}

impl FrogManager {
    /// The frogs that the run is to simulate.
    pub closed spec fn frogs(&self) -> nat {
        self.total_frogs as nat
    }

    /// A manager for a run over `total_frogs` frogs.
    pub fn new(total_frogs: usize) -> (manager: FrogManager)
        ensures
            manager.frogs() == total_frogs,
    {
        FrogManager { total_frogs }
    }

    /// The frogs that the run is to simulate.
    pub fn total_frogs(&self) -> (total: usize)
        ensures
            total == self.frogs(),
    {
        self.total_frogs
    }

    /// The dispatcher for a run with `threads` workers, where there is at
    /// least one worker and no more workers than frogs.
    pub fn dispatcher(&self, threads: usize) -> (dispatcher: Option<Dispatcher>)
        ensures
            dispatcher.is_some() <==> 1 <= threads <= self.frogs(),
            dispatcher matches Some(d) ==> d@ == initial(self.frogs(), threads as nat),
    {
        Dispatcher::new(self.total_frogs, threads)
    }
}

/// Decides what is done next in a run: which worker gets a job, when results
/// are awaited, and how the run is wound down.
pub struct Dispatcher {
    total_frogs: usize,
    threads: usize,
    issued: usize,
    collected: usize,
    stopped: usize,
    joined: usize,
    busy: Vec<bool>,
    cutoff: bool,
    phase: Phase,
}

impl View for Dispatcher {
    type V = PoolState;

    closed spec fn view(&self) -> PoolState {
        PoolState {
            total: self.total_frogs as nat,
            threads: self.threads as nat,
            issued: self.issued as nat,
            collected: self.collected as nat,
            stopped: self.stopped as nat,
            joined: self.joined as nat,
            busy: self.busy@,
            cutoff: self.cutoff,
            phase: self.phase,
        }
    }
}

impl Dispatcher {
    #[verifier::type_invariant]
    spec fn books_add_up(self) -> bool {
        consistent(self@)
    }

    /// The dispatcher at the start of a run over `total_frogs` frogs with
    /// `threads` workers, where there is at least one worker and no more
    /// workers than frogs.
    pub fn new(total_frogs: usize, threads: usize) -> (dispatcher: Option<Dispatcher>)
        ensures
            dispatcher.is_some() <==> 1 <= threads <= total_frogs,
            dispatcher matches Some(d) ==> d@ == initial(total_frogs as nat, threads as nat),
    {
        if threads < 1 || threads > total_frogs {
            return None;
        }
        let mut busy: Vec<bool> = Vec::with_capacity(threads);
        while busy.len() < threads
            invariant
                busy@.len() <= threads,
                forall|i: int| 0 <= i < busy@.len() ==> !#[trigger] busy@[i],
            decreases threads - busy@.len(),
        {
            busy.push(false);
        }
        proof {
            assert(busy@ =~= initial(total_frogs as nat, threads as nat).busy);
            law_initial_consistent(total_frogs as nat, threads as nat);
        }
        Some(
            Dispatcher {
                total_frogs,
                threads,
                issued: 0,
                collected: 0,
                stopped: 0,
                joined: 0,
                busy,
                cutoff: false,
                phase: Phase::Priming,
            },
        )
    }

    /// What the dispatcher waits for.
    pub fn pending(&self) -> (action: Action)
        ensures
            action == pending(self@),
    {
        match self.phase {
            Phase::Priming => Action::Issue { worker: self.issued },
            Phase::Collecting => Action::Collect,
            Phase::Reissuing { worker } => Action::Issue { worker },
            Phase::Stopping => Action::Stop { worker: self.stopped },
            Phase::Joining => Action::Join { worker: self.joined },
            Phase::Draining => Action::Drain,
            Phase::Finished => Action::Finish,
            Phase::Failed { fault } => Action::Abort { fault },
        }
    }

    /// Takes what was reported and gives the dispatcher as it stands then,
    /// with what it orders next.
    pub fn step(self, event: Event) -> (next: (Dispatcher, Action))
        ensures
            next.0@ == react(self@, event),
            next.1 == pending(next.0@),
    {
        proof {
            use_type_invariant(&self);
            law_react_consistent(self@, event);
        }
        let Dispatcher {
            total_frogs,
            threads,
            mut issued,
            mut collected,
            mut stopped,
            mut joined,
            mut busy,
            mut cutoff,
            mut phase,
        } = self;
        match phase {
            Phase::Priming => match event {
                Event::Done => {
                    busy.set(issued, true);
                    issued = issued + 1;
                    phase = Self::after_issue(issued, threads, total_frogs);
                },
                Event::Failed => {
                    phase = Phase::Failed { fault: Fault::WorkerGone { worker: issued } };
                },
                _ => {
                    phase = Phase::Failed { fault: Fault::OutOfTurn };
                },
            },
            Phase::Collecting => match event {
                Event::Result { worker, cutoff: cut } => {
                    if worker < threads && busy[worker] {
                        busy.set(worker, false);
                        collected = collected + 1;
                        if cut {
                            cutoff = true;
                            phase = Phase::Stopping;
                        } else {
                            phase = Phase::Reissuing { worker };
                        }
                    } else {
                        phase = Phase::Failed { fault: Fault::UnexpectedResult { worker } };
                    }
                },
                Event::Closed => {
                    phase = Phase::Failed { fault: Fault::ResultsLost };
                },
                _ => {
                    phase = Phase::Failed { fault: Fault::OutOfTurn };
                },
            },
            Phase::Reissuing { worker } => match event {
                Event::Done => {
                    busy.set(worker, true);
                    issued = issued + 1;
                    phase = Self::after_issue(issued, threads, total_frogs);
                },
                Event::Failed => {
                    phase = Phase::Failed { fault: Fault::WorkerGone { worker } };
                },
                _ => {
                    phase = Phase::Failed { fault: Fault::OutOfTurn };
                },
            },
            Phase::Stopping => match event {
                Event::Done => {
                    stopped = stopped + 1;
                    if stopped >= threads {
                        phase = Phase::Joining;
                    }
                },
                Event::Failed => {
                    phase = Phase::Failed { fault: Fault::WorkerGone { worker: stopped } };
                },
                _ => {
                    phase = Phase::Failed { fault: Fault::OutOfTurn };
                },
            },
            Phase::Joining => match event {
                Event::Done => {
                    joined = joined + 1;
                    if joined >= threads {
                        phase = Phase::Draining;
                    }
                },
                Event::Failed => {
                    phase = Phase::Failed { fault: Fault::WorkerPanicked { worker: joined } };
                },
                _ => {
                    phase = Phase::Failed { fault: Fault::OutOfTurn };
                },
            },
            Phase::Draining => match event {
                Event::Result { worker, cutoff: _ } => {
                    if worker < threads && busy[worker] {
                        busy.set(worker, false);
                        collected = collected + 1;
                    } else {
                        phase = Phase::Failed { fault: Fault::UnexpectedResult { worker } };
                    }
                },
                Event::Closed => {
                    if issued == collected {
                        phase = Phase::Finished;
                    } else {
                        phase = Phase::Failed { fault: Fault::ResultsLost };
                    }
                },
                _ => {
                    phase = Phase::Failed { fault: Fault::OutOfTurn };
                },
            },
            Phase::Finished => {
                phase = Phase::Failed { fault: Fault::OutOfTurn };
            },
            Phase::Failed { fault: _ } => {},
        }
        let next = Dispatcher {
            total_frogs,
            threads,
            issued,
            collected,
            stopped,
            joined,
            busy,
            cutoff,
            phase,
        };
        let action = next.pending();
        (next, action)
    }

    fn after_issue(issued: usize, threads: usize, total_frogs: usize) -> (phase: Phase)
        ensures
            phase == if issued < threads {
                Phase::Priming
            } else if issued == total_frogs {
                Phase::Stopping
            } else {
                Phase::Collecting
            },
    {
        if issued < threads {
            Phase::Priming
        } else if issued == total_frogs {
            Phase::Stopping
        } else {
            Phase::Collecting
        }
    }

    /// The frogs that the run is to simulate.
    pub fn total_frogs(&self) -> (total: usize)
        ensures
            total == self@.total,
    {
        self.total_frogs
    }

    /// The number of workers.
    pub fn threads(&self) -> (threads: usize)
        ensures
            threads == self@.threads,
            1 <= threads <= self@.total,
    {
        proof {
            use_type_invariant(self);
        }
        self.threads
    }

    /// The jobs handed out so far.
    pub fn issued(&self) -> (issued: usize)
        ensures
            issued == self@.issued,
            issued <= self@.total,
    {
        proof {
            use_type_invariant(self);
        }
        self.issued
    }

    /// The results taken so far.
    pub fn collected(&self) -> (collected: usize)
        ensures
            collected == self@.collected,
            collected <= self@.issued,
    {
        proof {
            use_type_invariant(self);
        }
        self.collected
    }

    /// The jobs that were handed out and whose results were not taken yet.
    pub fn in_flight(&self) -> (jobs: usize)
        ensures
            jobs == crate::pool::in_flight(self@),
            jobs <= self@.threads,
    {
        proof {
            use_type_invariant(self);
            crate::pool::law_in_flight_bounded(self@);
        }
        self.issued - self.collected
    }

    /// Where the run stands.
    pub fn phase(&self) -> (phase: Phase)
        ensures
            phase == self@.phase,
    {
        self.phase
    }

    /// Whether the run was cut short.
    pub fn cut_short(&self) -> (cutoff: bool)
        ensures
            cutoff == self@.cutoff,
    {
        self.cutoff
    }
}

/// A run with its table: the dispatcher, and one record for each result that
/// the dispatcher has counted.
pub struct Run {
    dispatcher: Dispatcher,
    table: Aggregator,
}

impl Run {
    #[verifier::type_invariant]
    spec fn one_record_for_each_result(self) -> bool {
        self.table.records().len() == self.dispatcher@.collected
    }

    /// The books of the dispatcher.
    pub closed spec fn books(&self) -> PoolState {
        self.dispatcher@
    }

    /// The records taken so far, oldest first.
    pub closed spec fn records(&self) -> Seq<ResultRecord> {
        self.table.records()
    }

    /// Whether the table has a column for the numbers of the frogs.
    pub closed spec fn with_ids(&self) -> bool {
        self.table.with_ids()
    }

    /// Whether `record` can go into the table: there is one, and it bears
    /// the number of its frog exactly where the table has a column for it.
    pub open spec fn usable(&self, record: Option<ResultRecord>) -> bool {
        record matches Some(r) && r.frog_id.is_some() == self.with_ids()
    }

    /// The books after `event` was reported together with `record`. A result
    /// that comes without a usable record while results are awaited is out
    /// of turn; everything else is taken as the dispatcher takes it.
    pub open spec fn books_after(&self, event: Event, record: Option<ResultRecord>) -> PoolState {
        if event is Result && awaits_results(self.books()) && !self.usable(record) {
            failed(self.books(), Fault::OutOfTurn)
        } else {
            react(self.books(), event)
        }
    }

    /// The records after `event` was reported together with `record`: one
    /// more where the dispatcher counts the result, the same otherwise.
    pub open spec fn records_after(
        &self,
        event: Event,
        record: Option<ResultRecord>,
    ) -> Seq<ResultRecord> {
        if takes_result(self.books(), event) && self.usable(record) {
            self.records().push(record.unwrap())
        } else {
            self.records()
        }
    }

    /// A run over `total_frogs` frogs with `threads` workers and an empty
    /// table, where there is at least one worker and no more workers than
    /// frogs.
    pub fn new(total_frogs: usize, threads: usize, with_ids: bool) -> (run: Option<Run>)
        ensures
            run.is_some() <==> 1 <= threads <= total_frogs,
            run matches Some(r) ==> {
                &&& r.books() == initial(total_frogs as nat, threads as nat)
                &&& r.records() == Seq::<ResultRecord>::empty()
                &&& r.with_ids() == with_ids
            },
    {
        match Dispatcher::new(total_frogs, threads) {
            Some(dispatcher) => Some(
                Run { dispatcher, table: Aggregator::new(with_ids, total_frogs) },
            ),
            None => None,
        }
    }

    /// What the dispatcher waits for.
    pub fn pending(&self) -> (action: Action)
        ensures
            action == pending(self.books()),
    {
        self.dispatcher.pending()
    }

    /// Takes what was reported, with the record of the frog where it is a
    /// result, and gives the run as it stands then, with what the dispatcher
    /// orders next. The record goes into the table exactly where the
    /// dispatcher counts the result.
    pub fn step(self, event: Event, record: Option<ResultRecord>) -> (next: (Run, Action))
        ensures
            next.0.books() == self.books_after(event, record),
            next.0.records() == self.records_after(event, record),
            next.0.with_ids() == self.with_ids(),
            next.1 == pending(next.0.books()),
    {
        proof {
            use_type_invariant(&self);
            law_result_counts(self.dispatcher@, event);
        }
        let Run { dispatcher, mut table } = self;
        let usable = match record {
            Some(r) => table.accepts(&r),
            None => false,
        };
        let is_result = match event {
            Event::Result { worker: _, cutoff: _ } => true,
            _ => false,
        };
        let awaited = match dispatcher.phase() {
            Phase::Collecting => true,
            Phase::Draining => true,
            _ => false,
        };
        if is_result && awaited && !usable {
            let (dispatcher, action) = dispatcher.step(Event::Done);
            return (Run { dispatcher, table }, action);
        }
        let before = dispatcher.collected();
        let (dispatcher, action) = dispatcher.step(event);
        if dispatcher.collected() != before {
            match record {
                Some(r) => {
                    table.push(r);
                },
                None => {},
            }
        }
        (Run { dispatcher, table }, action)
    }

    /// The dispatcher of the run.
    pub fn dispatcher(&self) -> (dispatcher: &Dispatcher)
        ensures
            dispatcher@ == self.books(),
    {
        &self.dispatcher
    }

    /// The table of the run, which holds one record for each result that the
    /// dispatcher has counted: at the end of a run that was not cut short,
    /// one for each frog of the run.
    pub fn table(&self) -> (table: &Aggregator)
        ensures
            table.records() == self.records(),
            table.with_ids() == self.with_ids(),
            table.records().len() == self.books().collected,
            self.books().phase is Finished && !self.books().cutoff ==> table.records().len()
                == self.books().total,
    {
        proof {
            use_type_invariant(self);
            use_type_invariant(&self.dispatcher);
        }
        &self.table
    }
}

/// What `status` says of a frog: its jumps so far, its heading and where
/// it sits.
pub open spec fn status_text(s: FrogState) -> Seq<char> {
    let opening = match s.id {
        Some(id) => "Frog "@ + decimal(id as nat) + " has taken "@,
        None => "This frog has taken "@,
    };
    opening + decimal(s.jumps) + " jumps to the "@ + heading_text(s.heading)
        + " and is sitting on lilly pad "@ + signed_decimal(s.position)
}

/// What `result` says of a frog that is home: its jumps in all, its heading
/// and the furthest pad that it reached.
pub open spec fn result_text(s: FrogState) -> Seq<char> {
    let opening = match s.id {
        Some(id) => "Frog "@ + decimal(id as nat) + " took a total of "@,
        None => "This frog took a total of "@,
    };
    opening + decimal(s.jumps) + " jumps to the "@ + heading_text(s.heading)
        + " and made it to lilly pad "@ + signed_decimal(s.furthest) + " at the furthest"@
}

/// A frog as the manager runs and reports it.
pub struct Frog {
    walker: crate::frog::Frog,
}

impl View for Frog {
    type V = FrogState;

    closed spec fn view(&self) -> FrogState {
        self.walker@
    }
}

impl Frog {
    /// Sets a new frog on the first lily pad, with a heading that a coin
    /// decides.
    pub fn start(id: Option<usize>) -> (frog: Frog)
        ensures
            frog@ == start_state(id, frog@.heading),
    {
        Frog { walker: crate::frog::Frog::start(id) }
    }

    /// A frog with the given counters, where some walk can show them.
    pub fn from_parts(
        id: Option<usize>,
        position: isize,
        jumps: usize,
        distance: isize,
        heading: FrogHeading,
    ) -> (frog: Option<Frog>)
        ensures
            frog.is_some() <==> crate::walk::valid(
                FrogState {
                    id,
                    position: position as int,
                    jumps: jumps as nat,
                    furthest: distance as int,
                    heading,
                },
            ),
            frog matches Some(f) ==> f@ == (FrogState {
                id,
                position: position as int,
                jumps: jumps as nat,
                furthest: distance as int,
                heading,
            }),
    {
        match crate::frog::Frog::from_parts(id, position, jumps, distance, heading) {
            Some(walker) => Some(Frog { walker }),
            None => None,
        }
    }

    /// Makes the frog jump one pad, back or away as a coin decides, and says
    /// whether that brought it home.
    pub fn jump(&mut self) -> (home: Option<()>)
        requires
            room(old(self)@) > 0,
        ensures
            final(self)@ == step(old(self)@, true) || final(self)@ == step(old(self)@, false),
            home.is_some() <==> final(self)@.position == 0,
    {
        self.walker.jump()
    }

    /// Whether the frog can jump once more without its counters running over.
    pub fn has_room(&self) -> (more: bool)
        ensures
            more == (room(self@) > 0),
    {
        self.walker.has_room()
    }

    /// Sets a new frog on the first lily pad and lets it jump until it is
    /// home, until it has `budget` jumps behind it, or until its counters
    /// are full, whichever comes first.
    pub fn run_within(id: Option<usize>, budget: usize) -> (frog: Frog)
        ensures
            frog@.id == id,
            frog@.position == 0 || frog@.jumps >= budget || room(frog@) == 0,
            frog@.position == 0 ==> frog@.jumps >= 2,
            frog@.jumps <= budget || frog@.jumps == 1,
            exists|coins: Seq<bool>| #[trigger]
                crate::walk::walk(id, frog@.heading, coins) == frog@
                    && crate::frog::absorbed_only_at_end(coins),
    {
        Frog { walker: run_within::<crate::frog::Frog>(id, budget).0 }
    }

    /// Sets a new frog on the first lily pad and lets it jump until it is
    /// home, however long that takes, or until its counters are full.
    pub fn run(id: Option<usize>) -> (frog: Frog)
        ensures
            frog@.id == id,
            frog@.position == 0 || room(frog@) == 0,
            frog@.position == 0 ==> frog@.jumps >= 2,
            exists|coins: Seq<bool>| #[trigger]
                crate::walk::walk(id, frog@.heading, coins) == frog@
                    && crate::frog::absorbed_only_at_end(coins),
    {
        Frog { walker: run_to_end::<crate::frog::Frog>(id).0 }
    }

    /// Says how many jumps the frog has taken, towards which side, and where
    /// it sits.
    pub fn status(&self) -> (text: String)
        ensures
            text@ == status_text(self@),
    {
        let mut text = self.opening("Frog ", " has taken ", "This frog has taken ");
        push_decimal(&mut text, self.walker.jumps());
        text.append(" jumps to the ");
        text.append(heading_name(self.walker.heading()));
        text.append(" and is sitting on lilly pad ");
        push_signed_decimal(&mut text, self.walker.position());
        assert(text@ =~= status_text(self@));
        text
    }

    /// Says of a frog that is home how many jumps it took in all, towards
    /// which side, and which pad was its furthest. A frog that is still
    /// under way has no result.
    pub fn result(&self) -> (text: Option<String>)
        ensures
            text.is_some() <==> self@.position == 0,
            text matches Some(t) ==> t@ == result_text(self@),
    {
        if self.walker.position() != 0 {
            return None;
        }
        let mut text = self.opening("Frog ", " took a total of ", "This frog took a total of ");
        push_decimal(&mut text, self.walker.jumps());
        text.append(" jumps to the ");
        text.append(heading_name(self.walker.heading()));
        text.append(" and made it to lilly pad ");
        push_signed_decimal(&mut text, self.walker.furthest());
        text.append(" at the furthest");
        assert(text@ =~= result_text(self@));
        Some(text)
    }

    fn opening(&self, before_id: &str, after_id: &str, without_id: &str) -> (text: String)
        ensures
            text@ == match self@.id {
                Some(id) => before_id@ + decimal(id as nat) + after_id@,
                None => without_id@,
            },
    {
        match self.walker.id() {
            Some(id) => {
                let mut text = String::from_str(before_id);
                push_decimal(&mut text, id);
                text.append(after_id);
                text
            },
            None => String::from_str(without_id),
        }
    }

    /// The counters of the frog as one row of the table, wherever the frog
    /// sits: its number where it has one, its jumps and its furthest
    /// distance, which is negative for a frog that set out to the left.
    pub fn csv_results(&self) -> (row: String)
        ensures
            row@ == csv_row(self@.id, self@.jumps, signed_displacement(self@)),
    {
        let mut row = String::new();
        push_csv_row(
            &mut row,
            self.walker.id(),
            self.walker.jumps(),
            self.walker.signed_distance(),
        );
        assert(row@ =~= csv_row(self@.id, self@.jumps, signed_displacement(self@)));
        row
    }

    /// The record of the frog, once it is home.
    pub fn record(&self) -> (record: Option<ResultRecord>)
        ensures
            record.is_some() <==> self@.position == 0,
            record matches Some(r) ==> {
                &&& r.frog_id == self@.id
                &&& r.step_count == self@.jumps
                &&& r.signed_displacement == signed_displacement(self@)
                &&& r.step_count >= 2
                &&& r.signed_displacement != 0
            },
    {
        self.walker.record()
    }

    /// The frog with all its counters, one to a line.
    pub fn to_text(&self) -> (text: String)
        ensures
            text@ == crate::frog::frog_text(self@),
    {
        self.walker.to_text()
    }

    /// The lily pad on which the frog sits.
    pub fn position(&self) -> (position: isize)
        ensures
            position == self@.position,
    {
        self.walker.position()
    }

    /// The jumps that the frog has taken.
    pub fn jumps(&self) -> (jumps: usize)
        ensures
            jumps == self@.jumps,
            jumps >= 1,
    {
        self.walker.jumps()
    }

    /// The side towards which the frog set out.
    pub fn heading(&self) -> (heading: FrogHeading)
        ensures
            heading == self@.heading,
    {
        self.walker.heading()
    }
}

} // verus!
