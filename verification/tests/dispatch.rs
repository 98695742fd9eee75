use jumping_frog_problem::frog_manager::{Dispatcher, Frog, FrogManager, Run};
use jumping_frog_problem::pool::{Action, Event, Fault, Phase};
use jumping_frog_problem::results::ResultRecord;
use std::collections::VecDeque;

/// What a run left behind.
struct Outcome {
    issued: Vec<usize>,
    stopped: Vec<usize>,
    joined: Vec<usize>,
    collects: usize,
    drains: usize,
    most_in_flight: usize,
    run: Run,
}

/// The record of a frog that came home within a thousand jumps; such a run is
/// tried anew until one does.
fn home_record() -> ResultRecord {
    for _ in 0..10_000 {
        if let Some(record) = Frog::run_within(None, 1_000).record() {
            return record;
        }
    }
    panic!("no frog came home");
}

/// Runs the dispatcher with workers that finish their frog at once and send
/// the result through a queue; the run is cut short with the result that has
/// the number `cut_at`, counting from one.
fn drive(total_frogs: usize, threads: usize, cut_at: Option<usize>) -> Outcome {
    let mut run = Run::new(total_frogs, threads, false).unwrap();
    let mut channel: VecDeque<(usize, ResultRecord)> = VecDeque::new();
    let mut sent: Vec<ResultRecord> = Vec::new();
    let mut issued = Vec::new();
    let mut stopped = Vec::new();
    let mut joined = Vec::new();
    let mut collects = 0;
    let mut drains = 0;
    let mut most_in_flight = 0;
    let mut action = run.pending();
    loop {
        let dispatcher = run.dispatcher();
        assert_eq!(dispatcher.in_flight(), channel.len());
        assert_eq!(dispatcher.in_flight(), dispatcher.issued() - dispatcher.collected());
        assert!(dispatcher.in_flight() <= threads);
        assert_eq!(run.table().len(), dispatcher.collected());
        most_in_flight = most_in_flight.max(dispatcher.in_flight());
        let (event, record) = match action {
            Action::Issue { worker } => {
                issued.push(worker);
                channel.push_back((worker, home_record()));
                (Event::Done, None)
            }
            Action::Collect => {
                collects += 1;
                assert_eq!(dispatcher.in_flight(), threads);
                let (worker, record) = channel.pop_front().unwrap();
                sent.push(record);
                (Event::Result { worker, cutoff: cut_at == Some(sent.len()) }, Some(record))
            }
            Action::Stop { worker } => {
                stopped.push(worker);
                (Event::Done, None)
            }
            Action::Join { worker } => {
                joined.push(worker);
                (Event::Done, None)
            }
            Action::Drain => match channel.pop_front() {
                Some((worker, record)) => {
                    drains += 1;
                    sent.push(record);
                    (Event::Result { worker, cutoff: false }, Some(record))
                }
                None => (Event::Closed, None),
            },
            Action::Finish => break,
            Action::Abort { fault } => panic!("the run was given up: {:?}", fault),
        };
        let (next, order) = run.step(event, record);
        run = next;
        action = order;
        assert_eq!(action, run.pending());
    }
    assert_eq!(run.table().len(), sent.len());
    for (index, record) in sent.iter().enumerate() {
        assert_eq!(run.table().get(index), Some(*record));
    }
    Outcome { issued, stopped, joined, collects, drains, most_in_flight, run }
}

/// Splits a row into its jumps and its distance.
fn parse_row(row: &str) -> (usize, isize) {
    let fields: Vec<&str> = row.split(',').collect();
    assert_eq!(fields.len(), 2);
    (fields[0].parse().unwrap(), fields[1].parse().unwrap())
}

#[test]
fn two_workers_five_frogs() {
    let outcome = drive(5, 2, None);
    assert_eq!(outcome.run.table().len(), 5);
    assert_eq!(outcome.run.dispatcher().collected(), 5);
    assert_eq!(outcome.run.dispatcher().issued(), 5);
    assert_eq!(outcome.run.dispatcher().in_flight(), 0);
    assert_eq!(outcome.run.dispatcher().phase(), Phase::Finished);
    assert!(!outcome.run.dispatcher().cut_short());
    assert_eq!(outcome.issued.len(), 5);
    assert_eq!(&outcome.issued[..2], &[0, 1]);
    assert_eq!(outcome.collects, 3);
    assert_eq!(outcome.drains, 2);
    assert_eq!(outcome.most_in_flight, 2);
    assert_eq!(outcome.stopped, vec![0, 1]);
    assert_eq!(outcome.joined, vec![0, 1]);

    let text = outcome.run.table().render();
    let mut lines = text.lines();
    assert_eq!(lines.next(), Some("Total Jumps,Furthest distance"));
    let rows: Vec<&str> = lines.collect();
    assert_eq!(rows.len(), 5);
    for row in rows {
        let (jumps, distance) = parse_row(row);
        assert!(jumps >= 2);
        assert_ne!(distance, 0);
    }
    assert!(text.ends_with('\n'));
}

#[test]
fn as_many_workers_as_frogs() {
    let outcome = drive(4, 4, None);
    assert_eq!(outcome.issued, vec![0, 1, 2, 3]);
    assert_eq!(outcome.collects, 0);
    assert_eq!(outcome.drains, 4);
    assert_eq!(outcome.run.table().len(), 4);
    assert_eq!(outcome.stopped, vec![0, 1, 2, 3]);
    assert_eq!(outcome.joined, vec![0, 1, 2, 3]);
    assert_eq!(outcome.run.table().render().lines().count(), 5);
}

#[test]
fn one_worker() {
    let outcome = drive(6, 1, None);
    assert_eq!(outcome.issued, vec![0, 0, 0, 0, 0, 0]);
    assert_eq!(outcome.collects, 5);
    assert_eq!(outcome.drains, 1);
    assert_eq!(outcome.most_in_flight, 1);
    assert_eq!(outcome.run.table().len(), 6);
    assert_eq!(outcome.joined, vec![0]);
}

#[test]
fn one_worker_one_frog() {
    let outcome = drive(1, 1, None);
    assert_eq!(outcome.issued, vec![0]);
    assert_eq!(outcome.collects, 0);
    assert_eq!(outcome.run.table().len(), 1);
    assert_eq!(outcome.run.dispatcher().phase(), Phase::Finished);
}

#[test]
fn every_size_of_pool_collects_every_frog() {
    for total in 1..=7 {
        for threads in 1..=total {
            let outcome = drive(total, threads, None);
            assert_eq!(outcome.run.table().len(), total);
            assert_eq!(outcome.collects, total - threads);
            assert_eq!(outcome.drains, threads);
            assert_eq!(outcome.joined.len(), threads);
            assert_eq!(outcome.stopped.len(), threads);
        }
    }
}

#[test]
fn cut_short_after_the_second_result() {
    let outcome = drive(10, 3, Some(2));
    assert!(outcome.run.dispatcher().cut_short());
    assert_eq!(outcome.run.dispatcher().phase(), Phase::Finished);
    assert_eq!(outcome.collects, 2);
    assert_eq!(outcome.issued.len(), 4);
    assert_eq!(outcome.drains, 2);
    assert_eq!(outcome.run.table().len(), 4);
    assert_eq!(outcome.stopped, vec![0, 1, 2]);
    assert_eq!(outcome.joined, vec![0, 1, 2]);
}

#[test]
fn cut_short_at_any_result() {
    for total in 2..=7 {
        for threads in 1..total {
            for cut in 1..=(total - threads) {
                let outcome = drive(total, threads, Some(cut));
                assert!(outcome.run.dispatcher().cut_short());
                assert_eq!(outcome.run.table().len(), cut + threads - 1);
                assert!(outcome.run.table().len() >= cut);
                assert!(outcome.run.table().len() < total);
                assert_eq!(outcome.joined.len(), threads);
            }
        }
    }
}

#[test]
fn dispatcher_needs_a_worker_and_enough_frogs() {
    assert!(Dispatcher::new(5, 0).is_none());
    assert!(Dispatcher::new(5, 6).is_none());
    assert!(Dispatcher::new(0, 0).is_none());
    assert!(Dispatcher::new(0, 1).is_none());
    assert!(Dispatcher::new(5, 5).is_some());
    assert!(Dispatcher::new(5, 1).is_some());
    assert!(FrogManager::new(3).dispatcher(4).is_none());
    assert!(FrogManager::new(3).dispatcher(0).is_none());
}

#[test]
fn new_dispatcher_primes_the_first_worker() {
    let dispatcher = Dispatcher::new(5, 2).unwrap();
    assert_eq!(dispatcher.total_frogs(), 5);
    assert_eq!(dispatcher.threads(), 2);
    assert_eq!(dispatcher.issued(), 0);
    assert_eq!(dispatcher.collected(), 0);
    assert_eq!(dispatcher.in_flight(), 0);
    assert_eq!(dispatcher.phase(), Phase::Priming);
    assert_eq!(dispatcher.pending(), Action::Issue { worker: 0 });
}

#[test]
fn result_goes_back_to_the_same_worker() {
    let dispatcher = Dispatcher::new(5, 3).unwrap();
    let (dispatcher, _) = dispatcher.step(Event::Done);
    let (dispatcher, _) = dispatcher.step(Event::Done);
    let (dispatcher, action) = dispatcher.step(Event::Done);
    assert_eq!(action, Action::Collect);
    let (dispatcher, action) = dispatcher.step(Event::Result { worker: 2, cutoff: false });
    assert_eq!(action, Action::Issue { worker: 2 });
    assert_eq!(dispatcher.phase(), Phase::Reissuing { worker: 2 });
    assert_eq!(dispatcher.in_flight(), 2);
    let (dispatcher, action) = dispatcher.step(Event::Done);
    assert_eq!(action, Action::Collect);
    assert_eq!(dispatcher.in_flight(), 3);
    let (dispatcher, action) = dispatcher.step(Event::Result { worker: 0, cutoff: false });
    assert_eq!(action, Action::Issue { worker: 0 });
    let (dispatcher, action) = dispatcher.step(Event::Done);
    assert_eq!(dispatcher.issued(), 5);
    assert_eq!(action, Action::Stop { worker: 0 });
    assert_eq!(dispatcher.phase(), Phase::Stopping);
}

/// The dispatcher of a run of five frogs with two workers, both primed.
fn primed() -> Dispatcher {
    let dispatcher = Dispatcher::new(5, 2).unwrap();
    let (dispatcher, _) = dispatcher.step(Event::Done);
    let (dispatcher, action) = dispatcher.step(Event::Done);
    assert_eq!(action, Action::Collect);
    dispatcher
}

/// The dispatcher of a run of two frogs with two workers, stopped and joined.
fn draining() -> Dispatcher {
    let mut dispatcher = Dispatcher::new(2, 2).unwrap();
    for _ in 0..6 {
        dispatcher = dispatcher.step(Event::Done).0;
    }
    assert_eq!(dispatcher.pending(), Action::Drain);
    dispatcher
}

#[test]
fn worker_gone_while_priming() {
    let dispatcher = Dispatcher::new(5, 2).unwrap();
    let (dispatcher, _) = dispatcher.step(Event::Done);
    let (dispatcher, action) = dispatcher.step(Event::Failed);
    assert_eq!(action, Action::Abort { fault: Fault::WorkerGone { worker: 1 } });
    assert_eq!(dispatcher.phase(), Phase::Failed { fault: Fault::WorkerGone { worker: 1 } });
    assert_eq!(dispatcher.issued(), 1);
}

#[test]
fn worker_gone_while_reissuing() {
    let (dispatcher, _) = primed().step(Event::Result { worker: 1, cutoff: false });
    let (_, action) = dispatcher.step(Event::Failed);
    assert_eq!(action, Action::Abort { fault: Fault::WorkerGone { worker: 1 } });
}

#[test]
fn worker_gone_while_stopping() {
    let (dispatcher, action) = primed().step(Event::Result { worker: 0, cutoff: true });
    assert_eq!(action, Action::Stop { worker: 0 });
    let (dispatcher, action) = dispatcher.step(Event::Done);
    assert_eq!(action, Action::Stop { worker: 1 });
    let (_, action) = dispatcher.step(Event::Failed);
    assert_eq!(action, Action::Abort { fault: Fault::WorkerGone { worker: 1 } });
}

#[test]
fn worker_panicked() {
    let (dispatcher, _) = primed().step(Event::Result { worker: 0, cutoff: true });
    let (dispatcher, _) = dispatcher.step(Event::Done);
    let (dispatcher, action) = dispatcher.step(Event::Done);
    assert_eq!(action, Action::Join { worker: 0 });
    let (dispatcher, action) = dispatcher.step(Event::Done);
    assert_eq!(action, Action::Join { worker: 1 });
    let (_, action) = dispatcher.step(Event::Failed);
    assert_eq!(action, Action::Abort { fault: Fault::WorkerPanicked { worker: 1 } });
}

#[test]
fn result_of_an_idle_worker() {
    let (dispatcher, _) = draining().step(Event::Result { worker: 1, cutoff: false });
    assert_eq!(dispatcher.collected(), 1);
    let (_, action) = dispatcher.step(Event::Result { worker: 1, cutoff: false });
    assert_eq!(action, Action::Abort { fault: Fault::UnexpectedResult { worker: 1 } });
}

#[test]
fn result_of_no_worker() {
    let (dispatcher, action) = primed().step(Event::Result { worker: 2, cutoff: false });
    assert_eq!(action, Action::Abort { fault: Fault::UnexpectedResult { worker: 2 } });
    assert_eq!(dispatcher.collected(), 0);
    let (_, action) = draining().step(Event::Result { worker: 7, cutoff: false });
    assert_eq!(action, Action::Abort { fault: Fault::UnexpectedResult { worker: 7 } });
}

#[test]
fn results_lost_while_collecting() {
    let (_, action) = primed().step(Event::Closed);
    assert_eq!(action, Action::Abort { fault: Fault::ResultsLost });
}

#[test]
fn results_lost_while_draining() {
    let (dispatcher, _) = draining().step(Event::Result { worker: 0, cutoff: false });
    let (dispatcher, action) = dispatcher.step(Event::Closed);
    assert_eq!(action, Action::Abort { fault: Fault::ResultsLost });
    assert_eq!(dispatcher.in_flight(), 1);
}

#[test]
fn reports_out_of_turn() {
    let (_, action) = Dispatcher::new(5, 2).unwrap().step(Event::Closed);
    assert_eq!(action, Action::Abort { fault: Fault::OutOfTurn });
    let (_, action) =
        Dispatcher::new(5, 2).unwrap().step(Event::Result { worker: 0, cutoff: false });
    assert_eq!(action, Action::Abort { fault: Fault::OutOfTurn });
    let (_, action) = primed().step(Event::Done);
    assert_eq!(action, Action::Abort { fault: Fault::OutOfTurn });
    let (_, action) = primed().step(Event::Failed);
    assert_eq!(action, Action::Abort { fault: Fault::OutOfTurn });
    let (_, action) = draining().step(Event::Done);
    assert_eq!(action, Action::Abort { fault: Fault::OutOfTurn });
}

#[test]
fn nothing_follows_the_end() {
    let (dispatcher, _) = draining().step(Event::Result { worker: 0, cutoff: false });
    let (dispatcher, _) = dispatcher.step(Event::Result { worker: 1, cutoff: true });
    assert!(!dispatcher.cut_short());
    let (dispatcher, action) = dispatcher.step(Event::Closed);
    assert_eq!(action, Action::Finish);
    assert_eq!(dispatcher.collected(), 2);
    let (dispatcher, action) = dispatcher.step(Event::Closed);
    assert_eq!(action, Action::Abort { fault: Fault::OutOfTurn });
    let (dispatcher, action) = dispatcher.step(Event::Done);
    assert_eq!(action, Action::Abort { fault: Fault::OutOfTurn });
    assert_eq!(dispatcher.collected(), 2);
}

#[test]
fn first_fault_stays() {
    let (dispatcher, _) = primed().step(Event::Closed);
    let (dispatcher, action) = dispatcher.step(Event::Done);
    assert_eq!(action, Action::Abort { fault: Fault::ResultsLost });
    assert_eq!(dispatcher.phase(), Phase::Failed { fault: Fault::ResultsLost });
}

/// A run of five frogs with two workers, both primed.
fn primed_run(with_ids: bool) -> Run {
    let run = Run::new(5, 2, with_ids).unwrap();
    let (run, _) = run.step(Event::Done, None);
    let (run, action) = run.step(Event::Done, None);
    assert_eq!(action, Action::Collect);
    run
}

#[test]
fn run_needs_a_worker_and_enough_frogs() {
    assert!(Run::new(5, 0, false).is_none());
    assert!(Run::new(5, 6, true).is_none());
    assert!(Run::new(0, 0, false).is_none());
    let run = Run::new(3, 3, true).unwrap();
    assert_eq!(run.pending(), Action::Issue { worker: 0 });
    assert_eq!(run.table().len(), 0);
    assert_eq!(run.table().render(), "Frog ID,Total Jumps,Furthest distance\n");
    assert_eq!(run.dispatcher().total_frogs(), 3);
}

#[test]
fn counted_result_goes_into_the_table() {
    let record = ResultRecord { frog_id: None, step_count: 4, signed_displacement: -2 };
    let (run, action) =
        primed_run(false).step(Event::Result { worker: 1, cutoff: false }, Some(record));
    assert_eq!(action, Action::Issue { worker: 1 });
    assert_eq!(run.dispatcher().collected(), 1);
    assert_eq!(run.table().len(), 1);
    assert_eq!(run.table().get(0), Some(record));
    assert_eq!(run.table().render(), "Total Jumps,Furthest distance\n4,-2\n");
}

#[test]
fn result_that_is_not_owed_stays_out_of_the_table() {
    let record = ResultRecord { frog_id: None, step_count: 4, signed_displacement: -2 };
    let (run, action) =
        primed_run(false).step(Event::Result { worker: 9, cutoff: false }, Some(record));
    assert_eq!(action, Action::Abort { fault: Fault::UnexpectedResult { worker: 9 } });
    assert_eq!(run.table().len(), 0);
    let (run, action) =
        Run::new(5, 2, false).unwrap().step(Event::Result { worker: 0, cutoff: false }, Some(record));
    assert_eq!(action, Action::Abort { fault: Fault::OutOfTurn });
    assert_eq!(run.table().len(), 0);
}

#[test]
fn result_without_a_record_is_out_of_turn() {
    let (run, action) = primed_run(false).step(Event::Result { worker: 1, cutoff: false }, None);
    assert_eq!(action, Action::Abort { fault: Fault::OutOfTurn });
    assert_eq!(run.dispatcher().collected(), 0);
    assert_eq!(run.table().len(), 0);
}

#[test]
fn record_that_does_not_fit_the_table_is_out_of_turn() {
    let numbered = ResultRecord { frog_id: Some(1), step_count: 2, signed_displacement: 1 };
    let plain = ResultRecord { frog_id: None, step_count: 2, signed_displacement: 1 };
    let (run, action) =
        primed_run(false).step(Event::Result { worker: 0, cutoff: false }, Some(numbered));
    assert_eq!(action, Action::Abort { fault: Fault::OutOfTurn });
    assert_eq!(run.table().len(), 0);
    let (run, action) =
        primed_run(true).step(Event::Result { worker: 0, cutoff: false }, Some(plain));
    assert_eq!(action, Action::Abort { fault: Fault::OutOfTurn });
    assert_eq!(run.table().len(), 0);
    let (run, action) =
        primed_run(true).step(Event::Result { worker: 0, cutoff: false }, Some(numbered));
    assert_eq!(action, Action::Issue { worker: 0 });
    assert_eq!(run.table().render(), "Frog ID,Total Jumps,Furthest distance\n1,2,1\n");
}

#[test]
fn record_with_another_report_is_left_aside() {
    let record = ResultRecord { frog_id: None, step_count: 2, signed_displacement: 1 };
    let (run, action) = Run::new(5, 2, false).unwrap().step(Event::Done, Some(record));
    assert_eq!(action, Action::Issue { worker: 1 });
    assert_eq!(run.table().len(), 0);
    let (run, action) = primed_run(false).step(Event::Closed, Some(record));
    assert_eq!(action, Action::Abort { fault: Fault::ResultsLost });
    assert_eq!(run.table().len(), 0);
}
