use jumping_frog_problem::frog_manager::{Frog, FrogHeading, FrogManager};

#[test]
fn manager_keeps_the_number_of_frogs() {
    assert_eq!(FrogManager::new(12).total_frogs(), 12);
    assert_eq!(FrogManager::new(0).total_frogs(), 0);
}

#[test]
fn manager_frog_starts_on_the_first_pad() {
    let frog = Frog::start(Some(4));
    assert_eq!(frog.position(), 1);
    assert_eq!(frog.jumps(), 1);
    assert!(frog.has_room());
    assert!(frog.record().is_none());
}

#[test]
fn manager_frog_jumps_one_pad() {
    let mut frog = Frog::from_parts(None, 2, 2, 2, FrogHeading::Left).unwrap();
    let home = frog.jump();
    assert_eq!(home, None);
    assert!(frog.position() == 3 || frog.position() == 1);
    assert_eq!(frog.jumps(), 3);
    assert_eq!(frog.heading(), FrogHeading::Left);
}

#[test]
fn status_names_the_frog() {
    let frog = Frog::from_parts(Some(3), 1, 3, 2, FrogHeading::Right).unwrap();
    assert_eq!(
        frog.status(),
        "Frog 3 has taken 3 jumps to the right and is sitting on lilly pad 1"
    );
}

#[test]
fn status_without_a_number() {
    let frog = Frog::from_parts(None, -2, 4, 1, FrogHeading::Left).unwrap();
    assert_eq!(
        frog.status(),
        "This frog has taken 4 jumps to the left and is sitting on lilly pad -2"
    );
}

#[test]
fn result_names_the_frog() {
    let frog = Frog::from_parts(Some(10), 0, 14, 5, FrogHeading::Left).unwrap();
    assert_eq!(
        frog.result().unwrap(),
        "Frog 10 took a total of 14 jumps to the left and made it to lilly pad 5 at the furthest"
    );
}

#[test]
fn result_without_a_number() {
    let frog = Frog::from_parts(None, 0, 2, 1, FrogHeading::Right).unwrap();
    assert_eq!(
        frog.result().unwrap(),
        "This frog took a total of 2 jumps to the right and made it to lilly pad 1 at the furthest"
    );
}

#[test]
fn csv_results_signs_the_distance() {
    let left = Frog::from_parts(None, 1, 3, 2, FrogHeading::Left).unwrap();
    let right = Frog::from_parts(Some(3), 1, 3, 2, FrogHeading::Right).unwrap();
    assert_eq!(left.csv_results(), "3,-2\n");
    assert_eq!(right.csv_results(), "3,3,2\n");
}

#[test]
fn manager_frog_runs_home() {
    for _ in 0..10_000 {
        let frog = Frog::run_within(None, 1_000);
        if frog.position() != 0 {
            assert_eq!(frog.jumps(), 1_000);
            assert!(frog.record().is_none());
            continue;
        }
        assert!(frog.jumps() >= 2);
        assert!(frog.jumps() <= 1_000);
        let record = frog.record().unwrap();
        assert_eq!(record.row(), frog.csv_results());
        return;
    }
    panic!("no frog came home");
}

#[test]
fn manager_frog_stays_within_its_budget() {
    let frog = Frog::run_within(Some(1), 1);
    assert_eq!((frog.position(), frog.jumps()), (1, 1));
    for _ in 0..100 {
        let frog = Frog::run_within(None, 5);
        assert!(frog.jumps() <= 5);
        assert!(frog.position() == 0 || frog.jumps() == 5);
    }
}

#[test]
fn manager_frog_is_described_line_by_line() {
    let frog = Frog::from_parts(Some(0), 2, 2, 2, FrogHeading::Left).unwrap();
    assert_eq!(
        frog.to_text(),
        "frog:\nid: Some(0),\nposition: 2,\njumps: 2,\ndistance: 2,\nheading: left,"
    );
}

#[test]
fn no_result_before_the_frog_is_home() {
    let under_way = Frog::from_parts(Some(3), 1, 3, 2, FrogHeading::Right).unwrap();
    assert_eq!(under_way.result(), None);
    assert!(under_way.record().is_none());
    assert_eq!(under_way.csv_results(), "3,3,2\n");
    let beyond = Frog::from_parts(None, -2, 4, 1, FrogHeading::Left).unwrap();
    assert_eq!(beyond.result(), None);
    assert_eq!(Frog::start(None).result(), None);
}
