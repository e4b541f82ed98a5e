use partdl::scheduler::Scheduler;

#[test]
fn pool_never_exceeds_bound() {
    let mut s = Scheduler::new(5, 2);
    let mut max_in_flight: usize = 0;
    // Drive a full schedule, completing one fetch whenever no more may start.
    while !s.all_done() {
        while s.can_start() {
            s.start_one();
            max_in_flight = max_in_flight.max(s.started - s.finished);
        }
        s.finish_one();
    }
    assert_eq!(max_in_flight, 2);
    assert_eq!(s.started, 5);
    assert_eq!(s.finished, 5);
}

#[test]
fn merge_waits_for_every_part() {
    let mut s = Scheduler::new(3, 8);
    while s.can_start() {
        s.start_one();
    }
    // The bound exceeds the plan, so everything starts at once.
    assert_eq!(s.started, 3);
    s.finish_one();
    s.finish_one();
    // Two of three done: the merge must still wait.
    assert!(!s.all_done());
    s.finish_one();
    assert!(s.all_done());
}

#[test]
fn single_connection_runs_serially() {
    let mut s = Scheduler::new(3, 1);
    assert!(s.can_start());
    s.start_one();
    // One fetch in flight is the limit.
    assert!(!s.can_start());
    s.finish_one();
    assert!(s.can_start());
}
