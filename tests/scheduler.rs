use bjobs::scheduler::{
    get_new_upcoming_moment, get_upcoming_moment, plans_valid, Recurrence, Schedule, Scheduler,
    Step,
};

#[test]
fn upcoming_moment_is_strictly_later() {
    let every_minute = Recurrence { every: 60, anchor: 0 };
    assert_eq!(get_upcoming_moment(0, &every_minute), 60);
    assert_eq!(get_upcoming_moment(59, &every_minute), 60);
    assert_eq!(get_upcoming_moment(60, &every_minute), 120);
    let from_100 = Recurrence { every: 10, anchor: 100 };
    assert_eq!(get_upcoming_moment(5, &from_100), 100);
    assert_eq!(get_upcoming_moment(100, &from_100), 110);
    assert_eq!(get_upcoming_moment(-7, &Recurrence { every: 3, anchor: -10 }), -4);
}

#[test]
fn upcoming_moment_clamps_at_the_end_of_time() {
    let r = Recurrence { every: 10, anchor: 0 };
    assert_eq!(get_upcoming_moment(i64::MAX - 1, &r), i64::MAX);
}

#[test]
fn late_fire_is_not_collapsed() {
    let r = Recurrence { every: 5, anchor: 0 };
    assert_eq!(get_new_upcoming_moment(7, &r, 10), 15);
    assert_eq!(get_new_upcoming_moment(23, &r, 10), 25);
}

#[test]
fn plans_are_checked() {
    let good = vec![
        Schedule { id: 1, at: Recurrence { every: 1, anchor: 0 } },
        Schedule { id: 2, at: Recurrence { every: 2, anchor: 0 } },
    ];
    assert!(plans_valid(&good));
    let dup = vec![
        Schedule { id: 1, at: Recurrence { every: 1, anchor: 0 } },
        Schedule { id: 1, at: Recurrence { every: 2, anchor: 0 } },
    ];
    assert!(!plans_valid(&dup));
    assert!(!plans_valid(&vec![Schedule { id: 3, at: Recurrence { every: 0, anchor: 0 } }]));
}

#[test]
fn empty_scheduler_idles() {
    let mut s = Scheduler::new(vec![], 0);
    assert_eq!(s.step(10), Step::Idle);
}

#[test]
fn sleeps_one_second_more_than_needed() {
    let mut s = Scheduler::new(vec![Schedule { id: 1, at: Recurrence { every: 10, anchor: 0 } }], 0);
    assert_eq!(s.queue, vec![(1, 10)]);
    assert_eq!(s.step(3), Step::Sleep { seconds: 8 });
}

#[test]
fn every_second_fires_on_time() {
    let mut s = Scheduler::new(vec![Schedule { id: 7, at: Recurrence { every: 1, anchor: 0 } }], 0);
    let mut fires = 0;
    let mut now: i64 = 0;
    while now <= 3 {
        match s.step(now) {
            Step::Fire { id, late, .. } => {
                assert_eq!(id, 7);
                assert!(late <= 1);
                fires += 1;
                assert!(s.complete(id, now).unwrap() > now);
            }
            Step::Sleep { .. } | Step::Idle => now += 1,
        }
    }
    assert!(fires >= 2);
}

#[test]
fn a_running_task_is_not_fired_twice() {
    let mut s = Scheduler::new(
        vec![
            Schedule { id: 1, at: Recurrence { every: 1, anchor: 0 } },
            Schedule { id: 2, at: Recurrence { every: 5, anchor: 0 } },
        ],
        0,
    );
    assert_eq!(s.step(100), Step::Fire { id: 1, planned: 1, late: 99 });
    assert_eq!(s.step(100), Step::Fire { id: 2, planned: 5, late: 95 });
    assert_eq!(s.step(100), Step::Idle);
    assert_eq!(s.complete(3, 100), None);
    assert_eq!(s.complete(1, 100), Some(101));
    assert_eq!(s.step(100), Step::Sleep { seconds: 2 });
}
