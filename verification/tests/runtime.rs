use coop_runtime::executor::{Executor, RegisterError};
use coop_runtime::task::{PinHandle, Task};
use coop_runtime::yield_point::{PollStatus, YieldPoint, YieldState};

#[test]
fn yield_point_pending_then_ready() {
    let mut y = YieldPoint::new();
    assert_eq!(y.state, YieldState::NotStarted);
    assert_eq!(y.poll(), PollStatus::Pending);
    assert_eq!(y.state, YieldState::ObservedOnce);
    assert_eq!(y.poll(), PollStatus::Ready);
    assert_eq!(y.state, YieldState::Complete);
    assert_eq!(y.poll(), PollStatus::Ready);
    assert_eq!(y.state, YieldState::Complete);
}

#[test]
fn pin_toggle_flips_level_and_counts() {
    let mut p = PinHandle::new(7, false);
    assert_eq!(p.line, 7);
    assert_eq!(p.level, false);
    assert_eq!(p.toggles, 0);
    p.toggle();
    assert_eq!(p.level, true);
    assert_eq!(p.toggles, 1);
    p.toggle();
    assert_eq!(p.level, false);
    assert_eq!(p.toggles, 2);
}

#[test]
fn task_cadence_one_toggles_every_resume() {
    let mut t = Task::new(PinHandle::new(3, false), 1);
    for pass in 1..=6u64 {
        let toggled = t.resume();
        assert!(toggled);
        assert_eq!(t.pin.toggles, pass);
        assert_eq!(t.pin.level, pass % 2 == 1);
    }
}

#[test]
fn task_cadence_two_toggles_every_second_resume() {
    let mut t = Task::new(PinHandle::new(4, true), 2);
    let mut expected: u64 = 0;
    for pass in 1..=8u64 {
        let toggled = t.resume();
        assert_eq!(toggled, pass % 2 == 0);
        if toggled {
            expected += 1;
        }
        assert_eq!(t.pin.toggles, expected);
    }
    assert_eq!(t.pin.toggles, 4);
}

#[test]
fn registration_keeps_order() {
    let mut e = Executor::new(2);
    assert_eq!(e.register(Task::new(PinHandle::new(20, false), 1)), Ok(()));
    assert_eq!(e.register(Task::new(PinHandle::new(22, false), 2)), Ok(()));
    assert_eq!(e.tasks.len(), 2);
    assert_eq!(e.tasks[0].pin.line, 20);
    assert_eq!(e.tasks[1].pin.line, 22);
}

#[test]
fn two_tasks_ten_passes_toggle_ten_and_five_times() {
    let mut e = Executor::new(2);
    e.register(Task::new(PinHandle::new(20, false), 1)).unwrap();
    e.register(Task::new(PinHandle::new(22, false), 2)).unwrap();
    let mut level_a = false;
    for pass in 1..=10u64 {
        let toggled = e.run_pass();
        // The fast task toggles on every pass, the slow one on every second,
        // and the toggle report lists them in registration order.
        if pass % 2 == 0 {
            assert_eq!(toggled, vec![20, 22]);
        } else {
            assert_eq!(toggled, vec![20]);
        }
        level_a = !level_a;
        assert_eq!(e.tasks[0].pin.level, level_a);
    }
    assert_eq!(e.tasks[0].pin.toggles, 10);
    assert_eq!(e.tasks[1].pin.toggles, 5);
    assert_eq!(e.tasks[0].pin.level, false);
    assert_eq!(e.tasks[1].pin.level, true);
}

#[test]
fn run_passes_matches_single_passes() {
    let mut a = Executor::new(2);
    a.register(Task::new(PinHandle::new(20, false), 1)).unwrap();
    a.register(Task::new(PinHandle::new(22, false), 2)).unwrap();
    let mut b = Executor::new(2);
    b.register(Task::new(PinHandle::new(20, false), 1)).unwrap();
    b.register(Task::new(PinHandle::new(22, false), 2)).unwrap();

    a.run_passes(9);
    for _ in 0..9 {
        b.run_pass();
    }
    for i in 0..2 {
        assert_eq!(a.tasks[i].pin.toggles, b.tasks[i].pin.toggles);
        assert_eq!(a.tasks[i].pin.level, b.tasks[i].pin.level);
        assert_eq!(a.tasks[i].yields_done, b.tasks[i].yields_done);
    }
    assert_eq!(a.tasks[0].pin.toggles, 9);
    assert_eq!(a.tasks[1].pin.toggles, 4);
}

#[test]
fn third_registration_exceeds_capacity() {
    let mut e = Executor::new(2);
    e.register(Task::new(PinHandle::new(20, false), 1)).unwrap();
    e.register(Task::new(PinHandle::new(22, false), 2)).unwrap();
    let r = e.register(Task::new(PinHandle::new(21, false), 1));
    assert_eq!(r, Err(RegisterError::CapacityExceeded));
    assert_eq!(e.tasks.len(), 2);
    assert_eq!(e.tasks[0].pin.toggles, 0);
    assert_eq!(e.tasks[1].pin.toggles, 0);
}

#[test]
fn duplicate_pin_is_rejected() {
    let mut e = Executor::new(3);
    e.register(Task::new(PinHandle::new(20, false), 1)).unwrap();
    let r = e.register(Task::new(PinHandle::new(20, true), 2));
    assert_eq!(r, Err(RegisterError::PinAlreadyClaimed));
    assert_eq!(e.tasks.len(), 1);
}

#[test]
fn tasks_survive_many_passes() {
    let mut e = Executor::new(2);
    e.register(Task::new(PinHandle::new(20, false), 1)).unwrap();
    e.register(Task::new(PinHandle::new(22, false), 2)).unwrap();
    e.run_passes(10_000);
    assert_eq!(e.tasks.len(), 2);
    assert_eq!(e.tasks[0].pin.line, 20);
    assert_eq!(e.tasks[1].pin.line, 22);
    assert_eq!(e.tasks[0].pin.toggles, 10_000);
    assert_eq!(e.tasks[1].pin.toggles, 5_000);
}

#[test]
fn odd_pass_window_rounds_the_slow_task_down() {
    let mut e = Executor::new(2);
    e.register(Task::new(PinHandle::new(20, false), 1)).unwrap();
    e.register(Task::new(PinHandle::new(22, false), 2)).unwrap();
    e.run_passes(7);
    assert_eq!(e.tasks[0].pin.toggles, 7);
    assert_eq!(e.tasks[1].pin.toggles, 3);
    assert_eq!(e.tasks[1].yields_done, 1);
}
