use component_async_demo::backpressure::{Backpressure, BackpressureAction};
use component_async_demo::host::ContinueFlag;
use component_async_demo::join::{Join, JoinAction, CALLS};
use component_async_demo::poll::{PollAction, PollEvent, PollRun};
use component_async_demo::ready::Ready;
use component_async_demo::yielding::{run, YieldAction};

#[test]
fn join_three_calls() {
    assert_eq!(CALLS, 3);
    let mut join = Join::new();
    for _ in 0..3 {
        assert_eq!(join.action(), JoinAction::Call);
        join.called();
    }
    for _ in 0..3 {
        assert_eq!(join.action(), JoinAction::Next);
        join.waited(true);
    }
    assert_eq!(join.action(), JoinAction::Next);
    join.waited(false);
    assert_eq!(join.action(), JoinAction::Done);
    join.called();
    join.waited(true);
    assert_eq!(join, Join::Joined);
}

#[test]
fn join_fails() {
    let mut join = Join::new();
    join.called();
    join.failed();
    assert_eq!(join.action(), JoinAction::Done);
}

#[test]
fn continue_flag() {
    let mut flag = ContinueFlag::new();
    assert!(!flag.get_continue());
    flag.set_continue(true);
    assert!(flag.get_continue());
    flag.set_continue(false);
    assert!(!flag.get_continue());
}

#[test]
fn yield_() {
    for _ in 0..CALLS {
        let mut flag = ContinueFlag::new();
        assert_eq!(run(flag.get_continue()), YieldAction::Return);

        flag.set_continue(true);
        let mut yields = 0;
        while let YieldAction::Yield = run(flag.get_continue()) {
            yields += 1;
            if yields == 5 {
                flag.set_continue(false);
            }
        }
        assert_eq!(yields, 5);
    }
}

#[test]
fn ready_flag() {
    let mut ready: Ready<u32> = Ready::new();
    assert!(ready.when_ready(1));

    assert_eq!(ready.set_ready(false), vec![]);
    assert!(!ready.when_ready(2));
    assert_eq!(ready.set_ready(false), vec![]);
    assert!(!ready.when_ready(3));
    assert!(!ready.when_ready(2));

    assert_eq!(ready.set_ready(true), vec![2, 3, 2]);
    assert_eq!(ready.set_ready(true), vec![]);
    assert!(ready.when_ready(4));

    ready.set_ready(false);
    assert_eq!(ready.set_ready(true), vec![]);
}

/// Runs the guest on `ready`, and returns what was woken.
fn run_poll(ready: &mut Ready<u32>, wakers: (u32, u32)) -> Vec<u32> {
    let (mut run, mut action) = PollRun::start();
    let mut next_waker = wakers.0;
    let mut woken = Vec::new();
    loop {
        let event = match action {
            PollAction::SetReady(value) => {
                woken.extend(ready.set_ready(value));
                PollEvent::Done
            }
            PollAction::PollWhenReady => {
                let done = ready.when_ready(next_waker);
                next_waker = wakers.1;
                PollEvent::Polled(done)
            }
            PollAction::Return => return woken,
            PollAction::FailReady | PollAction::FailPending => panic!("{action:?}"),
        };
        action = run.step(event);
    }
}

#[test]
fn poll() {
    let mut ready = Ready::new();
    for i in 0..u32::from(CALLS) {
        assert_eq!(run_poll(&mut ready, (2 * i, 2 * i + 1)), vec![2 * i]);
        assert!(ready.when_ready(99));
    }
}

#[test]
fn poll_wakes_those_who_waited() {
    let mut ready = Ready::new();
    ready.set_ready(false);
    ready.when_ready(7);
    ready.when_ready(8);
    assert_eq!(run_poll(&mut ready, (1, 2)), vec![7, 8, 1]);
}

#[test]
fn poll_steps() {
    let (mut run, action) = PollRun::start();
    assert_eq!(action, PollAction::SetReady(false));
    assert_eq!(run.step(PollEvent::Done), PollAction::PollWhenReady);
    assert_eq!(run.step(PollEvent::Polled(false)), PollAction::SetReady(true));
    assert_eq!(run.step(PollEvent::Done), PollAction::PollWhenReady);
    assert_eq!(run.step(PollEvent::Polled(true)), PollAction::Return);
    assert_eq!(run, PollRun::Over);
}

#[test]
fn poll_fails() {
    let (mut run, _) = PollRun::start();
    run.step(PollEvent::Done);
    assert_eq!(run.step(PollEvent::Polled(true)), PollAction::FailReady);

    let (mut run, _) = PollRun::start();
    run.step(PollEvent::Done);
    run.step(PollEvent::Polled(false));
    run.step(PollEvent::Done);
    assert_eq!(run.step(PollEvent::Polled(false)), PollAction::FailPending);
}

#[test]
fn backpressure() {
    let mut guest = Backpressure::new();
    let mut count = 0;
    for enabled in [false, true, true, false, false, true, false] {
        let action = guest.set_backpressure(enabled);
        match action {
            BackpressureAction::Increment => count += 1,
            BackpressureAction::Decrement => count -= 1,
            BackpressureAction::Keep => {}
        }
        assert_eq!(count, if enabled { 1 } else { 0 });
    }
}

#[test]
fn backpressure_changes() {
    let mut guest = Backpressure::new();
    assert_eq!(guest.set_backpressure(false), BackpressureAction::Keep);
    assert_eq!(guest.set_backpressure(true), BackpressureAction::Increment);
    assert_eq!(guest.set_backpressure(true), BackpressureAction::Keep);
    assert_eq!(guest.set_backpressure(false), BackpressureAction::Decrement);
}
