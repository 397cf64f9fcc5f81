//! A guest that looks at a readiness flag without waiting for it.
use vstd::prelude::*;

#[allow(unused_imports)]
use crate::ready::{after_poll, after_set, waiting, woken_by_set};

verus! {

/// Where the guest's `run` stands.
#[derive(Debug, Clone, Copy, PartialEq, Eq)]
pub enum PollRun {
    /// The flag is being lowered.
    Lowering,
    /// The lowered flag is being looked at.
    LookingDown,
    /// The flag is being raised.
    Raising,
    /// The raised flag is being looked at.
    LookingUp,
    /// `run` has ended.
    Over,
}

/// What the guest does next.
#[derive(Debug, Clone, Copy, PartialEq, Eq)]
pub enum PollAction {
    /// Set the flag.
    SetReady(bool),
    /// Poll once a future that is done when the flag is up.
    PollWhenReady,
    /// Return from `run`.
    Return,
    /// Give up: the future was done although the flag was down.
    FailReady,
    /// Give up: the future was not done although the flag was up.
    FailPending,
}

/// What happened to the guest.
#[derive(Debug, Clone, Copy, PartialEq, Eq)]
pub enum PollEvent {
    /// The flag was set.
    Done,
    /// The future was polled; it was done or not.
    Polled(bool),
}

/// Whether `event` is the end of what the guest was doing.
pub open spec fn awaits(stage: PollRun, event: PollEvent) -> bool {
    match stage {
        PollRun::Lowering | PollRun::Raising => event is Done,
        PollRun::LookingDown | PollRun::LookingUp => event is Polled,
        PollRun::Over => false,
    }
}

/// Where `run` goes from `stage` on `event`, and what the guest does next.
pub open spec fn next(stage: PollRun, event: PollEvent) -> (PollRun, PollAction) {
    match (stage, event) {
        (PollRun::Lowering, _) => (PollRun::LookingDown, PollAction::PollWhenReady),
        (PollRun::LookingDown, PollEvent::Polled(false)) => (
            PollRun::Raising,
            PollAction::SetReady(true),
        ),
        (PollRun::LookingDown, _) => (PollRun::Over, PollAction::FailReady),
        (PollRun::Raising, _) => (PollRun::LookingUp, PollAction::PollWhenReady),
        (PollRun::LookingUp, PollEvent::Polled(true)) => (PollRun::Over, PollAction::Return),
        _ => (PollRun::Over, PollAction::FailPending),
    }
}

impl PollRun {
    /// Enters `run`; the flag is to be lowered.
    pub fn start() -> (r: (PollRun, PollAction))
        ensures
            r == (PollRun::Lowering, PollAction::SetReady(false)),
    {
        (PollRun::Lowering, PollAction::SetReady(false))
    }

    /// Takes `run` one step on.
    pub fn step(&mut self, event: PollEvent) -> (action: PollAction)
        requires
            awaits(*old(self), event),
        ensures
            (*final(self), action) == next(*old(self), event),
            match (*old(self), event) {
                (PollRun::Lowering, _) => *final(self) is LookingDown && action is PollWhenReady,
                (PollRun::LookingDown, PollEvent::Polled(done)) => if done {
                    *final(self) is Over && action is FailReady
                } else {
                    *final(self) is Raising && action == PollAction::SetReady(true)
                },
                (PollRun::Raising, _) => *final(self) is LookingUp && action is PollWhenReady,
                (PollRun::LookingUp, PollEvent::Polled(done)) => {
                    &&& *final(self) is Over
                    &&& action == if done {
                        PollAction::Return
                    } else {
                        PollAction::FailPending
                    }
                },
                _ => false,
            },
    {
        let (stage, action) = match (*self, event) {
            (PollRun::Lowering, _) => (PollRun::LookingDown, PollAction::PollWhenReady),
            (PollRun::LookingDown, PollEvent::Polled(false)) => (
                PollRun::Raising,
                PollAction::SetReady(true),
            ),
            (PollRun::LookingDown, _) => (PollRun::Over, PollAction::FailReady),
            (PollRun::Raising, _) => (PollRun::LookingUp, PollAction::PollWhenReady),
            (PollRun::LookingUp, PollEvent::Polled(true)) => (PollRun::Over, PollAction::Return),
            _ => (PollRun::Over, PollAction::FailPending),
        };
        *self = stage;
        action
    }
}

/// Where `run` stands, and what the guest does, after `events`.
pub open spec fn after(events: Seq<PollEvent>) -> (PollRun, PollAction)
    decreases events.len(),
{
    if events.len() == 0 {
        (PollRun::Lowering, PollAction::SetReady(false))
    } else {
        next(after(events.drop_last()).0, events.last())
    }
}

/// The guest lowers the flag, polls, raises it, polls again, and returns exactly if
/// the first poll found the future not done and the second found it done.  It gives
/// up at the first poll that finds otherwise, and says which.
pub proof fn law_returns_only_if_both_polls_agree(first: bool, second: bool)
    ensures
        after(Seq::empty()).1 == PollAction::SetReady(false),
        after(seq![PollEvent::Done]).1 == PollAction::PollWhenReady,
        after(seq![PollEvent::Done, PollEvent::Polled(first)]).1 == if first {
            PollAction::FailReady
        } else {
            PollAction::SetReady(true)
        },
        after(seq![PollEvent::Done, PollEvent::Polled(false), PollEvent::Done]).1
            == PollAction::PollWhenReady,
        after(
            seq![
                PollEvent::Done,
                PollEvent::Polled(false),
                PollEvent::Done,
                PollEvent::Polled(second),
            ],
        ).1 == if second {
            PollAction::Return
        } else {
            PollAction::FailPending
        },
        forall|stage: PollRun, e: PollEvent| #[trigger]
            awaits(stage, e) <==> match e {
                PollEvent::Done => stage is Lowering || stage is Raising,
                PollEvent::Polled(_) => stage is LookingDown || stage is LookingUp,
            },
{
    let e0 = Seq::<PollEvent>::empty();
    let e1 = seq![PollEvent::Done];
    let e2 = seq![PollEvent::Done, PollEvent::Polled(first)];
    let down = seq![PollEvent::Done, PollEvent::Polled(false)];
    let e3 = seq![PollEvent::Done, PollEvent::Polled(false), PollEvent::Done];
    let e4 = seq![
        PollEvent::Done,
        PollEvent::Polled(false),
        PollEvent::Done,
        PollEvent::Polled(second),
    ];
    assert(e1.drop_last() =~= e0);
    assert(after(e0) == (PollRun::Lowering, PollAction::SetReady(false)));
    assert(after(e1) == (PollRun::LookingDown, PollAction::PollWhenReady));
    assert(e2.drop_last() =~= e1);
    assert(down.drop_last() =~= e1);
    assert(after(down) == (PollRun::Raising, PollAction::SetReady(true)));
    assert(e3.drop_last() =~= down);
    assert(after(e3) == (PollRun::LookingUp, PollAction::PollWhenReady));
    assert(e4.drop_last() =~= e3);
}

/// What happens to the guest in a full run on a host whose flag is at `state`,
/// if its two polls come with the wakers `w1` and `w2`.
pub open spec fn events_on<W>(state: Option<Seq<W>>, w1: W, w2: W) -> Seq<PollEvent> {
    let down = after_set(state, false);
    let up = after_set(after_poll(down, w1), true);
    seq![PollEvent::Done, PollEvent::Polled(down is None), PollEvent::Done, PollEvent::Polled(up is None)]
}

/// On a host that keeps its flag, `run` returns whatever the flag was before:
/// the future is not done while the flag is down and done when it is up.  The
/// flag is left up, nobody waits, and those who waited before are woken, and
/// after them the waker of the first poll.
pub proof fn law_run_returns<W>(state: Option<Seq<W>>, w1: W, w2: W)
    ensures
        after(events_on(state, w1, w2)) == (PollRun::Over, PollAction::Return),
        after_poll(after_set(after_poll(after_set(state, false), w1), true), w2) is None,
        woken_by_set(after_poll(after_set(state, false), w1), true) == waiting(state).push(w1),
{
    let events = events_on(state, w1, w2);
    let e3 = events.drop_last();
    let e2 = e3.drop_last();
    let e1 = e2.drop_last();
    let e0 = e1.drop_last();
    assert(after(e0) == (PollRun::Lowering, PollAction::SetReady(false)));
    assert(after(e1) == (PollRun::LookingDown, PollAction::PollWhenReady));
    assert(after(e2) == (PollRun::Raising, PollAction::SetReady(true)));
    assert(after(e3) == (PollRun::LookingUp, PollAction::PollWhenReady));
    assert(woken_by_set(after_poll(after_set(state, false), w1), true) =~= waiting(state).push(
        w1,
    ));
}

/// The host's flag after a full run, if the two polls come with the wakers in `w`.
pub open spec fn flag_after_run<W>(state: Option<Seq<W>>, w: (W, W)) -> Option<Seq<W>> {
    after_poll(after_set(after_poll(after_set(state, false), w.0), true), w.1)
}

/// The host's flag after runs, one after the other, with the wakers in `runs`.
pub open spec fn flag_after_runs<W>(state: Option<Seq<W>>, runs: Seq<(W, W)>) -> Option<Seq<W>>
    decreases runs.len(),
{
    if runs.len() == 0 {
        state
    } else {
        flag_after_run(flag_after_runs(state, runs.drop_last()), runs.last())
    }
}

/// `run` can be called again and again: whatever the flag was at first, each run
/// returns and leaves the flag up.
pub proof fn law_every_run_returns<W>(state: Option<Seq<W>>, runs: Seq<(W, W)>)
    ensures
        forall|i: int|
            0 <= i < runs.len() ==> after(
                events_on(
                    flag_after_runs(state, runs.take(i)),
                    (#[trigger] runs[i]).0,
                    runs[i].1,
                ),
            ) == (PollRun::Over, PollAction::Return),
        runs.len() > 0 ==> flag_after_runs(state, runs) is None,
{
    assert forall|i: int| 0 <= i < runs.len() implies after(
        events_on(flag_after_runs(state, runs.take(i)), (#[trigger] runs[i]).0, runs[i].1),
    ) == (PollRun::Over, PollAction::Return) by {
        law_run_returns(flag_after_runs(state, runs.take(i)), runs[i].0, runs[i].1);
    }
}

} // verus!
