//! A readiness flag on which tasks can wait.
use vstd::prelude::*;

verus! {

/// The flag and the wakers of the tasks that wait for it.
///
/// The view is `None` while the flag is up, and otherwise the wakers that have
/// been parked since it was lowered, the oldest first.
#[derive(Debug)]
pub struct Ready<W> {
    wakers: Option<Vec<W>>,
}

impl<W> View for Ready<W> {
    type V = Option<Seq<W>>;

    closed spec fn view(&self) -> Option<Seq<W>> {
        match self.wakers {
            Some(wakers) => Some(wakers@),
            None => None,
        }
    }
}

/// The flag after it was set to `ready`.
pub open spec fn after_set<W>(state: Option<Seq<W>>, ready: bool) -> Option<Seq<W>> {
    if ready {
        None
    } else if state is None {
        Some(Seq::empty())
    } else {
        state
    }
}

/// The wakers to wake when the flag is set to `ready`.
pub open spec fn woken_by_set<W>(state: Option<Seq<W>>, ready: bool) -> Seq<W> {
    if ready && state is Some {
        state.unwrap()
    } else {
        Seq::empty()
    }
}

/// The flag after a task with waker `w` asked whether it is up.
pub open spec fn after_poll<W>(state: Option<Seq<W>>, w: W) -> Option<Seq<W>> {
    match state {
        Some(wakers) => Some(wakers.push(w)),
        None => None,
    }
}

impl<W> Ready<W> {
    /// The flag is up at first.
    pub fn new() -> (r: Ready<W>)
        ensures
            r@ is None,
    {
        Ready { wakers: None }
    }

    /// Raises or lowers the flag, and returns the wakers that are to be woken,
    /// in the order in which they were parked.
    pub fn set_ready(&mut self, ready: bool) -> (woken: Vec<W>)
        ensures
            final(self)@ == after_set(old(self)@, ready),
            woken@ == woken_by_set(old(self)@, ready),
            ready ==> final(self)@ is None,
            ready && old(self)@ is Some ==> woken@ == old(self)@.unwrap(),
            !ready || old(self)@ is None ==> woken@.len() == 0,
            !ready && old(self)@ is Some ==> final(self)@ == old(self)@,
            !ready && old(self)@ is None ==> final(self)@ == Some(Seq::<W>::empty()),
    {
        if ready {
            match self.wakers.take() {
                Some(wakers) => wakers,
                None => Vec::new(),
            }
        } else {
            if self.wakers.is_none() {
                self.wakers = Some(Vec::new());
            }
            Vec::new()
        }
    }

    /// Asks whether the flag is up; if it is not, parks `waker`.
    pub fn when_ready(&mut self, waker: W) -> (done: bool)
        ensures
            done == (old(self)@ is None),
            final(self)@ == after_poll(old(self)@, waker),
            done ==> final(self)@ is None,
            !done ==> final(self)@ == Some(old(self)@.unwrap().push(waker)),
    {
        match self.wakers.take() {
            Some(mut wakers) => {
                wakers.push(waker);
                self.wakers = Some(wakers);
                false
            },
            None => true,
        }
    }
}

/// Something done to the flag.
pub enum ReadyOp<W> {
    /// It is set.
    SetReady(bool),
    /// A task with this waker asks whether it is up.
    WhenReady(W),
}

/// The flag after `ops`, starting from `state`.
pub open spec fn after_ops<W>(state: Option<Seq<W>>, ops: Seq<ReadyOp<W>>) -> Option<Seq<W>>
    decreases ops.len(),
{
    if ops.len() == 0 {
        state
    } else {
        let before = after_ops(state, ops.drop_last());
        match ops.last() {
            ReadyOp::SetReady(ready) => after_set(before, ready),
            ReadyOp::WhenReady(w) => after_poll(before, w),
        }
    }
}

/// The wakers woken in the course of `ops`, in order.
pub open spec fn woken_in<W>(state: Option<Seq<W>>, ops: Seq<ReadyOp<W>>) -> Seq<W>
    decreases ops.len(),
{
    if ops.len() == 0 {
        Seq::empty()
    } else {
        let before = after_ops(state, ops.drop_last());
        let woken = woken_in(state, ops.drop_last());
        match ops.last() {
            ReadyOp::SetReady(ready) => woken + woken_by_set(before, ready),
            ReadyOp::WhenReady(_) => woken,
        }
    }
}

/// The wakers of the tasks that were told to wait in the course of `ops`, in
/// order.
pub open spec fn parked_in<W>(state: Option<Seq<W>>, ops: Seq<ReadyOp<W>>) -> Seq<W>
    decreases ops.len(),
{
    if ops.len() == 0 {
        Seq::empty()
    } else {
        let before = after_ops(state, ops.drop_last());
        let parked = parked_in(state, ops.drop_last());
        match ops.last() {
            ReadyOp::SetReady(_) => parked,
            ReadyOp::WhenReady(w) => if before is Some {
                parked.push(w)
            } else {
                parked
            },
        }
    }
}

/// The wakers that still wait.
pub open spec fn waiting<W>(state: Option<Seq<W>>) -> Seq<W> {
    match state {
        Some(wakers) => wakers,
        None => Seq::empty(),
    }
}

/// No wakeup is lost and none is made up: however the flag is used, the wakers
/// that were parked are those woken followed by those that still wait, each as
/// often as it was parked and in the order of parking.
pub proof fn law_no_lost_wakeups<W>(ops: Seq<ReadyOp<W>>)
    ensures
        parked_in(None, ops) == woken_in(None, ops) + waiting(after_ops(None, ops)),
    decreases ops.len(),
{
    if ops.len() == 0 {
        assert(parked_in::<W>(None, ops) =~= woken_in(None, ops) + waiting(after_ops(None, ops)));
    } else {
        law_no_lost_wakeups(ops.drop_last());
        assert(parked_in(None, ops) =~= woken_in(None, ops) + waiting(after_ops(None, ops)));
    }
}

/// After the flag is raised a task that asks is told so, nobody waits, and all
/// who waited are woken.  After it is lowered a task that asks has to wait.
/// Setting it again to what it is changes nothing and wakes nobody.
pub proof fn law_set_then_poll<W>(state: Option<Seq<W>>, w: W)
    ensures
        after_set(state, true) is None,
        woken_by_set(state, true) == waiting(state),
        after_poll(after_set(state, true), w) is None,
        after_set(state, false) is Some,
        waiting(after_set(state, false)) == waiting(state),
        after_poll(after_set(state, false), w) == Some(waiting(state).push(w)),
        forall|ready: bool| #[trigger]
            after_set(after_set(state, ready), ready) == after_set(state, ready),
        forall|ready: bool| #[trigger]
            woken_by_set(after_set(state, ready), ready) == Seq::<W>::empty(),
{
    assert(woken_by_set(state, true) =~= waiting(state));
    assert(waiting(after_set(state, false)) =~= waiting(state));
}

} // verus!
