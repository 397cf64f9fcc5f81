//! The side of an exchange that is told what to do.
//!
//! The callee is handed a stream of control messages, a stream of strings and a
//! future string, and hands back a stream and a future of its own.  It does what
//! the messages say, one after the other: expect a value or send one.
use vstd::prelude::*;

verus! {

/// What the callee is told to do.
#[derive(Debug, PartialEq, Eq)]
pub enum ControlOf<T> {
    /// Read the caller's stream, and expect this value alone.
    ReadStream(T),
    /// Read the caller's future, and expect this value.
    ReadFuture(T),
    /// Send this value on the callee's stream.
    WriteStream(T),
    /// Write this value to the callee's future.
    WriteFuture(T),
}

pub type Control = ControlOf<String>;

impl View for ControlOf<String> {
    type V = ControlOf<Seq<char>>;

    open spec fn view(&self) -> ControlOf<Seq<char>> {
        match self {
            ControlOf::ReadStream(s) => ControlOf::ReadStream(s@),
            ControlOf::ReadFuture(s) => ControlOf::ReadFuture(s@),
            ControlOf::WriteStream(s) => ControlOf::WriteStream(s@),
            ControlOf::WriteFuture(s) => ControlOf::WriteFuture(s@),
        }
    }
}

/// The views of a list of messages.
pub open spec fn control_views(messages: Seq<Control>) -> Seq<ControlOf<Seq<char>>> {
    messages.map_values(|m: Control| m@)
}

/// The views of a list of strings.
pub open spec fn string_views(strings: Seq<String>) -> Seq<Seq<char>> {
    strings.map_values(|s: String| s@)
}

/// What the callee is in the middle of.
#[derive(Debug, PartialEq, Eq)]
pub enum StageOf<T> {
    /// Waiting for messages.
    Control,
    /// Reading the caller's stream, where it expects this value.
    Stream(T),
    /// Reading the caller's future, where it expects this value.
    Future(T),
    /// Sending on its stream.
    Sending,
    /// Writing to its future.
    Writing,
    /// Nothing: it has ended.
    Over,
}

impl View for StageOf<String> {
    type V = StageOf<Seq<char>>;

    open spec fn view(&self) -> StageOf<Seq<char>> {
        match self {
            StageOf::Control => StageOf::Control,
            StageOf::Stream(s) => StageOf::Stream(s@),
            StageOf::Future(s) => StageOf::Future(s@),
            StageOf::Sending => StageOf::Sending,
            StageOf::Writing => StageOf::Writing,
            StageOf::Over => StageOf::Over,
        }
    }
}

/// Why the callee gives up.
#[derive(Debug, Clone, Copy, PartialEq, Eq)]
pub enum CalleeError {
    /// The caller's stream did not give the expected value.
    StreamMismatch,
    /// The caller's future did not give the expected value.
    FutureMismatch,
    /// The caller's future was to be read again.
    FutureAlreadyRead,
    /// The callee's future was to be written again.
    FutureAlreadyWritten,
    /// The callee's stream does not take any more values.
    StreamClosed,
}

/// What the callee does next.
#[derive(Debug, PartialEq, Eq)]
pub enum CalleeActionOf<T> {
    /// Wait for messages.
    NextControl,
    /// Wait for values on the caller's stream.
    NextStream,
    /// Wait for the caller's future.
    ReadFuture,
    /// Send this one value on its stream.
    SendStream(T),
    /// Write this value to its future.
    WriteFuture(T),
    /// Drop all that it holds, the second pair of futures with it, and end.
    Finish,
    /// Give up.
    Fail(CalleeError),
}

pub type CalleeAction = CalleeActionOf<String>;

impl View for CalleeActionOf<String> {
    type V = CalleeActionOf<Seq<char>>;

    open spec fn view(&self) -> CalleeActionOf<Seq<char>> {
        match self {
            CalleeActionOf::NextControl => CalleeActionOf::NextControl,
            CalleeActionOf::NextStream => CalleeActionOf::NextStream,
            CalleeActionOf::ReadFuture => CalleeActionOf::ReadFuture,
            CalleeActionOf::SendStream(s) => CalleeActionOf::SendStream(s@),
            CalleeActionOf::WriteFuture(s) => CalleeActionOf::WriteFuture(s@),
            CalleeActionOf::Finish => CalleeActionOf::Finish,
            CalleeActionOf::Fail(e) => CalleeActionOf::Fail(*e),
        }
    }
}

/// What happened to the callee: `T` is a string, `L` a list of strings and `M` a
/// list of messages.
#[derive(Debug, PartialEq, Eq)]
pub enum CalleeEventOf<T, L, M> {
    /// Messages came, or there are no more.
    Control(Option<M>),
    /// Values came on the caller's stream, or there are no more.
    Stream(Option<L>),
    /// The caller's future gave a value, or was dropped.
    Future(Option<T>),
    /// A value was sent on the callee's stream, or could not be.
    Sent(bool),
    /// The callee's future was written.
    Written,
}

pub type CalleeEvent = CalleeEventOf<String, Vec<String>, Vec<Control>>;

/// What happened to the callee, over mathematical strings.
pub type CalleeEventView = CalleeEventOf<Seq<char>, Seq<Seq<char>>, Seq<ControlOf<Seq<char>>>>;

impl View for CalleeEventOf<String, Vec<String>, Vec<Control>> {
    type V = CalleeEventView;

    open spec fn view(&self) -> CalleeEventView {
        match self {
            CalleeEventOf::Control(Some(messages)) => CalleeEventOf::Control(
                Some(control_views(messages@)),
            ),
            CalleeEventOf::Control(None) => CalleeEventOf::Control(None),
            CalleeEventOf::Stream(Some(values)) => CalleeEventOf::Stream(
                Some(string_views(values@)),
            ),
            CalleeEventOf::Stream(None) => CalleeEventOf::Stream(None),
            CalleeEventOf::Future(Some(value)) => CalleeEventOf::Future(Some(value@)),
            CalleeEventOf::Future(None) => CalleeEventOf::Future(None),
            CalleeEventOf::Sent(ok) => CalleeEventOf::Sent(*ok),
            CalleeEventOf::Written => CalleeEventOf::Written,
        }
    }
}

/// The state of a callee.
pub struct CalleeView {
    /// What it is in the middle of.
    pub stage: StageOf<Seq<char>>,
    /// The messages that it has been given and not yet turned to.
    pub pending: Seq<ControlOf<Seq<char>>>,
    /// Whether it still holds the caller's future.
    pub future_rx: bool,
    /// Whether it still holds the writing end of its own future.
    pub future_tx: bool,
    /// Whether it still holds the second pair of futures: another of the caller's
    /// and the writing end of another of its own.  It holds them and does nothing
    /// else with them.
    pub second_futures: bool,
}

/// A callee at the beginning: it waits for messages.
pub open spec fn new_callee() -> CalleeView {
    CalleeView {
        stage: StageOf::Control,
        pending: Seq::empty(),
        future_rx: true,
        future_tx: true,
        second_futures: true,
    }
}

/// A callee that gives up in `state`.
pub open spec fn fail(state: CalleeView, error: CalleeError) -> (
    CalleeView,
    CalleeActionOf<Seq<char>>,
) {
    (CalleeView { stage: StageOf::Over, ..state }, CalleeActionOf::Fail(error))
}

/// A callee that turns to the next of its pending messages, and waits for more
/// if there is none.
pub open spec fn turn_to_next(state: CalleeView) -> (CalleeView, CalleeActionOf<Seq<char>>) {
    if state.pending.len() == 0 {
        (CalleeView { stage: StageOf::Control, ..state }, CalleeActionOf::NextControl)
    } else {
        let rest = CalleeView { pending: state.pending.drop_first(), ..state };
        match state.pending.first() {
            ControlOf::ReadStream(value) => (
                CalleeView { stage: StageOf::Stream(value), ..rest },
                CalleeActionOf::NextStream,
            ),
            ControlOf::ReadFuture(value) => if state.future_rx {
                (
                    CalleeView { stage: StageOf::Future(value), future_rx: false, ..rest },
                    CalleeActionOf::ReadFuture,
                )
            } else {
                fail(rest, CalleeError::FutureAlreadyRead)
            },
            ControlOf::WriteStream(value) => (
                CalleeView { stage: StageOf::Sending, ..rest },
                CalleeActionOf::SendStream(value),
            ),
            ControlOf::WriteFuture(value) => if state.future_tx {
                (
                    CalleeView { stage: StageOf::Writing, future_tx: false, ..rest },
                    CalleeActionOf::WriteFuture(value),
                )
            } else {
                fail(rest, CalleeError::FutureAlreadyWritten)
            },
        }
    }
}

/// Whether `event` is the end of what a callee at `stage` is in the middle of.
pub open spec fn awaits(stage: StageOf<Seq<char>>, event: CalleeEventView) -> bool {
    match stage {
        StageOf::Control => event is Control,
        StageOf::Stream(_) => event is Stream,
        StageOf::Future(_) => event is Future,
        StageOf::Sending => event is Sent,
        StageOf::Writing => event is Written,
        StageOf::Over => false,
    }
}

/// The state of a callee after `event`, and what it does next.
pub open spec fn next(state: CalleeView, event: CalleeEventView) -> (
    CalleeView,
    CalleeActionOf<Seq<char>>,
) {
    match (state.stage, event) {
        (_, CalleeEventOf::Control(Some(messages))) => turn_to_next(
            CalleeView { pending: messages, ..state },
        ),
        (_, CalleeEventOf::Control(None)) => (
            CalleeView { stage: StageOf::Over, second_futures: false, ..state },
            CalleeActionOf::Finish,
        ),
        (StageOf::Stream(value), CalleeEventOf::Stream(values)) => if values == Some(seq![value]) {
            turn_to_next(state)
        } else {
            fail(state, CalleeError::StreamMismatch)
        },
        (StageOf::Future(value), CalleeEventOf::Future(got)) => if got == Some(value) {
            turn_to_next(state)
        } else {
            fail(state, CalleeError::FutureMismatch)
        },
        (_, CalleeEventOf::Sent(ok)) => if ok {
            turn_to_next(state)
        } else {
            fail(state, CalleeError::StreamClosed)
        },
        (_, CalleeEventOf::Written) => turn_to_next(state),
        _ => arbitrary(),
    }
}

/// The callee of an exchange.
#[derive(Debug)]
pub struct Callee {
    stage: StageOf<String>,
    pending: Vec<Control>,
    future_rx: bool,
    future_tx: bool,
    second_futures: bool,
}

impl View for Callee {
    type V = CalleeView;

    closed spec fn view(&self) -> CalleeView {
        CalleeView {
            stage: self.stage@,
            pending: control_views(self.pending@),
            future_rx: self.future_rx,
            future_tx: self.future_tx,
            second_futures: self.second_futures,
        }
    }
}

/// Whether `values` is `value` alone.
fn is_single(values: &Option<Vec<String>>, value: &String) -> (r: bool)
    ensures
        r == (match values {
            Some(values) => string_views(values@) == seq![value@],
            None => false,
        }),
{
    match values {
        Some(values) => {
            let r = values.len() == 1 && values[0] == *value;
            proof {
                if r {
                    assert(string_views(values@) =~= seq![value@]);
                } else if values@.len() == 1 {
                    assert(string_views(values@)[0] != seq![value@][0]);
                } else {
                    assert(string_views(values@).len() != seq![value@].len());
                }
            }
            r
        },
        None => false,
    }
}

impl Callee {
    /// Begins an exchange.
    pub fn exchange() -> (r: (Callee, CalleeAction))
        ensures
            r.0@ == new_callee(),
            r.1@ == CalleeActionOf::<Seq<char>>::NextControl,
    {
        let callee = Callee {
            stage: StageOf::Control,
            pending: Vec::new(),
            future_rx: true,
            future_tx: true,
            second_futures: true,
        };
        assert(callee@.pending =~= Seq::empty());
        (callee, CalleeActionOf::NextControl)
    }

    /// Takes the exchange one step on.
    pub fn step(&mut self, event: CalleeEvent) -> (action: CalleeAction)
        requires
            awaits(old(self)@.stage, event@),
        ensures
            (final(self)@, action@) == next(old(self)@, event@),
    {
        match event {
            CalleeEventOf::Control(Some(messages)) => {
                self.pending = messages;
                self.turn_to_next()
            },
            CalleeEventOf::Control(None) => {
                self.stage = StageOf::Over;
                self.second_futures = false;
                CalleeActionOf::Finish
            },
            CalleeEventOf::Stream(values) => {
                let expected = match &self.stage {
                    StageOf::Stream(value) => is_single(&values, value),
                    _ => false,
                };
                if expected {
                    self.turn_to_next()
                } else {
                    self.fail(CalleeError::StreamMismatch)
                }
            },
            CalleeEventOf::Future(got) => {
                let expected = match (&self.stage, &got) {
                    (StageOf::Future(value), Some(got)) => *got == *value,
                    _ => false,
                };
                if expected {
                    self.turn_to_next()
                } else {
                    self.fail(CalleeError::FutureMismatch)
                }
            },
            CalleeEventOf::Sent(ok) => {
                if ok {
                    self.turn_to_next()
                } else {
                    self.fail(CalleeError::StreamClosed)
                }
            },
            CalleeEventOf::Written => self.turn_to_next(),
        }
    }

    fn fail(&mut self, error: CalleeError) -> (action: CalleeAction)
        ensures
            (final(self)@, action@) == fail(old(self)@, error),
    {
        self.stage = StageOf::Over;
        CalleeActionOf::Fail(error)
    }

    fn turn_to_next(&mut self) -> (action: CalleeAction)
        ensures
            (final(self)@, action@) == turn_to_next(old(self)@),
    {
        if self.pending.len() == 0 {
            self.stage = StageOf::Control;
            return CalleeActionOf::NextControl;
        }
        let message = self.pending.remove(0);
        assert(self@.pending =~= old(self)@.pending.drop_first());
        assert(message@ == old(self)@.pending.first());
        match message {
            ControlOf::ReadStream(value) => {
                self.stage = StageOf::Stream(value);
                CalleeActionOf::NextStream
            },
            ControlOf::ReadFuture(value) => {
                if self.future_rx {
                    self.future_rx = false;
                    self.stage = StageOf::Future(value);
                    CalleeActionOf::ReadFuture
                } else {
                    self.fail(CalleeError::FutureAlreadyRead)
                }
            },
            ControlOf::WriteStream(value) => {
                self.stage = StageOf::Sending;
                CalleeActionOf::SendStream(value)
            },
            ControlOf::WriteFuture(value) => {
                if self.future_tx {
                    self.future_tx = false;
                    self.stage = StageOf::Writing;
                    CalleeActionOf::WriteFuture(value)
                } else {
                    self.fail(CalleeError::FutureAlreadyWritten)
                }
            },
        }
    }
}

/// The state of a callee after `events`, and what it does next.
pub open spec fn after(events: Seq<CalleeEventView>) -> (CalleeView, CalleeActionOf<Seq<char>>)
    decreases events.len(),
{
    if events.len() == 0 {
        (new_callee(), CalleeActionOf::NextControl)
    } else {
        next(after(events.drop_last()).0, events.last())
    }
}

/// Whether `events` can happen to a callee one after the other.
pub open spec fn possible(events: Seq<CalleeEventView>) -> bool
    decreases events.len(),
{
    events.len() > 0 ==> {
        &&& possible(events.drop_last())
        &&& awaits(after(events.drop_last()).0.stage, events.last())
    }
}

/// All messages that came in the course of `events`, whichever came together.
pub open spec fn received(events: Seq<CalleeEventView>) -> Seq<ControlOf<Seq<char>>>
    decreases events.len(),
{
    if events.len() == 0 {
        Seq::empty()
    } else {
        match events.last() {
            CalleeEventOf::Control(Some(messages)) => received(events.drop_last()) + messages,
            _ => received(events.drop_last()),
        }
    }
}

/// What the callee is to do about a message.
pub open spec fn operation(message: ControlOf<Seq<char>>) -> CalleeActionOf<Seq<char>> {
    match message {
        ControlOf::ReadStream(_) => CalleeActionOf::NextStream,
        ControlOf::ReadFuture(_) => CalleeActionOf::ReadFuture,
        ControlOf::WriteStream(value) => CalleeActionOf::SendStream(value),
        ControlOf::WriteFuture(value) => CalleeActionOf::WriteFuture(value),
    }
}

/// What the callee is to do about each of `messages`.
pub open spec fn operations(messages: Seq<ControlOf<Seq<char>>>) -> Seq<
    CalleeActionOf<Seq<char>>,
> {
    messages.map_values(|m: ControlOf<Seq<char>>| operation(m))
}

/// Whether the callee does something that a message told it to.
pub open spec fn is_operation(action: CalleeActionOf<Seq<char>>) -> bool {
    action is NextStream || action is ReadFuture || action is SendStream || action is WriteFuture
}

/// What the callee has done in the course of `events` because a message told it
/// to, the last thing being perhaps still under way.
pub open spec fn performed(events: Seq<CalleeEventView>) -> Seq<CalleeActionOf<Seq<char>>>
    decreases events.len(),
{
    if events.len() == 0 {
        Seq::empty()
    } else if is_operation(after(events).1) {
        performed(events.drop_last()).push(after(events).1)
    } else {
        performed(events.drop_last())
    }
}

/// How many of `actions` are such as `f` says.
pub open spec fn times(
    actions: Seq<CalleeActionOf<Seq<char>>>,
    f: spec_fn(CalleeActionOf<Seq<char>>) -> bool,
) -> nat
    decreases actions.len(),
{
    if actions.len() == 0 {
        0
    } else {
        times(actions.drop_last(), f) + if f(actions.last()) {
            1nat
        } else {
            0nat
        }
    }
}

/// Turning to the next message moves what it says from the pending messages to
/// what is done.
proof fn lemma_turn_performs(state: CalleeView)
    ensures
        ({
            let (after, action) = turn_to_next(state);
            &&& is_operation(action) ==> operations(state.pending) == seq![action] + operations(
                after.pending,
            )
            &&& !is_operation(action) && !(action is Fail) ==> {
                &&& action is NextControl
                &&& after.pending == state.pending
            }
        }),
{
    let (after, action) = turn_to_next(state);
    if is_operation(action) {
        assert(operations(state.pending) =~= seq![action] + operations(after.pending));
    }
}

/// A callee does what it is told, in the order in which it is told, and nothing
/// else: what it has done and what it has yet to turn to are what the messages
/// say.  It does not matter which messages came together.  A callee that gave up
/// has done a first part of what it was told.
pub proof fn law_does_as_told(events: Seq<CalleeEventView>)
    requires
        possible(events),
    ensures
        !(after(events).1 is Fail) ==> performed(events) + operations(after(events).0.pending)
            == operations(received(events)),
        after(events).1 is NextControl || after(events).1 is Finish ==> performed(events)
            == operations(received(events)),
        performed(events).is_prefix_of(operations(received(events))),
    decreases events.len(),
{
    let (state, action) = after(events);
    lemma_stage(events);
    if events.len() == 0 {
        assert(performed(events) + operations(state.pending) =~= operations(received(events)));
    } else {
        let before = events.drop_last();
        let was = after(before).0;
        law_does_as_told(before);
        lemma_stage(before);
        match events.last() {
            CalleeEventOf::Control(Some(messages)) => {
                let mid = CalleeView { pending: messages, ..was };
                assert(operations(received(events)) =~= performed(before) + operations(
                    mid.pending,
                ));
                lemma_turn_performs(mid);
                lemma_performed_step(events, mid);
            },
            CalleeEventOf::Control(None) => {},
            _ => {
                if after(events) == turn_to_next(was) {
                    lemma_turn_performs(was);
                    lemma_performed_step(events, was);
                } else {
                    assert(performed(events) + operations(was.pending) == operations(
                        received(events),
                    ));
                }
            },
        }
    }
    if !(action is Fail) {
        assert(performed(events).is_prefix_of(
            performed(events) + operations(state.pending),
        ));
        if state.pending.len() == 0 {
            assert(performed(events) + operations(state.pending) =~= performed(events));
        }
    }
}

/// What turning to the next message of `mid` adds to what was done.
proof fn lemma_performed_step(events: Seq<CalleeEventView>, mid: CalleeView)
    requires
        events.len() > 0,
        after(events) == turn_to_next(mid),
        operations(received(events)) == performed(events.drop_last()) + operations(mid.pending),
    ensures
        !(after(events).1 is Fail) ==> performed(events) + operations(after(events).0.pending)
            == operations(received(events)),
        performed(events).is_prefix_of(operations(received(events))),
{
    let before = events.drop_last();
    let (state, action) = after(events);
    lemma_turn_performs(mid);
    if is_operation(action) {
        assert(performed(events) + operations(state.pending) =~= performed(before) + operations(
            mid.pending,
        ));
    }
    assert(performed(before).is_prefix_of(performed(before) + operations(mid.pending)));
    assert(performed(events).is_prefix_of(performed(events) + operations(state.pending)));
}

/// Two runs that have been told the same have done the same, however the
/// messages were put together.
pub proof fn law_grouping_does_not_matter(a: Seq<CalleeEventView>, b: Seq<CalleeEventView>)
    requires
        possible(a),
        possible(b),
        received(a) == received(b),
        after(a).1 is NextControl || after(a).1 is Finish,
        after(b).1 is NextControl || after(b).1 is Finish,
    ensures
        performed(a) == performed(b),
{
    law_does_as_told(a);
    law_does_as_told(b);
}

/// What happened in the course of `events` other than that messages came: how
/// each thing that the callee was told to do ended.
pub open spec fn answers(events: Seq<CalleeEventView>) -> Seq<CalleeEventView>
    decreases events.len(),
{
    if events.len() == 0 {
        Seq::empty()
    } else if events.last() is Control {
        answers(events.drop_last())
    } else {
        answers(events.drop_last()).push(events.last())
    }
}

/// How many messages the callee has turned to in the course of `events`.
pub open spec fn turned_to(events: Seq<CalleeEventView>) -> int {
    received(events).len() - after(events).0.pending.len()
}

/// Whether the callee has done all that it was told so far.
pub open spec fn has_done_all(events: Seq<CalleeEventView>) -> bool {
    after(events).1 is NextControl || after(events).1 is Finish
}

/// The state of a callee that is given `messages` all together at the beginning,
/// after `answers`, and what it does next.
spec fn at_once(messages: Seq<ControlOf<Seq<char>>>, answers: Seq<CalleeEventView>) -> (
    CalleeView,
    CalleeActionOf<Seq<char>>,
)
    decreases answers.len(),
{
    if answers.len() == 0 {
        turn_to_next(CalleeView { pending: messages, ..new_callee() })
    } else {
        next(at_once(messages, answers.drop_last()).0, answers.last())
    }
}

/// Whether `answers` can happen, one after the other, to a callee that is given
/// `messages` all together.
spec fn possible_at_once(
    messages: Seq<ControlOf<Seq<char>>>,
    answers: Seq<CalleeEventView>,
) -> bool
    decreases answers.len(),
{
    answers.len() > 0 ==> {
        &&& possible_at_once(messages, answers.drop_last())
        &&& !(answers.last() is Control)
        &&& awaits(at_once(messages, answers.drop_last()).0.stage, answers.last())
    }
}

/// A callee that is at `reached`, had it been given `more` messages as well.
spec fn with_more(
    reached: (CalleeView, CalleeActionOf<Seq<char>>),
    more: Seq<ControlOf<Seq<char>>>,
) -> (CalleeView, CalleeActionOf<Seq<char>>) {
    if reached.1 is NextControl {
        turn_to_next(CalleeView { pending: more, ..reached.0 })
    } else {
        (CalleeView { pending: reached.0.pending + more, ..reached.0 }, reached.1)
    }
}

/// More messages behind those that are pending do not change what the callee
/// turns to.
proof fn lemma_turn_with_more(state: CalleeView, more: Seq<ControlOf<Seq<char>>>)
    ensures
        turn_to_next(CalleeView { pending: state.pending + more, ..state }) == with_more(
            turn_to_next(state),
            more,
        ),
{
    if state.pending.len() == 0 {
        assert(state.pending + more =~= more);
    } else {
        assert((state.pending + more).drop_first() =~= state.pending.drop_first() + more);
    }
}

/// A callee that is given more messages at the beginning does the same with the
/// same answers.
proof fn lemma_at_once_with_more(
    messages: Seq<ControlOf<Seq<char>>>,
    more: Seq<ControlOf<Seq<char>>>,
    answers: Seq<CalleeEventView>,
)
    requires
        possible_at_once(messages, answers),
    ensures
        at_once(messages, answers).0.stage is Control <==> at_once(
            messages,
            answers,
        ).1 is NextControl,
        at_once(messages, answers).1 is Fail ==> at_once(messages, answers).0.stage is Over,
        possible_at_once(messages + more, answers),
        at_once(messages + more, answers) == with_more(at_once(messages, answers), more),
    decreases answers.len(),
{
    if answers.len() == 0 {
        lemma_turn_with_more(CalleeView { pending: messages, ..new_callee() }, more);
    } else {
        let before = answers.drop_last();
        lemma_at_once_with_more(messages, more, before);
        lemma_turn_with_more(at_once(messages, before).0, more);
    }
}

/// However the messages came, the callee is where it would be had they come all
/// together at the beginning.
proof fn lemma_as_if_at_once(events: Seq<CalleeEventView>)
    requires
        possible(events),
    ensures
        possible_at_once(received(events), answers(events)),
        after(events).1 is Finish ==> at_once(received(events), answers(events)).1 is NextControl,
        !(after(events).1 is Finish) ==> at_once(received(events), answers(events)) == after(
            events,
        ),
    decreases events.len(),
{
    if events.len() == 0 {
        assert(turn_to_next(CalleeView { pending: Seq::empty(), ..new_callee() }) == after(events));
    } else {
        let before = events.drop_last();
        lemma_as_if_at_once(before);
        lemma_stage(before);
        match events.last() {
            CalleeEventOf::Control(Some(messages)) => {
                lemma_at_once_with_more(received(before), messages, answers(before));
            },
            CalleeEventOf::Control(None) => {},
            _ => {
                assert(answers(events).drop_last() =~= answers(before));
            },
        }
    }
}

/// Each thing that the callee was told to do ends with one answer.
proof fn lemma_answers_are_counted(events: Seq<CalleeEventView>)
    requires
        possible(events),
    ensures
        performed(events).len() == answers(events).len() + if is_operation(after(events).1) {
            1int
        } else {
            0int
        },
    decreases events.len(),
{
    if events.len() > 0 {
        lemma_answers_are_counted(events.drop_last());
        lemma_stage(events.drop_last());
    }
}

/// Of two lists at the front of a third, the shorter is at the front of the other.
proof fn lemma_prefixes<A>(a: Seq<A>, b: Seq<A>, whole: Seq<A>)
    requires
        a.is_prefix_of(whole),
        b.is_prefix_of(whole),
        a.len() <= b.len(),
    ensures
        a.is_prefix_of(b),
        a.len() == b.len() ==> a == b,
{
    assert forall|i: int| 0 <= i < a.len() implies a[i] == b[i] by {
        assert(a[i] == whole[i]);
        assert(b[i] == whole[i]);
    }
    assert(a =~= b.take(a.len() as int));
    if a.len() == b.len() {
        assert(a =~= b);
    }
}

/// Two callees that get the same answers do the same, however the messages were
/// put together and also if they give up.  If the messages that came to one are
/// the first of those that came to the other, it has either done all that it was
/// told, and the other has done that much, or both have turned to the same
/// message and do the same about it; in particular both give up there, for the
/// same reason, or neither does.
pub proof fn law_same_answers_same_run(a: Seq<CalleeEventView>, b: Seq<CalleeEventView>)
    requires
        possible(a),
        possible(b),
        answers(a) == answers(b),
        received(a).is_prefix_of(received(b)),
    ensures
        performed(a).is_prefix_of(performed(b)),
        !has_done_all(a) ==> {
            &&& after(b).1 == after(a).1
            &&& performed(b) == performed(a)
            &&& turned_to(b) == turned_to(a)
        },
        after(a).1 is Fail ==> after(b).1 == after(a).1,
        after(b).1 is Fail ==> has_done_all(a) || after(a).1 == after(b).1,
        received(a) == received(b) ==> {
            &&& has_done_all(a) <==> has_done_all(b)
            &&& performed(b) == performed(a)
            &&& turned_to(b) == turned_to(a)
        },
{
    let more = received(b).skip(received(a).len() as int);
    assert(received(b) =~= received(a) + more);
    lemma_as_if_at_once(a);
    lemma_as_if_at_once(b);
    lemma_stage(a);
    lemma_stage(b);
    lemma_at_once_with_more(received(a), more, answers(a));
    lemma_answers_are_counted(a);
    lemma_answers_are_counted(b);
    law_does_as_told(a);
    law_does_as_told(b);
    assert(operations(received(a)).is_prefix_of(operations(received(b)))) by {
        assert(operations(received(b)) =~= operations(received(a)) + operations(more));
        assert(operations(received(a)) =~= operations(received(b)).take(
            operations(received(a)).len() as int,
        ));
    }
    assert(performed(a).is_prefix_of(operations(received(b)))) by {
        assert(performed(a) =~= operations(received(b)).take(performed(a).len() as int));
    }
    if received(a) == received(b) {
        assert(received(a) + Seq::empty() =~= received(b));
        lemma_at_once_with_more(received(a), Seq::empty(), answers(a));
    }
    lemma_prefixes(performed(a), performed(b), operations(received(b)));
}

/// Of answers that can happen, the first ones can, and the next is awaited then.
proof fn lemma_first_answers(
    messages: Seq<ControlOf<Seq<char>>>,
    answers: Seq<CalleeEventView>,
    n: int,
)
    requires
        possible_at_once(messages, answers),
        0 <= n < answers.len(),
    ensures
        possible_at_once(messages, answers.take(n)),
        !(answers[n] is Control),
        awaits(at_once(messages, answers.take(n)).0.stage, answers[n]),
    decreases answers.len(),
{
    if n == answers.len() - 1 {
        assert(answers.take(n) =~= answers.drop_last());
    } else {
        lemma_first_answers(messages, answers.drop_last(), n);
        assert(answers.drop_last().take(n) =~= answers.take(n));
    }
}

/// Two callees that are told the same by callers that answer the same come to the
/// same end, however the messages were put together: they have done the same, and
/// they give up at the same message and for the same reason, or neither does.  If
/// one gives up, another that is told more gives up there as well.
pub proof fn law_same_inputs_same_end(a: Seq<CalleeEventView>, b: Seq<CalleeEventView>)
    requires
        possible(a),
        possible(b),
        received(a).is_prefix_of(received(b)),
        answers(a).is_prefix_of(answers(b)) || answers(b).is_prefix_of(answers(a)),
        has_done_all(a) || after(a).1 is Fail,
        has_done_all(b) || after(b).1 is Fail,
    ensures
        received(a) == received(b) || after(a).1 is Fail ==> {
            &&& answers(b) == answers(a)
            &&& performed(b) == performed(a)
            &&& turned_to(b) == turned_to(a)
            &&& after(a).1 is Fail <==> after(b).1 is Fail
            &&& after(a).1 is Fail ==> after(b).1 == after(a).1
        },
{
    if received(a) == received(b) || after(a).1 is Fail {
        let more = received(b).skip(received(a).len() as int);
        assert(received(b) =~= received(a) + more);
        lemma_as_if_at_once(a);
        lemma_as_if_at_once(b);
        lemma_at_once_with_more(received(a), more, answers(a));
        lemma_at_once_with_more(received(b), Seq::empty(), answers(b));
        if answers(a).len() < answers(b).len() {
            let n = answers(a).len() as int;
            lemma_first_answers(received(b), answers(b), n);
            assert(answers(b).take(n) =~= answers(a));
            assert(received(a) == received(b) ==> more =~= Seq::empty());
        } else if answers(b).len() < answers(a).len() {
            let n = answers(b).len() as int;
            lemma_first_answers(received(a), answers(a), n);
            assert(answers(a).take(n) =~= answers(b));
            lemma_at_once_with_more(received(a), more, answers(b));
        }
        assert(answers(a) =~= answers(b));
        law_same_answers_same_run(a, b);
    }
}

/// The second pair of futures is held until there are no more messages and is
/// dropped then: nothing that the callee does before has to do with it.
pub proof fn law_second_futures_are_untouched(events: Seq<CalleeEventView>)
    requires
        possible(events),
    ensures
        after(events).0.second_futures <==> !(after(events).1 is Finish),
        after(events).1 is Finish <==> events.len() > 0 && events.last()
            == CalleeEventView::Control(None),
        !(after(events).1 is Finish) ==> is_operation(after(events).1)
            || after(events).1 is NextControl || after(events).1 is Fail,
    decreases events.len(),
{
    if events.len() > 0 {
        law_second_futures_are_untouched(events.drop_last());
        lemma_stage(events.drop_last());
    }
}

/// What the callee does is what it is in the middle of, and a callee that waits
/// for messages or has ended has none pending.
proof fn lemma_stage(events: Seq<CalleeEventView>)
    requires
        possible(events),
    ensures
        ({
            let (state, action) = after(events);
            &&& state.stage is Control <==> action is NextControl
            &&& state.stage is Stream <==> action is NextStream
            &&& state.stage is Future <==> action is ReadFuture
            &&& state.stage is Sending <==> action is SendStream
            &&& state.stage is Writing <==> action is WriteFuture
            &&& state.stage is Over <==> action is Finish || action is Fail
            &&& state.stage is Control || action is Finish ==> state.pending.len() == 0
        }),
    decreases events.len(),
{
    if events.len() > 0 {
        lemma_stage(events.drop_last());
    }
}

/// The caller's future is read at most once and the callee's future is written
/// at most once, and the callee knows whether it has done so.
pub proof fn law_futures_are_used_once(events: Seq<CalleeEventView>)
    requires
        possible(events),
    ensures
        times(performed(events), |a: CalleeActionOf<Seq<char>>| a is ReadFuture) == if after(
            events,
        ).0.future_rx {
            0nat
        } else {
            1nat
        },
        times(performed(events), |a: CalleeActionOf<Seq<char>>| a is WriteFuture) == if after(
            events,
        ).0.future_tx {
            0nat
        } else {
            1nat
        },
    decreases events.len(),
{
    if events.len() > 0 {
        law_futures_are_used_once(events.drop_last());
        lemma_stage(events.drop_last());
        let done = performed(events.drop_last());
        let action = after(events).1;
        assert(done.push(action).drop_last() =~= done);
    }
}

/// Where the callee gets values from.
pub enum Source {
    /// The caller's stream.
    Stream,
    /// The caller's future.
    Future,
}

/// The value that a message announces on `source`, if any.
pub open spec fn announced_by(source: Source, message: ControlOf<Seq<char>>) -> Seq<Seq<char>> {
    match (source, message) {
        (Source::Stream, ControlOf::ReadStream(value)) => seq![value],
        (Source::Future, ControlOf::ReadFuture(value)) => seq![value],
        _ => Seq::empty(),
    }
}

/// The values that `messages` announce on `source`, in order.
pub open spec fn announced(source: Source, messages: Seq<ControlOf<Seq<char>>>) -> Seq<Seq<char>>
    decreases messages.len(),
{
    if messages.len() == 0 {
        Seq::empty()
    } else {
        announced(source, messages.drop_last()) + announced_by(source, messages.last())
    }
}

/// The values that an event brings from `source`.
pub open spec fn brought_by(source: Source, event: CalleeEventView) -> Seq<Seq<char>> {
    match (source, event) {
        (Source::Stream, CalleeEventOf::Stream(Some(values))) => values,
        (Source::Future, CalleeEventOf::Future(Some(value))) => seq![value],
        _ => Seq::empty(),
    }
}

/// The values that came from `source` in the course of `events`.
pub open spec fn seen(source: Source, events: Seq<CalleeEventView>) -> Seq<Seq<char>>
    decreases events.len(),
{
    if events.len() == 0 {
        Seq::empty()
    } else {
        seen(source, events.drop_last()) + brought_by(source, events.last())
    }
}

/// The value that a callee at `stage` expects from `source`.
spec fn due(source: Source, stage: StageOf<Seq<char>>) -> Seq<Seq<char>> {
    match (source, stage) {
        (Source::Stream, StageOf::Stream(value)) => seq![value],
        (Source::Future, StageOf::Future(value)) => seq![value],
        _ => Seq::empty(),
    }
}

/// What two lists announce, their concatenation announces.
proof fn lemma_announced_concat(
    source: Source,
    a: Seq<ControlOf<Seq<char>>>,
    b: Seq<ControlOf<Seq<char>>>,
)
    ensures
        announced(source, a + b) == announced(source, a) + announced(source, b),
    decreases b.len(),
{
    if b.len() == 0 {
        assert(a + b =~= a);
    } else {
        assert((a + b).drop_last() =~= a + b.drop_last());
        lemma_announced_concat(source, a, b.drop_last());
    }
    assert(announced(source, a + b) =~= announced(source, a) + announced(source, b));
}

/// Turning to the next message moves what it announces from the pending values
/// to those that are due.
proof fn lemma_turn_announces(source: Source, state: CalleeView)
    requires
        !(turn_to_next(state).1 is Fail),
    ensures
        ({
            let after = turn_to_next(state).0;
            due(source, after.stage) + announced(source, after.pending) == announced(
                source,
                state.pending,
            )
        }),
{
    let after = turn_to_next(state).0;
    if state.pending.len() == 0 {
        assert(after.pending == state.pending);
        assert(due(source, after.stage) + announced(source, after.pending) =~= announced(
            source,
            state.pending,
        ));
    } else {
        let head = seq![state.pending.first()];
        assert(state.pending =~= head + state.pending.drop_first());
        lemma_announced_concat(source, head, state.pending.drop_first());
        assert(announced(source, head.drop_last()) =~= Seq::empty());
        assert(announced(source, head) =~= announced_by(source, state.pending.first()));
        assert(due(source, after.stage) == announced_by(source, state.pending.first()));
    }
}

/// What was seen, what is due and what is pending are what was announced.
proof fn lemma_values(source: Source, events: Seq<CalleeEventView>)
    requires
        possible(events),
        !(after(events).1 is Fail),
    ensures
        seen(source, events) + (due(source, after(events).0.stage) + announced(
            source,
            after(events).0.pending,
        )) == announced(source, received(events)),
    decreases events.len(),
{
    if events.len() == 0 {
        assert(seen(source, events) + (due(source, after(events).0.stage) + announced(
            source,
            after(events).0.pending,
        )) =~= announced(source, received(events)));
    } else {
        let before = events.drop_last();
        let was = after(before).0;
        lemma_stage(before);
        lemma_values(source, before);
        match events.last() {
            CalleeEventOf::Control(Some(messages)) => {
                lemma_announced_concat(source, received(before), messages);
                assert(seen(source, before) =~= announced(source, received(before)));
                assert(seen(source, events) =~= seen(source, before));
                lemma_turn_announces(source, CalleeView { pending: messages, ..was });
            },
            CalleeEventOf::Control(None) => {
                assert(seen(source, events) =~= seen(source, before));
            },
            _ => {
                assert(brought_by(source, events.last()) =~= due(source, was.stage));
                assert(seen(source, events) + announced(source, was.pending) =~= seen(
                    source,
                    before,
                ) + (due(source, was.stage) + announced(source, was.pending)));
                lemma_turn_announces(source, was);
            },
        }
    }
}

/// A callee that has done all it was told has seen on the caller's stream, and
/// from the caller's future, the values that the messages announced, all of them
/// and in order.
pub proof fn law_values_are_as_announced(source: Source, events: Seq<CalleeEventView>)
    requires
        possible(events),
        after(events).1 is NextControl || after(events).1 is Finish,
    ensures
        seen(source, events) == announced(source, received(events)),
{
    lemma_stage(events);
    lemma_values(source, events);
    assert(seen(source, events) + (due(source, after(events).0.stage) + announced(
        source,
        after(events).0.pending,
    )) =~= seen(source, events));
}

/// Whether one of the first `n` messages has to do with the caller's future.
spec fn reads_future(messages: Seq<ControlOf<Seq<char>>>, n: int) -> bool {
    exists|j: int| 0 <= j < n && #[trigger] messages[j] is ReadFuture
}

/// Whether one of the first `n` messages has to do with the callee's future.
spec fn writes_future(messages: Seq<ControlOf<Seq<char>>>, n: int) -> bool {
    exists|j: int| 0 <= j < n && #[trigger] messages[j] is WriteFuture
}

/// Whether `answer` is how what `message` says should end.
spec fn ends_well(message: ControlOf<Seq<char>>, answer: CalleeEventView) -> bool {
    match (message, answer) {
        (ControlOf::ReadStream(value), CalleeEventOf::Stream(values)) => values == Some(
            seq![value],
        ),
        (ControlOf::ReadFuture(value), CalleeEventOf::Future(got)) => got == Some(value),
        (ControlOf::WriteStream(_), CalleeEventOf::Sent(ok)) => ok,
        (ControlOf::WriteFuture(_), CalleeEventOf::Written) => true,
        _ => false,
    }
}

/// Whether a callee that has done the first `n` of `messages` and turned to the
/// next, if there is one, is at `reached`.
spec fn has_turned(
    messages: Seq<ControlOf<Seq<char>>>,
    n: int,
    reached: (CalleeView, CalleeActionOf<Seq<char>>),
) -> bool {
    let (state, action) = reached;
    &&& 0 <= n <= messages.len()
    &&& n == messages.len() ==> {
        &&& action is NextControl
        &&& state.stage is Control
        &&& state.pending.len() == 0
        &&& state.future_rx == !reads_future(messages, n)
        &&& state.future_tx == !writes_future(messages, n)
    }
    &&& n < messages.len() ==> {
        &&& match messages[n] {
            ControlOf::ReadStream(value) => action is NextStream && state.stage
                == StageOf::Stream(value),
            ControlOf::ReadFuture(value) => if reads_future(messages, n) {
                action == CalleeActionOf::<Seq<char>>::Fail(CalleeError::FutureAlreadyRead)
            } else {
                action is ReadFuture && state.stage == StageOf::Future(value)
            },
            ControlOf::WriteStream(value) => action == CalleeActionOf::SendStream(value)
                && state.stage is Sending,
            ControlOf::WriteFuture(value) => if writes_future(messages, n) {
                action == CalleeActionOf::<Seq<char>>::Fail(CalleeError::FutureAlreadyWritten)
            } else {
                action == CalleeActionOf::WriteFuture(value) && state.stage is Writing
            },
        }
        &&& action is Fail ==> state.stage is Over
        &&& !(action is Fail) ==> {
            &&& state.pending == messages.skip(n + 1)
            &&& state.future_rx == !reads_future(messages, n + 1)
            &&& state.future_tx == !writes_future(messages, n + 1)
        }
    }
}

/// Turning to the next message of those that are left leads where it should.
proof fn lemma_turns(state: CalleeView, messages: Seq<ControlOf<Seq<char>>>, n: int)
    requires
        0 <= n <= messages.len(),
        state.pending == messages.skip(n),
        state.future_rx == !reads_future(messages, n),
        state.future_tx == !writes_future(messages, n),
    ensures
        has_turned(messages, n, turn_to_next(state)),
{
    if n < messages.len() {
        assert(state.pending.first() == messages[n]);
        assert(state.pending.drop_first() =~= messages.skip(n + 1));
        assert(messages[n] is ReadFuture ==> reads_future(messages, n + 1));
        assert(messages[n] is WriteFuture ==> writes_future(messages, n + 1));
        assert(reads_future(messages, n) ==> reads_future(messages, n + 1)) by {
            if reads_future(messages, n) {
                let j = choose|j: int| 0 <= j < n && #[trigger] messages[j] is ReadFuture;
                assert(messages[j] is ReadFuture);
            }
        }
        assert(writes_future(messages, n) ==> writes_future(messages, n + 1)) by {
            if writes_future(messages, n) {
                let j = choose|j: int| 0 <= j < n && #[trigger] messages[j] is WriteFuture;
                assert(messages[j] is WriteFuture);
            }
        }
    }
}

/// What more messages do not change.
proof fn lemma_more_messages(
    messages: Seq<ControlOf<Seq<char>>>,
    more: Seq<ControlOf<Seq<char>>>,
)
    ensures
        reads_future(messages + more, messages.len() as int) == reads_future(
            messages,
            messages.len() as int,
        ),
        writes_future(messages + more, messages.len() as int) == writes_future(
            messages,
            messages.len() as int,
        ),
{
    let all = messages + more;
    let n = messages.len() as int;
    assert(forall|j: int| 0 <= j < n ==> all[j] == messages[j]);
    if reads_future(all, n) {
        let j = choose|j: int| 0 <= j < n && #[trigger] all[j] is ReadFuture;
        assert(messages[j] is ReadFuture);
    }
    if reads_future(messages, n) {
        let j = choose|j: int| 0 <= j < n && #[trigger] messages[j] is ReadFuture;
        assert(all[j] is ReadFuture);
    }
    if writes_future(all, n) {
        let j = choose|j: int| 0 <= j < n && #[trigger] all[j] is WriteFuture;
        assert(messages[j] is WriteFuture);
    }
    if writes_future(messages, n) {
        let j = choose|j: int| 0 <= j < n && #[trigger] messages[j] is WriteFuture;
        assert(all[j] is WriteFuture);
    }
}

/// Where a callee is, by the messages and the answers that came.
proof fn lemma_where_it_is(events: Seq<CalleeEventView>)
    requires
        possible(events),
    ensures
        ({
            let messages = received(events);
            let ends = answers(events);
            let n = ends.len() as int;
            let (state, action) = after(events);
            &&& n <= messages.len()
            &&& forall|i: int| 0 <= i < n - 1 ==> ends_well(messages[i], #[trigger] ends[i])
            &&& n == 0 || ends_well(messages[n - 1], ends[n - 1]) ==> {
                ||| has_turned(messages, n, (state, action))
                ||| action is Finish && n == messages.len() && state.stage is Over
                    && events.last() == CalleeEventView::Control(None)
            }
            &&& n > 0 && !ends_well(messages[n - 1], ends[n - 1]) ==> {
                &&& state.stage is Over
                &&& events.last() == ends[n - 1]
                &&& action == CalleeActionOf::<Seq<char>>::Fail(
                    match messages[n - 1] {
                        ControlOf::ReadStream(_) => CalleeError::StreamMismatch,
                        ControlOf::ReadFuture(_) => CalleeError::FutureMismatch,
                        _ => CalleeError::StreamClosed,
                    },
                )
                &&& messages[n - 1] is ReadStream <==> ends[n - 1] is Stream
                &&& messages[n - 1] is ReadFuture <==> ends[n - 1] is Future
                &&& messages[n - 1] is WriteStream <==> ends[n - 1] is Sent
                &&& !(messages[n - 1] is WriteFuture)
            }
        }),
    decreases events.len(),
{
    if events.len() > 0 {
        let before = events.drop_last();
        let was = after(before).0;
        let n = answers(before).len() as int;
        lemma_where_it_is(before);
        match events.last() {
            CalleeEventOf::Control(Some(more)) => {
                let messages = received(events);
                lemma_more_messages(received(before), more);
                assert(messages.skip(n) =~= more);
                lemma_turns(CalleeView { pending: more, ..was }, messages, n);
            },
            CalleeEventOf::Control(None) => {},
            _ => {
                let messages = received(events);
                assert(answers(events) =~= answers(before).push(events.last()));
                assert forall|i: int| 0 <= i < n implies ends_well(
                    messages[i],
                    #[trigger] answers(events)[i],
                ) by {
                    assert(answers(before)[i] == answers(events)[i]);
                }
                if ends_well(messages[n], events.last()) {
                    lemma_turns(was, messages, n + 1);
                }
            },
        }
    } else {
        assert(!reads_future(received(events), 0));
        assert(!writes_future(received(events), 0));
    }
}

/// What a callee does is settled by the messages and the answers that came, the
/// order of the messages being any.  As long as every answer is as announced it
/// turns to the message after those that have been answered, and does what that
/// message says unless it asks for a future again; it waits if there is no such
/// message, and ends if there will be none.
pub proof fn law_does_what_is_next(events: Seq<CalleeEventView>)
    requires
        possible(events),
        forall|i: int|
            0 <= i < answers(events).len() ==> match received(events)[i] {
                ControlOf::ReadStream(value) => (#[trigger] answers(events)[i])
                    == CalleeEventView::Stream(Some(seq![value])),
                ControlOf::ReadFuture(value) => answers(events)[i] == CalleeEventView::Future(
                    Some(value),
                ),
                ControlOf::WriteStream(_) => answers(events)[i] == CalleeEventView::Sent(true),
                ControlOf::WriteFuture(_) => answers(events)[i] is Written,
            },
    ensures
        ({
            let messages = received(events);
            let n = answers(events).len() as int;
            let action = after(events).1;
            &&& n <= messages.len()
            &&& n == messages.len() ==> if events.len() > 0 && events.last()
                == CalleeEventView::Control(None) {
                action is Finish
            } else {
                action is NextControl
            }
            &&& n < messages.len() ==> match messages[n] {
                ControlOf::ReadStream(_) => action is NextStream,
                ControlOf::WriteStream(value) => action == CalleeActionOf::SendStream(value),
                ControlOf::ReadFuture(_) => action == if exists|j: int|
                    0 <= j < n && #[trigger] messages[j] is ReadFuture {
                    CalleeActionOf::<Seq<char>>::Fail(CalleeError::FutureAlreadyRead)
                } else {
                    CalleeActionOf::ReadFuture
                },
                ControlOf::WriteFuture(value) => action == if exists|j: int|
                    0 <= j < n && #[trigger] messages[j] is WriteFuture {
                    CalleeActionOf::<Seq<char>>::Fail(CalleeError::FutureAlreadyWritten)
                } else {
                    CalleeActionOf::WriteFuture(value)
                },
            }
        }),
{
    lemma_where_it_is(events);
    law_second_futures_are_untouched(events);
    let n = answers(events).len() as int;
    if n > 0 {
        assert(answers(events)[n - 1] == answers(events)[n - 1]);
    }
}

/// A callee gives up only for a reason, and for that reason: because what came on
/// the caller's stream was not the announced value alone, because the caller's
/// future did not give the announced value, because a value could not be sent, or
/// because a future was to be used again.
pub proof fn law_gives_up_only_for_a_reason(events: Seq<CalleeEventView>)
    requires
        possible(events),
        after(events).1 is Fail,
    ensures
        ({
            let messages = received(events);
            let ends = answers(events);
            let n = ends.len() as int;
            match after(events).1->Fail_0 {
                CalleeError::StreamMismatch => {
                    &&& n > 0 && events.last() == ends[n - 1]
                    &&& messages[n - 1] matches ControlOf::ReadStream(value)
                        && ends[n - 1] matches CalleeEventOf::Stream(values)
                        && values != Some(seq![value])
                },
                CalleeError::FutureMismatch => {
                    &&& n > 0 && events.last() == ends[n - 1]
                    &&& messages[n - 1] matches ControlOf::ReadFuture(value)
                        && ends[n - 1] matches CalleeEventOf::Future(got) && got != Some(value)
                },
                CalleeError::StreamClosed => {
                    &&& n > 0 && events.last() == ends[n - 1]
                    &&& messages[n - 1] is WriteStream
                    &&& ends[n - 1] == CalleeEventView::Sent(false)
                },
                CalleeError::FutureAlreadyRead => {
                    &&& n < messages.len() && messages[n] is ReadFuture
                    &&& exists|j: int| 0 <= j < n && #[trigger] messages[j] is ReadFuture
                },
                CalleeError::FutureAlreadyWritten => {
                    &&& n < messages.len() && messages[n] is WriteFuture
                    &&& exists|j: int| 0 <= j < n && #[trigger] messages[j] is WriteFuture
                },
            }
        }),
{
    lemma_where_it_is(events);
}

/// A callee gives up whenever there is a reason to: at an answer that is not as
/// announced it fails, whatever went before.
pub proof fn law_no_mismatch_is_passed_over(events: Seq<CalleeEventView>)
    requires
        possible(events),
        events.len() > 0,
        !(events.last() is Control),
    ensures
        ({
            let n = answers(events).len() as int;
            let message = received(events)[n - 1];
            let action = after(events).1;
            &&& 0 < n <= received(events).len()
            &&& match message {
                ControlOf::ReadStream(value) => events.last() == CalleeEventView::Stream(
                    Some(seq![value]),
                ) || action == CalleeActionOf::<Seq<char>>::Fail(CalleeError::StreamMismatch),
                ControlOf::ReadFuture(value) => events.last() == CalleeEventView::Future(
                    Some(value),
                ) || action == CalleeActionOf::<Seq<char>>::Fail(CalleeError::FutureMismatch),
                _ => true,
            }
            &&& events.last() == CalleeEventView::Sent(false) ==> action == CalleeActionOf::<
                Seq<char>,
            >::Fail(CalleeError::StreamClosed)
        }),
{
    lemma_where_it_is(events);
}

/// However a thing that the callee does may end, the callee takes it.
pub proof fn law_every_answer_is_taken(events: Seq<CalleeEventView>, event: CalleeEventView)
    requires
        possible(events),
    ensures
        possible(events.push(event)) <==> match event {
            CalleeEventOf::Control(_) => after(events).1 is NextControl,
            CalleeEventOf::Stream(_) => after(events).1 is NextStream,
            CalleeEventOf::Future(_) => after(events).1 is ReadFuture,
            CalleeEventOf::Sent(_) => after(events).1 is SendStream,
            CalleeEventOf::Written => after(events).1 is WriteFuture,
        },
{
    lemma_stage(events);
    assert(events.push(event).drop_last() =~= events);
}

/// The views of what is handed to and from a callee keep all of it, one for one.
pub proof fn law_views_are_faithful(
    event: CalleeEvent,
    action: CalleeAction,
    messages: Seq<Control>,
    strings: Seq<String>,
)
    ensures
        control_views(messages).len() == messages.len(),
        forall|i: int|
            0 <= i < messages.len() ==> match #[trigger] messages[i] {
                ControlOf::ReadStream(s) => control_views(messages)[i] == ControlOf::ReadStream(s@),
                ControlOf::ReadFuture(s) => control_views(messages)[i] == ControlOf::ReadFuture(s@),
                ControlOf::WriteStream(s) => control_views(messages)[i] == ControlOf::WriteStream(
                    s@,
                ),
                ControlOf::WriteFuture(s) => control_views(messages)[i] == ControlOf::WriteFuture(
                    s@,
                ),
            },
        string_views(strings).len() == strings.len(),
        forall|i: int|
            0 <= i < strings.len() ==> string_views(strings)[i] == (#[trigger] strings[i])@,
        match event {
            CalleeEventOf::Control(Some(m)) => event@ == CalleeEventView::Control(
                Some(control_views(m@)),
            ),
            CalleeEventOf::Control(None) => event@ == CalleeEventView::Control(None),
            CalleeEventOf::Stream(Some(v)) => event@ == CalleeEventView::Stream(
                Some(string_views(v@)),
            ),
            CalleeEventOf::Stream(None) => event@ == CalleeEventView::Stream(None),
            CalleeEventOf::Future(Some(v)) => event@ == CalleeEventView::Future(Some(v@)),
            CalleeEventOf::Future(None) => event@ == CalleeEventView::Future(None),
            CalleeEventOf::Sent(ok) => event@ == CalleeEventView::Sent(ok),
            CalleeEventOf::Written => event@ is Written,
        },
        match action {
            CalleeActionOf::SendStream(s) => action@ == CalleeActionOf::SendStream(s@),
            CalleeActionOf::WriteFuture(s) => action@ == CalleeActionOf::WriteFuture(s@),
            CalleeActionOf::Fail(e) => action@ == CalleeActionOf::<Seq<char>>::Fail(e),
            CalleeActionOf::NextControl => action@ is NextControl,
            CalleeActionOf::NextStream => action@ is NextStream,
            CalleeActionOf::ReadFuture => action@ is ReadFuture,
            CalleeActionOf::Finish => action@ is Finish,
        },
{
}

} // verus!
