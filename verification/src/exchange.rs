//! A caller and a callee together.
//!
//! Nothing here is executable: the two sides are put together as they are, with
//! streams and futures between them, and every way in which they can take turns
//! is looked at.
//!
//! A write ends when the other side has taken the value, and a read when there
//! is a value to take or the other side has dropped its end.  The callee returns
//! its ends before it waits for anything, so its result is there from the
//! beginning; it is handed to the caller before the end of the write to the
//! caller's future is.  Other than that the ends of operations are handed over
//! in any order.
use vstd::prelude::*;

#[allow(unused_imports)]
use crate::callee::{
    new_callee, CalleeActionOf, CalleeEventOf, CalleeEventView, CalleeView, ControlOf, StageOf,
};
#[allow(unused_imports)]
use crate::caller::{
    first_commands, new_caller, Caller, CallerError, CallerEventOf, CallerEventView, CommandOf, Letter,
};

verus! {

/// The stream of control messages, as the caller writes it.
pub enum ControlLane {
    /// Nothing is being written.
    Idle,
    /// A message waits to be taken.
    Offered(Letter, ControlOf<Seq<char>>),
    /// A message was taken, and the caller has not been told.
    Taken(Letter),
    /// There will be no more.
    Closed,
}

/// The caller's stream or its future, as the caller writes it.
pub enum ValueLane {
    /// Nothing is being written.
    Idle,
    /// A value waits to be taken.
    Offered(Seq<char>),
    /// The value was taken, and the caller has not been told.
    Taken,
    /// There will be no more.
    Closed,
}

/// The callee's stream and future, as the caller reads them.
pub enum ReadLane {
    /// Nothing is being read.
    Idle,
    /// The stream is being read.
    WantsC,
    /// The future is being read.
    WantsD,
    /// The stream is being read again.
    WantsNone,
    /// A read has ended, and the caller has not been told.
    Ended(CallerEventView),
}

/// Both sides and what is between them.
pub struct System {
    pub caller: Caller,
    /// Why the caller has given up, if it has.
    pub error: Option<CallerError>,
    pub callee: CalleeView,
    /// What the callee is doing.
    pub doing: CalleeActionOf<Seq<char>>,
    /// Whether the callee has returned and the caller has not been told.
    pub returned: bool,
    pub control: ControlLane,
    pub stream: ValueLane,
    pub future: ValueLane,
    pub read: ReadLane,
}

/// One of the sides goes on, or both do.
pub enum Move {
    /// The caller is handed the callee's result.
    HandResult,
    /// The caller is told that a control message was taken.
    HandControl,
    /// The caller is told that the value on its stream was taken.
    HandStream,
    /// The caller is told that the value of its future was taken.
    HandFuture,
    /// The caller is told how a read has ended.
    HandRead,
    /// The callee takes a control message, or learns that there are no more.
    TakeControl,
    /// The callee takes a value from the stream, or learns that there are no more.
    TakeStream,
    /// The callee takes the value of the future.
    TakeFuture,
    /// The callee passes a value to the caller on its stream.
    Send,
    /// The callee passes a value to the caller in its future.
    Write,
    /// A read of the caller ends because the callee has.
    Drop,
}

/// The caller does one thing.
pub open spec fn execute(s: System, command: CommandOf<Seq<char>>) -> System {
    match command {
        CommandOf::WriteControl(letter, message) => System {
            control: ControlLane::Offered(letter, message),
            ..s
        },
        CommandOf::CloseControl => System { control: ControlLane::Closed, ..s },
        CommandOf::WriteStream(value) => System { stream: ValueLane::Offered(value), ..s },
        CommandOf::CloseStream => System { stream: ValueLane::Closed, ..s },
        CommandOf::WriteFuture(value) => System { future: ValueLane::Offered(value), ..s },
        CommandOf::Call => System { returned: true, ..s },
        CommandOf::CloseSecondFuture => s,
        CommandOf::ReadC => System { read: ReadLane::WantsC, ..s },
        CommandOf::ReadD => System { read: ReadLane::WantsD, ..s },
        CommandOf::ReadNone => System { read: ReadLane::WantsNone, ..s },
    }
}

/// The caller does several things, one after the other.
pub open spec fn execute_all(s: System, commands: Seq<CommandOf<Seq<char>>>) -> System
    decreases commands.len(),
{
    if commands.len() == 0 {
        s
    } else {
        execute_all(execute(s, commands.first()), commands.drop_first())
    }
}

/// The caller is told of `event`.
pub open spec fn tell_caller(s: System, event: CallerEventView) -> System {
    match crate::caller::next(s.caller, event) {
        Ok((caller, commands)) => execute_all(System { caller, ..s }, commands),
        Err(error) => System { error: Some(error), ..s },
    }
}

/// `event` happens to the callee.
pub open spec fn tell_callee(s: System, event: CalleeEventView) -> System {
    let (callee, doing) = crate::callee::next(s.callee, event);
    System { callee, doing, ..s }
}

/// The beginning: the caller has done its first things, and the callee waits
/// for messages.
pub open spec fn initial() -> System {
    execute_all(
        System {
            caller: new_caller(),
            error: None,
            callee: new_callee(),
            doing: CalleeActionOf::NextControl,
            returned: false,
            control: ControlLane::Idle,
            stream: ValueLane::Idle,
            future: ValueLane::Idle,
            read: ReadLane::Idle,
        },
        first_commands(),
    )
}

/// Both sides after `m`, if it can be made.
pub open spec fn step(s: System, m: Move) -> Option<System> {
    if s.error is Some {
        None
    } else {
        match m {
            Move::HandResult => if s.returned {
                Some(tell_caller(System { returned: false, ..s }, CallerEventOf::Result))
            } else {
                None
            },
            Move::HandControl => match s.control {
                ControlLane::Taken(letter) => Some(
                    tell_caller(
                        System { control: ControlLane::Idle, ..s },
                        CallerEventOf::ControlWrite(letter),
                    ),
                ),
                _ => None,
            },
            Move::HandStream => if s.stream is Taken {
                Some(tell_caller(System { stream: ValueLane::Idle, ..s }, CallerEventOf::WriteA))
            } else {
                None
            },
            Move::HandFuture => if s.future is Taken && !s.returned {
                Some(tell_caller(System { future: ValueLane::Idle, ..s }, CallerEventOf::WriteB))
            } else {
                None
            },
            Move::HandRead => match s.read {
                ReadLane::Ended(event) => Some(
                    tell_caller(System { read: ReadLane::Idle, ..s }, event),
                ),
                _ => None,
            },
            Move::TakeControl => match (s.doing, s.control) {
                (CalleeActionOf::NextControl, ControlLane::Offered(letter, message)) => Some(
                    tell_callee(
                        System { control: ControlLane::Taken(letter), ..s },
                        CalleeEventOf::Control(Some(seq![message])),
                    ),
                ),
                (CalleeActionOf::NextControl, ControlLane::Closed) => Some(
                    tell_callee(s, CalleeEventOf::Control(None)),
                ),
                _ => None,
            },
            Move::TakeStream => match (s.doing, s.stream) {
                (CalleeActionOf::NextStream, ValueLane::Offered(value)) => Some(
                    tell_callee(
                        System { stream: ValueLane::Taken, ..s },
                        CalleeEventOf::Stream(Some(seq![value])),
                    ),
                ),
                (CalleeActionOf::NextStream, ValueLane::Closed) => Some(
                    tell_callee(s, CalleeEventOf::Stream(None)),
                ),
                _ => None,
            },
            Move::TakeFuture => match (s.doing, s.future) {
                (CalleeActionOf::ReadFuture, ValueLane::Offered(value)) => Some(
                    tell_callee(
                        System { future: ValueLane::Taken, ..s },
                        CalleeEventOf::Future(Some(value)),
                    ),
                ),
                _ => None,
            },
            Move::Send => match (s.doing, s.read) {
                (CalleeActionOf::SendStream(value), ReadLane::WantsC) => Some(
                    tell_callee(
                        System {
                            read: ReadLane::Ended(CallerEventOf::ReadC(Some(seq![value]))),
                            ..s
                        },
                        CalleeEventOf::Sent(true),
                    ),
                ),
                (CalleeActionOf::SendStream(value), ReadLane::WantsNone) => Some(
                    tell_callee(
                        System {
                            read: ReadLane::Ended(CallerEventOf::ReadNone(Some(seq![value]))),
                            ..s
                        },
                        CalleeEventOf::Sent(true),
                    ),
                ),
                _ => None,
            },
            Move::Write => match (s.doing, s.read) {
                (CalleeActionOf::WriteFuture(value), ReadLane::WantsD) => Some(
                    tell_callee(
                        System {
                            read: ReadLane::Ended(CallerEventOf::ReadD(Some(value))),
                            ..s
                        },
                        CalleeEventOf::Written,
                    ),
                ),
                _ => None,
            },
            Move::Drop => if s.doing is Finish || s.doing is Fail {
                match s.read {
                    ReadLane::WantsC => Some(
                        System { read: ReadLane::Ended(CallerEventOf::ReadC(None)), ..s },
                    ),
                    ReadLane::WantsD => Some(
                        System { read: ReadLane::Ended(CallerEventOf::ReadD(None)), ..s },
                    ),
                    ReadLane::WantsNone => Some(
                        System { read: ReadLane::Ended(CallerEventOf::ReadNone(None)), ..s },
                    ),
                    _ => None,
                }
            } else {
                None
            },
        }
    }
}

/// Both sides after `moves`, if they can be made one after the other.
pub open spec fn after(moves: Seq<Move>) -> Option<System>
    decreases moves.len(),
{
    if moves.len() == 0 {
        Some(initial())
    } else {
        match after(moves.drop_last()) {
            Some(s) => step(s, moves.last()),
            None => None,
        }
    }
}

/// How many moves an exchange takes.
pub open spec fn total_moves() -> nat {
    20
}

/// How far each part of an exchange has come.
struct Progress {
    /// The control messages: two for each, one when it is taken and one when the
    /// caller is told.
    control: int,
    /// The callee.
    callee: int,
    /// The caller's stream, then its future.
    write: int,
    /// The callee's stream, its future, its stream again.
    read: int,
    /// Whether the caller has the callee's result.
    result: bool,
}

spec fn control_at(n: int) -> ControlLane {
    if n == 0 {
        ControlLane::Offered(Letter::A, ControlOf::ReadStream("a"@))
    } else if n == 1 {
        ControlLane::Taken(Letter::A)
    } else if n == 2 {
        ControlLane::Offered(Letter::B, ControlOf::ReadFuture("b"@))
    } else if n == 3 {
        ControlLane::Taken(Letter::B)
    } else if n == 4 {
        ControlLane::Offered(Letter::C, ControlOf::WriteStream("c"@))
    } else if n == 5 {
        ControlLane::Taken(Letter::C)
    } else if n == 6 {
        ControlLane::Offered(Letter::D, ControlOf::WriteFuture("d"@))
    } else if n == 7 {
        ControlLane::Taken(Letter::D)
    } else {
        ControlLane::Closed
    }
}

spec fn callee_at(n: int) -> CalleeView {
    CalleeView {
        stage: if n == 1 {
            StageOf::Stream("a"@)
        } else if n == 3 {
            StageOf::Future("b"@)
        } else if n == 5 {
            StageOf::Sending
        } else if n == 7 {
            StageOf::Writing
        } else if n == 9 {
            StageOf::Over
        } else {
            StageOf::Control
        },
        pending: Seq::empty(),
        future_rx: n < 3,
        future_tx: n < 7,
        second_futures: n < 9,
    }
}

spec fn doing_at(n: int) -> CalleeActionOf<Seq<char>> {
    if n == 1 {
        CalleeActionOf::NextStream
    } else if n == 3 {
        CalleeActionOf::ReadFuture
    } else if n == 5 {
        CalleeActionOf::SendStream("c"@)
    } else if n == 7 {
        CalleeActionOf::WriteFuture("d"@)
    } else if n == 9 {
        CalleeActionOf::Finish
    } else {
        CalleeActionOf::NextControl
    }
}

spec fn stream_at(n: int) -> ValueLane {
    if n == 0 {
        ValueLane::Offered("a"@)
    } else if n == 1 {
        ValueLane::Taken
    } else {
        ValueLane::Closed
    }
}

spec fn future_at(n: int) -> ValueLane {
    if n == 2 {
        ValueLane::Offered("b"@)
    } else if n == 3 {
        ValueLane::Taken
    } else {
        ValueLane::Idle
    }
}

spec fn read_at(n: int) -> ReadLane {
    if n == 1 {
        ReadLane::WantsC
    } else if n == 2 {
        ReadLane::Ended(CallerEventOf::ReadC(Some(seq!["c"@])))
    } else if n == 3 {
        ReadLane::WantsD
    } else if n == 4 {
        ReadLane::Ended(CallerEventOf::ReadD(Some("d"@)))
    } else if n == 5 {
        ReadLane::WantsNone
    } else if n == 6 {
        ReadLane::Ended(CallerEventOf::ReadNone(None))
    } else {
        ReadLane::Idle
    }
}

impl Progress {
    /// The state of both sides.
    spec fn system(self) -> System {
        System {
            caller: Caller {
                future_tx: self.write < 2,
                stream_rx: self.result && (self.read == 0 || self.read == 3 || self.read == 4),
                future_rx: self.result && self.read < 3,
                complete: self.read == 7,
            },
            error: None,
            callee: callee_at(self.callee),
            doing: doing_at(self.callee),
            returned: !self.result,
            control: control_at(self.control),
            stream: stream_at(self.write),
            future: future_at(self.write),
            read: read_at(self.read),
        }
    }

    /// Whether the parts can have come this far together.
    spec fn consistent(self) -> bool {
        &&& 0 <= self.control <= 8
        &&& 0 <= self.callee <= 9
        &&& 0 <= self.write <= 4
        &&& 0 <= self.read <= 7
        &&& self.control >= 1 <==> self.callee >= 1
        &&& self.control >= 3 <==> self.callee >= 3
        &&& self.control >= 5 <==> self.callee >= 5
        &&& self.control >= 7 <==> self.callee >= 7
        &&& self.callee == 9 ==> self.control == 8
        &&& self.write >= 1 <==> self.callee >= 2
        &&& self.write >= 3 <==> self.callee >= 4
        &&& self.read >= 1 <==> self.write == 4
        &&& self.read >= 2 <==> self.callee >= 6
        &&& self.read >= 4 <==> self.callee >= 8
        &&& self.read >= 6 ==> self.callee == 9
        &&& self.write == 4 ==> self.result
    }

    /// How many moves it took to come this far.
    spec fn moves(self) -> int {
        self.callee + self.control / 2 + (if self.write >= 2 {
            1int
        } else {
            0
        }) + (if self.write >= 4 {
            1int
        } else {
            0
        }) + (if self.read >= 3 {
            1int
        } else {
            0
        }) + (if self.read >= 5 {
            1int
        } else {
            0
        }) + (if self.read >= 6 {
            1int
        } else {
            0
        }) + (if self.read >= 7 {
            1int
        } else {
            0
        }) + (if self.result {
            1int
        } else {
            0
        })
    }

    /// How far the parts have come after `m`, if it can be made.
    spec fn step(self, m: Move) -> Option<Progress> {
        match m {
            Move::HandResult if !self.result => Some(Progress { result: true, ..self }),
            Move::HandControl if self.control % 2 == 1 => Some(
                Progress { control: self.control + 1, ..self },
            ),
            Move::HandStream if self.write == 1 => Some(Progress { write: 2, ..self }),
            Move::HandFuture if self.write == 3 && self.result => Some(
                Progress { write: 4, read: 1, ..self },
            ),
            Move::HandRead if self.read == 2 || self.read == 4 || self.read == 6 => Some(
                Progress { read: self.read + 1, ..self },
            ),
            Move::TakeControl if self.callee == self.control && self.callee % 2 == 0
                && self.callee < 8 => Some(
                Progress { callee: self.callee + 1, control: self.control + 1, ..self },
            ),
            Move::TakeControl if self.callee == 8 && self.control == 8 => Some(
                Progress { callee: 9, ..self },
            ),
            Move::TakeStream if self.callee == 1 && self.write == 0 => Some(
                Progress { callee: 2, write: 1, ..self },
            ),
            Move::TakeFuture if self.callee == 3 && self.write == 2 => Some(
                Progress { callee: 4, write: 3, ..self },
            ),
            Move::Send if self.callee == 5 && self.read == 1 => Some(
                Progress { callee: 6, read: 2, ..self },
            ),
            Move::Write if self.callee == 7 && self.read == 3 => Some(
                Progress { callee: 8, read: 4, ..self },
            ),
            Move::Drop if self.callee == 9 && self.read == 5 => Some(
                Progress { read: 6, ..self },
            ),
            _ => None,
        }
    }
}

/// The beginning, part by part.
proof fn lemma_initial()
    ensures
        initial() == (Progress { control: 0, callee: 0, write: 0, read: 0, result: false }).system(),
{
    reveal_with_fuel(execute_all, 4);
}

/// After its only message a list is empty.
proof fn lemma_single(m: ControlOf<Seq<char>>)
    ensures
        seq![m].drop_first() == Seq::<ControlOf<Seq<char>>>::empty(),
        seq![m].first() == m,
{
    assert(seq![m].drop_first() =~= Seq::<ControlOf<Seq<char>>>::empty());
}

/// A move takes the system to where it takes the parts.
proof fn lemma_step(p: Progress, m: Move)
    requires
        p.consistent(),
    ensures
        step(p.system(), m) == match p.step(m) {
            Some(q) => Some(q.system()),
            None => None,
        },
        p.step(m) matches Some(q) ==> q.consistent() && q.moves() == p.moves() + 1,
{
    reveal_with_fuel(execute_all, 3);
    lemma_single(ControlOf::ReadStream("a"@));
    lemma_single(ControlOf::ReadFuture("b"@));
    lemma_single(ControlOf::WriteStream("c"@));
    lemma_single(ControlOf::WriteFuture("d"@));
}

/// Whatever moves were made, the parts have come as far as there were moves.
proof fn lemma_after(moves: Seq<Move>) -> (p: Progress)
    requires
        after(moves) is Some,
    ensures
        after(moves) == Some(p.system()),
        p.consistent(),
        p.moves() == moves.len(),
    decreases moves.len(),
{
    if moves.len() == 0 {
        lemma_initial();
        Progress { control: 0, callee: 0, write: 0, read: 0, result: false }
    } else {
        let before = lemma_after(moves.drop_last());
        lemma_step(before, moves.last());
        before.step(moves.last()).unwrap()
    }
}

/// Unless all is done, some move can be made.
proof fn lemma_can_go_on(p: Progress) -> (m: Move)
    requires
        p.consistent(),
        p.read < 7,
    ensures
        p.step(m) is Some,
{
    if !p.result {
        Move::HandResult
    } else if p.control % 2 == 1 {
        Move::HandControl
    } else if p.write == 1 {
        Move::HandStream
    } else if p.write == 3 {
        Move::HandFuture
    } else if p.read == 2 || p.read == 4 || p.read == 6 {
        Move::HandRead
    } else if p.callee == 1 {
        Move::TakeStream
    } else if p.callee == 3 {
        Move::TakeFuture
    } else if p.callee == 5 {
        Move::Send
    } else if p.callee == 7 {
        Move::Write
    } else if p.callee == 9 {
        Move::Drop
    } else {
        Move::TakeControl
    }
}

/// However the two sides take turns, neither gives up, neither gets stuck, and
/// after [`total_moves`] moves, no more and no fewer, the exchange is complete:
/// the caller has had every value back and has seen the callee's stream end, and
/// the callee has ended.
pub proof fn law_exchange_completes(moves: Seq<Move>)
    requires
        after(moves) is Some,
    ensures
        after(moves).unwrap().error is None,
        !(after(moves).unwrap().doing is Fail),
        moves.len() <= total_moves(),
        moves.len() < total_moves() ==> exists|m: Move|
            #[trigger] step(after(moves).unwrap(), m) is Some,
        after(moves).unwrap().caller.complete <==> moves.len() == total_moves(),
        moves.len() == total_moves() ==> after(moves).unwrap().doing is Finish,
{
    let p = lemma_after(moves);
    if p.read < 7 {
        let m = lemma_can_go_on(p);
        lemma_step(p, m);
        assert(step(after(moves).unwrap(), m) is Some);
    }
}

} // verus!
