//! The side of an exchange that says what is to be done.
//!
//! The caller sends one value each way through a stream and through a future: it
//! tells the callee to expect `a` on a stream and `b` from a future, and to send
//! `c` on a stream and `d` to a future.  It keeps several operations under way at
//! once and goes on when one of them ends.
use vstd::prelude::*;

use crate::callee::{Control, ControlOf};
#[allow(unused_imports)]
use crate::callee::string_views;

verus! {

/// Which of the four control messages.
#[derive(Debug, Clone, Copy, PartialEq, Eq)]
pub enum Letter {
    A,
    B,
    C,
    D,
}

/// An operation ended: `T` is a string and `L` a list of strings.
#[derive(Debug, PartialEq, Eq)]
pub enum CallerEventOf<T, L> {
    /// The callee returned its stream and its futures.
    Result,
    /// A control message was taken.
    ControlWrite(Letter),
    /// The value on the caller's stream was taken.
    WriteA,
    /// The value of the caller's future was taken.
    WriteB,
    /// The callee's stream gave values, or has ended.
    ReadC(Option<L>),
    /// The callee's future gave a value, or was dropped.
    ReadD(Option<T>),
    /// The callee's stream gave values once more, or has ended.
    ReadNone(Option<L>),
    /// An operation failed.
    Failed,
}

pub type CallerEvent = CallerEventOf<String, Vec<String>>;

/// An operation ended, over mathematical strings.
pub type CallerEventView = CallerEventOf<Seq<char>, Seq<Seq<char>>>;

impl View for CallerEventOf<String, Vec<String>> {
    type V = CallerEventView;

    open spec fn view(&self) -> CallerEventView {
        match self {
            CallerEventOf::Result => CallerEventOf::Result,
            CallerEventOf::ControlWrite(letter) => CallerEventOf::ControlWrite(*letter),
            CallerEventOf::WriteA => CallerEventOf::WriteA,
            CallerEventOf::WriteB => CallerEventOf::WriteB,
            CallerEventOf::ReadC(Some(values)) => CallerEventOf::ReadC(
                Some(string_views(values@)),
            ),
            CallerEventOf::ReadC(None) => CallerEventOf::ReadC(None),
            CallerEventOf::ReadD(Some(value)) => CallerEventOf::ReadD(Some(value@)),
            CallerEventOf::ReadD(None) => CallerEventOf::ReadD(None),
            CallerEventOf::ReadNone(Some(values)) => CallerEventOf::ReadNone(
                Some(string_views(values@)),
            ),
            CallerEventOf::ReadNone(None) => CallerEventOf::ReadNone(None),
            CallerEventOf::Failed => CallerEventOf::Failed,
        }
    }
}

/// Something that the caller does.  What does not end at once is followed by
/// the event that tells of its end.
#[derive(Debug, PartialEq, Eq)]
pub enum CommandOf<T> {
    /// Write a control message; `ControlWrite` tells of its end.
    WriteControl(Letter, ControlOf<T>),
    /// Close the stream of control messages.
    CloseControl,
    /// Write one value to the caller's stream; `WriteA` tells of its end.
    WriteStream(T),
    /// Close the caller's stream.
    CloseStream,
    /// Write the caller's future; `WriteB` tells of its end.
    WriteFuture(T),
    /// Call the callee; `Result` tells of its end.
    Call,
    /// Close the second of the callee's futures.
    CloseSecondFuture,
    /// Read the callee's stream; `ReadC` tells of its end.
    ReadC,
    /// Read the callee's future; `ReadD` tells of its end.
    ReadD,
    /// Read the callee's stream again; `ReadNone` tells of its end.
    ReadNone,
}

pub type Command = CommandOf<String>;

impl View for CommandOf<String> {
    type V = CommandOf<Seq<char>>;

    open spec fn view(&self) -> CommandOf<Seq<char>> {
        match self {
            CommandOf::WriteControl(letter, message) => CommandOf::WriteControl(*letter, message@),
            CommandOf::CloseControl => CommandOf::CloseControl,
            CommandOf::WriteStream(s) => CommandOf::WriteStream(s@),
            CommandOf::CloseStream => CommandOf::CloseStream,
            CommandOf::WriteFuture(s) => CommandOf::WriteFuture(s@),
            CommandOf::Call => CommandOf::Call,
            CommandOf::CloseSecondFuture => CommandOf::CloseSecondFuture,
            CommandOf::ReadC => CommandOf::ReadC,
            CommandOf::ReadD => CommandOf::ReadD,
            CommandOf::ReadNone => CommandOf::ReadNone,
        }
    }
}

/// The views of a list of commands.
pub open spec fn command_views(commands: Seq<Command>) -> Seq<CommandOf<Seq<char>>> {
    commands.map_values(|c: Command| c@)
}

/// Why the caller gives up.
#[derive(Debug, Clone, Copy, PartialEq, Eq)]
pub enum CallerError {
    /// The caller's future is to be written, and has been.
    FutureAlreadyWritten,
    /// The callee's stream is to be read, and the caller does not hold it.
    NoStream,
    /// The callee's future is to be read, and the caller does not hold it.
    NoFuture,
    /// The callee's stream ended too early.
    StreamEnded,
    /// The callee's stream gave something other than the expected value.
    StreamMismatch,
    /// The callee's future was dropped.
    FutureDropped,
    /// The callee's future gave something other than the expected value.
    FutureMismatch,
    /// The callee's stream gave more than one value.
    StreamNotEnded,
    /// An operation failed.
    Failed,
}

/// The state of a caller.
#[derive(Debug, Clone, Copy, PartialEq, Eq)]
pub struct Caller {
    /// Whether it still holds the writing end of its future.
    pub future_tx: bool,
    /// Whether it holds the callee's stream.
    pub stream_rx: bool,
    /// Whether it holds the callee's future.
    pub future_rx: bool,
    /// Whether the callee's stream has ended as it should.
    pub complete: bool,
}

/// A caller that has begun.
pub open spec fn new_caller() -> Caller {
    Caller { future_tx: true, stream_rx: false, future_rx: false, complete: false }
}

/// What a caller does to begin.
pub open spec fn first_commands() -> Seq<CommandOf<Seq<char>>> {
    seq![
        CommandOf::WriteControl(Letter::A, ControlOf::ReadStream("a"@)),
        CommandOf::WriteStream("a"@),
        CommandOf::Call,
    ]
}

/// What a caller does when a control message was taken.
pub open spec fn after_control(letter: Letter) -> CommandOf<Seq<char>> {
    match letter {
        Letter::A => CommandOf::WriteControl(Letter::B, ControlOf::ReadFuture("b"@)),
        Letter::B => CommandOf::WriteControl(Letter::C, ControlOf::WriteStream("c"@)),
        Letter::C => CommandOf::WriteControl(Letter::D, ControlOf::WriteFuture("d"@)),
        Letter::D => CommandOf::CloseControl,
    }
}

/// The state of a caller after `event` and what it does, or why it gives up.
pub open spec fn next(state: Caller, event: CallerEventView) -> Result<
    (Caller, Seq<CommandOf<Seq<char>>>),
    CallerError,
> {
    match event {
        CallerEventOf::Result => Ok(
            (
                Caller { stream_rx: true, future_rx: true, ..state },
                seq![CommandOf::CloseSecondFuture],
            ),
        ),
        CallerEventOf::ControlWrite(letter) => Ok((state, seq![after_control(letter)])),
        CallerEventOf::WriteA => if state.future_tx {
            Ok(
                (
                    Caller { future_tx: false, ..state },
                    seq![CommandOf::CloseStream, CommandOf::WriteFuture("b"@)],
                ),
            )
        } else {
            Err(CallerError::FutureAlreadyWritten)
        },
        CallerEventOf::WriteB => if state.stream_rx {
            Ok((Caller { stream_rx: false, ..state }, seq![CommandOf::ReadC]))
        } else {
            Err(CallerError::NoStream)
        },
        CallerEventOf::ReadC(None) => Err(CallerError::StreamEnded),
        CallerEventOf::ReadC(Some(values)) => if values.len() == 0 || values[0] != "c"@ {
            Err(CallerError::StreamMismatch)
        } else if state.future_rx {
            Ok(
                (
                    Caller { stream_rx: true, future_rx: false, ..state },
                    seq![CommandOf::ReadD],
                ),
            )
        } else {
            Err(CallerError::NoFuture)
        },
        CallerEventOf::ReadD(None) => Err(CallerError::FutureDropped),
        CallerEventOf::ReadD(Some(value)) => if value != "d"@ {
            Err(CallerError::FutureMismatch)
        } else if state.stream_rx {
            Ok((Caller { stream_rx: false, ..state }, seq![CommandOf::ReadNone]))
        } else {
            Err(CallerError::NoStream)
        },
        CallerEventOf::ReadNone(Some(_)) => Err(CallerError::StreamNotEnded),
        CallerEventOf::ReadNone(None) => Ok((Caller { complete: true, ..state }, Seq::empty())),
        CallerEventOf::Failed => Err(CallerError::Failed),
    }
}

/// The list of one command.
fn one(command: Command) -> (r: Vec<Command>)
    ensures
        r@ == seq![command],
        command_views(r@) == seq![command@],
{
    let mut commands: Vec<Command> = Vec::new();
    commands.push(command);
    assert(command_views(commands@) =~= seq![command@]);
    commands
}

impl Caller {
    /// Begins an exchange.
    pub fn start() -> (r: (Caller, Vec<Command>))
        ensures
            r.0 == new_caller(),
            command_views(r.1@) == first_commands(),
            r.0.future_tx && !r.0.stream_rx && !r.0.future_rx && !r.0.complete,
            r.1@.len() == 3,
            r.1@[0] matches CommandOf::WriteControl(Letter::A, ControlOf::ReadStream(s)) && s@
                == "a"@,
            r.1@[1] matches CommandOf::WriteStream(s) && s@ == "a"@,
            r.1@[2] is Call,
    {
        let mut commands: Vec<Command> = Vec::new();
        commands.push(
            CommandOf::WriteControl(Letter::A, ControlOf::ReadStream("a".to_owned())),
        );
        commands.push(CommandOf::WriteStream("a".to_owned()));
        commands.push(CommandOf::Call);
        assert(command_views(commands@) =~= first_commands());
        (
            Caller { future_tx: true, stream_rx: false, future_rx: false, complete: false },
            commands,
        )
    }

    /// Goes on when an operation has ended.  A caller that gives up stays as it
    /// is.
    pub fn handle(&mut self, event: CallerEvent) -> (r: Result<Vec<Command>, CallerError>)
        ensures
            match r {
                Ok(commands) => next(*old(self), event@) == Ok::<_, CallerError>(
                    (*final(self), command_views(commands@)),
                ),
                Err(error) => {
                    &&& next(*old(self), event@) == Err::<
                        (Caller, Seq<CommandOf<Seq<char>>>),
                        CallerError,
                    >(error)
                    &&& *final(self) == *old(self)
                },
            },
            // The callee's ends are there once it has returned.
            event is Result ==> {
                &&& r matches Ok(commands) && commands@ == seq![Command::CloseSecondFuture]
                &&& *final(self) == (Caller { stream_rx: true, future_rx: true, ..*old(self) })
            },
            // The messages are written one after the other, and then no more.
            event is ControlWrite ==> *final(self) == *old(self) && r is Ok && r->Ok_0@.len() == 1,
            event == CallerEvent::ControlWrite(Letter::A) ==> (r->Ok_0@[0] matches
                CommandOf::WriteControl(Letter::B, ControlOf::ReadFuture(s)) && s@ == "b"@),
            event == CallerEvent::ControlWrite(Letter::B) ==> (r->Ok_0@[0] matches
                CommandOf::WriteControl(Letter::C, ControlOf::WriteStream(s)) && s@ == "c"@),
            event == CallerEvent::ControlWrite(Letter::C) ==> (r->Ok_0@[0] matches
                CommandOf::WriteControl(Letter::D, ControlOf::WriteFuture(s)) && s@ == "d"@),
            event == CallerEvent::ControlWrite(Letter::D) ==> r->Ok_0@[0] is CloseControl,
            // The future is written once, after the stream.
            event is WriteA && !old(self).future_tx ==> r == Err::<Vec<Command>, _>(
                CallerError::FutureAlreadyWritten,
            ),
            event is WriteA && old(self).future_tx ==> {
                &&& r is Ok && r->Ok_0@.len() == 2 && r->Ok_0@[0] is CloseStream
                &&& r->Ok_0@[1] matches CommandOf::WriteFuture(s) && s@ == "b"@
                &&& *final(self) == (Caller { future_tx: false, ..*old(self) })
            },
            event is WriteB && !old(self).stream_rx ==> r == Err::<Vec<Command>, _>(
                CallerError::NoStream,
            ),
            event is WriteB && old(self).stream_rx ==> {
                &&& r matches Ok(commands) && commands@ == seq![Command::ReadC]
                &&& *final(self) == (Caller { stream_rx: false, ..*old(self) })
            },
            // What comes from the callee is looked at.
            event == CallerEvent::ReadC(None) ==> r == Err::<Vec<Command>, _>(
                CallerError::StreamEnded,
            ),
            event matches CallerEventOf::ReadC(Some(values)) ==> {
                if values@.len() == 0 || values@[0]@ != "c"@ {
                    r == Err::<Vec<Command>, _>(CallerError::StreamMismatch)
                } else if !old(self).future_rx {
                    r == Err::<Vec<Command>, _>(CallerError::NoFuture)
                } else {
                    &&& r matches Ok(commands) && commands@ == seq![Command::ReadD]
                    &&& *final(self) == (Caller { stream_rx: true, future_rx: false, ..*old(self) })
                }
            },
            event == CallerEvent::ReadD(None) ==> r == Err::<Vec<Command>, _>(
                CallerError::FutureDropped,
            ),
            event matches CallerEventOf::ReadD(Some(value)) ==> {
                if value@ != "d"@ {
                    r == Err::<Vec<Command>, _>(CallerError::FutureMismatch)
                } else if !old(self).stream_rx {
                    r == Err::<Vec<Command>, _>(CallerError::NoStream)
                } else {
                    &&& r matches Ok(commands) && commands@ == seq![Command::ReadNone]
                    &&& *final(self) == (Caller { stream_rx: false, ..*old(self) })
                }
            },
            event matches CallerEventOf::ReadNone(Some(_)) ==> r == Err::<Vec<Command>, _>(
                CallerError::StreamNotEnded,
            ),
            event == CallerEvent::ReadNone(None) ==> {
                &&& r is Ok && r->Ok_0@.len() == 0
                &&& *final(self) == (Caller { complete: true, ..*old(self) })
            },
            // No failure is passed over.
            event is Failed ==> r == Err::<Vec<Command>, _>(CallerError::Failed),
            r is Err ==> *final(self) == *old(self),
    {
        match event {
            CallerEventOf::Result => {
                self.stream_rx = true;
                self.future_rx = true;
                Ok(one(CommandOf::CloseSecondFuture))
            },
            CallerEventOf::ControlWrite(letter) => {
                let command = match letter {
                    Letter::A => CommandOf::WriteControl(
                        Letter::B,
                        ControlOf::ReadFuture("b".to_owned()),
                    ),
                    Letter::B => CommandOf::WriteControl(
                        Letter::C,
                        ControlOf::WriteStream("c".to_owned()),
                    ),
                    Letter::C => CommandOf::WriteControl(
                        Letter::D,
                        ControlOf::WriteFuture("d".to_owned()),
                    ),
                    Letter::D => CommandOf::CloseControl,
                };
                Ok(one(command))
            },
            CallerEventOf::WriteA => {
                if !self.future_tx {
                    return Err(CallerError::FutureAlreadyWritten);
                }
                self.future_tx = false;
                let mut commands: Vec<Command> = Vec::new();
                commands.push(CommandOf::CloseStream);
                commands.push(CommandOf::WriteFuture("b".to_owned()));
                assert(command_views(commands@) =~= seq![
                    CommandOf::CloseStream,
                    CommandOf::WriteFuture("b"@),
                ]);
                Ok(commands)
            },
            CallerEventOf::WriteB => {
                if !self.stream_rx {
                    return Err(CallerError::NoStream);
                }
                self.stream_rx = false;
                Ok(one(CommandOf::ReadC))
            },
            CallerEventOf::ReadC(None) => Err(CallerError::StreamEnded),
            CallerEventOf::ReadC(Some(values)) => {
                if values.len() == 0 || values[0] != "c".to_owned() {
                    return Err(CallerError::StreamMismatch);
                }
                if !self.future_rx {
                    return Err(CallerError::NoFuture);
                }
                self.future_rx = false;
                self.stream_rx = true;
                Ok(one(CommandOf::ReadD))
            },
            CallerEventOf::ReadD(None) => Err(CallerError::FutureDropped),
            CallerEventOf::ReadD(Some(value)) => {
                if value != "d".to_owned() {
                    return Err(CallerError::FutureMismatch);
                }
                if !self.stream_rx {
                    return Err(CallerError::NoStream);
                }
                self.stream_rx = false;
                Ok(one(CommandOf::ReadNone))
            },
            CallerEventOf::ReadNone(Some(_)) => Err(CallerError::StreamNotEnded),
            CallerEventOf::ReadNone(None) => {
                self.complete = true;
                let commands: Vec<Command> = Vec::new();
                assert(command_views(commands@) =~= Seq::empty());
                Ok(commands)
            },
            CallerEventOf::Failed => Err(CallerError::Failed),
        }
    }
}

/// The operations of a caller that have begun and not ended.
pub struct UnderWay {
    /// The callee is being called.
    pub result: bool,
    /// This control message is being written.
    pub control: Option<Letter>,
    /// The caller's stream is being written.
    pub write_a: bool,
    /// The caller's future is being written.
    pub write_b: bool,
    /// The callee's stream is being read.
    pub read_c: bool,
    /// The callee's future is being read.
    pub read_d: bool,
    /// The callee's stream is being read again.
    pub read_none: bool,
}

/// Nothing is under way.
pub open spec fn nothing() -> UnderWay {
    UnderWay {
        result: false,
        control: None,
        write_a: false,
        write_b: false,
        read_c: false,
        read_d: false,
        read_none: false,
    }
}

/// What is under way once `command` has been given.
pub open spec fn begun(u: UnderWay, command: CommandOf<Seq<char>>) -> UnderWay {
    match command {
        CommandOf::WriteControl(letter, _) => UnderWay { control: Some(letter), ..u },
        CommandOf::WriteStream(_) => UnderWay { write_a: true, ..u },
        CommandOf::WriteFuture(_) => UnderWay { write_b: true, ..u },
        CommandOf::Call => UnderWay { result: true, ..u },
        CommandOf::ReadC => UnderWay { read_c: true, ..u },
        CommandOf::ReadD => UnderWay { read_d: true, ..u },
        CommandOf::ReadNone => UnderWay { read_none: true, ..u },
        CommandOf::CloseControl | CommandOf::CloseStream | CommandOf::CloseSecondFuture => u,
    }
}

/// What is under way once `commands` have been given, one after the other.
pub open spec fn begun_all(u: UnderWay, commands: Seq<CommandOf<Seq<char>>>) -> UnderWay
    decreases commands.len(),
{
    if commands.len() == 0 {
        u
    } else {
        begun_all(begun(u, commands.first()), commands.drop_first())
    }
}

/// Whether `event` tells of the end of something that is under way.  Whatever is
/// under way can fail.
pub open spec fn awaited(u: UnderWay, event: CallerEventView) -> bool {
    match event {
        CallerEventOf::Result => u.result,
        CallerEventOf::ControlWrite(letter) => u.control == Some(letter),
        CallerEventOf::WriteA => u.write_a,
        CallerEventOf::WriteB => u.write_b,
        CallerEventOf::ReadC(_) => u.read_c,
        CallerEventOf::ReadD(_) => u.read_d,
        CallerEventOf::ReadNone(_) => u.read_none,
        CallerEventOf::Failed => u != nothing(),
    }
}

/// What is under way once `event` has told of an end.
pub open spec fn ended(u: UnderWay, event: CallerEventView) -> UnderWay {
    match event {
        CallerEventOf::Result => UnderWay { result: false, ..u },
        CallerEventOf::ControlWrite(_) => UnderWay { control: None, ..u },
        CallerEventOf::WriteA => UnderWay { write_a: false, ..u },
        CallerEventOf::WriteB => UnderWay { write_b: false, ..u },
        CallerEventOf::ReadC(_) => UnderWay { read_c: false, ..u },
        CallerEventOf::ReadD(_) => UnderWay { read_d: false, ..u },
        CallerEventOf::ReadNone(_) => UnderWay { read_none: false, ..u },
        CallerEventOf::Failed => u,
    }
}

/// The state of a caller and what it has under way after `events`, or why it gave
/// up.
pub open spec fn after(events: Seq<CallerEventView>) -> Result<(Caller, UnderWay), CallerError>
    decreases events.len(),
{
    if events.len() == 0 {
        Ok((new_caller(), begun_all(nothing(), first_commands())))
    } else {
        match after(events.drop_last()) {
            Ok((state, u)) => match next(state, events.last()) {
                Ok((now, commands)) => Ok((now, begun_all(ended(u, events.last()), commands))),
                Err(error) => Err(error),
            },
            Err(error) => Err(error),
        }
    }
}

/// Whether `events` can happen to a caller one after the other: each tells of the
/// end of something that the caller had begun.
pub open spec fn possible(events: Seq<CallerEventView>) -> bool
    decreases events.len(),
{
    events.len() > 0 ==> {
        &&& possible(events.drop_last())
        &&& after(events.drop_last()) matches Ok((_, u)) && awaited(u, events.last())
    }
}

/// How the caller's reads ended in the course of `events`.
pub open spec fn reads_in(events: Seq<CallerEventView>) -> Seq<CallerEventView>
    decreases events.len(),
{
    if events.len() == 0 {
        Seq::empty()
    } else {
        match events.last() {
            CallerEventOf::ReadC(_) | CallerEventOf::ReadD(_) | CallerEventOf::ReadNone(
                _,
            ) => reads_in(events.drop_last()).push(events.last()),
            _ => reads_in(events.drop_last()),
        }
    }
}

/// The control messages that were taken in the course of `events`.
pub open spec fn taken_in(events: Seq<CallerEventView>) -> Seq<Letter>
    decreases events.len(),
{
    if events.len() == 0 {
        Seq::empty()
    } else {
        match events.last() {
            CallerEventOf::ControlWrite(letter) => taken_in(events.drop_last()).push(letter),
            _ => taken_in(events.drop_last()),
        }
    }
}

/// The reads of an exchange that goes as it should: `values` come on the callee's
/// stream, `d` from its future, and then its stream ends.
pub open spec fn full_reads(values: Seq<Seq<char>>) -> Seq<CallerEventView> {
    seq![
        CallerEventOf::ReadC(Some(values)),
        CallerEventOf::ReadD(Some("d"@)),
        CallerEventOf::ReadNone(None),
    ]
}

/// How far a caller has come: what it reads or writes, which control message, and
/// whether it has the callee's result.  Returns what came on the callee's stream.
proof fn lemma_progress(events: Seq<CallerEventView>) -> (values: Seq<Seq<char>>)
    requires
        possible(events),
        after(events) is Ok,
    ensures
        ({
            let (state, u) = after(events)->Ok_0;
            let reads = reads_in(events);
            let writing = u.write_a || u.write_b;
            &&& u.write_a ==> state.future_tx && !u.write_b
            &&& u.write_b ==> !state.future_tx
            &&& writing ==> !u.read_c && !u.read_d && !u.read_none && !state.complete
            &&& writing ==> state.stream_rx == !u.result && state.future_rx == !u.result
            &&& !writing ==> !u.result
            &&& u.read_c ==> !u.read_d && !u.read_none && !state.complete && state.future_rx
            &&& u.read_d ==> !u.read_none && !state.complete && state.stream_rx
            &&& u.read_none ==> !state.complete
            &&& writing || u.read_c ==> reads.len() == 0
            &&& !writing && !u.read_c ==> values.len() > 0 && values[0] == "c"@
            &&& u.read_d ==> reads == full_reads(values).take(1)
            &&& u.read_none ==> reads == full_reads(values).take(2)
            &&& state.complete ==> reads == full_reads(values)
            &&& writing || u.read_c || u.read_d || u.read_none || state.complete
            &&& taken_in(events) == match u.control {
                Some(Letter::A) => Seq::<Letter>::empty(),
                Some(Letter::B) => seq![Letter::A],
                Some(Letter::C) => seq![Letter::A, Letter::B],
                Some(Letter::D) => seq![Letter::A, Letter::B, Letter::C],
                None => seq![Letter::A, Letter::B, Letter::C, Letter::D],
            }
        }),
    decreases events.len(),
{
    reveal_with_fuel(begun_all, 4);
    if events.len() == 0 {
        Seq::empty()
    } else {
        let before = events.drop_last();
        let values = lemma_progress(before);
        let values = match events.last() {
            CallerEventOf::ReadC(Some(read)) => read,
            _ => values,
        };
        match events.last() {
            CallerEventOf::ReadC(_) => {
                assert(reads_in(events) =~= full_reads(values).take(1));
            },
            CallerEventOf::ReadD(_) => {
                assert(reads_in(events) =~= full_reads(values).take(2));
            },
            CallerEventOf::ReadNone(_) => {
                assert(reads_in(events) =~= full_reads(values));
            },
            _ => {},
        }
        values
    }
}

/// A caller is complete only if `c` came on the callee's stream, then `d` from its
/// future, and then the end of the stream, after the callee's result and after
/// what it wrote was taken.  A caller that has nothing under way is complete, and
/// its control messages were taken in order.
pub proof fn law_complete_means_all_came(events: Seq<CallerEventView>)
    requires
        possible(events),
        after(events) is Ok,
    ensures
        ({
            let (state, u) = after(events)->Ok_0;
            &&& state.complete ==> {
                &&& exists|values: Seq<Seq<char>>|
                    values.len() > 0 && values[0] == "c"@ && reads_in(events)
                        == #[trigger] full_reads(values)
                &&& !u.result && !u.write_a && !u.write_b
                &&& !u.read_c && !u.read_d && !u.read_none
            }
            &&& u == nothing() ==> {
                &&& state.complete
                &&& taken_in(events) == seq![Letter::A, Letter::B, Letter::C, Letter::D]
            }
        }),
{
    lemma_progress(events);
}

/// A caller has what it needs when it needs it, but for one thing: it gives up
/// because of what the callee sent, because an operation failed, or because the
/// callee has not returned by the time the caller's future is taken.
pub proof fn law_why_a_caller_gives_up(events: Seq<CallerEventView>)
    requires
        possible(events),
        after(events) is Err,
    ensures
        after(events.drop_last()) is Ok,
        match after(events)->Err_0 {
            CallerError::FutureAlreadyWritten | CallerError::NoFuture => false,
            CallerError::NoStream => events.last() is WriteB && after(
                events.drop_last(),
            )->Ok_0.1.result,
            CallerError::StreamEnded => events.last() == CallerEventView::ReadC(None),
            CallerError::StreamMismatch => events.last() matches CallerEventOf::ReadC(Some(values))
                && (values.len() == 0 || values[0] != "c"@),
            CallerError::FutureDropped => events.last() == CallerEventView::ReadD(None),
            CallerError::FutureMismatch => events.last() matches CallerEventOf::ReadD(Some(value))
                && value != "d"@,
            CallerError::StreamNotEnded => events.last() matches CallerEventOf::ReadNone(Some(_)),
            CallerError::Failed => events.last() is Failed,
        },
{
    lemma_progress(events.drop_last());
}

/// No failure is passed over: it makes a caller give up in whatever state it is, so
/// in a caller that has not given up no operation failed.
pub proof fn law_no_failure_is_passed_over(state: Caller, events: Seq<CallerEventView>)
    ensures
        next(state, CallerEventOf::Failed) == Err::<
            (Caller, Seq<CommandOf<Seq<char>>>),
            CallerError,
        >(CallerError::Failed),
        after(events) is Ok ==> forall|i: int|
            0 <= i < events.len() ==> !(#[trigger] events[i] is Failed),
    decreases events.len(),
{
    if events.len() > 0 && after(events) is Ok {
        law_no_failure_is_passed_over(state, events.drop_last());
        assert forall|i: int| 0 <= i < events.len() implies !(#[trigger] events[i] is Failed) by {
            if i < events.len() - 1 {
                assert(events.drop_last()[i] == events[i]);
            }
        }
    }
}

/// The callee is being called for as long as its result has not come.
proof fn lemma_result_came(events: Seq<CallerEventView>)
    requires
        possible(events),
        after(events) is Ok,
    ensures
        after(events)->Ok_0.1.result <==> !events.contains(CallerEventOf::Result),
    decreases events.len(),
{
    reveal_with_fuel(begun_all, 4);
    if events.len() > 0 {
        let before = events.drop_last();
        lemma_result_came(before);
        assert(events =~= before.push(events.last()));
        assert(events.contains(CallerEventOf::Result) <==> before.contains(CallerEventOf::Result)
            || events.last() is Result) by {
            if before.contains(CallerEventOf::Result) {
                let i = choose|i: int|
                    0 <= i < before.len() && before[i] == CallerEventView::Result;
                assert(events[i] == CallerEventView::Result);
            }
            if events.last() is Result {
                assert(events[events.len() - 1] == CallerEventView::Result);
            }
            if events.contains(CallerEventOf::Result) && !(events.last() is Result) {
                let i = choose|i: int|
                    0 <= i < events.len() && events[i] == CallerEventView::Result;
                assert(before[i] == CallerEventView::Result);
            }
        }
    }
}

/// A caller goes on exactly if what came is what it should be: nothing failed, the
/// callee had returned by the time the caller's future was taken, `c` came first on
/// the callee's stream, `d` from its future, and then the stream ended.
pub proof fn law_when_a_caller_goes_on(events: Seq<CallerEventView>)
    requires
        possible(events),
        events.len() > 0,
    ensures
        after(events) is Ok <==> match events.last() {
            CallerEventOf::Result | CallerEventOf::ControlWrite(_) | CallerEventOf::WriteA => true,
            CallerEventOf::WriteB => events.contains(CallerEventOf::Result),
            CallerEventOf::ReadC(Some(values)) => values.len() > 0 && values[0] == "c"@,
            CallerEventOf::ReadD(Some(value)) => value == "d"@,
            CallerEventOf::ReadNone(values) => values is None,
            CallerEventOf::ReadC(None) | CallerEventOf::ReadD(None) | CallerEventOf::Failed => false,
        },
        after(events) is Ok ==> (after(events)->Ok_0.0.complete <==> events.contains(
            CallerEventOf::ReadNone(None),
        )),
{
    reveal_with_fuel(begun_all, 4);
    let before = events.drop_last();
    lemma_progress(before);
    lemma_result_came(before);
    assert(events.last() is WriteB ==> (events.contains(CallerEventOf::Result)
        <==> before.contains(CallerEventOf::Result))) by {
        if events.contains(CallerEventOf::Result) && events.last() is WriteB {
            let i = choose|i: int| 0 <= i < events.len() && events[i] == CallerEventView::Result;
            assert(before[i] == CallerEventView::Result);
        }
        if before.contains(CallerEventOf::Result) {
            let i = choose|i: int| 0 <= i < before.len() && before[i] == CallerEventView::Result;
            assert(events[i] == CallerEventView::Result);
        }
    }
    if after(events) is Ok {
        lemma_complete_came(events);
    }
}

/// A caller is complete exactly if the callee's stream was seen to end.
proof fn lemma_complete_came(events: Seq<CallerEventView>)
    requires
        after(events) is Ok,
    ensures
        after(events)->Ok_0.0.complete <==> events.contains(CallerEventOf::ReadNone(None)),
    decreases events.len(),
{
    if events.len() > 0 {
        let before = events.drop_last();
        let end = CallerEventView::ReadNone(None);
        lemma_complete_came(before);
        if before.contains(end) {
            let i = choose|i: int| 0 <= i < before.len() && before[i] == end;
            assert(events[i] == end);
        }
        if events.last() == end {
            assert(events[events.len() - 1] == end);
        } else if events.contains(end) {
            let i = choose|i: int| 0 <= i < events.len() && events[i] == end;
            assert(before[i] == end);
        }
    }
}

/// What a caller that goes on does is settled by what happened alone, whatever its
/// state.
pub proof fn law_what_a_caller_does(state: Caller, event: CallerEventView)
    requires
        next(state, event) is Ok,
    ensures
        next(state, event)->Ok_0.1 == match event {
            CallerEventOf::Result => seq![CommandOf::CloseSecondFuture],
            CallerEventOf::ControlWrite(Letter::A) => seq![
                CommandOf::WriteControl(Letter::B, ControlOf::ReadFuture("b"@)),
            ],
            CallerEventOf::ControlWrite(Letter::B) => seq![
                CommandOf::WriteControl(Letter::C, ControlOf::WriteStream("c"@)),
            ],
            CallerEventOf::ControlWrite(Letter::C) => seq![
                CommandOf::WriteControl(Letter::D, ControlOf::WriteFuture("d"@)),
            ],
            CallerEventOf::ControlWrite(Letter::D) => seq![CommandOf::CloseControl],
            CallerEventOf::WriteA => seq![CommandOf::CloseStream, CommandOf::WriteFuture("b"@)],
            CallerEventOf::WriteB => seq![CommandOf::ReadC],
            CallerEventOf::ReadC(_) => seq![CommandOf::ReadD],
            CallerEventOf::ReadD(_) => seq![CommandOf::ReadNone],
            CallerEventOf::ReadNone(_) | CallerEventOf::Failed => Seq::empty(),
        },
{
}

/// The views of commands and messages keep what they hold, one for one.
pub proof fn law_command_views_are_faithful(commands: Seq<Command>)
    ensures
        command_views(commands).len() == commands.len(),
        forall|i: int|
            0 <= i < commands.len() ==> match #[trigger] commands[i] {
                CommandOf::WriteControl(letter, message) => command_views(commands)[i]
                    == CommandOf::WriteControl(letter, message@),
                CommandOf::WriteStream(s) => command_views(commands)[i] == CommandOf::WriteStream(
                    s@,
                ),
                CommandOf::WriteFuture(s) => command_views(commands)[i] == CommandOf::WriteFuture(
                    s@,
                ),
                CommandOf::CloseControl => command_views(commands)[i] is CloseControl,
                CommandOf::CloseStream => command_views(commands)[i] is CloseStream,
                CommandOf::Call => command_views(commands)[i] is Call,
                CommandOf::CloseSecondFuture => command_views(commands)[i] is CloseSecondFuture,
                CommandOf::ReadC => command_views(commands)[i] is ReadC,
                CommandOf::ReadD => command_views(commands)[i] is ReadD,
                CommandOf::ReadNone => command_views(commands)[i] is ReadNone,
            },
{
}

} // verus!
