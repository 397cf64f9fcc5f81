use component_async_demo::callee::{
    Callee, CalleeAction, CalleeActionOf, CalleeError, CalleeEvent, CalleeEventOf, Control,
    ControlOf,
};
use component_async_demo::caller::{
    Caller, CallerError, CallerEvent, CallerEventOf, Command, CommandOf, Letter,
};

fn s(value: &str) -> String {
    value.to_owned()
}

fn all_messages() -> Vec<Control> {
    vec![
        ControlOf::ReadStream(s("a")),
        ControlOf::ReadFuture(s("b")),
        ControlOf::WriteStream(s("c")),
        ControlOf::WriteFuture(s("d")),
    ]
}

/// Hands the callee `groups` of messages, gives it "a" on the stream and "b" from
/// the future, and returns what it sends on its stream and writes to its future.
fn run_callee(groups: Vec<Vec<Control>>) -> (Vec<String>, Vec<String>) {
    let mut groups = groups.into_iter();
    let mut sent = Vec::new();
    let mut written = Vec::new();
    let (mut callee, mut action) = Callee::exchange();
    loop {
        let event = match action {
            CalleeActionOf::NextControl => CalleeEventOf::Control(groups.next()),
            CalleeActionOf::NextStream => CalleeEventOf::Stream(Some(vec![s("a")])),
            CalleeActionOf::ReadFuture => CalleeEventOf::Future(Some(s("b"))),
            CalleeActionOf::SendStream(value) => {
                sent.push(value);
                CalleeEventOf::Sent(true)
            }
            CalleeActionOf::WriteFuture(value) => {
                written.push(value);
                CalleeEventOf::Written
            }
            CalleeActionOf::Finish => return (sent, written),
            CalleeActionOf::Fail(error) => panic!("{error:?}"),
        };
        action = callee.step(event);
    }
}

#[test]
fn transmit() {
    let expected = (vec![s("c")], vec![s("d")]);
    assert_eq!(run_callee(vec![all_messages()]), expected);
    assert_eq!(
        run_callee(all_messages().into_iter().map(|message| vec![message]).collect()),
        expected
    );
    let mut first = all_messages();
    let second = first.split_off(3);
    assert_eq!(run_callee(vec![vec![], first, vec![], second]), expected);
    assert_eq!(run_callee(vec![]), (vec![], vec![]));
}

#[test]
fn callee_does_as_told_in_order() {
    let (mut callee, action) = Callee::exchange();
    assert_eq!(action, CalleeActionOf::NextControl);
    let messages = vec![
        ControlOf::WriteStream(s("x")),
        ControlOf::ReadStream(s("y")),
        ControlOf::WriteStream(s("z")),
    ];
    assert_eq!(
        callee.step(CalleeEventOf::Control(Some(messages))),
        CalleeActionOf::SendStream(s("x"))
    );
    assert_eq!(callee.step(CalleeEventOf::Sent(true)), CalleeActionOf::NextStream);
    assert_eq!(
        callee.step(CalleeEventOf::Stream(Some(vec![s("y")]))),
        CalleeActionOf::SendStream(s("z"))
    );
    assert_eq!(callee.step(CalleeEventOf::Sent(true)), CalleeActionOf::NextControl);
    assert_eq!(callee.step(CalleeEventOf::Control(None)), CalleeActionOf::Finish);
}

/// A callee that has been told `messages`, and what it does.
fn told(messages: Vec<Control>) -> (Callee, CalleeAction) {
    let (mut callee, _) = Callee::exchange();
    let action = callee.step(CalleeEventOf::Control(Some(messages)));
    (callee, action)
}

#[test]
fn callee_stream_mismatch() {
    for values in [
        None,
        Some(vec![]),
        Some(vec![s("b")]),
        Some(vec![s("a"), s("a")]),
    ] {
        let (mut callee, _) = told(vec![ControlOf::ReadStream(s("a"))]);
        assert_eq!(
            callee.step(CalleeEventOf::Stream(values)),
            CalleeActionOf::Fail(CalleeError::StreamMismatch)
        );
    }
}

#[test]
fn callee_future_mismatch() {
    for value in [None, Some(s("a")), Some(s(""))] {
        let (mut callee, action) = told(vec![ControlOf::ReadFuture(s("b"))]);
        assert_eq!(action, CalleeActionOf::ReadFuture);
        assert_eq!(
            callee.step(CalleeEventOf::Future(value)),
            CalleeActionOf::Fail(CalleeError::FutureMismatch)
        );
    }
}

#[test]
fn callee_uses_futures_once() {
    let (mut callee, _) = told(vec![
        ControlOf::ReadFuture(s("b")),
        ControlOf::ReadFuture(s("b")),
    ]);
    assert_eq!(
        callee.step(CalleeEventOf::Future(Some(s("b")))),
        CalleeActionOf::Fail(CalleeError::FutureAlreadyRead)
    );

    let (mut callee, action) = told(vec![
        ControlOf::WriteFuture(s("d")),
        ControlOf::WriteFuture(s("e")),
    ]);
    assert_eq!(action, CalleeActionOf::WriteFuture(s("d")));
    assert_eq!(
        callee.step(CalleeEventOf::Written),
        CalleeActionOf::Fail(CalleeError::FutureAlreadyWritten)
    );
}

/// Runs a callee that is handed `groups` and then `answers`, one each time it has
/// something to do, and returns what it did, up to where it gave up or ended.
fn actions(groups: Vec<Vec<Control>>, answers: Vec<CalleeEvent>) -> Vec<CalleeAction> {
    let mut groups = groups.into_iter();
    let mut answers = answers.into_iter();
    let mut done = Vec::new();
    let (mut callee, mut action) = Callee::exchange();
    loop {
        let event = match &action {
            CalleeActionOf::NextControl => CalleeEventOf::Control(groups.next()),
            CalleeActionOf::Finish | CalleeActionOf::Fail(_) => {
                done.push(action);
                return done;
            }
            _ => answers.next().unwrap(),
        };
        let next = callee.step(event);
        if action != CalleeActionOf::NextControl {
            done.push(action);
        }
        action = next;
    }
}

#[test]
fn callee_gives_up_at_the_same_message() {
    fn messages() -> Vec<Control> {
        vec![
            ControlOf::WriteStream(s("x")),
            ControlOf::ReadStream(s("a")),
            ControlOf::WriteStream(s("y")),
        ]
    }
    fn answers(value: &str) -> Vec<CalleeEvent> {
        vec![
            CalleeEventOf::Sent(true),
            CalleeEventOf::Stream(Some(vec![s(value)])),
            CalleeEventOf::Sent(true),
        ]
    }
    fn groupings() -> Vec<Vec<Vec<Control>>> {
        let mut first = messages();
        let second = first.split_off(1);
        vec![
            vec![messages()],
            messages().into_iter().map(|message| vec![message]).collect(),
            vec![vec![], first, vec![], second],
        ]
    }
    for groups in groupings() {
        assert_eq!(
            actions(groups, answers("b")),
            vec![
                CalleeActionOf::SendStream(s("x")),
                CalleeActionOf::NextStream,
                CalleeActionOf::Fail(CalleeError::StreamMismatch),
            ]
        );
    }
    for groups in groupings() {
        assert_eq!(
            actions(groups, answers("a")),
            vec![
                CalleeActionOf::SendStream(s("x")),
                CalleeActionOf::NextStream,
                CalleeActionOf::SendStream(s("y")),
                CalleeActionOf::Finish,
            ]
        );
    }
}

#[test]
fn callee_ends_when_messages_do() {
    let (mut callee, _) = told(vec![ControlOf::WriteFuture(s("d"))]);
    assert_eq!(callee.step(CalleeEventOf::Written), CalleeActionOf::NextControl);
    assert_eq!(
        callee.step(CalleeEventOf::Control(Some(vec![]))),
        CalleeActionOf::NextControl
    );
    assert_eq!(callee.step(CalleeEventOf::Control(None)), CalleeActionOf::Finish);
}

#[test]
fn callee_stream_closed() {
    let (mut callee, _) = told(vec![ControlOf::WriteStream(s("c"))]);
    assert_eq!(
        callee.step(CalleeEventOf::Sent(false)),
        CalleeActionOf::Fail(CalleeError::StreamClosed)
    );
}

enum Written<T> {
    Idle,
    Offered(T),
    Taken,
    Closed,
}

enum Read {
    Idle,
    C,
    D,
    Nothing,
    Ended(CallerEvent),
}

/// A caller and a callee with streams and futures between them.
struct Exchange {
    caller: Caller,
    callee: Callee,
    doing: CalleeAction,
    returned: bool,
    letter: Letter,
    control: Written<Control>,
    stream: Written<String>,
    future: Written<String>,
    read: Read,
}

impl Exchange {
    fn new() -> Exchange {
        let (caller, commands) = Caller::start();
        let (callee, doing) = Callee::exchange();
        let mut exchange = Exchange {
            caller,
            callee,
            doing,
            returned: false,
            letter: Letter::A,
            control: Written::Idle,
            stream: Written::Idle,
            future: Written::Idle,
            read: Read::Idle,
        };
        exchange.execute(commands);
        exchange
    }

    fn execute(&mut self, commands: Vec<Command>) {
        for command in commands {
            match command {
                CommandOf::WriteControl(letter, message) => {
                    self.letter = letter;
                    self.control = Written::Offered(message);
                }
                CommandOf::CloseControl => self.control = Written::Closed,
                CommandOf::WriteStream(value) => self.stream = Written::Offered(value),
                CommandOf::CloseStream => self.stream = Written::Closed,
                CommandOf::WriteFuture(value) => self.future = Written::Offered(value),
                CommandOf::Call => self.returned = true,
                CommandOf::CloseSecondFuture => {}
                CommandOf::ReadC => self.read = Read::C,
                CommandOf::ReadD => self.read = Read::D,
                CommandOf::ReadNone => self.read = Read::Nothing,
            }
        }
    }

    /// The ends of operations that the caller can be told of.
    fn ended(&self) -> Vec<usize> {
        let mut ended = Vec::new();
        if self.returned {
            ended.push(0);
        }
        if let Written::Taken = self.control {
            ended.push(1);
        }
        if let Written::Taken = self.stream {
            ended.push(2);
        }
        if let (Written::Taken, false) = (&self.future, self.returned) {
            ended.push(3);
        }
        if let Read::Ended(_) = self.read {
            ended.push(4);
        }
        ended
    }

    fn tell_caller(&mut self, which: usize) {
        let event = match which {
            0 => {
                self.returned = false;
                CallerEventOf::Result
            }
            1 => {
                self.control = Written::Idle;
                CallerEventOf::ControlWrite(self.letter)
            }
            2 => {
                self.stream = Written::Idle;
                CallerEventOf::WriteA
            }
            3 => {
                self.future = Written::Idle;
                CallerEventOf::WriteB
            }
            _ => match std::mem::replace(&mut self.read, Read::Idle) {
                Read::Ended(event) => event,
                _ => unreachable!(),
            },
        };
        match self.caller.handle(event) {
            Ok(commands) => self.execute(commands),
            Err(error) => panic!("{error:?}"),
        }
    }

    /// Lets the callee go on, if it can.
    fn step_callee(&mut self) -> bool {
        let event = match (&self.doing, &self.control, &self.stream, &self.future, &self.read) {
            (CalleeActionOf::NextControl, Written::Offered(_), ..) => {
                match std::mem::replace(&mut self.control, Written::Taken) {
                    Written::Offered(message) => CalleeEventOf::Control(Some(vec![message])),
                    _ => unreachable!(),
                }
            }
            (CalleeActionOf::NextControl, Written::Closed, ..) => CalleeEventOf::Control(None),
            (CalleeActionOf::NextStream, _, Written::Offered(_), ..) => {
                match std::mem::replace(&mut self.stream, Written::Taken) {
                    Written::Offered(value) => CalleeEventOf::Stream(Some(vec![value])),
                    _ => unreachable!(),
                }
            }
            (CalleeActionOf::ReadFuture, _, _, Written::Offered(_), _) => {
                match std::mem::replace(&mut self.future, Written::Taken) {
                    Written::Offered(value) => CalleeEventOf::Future(Some(value)),
                    _ => unreachable!(),
                }
            }
            (CalleeActionOf::SendStream(value), _, _, _, Read::C) => {
                self.read = Read::Ended(CallerEventOf::ReadC(Some(vec![value.clone()])));
                CalleeEventOf::Sent(true)
            }
            (CalleeActionOf::WriteFuture(value), _, _, _, Read::D) => {
                self.read = Read::Ended(CallerEventOf::ReadD(Some(value.clone())));
                CalleeEventOf::Written
            }
            (CalleeActionOf::Finish, _, _, _, Read::Nothing) => {
                self.read = Read::Ended(CallerEventOf::ReadNone(None));
                return true;
            }
            (CalleeActionOf::Fail(error), ..) => panic!("{error:?}"),
            _ => return false,
        };
        self.doing = self.callee.step(event);
        true
    }
}

/// Runs an exchange in which `seed` decides who goes on; returns the number of
/// moves.
fn run_exchange(seed: u32) -> usize {
    let mut exchange = Exchange::new();
    let mut random = seed;
    let mut moves = 0;
    loop {
        random = random.wrapping_mul(1664525).wrapping_add(1013904223);
        let ended = exchange.ended();
        let turn = (random >> 16) as usize % (ended.len() + 1);
        if turn < ended.len() {
            exchange.tell_caller(ended[turn]);
        } else if !exchange.step_callee() {
            match ended.first() {
                Some(which) => exchange.tell_caller(*which),
                None => break,
            }
        }
        moves += 1;
    }
    assert!(exchange.caller.complete);
    assert_eq!(exchange.doing, CalleeActionOf::Finish);
    moves
}

#[test]
fn transmit_host() {
    for seed in 0..500 {
        assert_eq!(run_exchange(seed), 20);
    }
}

fn caller(future_tx: bool, stream_rx: bool, future_rx: bool) -> Caller {
    Caller {
        future_tx,
        stream_rx,
        future_rx,
        complete: false,
    }
}

#[test]
fn caller_commands() {
    let (mut caller, commands) = Caller::start();
    assert_eq!(
        commands,
        vec![
            CommandOf::WriteControl(Letter::A, ControlOf::ReadStream(s("a"))),
            CommandOf::WriteStream(s("a")),
            CommandOf::Call,
        ]
    );
    for (letter, command) in [
        (
            Letter::A,
            CommandOf::WriteControl(Letter::B, ControlOf::ReadFuture(s("b"))),
        ),
        (
            Letter::B,
            CommandOf::WriteControl(Letter::C, ControlOf::WriteStream(s("c"))),
        ),
        (
            Letter::C,
            CommandOf::WriteControl(Letter::D, ControlOf::WriteFuture(s("d"))),
        ),
        (Letter::D, CommandOf::CloseControl),
    ] {
        assert_eq!(
            caller.handle(CallerEventOf::ControlWrite(letter)),
            Ok(vec![command])
        );
    }
    assert_eq!(
        caller.handle(CallerEventOf::WriteA),
        Ok(vec![CommandOf::CloseStream, CommandOf::WriteFuture(s("b"))])
    );
    assert_eq!(
        caller.handle(CallerEventOf::Result),
        Ok(vec![CommandOf::CloseSecondFuture])
    );
    assert_eq!(caller.handle(CallerEventOf::WriteB), Ok(vec![CommandOf::ReadC]));
    assert_eq!(
        caller.handle(CallerEventOf::ReadC(Some(vec![s("c")]))),
        Ok(vec![CommandOf::ReadD])
    );
    assert_eq!(
        caller.handle(CallerEventOf::ReadD(Some(s("d")))),
        Ok(vec![CommandOf::ReadNone])
    );
    assert!(!caller.complete);
    assert_eq!(caller.handle(CallerEventOf::ReadNone(None)), Ok(vec![]));
    assert!(caller.complete);
}

#[test]
fn caller_errors() {
    for (state, event, error) in [
        (
            caller(false, false, false),
            CallerEventOf::WriteA,
            CallerError::FutureAlreadyWritten,
        ),
        (
            caller(false, false, false),
            CallerEventOf::WriteB,
            CallerError::NoStream,
        ),
        (
            caller(false, false, true),
            CallerEventOf::ReadC(None),
            CallerError::StreamEnded,
        ),
        (
            caller(false, false, true),
            CallerEventOf::ReadC(Some(vec![])),
            CallerError::StreamMismatch,
        ),
        (
            caller(false, false, true),
            CallerEventOf::ReadC(Some(vec![s("d"), s("c")])),
            CallerError::StreamMismatch,
        ),
        (
            caller(false, false, false),
            CallerEventOf::ReadC(Some(vec![s("c")])),
            CallerError::NoFuture,
        ),
        (
            caller(false, true, false),
            CallerEventOf::ReadD(None),
            CallerError::FutureDropped,
        ),
        (
            caller(false, true, false),
            CallerEventOf::ReadD(Some(s("c"))),
            CallerError::FutureMismatch,
        ),
        (
            caller(false, false, false),
            CallerEventOf::ReadD(Some(s("d"))),
            CallerError::NoStream,
        ),
        (
            caller(false, false, false),
            CallerEventOf::ReadNone(Some(vec![])),
            CallerError::StreamNotEnded,
        ),
        (
            caller(true, false, false),
            CallerEventOf::Failed,
            CallerError::Failed,
        ),
    ] {
        let mut after = state;
        assert_eq!(after.handle(event), Err(error));
        assert_eq!(after, state);
    }
}

#[test]
fn caller_needs_the_result_first() {
    let (mut caller, _) = Caller::start();
    caller.handle(CallerEventOf::WriteA).unwrap();
    assert_eq!(caller.handle(CallerEventOf::WriteB), Err(CallerError::NoStream));
}

#[test]
fn caller_looks_at_the_first_value() {
    let mut caller = caller(false, false, true);
    assert_eq!(
        caller.handle(CallerEventOf::ReadC(Some(vec![s("c"), s("x")]))),
        Ok(vec![CommandOf::ReadD])
    );
    assert!(caller.stream_rx && !caller.future_rx);
}
