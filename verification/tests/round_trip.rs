use component_async_demo::guest::{Composition, Guest};
use component_async_demo::host::{first_string, foo, foo_dynamic, not_found_message, ValOf};
use component_async_demo::round_trip::{
    ActionOf, Api, EventOf, LookUp, Outcome, OutcomeOf, RoundTrip,
};

const INPUT: &str = "hello, world!";

const ONE_GUEST: &str = "hello, world! - entered guest - entered host - exited host - exited guest";

const TWO_GUESTS: &str = "hello, world! - entered guest - entered guest - entered host \
                          - exited host - exited guest - exited guest";

fn single(guest: Guest) -> Composition {
    Composition::single(guest)
}

fn compose(a: Guest, b: Guest) -> Composition {
    Composition::compose(single(a), single(b))
}

/// Checks `component`, whose calls return in the order opposite to that in which
/// they were started, and counts the calls made each way.
fn outcome(component: &Composition, expected: &str) -> (Outcome, usize, usize) {
    let (mut check, mut action) = RoundTrip::start(INPUT.to_owned(), expected.to_owned());
    let mut running = Vec::new();
    let mut static_calls = 0;
    let mut dynamic_calls = 0;
    loop {
        let event = match action {
            ActionOf::Instantiate(_) => EventOf::Instantiated,
            ActionOf::LookUp(_) => EventOf::LookedUp(true),
            ActionOf::Call(api, s) => {
                assert_eq!(s, INPUT);
                match api {
                    Api::Static => static_calls += 1,
                    Api::Dynamic => dynamic_calls += 1,
                }
                running.push(component.foo(s));
                EventOf::Called
            }
            ActionOf::Next(Api::Static) => EventOf::Result(running.pop()),
            ActionOf::Next(Api::Dynamic) => {
                EventOf::Results(running.pop().map(|s| vec![ValOf::String(s)]))
            }
            ActionOf::Finish(outcome) => return (outcome, static_calls, dynamic_calls),
        };
        action = check.step(event);
    }
}

fn test_round_trip(component: Composition, expected: &str) {
    assert_eq!(component.foo(INPUT.to_owned()), expected);
    assert_eq!(outcome(&component, expected), (OutcomeOf::Success, 3, 3));
}

#[test]
fn guest_async() {
    test_round_trip(single(Guest::Async), ONE_GUEST);
}

#[test]
fn guest_sync() {
    test_round_trip(single(Guest::Sync), ONE_GUEST);
}

#[test]
fn guest_async_async() {
    test_round_trip(compose(Guest::Async, Guest::Async), TWO_GUESTS);
}

#[test]
fn guest_sync_async() {
    test_round_trip(compose(Guest::Sync, Guest::Async), TWO_GUESTS);
}

#[test]
fn guest_async_sync() {
    test_round_trip(compose(Guest::Async, Guest::Sync), TWO_GUESTS);
}

#[test]
fn guest_sync_sync() {
    test_round_trip(compose(Guest::Sync, Guest::Sync), TWO_GUESTS);
}

#[test]
fn guest_wait() {
    test_round_trip(single(Guest::Wait), ONE_GUEST);
}

#[test]
fn guest_wait_wait() {
    test_round_trip(compose(Guest::Wait, Guest::Wait), TWO_GUESTS);
}

#[test]
fn guest_sync_wait() {
    test_round_trip(compose(Guest::Sync, Guest::Wait), TWO_GUESTS);
}

#[test]
fn guest_wait_sync() {
    test_round_trip(compose(Guest::Wait, Guest::Sync), TWO_GUESTS);
}

#[test]
fn guest_async_wait() {
    test_round_trip(compose(Guest::Async, Guest::Wait), TWO_GUESTS);
}

#[test]
fn guest_wait_async() {
    test_round_trip(compose(Guest::Wait, Guest::Async), TWO_GUESTS);
}

#[test]
fn halves_of_a_guest() {
    assert_eq!(Guest::Async.import_argument("x".to_owned()), "x - entered guest");
    assert_eq!(Guest::Wait.export_result("x".to_owned()), "x - exited guest");
    assert_eq!(Guest::Sync.import_argument(String::new()), " - entered guest");
}

#[test]
fn compositions_of_compositions() {
    let a = Composition::compose(compose(Guest::Async, Guest::Wait), single(Guest::Sync));
    let b = Composition::compose(single(Guest::Sync), compose(Guest::Async, Guest::Async));
    let expected = "\u{e9} - entered guest - entered guest - entered guest - entered host \
                    - exited host - exited guest - exited guest - exited guest";
    assert_eq!(a.foo("\u{e9}".to_owned()), expected);
    assert_eq!(b.foo("\u{e9}".to_owned()), expected);
}

#[test]
fn different_inputs_give_different_results() {
    let component = compose(Guest::Async, Guest::Sync);
    let a = component.foo("a".to_owned());
    let b = component.foo("a - entered guest".to_owned());
    assert_ne!(a, b);
    assert!(a.starts_with("a"));
    assert!(b.starts_with("a - entered guest"));
}

#[test]
fn host_foo() {
    assert_eq!(foo("x".to_owned()), "x - entered host - exited host");
    assert_eq!(
        foo_dynamic(vec![ValOf::String("x".to_owned()), ValOf::Other]),
        vec![ValOf::String("x - entered host - exited host".to_owned())]
    );
}

#[test]
fn imports_answer_alike() {
    for s in ["", "x", "hello, world! - entered guest"] {
        assert_eq!(
            foo_dynamic(vec![ValOf::String(s.to_owned())]),
            vec![ValOf::String(foo(s.to_owned()))]
        );
    }
}

#[test]
fn first_string_of_values() {
    assert_eq!(first_string(vec![]), None);
    assert_eq!(first_string(vec![ValOf::Other, ValOf::String("x".to_owned())]), None);
    assert_eq!(
        first_string(vec![ValOf::String("x".to_owned()), ValOf::Other]),
        Some("x".to_owned())
    );
}

/// Collects what the two rounds of calls of `component` return.
fn outputs(component: &Composition, expected: &str) -> (Vec<String>, Vec<String>) {
    let (mut check, mut action) = RoundTrip::start(INPUT.to_owned(), expected.to_owned());
    let mut running = Vec::new();
    let mut outputs = (Vec::new(), Vec::new());
    loop {
        let event = match action {
            ActionOf::Instantiate(_) => EventOf::Instantiated,
            ActionOf::LookUp(_) => EventOf::LookedUp(true),
            ActionOf::Call(_, s) => {
                running.push(component.foo(s));
                EventOf::Called
            }
            ActionOf::Next(Api::Static) => {
                let output = running.pop();
                outputs.0.extend(output.clone());
                EventOf::Result(output)
            }
            ActionOf::Next(Api::Dynamic) => {
                let output = running.pop();
                outputs.1.extend(output.clone());
                EventOf::Results(output.map(|s| vec![ValOf::String(s)]))
            }
            ActionOf::Finish(_) => return outputs,
        };
        action = check.step(event);
    }
}

#[test]
fn both_rounds_return_the_same() {
    let (first, second) = outputs(&single(Guest::Wait), ONE_GUEST);
    assert_eq!(first, vec![ONE_GUEST; 3]);
    assert_eq!(second, first);
}

#[test]
fn unexpected_result() {
    let (outcome, static_calls, dynamic_calls) = outcome(&single(Guest::Async), TWO_GUESTS);
    assert_eq!(outcome, OutcomeOf::Mismatch(ONE_GUEST.to_owned()));
    assert_eq!((static_calls, dynamic_calls), (3, 0));
}

/// A check of which the static calls have passed.
fn dynamic_check() -> RoundTrip {
    let (mut check, action) = RoundTrip::start("in".to_owned(), "out".to_owned());
    assert_eq!(action, ActionOf::Instantiate(Api::Static));
    assert_eq!(
        check.step(EventOf::Instantiated),
        ActionOf::Call(Api::Static, "in".to_owned())
    );
    assert_eq!(
        check.step(EventOf::Called),
        ActionOf::Call(Api::Static, "in".to_owned())
    );
    assert_eq!(
        check.step(EventOf::Called),
        ActionOf::Call(Api::Static, "in".to_owned())
    );
    assert_eq!(check.step(EventOf::Called), ActionOf::Next(Api::Static));
    for _ in 0..3 {
        assert_eq!(
            check.step(EventOf::Result(Some("out".to_owned()))),
            ActionOf::Next(Api::Static)
        );
    }
    assert_eq!(
        check.step(EventOf::Result(None)),
        ActionOf::Instantiate(Api::Dynamic)
    );
    check
}

#[test]
fn failures_end_the_check() {
    let failed = ActionOf::Finish(OutcomeOf::Failed);

    let (mut check, _) = RoundTrip::start("in".to_owned(), "out".to_owned());
    assert_eq!(check.step(EventOf::Failed), failed);

    for done in 0..5 {
        let (mut check, _) = RoundTrip::start("in".to_owned(), "out".to_owned());
        check.step(EventOf::Instantiated);
        for _ in 0..done.min(3) {
            check.step(EventOf::Called);
        }
        if done == 4 {
            check.step(EventOf::Result(Some("out".to_owned())));
        }
        assert_eq!(check.step(EventOf::Failed), failed);
    }

    let mut check = dynamic_check();
    assert_eq!(check.step(EventOf::Failed), failed);

    let mut check = dynamic_check();
    check.step(EventOf::Instantiated);
    for _ in 0..3 {
        check.step(EventOf::LookedUp(true));
    }
    assert_eq!(
        check.step(EventOf::Called),
        ActionOf::Call(Api::Dynamic, "in".to_owned())
    );
    assert_eq!(check.step(EventOf::Failed), failed);
}

#[test]
fn nothing_found() {
    let order = [LookUp::Instance, LookUp::Export, LookUp::Function];
    for missing in 0..3 {
        let mut check = dynamic_check();
        let mut action = check.step(EventOf::Instantiated);
        for what in &order[..missing] {
            assert_eq!(action, ActionOf::LookUp(*what));
            action = check.step(EventOf::LookedUp(true));
        }
        assert_eq!(action, ActionOf::LookUp(order[missing]));
        assert_eq!(
            check.step(EventOf::LookedUp(false)),
            ActionOf::Finish(OutcomeOf::NotFound(order[missing]))
        );
    }
    assert_eq!(
        LookUp::Instance.not_found_message(),
        "can't find `local:local/baz` in instance"
    );
    assert_eq!(LookUp::Export.not_found_message(), "can't find `foo` in instance");
    assert_eq!(LookUp::Function.not_found_message(), "can't find `foo` in instance");
    assert_eq!(not_found_message("exchange"), "can't find `exchange` in instance");
}

#[test]
fn dynamic_results() {
    for (values, expected) in [
        (vec![], ActionOf::Finish(OutcomeOf::NotAString)),
        (vec![ValOf::Other], ActionOf::Finish(OutcomeOf::NotAString)),
        (
            vec![ValOf::String("in".to_owned())],
            ActionOf::Finish(OutcomeOf::Mismatch("in".to_owned())),
        ),
        (vec![ValOf::String("out".to_owned())], ActionOf::Next(Api::Dynamic)),
    ] {
        let mut check = dynamic_check();
        check.step(EventOf::Instantiated);
        for _ in 0..3 {
            check.step(EventOf::LookedUp(true));
        }
        for _ in 0..3 {
            check.step(EventOf::Called);
        }
        assert_eq!(check.step(EventOf::Results(Some(values))), expected);
    }
}
