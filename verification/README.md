# component-async-demo

A host and its guests that call each other concurrently, with the decisions
they take proved in Verus.

- `src/` is the library.  It is free of I/O and of asynchronous code: what a
  guest hands on, what wakes whom, and what follows from an event are functions
  with contracts.
  - `host`, `guest`: the marks that a string collects on its way down a stack of
    guests and back, and the flag by which a guest is told to carry on.
  - `join`, `round_trip`: the check that a component answers as expected, three
    concurrent calls at a time.
  - `ready`, `poll`, `yielding`, `backpressure`: waiting, polling, yielding and
    holding back calls.
  - `callee`, `caller`, `exchange`: the two sides of an exchange over streams
    and futures, and the proof that together they always come to an end.
  - `echo`, `codec`: the check that a component echoes an HTTP request,
    compressed or not.
- `app/` runs components with wasmtime, performs what the library asks for and
  reports back what happened.  `app/guests.rs` holds what the guests do.
- `extras/wit/` describes the interfaces of the components.
- `tests/` runs the library on concrete values.

Laws that relate several functions are the public proof functions whose names
begin with `law_`.
