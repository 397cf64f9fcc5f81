// The interfaces between the host and its guests.
package local:local;

interface baz {
    foo: async func(s: string) -> string;
}

interface continue {
    set-continue: func(v: bool);
    get-continue: func() -> bool;
}

interface ready {
    set-ready: func(ready: bool);
    when-ready: async func();
}

interface run {
    run: async func();
}

interface backpressure {
    set-backpressure: func(enabled: bool);
}

interface transmit {
    variant control {
        read-stream(string),
        read-future(string),
        write-stream(string),
        write-future(string),
    }

    exchange: async func(
        control: stream<control>,
        caller-stream: stream<string>,
        caller-future1: future<string>,
        caller-future2: future<string>,
    ) -> tuple<stream<string>, future<string>, future<string>>;
}

// Guests that pass a string on.
world round-trip {
    import baz;
    export baz;
}

// What the host offers to a component that is run.
world yield-host {
    import continue;
    import ready;
    export run;
}

// A guest that looks at the readiness flag.
world poll {
    import ready;
    export run;
}

// A guest that yields.
world yield-callee {
    import continue;
    export run;
}

// A guest that turns backpressure on and off.
world backpressure-callee {
    export backpressure;
    export run;
}

// The guest of an exchange.
world transmit-callee {
    export transmit;
}
