//! Checking that a component answers `foo` as expected.
//!
//! The component is exercised twice, through bindings that know its type and
//! through bindings that find it by name.  Each time a few calls are started
//! before the first result is looked at, and every result has to be the
//! expected one.
use vstd::multiset::Multiset;
use vstd::prelude::*;

use crate::guest::round_trip_result;
use crate::host::{first_string, not_found_message, Val};
#[allow(unused_imports)]
use crate::host::{
    foo_dynamic_result, foo_result, law_imports_answer_alike, leading_string, not_found, views, ValOf,
};
use crate::join::Join;
#[allow(unused_imports)]
use crate::join::CALLS;

verus! {

/// The way in which a component is called.
#[derive(Debug, Clone, Copy, PartialEq, Eq)]
pub enum Api {
    /// Through bindings generated from its type.
    Static,
    /// By name, with dynamically typed values.
    Dynamic,
}

/// What has to be found in an instance before it can be called by name.
#[derive(Debug, Clone, Copy, PartialEq, Eq)]
pub enum LookUp {
    /// The exported interface.
    Instance,
    /// The export `foo` of that interface.
    Export,
    /// The function that the export stands for.
    Function,
}

impl LookUp {
    /// What is reported when this is not found.
    pub fn not_found_message(&self) -> (r: String)
        ensures
            r@ == not_found(
                match self {
                    LookUp::Instance => "local:local/baz"@,
                    LookUp::Export | LookUp::Function => "foo"@,
                },
            ),
    {
        match self {
            LookUp::Instance => not_found_message("local:local/baz"),
            LookUp::Export | LookUp::Function => not_found_message("foo"),
        }
    }
}

/// Where the check stands.
#[derive(Debug, Clone, Copy, PartialEq, Eq)]
pub enum Stage {
    Instantiate(Api),
    LookUp(LookUp),
    Calls(Api, Join),
    Over,
}

/// How the check ended.
#[derive(Debug, PartialEq, Eq)]
pub enum OutcomeOf<T> {
    /// Every result was the expected one.
    Success,
    /// The instance lacks what was looked for.
    NotFound(LookUp),
    /// A call returned this instead of the expected string.
    Mismatch(T),
    /// A call by name returned something that does not begin with a string.
    NotAString,
    /// What was to be done could not be done.
    Failed,
}

/// What is to be done next.
#[derive(Debug, PartialEq, Eq)]
pub enum ActionOf<T> {
    /// Instantiate the component.
    Instantiate(Api),
    /// Look something up in the instance.
    LookUp(LookUp),
    /// Start a call of `foo` with this argument.
    Call(Api, T),
    /// Wait for the next result.
    Next(Api),
    /// Stop.
    Finish(OutcomeOf<T>),
}

/// What happened: `T` is a string, and `L` a list of dynamically typed values.
#[derive(Debug, PartialEq, Eq)]
pub enum EventOf<T, L> {
    /// The component was instantiated.
    Instantiated,
    /// Something was looked up, and found or not.
    LookedUp(bool),
    /// A call was started.
    Called,
    /// A call returned a string, or no call is left.
    Result(Option<T>),
    /// A call by name returned values, or no call is left.
    Results(Option<L>),
    /// What was to be done failed: the component could not be instantiated, a
    /// call could not be started, or a call ended without a result.
    Failed,
}

pub type Outcome = OutcomeOf<String>;

pub type Action = ActionOf<String>;

pub type Event = EventOf<String, Vec<Val>>;

/// What happened, over mathematical strings.
pub type EventView = EventOf<Seq<char>, Seq<ValOf<Seq<char>>>>;

impl View for OutcomeOf<String> {
    type V = OutcomeOf<Seq<char>>;

    open spec fn view(&self) -> OutcomeOf<Seq<char>> {
        match self {
            OutcomeOf::Success => OutcomeOf::Success,
            OutcomeOf::NotFound(what) => OutcomeOf::NotFound(*what),
            OutcomeOf::Mismatch(s) => OutcomeOf::Mismatch(s@),
            OutcomeOf::NotAString => OutcomeOf::NotAString,
            OutcomeOf::Failed => OutcomeOf::Failed,
        }
    }
}

impl View for ActionOf<String> {
    type V = ActionOf<Seq<char>>;

    open spec fn view(&self) -> ActionOf<Seq<char>> {
        match self {
            ActionOf::Instantiate(api) => ActionOf::Instantiate(*api),
            ActionOf::LookUp(what) => ActionOf::LookUp(*what),
            ActionOf::Call(api, s) => ActionOf::Call(*api, s@),
            ActionOf::Next(api) => ActionOf::Next(*api),
            ActionOf::Finish(outcome) => ActionOf::Finish(outcome@),
        }
    }
}

impl View for EventOf<String, Vec<Val>> {
    type V = EventView;

    open spec fn view(&self) -> EventView {
        match self {
            EventOf::Instantiated => EventOf::Instantiated,
            EventOf::LookedUp(found) => EventOf::LookedUp(*found),
            EventOf::Called => EventOf::Called,
            EventOf::Result(Some(s)) => EventOf::Result(Some(s@)),
            EventOf::Result(None) => EventOf::Result(None),
            EventOf::Results(Some(values)) => EventOf::Results(Some(views(values@))),
            EventOf::Results(None) => EventOf::Results(None),
            EventOf::Failed => EventOf::Failed,
        }
    }
}

/// Whether `event` can happen at `stage`: it is the end of what was to be done.
/// Whatever was to be done can fail.
pub open spec fn awaits(stage: Stage, event: EventView) -> bool {
    match stage {
        Stage::Over => false,
        _ if event is Failed => true,
        Stage::Instantiate(_) => event is Instantiated,
        Stage::LookUp(_) => event is LookedUp,
        Stage::Calls(_, Join::Calling(_)) => event is Called,
        Stage::Calls(Api::Static, Join::Joining) => event is Result,
        Stage::Calls(Api::Dynamic, Join::Joining) => event is Results,
        _ => false,
    }
}

/// Where the check goes, and what is to be done, when a round of calls stands
/// at `join`.
pub open spec fn in_calls(input: Seq<char>, api: Api, join: Join) -> (
    Stage,
    ActionOf<Seq<char>>,
) {
    match join {
        Join::Calling(_) => (Stage::Calls(api, join), ActionOf::Call(api, input)),
        Join::Joining => (Stage::Calls(api, join), ActionOf::Next(api)),
        Join::Joined => match api {
            Api::Static => (
                Stage::Instantiate(Api::Dynamic),
                ActionOf::Instantiate(Api::Dynamic),
            ),
            Api::Dynamic => (Stage::Over, ActionOf::Finish(OutcomeOf::Success)),
        },
    }
}

/// Where the check goes, and what is to be done, when a call has returned
/// `value`: `None` stands for something that is no string.
pub open spec fn on_value(
    input: Seq<char>,
    expected: Seq<char>,
    api: Api,
    join: Join,
    value: Option<Seq<char>>,
) -> (Stage, ActionOf<Seq<char>>) {
    match value {
        None => (Stage::Over, ActionOf::Finish(OutcomeOf::NotAString)),
        Some(s) => if s == expected {
            in_calls(input, api, join.after_wait(true))
        } else {
            (Stage::Over, ActionOf::Finish(OutcomeOf::Mismatch(s)))
        },
    }
}

/// The order in which things are looked up; calls by name follow.
pub open spec fn on_found(input: Seq<char>, what: LookUp) -> (Stage, ActionOf<Seq<char>>) {
    match what {
        LookUp::Instance => (Stage::LookUp(LookUp::Export), ActionOf::LookUp(LookUp::Export)),
        LookUp::Export => (Stage::LookUp(LookUp::Function), ActionOf::LookUp(LookUp::Function)),
        LookUp::Function => in_calls(input, Api::Dynamic, Join::Calling(0)),
    }
}

/// Where the check goes from `stage` on `event`, and what is to be done.
pub open spec fn next(
    input: Seq<char>,
    expected: Seq<char>,
    stage: Stage,
    event: EventView,
) -> (Stage, ActionOf<Seq<char>>) {
    match (stage, event) {
        (_, EventOf::Failed) => (Stage::Over, ActionOf::Finish(OutcomeOf::Failed)),
        (Stage::Instantiate(Api::Static), EventOf::Instantiated) => in_calls(
            input,
            Api::Static,
            Join::Calling(0),
        ),
        (Stage::Instantiate(Api::Dynamic), EventOf::Instantiated) => (
            Stage::LookUp(LookUp::Instance),
            ActionOf::LookUp(LookUp::Instance),
        ),
        (Stage::LookUp(what), EventOf::LookedUp(found)) => if found {
            on_found(input, what)
        } else {
            (Stage::Over, ActionOf::Finish(OutcomeOf::NotFound(what)))
        },
        (Stage::Calls(api, join), EventOf::Called) => in_calls(input, api, join.after_call()),
        (Stage::Calls(api, join), EventOf::Result(Some(s))) => on_value(
            input,
            expected,
            api,
            join,
            Some(s),
        ),
        (Stage::Calls(api, join), EventOf::Results(Some(values))) => on_value(
            input,
            expected,
            api,
            join,
            leading_string(values),
        ),
        (Stage::Calls(api, join), _) => in_calls(input, api, join.after_wait(false)),
        _ => arbitrary(),
    }
}

/// A check of one component.
#[derive(Debug)]
pub struct RoundTrip {
    input: String,
    expected_output: String,
    stage: Stage,
}

impl RoundTrip {
    /// The argument of every call.
    pub closed spec fn input(&self) -> Seq<char> {
        self.input@
    }

    /// What every call has to return.
    pub closed spec fn expected_output(&self) -> Seq<char> {
        self.expected_output@
    }

    /// Where the check stands.
    pub closed spec fn stage(&self) -> Stage {
        self.stage
    }

    /// Begins a check; the component is to be instantiated with static bindings.
    pub fn start(input: String, expected_output: String) -> (r: (RoundTrip, Action))
        ensures
            r.0.input() == input@,
            r.0.expected_output() == expected_output@,
            r.0.stage() == Stage::Instantiate(Api::Static),
            r.1@ == ActionOf::<Seq<char>>::Instantiate(Api::Static),
    {
        (
            RoundTrip { input, expected_output, stage: Stage::Instantiate(Api::Static) },
            ActionOf::Instantiate(Api::Static),
        )
    }

    /// Takes the check one step on.
    pub fn step(&mut self, event: Event) -> (action: Action)
        requires
            awaits(old(self).stage(), event@),
        ensures
            final(self).input() == old(self).input(),
            final(self).expected_output() == old(self).expected_output(),
            (final(self).stage(), action@) == next(
                old(self).input(),
                old(self).expected_output(),
                old(self).stage(),
                event@,
            ),
    {
        match (self.stage, event) {
            (_, EventOf::Failed) => self.finish(OutcomeOf::Failed),
            (Stage::Instantiate(Api::Static), _) => self.go_on(Api::Static, Join::new()),
            (Stage::Instantiate(Api::Dynamic), _) => self.look_up(LookUp::Instance),
            (Stage::LookUp(what), EventOf::LookedUp(found)) => {
                if !found {
                    self.finish(OutcomeOf::NotFound(what))
                } else {
                    match what {
                        LookUp::Instance => self.look_up(LookUp::Export),
                        LookUp::Export => self.look_up(LookUp::Function),
                        LookUp::Function => self.go_on(Api::Dynamic, Join::new()),
                    }
                }
            },
            (Stage::Calls(api, join), EventOf::Called) => {
                let mut join = join;
                join.called();
                self.go_on(api, join)
            },
            (Stage::Calls(api, join), EventOf::Result(Some(s))) => {
                self.check(api, join, Some(s))
            },
            (Stage::Calls(api, join), EventOf::Results(Some(values))) => {
                self.check(api, join, first_string(values))
            },
            (Stage::Calls(api, join), _) => {
                let mut join = join;
                join.waited(false);
                self.go_on(api, join)
            },
            _ => {
                assert(false);
                self.finish(OutcomeOf::NotAString)
            },
        }
    }

    fn look_up(&mut self, what: LookUp) -> (action: Action)
        ensures
            final(self).input() == old(self).input(),
            final(self).expected_output() == old(self).expected_output(),
            final(self).stage() == Stage::LookUp(what),
            action@ == ActionOf::<Seq<char>>::LookUp(what),
    {
        self.stage = Stage::LookUp(what);
        ActionOf::LookUp(what)
    }

    fn finish(&mut self, outcome: Outcome) -> (action: Action)
        ensures
            final(self).input() == old(self).input(),
            final(self).expected_output() == old(self).expected_output(),
            final(self).stage() == Stage::Over,
            action@ == ActionOf::Finish(outcome@),
    {
        self.stage = Stage::Over;
        ActionOf::Finish(outcome)
    }

    fn go_on(&mut self, api: Api, join: Join) -> (action: Action)
        ensures
            final(self).input() == old(self).input(),
            final(self).expected_output() == old(self).expected_output(),
            (final(self).stage(), action@) == in_calls(old(self).input(), api, join),
    {
        match join {
            Join::Calling(_) => {
                self.stage = Stage::Calls(api, join);
                ActionOf::Call(api, self.input.clone())
            },
            Join::Joining => {
                self.stage = Stage::Calls(api, join);
                ActionOf::Next(api)
            },
            Join::Joined => match api {
                Api::Static => {
                    self.stage = Stage::Instantiate(Api::Dynamic);
                    ActionOf::Instantiate(Api::Dynamic)
                },
                Api::Dynamic => self.finish(OutcomeOf::Success),
            },
        }
    }

    fn check(&mut self, api: Api, join: Join, value: Option<String>) -> (action: Action)
        ensures
            final(self).input() == old(self).input(),
            final(self).expected_output() == old(self).expected_output(),
            (final(self).stage(), action@) == on_value(
                old(self).input(),
                old(self).expected_output(),
                api,
                join,
                match value {
                    Some(s) => Some(s@),
                    None => None,
                },
            ),
    {
        match value {
            None => self.finish(OutcomeOf::NotAString),
            Some(s) => {
                if s == self.expected_output {
                    let mut join = join;
                    join.waited(true);
                    self.go_on(api, join)
                } else {
                    self.finish(OutcomeOf::Mismatch(s))
                }
            },
        }
    }
}

/// Where the check stands, and what is to be done, after `events`.
pub open spec fn after(input: Seq<char>, expected: Seq<char>, events: Seq<EventView>) -> (
    Stage,
    ActionOf<Seq<char>>,
)
    decreases events.len(),
{
    if events.len() == 0 {
        (Stage::Instantiate(Api::Static), ActionOf::Instantiate(Api::Static))
    } else {
        next(input, expected, after(input, expected, events.drop_last()).0, events.last())
    }
}

/// Whether `events` can happen one after the other.
pub open spec fn possible(input: Seq<char>, expected: Seq<char>, events: Seq<EventView>) -> bool
    decreases events.len(),
{
    events.len() > 0 ==> {
        &&& possible(input, expected, events.drop_last())
        &&& awaits(after(input, expected, events.drop_last()).0, events.last())
    }
}

/// Whether `event` is no reason to fail: what was to be done was done, what was
/// looked up was found, what was returned is `expected`.
pub open spec fn passes(expected: Seq<char>, event: EventView) -> bool {
    match event {
        EventOf::Failed => false,
        EventOf::LookedUp(found) => found,
        EventOf::Result(Some(s)) => s == expected,
        EventOf::Results(Some(values)) => leading_string(values) == Some(expected),
        _ => true,
    }
}

/// Whether none of `events` is a reason to fail.
pub open spec fn all_pass(expected: Seq<char>, events: Seq<EventView>) -> bool {
    forall|i: int| 0 <= i < events.len() ==> passes(expected, #[trigger] events[i])
}

/// How many calls have been started through `api` in the course of `events`.
pub open spec fn calls_started(
    input: Seq<char>,
    expected: Seq<char>,
    events: Seq<EventView>,
    api: Api,
) -> nat
    decreases events.len(),
{
    if events.len() == 0 {
        0
    } else {
        let before = events.drop_last();
        let here = if after(input, expected, before).1 == ActionOf::Call(api, input)
            && events.last() is Called {
            1
        } else {
            0nat
        };
        calls_started(input, expected, before, api) + here
    }
}

/// The arguments of the calls that were started through `api` in the course of
/// `events`, in order.
pub open spec fn calls_of(
    input: Seq<char>,
    expected: Seq<char>,
    events: Seq<EventView>,
    api: Api,
) -> Seq<Seq<char>>
    decreases events.len(),
{
    if events.len() == 0 {
        Seq::empty()
    } else {
        let before = events.drop_last();
        let calls = calls_of(input, expected, before, api);
        match (after(input, expected, before).1, events.last()) {
            (ActionOf::Call(through, argument), EventOf::Called) if through == api => calls.push(
                argument,
            ),
            _ => calls,
        }
    }
}

/// How many calls have been started through `api` by the time the check stands
/// at `stage` without having failed.
spec fn calls_due(stage: Stage, api: Api) -> nat {
    match (stage, api) {
        (Stage::Instantiate(Api::Static), _) => 0,
        (Stage::Calls(Api::Static, _), Api::Dynamic) => 0,
        (Stage::Instantiate(Api::Dynamic), Api::Dynamic) => 0,
        (Stage::LookUp(_), Api::Dynamic) => 0,
        (Stage::Calls(Api::Static, Join::Calling(k)), Api::Static) => k as nat,
        (Stage::Calls(Api::Dynamic, Join::Calling(k)), Api::Dynamic) => k as nat,
        _ => CALLS as nat,
    }
}

/// None of `events` is a reason to fail exactly if neither the last is nor one
/// before it.
proof fn lemma_all_pass(expected: Seq<char>, events: Seq<EventView>)
    requires
        events.len() > 0,
    ensures
        all_pass(expected, events) <==> all_pass(expected, events.drop_last()) && passes(
            expected,
            events.last(),
        ),
{
    let before = events.drop_last();
    if all_pass(expected, before) && passes(expected, events.last()) {
        assert forall|i: int| 0 <= i < events.len() implies passes(
            expected,
            #[trigger] events[i],
        ) by {
            if i < before.len() {
                assert(passes(expected, before[i]));
            }
        }
    }
    if all_pass(expected, events) {
        assert forall|i: int| 0 <= i < before.len() implies passes(
            expected,
            #[trigger] before[i],
        ) by {
            assert(passes(expected, events[i]));
        }
        assert(passes(expected, events[events.len() - 1]));
    }
}

/// What is to be done goes with where the check stands, which has failed only if
/// an event was a reason to.
proof fn lemma_after(input: Seq<char>, expected: Seq<char>, events: Seq<EventView>)
    requires
        possible(input, expected, events),
    ensures
        ({
            let (stage, action) = after(input, expected, events);
            &&& stage is Over <==> action is Finish
            &&& stage matches Stage::LookUp(what) ==> action == ActionOf::<Seq<char>>::LookUp(what)
            &&& stage matches Stage::Calls(api, join) ==> {
                &&& !(join is Joined)
                &&& join matches Join::Calling(k) ==> k < CALLS && action == ActionOf::Call(
                    api,
                    input,
                )
                &&& join is Joining ==> action == ActionOf::<Seq<char>>::Next(api)
            }
            &&& (action is Call ==> stage is Calls)
            &&& all_pass(expected, events) <==> !(action is Finish && action
                != ActionOf::<Seq<char>>::Finish(OutcomeOf::Success))
            &&& all_pass(expected, events) ==> {
                &&& calls_started(input, expected, events, Api::Static) == calls_due(
                    stage,
                    Api::Static,
                )
                &&& calls_started(input, expected, events, Api::Dynamic) == calls_due(
                    stage,
                    Api::Dynamic,
                )
            }
        }),
    decreases events.len(),
{
    if events.len() > 0 {
        let before = events.drop_last();
        lemma_after(input, expected, before);
        lemma_all_pass(expected, events);
    }
}

/// A check ends in success exactly if nothing failed, everything looked up was
/// found and every result was the expected one, and then [`CALLS`] calls with the given input
/// have been started each way.  It fails on the first event that says otherwise.
pub proof fn law_verdict(input: Seq<char>, expected: Seq<char>, events: Seq<EventView>)
    requires
        possible(input, expected, events),
    ensures
        ({
            let action = after(input, expected, events).1;
            &&& action == ActionOf::<Seq<char>>::Finish(OutcomeOf::Success) ==> {
                &&& all_pass(expected, events)
                &&& calls_started(input, expected, events, Api::Static) == CALLS
                &&& calls_started(input, expected, events, Api::Dynamic) == CALLS
            }
            &&& all_pass(expected, events) && action is Finish ==> action
                == ActionOf::<Seq<char>>::Finish(OutcomeOf::Success)
            &&& !all_pass(expected, events) ==> {
                &&& action is Finish
                &&& all_pass(expected, events.drop_last())
                &&& !passes(expected, events.last())
            }
        }),
{
    lemma_after(input, expected, events);
    if !all_pass(expected, events) {
        lemma_after(input, expected, events.drop_last());
        lemma_all_pass(expected, events);
    }
}

/// The first failure ends the check and is what it reports: it says what could not
/// be found, what came instead of the expected string, or that what was to be done
/// failed, as the last event and no other says.  No call is started then, and
/// nothing happens after.
pub proof fn law_first_failure_ends_the_check(
    input: Seq<char>,
    expected: Seq<char>,
    events: Seq<EventView>,
)
    requires
        possible(input, expected, events),
        events.len() > 0,
        !passes(expected, events.last()),
    ensures
        all_pass(expected, events.drop_last()),
        after(input, expected, events) == (
            Stage::Over,
            ActionOf::Finish(
                match events.last() {
                    EventOf::LookedUp(_) => OutcomeOf::NotFound(
                        after(input, expected, events.drop_last()).1->LookUp_0,
                    ),
                    EventOf::Result(value) => OutcomeOf::Mismatch(value.unwrap()),
                    EventOf::Results(values) => match leading_string(values.unwrap()) {
                        Some(s) => OutcomeOf::Mismatch(s),
                        None => OutcomeOf::NotAString,
                    },
                    _ => OutcomeOf::Failed,
                },
            ),
        ),
        events.last() is LookedUp ==> after(input, expected, events.drop_last()).1 is LookUp,
        forall|api: Api| #[trigger]
            calls_of(input, expected, events, api) == calls_of(
                input,
                expected,
                events.drop_last(),
                api,
            ),
        forall|event: EventView| !#[trigger] possible(input, expected, events.push(event)),
{
    law_verdict(input, expected, events);
    lemma_after(input, expected, events.drop_last());
    lemma_all_pass(expected, events);
    assert forall|event: EventView| !#[trigger] possible(input, expected, events.push(event)) by {
        assert(events.push(event).drop_last() =~= events);
    }
}

/// Whether `event` is what a stack of `guests` guests makes happen when it is
/// called with `input`.
pub open spec fn answered_by(guests: nat, input: Seq<char>, event: EventView) -> bool {
    passes(round_trip_result(guests, input), event)
}

/// A stack of guests of which a result has come passes the check exactly if the
/// expected output is the input with the marks of that many guests and of the
/// host.
pub proof fn law_stack_verdict(
    guests: nat,
    input: Seq<char>,
    expected: Seq<char>,
    events: Seq<EventView>,
)
    requires
        possible(input, expected, events),
        after(input, expected, events).1 is Finish,
        forall|i: int|
            0 <= i < events.len() ==> answered_by(guests, input, #[trigger] events[i]),
        exists|i: int| 0 <= i < events.len() && (#[trigger] events[i] matches EventOf::Result(Some(_))),
    ensures
        after(input, expected, events).1 == ActionOf::<Seq<char>>::Finish(OutcomeOf::Success)
            <==> expected == round_trip_result(guests, input),
{
    law_verdict(input, expected, events);
    let i = choose|i: int|
        0 <= i < events.len() && (#[trigger] events[i] matches EventOf::Result(Some(_)));
    assert(answered_by(guests, input, events[i]));
    if expected == round_trip_result(guests, input) {
        assert forall|i: int| 0 <= i < events.len() implies passes(
            expected,
            #[trigger] events[i],
        ) by {
            assert(answered_by(guests, input, events[i]));
        }
    }
}

/// What the calls through `api` returned in the course of `events`, in the order
/// in which they did; `None` stands for something that is no string.
pub open spec fn outputs_of(events: Seq<EventView>, api: Api) -> Seq<Option<Seq<char>>>
    decreases events.len(),
{
    if events.len() == 0 {
        Seq::empty()
    } else {
        let outputs = outputs_of(events.drop_last(), api);
        match (api, events.last()) {
            (Api::Static, EventOf::Result(Some(s))) => outputs.push(Some(s)),
            (Api::Dynamic, EventOf::Results(Some(values))) => outputs.push(leading_string(values)),
            _ => outputs,
        }
    }
}

/// The `foo` that the host offers to an instance that is called through `api`.
pub open spec fn import_of(api: Api) -> spec_fn(Seq<char>) -> Seq<char> {
    match api {
        Api::Static => |s: Seq<char>| foo_result(s),
        Api::Dynamic => |s: Seq<char>|
            leading_string(foo_dynamic_result(seq![ValOf::String(s)])).unwrap(),
    }
}

/// A component all of whose instances behave alike: what a new instance returns,
/// in whatever order, is a function of the `foo` that it imports and of the
/// arguments that it is called with.
pub type Component = spec_fn(spec_fn(Seq<char>) -> Seq<char>, Seq<Seq<char>>) -> Multiset<
    Option<Seq<char>>,
>;

/// What a new instance of `component` has to return to the calls that were
/// started through `api` in the course of `events`.
pub open spec fn owed(
    component: Component,
    input: Seq<char>,
    expected: Seq<char>,
    events: Seq<EventView>,
    api: Api,
) -> Multiset<Option<Seq<char>>> {
    component(import_of(api), calls_of(input, expected, events, api))
}

/// The calls through either way are calls with `input`.
proof fn lemma_calls(input: Seq<char>, expected: Seq<char>, events: Seq<EventView>, api: Api)
    requires
        possible(input, expected, events),
    ensures
        calls_of(input, expected, events, api) == Seq::new(
            calls_started(input, expected, events, api),
            |i: int| input,
        ),
    decreases events.len(),
{
    if events.len() > 0 {
        lemma_calls(input, expected, events.drop_last(), api);
        lemma_after(input, expected, events.drop_last());
    }
    assert(calls_of(input, expected, events, api) =~= Seq::new(
        calls_started(input, expected, events, api),
        |i: int| input,
    ));
}

/// The two ways to offer `foo` are one function.
proof fn lemma_imports()
    ensures
        import_of(Api::Static) == import_of(Api::Dynamic),
{
    assert forall|s: Seq<char>| #[trigger]
        (import_of(Api::Static))(s) == (import_of(Api::Dynamic))(s) by {
        law_imports_answer_alike(s);
    }
    assert(import_of(Api::Static) =~= import_of(Api::Dynamic));
}

/// What was returned is the expected string as long as nothing is a reason to
/// fail.
proof fn lemma_outputs_pass(expected: Seq<char>, events: Seq<EventView>, api: Api)
    requires
        all_pass(expected, events),
    ensures
        forall|output: Option<Seq<char>>| #[trigger]
            outputs_of(events, api).contains(output) ==> output == Some(expected),
    decreases events.len(),
{
    if events.len() > 0 {
        lemma_all_pass(expected, events);
        lemma_outputs_pass(expected, events.drop_last(), api);
        let before = outputs_of(events.drop_last(), api);
        assert forall|output: Option<Seq<char>>| #[trigger]
            outputs_of(events, api).contains(output) implies output == Some(expected) by {
            let i = choose|i: int|
                0 <= i < outputs_of(events, api).len() && outputs_of(events, api)[i] == output;
            if i < before.len() {
                assert(before.contains(before[i]));
            }
        }
    }
}

/// Calls by name are all started only after all calls through the type were, and
/// from then on results of calls by name come.
proof fn lemma_second_round(input: Seq<char>, expected: Seq<char>, events: Seq<EventView>)
    requires
        possible(input, expected, events),
        calls_started(input, expected, events, Api::Dynamic) == CALLS,
    ensures
        calls_started(input, expected, events, Api::Static) == CALLS,
        events.len() > 0,
        !passes(expected, events.last()) ==> events.last() is Results || events.last() is Failed,
{
    lemma_after(input, expected, events);
    if events.len() > 0 {
        lemma_after(input, expected, events.drop_last());
        if !all_pass(expected, events) {
            law_verdict(input, expected, events);
        } else {
            lemma_all_pass(expected, events);
        }
    }
}

/// Both rounds of calls come to the same: if all instances of a component behave
/// alike, then the instance that is called by name, once all calls are started,
/// owes what the instance that was called through its type owed.  If both have
/// returned what they owed, they have returned the same.
pub proof fn law_rounds_agree(
    component: Component,
    input: Seq<char>,
    expected: Seq<char>,
    events: Seq<EventView>,
)
    requires
        possible(input, expected, events),
        calls_started(input, expected, events, Api::Dynamic) == CALLS,
    ensures
        calls_of(input, expected, events, Api::Static) == calls_of(
            input,
            expected,
            events,
            Api::Dynamic,
        ),
        owed(component, input, expected, events, Api::Static) == owed(
            component,
            input,
            expected,
            events,
            Api::Dynamic,
        ),
        (forall|api: Api| #[trigger]
            outputs_of(events, api).to_multiset() == owed(component, input, expected, events, api))
            ==> outputs_of(events, Api::Static).to_multiset() == outputs_of(
            events,
            Api::Dynamic,
        ).to_multiset(),
{
    lemma_calls(input, expected, events, Api::Static);
    lemma_calls(input, expected, events, Api::Dynamic);
    lemma_imports();
    lemma_second_round(input, expected, events);
    if forall|api: Api| #[trigger]
        outputs_of(events, api).to_multiset() == owed(component, input, expected, events, api) {
        assert(outputs_of(events, Api::Static).to_multiset() == owed(
            component,
            input,
            expected,
            events,
            Api::Static,
        ));
        assert(outputs_of(events, Api::Dynamic).to_multiset() == owed(
            component,
            input,
            expected,
            events,
            Api::Dynamic,
        ));
    }
}

/// A component all of whose instances behave alike and which has passed the first
/// round passes the second, unless a call fails: no result of a call by name is a
/// reason to fail.
pub proof fn law_second_round_passes(
    component: Component,
    input: Seq<char>,
    expected: Seq<char>,
    events: Seq<EventView>,
)
    requires
        possible(input, expected, events),
        calls_started(input, expected, events, Api::Dynamic) == CALLS,
        outputs_of(events, Api::Static).to_multiset() == owed(
            component,
            input,
            expected,
            events,
            Api::Static,
        ),
        outputs_of(events, Api::Dynamic).to_multiset().subset_of(
            owed(component, input, expected, events, Api::Dynamic),
        ),
    ensures
        all_pass(expected, events) || events.last() is Failed,
{
    broadcast use vstd::seq_lib::group_to_multiset_ensures;

    if !all_pass(expected, events) && !(events.last() is Failed) {
        law_verdict(input, expected, events);
        law_rounds_agree(component, input, expected, events);
        lemma_second_round(input, expected, events);
        let before = events.drop_last();
        lemma_outputs_pass(expected, before, Api::Static);
        let outputs = outputs_of(events, Api::Dynamic);
        assert(outputs.contains(outputs.last()));
        assert(outputs.to_multiset().contains(outputs.last()));
        assert(outputs_of(events, Api::Static).to_multiset().contains(outputs.last()));
        assert(outputs_of(before, Api::Static).contains(outputs.last()));
    }
}

/// How many of `events` are such as `f` says.
spec fn how_many(events: Seq<EventView>, f: spec_fn(EventView) -> bool) -> nat {
    events.filter(f).len()
}

/// The last event counts if it is such as `f` says.
proof fn lemma_how_many(events: Seq<EventView>, f: spec_fn(EventView) -> bool)
    ensures
        events.len() == 0 ==> how_many(events, f) == 0,
        events.len() > 0 ==> how_many(events, f) == how_many(events.drop_last(), f) + if f(
            events.last(),
        ) {
            1nat
        } else {
            0nat
        },
{
    reveal(Seq::filter);
}

/// An event is the last one or one before it.
proof fn lemma_contains(events: Seq<EventView>, event: EventView)
    requires
        events.len() > 0,
    ensures
        events.contains(event) <==> events.drop_last().contains(event) || events.last() == event,
{
    let before = events.drop_last();
    if before.contains(event) {
        let i = choose|i: int| 0 <= i < before.len() && before[i] == event;
        assert(events[i] == event);
    }
    if events.last() == event {
        assert(events[events.len() - 1] == event);
    } else if events.contains(event) {
        let i = choose|i: int| 0 <= i < events.len() && events[i] == event;
        assert(before[i] == event);
    }
}

/// Where the check stands, by what has happened in it, if it has not failed.
proof fn lemma_where_it_stands(input: Seq<char>, expected: Seq<char>, events: Seq<EventView>)
    requires
        possible(input, expected, events),
        all_pass(expected, events),
    ensures
        ({
            let instantiated = how_many(events, |e: EventView| e is Instantiated);
            let called = how_many(events, |e: EventView| e is Called);
            let found = how_many(events, |e: EventView| e is LookedUp);
            let first_over = events.contains(EventOf::Result(None));
            let second_over = events.contains(EventOf::Results(None));
            let (stage, action) = after(input, expected, events);
            &&& second_over <==> stage is Over
            &&& second_over ==> events.last() == EventView::Results(None)
            &&& match stage {
                Stage::Instantiate(Api::Static) => instantiated == 0 && called == 0 && found == 0
                    && !first_over && action == ActionOf::<Seq<char>>::Instantiate(Api::Static),
                Stage::Calls(Api::Static, join) => instantiated == 1 && found == 0 && !first_over
                    && match join {
                    Join::Calling(k) => called == k && k < 3 && action == ActionOf::Call(
                        Api::Static,
                        input,
                    ),
                    Join::Joining => called == 3 && action == ActionOf::<Seq<char>>::Next(
                        Api::Static,
                    ),
                    Join::Joined => false,
                },
                Stage::Instantiate(Api::Dynamic) => instantiated == 1 && called == 3 && found == 0
                    && first_over && action == ActionOf::<Seq<char>>::Instantiate(Api::Dynamic),
                Stage::LookUp(what) => instantiated == 2 && called == 3 && first_over && found
                    == match what {
                    LookUp::Instance => 0nat,
                    LookUp::Export => 1nat,
                    LookUp::Function => 2nat,
                } && action == ActionOf::<Seq<char>>::LookUp(what),
                Stage::Calls(Api::Dynamic, join) => instantiated == 2 && found == 3 && first_over
                    && match join {
                    Join::Calling(k) => called == 3 + k && k < 3 && action == ActionOf::Call(
                        Api::Dynamic,
                        input,
                    ),
                    Join::Joining => called == 6 && action == ActionOf::<Seq<char>>::Next(
                        Api::Dynamic,
                    ),
                    Join::Joined => false,
                },
                Stage::Over => instantiated == 2 && called == 6 && found == 3 && first_over && action
                    == ActionOf::<Seq<char>>::Finish(OutcomeOf::Success),
            }
        }),
    decreases events.len(),
{
    lemma_how_many(events, |e: EventView| e is Instantiated);
    lemma_how_many(events, |e: EventView| e is Called);
    lemma_how_many(events, |e: EventView| e is LookedUp);
    if events.len() > 0 {
        lemma_all_pass(expected, events);
        lemma_where_it_stands(input, expected, events.drop_last());
        lemma_contains(events, EventOf::Result(None));
        lemma_contains(events, EventOf::Results(None));
    }
}

/// What is to be done is settled by what has happened: a component is instantiated,
/// called three times, and its results are waited for until there is none; then it
/// is instantiated again, its function is looked up, it is called three times by
/// name, and its results are waited for until there is none.  Only then has it
/// passed.  This holds whatever the input and the expected string are.
pub proof fn law_what_is_to_be_done(input: Seq<char>, expected: Seq<char>, events: Seq<EventView>)
    requires
        possible(input, expected, events),
        forall|i: int|
            0 <= i < events.len() ==> match #[trigger] events[i] {
                EventOf::Failed => false,
                EventOf::LookedUp(found) => found,
                EventOf::Result(Some(s)) => s == expected,
                EventOf::Results(Some(values)) => values.len() > 0 && values[0] == ValOf::String(
                    expected,
                ),
                _ => true,
            },
    ensures
        ({
            let instantiated = events.filter(|e: EventView| e is Instantiated).len();
            let called = events.filter(|e: EventView| e is Called).len();
            let found = events.filter(|e: EventView| e is LookedUp).len();
            after(input, expected, events).1 == if instantiated == 0 {
                ActionOf::Instantiate(Api::Static)
            } else if called < 3 {
                ActionOf::Call(Api::Static, input)
            } else if !events.contains(EventOf::Result(None)) {
                ActionOf::Next(Api::Static)
            } else if instantiated == 1 {
                ActionOf::Instantiate(Api::Dynamic)
            } else if found == 0 {
                ActionOf::LookUp(LookUp::Instance)
            } else if found == 1 {
                ActionOf::LookUp(LookUp::Export)
            } else if found == 2 {
                ActionOf::LookUp(LookUp::Function)
            } else if called < 6 {
                ActionOf::Call(Api::Dynamic, input)
            } else if !events.contains(EventOf::Results(None)) {
                ActionOf::Next(Api::Dynamic)
            } else {
                ActionOf::Finish(OutcomeOf::Success)
            }
        }),
{
    assert forall|i: int| 0 <= i < events.len() implies passes(expected, #[trigger] events[i]) by {}
    lemma_where_it_stands(input, expected, events);
}

/// What each of `events` is, if none of them is a reason to fail.
proof fn lemma_passing_events(expected: Seq<char>, events: Seq<EventView>)
    requires
        all_pass(expected, events),
    ensures
        forall|i: int|
            0 <= i < events.len() ==> match #[trigger] events[i] {
                EventOf::Failed => false,
                EventOf::LookedUp(found) => found,
                EventOf::Result(Some(s)) => s == expected,
                EventOf::Results(Some(values)) => values.len() > 0 && values[0] == ValOf::String(
                    expected,
                ),
                _ => true,
            },
{
    assert forall|i: int| 0 <= i < events.len() implies match #[trigger] events[i] {
        EventOf::Failed => false,
        EventOf::LookedUp(found) => found,
        EventOf::Result(Some(s)) => s == expected,
        EventOf::Results(Some(values)) => values.len() > 0 && values[0] == ValOf::String(expected),
        _ => true,
    } by {
        assert(passes(expected, events[i]));
    }
}

/// A check that ends in success has been told of results, in each of the two rounds,
/// until none was left, and every one of them was the expected string.  So a
/// component that returned to every call has returned that string three times each
/// way.
pub proof fn law_success_means_every_result_was_seen(
    input: Seq<char>,
    expected: Seq<char>,
    events: Seq<EventView>,
)
    requires
        possible(input, expected, events),
        after(input, expected, events).1 == ActionOf::<Seq<char>>::Finish(OutcomeOf::Success),
    ensures
        events.contains(EventOf::Result(None)),
        events.len() > 0 && events.last() == EventView::Results(None),
        events.filter(|e: EventView| e is Called).len() == 6,
        forall|i: int|
            0 <= i < events.len() ==> match #[trigger] events[i] {
                EventOf::Failed => false,
                EventOf::LookedUp(found) => found,
                EventOf::Result(Some(s)) => s == expected,
                EventOf::Results(Some(values)) => values.len() > 0 && values[0] == ValOf::String(
                    expected,
                ),
                _ => true,
            },
        forall|api: Api|
            calls_of(input, expected, events, api) == seq![input, input, input],
        forall|api: Api|
            (#[trigger] outputs_of(events, api)).len() == calls_of(
                input,
                expected,
                events,
                api,
            ).len() ==> outputs_of(events, api) == seq![
                Some(expected),
                Some(expected),
                Some(expected),
            ],
{
    law_verdict(input, expected, events);
    lemma_where_it_stands(input, expected, events);
    lemma_after(input, expected, events);
    lemma_passing_events(expected, events);
    assert forall|api: Api| calls_of(input, expected, events, api) == seq![
        input,
        input,
        input,
    ] by {
        lemma_calls(input, expected, events, api);
        assert(calls_of(input, expected, events, api) =~= seq![input, input, input]);
    }
    assert forall|api: Api| (#[trigger] outputs_of(events, api)).len() == calls_of(
        input,
        expected,
        events,
        api,
    ).len() implies outputs_of(events, api) == seq![
        Some(expected),
        Some(expected),
        Some(expected),
    ] by {
        lemma_outputs_pass(expected, events, api);
        let outputs = outputs_of(events, api);
        assert(calls_of(input, expected, events, api).len() == 3);
        assert(outputs.contains(outputs[0]) && outputs.contains(outputs[1]) && outputs.contains(
            outputs[2],
        ));
        assert(outputs =~= seq![Some(expected), Some(expected), Some(expected)]);
    }
}

/// What is wrong is reported as what it is, whatever the input and the expected
/// string are: a failure, the thing that was not found, the string that came
/// instead of the expected one, or that no string came.
pub proof fn law_what_is_wrong_is_reported(
    input: Seq<char>,
    expected: Seq<char>,
    events: Seq<EventView>,
)
    requires
        possible(input, expected, events),
        events.len() > 0,
    ensures
        ({
            let looked_up = events.filter(|e: EventView| e is LookedUp).len();
            let (stage, action) = after(input, expected, events);
            let ends_with = |outcome: OutcomeOf<Seq<char>>|
                stage is Over && action == ActionOf::Finish(outcome);
            match events.last() {
                EventOf::Failed => ends_with(OutcomeOf::Failed),
                EventOf::LookedUp(false) => ends_with(
                    OutcomeOf::NotFound(
                        if looked_up == 1 {
                            LookUp::Instance
                        } else if looked_up == 2 {
                            LookUp::Export
                        } else {
                            LookUp::Function
                        },
                    ),
                ),
                EventOf::Result(Some(s)) => s == expected || ends_with(OutcomeOf::Mismatch(s)),
                EventOf::Results(Some(values)) => if values.len() == 0 {
                    ends_with(OutcomeOf::NotAString)
                } else {
                    match values[0] {
                        ValOf::Other => ends_with(OutcomeOf::NotAString),
                        ValOf::String(s) => s == expected || ends_with(OutcomeOf::Mismatch(s)),
                    }
                },
                _ => true,
            }
        }),
{
    let before = events.drop_last();
    lemma_after(input, expected, before);
    lemma_where_it_stands(input, expected, before);
    lemma_how_many(events, |e: EventView| e is LookedUp);
}

/// However a thing that is to be done may end, the check takes it.
pub proof fn law_every_answer_is_taken(
    input: Seq<char>,
    expected: Seq<char>,
    events: Seq<EventView>,
    event: EventView,
)
    requires
        possible(input, expected, events),
    ensures
        possible(input, expected, events.push(event)) <==> match event {
            EventOf::Instantiated => after(input, expected, events).1 is Instantiate,
            EventOf::LookedUp(_) => after(input, expected, events).1 is LookUp,
            EventOf::Called => after(input, expected, events).1 is Call,
            EventOf::Result(_) => after(input, expected, events).1 == ActionOf::<Seq<char>>::Next(
                Api::Static,
            ),
            EventOf::Results(_) => after(input, expected, events).1 == ActionOf::<Seq<char>>::Next(
                Api::Dynamic,
            ),
            EventOf::Failed => !(after(input, expected, events).1 is Finish),
        },
{
    lemma_after(input, expected, events);
    if all_pass(expected, events) {
        lemma_where_it_stands(input, expected, events);
    }
    assert(events.push(event).drop_last() =~= events);
}

/// The views of what is handed to and from a check keep all of it.
pub proof fn law_views_are_faithful(event: Event, action: Action)
    ensures
        match event {
            EventOf::Instantiated => event@ is Instantiated,
            EventOf::LookedUp(found) => event@ == EventView::LookedUp(found),
            EventOf::Called => event@ is Called,
            EventOf::Result(Some(s)) => event@ == EventView::Result(Some(s@)),
            EventOf::Result(None) => event@ == EventView::Result(None),
            EventOf::Results(Some(values)) => event@ == EventView::Results(Some(views(values@))),
            EventOf::Results(None) => event@ == EventView::Results(None),
            EventOf::Failed => event@ is Failed,
        },
        match action {
            ActionOf::Instantiate(api) => action@ == ActionOf::<Seq<char>>::Instantiate(api),
            ActionOf::LookUp(what) => action@ == ActionOf::<Seq<char>>::LookUp(what),
            ActionOf::Call(api, s) => action@ == ActionOf::Call(api, s@),
            ActionOf::Next(api) => action@ == ActionOf::<Seq<char>>::Next(api),
            ActionOf::Finish(outcome) => action@ == ActionOf::Finish(
                match outcome {
                    OutcomeOf::Success => OutcomeOf::Success,
                    OutcomeOf::NotFound(what) => OutcomeOf::NotFound(what),
                    OutcomeOf::Mismatch(s) => OutcomeOf::Mismatch(s@),
                    OutcomeOf::NotAString => OutcomeOf::NotAString,
                    OutcomeOf::Failed => OutcomeOf::Failed,
                },
            ),
        },
{
}

} // verus!
