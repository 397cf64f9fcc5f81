//! What the host answers to the guests it runs.
use vstd::prelude::*;

verus! {

/// A dynamically typed value, as far as the host looks at it: it reads strings
/// and nothing else.
#[derive(Debug, PartialEq, Eq)]
pub enum ValOf<T> {
    String(T),
    Other,
}

/// A dynamically typed value.
pub type Val = ValOf<String>;

impl View for ValOf<String> {
    type V = ValOf<Seq<char>>;

    open spec fn view(&self) -> ValOf<Seq<char>> {
        match self {
            ValOf::String(s) => ValOf::String(s@),
            ValOf::Other => ValOf::Other,
        }
    }
}

/// The views of a list of values.
pub open spec fn views(values: Seq<Val>) -> Seq<ValOf<Seq<char>>> {
    values.map_values(|v: Val| v@)
}

/// What the host's `foo` returns for `s`.
pub open spec fn foo_result(s: Seq<char>) -> Seq<char> {
    s + " - entered host - exited host"@
}

/// The string at the head of `values`, if there is one.
pub open spec fn leading_string(values: Seq<ValOf<Seq<char>>>) -> Option<Seq<char>> {
    if values.len() > 0 {
        match values[0] {
            ValOf::String(s) => Some(s),
            ValOf::Other => None,
        }
    } else {
        None
    }
}

/// What the host's `foo` returns to callers that know its type only at run time,
/// for parameters that begin with a string.
pub open spec fn foo_dynamic_result(params: Seq<ValOf<Seq<char>>>) -> Seq<ValOf<Seq<char>>> {
    seq![ValOf::String(foo_result(leading_string(params).unwrap()))]
}

/// The host's `foo`.
pub fn foo(s: String) -> (r: String)
    ensures
        r@ == s@ + " - entered host - exited host"@,
        r@ == foo_result(s@),
{
    s.concat(" - entered host - exited host")
}

/// The string that a list of dynamically typed values begins with; `None` if
/// the list is empty or begins with something else.
pub fn first_string(values: Vec<Val>) -> (r: Option<String>)
    ensures
        r is Some == leading_string(views(values@)) is Some,
        r matches Some(s) ==> leading_string(views(values@)) == Some(s@),
        r is Some <==> values@.len() > 0 && values@[0] is String,
        r matches Some(s) ==> s@ == (values@[0]->String_0)@,
{
    let mut values = values;
    if values.len() == 0 {
        return None;
    }
    match values.remove(0) {
        ValOf::String(s) => Some(s),
        ValOf::Other => None,
    }
}

/// The host's `foo` for callers that know its type only at run time: one string
/// in, one string out.
pub fn foo_dynamic(params: Vec<Val>) -> (r: Vec<Val>)
    requires
        leading_string(views(params@)) is Some,
    ensures
        views(r@) == foo_dynamic_result(views(params@)),
        params@.len() > 0,
        params@[0] is String,
        r@.len() == 1,
        r@[0] matches ValOf::String(s) && s@ == (params@[0]->String_0)@
            + " - entered host - exited host"@,
{
    let mut results: Vec<Val> = Vec::new();
    if let Some(s) = first_string(params) {
        results.push(ValOf::String(foo(s)));
    }
    results
}

/// The host's `foo` answers alike whichever way it is called: one string for one
/// string, and the same.
pub proof fn law_imports_answer_alike(s: Seq<char>)
    ensures
        leading_string(seq![ValOf::String(s)]) == Some(s),
        foo_dynamic_result(seq![ValOf::String(s)]) == seq![ValOf::String(foo_result(s))],
        leading_string(foo_dynamic_result(seq![ValOf::String(s)])) == Some(foo_result(s)),
{
}

/// Whatever it is called with, the host's `foo` returns that and then the mark of
/// having entered and the mark of having left, in this order and once each.
pub proof fn law_foo_appends_its_marks(s: Seq<char>)
    ensures
        foo_result(s) == s + " - entered host - exited host"@,
        foo_dynamic_result(seq![ValOf::String(s)]) == seq![
            ValOf::String(s + " - entered host - exited host"@),
        ],
{
}

/// Values begin with a string exactly if there is a first one and it is a string,
/// whatever string that is and whatever follows.
pub proof fn law_any_first_string_leads(values: Seq<Val>)
    ensures
        leading_string(views(values)) is Some <==> values.len() > 0 && values[0] is String,
        values.len() > 0 && values[0] is String ==> leading_string(views(values)) == Some(
            (values[0]->String_0)@,
        ),
{
}

/// The view of a list of values keeps every value and every string.
pub proof fn law_value_views_are_faithful(values: Seq<Val>)
    ensures
        views(values).len() == values.len(),
        forall|i: int|
            0 <= i < values.len() ==> match #[trigger] values[i] {
                ValOf::String(s) => views(values)[i] == ValOf::String(s@),
                ValOf::Other => views(values)[i] == ValOf::<Seq<char>>::Other,
            },
{
}

/// What is reported when `name` is not found in an instance.
pub open spec fn not_found(name: Seq<char>) -> Seq<char> {
    "can't find `"@ + name + "` in instance"@
}

/// What is reported when `name` is not found in an instance.
pub fn not_found_message(name: &str) -> (r: String)
    ensures
        r@ == "can't find `"@ + name@ + "` in instance"@,
        r@ == not_found(name@),
{
    "can't find `".to_owned().concat(name).concat("` in instance")
}

/// The flag by which a host tells a yielding guest to carry on.
#[derive(Debug)]
pub struct ContinueFlag {
    continue_: bool,
}

impl View for ContinueFlag {
    type V = bool;

    closed spec fn view(&self) -> bool {
        self.continue_
    }
}

impl ContinueFlag {
    /// The flag is down at first.
    pub fn new() -> (r: ContinueFlag)
        ensures
            !r@,
    {
        ContinueFlag { continue_: false }
    }

    /// Raises or lowers the flag.
    pub fn set_continue(&mut self, v: bool)
        ensures
            final(self)@ == v,
    {
        self.continue_ = v;
    }

    /// The value that was set last.
    pub fn get_continue(&self) -> (r: bool)
        ensures
            r == self@,
    {
        self.continue_
    }
}

} // verus!
