//! Guests that pass a string on, and stacks of them.
//!
//! A guest exports `foo` and imports another `foo`.  It marks the string on the
//! way in and on the way out.  Guests differ in how they wait for the import,
//! and that difference is not visible in what they return.
use vstd::prelude::*;

use crate::host::foo;
#[allow(unused_imports)]
use crate::host::foo_result;

verus! {

/// How a guest waits for the function it imports.
#[derive(Debug, Clone, Copy, PartialEq, Eq)]
pub enum Guest {
    /// Its `foo` is asynchronous and awaits the import.
    Async,
    /// Its `foo` calls the import synchronously.
    Sync,
    /// Its `foo` is synchronous and blocks on an asynchronous import.
    Wait,
}

/// What a guest hands to its import when it is called with `s`.
pub open spec fn entering(s: Seq<char>) -> Seq<char> {
    s + " - entered guest"@
}

/// What a guest returns when its import has returned `s`.
pub open spec fn leaving(s: Seq<char>) -> Seq<char> {
    s + " - exited guest"@
}

impl Guest {
    /// The first half of a guest's `foo`: the argument for the import.
    pub fn import_argument(&self, s: String) -> (r: String)
        ensures
            r@ == s@ + " - entered guest"@,
            r@ == entering(s@),
    {
        s.concat(" - entered guest")
    }

    /// The second half of a guest's `foo`: its result, from the import's.
    pub fn export_result(&self, s: String) -> (r: String)
        ensures
            r@ == s@ + " - exited guest"@,
            r@ == leaving(s@),
    {
        s.concat(" - exited guest")
    }
}

/// `n` copies of `s`, one after the other.
pub open spec fn repeated(s: Seq<char>, n: nat) -> Seq<char>
    decreases n,
{
    if n == 0 {
        Seq::empty()
    } else {
        repeated(s, (n - 1) as nat) + s
    }
}

/// What comes back from a stack of `n` guests on top of the host: the input, a
/// mark for each guest entered, the host's marks, a mark for each guest left.
pub open spec fn round_trip_result(n: nat, s: Seq<char>) -> Seq<char> {
    foo_result(s + repeated(" - entered guest"@, n)) + repeated(" - exited guest"@, n)
}

/// What `guests` return for `s` when the import of the last one is `inner`.
pub open spec fn through(
    guests: Seq<Guest>,
    inner: spec_fn(Seq<char>) -> Seq<char>,
    s: Seq<char>,
) -> Seq<char>
    decreases guests.len(),
{
    if guests.len() == 0 {
        inner(s)
    } else {
        leaving(through(guests.drop_first(), inner, entering(s)))
    }
}

/// A stack of guests, the outermost first: each one's import is the export of
/// the next, and the last one imports the host's `foo`.
#[derive(Debug)]
pub struct Composition {
    guests: Vec<Guest>,
}

impl View for Composition {
    type V = Seq<Guest>;

    closed spec fn view(&self) -> Seq<Guest> {
        self.guests@
    }
}

impl Composition {
    /// A guest by itself.
    pub fn single(guest: Guest) -> (r: Composition)
        ensures
            r@ == seq![guest],
    {
        let mut guests: Vec<Guest> = Vec::new();
        guests.push(guest);
        Composition { guests }
    }

    /// Links the import of `a` to the export of `b`.
    pub fn compose(a: Composition, b: Composition) -> (r: Composition)
        ensures
            r@ == a@ + b@,
    {
        let mut guests = a.guests;
        let mut rest = b.guests;
        guests.append(&mut rest);
        Composition { guests }
    }

    /// Calls the exported `foo`: down through the guests to the host and back up.
    pub fn foo(&self, s: String) -> (r: String)
        ensures
            r@ == s@ + repeated(" - entered guest"@, self@.len())
                + " - entered host - exited host"@ + repeated(" - exited guest"@, self@.len()),
            r@ == round_trip_result(self@.len(), s@),
            r@ == through(self@, |x: Seq<char>| foo_result(x), s@),
    {
        let ghost input = s@;
        let mut value = s;
        let n: usize = self.guests.len();
        let mut i: usize = 0;
        while i < n
            invariant
                i <= n,
                n == self.guests@.len(),
                value@ == input + repeated(" - entered guest"@, i as nat),
            decreases n - i,
        {
            value = self.guests[i].import_argument(value);
            i = i + 1;
            assert(value@ =~= input + repeated(" - entered guest"@, i as nat));
        }
        value = foo(value);
        let ghost inner = value@;
        while i > 0
            invariant
                i <= n,
                n == self.guests@.len(),
                value@ == inner + repeated(" - exited guest"@, (n - i) as nat),
            decreases i,
        {
            i = i - 1;
            value = self.guests[i].export_result(value);
            assert(value@ =~= inner + repeated(" - exited guest"@, (n - i) as nat));
        }
        proof {
            law_stack_marks(self@, input);
        }
        value
    }
}

/// One more copy may go in front as well as behind.
proof fn lemma_repeated_front(s: Seq<char>, n: nat)
    requires
        n > 0,
    ensures
        repeated(s, n) == s + repeated(s, (n - 1) as nat),
    decreases n,
{
    if n > 1 {
        lemma_repeated_front(s, (n - 1) as nat);
        assert(repeated(s, n) =~= s + repeated(s, (n - 1) as nat));
    } else {
        assert(repeated(s, 0) =~= Seq::<char>::empty());
        assert(repeated(s, 1) =~= s + repeated(s, 0));
    }
}

/// Calling a stack of guests, each of which calls the next, gives the input
/// followed by one entry mark per guest, the host's marks and one exit mark per
/// guest.
pub proof fn law_stack_marks(guests: Seq<Guest>, s: Seq<char>)
    ensures
        through(guests, |x: Seq<char>| foo_result(x), s) == round_trip_result(guests.len(), s),
    decreases guests.len(),
{
    let e = " - entered guest"@;
    let x = " - exited guest"@;
    let n = guests.len();
    if n == 0 {
        assert(s + repeated(e, 0) =~= s);
        assert(round_trip_result(0, s) =~= foo_result(s));
    } else {
        law_stack_marks(guests.drop_first(), entering(s));
        lemma_repeated_front(e, n);
        assert(entering(s) + repeated(e, (n - 1) as nat) =~= s + repeated(e, n));
        assert(round_trip_result(n, s) =~= leaving(
            round_trip_result((n - 1) as nat, entering(s)),
        ));
    }
}

/// The host by itself appends its two marks; a guest more, outside all others, adds
/// its mark before what it calls is called and its other mark after that returned.
/// So a stack of guests gives the input, an entry mark per guest, the host's marks
/// and an exit mark per guest.
pub proof fn law_one_more_guest(n: nat, s: Seq<char>)
    ensures
        round_trip_result(0, s) == s + " - entered host - exited host"@,
        round_trip_result(n + 1, s) == round_trip_result(n, s + " - entered guest"@)
            + " - exited guest"@,
        round_trip_result(n, s) == s + repeated(" - entered guest"@, n)
            + " - entered host - exited host"@ + repeated(" - exited guest"@, n),
{
    let e = " - entered guest"@;
    assert(s + repeated(e, 0) =~= s);
    assert(round_trip_result(0, s) =~= s + " - entered host - exited host"@);
    lemma_repeated_front(e, n + 1);
    assert(s + e + repeated(e, n) =~= s + repeated(e, n + 1));
    assert(round_trip_result(n + 1, s) =~= round_trip_result(n, s + e) + " - exited guest"@);
}

/// A list of no guests is what is called, and a guest before others passes on to
/// them what it is called with and its mark, and returns what they return and its
/// other mark.
pub proof fn law_a_guest_marks_what_it_passes_on(
    guest: Guest,
    rest: Seq<Guest>,
    inner: spec_fn(Seq<char>) -> Seq<char>,
    s: Seq<char>,
)
    ensures
        through(Seq::empty(), inner, s) == inner(s),
        through(seq![guest] + rest, inner, s) == through(rest, inner, s + " - entered guest"@)
            + " - exited guest"@,
{
    assert((seq![guest] + rest).drop_first() =~= rest);
}

/// No copies are nothing, and a copy more is what was there and that copy.
pub proof fn law_one_more_copy(s: Seq<char>, n: nat)
    ensures
        repeated(s, 0) == Seq::<char>::empty(),
        repeated(s, n + 1) == repeated(s, n) + s,
        repeated(s, 1) == s,
{
    assert(repeated(s, 1) =~= s) by {
        assert(repeated(s, 0) =~= Seq::<char>::empty());
    }
}

/// A composition behaves as its outer part with its inner part for an import.
pub proof fn law_composition(
    a: Seq<Guest>,
    b: Seq<Guest>,
    inner: spec_fn(Seq<char>) -> Seq<char>,
    s: Seq<char>,
)
    ensures
        through(a + b, inner, s) == through(a, |x: Seq<char>| through(b, inner, x), s),
    decreases a.len(),
{
    if a.len() == 0 {
        assert(a + b =~= b);
    } else {
        assert((a + b).drop_first() =~= a.drop_first() + b);
        law_composition(a.drop_first(), b, inner, entering(s));
    }
}

/// Guests of any kind, in any order, give the same result: it depends on how
/// many there are and on nothing else.
pub proof fn law_kinds_do_not_matter(
    a: Seq<Guest>,
    b: Seq<Guest>,
    inner: spec_fn(Seq<char>) -> Seq<char>,
    s: Seq<char>,
)
    requires
        a.len() == b.len(),
    ensures
        through(a, inner, s) == through(b, inner, s),
    decreases a.len(),
{
    if a.len() > 0 {
        law_kinds_do_not_matter(a.drop_first(), b.drop_first(), inner, entering(s));
    }
}

/// Whatever the stack, the result begins with the input, and two inputs that
/// differ give results that differ.
pub proof fn law_input_is_kept(n: nat, s: Seq<char>, t: Seq<char>)
    ensures
        s.len() <= round_trip_result(n, s).len(),
        round_trip_result(n, s).take(s.len() as int) == s,
        round_trip_result(n, s) == round_trip_result(n, t) ==> s == t,
{
    let e = repeated(" - entered guest"@, n);
    let h = " - entered host - exited host"@;
    let x = repeated(" - exited guest"@, n);
    assert(round_trip_result(n, s) =~= s + (e + h + x));
    assert(round_trip_result(n, t) =~= t + (e + h + x));
    assert((s + (e + h + x)).take(s.len() as int) =~= s);
    assert((t + (e + h + x)).take(t.len() as int) =~= t);
}

} // verus!
