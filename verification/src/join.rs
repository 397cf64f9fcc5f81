//! Starting a few concurrent calls and waiting for them all.
use vstd::prelude::*;

verus! {

/// How many calls are started before the first result is waited for.
pub const CALLS: u8 = 3;

/// Where a round of concurrent calls stands.
#[derive(Debug, Clone, Copy, PartialEq, Eq)]
pub enum Join {
    /// This many calls have been started, and one more is being started.
    Calling(u8),
    /// All calls have been started; results are being collected.
    Joining,
    /// There are no more results.
    Joined,
}

/// What is to be done next in a round of concurrent calls.
#[derive(Debug, Clone, Copy, PartialEq, Eq)]
pub enum JoinAction {
    /// Start a call.
    Call,
    /// Wait for the next result, in whatever order results come.
    Next,
    /// Nothing: the round is over.
    Done,
}

impl Join {
    /// What is to be done where the round stands.
    pub open spec fn spec_action(self) -> JoinAction {
        match self {
            Join::Calling(_) => JoinAction::Call,
            Join::Joining => JoinAction::Next,
            Join::Joined => JoinAction::Done,
        }
    }

    /// What is to be done where the round stands.
    pub fn action(&self) -> (r: JoinAction)
        ensures
            r == self.spec_action(),
            r is Call <==> self is Calling,
            r is Next <==> self is Joining,
            r is Done <==> self is Joined,
    {
        match self {
            Join::Calling(_) => JoinAction::Call,
            Join::Joining => JoinAction::Next,
            Join::Joined => JoinAction::Done,
        }
    }

    /// Where the round stands once the call that was being started is started.
    pub open spec fn after_call(self) -> Join {
        match self {
            Join::Calling(started) if started + 1 < CALLS => Join::Calling((started + 1) as u8),
            Join::Calling(_) => Join::Joining,
            _ => self,
        }
    }

    /// Where the round stands once a wait has ended, with a result or without.
    pub open spec fn after_wait(self, result: bool) -> Join {
        match self {
            Join::Joining if !result => Join::Joined,
            _ => self,
        }
    }

    /// Where the round stands once a call could not be started or failed: it is over.
    pub open spec fn after_failure(self) -> Join {
        Join::Joined
    }

    /// A new round: no call has been started.
    pub fn new() -> (r: Join)
        ensures
            r == Join::Calling(0),
    {
        Join::Calling(0)
    }

    /// A call was started.
    pub fn called(&mut self)
        ensures
            *final(self) == old(self).after_call(),
            match *old(self) {
                Join::Calling(started) => if started < 2 {
                    *final(self) == Join::Calling((started + 1) as u8)
                } else {
                    *final(self) is Joining
                },
                _ => *final(self) == *old(self),
            },
    {
        match *self {
            Join::Calling(started) => {
                if started < CALLS - 1 {
                    *self = Join::Calling(started + 1);
                } else {
                    *self = Join::Joining;
                }
            },
            _ => {},
        }
    }

    /// A call could not be started, or failed.
    pub fn failed(&mut self)
        ensures
            *final(self) == old(self).after_failure(),
            *final(self) is Joined,
    {
        *self = Join::Joined;
    }

    /// A wait has ended, with a result or because there is none left.
    pub fn waited(&mut self, result: bool)
        ensures
            *final(self) == old(self).after_wait(result),
            *old(self) is Joining && !result ==> *final(self) is Joined,
            !(*old(self) is Joining) || result ==> *final(self) == *old(self),
    {
        match *self {
            Join::Joining => {
                if !result {
                    *self = Join::Joined;
                }
            },
            _ => {},
        }
    }
}

/// The round after `n` calls have been started.
pub open spec fn after_calls(n: nat) -> Join
    decreases n,
{
    if n == 0 {
        Join::Calling(0)
    } else {
        after_calls((n - 1) as nat).after_call()
    }
}

/// The round after results have come `n` times, from where it stood.
pub open spec fn after_results(j: Join, n: nat) -> Join
    decreases n,
{
    if n == 0 {
        j
    } else {
        after_results(j, (n - 1) as nat).after_wait(true)
    }
}

/// A round starts exactly [`CALLS`] calls before it waits, waits as long as
/// results come, and is over when none is left.  A failure ends it wherever it
/// stands.
pub proof fn law_calls_before_results(n: nat, results: nat)
    ensures
        n < CALLS ==> after_calls(n).spec_action() == JoinAction::Call,
        n >= CALLS ==> after_calls(n) == Join::Joining,
        after_results(Join::Joining, results).spec_action() == JoinAction::Next,
        after_results(Join::Joining, results).after_wait(false).spec_action() == JoinAction::Done,
        after_calls(n).after_failure().spec_action() == JoinAction::Done,
        after_results(Join::Joining, results).after_failure().spec_action() == JoinAction::Done,
    decreases n + results,
{
    lemma_after_calls(n);
    if results > 0 {
        law_calls_before_results(n, (results - 1) as nat);
    }
}

/// Three calls are started in a round.  A result never ends the wait for results,
/// the lack of one always does, and neither a call nor a wait leads back.
pub proof fn law_a_round_goes_forward(j: Join, started: u8)
    ensures
        CALLS == 3,
        started < 2 ==> Join::Calling(started).after_call() == Join::Calling((started + 1) as u8),
        started >= 2 ==> Join::Calling(started).after_call() == Join::Joining,
        !(j is Calling) ==> j.after_call() == j,
        j.after_wait(true) == j,
        Join::Joining.after_wait(false) == Join::Joined,
        !(j is Joining) ==> j.after_wait(false) == j,
        j.after_failure() == Join::Joined,
        j.spec_action() is Call <==> j is Calling,
        j.spec_action() is Next <==> j is Joining,
        j.spec_action() is Done <==> j is Joined,
{
}

/// Where the round stands after `n` calls.
proof fn lemma_after_calls(n: nat)
    ensures
        n < CALLS ==> after_calls(n) == Join::Calling(n as u8),
        n >= CALLS ==> after_calls(n) == Join::Joining,
    decreases n,
{
    if n > 0 {
        lemma_after_calls((n - 1) as nat);
    }
}

} // verus!
