//! A guest that yields for as long as its host tells it to carry on.
use vstd::prelude::*;

verus! {

/// What the guest does next.
#[derive(Debug, Clone, Copy, PartialEq, Eq)]
pub enum YieldAction {
    /// Let other tasks run, then look at the flag again.
    Yield,
    /// Return from `run`.
    Return,
}

/// What the guest does when it has looked at the flag.
pub open spec fn action_on(get_continue: bool) -> YieldAction {
    if get_continue {
        YieldAction::Yield
    } else {
        YieldAction::Return
    }
}

/// The guest's `run`, from one look at the flag to the next.
pub fn run(get_continue: bool) -> (action: YieldAction)
    ensures
        action == action_on(get_continue),
        action is Yield <==> get_continue,
        action is Return <==> !get_continue,
{
    if get_continue {
        YieldAction::Yield
    } else {
        YieldAction::Return
    }
}

/// What the guest does if it sees the flag as in `looks`: it stops looking once
/// it has returned.
pub open spec fn actions(looks: Seq<bool>) -> Seq<YieldAction>
    decreases looks.len(),
{
    if looks.len() == 0 {
        Seq::empty()
    } else {
        match action_on(looks.first()) {
            YieldAction::Yield => seq![YieldAction::Yield] + actions(looks.drop_first()),
            YieldAction::Return => seq![YieldAction::Return],
        }
    }
}

/// The guest yields once for each time that it is told to carry on, and returns
/// the first time that it is not: never earlier, never later.
pub proof fn law_yields_until_told(looks: Seq<bool>, n: nat)
    requires
        n < looks.len(),
        forall|i: int| 0 <= i < n ==> looks[i],
        !looks[n as int],
    ensures
        actions(looks).len() == n + 1,
        forall|i: int| 0 <= i < n ==> actions(looks)[i] == YieldAction::Yield,
        actions(looks)[n as int] == YieldAction::Return,
    decreases n,
{
    if n > 0 {
        law_yields_until_told(looks.drop_first(), (n - 1) as nat);
        let rest = actions(looks.drop_first());
        assert forall|i: int| 0 <= i < n implies actions(looks)[i] == YieldAction::Yield by {
            if i > 0 {
                assert(actions(looks)[i] == rest[i - 1]);
            }
        }
        assert(actions(looks)[n as int] == rest[n - 1]);
    }
}

/// A guest that is always told to carry on never returns.
pub proof fn law_yields_forever(looks: Seq<bool>)
    requires
        forall|i: int| 0 <= i < looks.len() ==> looks[i],
    ensures
        actions(looks).len() == looks.len(),
        forall|i: int| 0 <= i < looks.len() ==> actions(looks)[i] == YieldAction::Yield,
    decreases looks.len(),
{
    if looks.len() > 0 {
        law_yields_forever(looks.drop_first());
        let rest = actions(looks.drop_first());
        assert forall|i: int| 0 <= i < looks.len() implies actions(looks)[i]
            == YieldAction::Yield by {
            if i > 0 {
                assert(actions(looks)[i] == rest[i - 1]);
            }
        }
    }
}

} // verus!
