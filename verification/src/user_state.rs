use vstd::prelude::*;
use core::cmp::Ordering;

verus! {

/// The stages a client connection goes through, in the order it passes them.
#[derive(Clone, Copy, Debug, PartialEq, Eq, Structural)]
pub enum UserState {
    /// User is logging in, nothing is set up.
    LoggingIn,
    /// User is logged in, but no username was set, only user id is set.
    NewUsername,
    /// User is logged in, account stuff is set up, but no character info.
    CharacterSelect,
    /// User has selected the character, but map and party aren't set up yet.
    PreInGame,
    /// User is in the game, character, map, party are set up.
    InGame,
}

/// The position of a state in the login progression (0 for `LoggingIn`).
pub open spec fn state_rank(s: UserState) -> nat {
    match s {
        UserState::LoggingIn => 0,
        UserState::NewUsername => 1,
        UserState::CharacterSelect => 2,
        UserState::PreInGame => 3,
        UserState::InGame => 4,
    }
}

/// Comparison of two states by their position in the progression.
pub open spec fn state_order(a: UserState, b: UserState) -> Ordering {
    if state_rank(a) < state_rank(b) {
        Ordering::Less
    } else if state_rank(a) == state_rank(b) {
        Ordering::Equal
    } else {
        Ordering::Greater
    }
}

impl UserState {
    /// The position of this state in the login progression.
    pub fn rank(&self) -> (r: u8)
        ensures
            r == state_rank(*self),
    {
        match self {
            UserState::LoggingIn => 0,
            UserState::NewUsername => 1,
            UserState::CharacterSelect => 2,
            UserState::PreInGame => 3,
            UserState::InGame => 4,
        }
    }

    /// Whether this state is at least as far in the progression as `other`.
    pub fn at_least(&self, other: &UserState) -> (r: bool)
        ensures
            r == (state_rank(*self) >= state_rank(*other)),
    {
        self.rank() >= other.rank()
    }

    /// The human readable description of the state.
    pub fn describe(&self) -> (r: &'static str)
        ensures
            r@ == state_description(*self)@,
    {
        match self {
            UserState::LoggingIn => "Logging in",
            UserState::NewUsername => "Inputting username",
            UserState::CharacterSelect => "Selecting a character",
            UserState::PreInGame => "Waiting for client to load",
            UserState::InGame => "Playing",
        }
    }
}

/// The text shown for each state.
pub open spec fn state_description(s: UserState) -> &'static str {
    match s {
        UserState::LoggingIn => "Logging in",
        UserState::NewUsername => "Inputting username",
        UserState::CharacterSelect => "Selecting a character",
        UserState::PreInGame => "Waiting for client to load",
        UserState::InGame => "Playing",
    }
}

impl PartialOrd for UserState {
    fn partial_cmp(&self, other: &UserState) -> (r: Option<Ordering>) {
        let a = self.rank();
        let b = other.rank();
        if a < b {
            Some(Ordering::Less)
        } else if a == b {
            Some(Ordering::Equal)
        } else {
            Some(Ordering::Greater)
        }
    }
}

impl vstd::std_specs::cmp::PartialOrdSpecImpl for UserState {
    open spec fn obeys_partial_cmp_spec() -> bool {
        true
    }

    open spec fn partial_cmp_spec(&self, other: &UserState) -> Option<Ordering> {
        Some(state_order(*self, *other))
    }
}

/// The order of states is total and agrees with the login progression:
/// `a < b` exactly when `a` comes earlier, and the comparison is antisymmetric.
pub proof fn law_state_order_total(a: UserState, b: UserState)
    ensures
        state_order(a, b) == Ordering::Equal <==> a == b,
        state_order(a, b) == Ordering::Less <==> state_order(b, a) == Ordering::Greater,
        state_order(a, b) == Ordering::Less <==> state_rank(a) < state_rank(b),
{
}

/// The order of states is transitive.
pub proof fn law_state_order_transitive(a: UserState, b: UserState, c: UserState)
    requires
        state_order(a, b) == Ordering::Less,
        state_order(b, c) == Ordering::Less,
    ensures
        state_order(a, c) == Ordering::Less,
{
}

} // verus!
