use vstd::prelude::*;

verus! {

/// A secret role held by a participant.
#[derive(Debug, Clone, Copy, PartialEq, Eq, Structural)]
pub enum Role {
    Villager,
    Werewolf,
    Amor,
    Witch { heals: usize, poisons: usize },
    Mayor { votes: usize },
    Spectator,
}

/// The global phase of the turn cycle.
#[derive(Debug, Clone, Copy, PartialEq, Eq, Structural)]
pub enum State {
    Pending,
    Lovers,
    Night,
    Bewitch,
    Election,
    Day,
    Ended,
}

/// Who won a finished game.
#[derive(Debug, Clone, Copy, PartialEq, Eq, Structural)]
pub enum Outcome {
    Villagers,
    Werewolves,
}

/// A role-gated action, targets given as participant handles.
#[derive(Debug, Clone, Copy, PartialEq, Eq, Structural)]
pub enum Action {
    Attach(usize, usize),
    Kill(usize),
    Heal(usize),
    Poison(usize),
    Elect(usize),
    Vote(usize),
}

/// Parameters of a new game.
#[derive(Debug, Clone, Copy, PartialEq, Eq, Structural)]
pub struct WerewolfSettings {
    pub num_players: usize,
    pub num_werewolfs: usize,
    pub heals: usize,
    pub poisons: usize,
    pub mayor_votes: usize,
}

/// Lifecycle failures of the session.
#[derive(Debug, Clone, Copy, PartialEq, Eq, Structural)]
pub enum SessionError {
    AlreadyExists,
    NotJoinable,
    InvalidSettings,
    NoGame,
}

/// A caller presented a wrong credential.
#[derive(Debug, Clone, Copy, PartialEq, Eq, Structural)]
pub struct AccessDenied;

/// An inbound action was malformed or not allowed.
#[derive(Debug, Clone, Copy, PartialEq, Eq, Structural)]
pub struct WrongAction;

impl State {
    /// The lower-case name of the phase.
    pub fn name(&self) -> (r: &'static str)
        ensures
            r@ == state_name(*self),
    {
        match self {
            State::Pending => "pending",
            State::Lovers => "lovers",
            State::Night => "night",
            State::Bewitch => "bewitch",
            State::Election => "election",
            State::Day => "day",
            State::Ended => "ended",
        }
    }
}

pub open spec fn state_name(s: State) -> Seq<char> {
    match s {
        State::Pending => "pending"@,
        State::Lovers => "lovers"@,
        State::Night => "night"@,
        State::Bewitch => "bewitch"@,
        State::Election => "election"@,
        State::Day => "day"@,
        State::Ended => "ended"@,
    }
}

} // verus!
