use vstd::prelude::*;

verus! {

/// Why a wager configuration cannot be played.
#[derive(Clone, Copy, Debug, PartialEq, Eq, Structural)]
pub enum ConfigError {
    /// A flop range whose start lies after its end.
    InvalidRange,
    /// Two entries of the wager book belong to the same player.
    DuplicatePlayer,
    /// The total stake at risk does not fit the payout arithmetic.
    ExposureTooLarge,
    /// No wager references any flop position.
    NoFlops,
}

/// Why a lifecycle transition was refused.
#[derive(Clone, Copy, Debug, PartialEq, Eq, Structural)]
pub enum StateError {
    /// The game has already left the setup phase.
    AlreadyStarted,
}

/// A deal asked for more cards than the deck holds.
#[derive(Clone, Copy, Debug, PartialEq, Eq, Structural)]
pub struct DealError {
    pub requested: usize,
    pub remaining: usize,
}

/// Every failure a game operation can report.
#[derive(Clone, Copy, Debug, PartialEq, Eq, Structural)]
pub enum GameError {
    Config(ConfigError),
    State(StateError),
    Deal(DealError),
}

impl GameError {
    /// A stable, human-readable reason for the failure.
    pub fn reason(&self) -> (r: &'static str)
        ensures
            match self {
                GameError::Config(ConfigError::InvalidRange) => r@
                    == "flop range starts after it ends"@,
                GameError::Config(ConfigError::DuplicatePlayer) => r@
                    == "a player appears twice in the wager book"@,
                GameError::Config(ConfigError::ExposureTooLarge) => r@
                    == "total stake at risk is too large"@,
                GameError::Config(ConfigError::NoFlops) => r@ == "game set to perform 0 flops"@,
                GameError::State(StateError::AlreadyStarted) => r@ == "game already started"@,
                GameError::Deal(_) => r@ == "could not deal the required amount of cards"@,
            },
    {
        match self {
            GameError::Config(ConfigError::InvalidRange) => "flop range starts after it ends",
            GameError::Config(ConfigError::DuplicatePlayer) => {
                "a player appears twice in the wager book"
            },
            GameError::Config(ConfigError::ExposureTooLarge) => "total stake at risk is too large",
            GameError::Config(ConfigError::NoFlops) => "game set to perform 0 flops",
            GameError::State(StateError::AlreadyStarted) => "game already started",
            GameError::Deal(_) => "could not deal the required amount of cards",
        }
    }
}

} // verus!
