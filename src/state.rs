use vstd::prelude::*;

verus! {

/// The lifecycle of a game instance: Setup, then Started, then Ended.
#[derive(Clone, Copy, Debug, PartialEq, Eq, Structural)]
pub enum GameState {
    Setup,
    Started,
    Ended,
}

/// Which ruleset a game follows.
#[derive(Clone, Copy, Debug, PartialEq, Eq, Structural)]
pub enum GameType {
    /// Flop detection: payouts depend on where the first same-suit flop falls.
    Fts,
    /// Cut-the-ace: reverse wagers call for an optimal cut before dealing.
    Cta,
}

/// A lifecycle step a caller may ask a game to take.
#[derive(Clone, Copy, Debug, PartialEq, Eq, Structural)]
pub enum Transition {
    Start,
}

} // verus!
