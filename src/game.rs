use vstd::prelude::*;

use crate::cta::Cta;
use crate::fts::Fts;
use crate::state::GameType;

verus! {

/// Any of the game variants, queried through one interface.
pub enum Game {
    Fts(Fts),
    Cta(Cta),
}

impl Game {
    /// Which ruleset the game follows.
    pub fn variant_kind(&self) -> (t: GameType)
        ensures
            t == match self {
                Game::Fts(_) => GameType::Fts,
                Game::Cta(_) => GameType::Cta,
            },
    {
        match self {
            Game::Fts(g) => g.my_type(),
            Game::Cta(g) => g.get_type(),
        }
    }
}

} // verus!
