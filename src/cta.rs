use vstd::prelude::*;

use crate::config::{has_reverse, CtaConfig, CtaPlayerWagers, CtaWagerType};
use crate::deck::{Deck, DECK_SIZE};
use crate::error::GameError;
use crate::state::{GameState, GameType};

verus! {

/// Whether some wager of the book is a reverse wager.
fn any_reverse(book: &Vec<CtaPlayerWagers>) -> (b: bool)
    ensures
        b == has_reverse(book@),
{
    let mut i: usize = 0;
    while i < book.len()
        invariant
            i <= book@.len(),
            forall|j: int, k: int|
                0 <= j < i && 0 <= k < book@[j].wagers@.len()
                    ==> #[trigger] book@[j].wagers@[k].wager_type != CtaWagerType::Reverse,
        decreases book@.len() - i,
    {
        let ws = &book[i].wagers;
        let mut k: usize = 0;
        while k < ws.len()
            invariant
                i < book@.len(),
                ws@ == book@[i as int].wagers@,
                k <= ws@.len(),
                forall|j: int, l: int|
                    0 <= j < i && 0 <= l < book@[j].wagers@.len()
                        ==> #[trigger] book@[j].wagers@[l].wager_type != CtaWagerType::Reverse,
                forall|l: int| 0 <= l < k ==> #[trigger] ws@[l].wager_type != CtaWagerType::Reverse,
            decreases ws@.len() - k,
        {
            if ws[k].wager_type == CtaWagerType::Reverse {
                assert(book@[i as int].wagers@[k as int].wager_type == CtaWagerType::Reverse);
                return true;
            }
            k += 1;
        }
        i += 1;
    }
    false
}

/// A cut-the-ace game in setup. When any wager is a reverse wager the deck
/// must be cut optimally before dealing; the cut and the reverse payout are
/// not settled yet, so the game only records that policy.
pub struct Cta {
    deck_pool: Vec<Deck>,
    config: CtaConfig,
    enforce_optimal_cut: bool,
    state: GameState,
}

impl Cta {
    pub closed spec fn state_of(&self) -> GameState {
        self.state
    }

    /// Whether the deck must be cut optimally before dealing.
    pub closed spec fn cut_enforced(&self) -> bool {
        self.enforce_optimal_cut
    }

    /// The decks the game deals from.
    pub closed spec fn decks(&self) -> Seq<Deck> {
        self.deck_pool@
    }

    pub closed spec fn config(&self) -> CtaConfig {
        self.config
    }

    /// A game in setup with one fresh deck; the optimal cut is enforced
    /// exactly when the book holds a reverse wager.
    pub fn new(config: CtaConfig) -> (r: Result<Cta, GameError>)
        ensures
            r is Ok,
            r matches Ok(g) ==> {
                &&& g.state_of() == GameState::Setup
                &&& g.cut_enforced() == has_reverse(config.wagers@)
                &&& g.decks().len() == 1
                &&& g.decks()[0]@.len() == DECK_SIZE
                &&& g.decks()[0].wf()
                &&& g.config() == config
            },
    {
        let mut game = Cta {
            deck_pool: vec![Deck::new()],
            config,
            state: GameState::Setup,
            enforce_optimal_cut: false,
        };
        match game.apply_config() {
            Ok(()) => Ok(game),
            Err(e) => Err(e),
        }
    }

    /// Turns on the optimal cut when the book holds a reverse wager.
    fn apply_config(&mut self) -> (r: Result<(), GameError>)
        ensures
            r is Ok,
            final(self).enforce_optimal_cut == (old(self).enforce_optimal_cut || has_reverse(
                old(self).config.wagers@,
            )),
            final(self).deck_pool == old(self).deck_pool,
            final(self).config == old(self).config,
            final(self).state == old(self).state,
    {
        if any_reverse(&self.config.wagers) {
            self.enforce_optimal_cut = true;
        }
        Ok(())
    }

    pub fn get_state(&self) -> (r: &GameState)
        ensures
            *r == self.state_of(),
    {
        &self.state
    }

    pub fn enforces_optimal_cut(&self) -> (b: bool)
        ensures
            b == self.cut_enforced(),
    {
        self.enforce_optimal_cut
    }

    pub fn get_type(&self) -> (t: GameType)
        ensures
            t == GameType::Cta,
    {
        GameType::Cta
    }
}

} // verus!
