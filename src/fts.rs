use vstd::prelude::*;

use crate::card::Card;
use crate::config::{
    book_max_scope, config_check, flop_count, scope, wagers_max_scope, FtsConfig, PlayerWagers,
    FLOPS_PER_DECK,
};
use crate::deck::{fresh_card, shuffle_steps, Deck, DECK_SIZE};
use crate::error::{ConfigError, GameError, StateError};
use crate::payout::{compute_payout, entries_view, outcome_valid, payout_entries, PayoutEntry};
use crate::state::{GameState, GameType, Transition};

verus! {

broadcast use vstd::seq_lib::group_seq_properties;

/// The three cards of group `g` share a suit.
pub open spec fn is_flop(cards: Seq<Card>, g: int) -> bool {
    &&& cards[3 * g].suit == cards[3 * g + 1].suit
    &&& cards[3 * g + 1].suit == cards[3 * g + 2].suit
}

/// The index of the first flop among the first `m` groups of three.
pub open spec fn first_flop(cards: Seq<Card>, m: int) -> Option<u8>
    decreases m,
{
    if m <= 0 {
        None
    } else {
        match first_flop(cards, m - 1) {
            Some(i) => Some(i),
            None => if is_flop(cards, m - 1) {
                Some((m - 1) as u8)
            } else {
                None
            },
        }
    }
}

proof fn lemma_first_flop_settled(cards: Seq<Card>, g: int, m: int)
    requires
        0 <= g < m,
        first_flop(cards, g + 1) is Some,
    ensures
        first_flop(cards, m) == first_flop(cards, g + 1),
    decreases m - g,
{
    if m > g + 1 {
        lemma_first_flop_settled(cards, g, m - 1);
    }
}

/// `first_flop` finds the earliest flop among the first `m` groups, or
/// reports that there is none.
pub proof fn lemma_first_flop_is_earliest(cards: Seq<Card>, m: int)
    requires
        0 <= m <= 255,
    ensures
        match first_flop(cards, m) {
            Some(i) => {
                &&& i < m
                &&& is_flop(cards, i as int)
                &&& forall|j: int| 0 <= j < i ==> !#[trigger] is_flop(cards, j)
            },
            None => forall|j: int| 0 <= j < m ==> !#[trigger] is_flop(cards, j),
        },
    decreases m,
{
    if m > 0 {
        lemma_first_flop_is_earliest(cards, m - 1);
    }
}

/// Finds where, among the first `groups` groups of three cards, a flop
/// first appears.
pub fn find_flop(cards: &Vec<Card>, groups: u8) -> (r: Option<u8>)
    requires
        3 * groups <= cards@.len(),
    ensures
        r == first_flop(cards@, groups as int),
        match r {
            Some(i) => {
                &&& i < groups
                &&& is_flop(cards@, i as int)
                &&& forall|j: int| 0 <= j < i ==> !#[trigger] is_flop(cards@, j)
            },
            None => forall|j: int| 0 <= j < groups ==> !#[trigger] is_flop(cards@, j),
        },
{
    proof {
        lemma_first_flop_is_earliest(cards@, groups as int);
    }
    let mut g: u8 = 0;
    while g < groups
        invariant
            g <= groups,
            3 * groups <= cards@.len(),
            first_flop(cards@, g as int) is None,
        decreases groups - g,
    {
        let b: usize = 3 * g as usize;
        if cards[b].suit == cards[b + 1].suit && cards[b + 1].suit == cards[b + 2].suit {
            proof {
                lemma_first_flop_settled(cards@, g as int, groups as int);
                lemma_first_flop_is_earliest(cards@, g as int);
            }
            return Some(g);
        }
        g += 1;
    }
    None
}

/// What `ready` reports for a game in `state`, on `book`, set to deal `m`
/// flops.
pub open spec fn ready_verdict(state: GameState, book: Seq<PlayerWagers>, m: int) -> Result<
    (),
    GameError,
> {
    if state != GameState::Setup {
        Err(GameError::State(StateError::AlreadyStarted))
    } else {
        match config_check(book) {
            Err(e) => Err(GameError::Config(e)),
            Ok(_) => if m == 0 {
                Err(GameError::Config(ConfigError::NoFlops))
            } else {
                Ok(())
            },
        }
    }
}

/// A flop-detection game: the deck is shuffled and dealt in groups of
/// three, and wagers are settled on where the first same-suit group falls.
pub struct Fts {
    deck: Deck,
    config: FtsConfig,
    state: GameState,
    max_flop_count: u8,
    flopped_at: Option<u8>,
}

impl Fts {
    pub closed spec fn state_of(&self) -> GameState {
        self.state
    }

    /// Where the first flop fell, once the game has ended.
    pub closed spec fn outcome(&self) -> Option<u8> {
        self.flopped_at
    }

    /// How many flops the game deals.
    pub closed spec fn flops(&self) -> int {
        self.max_flop_count as int
    }

    /// The cards still in the deck.
    pub closed spec fn cards(&self) -> Seq<Card> {
        self.deck@
    }

    pub closed spec fn book(&self) -> Seq<PlayerWagers> {
        self.config.wagers@
    }

    pub closed spec fn house(&self) -> Seq<char> {
        self.config.house_id@
    }

    /// Everything the invariant asks but the derived flop count.
    pub closed spec fn inv(&self) -> bool {
        &&& self.deck.wf()
        &&& self.state != GameState::Started
        &&& self.state == GameState::Setup ==> self.deck@.len() == DECK_SIZE
            && self.flopped_at is None
        &&& self.state == GameState::Ended ==> config_check(self.config.wagers@) is Ok
            && outcome_valid(self.flopped_at)
    }

    /// The game's invariant: a playable deck, never caught between phases,
    /// and a flop count derived from the book.
    pub closed spec fn wf(&self) -> bool {
        &&& self.inv()
        &&& self.max_flop_count as int == flop_count(self.config.wagers@)
    }

    /// A game in setup, with a fresh deck, on the given configuration.
    pub fn init(config: FtsConfig) -> (r: Result<Fts, GameError>)
        ensures
            r is Ok,
            r matches Ok(g) ==> {
                &&& g.wf()
                &&& g.state_of() == GameState::Setup
                &&& g.outcome() is None
                &&& g.cards().len() == DECK_SIZE
                &&& forall|k: int| 0 <= k < DECK_SIZE ==> #[trigger] g.cards()[k] == fresh_card(k)
                &&& g.book() == config.wagers@
                &&& g.house() == config.house_id@
                &&& g.flops() == flop_count(config.wagers@)
            },
    {
        let mut fts = Fts {
            deck: Deck::new(),
            config,
            state: GameState::Setup,
            max_flop_count: 0,
            flopped_at: None,
        };
        match fts.apply_config() {
            Ok(()) => Ok(fts),
            Err(e) => Err(e),
        }
    }

    pub fn get_state(&self) -> (r: &GameState)
        ensures
            *r == self.state_of(),
    {
        &self.state
    }

    /// Derives the number of flops to deal from the wager book: the highest
    /// flop index any wager refers to, capped at the flops a deck holds.
    pub fn apply_config(&mut self) -> (r: Result<(), GameError>)
        requires
            old(self).inv(),
        ensures
            r is Ok,
            final(self).wf(),
            final(self).flops() == flop_count(final(self).book()),
            final(self).state_of() == old(self).state_of(),
            final(self).outcome() == old(self).outcome(),
            final(self).cards() == old(self).cards(),
            final(self).book() == old(self).book(),
            final(self).house() == old(self).house(),
    {
        let mut m: u8 = 0;
        let mut i: usize = 0;
        while i < self.config.wagers.len()
            invariant
                i <= self.config.wagers@.len(),
                m as int == book_max_scope(self.config.wagers@.take(i as int)),
            decreases self.config.wagers@.len() - i,
        {
            let ws = &self.config.wagers[i].wagers;
            let mut wm: u8 = 0;
            let mut k: usize = 0;
            while k < ws.len()
                invariant
                    k <= ws@.len(),
                    wm as int == wagers_max_scope(ws@.take(k as int)),
                decreases ws@.len() - k,
            {
                let s: u8 = match ws[k].wager_type {
                    crate::config::WagerType::FullDeck => FLOPS_PER_DECK,
                    crate::config::WagerType::AtFlop(p) => p,
                    crate::config::WagerType::FlopRange(_, e) => e,
                };
                proof {
                    assert(ws@.take(k + 1).drop_last() =~= ws@.take(k as int));
                    assert(s as int == scope(ws@[k as int].wager_type));
                }
                if s > wm {
                    wm = s;
                }
                k += 1;
            }
            proof {
                assert(ws@.take(k as int) =~= ws@);
                assert(self.config.wagers@.take(i + 1).drop_last() =~= self.config.wagers@.take(
                    i as int,
                ));
            }
            if wm > m {
                m = wm;
            }
            i += 1;
        }
        proof {
            assert(self.config.wagers@.take(i as int) =~= self.config.wagers@);
        }
        self.max_flop_count = if m > FLOPS_PER_DECK {
            FLOPS_PER_DECK
        } else {
            m
        };
        Ok(())
    }

    /// Checks that the game may start: it is still in setup, its book is
    /// valid, and it deals at least one flop.
    pub fn ready(&self) -> (r: Result<(), GameError>)
        requires
            self.wf(),
        ensures
            r == ready_verdict(self.state_of(), self.book(), self.flops()),
            self.flops() == 0 ==> r is Err,
    {
        if self.state != GameState::Setup {
            return Err(GameError::State(StateError::AlreadyStarted));
        }
        match self.config.validate() {
            Err(e) => {
                return Err(GameError::Config(e));
            },
            Ok(()) => {},
        }
        if self.max_flop_count == 0 {
            return Err(GameError::Config(ConfigError::NoFlops));
        }
        Ok(())
    }

    /// Plays the game: shuffles the deck with one draw per card, deals the
    /// flops, records where the first one fell and ends the game. When the
    /// game is not ready, nothing changes and the reason is returned.
    pub fn start(&mut self, draws: &Vec<u64>) -> (r: Result<(), GameError>)
        requires
            old(self).wf(),
            draws@.len() == DECK_SIZE,
        ensures
            final(self).wf(),
            final(self).book() == old(self).book(),
            final(self).house() == old(self).house(),
            final(self).flops() == old(self).flops(),
            old(self).state_of() != GameState::Setup ==> r == Err::<(), GameError>(
                GameError::State(StateError::AlreadyStarted),
            ),
            match ready_verdict(old(self).state_of(), old(self).book(), old(self).flops()) {
                Err(e) => {
                    &&& r == Err::<(), GameError>(e)
                    &&& *final(self) == *old(self)
                },
                Ok(_) => {
                    let shuffled = shuffle_steps(old(self).cards(), draws@, DECK_SIZE as nat);
                    let dealt = 3 * old(self).flops();
                    &&& r is Ok
                    &&& final(self).state_of() == GameState::Ended
                    &&& final(self).outcome() == first_flop(
                        shuffled.take(dealt),
                        old(self).flops(),
                    )
                    &&& final(self).cards() == shuffled.skip(dealt)
                },
            },
    {
        match self.ready() {
            Err(e) => {
                return Err(e);
            },
            Ok(()) => {},
        }
        self.state = GameState::Started;
        self.deck.shuffle(draws);
        let n: usize = self.max_flop_count as usize * 3;
        match self.deck.deal(n) {
            Err(e) => {
                Err(GameError::Deal(e))
            },
            Ok(cards) => {
                self.flopped_at = find_flop(&cards, self.max_flop_count);
                self.state = GameState::Ended;
                Ok(())
            },
        }
    }

    /// The payout map once the game has ended: `None` before that, and
    /// `None` when every amount is zero.
    pub fn get_payout(&self) -> (r: Option<Vec<PayoutEntry>>)
        requires
            self.wf(),
        ensures
            self.state_of() != GameState::Ended ==> r is None,
            self.state_of() == GameState::Ended ==> match r {
                None => payout_entries(self.book(), self.house(), self.outcome()).len() == 0,
                Some(v) => {
                    &&& entries_view(v@) == payout_entries(self.book(), self.house(), self.outcome())
                    &&& v@.len() > 0
                },
            },
    {
        if self.state != GameState::Ended {
            return None;
        }
        compute_payout(&self.config, self.flopped_at)
    }

    pub fn my_type(&self) -> (t: GameType)
        ensures
            t == GameType::Fts,
    {
        GameType::Fts
    }

    /// The transitions the game accepts next: `Start` in setup, none after.
    pub fn valid_transitions(&self) -> (r: Vec<Transition>)
        ensures
            self.state_of() == GameState::Setup ==> r@ == seq![Transition::Start],
            self.state_of() != GameState::Setup ==> r@.len() == 0,
    {
        let mut v: Vec<Transition> = Vec::new();
        if self.state == GameState::Setup {
            v.push(Transition::Start);
        }
        v
    }
}

} // verus!
