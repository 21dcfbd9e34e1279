use vstd::prelude::*;

use crate::card::{suit_from_index, suit_of, Card};
use crate::error::DealError;

verus! {

broadcast use {vstd::seq_lib::group_seq_properties, vstd::multiset::group_multiset_axioms};

/// Number of cards in a standard deck.
pub const DECK_SIZE: usize = 52;

/// The card at position `k` of a fresh deck: ranks ascend, and within a
/// rank the four suits follow each other.
pub open spec fn fresh_card(k: int) -> Card {
    Card { suit: suit_of(k), rank: (k / 4) as u8 }
}

/// `s` with the cards at `i` and `j` exchanged.
pub open spec fn swap_cards(s: Seq<Card>, i: int, j: int) -> Seq<Card> {
    s.update(i, s[j]).update(j, s[i])
}

/// The order after the first `k` steps of a Fisher-Yates shuffle that, at
/// step `i`, exchanges position `i` with position `i + draws[i] % (len - i)`.
pub open spec fn shuffle_steps(s: Seq<Card>, draws: Seq<u64>, k: nat) -> Seq<Card>
    decreases k,
{
    if k == 0 {
        s
    } else {
        let i = k - 1;
        let t = shuffle_steps(s, draws, (k - 1) as nat);
        swap_cards(t, i, i + (draws[i] as int) % (s.len() - i))
    }
}

/// An ordered pile of distinct cards, dealt from the top (the front).
pub struct Deck {
    cards: Vec<Card>,
}

impl View for Deck {
    type V = Seq<Card>;

    closed spec fn view(&self) -> Seq<Card> {
        self.cards@
    }
}

proof fn lemma_fresh_cards_distinct(j: int, k: int)
    requires
        0 <= j < 52,
        0 <= k < 52,
        j != k,
    ensures
        fresh_card(j) != fresh_card(k),
{
    assert(j == 4 * (j / 4) + j % 4);
    assert(k == 4 * (k / 4) + k % 4);
}

proof fn lemma_swap_keeps_cards(s: Seq<Card>, i: int, j: int)
    requires
        0 <= i < s.len(),
        0 <= j < s.len(),
    ensures
        swap_cards(s, i, j).len() == s.len(),
        swap_cards(s, i, j).to_multiset() == s.to_multiset(),
        s.no_duplicates() ==> swap_cards(s, i, j).no_duplicates(),
        (forall|k: int| 0 <= k < s.len() ==> #[trigger] s[k].valid()) ==> (forall|k: int|
            0 <= k < s.len() ==> #[trigger] swap_cards(s, i, j)[k].valid()),
{
    let s1 = s.update(i, s[j]);
    vstd::seq_lib::to_multiset_update(s, i, s[j]);
    vstd::seq_lib::to_multiset_update(s1, j, s[i]);
    assert(s.to_multiset().contains(s[i]));
    assert(s.to_multiset().contains(s[j]));
    assert(swap_cards(s, i, j).to_multiset() =~= s.to_multiset());
}

impl Deck {
    /// A deck is playable when its cards are real cards and pairwise distinct.
    pub open spec fn wf(&self) -> bool {
        &&& self@.no_duplicates()
        &&& forall|k: int| 0 <= k < self@.len() ==> #[trigger] self@[k].valid()
    }

    /// A fresh, ordered deck of all 52 cards.
    pub fn new() -> (d: Deck)
        ensures
            d@.len() == DECK_SIZE,
            forall|k: int| 0 <= k < DECK_SIZE ==> #[trigger] d@[k] == fresh_card(k),
            d.wf(),
    {
        let mut cards: Vec<Card> = Vec::new();
        let mut i: usize = 0;
        while i < DECK_SIZE
            invariant
                i <= DECK_SIZE,
                cards@.len() == i,
                forall|k: int| 0 <= k < i ==> #[trigger] cards@[k] == fresh_card(k),
            decreases DECK_SIZE - i,
        {
            cards.push(Card { suit: suit_from_index(i), rank: (i / 4) as u8 });
            i += 1;
        }
        assert forall|j: int, k: int|
            0 <= j < cards@.len() && 0 <= k < cards@.len() && j != k implies cards@[j]
            != cards@[k] by {
            lemma_fresh_cards_distinct(j, k);
        }
        Deck { cards }
    }

    /// Number of cards left.
    pub fn len(&self) -> (n: usize)
        ensures
            n == self@.len(),
    {
        self.cards.len()
    }

    /// Reorders the cards with one draw of the random source per position.
    pub fn shuffle(&mut self, draws: &Vec<u64>)
        requires
            draws@.len() == old(self)@.len(),
        ensures
            final(self)@ == shuffle_steps(old(self)@, draws@, old(self)@.len()),
            final(self)@.to_multiset() == old(self)@.to_multiset(),
            final(self)@.len() == old(self)@.len(),
            old(self).wf() ==> final(self).wf(),
    {
        let n = self.cards.len();
        let mut i: usize = 0;
        while i < n
            invariant
                n == old(self)@.len(),
                draws@.len() == n,
                i <= n,
                self@ == shuffle_steps(old(self)@, draws@, i as nat),
                self@.len() == n,
                self@.to_multiset() == old(self)@.to_multiset(),
                old(self).wf() ==> self.wf(),
            decreases n - i,
        {
            let j: usize = i + (draws[i] % ((n - i) as u64)) as usize;
            proof {
                lemma_swap_keeps_cards(self@, i as int, j as int);
            }
            let a = self.cards[i];
            let b = self.cards[j];
            self.cards.set(i, b);
            self.cards.set(j, a);
            i += 1;
        }
    }

    /// Removes and returns the top `n` cards, in order; fails without
    /// touching the deck when fewer than `n` remain.
    pub fn deal(&mut self, n: usize) -> (r: Result<Vec<Card>, DealError>)
        ensures
            n <= old(self)@.len() ==> r is Ok,
            match r {
                Ok(dealt) => {
                    &&& dealt@.len() == n
                    &&& dealt@ == old(self)@.take(n as int)
                    &&& final(self)@ == old(self)@.skip(n as int)
                    &&& final(self)@.len() == old(self)@.len() - n
                },
                Err(e) => {
                    &&& n > old(self)@.len()
                    &&& e == DealError { requested: n, remaining: old(self)@.len() as usize }
                    &&& final(self)@ == old(self)@
                },
            },
            old(self).wf() ==> final(self).wf(),
    {
        if n > self.cards.len() {
            return Err(DealError { requested: n, remaining: self.cards.len() });
        }
        let mut rest = self.cards.split_off(n);
        std::mem::swap(&mut self.cards, &mut rest);
        Ok(rest)
    }
}

impl Default for Deck {
    fn default() -> (d: Deck)
        ensures
            d@.len() == DECK_SIZE,
            forall|k: int| 0 <= k < DECK_SIZE ==> #[trigger] d@[k] == fresh_card(k),
            d.wf(),
    {
        Deck::new()
    }
}

} // verus!
