use vstd::prelude::*;

use crate::error::ConfigError;
use crate::player::Player;

verus! {

broadcast use vstd::seq_lib::group_seq_properties;

/// Number of complete three-card flops in a 52-card deck.
pub const FLOPS_PER_DECK: u8 = 17;

/// The largest total stake at risk that a game accepts; every payout sum
/// then fits in an `i64`.
pub const MAX_EXPOSURE: u64 = 9223372036854775807;

/// What a flop-detection wager bets on.
#[derive(Clone, Copy, Debug, PartialEq, Eq, Structural)]
pub enum WagerType {
    /// The whole range of flops a deck can hold.
    FullDeck,
    /// The flop at exactly this index.
    AtFlop(u8),
    /// A flop at an index in this inclusive range.
    FlopRange(u8, u8),
}

/// A wager: its type and the stake per unit.
#[derive(Clone, Copy, Debug, PartialEq, Eq, Structural)]
pub struct Wager {
    pub wager_type: WagerType,
    pub amount: i32,
}

/// The wagers one player placed.
pub struct PlayerWagers {
    pub player: Player,
    pub wagers: Vec<Wager>,
}

/// The configuration of a flop-detection game: the wager book and the
/// identity of the house.
pub struct FtsConfig {
    pub wagers: Vec<PlayerWagers>,
    pub house_id: String,
}

/// What a cut-the-ace wager bets on.
#[derive(Clone, Copy, Debug, PartialEq, Eq, Structural)]
pub enum CtaWagerType {
    Forward,
    Reverse,
}

/// A cut-the-ace wager: its type and the stake.
#[derive(Clone, Copy, Debug, PartialEq, Eq, Structural)]
pub struct CtaWager {
    pub wager_type: CtaWagerType,
    pub amount: i32,
}

/// The cut-the-ace wagers one player placed.
pub struct CtaPlayerWagers {
    pub player: Player,
    pub wagers: Vec<CtaWager>,
}

/// The configuration of a cut-the-ace game.
pub struct CtaConfig {
    pub wagers: Vec<CtaPlayerWagers>,
    pub house_id: String,
}

impl CtaConfig {
    pub fn new(wagers: Vec<CtaPlayerWagers>, house_id: String) -> (c: CtaConfig)
        ensures
            c.wagers@ == wagers@,
            c.house_id@ == house_id@,
    {
        CtaConfig { wagers, house_id }
    }
}

/// Some wager of the book is a reverse wager.
pub open spec fn has_reverse(book: Seq<CtaPlayerWagers>) -> bool {
    exists|i: int, k: int|
        0 <= i < book.len() && 0 <= k < book[i].wagers@.len() && #[trigger] book[i].wagers@[k].wager_type
            == CtaWagerType::Reverse
}

/// The highest flop index a wager type refers to.
pub open spec fn scope(t: WagerType) -> int {
    match t {
        WagerType::FullDeck => FLOPS_PER_DECK as int,
        WagerType::AtFlop(p) => p as int,
        WagerType::FlopRange(_, e) => e as int,
    }
}

/// The highest flop index any wager of `ws` refers to (0 when none does).
pub open spec fn wagers_max_scope(ws: Seq<Wager>) -> int
    decreases ws.len(),
{
    if ws.len() == 0 {
        0
    } else {
        let m = wagers_max_scope(ws.drop_last());
        let s = scope(ws.last().wager_type);
        if s > m {
            s
        } else {
            m
        }
    }
}

/// The highest flop index any wager of the book refers to.
pub open spec fn book_max_scope(book: Seq<PlayerWagers>) -> int
    decreases book.len(),
{
    if book.len() == 0 {
        0
    } else {
        let m = book_max_scope(book.drop_last());
        let s = wagers_max_scope(book.last().wagers@);
        if s > m {
            s
        } else {
            m
        }
    }
}

/// The number of flops a game on this book deals: the highest referenced
/// index, capped at the flops a deck holds.
pub open spec fn flop_count(book: Seq<PlayerWagers>) -> int {
    if book_max_scope(book) > FLOPS_PER_DECK {
        FLOPS_PER_DECK as int
    } else {
        book_max_scope(book)
    }
}

/// The largest multiple of the stake a wager type can win or lose.
pub open spec fn weight(t: WagerType) -> int {
    match t {
        WagerType::FlopRange(s, e) => if e - s + 1 > FLOPS_PER_DECK {
            e - s + 1
        } else {
            FLOPS_PER_DECK as int
        },
        _ => FLOPS_PER_DECK as int,
    }
}

pub open spec fn abs(x: int) -> int {
    if x < 0 {
        -x
    } else {
        x
    }
}

/// The most a single wager can move.
pub open spec fn exposure(w: Wager) -> int {
    abs(w.amount as int) * weight(w.wager_type)
}

pub open spec fn wagers_exposure(ws: Seq<Wager>) -> int
    decreases ws.len(),
{
    if ws.len() == 0 {
        0
    } else {
        wagers_exposure(ws.drop_last()) + exposure(ws.last())
    }
}

pub open spec fn book_exposure(book: Seq<PlayerWagers>) -> int
    decreases book.len(),
{
    if book.len() == 0 {
        0
    } else {
        book_exposure(book.drop_last()) + wagers_exposure(book.last().wagers@)
    }
}

pub open spec fn range_ok(t: WagerType) -> bool {
    match t {
        WagerType::FlopRange(s, e) => s <= e,
        _ => true,
    }
}

/// Every flop range of the book starts no later than it ends.
pub open spec fn ranges_ok(book: Seq<PlayerWagers>) -> bool {
    forall|i: int, k: int|
        0 <= i < book.len() && 0 <= k < book[i].wagers@.len() ==> range_ok(
            #[trigger] book[i].wagers@[k].wager_type,
        )
}

/// Each player has at most one entry in the book.
pub open spec fn players_unique(book: Seq<PlayerWagers>) -> bool {
    forall|a: int, b: int|
        #![trigger book[a].player@, book[b].player@]
        0 <= a < b < book.len() ==> book[a].player@ != book[b].player@
}

/// The verdict of validation on a book: range errors come first, then a
/// repeated player, then an exposure that is too large.
pub open spec fn config_check(book: Seq<PlayerWagers>) -> Result<(), ConfigError> {
    if !ranges_ok(book) {
        Err(ConfigError::InvalidRange)
    } else if !players_unique(book) {
        Err(ConfigError::DuplicatePlayer)
    } else if book_exposure(book) > MAX_EXPOSURE {
        Err(ConfigError::ExposureTooLarge)
    } else {
        Ok(())
    }
}

pub open spec fn book_valid(book: Seq<PlayerWagers>) -> bool {
    config_check(book) is Ok
}

/// A wager's exposure is never negative.
pub(crate) proof fn lemma_exposure_nonneg(w: Wager)
    ensures
        exposure(w) >= 0,
{
    assert(abs(w.amount as int) * weight(w.wager_type) >= 0) by (nonlinear_arith)
        requires
            abs(w.amount as int) >= 0,
            weight(w.wager_type) >= 0,
    ;
}

/// A prefix of a player's wagers is exposed no more than all of them.
pub(crate) proof fn lemma_wagers_exposure_prefix(ws: Seq<Wager>, k: int)
    requires
        0 <= k <= ws.len(),
    ensures
        0 <= wagers_exposure(ws.take(k)) <= wagers_exposure(ws),
    decreases ws.len(),
{
    if ws.len() > 0 {
        lemma_exposure_nonneg(ws.last());
        if k == ws.len() {
            assert(ws.take(k) =~= ws);
            lemma_wagers_exposure_prefix(ws.drop_last(), k - 1);
            assert(ws.drop_last().take(k - 1) =~= ws.drop_last());
        } else {
            lemma_wagers_exposure_prefix(ws.drop_last(), k);
            assert(ws.drop_last().take(k) =~= ws.take(k));
        }
    } else {
        assert(ws.take(k) =~= ws);
    }
}

/// A prefix of the book, and a prefix followed by the next player's
/// wagers, are exposed no more than the whole book.
pub(crate) proof fn lemma_book_exposure_prefix(book: Seq<PlayerWagers>, i: int)
    requires
        0 <= i <= book.len(),
    ensures
        0 <= book_exposure(book.take(i)) <= book_exposure(book),
        i < book.len() ==> book_exposure(book.take(i)) + wagers_exposure(book[i].wagers@)
            <= book_exposure(book),
    decreases book.len(),
{
    if book.len() > 0 {
        let ws = book.last().wagers@;
        lemma_wagers_exposure_prefix(ws, ws.len() as int);
        assert(ws.take(ws.len() as int) =~= ws);
        if i == book.len() {
            assert(book.take(i) =~= book);
            lemma_book_exposure_prefix(book.drop_last(), i - 1);
            assert(book.drop_last().take(i - 1) =~= book.drop_last());
        } else {
            lemma_book_exposure_prefix(book.drop_last(), i);
            assert(book.drop_last().take(i) =~= book.take(i));
            if i == book.len() - 1 {
                assert(book.take(i) =~= book.drop_last());
            }
        }
    } else {
        assert(book.take(i) =~= book);
    }
}

/// The largest multiple of the stake the wager can move.
fn wager_exposure(w: &Wager) -> (r: u64)
    ensures
        r == exposure(*w),
        r <= 256 * 2147483648,
{
    let a: u64 = if w.amount < 0 {
        (-(w.amount as i64)) as u64
    } else {
        w.amount as u64
    };
    let wt: u64 = match w.wager_type {
        WagerType::FlopRange(s, e) => if s <= e && (e - s) as u64 + 1 > FLOPS_PER_DECK as u64 {
            (e - s) as u64 + 1
        } else {
            FLOPS_PER_DECK as u64
        },
        _ => FLOPS_PER_DECK as u64,
    };
    assert(a * wt <= 256 * 2147483648) by (nonlinear_arith)
        requires
            a <= 2147483648,
            wt <= 256,
    ;
    a * wt
}

impl FtsConfig {
    pub fn new(wagers: Vec<PlayerWagers>, house_id: String) -> (c: FtsConfig)
        ensures
            c.wagers@ == wagers@,
            c.house_id@ == house_id@,
    {
        FtsConfig { wagers, house_id }
    }

    /// Checks that every flop range is well formed, that no player appears
    /// twice and that the total stake at risk stays within `MAX_EXPOSURE`.
    pub fn validate(&self) -> (r: Result<(), ConfigError>)
        ensures
            r == config_check(self.wagers@),
    {
        let mut i: usize = 0;
        while i < self.wagers.len()
            invariant
                i <= self.wagers@.len(),
                forall|j: int, k: int|
                    0 <= j < i && 0 <= k < self.wagers@[j].wagers@.len() ==> range_ok(
                        #[trigger] self.wagers@[j].wagers@[k].wager_type,
                    ),
            decreases self.wagers@.len() - i,
        {
            let ws = &self.wagers[i].wagers;
            let mut k: usize = 0;
            while k < ws.len()
                invariant
                    i < self.wagers@.len(),
                    ws@ == self.wagers@[i as int].wagers@,
                    k <= ws@.len(),
                    forall|j: int, l: int|
                        0 <= j < i && 0 <= l < self.wagers@[j].wagers@.len() ==> range_ok(
                            #[trigger] self.wagers@[j].wagers@[l].wager_type,
                        ),
                    forall|l: int| 0 <= l < k ==> range_ok(#[trigger] ws@[l].wager_type),
                decreases ws@.len() - k,
            {
                if let WagerType::FlopRange(s, e) = ws[k].wager_type {
                    if s > e {
                        assert(!range_ok(self.wagers@[i as int].wagers@[k as int].wager_type));
                        assert(!ranges_ok(self.wagers@));
                        return Err(ConfigError::InvalidRange);
                    }
                }
                k += 1;
            }
            i += 1;
        }
        let mut i: usize = 0;
        while i < self.wagers.len()
            invariant
                i <= self.wagers@.len(),
                ranges_ok(self.wagers@),
                forall|a: int, b: int|
                    #![trigger self.wagers@[a].player@, self.wagers@[b].player@]
                    0 <= a < b < i ==> self.wagers@[a].player@ != self.wagers@[b].player@,
            decreases self.wagers@.len() - i,
        {
            let mut j: usize = 0;
            while j < i
                invariant
                    i < self.wagers@.len(),
                    j <= i,
                    ranges_ok(self.wagers@),
                    forall|a: int, b: int|
                        #![trigger self.wagers@[a].player@, self.wagers@[b].player@]
                        0 <= a < b < i ==> self.wagers@[a].player@ != self.wagers@[b].player@,
                    forall|a: int|
                        0 <= a < j ==> #[trigger] self.wagers@[a].player@ != self.wagers@[i as int].player@,
                decreases i - j,
            {
                if self.wagers[j].player == self.wagers[i].player {
                    assert(!players_unique(self.wagers@));
                    return Err(ConfigError::DuplicatePlayer);
                }
                j += 1;
            }
            i += 1;
        }
        let mut total: u64 = 0;
        let mut i: usize = 0;
        while i < self.wagers.len()
            invariant
                i <= self.wagers@.len(),
                total == book_exposure(self.wagers@.take(i as int)),
                total <= MAX_EXPOSURE,
                ranges_ok(self.wagers@),
                players_unique(self.wagers@),
            decreases self.wagers@.len() - i,
        {
            let ws = &self.wagers[i].wagers;
            let mut k: usize = 0;
            let ghost base = total as int;
            proof {
                lemma_book_exposure_prefix(self.wagers@, i as int);
            }
            while k < ws.len()
                invariant
                    i < self.wagers@.len(),
                    ws@ == self.wagers@[i as int].wagers@,
                    k <= ws@.len(),
                    base == book_exposure(self.wagers@.take(i as int)),
                    base + wagers_exposure(ws@) <= book_exposure(self.wagers@),
                    total == base + wagers_exposure(ws@.take(k as int)),
                    total <= MAX_EXPOSURE,
                    ranges_ok(self.wagers@),
                    players_unique(self.wagers@),
                decreases ws@.len() - k,
            {
                let e = wager_exposure(&ws[k]);
                proof {
                    assert(ws@.take(k + 1).drop_last() =~= ws@.take(k as int));
                    assert(ws@.take(k + 1).last() == ws@[k as int]);
                    assert(wagers_exposure(ws@.take(k + 1)) == wagers_exposure(ws@.take(k as int))
                        + exposure(ws@[k as int]));
                    lemma_wagers_exposure_prefix(ws@, k + 1);
                }
                if total + e > MAX_EXPOSURE {
                    return Err(ConfigError::ExposureTooLarge);
                }
                total = total + e;
                k += 1;
            }
            proof {
                assert(ws@.take(k as int) =~= ws@);
                assert(self.wagers@.take(i + 1).drop_last() =~= self.wagers@.take(i as int));
            }
            i += 1;
        }
        proof {
            assert(self.wagers@.take(i as int) =~= self.wagers@);
        }
        Ok(())
    }
}

} // verus!
