use vstd::prelude::*;

use crate::config::{
    abs, book_exposure, book_valid, exposure, lemma_book_exposure_prefix,
    lemma_wagers_exposure_prefix, range_ok, ranges_ok, wagers_exposure, weight, FtsConfig,
    PlayerWagers, Wager, WagerType, FLOPS_PER_DECK, MAX_EXPOSURE,
};

verus! {

broadcast use vstd::seq_lib::group_seq_properties;

/// One line of a payout: who, and how much they win (negative: lose).
pub struct PayoutEntry {
    pub id: String,
    pub amount: i64,
}

/// An outcome a 52-card deck can produce: no flop, or a flop index below 17.
pub open spec fn outcome_valid(f: Option<u8>) -> bool {
    match f {
        None => true,
        Some(i) => i < FLOPS_PER_DECK,
    }
}

/// What a single wager pays its player for the outcome `f`.
pub open spec fn wager_payout(w: Wager, f: Option<u8>) -> int {
    let a = w.amount as int;
    let k = FLOPS_PER_DECK as int;
    match w.wager_type {
        WagerType::FullDeck => match f {
            None => -(a * k),
            Some(i) => a * (k - i),
        },
        WagerType::AtFlop(p) => match f {
            None => -a,
            Some(i) => if i == p {
                a * k
            } else {
                -a
            },
        },
        WagerType::FlopRange(s, e) => match f {
            None => -(a * (e - s + 1)),
            Some(i) => if s <= i && i <= e {
                a * (k - (i - s))
            } else {
                -(a * (e - s + 1))
            },
        },
    }
}

/// What a player's wagers pay in total.
pub open spec fn player_total(ws: Seq<Wager>, f: Option<u8>) -> int
    decreases ws.len(),
{
    if ws.len() == 0 {
        0
    } else {
        player_total(ws.drop_last(), f) + wager_payout(ws.last(), f)
    }
}

/// What all players of the book are paid in total.
pub open spec fn book_total(book: Seq<PlayerWagers>, f: Option<u8>) -> int
    decreases book.len(),
{
    if book.len() == 0 {
        0
    } else {
        book_total(book.drop_last(), f) + player_total(book.last().wagers@, f)
    }
}

/// The players with a nonzero net payout, in book order, with that payout.
pub open spec fn player_entries(book: Seq<PlayerWagers>, f: Option<u8>) -> Seq<(Seq<char>, int)>
    decreases book.len(),
{
    if book.len() == 0 {
        Seq::empty()
    } else {
        let prev = player_entries(book.drop_last(), f);
        let t = player_total(book.last().wagers@, f);
        if t != 0 {
            prev.push((book.last().player@, t))
        } else {
            prev
        }
    }
}

/// The payout map: the players' entries, then the house's, which takes the
/// opposite of the players' total; zero amounts are left out.
pub open spec fn payout_entries(book: Seq<PlayerWagers>, house: Seq<char>, f: Option<u8>) -> Seq<
    (Seq<char>, int),
> {
    let pe = player_entries(book, f);
    let h = -book_total(book, f);
    if h != 0 {
        pe.push((house, h))
    } else {
        pe
    }
}

/// The sum of the amounts of a list of entries.
pub open spec fn entries_sum(s: Seq<(Seq<char>, int)>) -> int
    decreases s.len(),
{
    if s.len() == 0 {
        0
    } else {
        entries_sum(s.drop_last()) + s.last().1
    }
}

pub open spec fn entries_view(v: Seq<PayoutEntry>) -> Seq<(Seq<char>, int)> {
    Seq::new(v.len(), |j: int| (v[j].id@, v[j].amount as int))
}

proof fn lemma_mul_within(a: int, m: int, bound: int)
    requires
        0 <= m <= bound,
    ensures
        abs(a * m) <= abs(a) * bound,
{
    if a >= 0 {
        assert(a * m <= a * bound) by (nonlinear_arith)
            requires
                a >= 0,
                m <= bound,
        ;
        assert(a * m >= 0) by (nonlinear_arith)
            requires
                a >= 0,
                m >= 0,
        ;
    } else {
        assert((-a) * m <= (-a) * bound) by (nonlinear_arith)
            requires
                a < 0,
                m <= bound,
        ;
        assert(a * m <= 0) by (nonlinear_arith)
            requires
                a < 0,
                m >= 0,
        ;
        assert(-(a * m) == (-a) * m) by (nonlinear_arith);
    }
}

proof fn lemma_wager_payout_bounded(w: Wager, f: Option<u8>)
    requires
        range_ok(w.wager_type),
        outcome_valid(f),
    ensures
        abs(wager_payout(w, f)) <= exposure(w),
{
    let a = w.amount as int;
    let k = FLOPS_PER_DECK as int;
    let wt = weight(w.wager_type);
    lemma_mul_within(a, 1, wt);
    lemma_mul_within(a, k, wt);
    match w.wager_type {
        WagerType::FullDeck => {
            if let Some(i) = f {
                lemma_mul_within(a, k - i, wt);
            }
        },
        WagerType::AtFlop(_) => {},
        WagerType::FlopRange(s, e) => {
            lemma_mul_within(a, e - s + 1, wt);
            if let Some(i) = f {
                if s <= i && i <= e {
                    lemma_mul_within(a, k - (i - s), wt);
                }
            }
        },
    }
}

/// `a * m` for a stake and a small multiplier.
fn scale(a: i64, m: i64) -> (r: i64)
    requires
        -2147483648 <= a <= 2147483647,
        0 <= m <= 256,
    ensures
        r == a * m,
        -549755813888 <= r <= 549755813888,
{
    assert(-2147483648 * 256 <= a * m <= 2147483647 * 256) by (nonlinear_arith)
        requires
            -2147483648 <= a <= 2147483647,
            0 <= m <= 256,
    ;
    a * m
}

/// What a single wager pays its player for the outcome `f`.
pub fn payout_of_wager(w: &Wager, f: Option<u8>) -> (r: i64)
    requires
        range_ok(w.wager_type),
        outcome_valid(f),
    ensures
        r == wager_payout(*w, f),
{
    let a = w.amount as i64;
    let k = FLOPS_PER_DECK as i64;
    match w.wager_type {
        WagerType::FullDeck => match f {
            None => -scale(a, k),
            Some(i) => scale(a, k - i as i64),
        },
        WagerType::AtFlop(p) => match f {
            None => -a,
            Some(i) => if i == p {
                scale(a, k)
            } else {
                -a
            },
        },
        WagerType::FlopRange(s, e) => {
            let width = (e - s) as i64 + 1;
            match f {
                None => -scale(a, width),
                Some(i) => if s <= i && i <= e {
                    scale(a, k - (i - s) as i64)
                } else {
                    -scale(a, width)
                },
            }
        },
    }
}

proof fn lemma_player_total_bounded(ws: Seq<Wager>, f: Option<u8>)
    requires
        forall|k: int| 0 <= k < ws.len() ==> range_ok(#[trigger] ws[k].wager_type),
        outcome_valid(f),
    ensures
        abs(player_total(ws, f)) <= wagers_exposure(ws),
    decreases ws.len(),
{
    if ws.len() > 0 {
        lemma_player_total_bounded(ws.drop_last(), f);
        lemma_wager_payout_bounded(ws.last(), f);
    }
}

/// Computes the payout map of a book for an outcome: `None` when every
/// amount is zero.
pub fn compute_payout(config: &FtsConfig, f: Option<u8>) -> (r: Option<Vec<PayoutEntry>>)
    requires
        book_valid(config.wagers@),
        outcome_valid(f),
    ensures
        match r {
            None => payout_entries(config.wagers@, config.house_id@, f).len() == 0,
            Some(v) => {
                &&& entries_view(v@) == payout_entries(config.wagers@, config.house_id@, f)
                &&& v@.len() > 0
            },
        },
{
    let mut map: Vec<PayoutEntry> = Vec::new();
    let mut house: i64 = 0;
    let mut i: usize = 0;
    proof {
        lemma_book_exposure_prefix(config.wagers@, 0);
    }
    while i < config.wagers.len()
        invariant
            book_valid(config.wagers@),
            ranges_ok(config.wagers@),
            book_exposure(config.wagers@) <= MAX_EXPOSURE,
            outcome_valid(f),
            i <= config.wagers@.len(),
            house == -book_total(config.wagers@.take(i as int), f),
            abs(book_total(config.wagers@.take(i as int), f)) <= book_exposure(
                config.wagers@.take(i as int),
            ),
            entries_view(map@) == player_entries(config.wagers@.take(i as int), f),
        decreases config.wagers@.len() - i,
    {
        let ws = &config.wagers[i].wagers;
        let ghost book = config.wagers@;
        proof {
            lemma_book_exposure_prefix(book, i as int);
        }
        let mut player: i64 = 0;
        let mut k: usize = 0;
        while k < ws.len()
            invariant
                i < book.len(),
                book == config.wagers@,
                ranges_ok(book),
                ws@ == book[i as int].wagers@,
                outcome_valid(f),
                k <= ws@.len(),
                book_exposure(book.take(i as int)) + wagers_exposure(ws@) <= MAX_EXPOSURE,
                0 <= book_exposure(book.take(i as int)),
                player == player_total(ws@.take(k as int), f),
                abs(player_total(ws@.take(k as int), f)) <= wagers_exposure(ws@.take(k as int)),
            decreases ws@.len() - k,
        {
            assert(range_ok(book[i as int].wagers@[k as int].wager_type));
            let p = payout_of_wager(&ws[k], f);
            proof {
                let t = ws@.take(k + 1);
                assert(t.drop_last() =~= ws@.take(k as int));
                assert(t.last() == ws@[k as int]);
                assert(forall|l: int| 0 <= l < t.len() ==> range_ok(#[trigger] t[l].wager_type))
                    by {
                    assert forall|l: int| 0 <= l < t.len() implies range_ok(
                        #[trigger] t[l].wager_type,
                    ) by {
                        assert(t[l] == book[i as int].wagers@[l]);
                    }
                }
                lemma_player_total_bounded(t, f);
                lemma_wagers_exposure_prefix(ws@, k + 1);
                assert(player_total(t, f) == player + p);
            }
            player = player + p;
            k += 1;
        }
        proof {
            assert(ws@.take(k as int) =~= ws@);
            let b = book.take(i + 1);
            assert(b.drop_last() =~= book.take(i as int));
            assert(b.last() == book[i as int]);
        }
        house = house - player;
        if player != 0 {
            let entry = PayoutEntry { id: config.wagers[i].player.id_string(), amount: player };
            map.push(entry);
        }
        proof {
            let b = book.take(i + 1);
            assert(b.drop_last() =~= book.take(i as int));
            lemma_book_exposure_prefix(book, i + 1);
            assert(entries_view(map@) =~= player_entries(b, f));
        }
        i += 1;
    }
    proof {
        assert(config.wagers@.take(i as int) =~= config.wagers@);
    }
    if house != 0 {
        map.push(PayoutEntry { id: config.house_id.clone(), amount: house });
        proof {
            assert(entries_view(map@) =~= payout_entries(config.wagers@, config.house_id@, f));
        }
    }
    if map.len() == 0 {
        None
    } else {
        Some(map)
    }
}

proof fn lemma_player_entries_sum(book: Seq<PlayerWagers>, f: Option<u8>)
    ensures
        entries_sum(player_entries(book, f)) == book_total(book, f),
    decreases book.len(),
{
    if book.len() > 0 {
        lemma_player_entries_sum(book.drop_last(), f);
        let prev = player_entries(book.drop_last(), f);
        let t = player_total(book.last().wagers@, f);
        assert(prev.push((book.last().player@, t)).drop_last() =~= prev);
    }
}

/// The payout map is zero-sum: whatever the book and the outcome, its
/// amounts add up to exactly zero.
pub proof fn lemma_payout_zero_sum(book: Seq<PlayerWagers>, house: Seq<char>, f: Option<u8>)
    ensures
        entries_sum(payout_entries(book, house, f)) == 0,
{
    lemma_player_entries_sum(book, f);
    let pe = player_entries(book, f);
    let h = -book_total(book, f);
    assert(pe.push((house, h)).drop_last() =~= pe);
}

/// Betting on the single flop `k` pays the same as betting on the range
/// from `k` to `k`, for every outcome.
pub proof fn lemma_at_flop_is_unit_range(k: u8, amount: i32, f: Option<u8>)
    ensures
        wager_payout(Wager { wager_type: WagerType::AtFlop(k), amount }, f) == wager_payout(
            Wager { wager_type: WagerType::FlopRange(k, k), amount },
            f,
        ),
{
    let a = amount as int;
    assert(a * 1 == a);
    assert(a * (k - k + 1) == a);
    if let Some(i) = f {
        if i == k {
            assert(a * (FLOPS_PER_DECK - (i - k)) == a * FLOPS_PER_DECK);
        }
    }
}

} // verus!
