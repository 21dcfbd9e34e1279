use flopgame::card::{Card, Suit};
use flopgame::config::{FtsConfig, PlayerWagers, Wager, WagerType};
use flopgame::deck::Deck;
use flopgame::error::{ConfigError, GameError, StateError};
use flopgame::fts::{find_flop, Fts};
use flopgame::payout::{compute_payout, payout_of_wager, PayoutEntry};
use flopgame::player::Player;
use flopgame::state::{GameState, GameType, Transition};

fn book(entries: Vec<(&str, Vec<Wager>)>) -> Vec<PlayerWagers> {
    entries
        .into_iter()
        .map(|(id, wagers)| PlayerWagers { player: Player::new(id.to_string()), wagers })
        .collect()
}

fn config(entries: Vec<(&str, Vec<Wager>)>) -> FtsConfig {
    FtsConfig::new(book(entries), "house".to_string())
}

fn wager(wager_type: WagerType, amount: i32) -> Wager {
    Wager { wager_type, amount }
}

fn amount_of(entries: &[PayoutEntry], id: &str) -> Option<i64> {
    entries.iter().find(|e| e.id == id).map(|e| e.amount)
}

fn fresh_order() -> Vec<Card> {
    let mut deck = Deck::new();
    deck.deal(52).unwrap()
}

/// Draws that make the deck's shuffle produce exactly `target`.
fn draws_for(target: &[Card]) -> Vec<u64> {
    let mut cur = fresh_order();
    let mut draws = Vec::new();
    for i in 0..cur.len() {
        let j = (i..cur.len()).find(|&j| cur[j] == target[i]).unwrap();
        draws.push((j - i) as u64);
        cur.swap(i, j);
    }
    draws
}

/// The fresh order, rearranged so that group 5 is the first same-suit group.
fn order_with_flop_at_five() -> Vec<Card> {
    let mut order = fresh_order();
    order.swap(15, 20);
    order.swap(17, 24);
    order
}

#[test]
fn flow() -> Result<(), GameError> {
    let player = Player::new("player1".to_string());
    let wager_map = vec![PlayerWagers {
        player,
        wagers: vec![Wager { wager_type: WagerType::FullDeck, amount: 100 }],
    }];

    let config = FtsConfig::new(wager_map, "house".to_string());

    let mut game = Fts::init(config)?;

    game.start(&vec![7u64; 52])?;

    let payout = game.get_payout().unwrap();

    println!("Payout: {:?}", payout.iter().map(|e| (e.id.clone(), e.amount)).collect::<Vec<_>>());
    Ok(())
}

#[test]
fn full_deck_flop_at_five_pays_twelve_hundred() {
    let order = order_with_flop_at_five();
    assert_eq!(find_flop(&order, 17), Some(5));
    let mut game = Fts::init(config(vec![("p1", vec![wager(WagerType::FullDeck, 100)])])).unwrap();
    game.start(&draws_for(&order)).unwrap();
    let payout = game.get_payout().unwrap();
    assert_eq!(payout.len(), 2);
    assert_eq!(amount_of(&payout, "p1"), Some(1200));
    assert_eq!(amount_of(&payout, "house"), Some(-1200));
}

#[test]
fn full_deck_without_flop_loses_seventeen_stakes() {
    let mut game = Fts::init(config(vec![("p1", vec![wager(WagerType::FullDeck, 100)])])).unwrap();
    game.start(&vec![0u64; 52]).unwrap();
    let payout = game.get_payout().unwrap();
    assert_eq!(amount_of(&payout, "p1"), Some(-1700));
    assert_eq!(amount_of(&payout, "house"), Some(1700));
}

#[test]
fn at_flop_three_pays_on_exact_hit_only() {
    let cfg = config(vec![("p1", vec![wager(WagerType::AtFlop(3), 50)])]);
    let hit = compute_payout(&cfg, Some(3)).unwrap();
    assert_eq!(amount_of(&hit, "p1"), Some(850));
    assert_eq!(amount_of(&hit, "house"), Some(-850));
    for other in [Some(0u8), Some(2), Some(4), Some(16), None] {
        let miss = compute_payout(&cfg, other).unwrap();
        assert_eq!(amount_of(&miss, "p1"), Some(-50));
        assert_eq!(amount_of(&miss, "house"), Some(50));
    }
}

#[test]
fn payout_table_values() {
    let full = wager(WagerType::FullDeck, 10);
    assert_eq!(payout_of_wager(&full, None), -170);
    assert_eq!(payout_of_wager(&full, Some(0)), 170);
    assert_eq!(payout_of_wager(&full, Some(16)), 10);
    let range = wager(WagerType::FlopRange(2, 5), 10);
    assert_eq!(payout_of_wager(&range, None), -40);
    assert_eq!(payout_of_wager(&range, Some(2)), 170);
    assert_eq!(payout_of_wager(&range, Some(5)), 140);
    assert_eq!(payout_of_wager(&range, Some(6)), -40);
    assert_eq!(payout_of_wager(&range, Some(1)), -40);
}

#[test]
fn at_flop_matches_unit_range() {
    for k in [0u8, 3, 16] {
        let at = wager(WagerType::AtFlop(k), 25);
        let range = wager(WagerType::FlopRange(k, k), 25);
        let mut outcomes = vec![None];
        outcomes.extend((0u8..17).map(Some));
        for f in outcomes {
            assert_eq!(payout_of_wager(&at, f), payout_of_wager(&range, f));
        }
    }
}

#[test]
fn payouts_sum_to_zero() {
    let cfg = config(vec![
        ("a", vec![wager(WagerType::FullDeck, 3), wager(WagerType::AtFlop(4), 7)]),
        ("b", vec![wager(WagerType::FlopRange(1, 9), 11)]),
        ("c", vec![]),
    ]);
    let mut outcomes = vec![None];
    outcomes.extend((0u8..17).map(Some));
    for f in outcomes {
        let entries = compute_payout(&cfg, f).unwrap();
        assert_eq!(entries.iter().map(|e| e.amount).sum::<i64>(), 0);
        assert!(entries.iter().all(|e| e.amount != 0));
    }
}

#[test]
fn zero_net_players_and_empty_maps_are_left_out() {
    // A flop at 0 pays AtFlop(0) +17 and a full-deck wager with stake -1 pays -17.
    let cfg = config(vec![(
        "p1",
        vec![wager(WagerType::AtFlop(0), 1), wager(WagerType::FullDeck, -1)],
    )]);
    assert!(compute_payout(&cfg, Some(0)).is_none());
    let empty = config(vec![]);
    assert!(compute_payout(&empty, None).is_none());
}

#[test]
fn payout_is_none_before_the_game_ends() {
    let game = Fts::init(config(vec![("p1", vec![wager(WagerType::FullDeck, 1)])])).unwrap();
    assert!(game.get_payout().is_none());
}

#[test]
fn ready_fails_without_flops() {
    let game = Fts::init(config(vec![("p1", vec![wager(WagerType::AtFlop(0), 5)])])).unwrap();
    assert_eq!(game.ready(), Err(GameError::Config(ConfigError::NoFlops)));
    let empty = Fts::init(config(vec![])).unwrap();
    assert_eq!(empty.ready(), Err(GameError::Config(ConfigError::NoFlops)));
    let ok = Fts::init(config(vec![("p1", vec![wager(WagerType::AtFlop(1), 5)])])).unwrap();
    assert_eq!(ok.ready(), Ok(()));
}

#[test]
fn invalid_range_is_a_config_error() {
    let mut game =
        Fts::init(config(vec![("p1", vec![wager(WagerType::FlopRange(5, 2), 5)])])).unwrap();
    assert_eq!(game.ready(), Err(GameError::Config(ConfigError::InvalidRange)));
    assert_eq!(game.start(&vec![0u64; 52]), Err(GameError::Config(ConfigError::InvalidRange)));
    assert_eq!(*game.get_state(), GameState::Setup);
}

#[test]
fn exposure_beyond_limit_is_a_config_error() {
    let w = wager(WagerType::FlopRange(0, 255), i32::MAX);
    let cfg = config(vec![("p1", vec![w; 17_000_000])]);
    assert_eq!(cfg.validate(), Err(ConfigError::ExposureTooLarge));
}

#[test]
fn start_twice_is_refused_and_keeps_the_outcome() {
    let order = order_with_flop_at_five();
    let mut game = Fts::init(config(vec![("p1", vec![wager(WagerType::FullDeck, 100)])])).unwrap();
    assert_eq!(game.valid_transitions(), vec![Transition::Start]);
    game.start(&draws_for(&order)).unwrap();
    assert_eq!(*game.get_state(), GameState::Ended);
    assert!(game.valid_transitions().is_empty());
    let again = game.start(&vec![0u64; 52]);
    assert_eq!(again, Err(GameError::State(StateError::AlreadyStarted)));
    assert_eq!(*game.get_state(), GameState::Ended);
    let payout = game.get_payout().unwrap();
    assert_eq!(amount_of(&payout, "p1"), Some(1200));
}

#[test]
fn flop_count_is_the_highest_referenced_index_capped() {
    let mut game = Fts::init(config(vec![
        ("a", vec![wager(WagerType::AtFlop(4), 1)]),
        ("b", vec![wager(WagerType::FlopRange(1, 9), 1)]),
    ]))
    .unwrap();
    assert_eq!(game.apply_config(), Ok(()));
    assert_eq!(game.my_type(), GameType::Fts);
    // Nine flops are dealt: group 5 is found in the reordered deck.
    game.start(&draws_for(&order_with_flop_at_five())).unwrap();
    let payout = game.get_payout().unwrap();
    // AtFlop(4) loses 1, FlopRange(1, 9) at 5 wins 17 - 4 = 13.
    assert_eq!(amount_of(&payout, "a"), Some(-1));
    assert_eq!(amount_of(&payout, "b"), Some(13));
    assert_eq!(amount_of(&payout, "house"), Some(-12));

    // A flop beyond the dealt groups is not seen: only five groups are dealt.
    let mut short = Fts::init(config(vec![("a", vec![wager(WagerType::AtFlop(5), 1)])])).unwrap();
    short.start(&draws_for(&order_with_flop_at_five())).unwrap();
    assert_eq!(amount_of(&short.get_payout().unwrap(), "a"), Some(-1));

    // Indices past the deck are capped at seventeen flops.
    let mut far = Fts::init(config(vec![("a", vec![wager(WagerType::AtFlop(200), 1)])])).unwrap();
    assert_eq!(far.start(&vec![0u64; 52]), Ok(()));
    assert_eq!(amount_of(&far.get_payout().unwrap(), "a"), Some(-1));
}

#[test]
fn find_flop_reports_the_first_group() {
    let order = fresh_order();
    assert_eq!(find_flop(&order, 17), None);
    let mut cards = order.clone();
    cards.swap(1, 4);
    cards.swap(2, 8);
    cards.swap(16, 20);
    assert_eq!(find_flop(&cards, 17), Some(0));
    assert_eq!(find_flop(&cards, 0), None);
    let all_spades: Vec<Card> = (0..6).map(|r| Card::new(Suit::Spades, r)).collect();
    assert_eq!(find_flop(&all_spades, 2), Some(0));
}

#[test]
fn error_reasons_are_stable() {
    assert_eq!(GameError::Config(ConfigError::NoFlops).reason(), "game set to perform 0 flops");
    assert_eq!(GameError::State(StateError::AlreadyStarted).reason(), "game already started");
}

#[test]
fn repeated_player_is_a_config_error() {
    let cfg = config(vec![
        ("p1", vec![wager(WagerType::FullDeck, 1)]),
        ("p2", vec![wager(WagerType::AtFlop(2), 1)]),
        ("p1", vec![wager(WagerType::AtFlop(3), 1)]),
    ]);
    assert_eq!(cfg.validate(), Err(ConfigError::DuplicatePlayer));
    let mut game = Fts::init(cfg).unwrap();
    assert_eq!(game.start(&vec![0u64; 52]), Err(GameError::Config(ConfigError::DuplicatePlayer)));
    assert_eq!(
        GameError::Config(ConfigError::DuplicatePlayer).reason(),
        "a player appears twice in the wager book"
    );
    // A bad range is reported before a repeated player.
    let both = config(vec![
        ("p1", vec![wager(WagerType::FlopRange(4, 1), 1)]),
        ("p1", vec![wager(WagerType::AtFlop(3), 1)]),
    ]);
    assert_eq!(both.validate(), Err(ConfigError::InvalidRange));
}
