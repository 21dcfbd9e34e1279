use flopgame::config::{CtaConfig, CtaPlayerWagers, CtaWager, CtaWagerType, FtsConfig};
use flopgame::fts::Fts;
use flopgame::game::Game;
use flopgame::cta::Cta;
use flopgame::player::{Player, PlayerVisitor};
use flopgame::state::{GameState, GameType};

fn cta_config(types: Vec<CtaWagerType>) -> CtaConfig {
    let wagers = types.into_iter().map(|wager_type| CtaWager { wager_type, amount: 10 }).collect();
    CtaConfig::new(
        vec![
            CtaPlayerWagers { player: Player::new("p0".to_string()), wagers: vec![] },
            CtaPlayerWagers { player: Player::new("p1".to_string()), wagers },
        ],
        "house".to_string(),
    )
}

#[test]
fn reverse_wager_enforces_optimal_cut() {
    let game = Cta::new(cta_config(vec![CtaWagerType::Forward, CtaWagerType::Reverse])).unwrap();
    assert!(game.enforces_optimal_cut());
    assert_eq!(*game.get_state(), GameState::Setup);
    assert_eq!(game.get_type(), GameType::Cta);
}

#[test]
fn forward_wagers_need_no_cut() {
    let game = Cta::new(cta_config(vec![CtaWagerType::Forward, CtaWagerType::Forward])).unwrap();
    assert!(!game.enforces_optimal_cut());
    let empty = Cta::new(cta_config(vec![])).unwrap();
    assert!(!empty.enforces_optimal_cut());
}

#[test]
fn players_compare_by_id() {
    let a = Player::new("alice".to_string());
    assert_eq!(a.get_id(), "alice");
    assert_eq!(a.id_string(), "alice".to_string());
    assert!(a == Player::new("alice".to_string()));
    assert!(a != Player::new("bob".to_string()));
    let visitor = PlayerVisitor::new();
    assert!(visitor.visit_str("alice") == a);
    assert_eq!(visitor.visit_string("carol".to_string()).get_id(), "carol");
}

#[test]
fn variants_report_their_kind() {
    let fts = Fts::init(FtsConfig::new(vec![], "house".to_string())).unwrap();
    assert_eq!(Game::Fts(fts).variant_kind(), GameType::Fts);
    let cta = Cta::new(cta_config(vec![])).unwrap();
    assert_eq!(Game::Cta(cta).variant_kind(), GameType::Cta);
}
