use card_battle::cards::{generate_intial_deck, CardDB, EnemiesDB};
use card_battle::components::{Active, Button, Card, Enemy, HealthBar, Position};
use card_battle::systems::{collision_rect_point, BattleState};
use card_battle::components::Rectangle;
use card_battle::{GameScenes, GameState};

fn card(value: i8, name: &str) -> Card {
    Card { value, name: name.to_string(), effect_description: "damage".to_string() }
}

#[test]
fn catalog_assigns_keys_by_load_order() {
    let db = CardDB::from_list(vec![card(1, "jab"), card(3, "strike")]);
    assert_eq!(db.len(), 2);
    assert_eq!(db.get(0).unwrap().name, "jab".to_string());
    assert_eq!(db.get(1).unwrap().value, 3);
    assert!(db.get(2).is_none());
}

#[test]
fn enemy_catalog_assigns_keys_by_load_order() {
    let db = EnemiesDB::from_list(vec![Enemy {
        name: "goblin".to_string(),
        health: 5,
        attack: 2,
        open: false,
    }]);
    assert_eq!(db.len(), 1);
    assert_eq!(db.get(0).unwrap().health, 5);
    assert!(db.get(1).is_none());
}

#[test]
fn initial_deck_draws_ten_valid_keys() {
    let db = CardDB::from_list(vec![card(1, "jab")]);
    let deck = generate_intial_deck(&db);
    assert_eq!(deck.len(), 10);
    // With a single-card catalog every drawn key must be that card's.
    for id in deck {
        assert_eq!(id, 0);
    }
}

#[test]
fn initial_deck_keys_stay_in_range() {
    let db = CardDB::from_list(vec![card(1, "a"), card(2, "b"), card(3, "c")]);
    let deck = generate_intial_deck(&db);
    assert_eq!(deck.len(), 10);
    for id in deck {
        assert!(id < 3);
    }
}

#[test]
fn battle_state_new_starts_clean() {
    let db = CardDB::from_list(vec![card(1, "jab"), card(3, "strike")]);
    let battle = BattleState::new(&db);
    assert!(battle.card_queue.is_empty());
    assert!(battle.targets.is_empty());
    assert!(!battle.end_of_turn);
    assert_eq!(battle.deck.len(), 10);
    assert!(battle.hand.is_empty());
    assert!(battle.discard.is_empty());
    for id in battle.deck {
        assert!(id < 2);
    }
}

#[test]
fn menu_click_enters_battle() {
    let mut state = GameState { current_scene: GameScenes::MainMenu };
    state.handle_menu_click(false);
    assert_eq!(state.current_scene, GameScenes::MainMenu);
    state.handle_menu_click(true);
    assert_eq!(state.current_scene, GameScenes::Battle);
}

#[test]
fn collision_includes_borders() {
    let rect = Rectangle { width: 60, height: 80 };
    let anchor = Position::new(100, 100);
    assert!(collision_rect_point(rect, anchor, Position::new(100, 100)));
    assert!(collision_rect_point(rect, anchor, Position::new(160, 180)));
    assert!(collision_rect_point(rect, anchor, Position::new(130, 140)));
    assert!(!collision_rect_point(rect, anchor, Position::new(99, 140)));
    assert!(!collision_rect_point(rect, anchor, Position::new(130, 181)));
}

#[test]
fn position_vector_arithmetic() {
    let a = Position::new(3, -4);
    let b = Position::new(10, 20);
    assert_eq!(a.plus(b), Position::new(13, 16));
    assert_eq!(b.minus(a), Position::new(7, 24));
    assert_eq!(a.scaled(3), Position::new(9, -12));
    assert_eq!(a.negated(), Position::new(-3, 4));
}

#[test]
fn position_arithmetic_saturates() {
    let edge = Position::new(i64::MAX, i64::MIN);
    assert_eq!(edge.plus(Position::new(1, -1)), Position::new(i64::MAX, i64::MIN));
    assert_eq!(edge.scaled(2), Position::new(i64::MAX, i64::MIN));
    assert_eq!(edge.negated(), Position::new(-i64::MAX, i64::MAX));
}

#[test]
fn health_bar_new_mirrors_health() {
    let bar = HealthBar::new(13);
    assert_eq!(bar.max, 13);
    assert_eq!(bar.current, 13);
}

#[test]
fn button_new_defaults() {
    let b = Button::new("End Turn".to_string(), "end_turn".to_string());
    assert_eq!(b.text, "End Turn".to_string());
    assert_eq!(b.action, "end_turn".to_string());
    assert_eq!(b.color, [200, 55, 50]);
    assert!(!b.hover);
}

#[test]
fn active_default_is_enabled() {
    assert!(Active::default().0);
}
