use card_battle::components::{Active, Button, Card, Enemy, HealthBar, Position, Rectangle, Sprite};
use card_battle::store::EntityStore;
use card_battle::systems::{
    ButtonHandler, CardSelector, DamageQueue, EnemyAttacker, PointerInput,
};
use card_battle::systems::BattleState;

fn card(value: i8, name: &str) -> Card {
    Card { value, name: name.to_string(), effect_description: "damage".to_string() }
}

fn enemy(health: i8, attack: i8) -> Enemy {
    Enemy { name: "goblin".to_string(), health, attack, open: false }
}

fn empty_battle() -> BattleState {
    BattleState {
        card_queue: Vec::new(),
        targets: Vec::new(),
        end_of_turn: false,
        deck: Vec::new(),
        hand: Vec::new(),
        discard: Vec::new(),
    }
}

/// Store with a mouse handler, a player pool, one card and one face-down
/// enemy; returns (store, mouse, player, card, enemy).
fn setup() -> (EntityStore, usize, usize, usize, usize) {
    let mut store = EntityStore::new();

    let mouse = store.create();
    store.attach_mouse_handler(mouse);
    store.attach_position(mouse, Position::new(0, 0));
    store.attach_rect(mouse, Rectangle { width: 25, height: 25 });
    store.attach_active(mouse, Active(false));
    store.attach_sprite(mouse, Sprite { texture_path: "mouse-grab".to_string(), scale: 1 });

    let player = store.create();
    store.attach_player(player);
    store.attach_health_bar(player, HealthBar::new(20));
    store.attach_position(player, Position::new(50, 500));
    store.attach_rect(player, Rectangle { width: 200, height: 50 });

    let card_ent = store.create();
    store.attach_card(card_ent, card(3, "strike"));
    store.attach_position(card_ent, Position::new(100, 100));
    store.attach_rect(card_ent, Rectangle { width: 60, height: 80 });
    store.attach_active(card_ent, Active::default());
    store.attach_sprite(card_ent, Sprite { texture_path: "card-back".to_string(), scale: 1 });

    let enemy_ent = store.create();
    store.attach_enemy(enemy_ent, enemy(5, 2));
    store.attach_position(enemy_ent, Position::new(300, 100));
    store.attach_rect(enemy_ent, Rectangle { width: 60, height: 80 });
    store.attach_active(enemy_ent, Active::default());
    store.attach_sprite(enemy_ent, Sprite { texture_path: "id_0_enemy".to_string(), scale: 1 });

    (store, mouse, player, card_ent, enemy_ent)
}

fn pointer(x: i64, y: i64, pressed: bool, down: bool) -> PointerInput {
    PointerInput { pos: Position::new(x, y), pressed, down }
}

/// Drags the given card entity onto the point (tx, ty) over four passes.
fn drag_card_to(
    sel: &mut CardSelector,
    store: &mut EntityStore,
    battle: &mut BattleState,
    cx: i64,
    cy: i64,
    tx: i64,
    ty: i64,
) {
    sel.run(store, battle, pointer(cx, cy, false, false));
    sel.run(store, battle, pointer(cx, cy, true, true));
    sel.run(store, battle, pointer(tx, ty, false, true));
    sel.run(store, battle, pointer(tx, ty, false, false));
}

#[test]
fn drop_card_reveals_enemy_and_queues_damage() {
    let (mut store, _, _, card_ent, enemy_ent) = setup();
    let mut battle = empty_battle();
    let mut sel = CardSelector { selected: None, dragging: None };

    drag_card_to(&mut sel, &mut store, &mut battle, 110, 110, 310, 110);

    let e = store.slot(enemy_ent).enemy.as_ref().unwrap();
    assert!(e.open);
    let bar = store.slot(enemy_ent).health_bar.unwrap();
    assert_eq!(bar.max, 5);
    assert_eq!(bar.current, 5);
    let sprite = store.slot(enemy_ent).sprite.as_ref().unwrap();
    assert_eq!(sprite.texture_path, "h:5_a:2".to_string());
    assert_eq!(battle.card_queue.len(), 1);
    assert_eq!(battle.targets, vec![enemy_ent]);
    assert!(store.slot(card_ent).pending_destroy);
    assert!(sel.dragging.is_none());

    let mut dq = DamageQueue;
    dq.run(&mut store, &mut battle);
    let e = store.slot(enemy_ent).enemy.as_ref().unwrap();
    assert_eq!(e.health, 2);
    let bar = store.slot(enemy_ent).health_bar.unwrap();
    assert_eq!(bar.current, 2);
    assert_eq!(bar.max, 5);
    assert_eq!(battle.card_queue.len(), 0);
    assert_eq!(battle.targets.len(), 0);
}

#[test]
fn drop_over_empty_space_restores_card() {
    let (mut store, _, _, card_ent, _) = setup();
    let mut battle = empty_battle();
    let mut sel = CardSelector { selected: None, dragging: None };

    // Drag the card and release it over empty space.
    drag_card_to(&mut sel, &mut store, &mut battle, 110, 110, 700, 700);

    let active = store.slot(card_ent).active.unwrap();
    assert!(active.0);
    assert!(!store.slot(card_ent).pending_destroy);
    assert_eq!(battle.card_queue.len(), 0);
    assert_eq!(battle.targets.len(), 0);
    assert!(sel.dragging.is_none());
}

#[test]
fn second_drop_keeps_health_bar() {
    let (mut store, _, _, _, enemy_ent) = setup();
    let mut battle = empty_battle();
    let mut sel = CardSelector { selected: None, dragging: None };
    let mut dq = DamageQueue;

    drag_card_to(&mut sel, &mut store, &mut battle, 110, 110, 310, 110);
    dq.run(&mut store, &mut battle);
    store.maintain();

    // A second card dropped on the now-revealed enemy must reuse the bar
    // attached at the first reveal: max stays at the reveal-time health.
    let card2 = store.create();
    store.attach_card(card2, card(1, "jab"));
    store.attach_position(card2, Position::new(100, 100));
    store.attach_rect(card2, Rectangle { width: 60, height: 80 });
    store.attach_active(card2, Active::default());
    store.attach_sprite(card2, Sprite { texture_path: "card-back".to_string(), scale: 1 });

    drag_card_to(&mut sel, &mut store, &mut battle, 110, 110, 310, 110);
    let bar = store.slot(enemy_ent).health_bar.unwrap();
    assert_eq!(bar.max, 5);
    assert_eq!(bar.current, 2);

    dq.run(&mut store, &mut battle);
    let bar = store.slot(enemy_ent).health_bar.unwrap();
    assert_eq!(bar.max, 5);
    assert_eq!(bar.current, 1);
}

#[test]
fn overkill_damage_floors_at_zero_and_defers_destruction() {
    let (mut store, _, _, _, enemy_ent) = setup();
    let mut battle = empty_battle();
    let mut sel = CardSelector { selected: None, dragging: None };
    let mut dq = DamageQueue;

    // Replace the card with an overkill one.
    let big = store.create();
    store.attach_card(big, card(9, "smash"));
    store.attach_position(big, Position::new(100, 300));
    store.attach_rect(big, Rectangle { width: 60, height: 80 });
    store.attach_active(big, Active::default());
    store.attach_sprite(big, Sprite { texture_path: "card-back".to_string(), scale: 1 });

    drag_card_to(&mut sel, &mut store, &mut battle, 110, 310, 310, 110);
    dq.run(&mut store, &mut battle);

    let e = store.slot(enemy_ent).enemy.as_ref().unwrap();
    assert_eq!(e.health, 0);
    let bar = store.slot(enemy_ent).health_bar.unwrap();
    assert_eq!(bar.current, 0);
    assert!(store.slot(enemy_ent).pending_destroy);

    store.maintain();
    assert!(!store.slot(enemy_ent).alive);
    assert!(store.slot(enemy_ent).enemy.is_none());
}

#[test]
fn queued_damage_sums_per_target() {
    let (mut store, _, _, _, enemy_ent) = setup();
    let mut battle = empty_battle();

    // Reveal the enemy by hand and give it a bar, then queue two strikes
    // against it in one pass.
    let mut e = store.slot(enemy_ent).enemy.as_ref().unwrap().clone();
    e.open = true;
    store.attach_enemy(enemy_ent, e);
    store.attach_health_bar(enemy_ent, HealthBar::new(5));
    battle.card_queue.push(card(2, "jab"));
    battle.targets.push(enemy_ent);
    battle.card_queue.push(card(1, "poke"));
    battle.targets.push(enemy_ent);

    let mut dq = DamageQueue;
    dq.run(&mut store, &mut battle);

    let bar = store.slot(enemy_ent).health_bar.unwrap();
    assert_eq!(bar.current, 2);
    assert_eq!(store.slot(enemy_ent).enemy.as_ref().unwrap().health, 2);
    assert!(battle.card_queue.is_empty());
    assert!(battle.targets.is_empty());
    assert!(!store.slot(enemy_ent).pending_destroy);
}

#[test]
fn retaliation_applies_once_per_flag_set() {
    let (mut store, _, player, _, enemy_ent) = setup();
    let mut battle = empty_battle();

    // Reveal the enemy by hand so it retaliates.
    let mut e = store.slot(enemy_ent).enemy.as_ref().unwrap().clone();
    e.open = true;
    store.attach_enemy(enemy_ent, e);
    store.attach_health_bar(enemy_ent, HealthBar::new(5));

    battle.end_of_turn = true;
    let mut attacker = EnemyAttacker;
    attacker.run(&mut store, &mut battle);
    assert!(!battle.end_of_turn);
    assert_eq!(store.slot(player).health_bar.unwrap().current, 18);

    // However many further passes run, nothing more happens until the flag
    // is set again.
    attacker.run(&mut store, &mut battle);
    attacker.run(&mut store, &mut battle);
    assert_eq!(store.slot(player).health_bar.unwrap().current, 18);

    battle.end_of_turn = true;
    attacker.run(&mut store, &mut battle);
    assert_eq!(store.slot(player).health_bar.unwrap().current, 16);
}

#[test]
fn retaliation_is_additive_across_enemies() {
    let (mut store, _, player, _, enemy_ent) = setup();
    let mut battle = empty_battle();

    let mut e = store.slot(enemy_ent).enemy.as_ref().unwrap().clone();
    e.open = true;
    store.attach_enemy(enemy_ent, e);
    store.attach_health_bar(enemy_ent, HealthBar::new(5));

    let second = store.create();
    store.attach_enemy(second, Enemy {
        name: "orc".to_string(),
        health: 4,
        attack: 3,
        open: true,
    });
    store.attach_health_bar(second, HealthBar::new(4));
    store.attach_position(second, Position::new(400, 100));
    store.attach_rect(second, Rectangle { width: 60, height: 80 });
    store.attach_sprite(second, Sprite { texture_path: "id_1_enemy".to_string(), scale: 1 });

    battle.end_of_turn = true;
    let mut attacker = EnemyAttacker;
    attacker.run(&mut store, &mut battle);
    assert_eq!(store.slot(player).health_bar.unwrap().current, 15);
}

#[test]
fn retaliation_floors_player_health_at_zero() {
    let (mut store, _, player, _, enemy_ent) = setup();
    let mut battle = empty_battle();

    store.attach_health_bar(player, HealthBar { max: 20, current: 1 });
    let mut e = store.slot(enemy_ent).enemy.as_ref().unwrap().clone();
    e.open = true;
    store.attach_enemy(enemy_ent, e);
    store.attach_health_bar(enemy_ent, HealthBar::new(5));

    battle.end_of_turn = true;
    let mut attacker = EnemyAttacker;
    attacker.run(&mut store, &mut battle);
    let bar = store.slot(player).health_bar.unwrap();
    assert_eq!(bar.current, 0);
    assert_eq!(bar.max, 20);
}

#[test]
fn face_down_enemy_does_not_retaliate() {
    let (mut store, _, player, _, _) = setup();
    let mut battle = empty_battle();

    battle.end_of_turn = true;
    let mut attacker = EnemyAttacker;
    attacker.run(&mut store, &mut battle);
    assert_eq!(store.slot(player).health_bar.unwrap().current, 20);
    assert!(!battle.end_of_turn);
}

#[test]
fn end_turn_button_sets_flag() {
    let mut store = EntityStore::new();
    let btn = store.create();
    store.attach_button(btn, Button::new("End Turn".to_string(), "end_turn".to_string()));
    store.attach_position(btn, Position::new(500, 500));
    store.attach_rect(btn, Rectangle { width: 150, height: 50 });

    let mut battle = empty_battle();
    let mut handler = ButtonHandler;

    handler.run(&mut store, &mut battle, pointer(510, 510, true, true));
    assert!(battle.end_of_turn);
    assert!(store.slot(btn).button.as_ref().unwrap().hover);
}

#[test]
fn button_hover_without_press_keeps_flag() {
    let mut store = EntityStore::new();
    let btn = store.create();
    store.attach_button(btn, Button::new("End Turn".to_string(), "end_turn".to_string()));
    store.attach_position(btn, Position::new(500, 500));
    store.attach_rect(btn, Rectangle { width: 150, height: 50 });

    let mut battle = empty_battle();
    let mut handler = ButtonHandler;

    handler.run(&mut store, &mut battle, pointer(510, 510, false, false));
    assert!(!battle.end_of_turn);
    assert!(store.slot(btn).button.as_ref().unwrap().hover);

    handler.run(&mut store, &mut battle, pointer(5, 5, true, true));
    assert!(!battle.end_of_turn);
    assert!(!store.slot(btn).button.as_ref().unwrap().hover);
}

#[test]
fn other_button_actions_do_not_end_turn() {
    let mut store = EntityStore::new();
    let btn = store.create();
    store.attach_button(btn, Button::new("Help".to_string(), "how_to".to_string()));
    store.attach_position(btn, Position::new(500, 500));
    store.attach_rect(btn, Rectangle { width: 150, height: 50 });

    let mut battle = empty_battle();
    let mut handler = ButtonHandler;
    handler.run(&mut store, &mut battle, pointer(510, 510, true, true));
    assert!(!battle.end_of_turn);
}

#[test]
fn hover_lifts_and_restores_selection() {
    let (mut store, _, _, card_ent, _) = setup();
    let mut battle = empty_battle();
    let mut sel = CardSelector { selected: None, dragging: None };

    sel.run(&mut store, &mut battle, pointer(110, 110, false, false));
    assert_eq!(sel.selected, Some(card_ent));
    assert_eq!(store.slot(card_ent).position.unwrap().y, 50);

    sel.run(&mut store, &mut battle, pointer(700, 700, false, false));
    assert_eq!(sel.selected, None);
    assert_eq!(store.slot(card_ent).position.unwrap().y, 100);
}

#[test]
fn last_overlapping_card_wins_hover() {
    // Two overlapping cards: the tie-break is deterministic, the
    // highest-index (last-scanned) card wins.
    let (mut store, _, _, _, _) = setup();
    let mut battle = empty_battle();
    let mut sel = CardSelector { selected: None, dragging: None };

    let overlapping = store.create();
    store.attach_card(overlapping, card(2, "slice"));
    store.attach_position(overlapping, Position::new(120, 90));
    store.attach_rect(overlapping, Rectangle { width: 60, height: 80 });
    store.attach_active(overlapping, Active::default());
    store.attach_sprite(overlapping, Sprite {
        texture_path: "card-back".to_string(),
        scale: 1,
    });

    sel.run(&mut store, &mut battle, pointer(130, 110, false, false));
    assert_eq!(sel.selected, Some(overlapping));
}

#[test]
fn drag_moves_cursor_ghost_centred() {
    let (mut store, mouse, _, card_ent, _) = setup();
    let mut battle = empty_battle();
    let mut sel = CardSelector { selected: None, dragging: None };

    sel.run(&mut store, &mut battle, pointer(110, 110, false, false));
    sel.run(&mut store, &mut battle, pointer(110, 110, true, true));
    assert_eq!(sel.dragging, Some(card_ent));
    assert!(!store.slot(card_ent).active.unwrap().0);
    assert!(store.slot(mouse).active.unwrap().0);

    sel.run(&mut store, &mut battle, pointer(200, 200, false, true));
    let mp = store.slot(mouse).position.unwrap();
    // Cursor ghost is centred on its 25x25 rectangle.
    assert_eq!(mp.x, 188);
    assert_eq!(mp.y, 188);
}
