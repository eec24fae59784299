//! The per-pass battle components.
//!
//! Components run strictly in sequence within a pass: selection and drag
//! first, then damage resolution (which consumes the selection's queue
//! writes), then retaliation, button handling and the hand refill; the
//! maintenance barrier of the store runs last.

use vstd::prelude::*;
use vstd::string::StringExecFns;

use crate::cards::{generate_intial_deck, CardDB};
use crate::components::{
    sat_add64, sat_i64, sat_sub64, Active, Button, Card, Enemy, HealthBar, Position, Rectangle,
    Sprite,
};
use crate::store::{EntityStore, Slot};
use crate::CardID;

verus! {

/// `v` clamped below at zero.
pub open spec fn clamp0(v: int) -> int {
    if v < 0 {
        0
    } else {
        v
    }
}

/// Whether `point` lies in the rectangle anchored at `position` (borders
/// included).
pub open spec fn contains_point(rect: Rectangle, position: Position, point: Position) -> bool {
    &&& position.x <= point.x <= position.x + rect.width
    &&& position.y <= point.y <= position.y + rect.height
}

/// Point-in-rectangle test for hover, drop and click detection.
pub fn collision_rect_point(rectangle: Rectangle, position: Position, point: Position) -> (hit:
    bool)
    ensures
        hit == contains_point(rectangle, position, point),
{
    let right: i128 = position.x as i128 + rectangle.width as i128;
    let bottom: i128 = position.y as i128 + rectangle.height as i128;
    position.x <= point.x && point.x as i128 <= right && position.y <= point.y && point.y as i128
        <= bottom
}

/// Pointer input sampled once per pass: pointer position, the press edge of
/// the primary button and its held-down level.  The button counts as up
/// exactly when `down` is false.
#[derive(Debug, PartialEq, Eq, Structural, Clone, Copy)]
pub struct PointerInput {
    pub pos: Position,
    pub pressed: bool,
    pub down: bool,
}

/// The battle context threaded through each pass: the pending damage queue
/// (`card_queue[i]` strikes `targets[i]`), the end-of-turn flag and the
/// three card zones.
pub struct BattleState {
    pub card_queue: Vec<Card>,
    pub targets: Vec<usize>,
    pub end_of_turn: bool,
    pub deck: Vec<CardID>,
    pub hand: Vec<CardID>,
    pub discard: Vec<CardID>,
}

impl BattleState {
    /// A fresh battle: empty queue and zones, flag clear, and a starting
    /// deck of ten random cards from the catalog.
    pub fn new(cards: &CardDB) -> (state: BattleState)
        requires
            cards@.len() > 0,
        ensures
            state.card_queue@.len() == 0,
            state.targets@.len() == 0,
            !state.end_of_turn,
            state.deck@.len() == 10,
            forall|i: int| 0 <= i < state.deck@.len() ==> state.deck@[i] < cards@.len(),
            state.hand@.len() == 0,
            state.discard@.len() == 0,
    {
        BattleState {
            card_queue: Vec::new(),
            targets: Vec::new(),
            end_of_turn: false,
            deck: generate_intial_deck(cards),
            hand: Vec::new(),
            discard: Vec::new(),
        }
    }
}

/// The health bookkeeping that every pass preserves: attacks and healths
/// are non-negative, a bar's `current` stays in `[0, max]`, and an enemy's
/// bar mirrors its health.  An open enemy always carries the bar attached
/// at reveal time.
pub open spec fn healthy_slot(s: Slot) -> bool {
    &&& (s.enemy matches Some(e) ==> 0 <= e.health && 0 <= e.attack)
    &&& (s.health_bar matches Some(b) ==> 0 <= b.current <= b.max)
    &&& (s.enemy is Some && s.health_bar is Some ==> {
        &&& s.health_bar.unwrap().current == s.enemy.unwrap().health
        &&& s.enemy.unwrap().health <= s.health_bar.unwrap().max
    })
    &&& (s.enemy matches Some(e) && e.open ==> s.health_bar is Some)
    &&& !(s.player && s.enemy is Some)
}

pub open spec fn store_health_wf(slots: Seq<Slot>) -> bool {
    forall|i: int| 0 <= i < slots.len() ==> healthy_slot(#[trigger] slots[i])
}

// ---------------------------------------------------------------------
// Button handling
// ---------------------------------------------------------------------

/// A slot the button pass looks at: a button with a rectangle to hit-test.
pub open spec fn is_button_slot(s: Slot) -> bool {
    s.button is Some && s.rect is Some && s.position is Some
}

/// A button slot under the pointer whose action is the end-turn action.
pub open spec fn end_turn_hit(slots: Seq<Slot>, i: int, p: Position) -> bool {
    &&& 0 <= i < slots.len()
    &&& is_button_slot(slots[i])
    &&& contains_point(slots[i].rect.unwrap(), slots[i].position.unwrap(), p)
    &&& slots[i].button.unwrap().action@ == "end_turn"@
}

/// What the button pass leaves of one slot: button slots get their hover
/// flag recomputed, everything else is untouched.
pub open spec fn buttoned_slot(s: Slot, p: Position) -> Slot {
    if is_button_slot(s) {
        Slot {
            button: Some(
                Button {
                    hover: contains_point(s.rect.unwrap(), s.position.unwrap(), p),
                    ..s.button.unwrap()
                },
            ),
            ..s
        }
    } else {
        s
    }
}

/// Recomputes every button's hover flag from the pointer and raises the
/// end-of-turn flag when the end-turn button is clicked.
pub struct ButtonHandler;

impl ButtonHandler {
    pub fn run(&mut self, store: &mut EntityStore, battle: &mut BattleState, input: PointerInput)
        ensures
            final(store)@.len() == old(store)@.len(),
            forall|i: int|
                0 <= i < old(store)@.len() ==> final(store)@[i] == buttoned_slot(
                    old(store)@[i],
                    input.pos,
                ),
            final(battle).end_of_turn == (old(battle).end_of_turn || (input.pressed && exists|i: int|
                end_turn_hit(old(store)@, i, input.pos))),
            final(battle).card_queue == old(battle).card_queue,
            final(battle).targets == old(battle).targets,
            final(battle).deck == old(battle).deck,
            final(battle).hand == old(battle).hand,
            final(battle).discard == old(battle).discard,
    {
        let ghost s0 = store@;
        let ghost b0 = battle.end_of_turn;
        let end_turn = String::from_str("end_turn");
        let n = store.len();
        let mut i: usize = 0;
        while i < n
            invariant
                n == s0.len(),
                store@.len() == n,
                i <= n,
                end_turn@ == "end_turn"@,
                forall|j: int| 0 <= j < i ==> store@[j] == buttoned_slot(s0[j], input.pos),
                forall|j: int| i <= j < n ==> store@[j] == s0[j],
                battle.end_of_turn == (b0 || (input.pressed && exists|j: int|
                    0 <= j < i && end_turn_hit(s0, j, input.pos))),
                battle.card_queue == old(battle).card_queue,
                battle.targets == old(battle).targets,
                battle.deck == old(battle).deck,
                battle.hand == old(battle).hand,
                battle.discard == old(battle).discard,
            decreases n - i,
        {
            let slot = &store.slots[i];
            if slot.button.is_some() && slot.rect.is_some() && slot.position.is_some() {
                let hover = collision_rect_point(
                    slot.rect.unwrap(),
                    slot.position.unwrap(),
                    input.pos,
                );
                let b = store.slots[i].button.as_ref().unwrap().clone();
                let is_end_turn = b.action == end_turn;
                store.slots[i].button = Some(Button { hover, ..b });
                if hover && input.pressed && is_end_turn {
                    battle.end_of_turn = true;
                    assert(end_turn_hit(s0, i as int, input.pos));
                }
            }
            i = i + 1;
        }
    }
}

// ---------------------------------------------------------------------
// Enemy retaliation
// ---------------------------------------------------------------------

/// Whether this slot strikes back at end of turn: a revealed enemy.
pub open spec fn slot_attacks(s: Slot) -> bool {
    s.enemy matches Some(e) && e.open
}

/// Total attack of the revealed enemies among the first `n` slots.
pub open spec fn attack_total_upto(slots: Seq<Slot>, n: int) -> int
    decreases n,
{
    if n <= 0 {
        0
    } else {
        attack_total_upto(slots, n - 1) + if slot_attacks(slots[n - 1]) {
            slots[n - 1].enemy.unwrap().attack as int
        } else {
            0
        }
    }
}

/// What retaliation leaves of one slot: player health pools lose the total
/// attack, floored at zero; everything else is untouched.
pub open spec fn retaliated_slot(s: Slot, total: int) -> Slot {
    if s.player && s.health_bar is Some {
        Slot {
            health_bar: Some(
                HealthBar {
                    current: clamp0(s.health_bar.unwrap().current - total) as i8,
                    ..s.health_bar.unwrap()
                },
            ),
            ..s
        }
    } else {
        s
    }
}

/// One retaliation pass over the whole store, as a transition on the store
/// and the end-of-turn flag: with the flag set every player health pool
/// takes the revealed enemies' total attack and the flag clears; with the
/// flag clear nothing moves.  The flag comes out clear either way.
pub open spec fn retaliation_step(slots: Seq<Slot>, flag: bool) -> (Seq<Slot>, bool) {
    if flag {
        (
            Seq::new(
                slots.len(),
                |i: int| retaliated_slot(slots[i], attack_total_upto(slots, slots.len() as int)),
            ),
            false,
        )
    } else {
        (slots, false)
    }
}

/// End-of-turn retaliation fires exactly once per flag-set: the pass that
/// consumes the flag leaves it clear, and a further pass over the result
/// changes nothing, however many passes elapse in between.
pub proof fn lemma_retaliation_one_shot(slots: Seq<Slot>, flag: bool)
    ensures
        !retaliation_step(slots, flag).1,
        retaliation_step(retaliation_step(slots, flag).0, retaliation_step(slots, flag).1).0
            == retaliation_step(slots, flag).0,
{
}

/// End-of-turn retaliation: when the end-of-turn flag is set, every
/// revealed enemy applies its full attack to the player's health pool, and
/// the flag is cleared unconditionally (one-shot semantics).  When the flag
/// is clear, nothing changes.
pub struct EnemyAttacker;

impl EnemyAttacker {
    pub fn run(&mut self, store: &mut EntityStore, battle: &mut BattleState)
        requires
            store_health_wf(old(store)@),
        ensures
            final(store)@.len() == old(store)@.len(),
            !final(battle).end_of_turn,
            !old(battle).end_of_turn ==> final(store)@ == old(store)@,
            old(battle).end_of_turn ==> forall|i: int|
                0 <= i < old(store)@.len() ==> final(store)@[i] == retaliated_slot(
                    old(store)@[i],
                    attack_total_upto(old(store)@, old(store)@.len() as int),
                ),
            final(store)@ == retaliation_step(old(store)@, old(battle).end_of_turn).0,
            final(battle).end_of_turn == retaliation_step(
                old(store)@,
                old(battle).end_of_turn,
            ).1,
            store_health_wf(final(store)@),
            final(battle).card_queue == old(battle).card_queue,
            final(battle).targets == old(battle).targets,
            final(battle).deck == old(battle).deck,
            final(battle).hand == old(battle).hand,
            final(battle).discard == old(battle).discard,
    {
        if !battle.end_of_turn {
            return ;
        }
        let ghost s0 = store@;
        let n = store.len();
        let mut total: i128 = 0;
        let mut i: usize = 0;
        while i < n
            invariant
                n == s0.len(),
                store@ == s0,
                i <= n,
                total == attack_total_upto(s0, i as int),
                0 <= total <= 127 * i,
                store_health_wf(s0),
            decreases n - i,
        {
            let slot = &store.slots[i];
            match &slot.enemy {
                Some(e) => {
                    if e.open {
                        assert(healthy_slot(s0[i as int]));
                        total = total + e.attack as i128;
                    }
                },
                None => {},
            }
            i = i + 1;
        }
        let ghost t = attack_total_upto(s0, s0.len() as int);
        let mut k: usize = 0;
        while k < n
            invariant
                n == s0.len(),
                store@.len() == n,
                k <= n,
                total == t,
                0 <= total,
                forall|j: int| 0 <= j < k ==> store@[j] == retaliated_slot(s0[j], t),
                forall|j: int| k <= j < n ==> store@[j] == s0[j],
                store_health_wf(s0),
            decreases n - k,
        {
            let slot = &store.slots[k];
            if slot.player && slot.health_bar.is_some() {
                let bar = store.slots[k].health_bar.unwrap();
                assert(healthy_slot(s0[k as int]));
                let reduced: i8 = if total >= bar.current as i128 {
                    0
                } else {
                    (bar.current as i128 - total) as i8
                };
                store.slots[k].health_bar = Some(HealthBar { current: reduced, ..bar });
            }
            k = k + 1;
        }
        battle.end_of_turn = false;
        proof {
            assert forall|i2: int| 0 <= i2 < store@.len() implies healthy_slot(
                #[trigger] store@[i2],
            ) by {
                assert(store@[i2] == retaliated_slot(s0[i2], t));
                assert(healthy_slot(s0[i2]));
            }
            assert(store@ =~= Seq::new(
                s0.len(),
                |i: int| retaliated_slot(s0[i], attack_total_upto(s0, s0.len() as int)),
            ));
        }
    }
}

// ---------------------------------------------------------------------
// Damage resolution
// ---------------------------------------------------------------------

/// How many of the first `n` queue entries strike entity `e`.
pub open spec fn hit_count(targets: Seq<usize>, e: int, n: int) -> nat
    decreases n,
{
    if n <= 0 {
        0
    } else {
        hit_count(targets, e, n - 1) + if targets[n - 1] == e {
            1nat
        } else {
            0nat
        }
    }
}

/// An entity no queue entry strikes takes no power.
proof fn lemma_no_hits_no_power(queue: Seq<Card>, targets: Seq<usize>, e: int, n: int)
    requires
        hit_count(targets, e, n) == 0,
    ensures
        power_sum(queue, targets, e, n) == 0,
    decreases n,
{
    if n > 0 {
        lemma_no_hits_no_power(queue, targets, e, n - 1);
    }
}

/// A struck entity is the target of some queue entry.
proof fn lemma_hit_exists(targets: Seq<usize>, e: int, n: int)
    requires
        hit_count(targets, e, n) > 0,
    ensures
        exists|k: int| 0 <= k < n && targets[k] == e,
    decreases n,
{
    if n > 0 {
        if targets[n - 1] == e {
            assert(0 <= n - 1 < n && targets[n - 1] == e);
        } else {
            lemma_hit_exists(targets, e, n - 1);
        }
    }
}

/// With non-negative card powers the applied total is non-negative.
proof fn lemma_power_sum_nonneg(queue: Seq<Card>, targets: Seq<usize>, e: int, n: int)
    requires
        forall|k: int| 0 <= k < n ==> #[trigger] queue[k].value >= 0,
    ensures
        power_sum(queue, targets, e, n) >= 0,
    decreases n,
{
    if n > 0 {
        lemma_power_sum_nonneg(queue, targets, e, n - 1);
    }
}

/// Total power of the first `n` queue entries that strike entity `e`.
pub open spec fn power_sum(queue: Seq<Card>, targets: Seq<usize>, e: int, n: int) -> int
    decreases n,
{
    if n <= 0 {
        0
    } else {
        power_sum(queue, targets, e, n - 1) + if targets[n - 1] == e {
            queue[n - 1].value as int
        } else {
            0int
        }
    }
}

/// What resolution leaves of a struck enemy slot: health drops by the total
/// power applied to it, floored at zero; the bar mirrors the health; an
/// enemy brought to exactly zero is marked for deferred destruction.
pub open spec fn damaged_slot(s: Slot, total: int) -> Slot {
    let h1 = clamp0(s.enemy.unwrap().health - total);
    Slot {
        enemy: Some(Enemy { health: h1 as i8, ..s.enemy.unwrap() }),
        health_bar: Some(HealthBar { current: h1 as i8, ..s.health_bar.unwrap() }),
        pending_destroy: s.pending_destroy || h1 == 0,
        ..s
    }
}

/// Drains the pending damage queue in order, applying each played card's
/// power to its target, then clears the queue unconditionally: entries are
/// consumed exactly once and never replayed.
pub struct DamageQueue;

impl DamageQueue {
    pub fn run(&mut self, store: &mut EntityStore, battle: &mut BattleState)
        requires
            old(battle).card_queue@.len() == old(battle).targets@.len(),
            forall|i: int|
                0 <= i < old(battle).targets@.len() ==> {
                    &&& old(battle).targets@[i] < old(store)@.len()
                    &&& #[trigger] old(store)@[old(battle).targets@[i] as int].enemy is Some
                    &&& old(store)@[old(battle).targets@[i] as int].health_bar is Some
                },
            forall|i: int|
                0 <= i < old(battle).card_queue@.len() ==> #[trigger] old(
                    battle,
                ).card_queue@[i].value >= 0,
            store_health_wf(old(store)@),
        ensures
            final(battle).card_queue@.len() == 0,
            final(battle).targets@.len() == 0,
            final(store)@.len() == old(store)@.len(),
            forall|e: int|
                0 <= e < old(store)@.len() ==> final(store)@[e] == (if hit_count(
                    old(battle).targets@,
                    e,
                    old(battle).targets@.len() as int,
                ) == 0 {
                    old(store)@[e]
                } else {
                    damaged_slot(
                        old(store)@[e],
                        power_sum(
                            old(battle).card_queue@,
                            old(battle).targets@,
                            e,
                            old(battle).targets@.len() as int,
                        ),
                    )
                }),
            store_health_wf(final(store)@),
            final(battle).end_of_turn == old(battle).end_of_turn,
            final(battle).deck == old(battle).deck,
            final(battle).hand == old(battle).hand,
            final(battle).discard == old(battle).discard,
    {
        let ghost s0 = store@;
        let ghost q = battle.card_queue@;
        let ghost ts = battle.targets@;
        let n = battle.card_queue.len();
        let mut i: usize = 0;
        while i < n
            invariant
                n == q.len(),
                n == ts.len(),
                battle.card_queue@ == q,
                battle.targets@ == ts,
                store@.len() == s0.len(),
                i <= n,
                forall|k: int|
                    0 <= k < n ==> {
                        &&& ts[k] < s0.len()
                        &&& #[trigger] s0[ts[k] as int].enemy is Some
                        &&& s0[ts[k] as int].health_bar is Some
                    },
                forall|k: int| 0 <= k < n ==> #[trigger] q[k].value >= 0,
                store_health_wf(s0),
                forall|e: int|
                    #![trigger store@[e]]
                    0 <= e < s0.len() ==> store@[e] == (if hit_count(ts, e, i as int) == 0 {
                        s0[e]
                    } else {
                        damaged_slot(s0[e], power_sum(q, ts, e, i as int))
                    }),
                battle.end_of_turn == old(battle).end_of_turn,
                battle.deck == old(battle).deck,
                battle.hand == old(battle).hand,
                battle.discard == old(battle).discard,
            decreases n - i,
        {
            let value = battle.card_queue[i].value;
            let t = battle.targets[i];
            let ghost te = t as int;
            proof {
                assert(ts[i as int] < s0.len() && s0[ts[i as int] as int].enemy is Some && s0[ts[
                    i as int
                ] as int].health_bar is Some);
                assert(store@[te] == (if hit_count(ts, te, i as int) == 0 {
                    s0[te]
                } else {
                    damaged_slot(s0[te], power_sum(q, ts, te, i as int))
                }));
            }
            let enemy = store.slots[t].enemy.as_ref().unwrap().clone();
            let bar = store.slots[t].health_bar.unwrap();
            let h0 = enemy.health;
            let h1: i8 = if value >= h0 {
                0
            } else {
                h0 - value
            };
            store.slots[t].enemy = Some(Enemy { health: h1, ..enemy });
            store.slots[t].health_bar = Some(HealthBar { current: h1, ..bar });
            if h1 == 0 {
                store.slots[t].pending_destroy = true;
            }
            proof {
                if hit_count(ts, te, i as int) == 0 {
                    lemma_no_hits_no_power(q, ts, te, i as int);
                }
                assert forall|e: int| 0 <= e < s0.len() implies store@[e] == (if hit_count(
                    ts,
                    e,
                    i + 1,
                ) == 0 {
                    s0[e]
                } else {
                    damaged_slot(s0[e], power_sum(q, ts, e, i + 1))
                }) by {
                    if e != te {
                        assert(hit_count(ts, e, i + 1) == hit_count(ts, e, i as int));
                        assert(power_sum(q, ts, e, i + 1) == power_sum(q, ts, e, i as int));
                    } else {
                        assert(q[i as int].value >= 0);
                        assert(healthy_slot(s0[te]));
                        lemma_power_sum_nonneg(q, ts, te, i as int);
                        assert(hit_count(ts, te, i + 1) == hit_count(ts, te, i as int) + 1);
                        assert(power_sum(q, ts, te, i + 1) == power_sum(q, ts, te, i as int)
                            + q[i as int].value);
                        assert(store@[te] == damaged_slot(s0[te], power_sum(q, ts, te, i + 1)));
                    }
                }
            }
            i = i + 1;
        }
        battle.card_queue = Vec::new();
        battle.targets = Vec::new();
        proof {
            assert forall|e: int| 0 <= e < store@.len() implies healthy_slot(
                #[trigger] store@[e],
            ) by {
                assert(healthy_slot(s0[e]));
                lemma_power_sum_nonneg(q, ts, e, n as int);
                if hit_count(ts, e, n as int) != 0 {
                    lemma_hit_exists(ts, e, n as int);
                    let k = choose|k: int| 0 <= k < n && ts[k] == e;
                    assert(s0[ts[k] as int].enemy is Some && s0[ts[k] as int].health_bar is Some);
                }
            }
        }
    }
}

// ---------------------------------------------------------------------
// Selection and drag
// ---------------------------------------------------------------------

/// A slot the hover scan joins over: a card with a rectangle to hit-test.
pub open spec fn valid_card_slot(slots: Seq<Slot>, i: int) -> bool {
    &&& 0 <= i < slots.len()
    &&& slots[i].card is Some
    &&& slots[i].rect is Some
    &&& slots[i].position is Some
}

/// A card slot under the pointer.
pub open spec fn card_hit(slots: Seq<Slot>, i: int, p: Position) -> bool {
    &&& valid_card_slot(slots, i)
    &&& contains_point(slots[i].rect.unwrap(), slots[i].position.unwrap(), p)
}

/// The hovered card among the first `n` slots: the last hit wins, so the
/// tie-break over overlapping cards is deterministic by index.
pub open spec fn last_card_hit_upto(slots: Seq<Slot>, p: Position, n: int) -> Option<usize>
    decreases n,
{
    if n <= 0 {
        None
    } else if card_hit(slots, n - 1, p) {
        Some((n - 1) as usize)
    } else {
        last_card_hit_upto(slots, p, n - 1)
    }
}

/// The card the pointer hovers, if any.
pub open spec fn hovered_card(slots: Seq<Slot>, p: Position) -> Option<usize> {
    last_card_hit_upto(slots, p, slots.len() as int)
}

/// A slot the drop scan joins over: an enemy with a rectangle to hit-test.
pub open spec fn enemy_hit(slots: Seq<Slot>, i: int, p: Position) -> bool {
    &&& 0 <= i < slots.len()
    &&& slots[i].enemy is Some
    &&& slots[i].rect is Some
    &&& slots[i].position is Some
    &&& contains_point(slots[i].rect.unwrap(), slots[i].position.unwrap(), p)
}

/// The drop target scanning from slot `i` up: the first hit wins.
pub open spec fn first_enemy_hit_from(slots: Seq<Slot>, p: Position, i: int) -> Option<usize>
    decreases slots.len() - i,
{
    if i < 0 || i >= slots.len() {
        None
    } else if enemy_hit(slots, i, p) {
        Some(i as usize)
    } else {
        first_enemy_hit_from(slots, p, i + 1)
    }
}

/// The enemy the drop lands on, if any.
pub open spec fn first_enemy_hit(slots: Seq<Slot>, p: Position) -> Option<usize> {
    first_enemy_hit_from(slots, p, 0)
}

/// The drag-cursor entity scanning from slot `i` up.
pub open spec fn first_mouse_from(slots: Seq<Slot>, i: int) -> Option<usize>
    decreases slots.len() - i,
{
    if i < 0 || i >= slots.len() {
        None
    } else if slots[i].mouse_handler {
        Some(i as usize)
    } else {
        first_mouse_from(slots, i + 1)
    }
}

/// The drag-cursor entity: the singleton slot carrying the pointer-handler
/// mark.
pub open spec fn first_mouse(slots: Seq<Slot>) -> Option<usize> {
    first_mouse_from(slots, 0)
}

/// What the selection pass asks of the store: cards carry the facets the
/// scan and the lift need, enemies carry the facets reveal needs, and no
/// entity is both a card and an enemy.
pub open spec fn selector_wf(slots: Seq<Slot>) -> bool {
    forall|i: int|
        #![trigger slots[i]]
        0 <= i < slots.len() ==> {
            &&& (slots[i].card is Some ==> slots[i].position is Some && slots[i].rect is Some
                && slots[i].active is Some && slots[i].enemy is None)
            &&& (slots[i].enemy is Some ==> slots[i].position is Some && slots[i].rect is Some
                && slots[i].sprite is Some && !slots[i].mouse_handler)
        }
}

/// The pointer-handler entity exists (its absence is a precondition
/// violation), carries position, rectangle and active facets, has a
/// non-negative extent, and is neither a card nor an enemy.
pub open spec fn mouse_wf(slots: Seq<Slot>) -> bool {
    match first_mouse(slots) {
        Some(m) => {
            &&& slots[m as int].position is Some
            &&& slots[m as int].rect is Some
            &&& slots[m as int].active is Some
            &&& slots[m as int].rect.unwrap().width >= 0
            &&& slots[m as int].rect.unwrap().height >= 0
            &&& slots[m as int].card is None
            &&& slots[m as int].enemy is None
        },
        None => false,
    }
}

/// Moves the vertical anchor of the slot `sel` names by `delta`
/// (saturating); a missing or position-less slot is left alone, so a stale
/// selection handle is harmless.
pub open spec fn spec_bump_y(slots: Seq<Slot>, sel: Option<usize>, delta: int) -> Seq<Slot> {
    match sel {
        Some(i) => if 0 <= i < slots.len() && slots[i as int].position is Some {
            slots.update(
                i as int,
                (Slot {
                    position: Some(
                        Position {
                            x: slots[i as int].position.unwrap().x,
                            y: sat_i64(slots[i as int].position.unwrap().y + delta),
                        },
                    ),
                    ..slots[i as int]
                }),
            )
        } else {
            slots
        },
        None => slots,
    }
}

/// Sets the `Active` flag of slot `i`, when the slot exists and has one.
pub open spec fn set_active(slots: Seq<Slot>, i: int, b: bool) -> Seq<Slot> {
    if 0 <= i < slots.len() && slots[i].active is Some {
        slots.update(i, (Slot { active: Some(Active(b)), ..slots[i] }))
    } else {
        slots
    }
}

/// The hover-and-selection step: the hovered card becomes selected.  On a
/// change of selection the old selection's lift is undone (`+50`) and the
/// new selection is lifted (`-50`); with nothing hovered the old lift is
/// undone and the selection cleared.
pub open spec fn select_phase(slots: Seq<Slot>, old_sel: Option<usize>, p: Position) -> (
    Seq<Slot>,
    Option<usize>,
) {
    match hovered_card(slots, p) {
        Some(s) => if old_sel == Some(s) {
            (slots, old_sel)
        } else {
            (spec_bump_y(spec_bump_y(slots, old_sel, 50), Some(s), -50), Some(s))
        },
        None => (spec_bump_y(slots, old_sel, 50), None),
    }
}

/// The drag-start step: a press with a selection starts dragging it, hides
/// the dragged card and shows the drag cursor (slot `m`).
pub open spec fn press_phase(
    slots: Seq<Slot>,
    sel: Option<usize>,
    dragging: Option<usize>,
    pressed: bool,
    m: int,
) -> (Seq<Slot>, Option<usize>) {
    if pressed && sel is Some {
        (set_active(set_active(slots, sel.unwrap() as int, false), m, true), sel)
    } else {
        (slots, dragging)
    }
}

/// The drag-update step: while the button is held the drag cursor tracks
/// the pointer, centred on its own rectangle.
pub open spec fn down_phase(slots: Seq<Slot>, down: bool, m: int, p: Position) -> Seq<Slot> {
    if down && 0 <= m < slots.len() && slots[m].rect is Some && slots[m].position is Some {
        let r = slots[m].rect.unwrap();
        slots.update(
            m,
            (Slot {
                position: Some(
                    Position {
                        x: sat_i64(p.x - r.width / 2),
                        y: sat_i64(p.y - r.height / 2),
                    },
                ),
                ..slots[m]
            }),
        )
    } else {
        slots
    }
}

/// How a first successful hit reveals a face-down enemy: `open` flips, the
/// sprite key becomes the revealed-state key, and a fresh health bar is
/// attached, initialised from the enemy's current health.  Everything else
/// in the slot is kept.
pub open spec fn revealed_from(s: Slot, s2: Slot) -> bool {
    let e = s.enemy.unwrap();
    &&& s2.alive == s.alive
    &&& s2.pending_destroy == s.pending_destroy
    &&& s2.position == s.position
    &&& s2.rect == s.rect
    &&& s2.card == s.card
    &&& s2.player == s.player
    &&& s2.mouse_handler == s.mouse_handler
    &&& s2.button == s.button
    &&& s2.active == s.active
    &&& s2.enemy == Some(Enemy { open: true, ..e })
    &&& (s2.sprite matches Some(sp) && s.sprite matches Some(sp0) && sp.scale == sp0.scale
        && sp.texture_path@ == crate::text::revealed_key_view(e.health as int, e.attack as int))
    &&& s2.health_bar == Some(HealthBar { max: e.health, current: e.health })
}

/// Revealing an already-open enemy changes nothing; a face-down enemy is
/// revealed as `revealed_from` says.
pub open spec fn reveal_rel(s: Slot, s2: Slot) -> bool {
    if s.enemy.unwrap().open {
        s2 == s
    } else {
        revealed_from(s, s2)
    }
}

/// Revealing an enemy is idempotent: once a slot has been revealed, a
/// second reveal leaves it exactly as it is — in particular the health bar
/// attached at the first reveal is kept, never replaced by a fresh one.
pub proof fn lemma_reveal_idempotent(s: Slot, s1: Slot, s2: Slot)
    requires
        s.enemy is Some,
        reveal_rel(s, s1),
        reveal_rel(s1, s2),
    ensures
        s2 == s1,
{
    if !s.enemy.unwrap().open {
        assert(s1.enemy == Some(Enemy { open: true, ..s.enemy.unwrap() }));
    }
}

/// What a drop enqueues: the dragged entity's card together with the first
/// enemy under the pointer, or nothing when there is no such enemy or no
/// usable dragged entity.
pub open spec fn drop_queued(
    slots: Seq<Slot>,
    drag: Option<usize>,
    up: bool,
    m: int,
    p: Position,
) -> Option<(Card, usize)> {
    if up && drag is Some {
        let d = drag.unwrap() as int;
        let sm = set_active(slots, m, false);
        if valid_card_slot(sm, d) && sm[d].active is Some {
            match first_enemy_hit(sm, p) {
                Some(t) => Some((sm[d].card.unwrap(), t)),
                None => None,
            }
        } else {
            None
        }
    } else {
        None
    }
}

/// How the drop step rewrites the store.  On a release with a drag in
/// flight the drag cursor is hidden; a hit enemy is revealed (first hit
/// only) and the dragged card is marked for deferred destruction; with no
/// enemy under the pointer the dragged card merely becomes visible again.
/// A dragged handle whose entity has lost its card facets is treated as no
/// drag at all.
pub open spec fn drop_slots_rel(
    slots: Seq<Slot>,
    drag: Option<usize>,
    up: bool,
    m: int,
    p: Position,
    out: Seq<Slot>,
) -> bool {
    if up && drag is Some {
        let d = drag.unwrap() as int;
        let sm = set_active(slots, m, false);
        if valid_card_slot(sm, d) && sm[d].active is Some {
            match first_enemy_hit(sm, p) {
                Some(t) => {
                    &&& out.len() == sm.len()
                    &&& forall|j: int|
                        0 <= j < sm.len() && j != t && j != d ==> out[j] == sm[j]
                    &&& reveal_rel(sm[t as int], out[t as int])
                    &&& out[d] == (Slot { pending_destroy: true, ..sm[d] })
                },
                None => out == set_active(sm, d, true),
            }
        } else {
            out == sm
        }
    } else {
        out == slots
    }
}

/// What the drag state is after a pass.
pub open spec fn drop_dragging(drag: Option<usize>, up: bool) -> Option<usize> {
    if up && drag is Some {
        None
    } else {
        drag
    }
}

fn hover_scan(store: &EntityStore, p: Position) -> (r: Option<usize>)
    ensures
        r == hovered_card(store@, p),
        r matches Some(s) ==> card_hit(store@, s as int, p),
{
    let n = store.len();
    let mut selected: Option<usize> = None;
    let mut i: usize = 0;
    while i < n
        invariant
            n == store@.len(),
            i <= n,
            selected == last_card_hit_upto(store@, p, i as int),
            selected matches Some(s) ==> card_hit(store@, s as int, p),
        decreases n - i,
    {
        let slot = &store.slots[i];
        if slot.card.is_some() && slot.rect.is_some() && slot.position.is_some() {
            if collision_rect_point(slot.rect.unwrap(), slot.position.unwrap(), p) {
                selected = Some(i);
            }
        }
        i = i + 1;
    }
    selected
}

fn enemy_scan(store: &EntityStore, p: Position) -> (r: Option<usize>)
    ensures
        r == first_enemy_hit(store@, p),
        r matches Some(t) ==> enemy_hit(store@, t as int, p),
{
    let n = store.len();
    let mut i: usize = 0;
    while i < n
        invariant
            n == store@.len(),
            i <= n,
            first_enemy_hit(store@, p) == first_enemy_hit_from(store@, p, i as int),
        decreases n - i,
    {
        let slot = &store.slots[i];
        if slot.enemy.is_some() && slot.rect.is_some() && slot.position.is_some() {
            if collision_rect_point(slot.rect.unwrap(), slot.position.unwrap(), p) {
                return Some(i);
            }
        }
        i = i + 1;
    }
    None
}

fn first_mouse_scan(store: &EntityStore) -> (r: Option<usize>)
    ensures
        r == first_mouse(store@),
        r matches Some(mi) ==> mi < store@.len() && store@[mi as int].mouse_handler,
{
    let n = store.len();
    let mut i: usize = 0;
    while i < n
        invariant
            n == store@.len(),
            i <= n,
            first_mouse(store@) == first_mouse_from(store@, i as int),
        decreases n - i,
    {
        if store.slots[i].mouse_handler {
            return Some(i);
        }
        i = i + 1;
    }
    None
}

fn bump_y_sel(store: &mut EntityStore, sel: Option<usize>, delta: i64)
    ensures
        final(store)@ == spec_bump_y(old(store)@, sel, delta as int),
        store_health_wf(old(store)@) ==> store_health_wf(final(store)@),
{
    let ghost s0 = store@;
    match sel {
        Some(i) => {
            if i < store.slots.len() {
                if store.slots[i].position.is_some() {
                    let p0 = store.slots[i].position.unwrap();
                    store.slots[i].position = Some(
                        Position { x: p0.x, y: sat_add64(p0.y, delta) },
                    );
                }
            }
        },
        None => {},
    }
    proof {
        if store_health_wf(s0) {
            assert forall|j: int| 0 <= j < store@.len() implies healthy_slot(
                #[trigger] store@[j],
            ) by {
                assert(healthy_slot(s0[j]));
            }
        }
    }
}

fn set_active_exec(store: &mut EntityStore, i: usize, b: bool)
    ensures
        final(store)@ == set_active(old(store)@, i as int, b),
        store_health_wf(old(store)@) ==> store_health_wf(final(store)@),
{
    let ghost s0 = store@;
    if i < store.slots.len() {
        if store.slots[i].active.is_some() {
            store.slots[i].active = Some(Active(b));
        }
    }
    proof {
        if store_health_wf(s0) {
            assert forall|j: int| 0 <= j < store@.len() implies healthy_slot(
                #[trigger] store@[j],
            ) by {
                assert(healthy_slot(s0[j]));
            }
        }
    }
}

/// Reveals a face-down enemy: flips it open, swaps its sprite key for the
/// revealed-state key and attaches a health bar initialised from its
/// current health.  A second reveal of the same enemy changes nothing.
fn reveal_enemy(store: &mut EntityStore, t: usize)
    requires
        t < old(store)@.len(),
        old(store)@[t as int].enemy is Some,
        old(store)@[t as int].sprite is Some,
        store_health_wf(old(store)@),
    ensures
        final(store)@.len() == old(store)@.len(),
        forall|j: int| 0 <= j < old(store)@.len() && j != t ==> final(store)@[j] == old(store)@[j],
        reveal_rel(old(store)@[t as int], final(store)@[t as int]),
        store_health_wf(final(store)@),
{
    let ghost s0 = store@;
    let open = store.slots[t].enemy.as_ref().unwrap().open;
    if !open {
        let e2 = store.slots[t].enemy.as_ref().unwrap().clone();
        let health = e2.health;
        let attack = e2.attack;
        proof {
            assert(healthy_slot(s0[t as int]));
        }
        let scale = store.slots[t].sprite.as_ref().unwrap().scale;
        let key = crate::text::revealed_key(health, attack);
        store.slots[t].sprite = Some(Sprite { texture_path: key, scale });
        store.slots[t].enemy = Some(Enemy { open: true, ..e2 });
        store.slots[t].health_bar = Some(HealthBar::new(health));
    }
    proof {
        assert forall|j: int| 0 <= j < store@.len() implies healthy_slot(
            #[trigger] store@[j],
        ) by {
            assert(healthy_slot(s0[j]));
        }
    }
}

/// The per-pass selection, drag and drop state machine.  `selected` and
/// `dragging` persist across passes; everything else is recomputed from the
/// pointer each pass.
pub struct CardSelector {
    pub selected: Option<usize>,
    pub dragging: Option<usize>,
}

impl CardSelector {
    /// One pass of the controller: hover scan and selection lift, drag
    /// start on a press, cursor tracking while held, and drop resolution on
    /// release.  A successful drop enqueues the played card and its target
    /// into the battle context's damage queue; a drop over empty space
    /// returns the card to its visible state and enqueues nothing.
    #[verifier::rlimit(100)]
    pub fn run(&mut self, store: &mut EntityStore, battle: &mut BattleState, input: PointerInput)
        requires
            selector_wf(old(store)@),
            mouse_wf(old(store)@),
            store_health_wf(old(store)@),
        ensures
            ({
                let m = first_mouse(old(store)@).unwrap() as int;
                let a = select_phase(old(store)@, old(self).selected, input.pos);
                let b = press_phase(a.0, a.1, old(self).dragging, input.pressed, m);
                let sc = down_phase(b.0, input.down, m, input.pos);
                let qd = drop_queued(sc, b.1, !input.down, m, input.pos);
                &&& final(self).selected == a.1
                &&& final(self).dragging == drop_dragging(b.1, !input.down)
                &&& drop_slots_rel(sc, b.1, !input.down, m, input.pos, final(store)@)
                &&& final(battle).card_queue@ == (match qd {
                    Some(cq) => old(battle).card_queue@.push(cq.0),
                    None => old(battle).card_queue@,
                })
                &&& final(battle).targets@ == (match qd {
                    Some(cq) => old(battle).targets@.push(cq.1),
                    None => old(battle).targets@,
                })
            }),
            final(store)@.len() == old(store)@.len(),
            store_health_wf(final(store)@),
            final(battle).end_of_turn == old(battle).end_of_turn,
            final(battle).deck == old(battle).deck,
            final(battle).hand == old(battle).hand,
            final(battle).discard == old(battle).discard,
    {
        let ghost s_in = store@;
        let p = input.pos;
        let m = first_mouse_scan(store).unwrap();

        // Hover scan and selection lift.
        let hov = hover_scan(store, p);
        match hov {
            None => {
                bump_y_sel(store, self.selected, 50);
                self.selected = None;
            },
            Some(s) => {
                let same = match self.selected {
                    Some(g) => g == s,
                    None => false,
                };
                if !same {
                    bump_y_sel(store, self.selected, 50);
                    bump_y_sel(store, Some(s), -50);
                    self.selected = Some(s);
                }
            },
        }
        let ghost a = select_phase(s_in, old(self).selected, p);
        proof {
            assert(store@ == a.0);
            assert(self.selected == a.1);
        }

        // Drag start on a press edge.
        if input.pressed && self.selected.is_some() {
            let d = self.selected.unwrap();
            self.dragging = self.selected;
            set_active_exec(store, d, false);
            set_active_exec(store, m, true);
        }
        let ghost b = press_phase(a.0, a.1, old(self).dragging, input.pressed, m as int);
        proof {
            assert(store@ == b.0);
            assert(self.dragging == b.1);
        }

        // Cursor tracking while the button is held.
        if input.down {
            if store.slots[m].rect.is_some() && store.slots[m].position.is_some() {
                let r = store.slots[m].rect.unwrap();
                proof {
                    assert(s_in[m as int].rect is Some);
                    assert(b.0[m as int].rect == s_in[m as int].rect);
                }
                let w2 = ((r.width as u64) / 2) as i64;
                let h2 = ((r.height as u64) / 2) as i64;
                let nx = sat_sub64(p.x, w2);
                let ny = sat_sub64(p.y, h2);
                store.slots[m].position = Some(Position { x: nx, y: ny });
            }
        }
        let ghost sc = down_phase(b.0, input.down, m as int, p);
        proof {
            assert(store@ == sc);
            assert forall|j: int| 0 <= j < store@.len() implies healthy_slot(
                #[trigger] store@[j],
            ) by {
                assert(healthy_slot(b.0[j]));
            }
        }

        // The phases above only move positions and toggle active flags, so
        // the gameplay facets are exactly those of the incoming store.
        proof {
            assert forall|j: int| 0 <= j < sc.len() implies (#[trigger] sc[j]).card == s_in[j].card
                && sc[j].enemy == s_in[j].enemy && sc[j].sprite == s_in[j].sprite
                && sc[j].mouse_handler == s_in[j].mouse_handler by {}
        }

        // Drop resolution on release.
        if !input.down && self.dragging.is_some() {
            let drag = self.dragging.unwrap();
            set_active_exec(store, m, false);
            let ghost sm = set_active(sc, m as int, false);
            proof {
                assert(store@ == sm);
                assert forall|j: int| 0 <= j < sm.len() implies (#[trigger] sm[j]).card
                    == s_in[j].card && sm[j].enemy == s_in[j].enemy && sm[j].sprite
                    == s_in[j].sprite by {}
            }
            let dvalid = drag < store.len() && store.slots[drag].card.is_some()
                && store.slots[drag].rect.is_some() && store.slots[drag].position.is_some()
                && store.slots[drag].active.is_some();
            if dvalid {
                let target = enemy_scan(store, p);
                match target {
                    Some(t) => {
                        proof {
                            assert(s_in[t as int].enemy is Some);
                            assert(s_in[t as int].sprite is Some);
                            assert(s_in[drag as int].card is Some);
                            assert(s_in[drag as int].enemy is None);
                            assert(t != drag);
                        }
                        reveal_enemy(store, t);
                        let ghost s_rev = store@;
                        store.destroy(drag);
                        proof {
                            assert forall|j: int| 0 <= j < store@.len() implies healthy_slot(
                                #[trigger] store@[j],
                            ) by {
                                assert(healthy_slot(s_rev[j]));
                            }
                        }
                        let card = store.slots[drag].card.as_ref().unwrap().clone();
                        proof {
                            assert(card == sm[drag as int].card.unwrap());
                        }
                        battle.card_queue.push(card);
                        battle.targets.push(t);
                    },
                    None => {
                        set_active_exec(store, drag, true);
                    },
                }
            }
            self.dragging = None;
        }
        proof {
            assert(drop_slots_rel(sc, b.1, !input.down, m as int, p, store@));
            assert(store_health_wf(store@));
        }
    }
}

// ---------------------------------------------------------------------
// Hand refill
// ---------------------------------------------------------------------

/// Refills an empty hand.  When the deck is down to two or fewer cards the
/// discard pile is shuffled back under it first (in its current order; the
/// order of the reshuffle is left deterministic on purpose).  Up to two
/// cards are then drawn from the tail of the deck.  Drawing from an
/// exhausted deck is not an abort here: the hand simply stays short, and
/// the contract says exactly how short.
pub struct DrawCardSys;

impl DrawCardSys {
    pub fn run(&mut self, battle: &mut BattleState)
        ensures
            final(battle).card_queue == old(battle).card_queue,
            final(battle).targets == old(battle).targets,
            final(battle).end_of_turn == old(battle).end_of_turn,
            old(battle).hand@.len() > 0 ==> {
                &&& final(battle).deck == old(battle).deck
                &&& final(battle).hand == old(battle).hand
                &&& final(battle).discard == old(battle).discard
            },
            old(battle).hand@.len() == 0 ==> {
                let pool = if old(battle).deck@.len() <= 2 {
                    old(battle).deck@ + old(battle).discard@
                } else {
                    old(battle).deck@
                };
                let k = if pool.len() < 2 {
                    pool.len() as int
                } else {
                    2int
                };
                &&& final(battle).discard@ == (if old(battle).deck@.len() <= 2 {
                    Seq::<CardID>::empty()
                } else {
                    old(battle).discard@
                })
                &&& final(battle).deck@ == pool.take(pool.len() - k)
                &&& final(battle).hand@.len() == k
                &&& forall|j: int|
                    0 <= j < k ==> final(battle).hand@[j] == pool[pool.len() - 1 - j]
            },
    {
        if battle.hand.len() > 0 {
            return ;
        }
        if battle.deck.len() <= 2 {
            battle.deck.append(&mut battle.discard);
        }
        let ghost pool = battle.deck@;
        let mut drawn: usize = 0;
        while drawn < 2 && battle.deck.len() > 0
            invariant
                drawn <= 2,
                battle.hand@.len() == drawn,
                drawn <= pool.len(),
                battle.deck@ == pool.take(pool.len() - drawn),
                forall|j: int| 0 <= j < drawn ==> battle.hand@[j] == pool[pool.len() - 1 - j],
                battle.card_queue == old(battle).card_queue,
                battle.targets == old(battle).targets,
                battle.end_of_turn == old(battle).end_of_turn,
                battle.discard@ == (if old(battle).deck@.len() <= 2 {
                    Seq::<CardID>::empty()
                } else {
                    old(battle).discard@
                }),
            decreases 2 - drawn,
        {
            let card_id = battle.deck.pop().unwrap();
            battle.hand.push(card_id);
            drawn = drawn + 1;
            proof {
                assert(battle.deck@ =~= pool.take(pool.len() - drawn));
            }
        }
    }
}

} // verus!
