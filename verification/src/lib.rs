//! A small turn-based card battle engine.
//!
//! A player drags cards from a hand onto face-down enemies to deal damage;
//! enemies retaliate at end of turn; a deck/hand/discard cycle gates which
//! cards are playable.  The crate holds the battle simulation and the
//! drag-and-select interaction state machine; rendering, input polling and
//! asset loading live outside, behind plain-value interfaces.

use vstd::prelude::*;

pub mod components;
pub mod store;
pub mod cards;
pub mod text;
pub mod systems;

verus! {

/// Key of a card definition in the card catalog, assigned by load order.
pub type CardID = u64;

/// Key of an enemy definition in the enemy catalog, assigned by load order.
pub type EnemyID = u64;

/// The top-level scenes.  The active scene selects which set of per-pass
/// components runs; a switch takes effect on the next pass.
#[derive(Debug, PartialEq, Eq, Structural, Clone, Copy)]
pub enum GameScenes {
    MainMenu,
    Battle,
}

/// One-time battle setup flags.
pub struct BattleFlags {
    pub generated_deck: bool,
}

/// The top-level scene selector.
pub struct GameState {
    pub current_scene: GameScenes,
}

impl GameState {
    /// The menu's decision: any click on one of its buttons enters the
    /// battle scene; otherwise the scene is kept.
    pub fn handle_menu_click(&mut self, clicked: bool)
        ensures
            final(self).current_scene == if clicked {
                GameScenes::Battle
            } else {
                old(self).current_scene
            },
    {
        if clicked {
            self.current_scene = GameScenes::Battle;
        }
    }
}

} // verus!
