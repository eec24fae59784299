//! The facets that can be attached to an entity: layout data, sprite
//! references, gameplay data and UI affordances.
//!
//! Coordinates and extents are integer pixel values.  Arithmetic on them
//! saturates at the ends of the `i64` range, so every operation is total.

use vstd::prelude::*;

verus! {

/// `v` clamped into the `i64` range.
pub open spec fn sat_i64(v: int) -> i64 {
    if v < i64::MIN {
        i64::MIN
    } else if v > i64::MAX {
        i64::MAX
    } else {
        v as i64
    }
}

/// Saturating `i64` addition.
pub(crate) fn sat_add64(a: i64, b: i64) -> (r: i64)
    ensures
        r == sat_i64(a + b),
{
    match a.checked_add(b) {
        Some(r) => r,
        None => if b >= 0 {
            i64::MAX
        } else {
            i64::MIN
        },
    }
}

/// Saturating `i64` subtraction.
pub(crate) fn sat_sub64(a: i64, b: i64) -> (r: i64)
    ensures
        r == sat_i64(a - b),
{
    match a.checked_sub(b) {
        Some(r) => r,
        None => if b >= 0 {
            i64::MIN
        } else {
            i64::MAX
        },
    }
}

/// Saturating `i64` multiplication.
pub(crate) fn sat_mul64(a: i64, b: i64) -> (r: i64)
    ensures
        r == sat_i64(a * b),
{
    match a.checked_mul(b) {
        Some(r) => r,
        None => {
            proof {
                if a == 0 || b == 0 {
                    assert(a * b == 0) by (nonlinear_arith)
                        requires
                            a == 0 || b == 0,
                    ;
                } else if a > 0 && b > 0 {
                    assert(a * b > 0) by (nonlinear_arith)
                        requires
                            a > 0 && b > 0,
                    ;
                } else if a < 0 && b < 0 {
                    assert(a * b > 0) by (nonlinear_arith)
                        requires
                            a < 0 && b < 0,
                    ;
                } else {
                    assert(a * b < 0) by (nonlinear_arith)
                        requires
                            (a < 0 && b > 0) || (a > 0 && b < 0),
                    ;
                }
            }
            if (a > 0) == (b > 0) {
                i64::MAX
            } else {
                i64::MIN
            }
        },
    }
}

/// Top-left anchor of an entity, in integer pixels.
#[derive(Debug, PartialEq, Eq, Structural, Clone, Copy)]
pub struct Position {
    pub x: i64,
    pub y: i64,
}

impl Position {
    pub fn new(x: i64, y: i64) -> (p: Position)
        ensures
            p.x == x,
            p.y == y,
    {
        Position { x, y }
    }

    /// Componentwise vector sum, saturating at the ends of the range.
    pub fn plus(self, other: Position) -> (r: Position)
        ensures
            r.x == sat_i64(self.x + other.x),
            r.y == sat_i64(self.y + other.y),
    {
        Position { x: sat_add64(self.x, other.x), y: sat_add64(self.y, other.y) }
    }

    /// Componentwise vector difference, saturating at the ends of the
    /// range.
    pub fn minus(self, other: Position) -> (r: Position)
        ensures
            r.x == sat_i64(self.x - other.x),
            r.y == sat_i64(self.y - other.y),
    {
        Position { x: sat_sub64(self.x, other.x), y: sat_sub64(self.y, other.y) }
    }

    /// Uniform scaling, saturating at the ends of the range.
    pub fn scaled(self, factor: i64) -> (r: Position)
        ensures
            r.x == sat_i64(self.x * factor),
            r.y == sat_i64(self.y * factor),
    {
        Position { x: sat_mul64(self.x, factor), y: sat_mul64(self.y, factor) }
    }

    /// The opposite vector, saturating at the ends of the range.
    pub fn negated(self) -> (r: Position)
        ensures
            r.x == sat_i64(-self.x),
            r.y == sat_i64(-self.y),
    {
        Position { x: sat_sub64(0, self.x), y: sat_sub64(0, self.y) }
    }
}

/// Axis-aligned bounding-box size, paired with a `Position` to form a
/// rectangle.
#[derive(Debug, PartialEq, Eq, Structural, Clone, Copy)]
pub struct Rectangle {
    pub width: i64,
    pub height: i64,
}

/// A lookup key into the texture collaborator plus a uniform scale factor.
#[derive(Debug)]
pub struct Sprite {
    pub texture_path: String,
    pub scale: u32,
}

/// Immutable gameplay data of a playable card; cloned into the damage queue
/// when the card is played.
#[derive(Debug)]
pub struct Card {
    pub value: i8,
    pub name: String,
    pub effect_description: String,
}

impl Clone for Card {
    fn clone(&self) -> (res: Card)
        ensures
            res == *self,
    {
        Card {
            value: self.value,
            name: self.name.clone(),
            effect_description: self.effect_description.clone(),
        }
    }
}

/// An enemy: `open` starts false (face down) and flips true on the first
/// successful card drop.
#[derive(Debug)]
pub struct Enemy {
    pub name: String,
    pub health: i8,
    pub attack: i8,
    pub open: bool,
}

impl Clone for Enemy {
    fn clone(&self) -> (res: Enemy)
        ensures
            res == *self,
    {
        Enemy {
            name: self.name.clone(),
            health: self.health,
            attack: self.attack,
            open: self.open,
        }
    }
}

/// Display-and-logic mirror of a health pool; `current` stays in
/// `[0, max]`.
#[derive(Debug, PartialEq, Eq, Structural, Clone, Copy)]
pub struct HealthBar {
    pub max: i8,
    pub current: i8,
}

impl HealthBar {
    pub fn new(health: i8) -> (bar: HealthBar)
        ensures
            bar.max == health,
            bar.current == health,
    {
        HealthBar { max: health, current: health }
    }
}

/// Marks the single player-controlled health pool.
#[derive(Debug, PartialEq, Eq, Structural, Clone, Copy)]
pub struct Player;

/// Marks the singleton entity that stands for the drag cursor.
#[derive(Debug, PartialEq, Eq, Structural, Clone, Copy)]
pub struct Mousehandler;

/// A clickable UI affordance.
#[derive(Debug)]
pub struct Button {
    pub text: String,
    pub action: String,
    pub color: [u8; 3],
    pub hover: bool,
}

impl Button {
    pub fn new(text: String, action: String) -> (b: Button)
        ensures
            b.text == text,
            b.action == action,
            b.color == [200u8, 55u8, 50u8],
            !b.hover,
    {
        Button { text, action, color: [200, 55, 50], hover: false }
    }
}

impl Clone for Button {
    fn clone(&self) -> (res: Button)
        ensures
            res == *self,
    {
        Button {
            text: self.text.clone(),
            action: self.action.clone(),
            color: self.color,
            hover: self.hover,
        }
    }
}

/// Gates whether an entity with a `Sprite` is rendered.
#[derive(Debug, PartialEq, Eq, Structural, Clone, Copy)]
pub struct Active(pub bool);

impl Active {
    /// Most spawned entities start visible; the drag cursor is the
    /// exception and is spawned with `Active(false)`.
    pub fn default() -> (a: Active)
        ensures
            a.0,
    {
        Active(true)
    }
}

} // verus!
