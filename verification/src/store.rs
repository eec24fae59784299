//! An arena of entities indexed by handle.
//!
//! Each entity owns one optional slot per facet type.  Destruction is
//! deferred: [`EntityStore::destroy`] only marks an entity, and the mark
//! takes effect at the maintenance barrier [`EntityStore::maintain`], run
//! once per pass after all components.  In-progress iteration therefore
//! never observes an entity disappearing.

use vstd::prelude::*;

use crate::components::{Active, Button, Card, Enemy, HealthBar, Position, Rectangle, Sprite};

verus! {

/// One entity: an alive flag, a deferred-destruction mark, and an optional
/// slot per facet.
pub struct Slot {
    pub alive: bool,
    pub pending_destroy: bool,
    pub position: Option<Position>,
    pub rect: Option<Rectangle>,
    pub sprite: Option<Sprite>,
    pub card: Option<Card>,
    pub enemy: Option<Enemy>,
    pub health_bar: Option<HealthBar>,
    pub player: bool,
    pub mouse_handler: bool,
    pub button: Option<Button>,
    pub active: Option<Active>,
}

/// A freshly created entity: alive, with no facets attached.
pub open spec fn blank_slot() -> Slot {
    Slot {
        alive: true,
        pending_destroy: false,
        position: None,
        rect: None,
        sprite: None,
        card: None,
        enemy: None,
        health_bar: None,
        player: false,
        mouse_handler: false,
        button: None,
        active: None,
    }
}

/// What the maintenance barrier leaves of a slot: marked slots die and lose
/// their facets, the rest are untouched.
pub open spec fn swept_slot(s: Slot) -> Slot {
    if s.pending_destroy {
        Slot {
            alive: false,
            pending_destroy: false,
            position: None,
            rect: None,
            sprite: None,
            card: None,
            enemy: None,
            health_bar: None,
            player: false,
            mouse_handler: false,
            button: None,
            active: None,
        }
    } else {
        s
    }
}

/// The entity arena.  Handles are indices; a slot is never reused, so a
/// handle stays meaningful for the life of the store.
pub struct EntityStore {
    pub slots: Vec<Slot>,
}

impl View for EntityStore {
    type V = Seq<Slot>;

    open spec fn view(&self) -> Seq<Slot> {
        self.slots@
    }
}

impl EntityStore {
    pub fn new() -> (store: EntityStore)
        ensures
            store@ == Seq::<Slot>::empty(),
    {
        EntityStore { slots: Vec::new() }
    }

    pub fn len(&self) -> (n: usize)
        ensures
            n == self@.len(),
    {
        self.slots.len()
    }

    /// Read access to one entity, for rendering and for tests.
    pub fn slot(&self, h: usize) -> (s: &Slot)
        requires
            h < self@.len(),
        ensures
            *s == self@[h as int],
    {
        &self.slots[h]
    }

    pub fn create(&mut self) -> (h: usize)
        ensures
            h == old(self)@.len(),
            final(self)@ == old(self)@.push(blank_slot()),
    {
        let h = self.slots.len();
        self.slots.push(Slot {
            alive: true,
            pending_destroy: false,
            position: None,
            rect: None,
            sprite: None,
            card: None,
            enemy: None,
            health_bar: None,
            player: false,
            mouse_handler: false,
            button: None,
            active: None,
        });
        h
    }

    pub fn attach_position(&mut self, h: usize, p: Position)
        requires
            h < old(self)@.len(),
        ensures
            final(self)@ == old(self)@.update(
                h as int,
                (Slot { position: Some(p), ..old(self)@[h as int] }),
            ),
    {
        self.slots[h].position = Some(p);
    }

    pub fn attach_rect(&mut self, h: usize, r: Rectangle)
        requires
            h < old(self)@.len(),
        ensures
            final(self)@ == old(self)@.update(
                h as int,
                (Slot { rect: Some(r), ..old(self)@[h as int] }),
            ),
    {
        self.slots[h].rect = Some(r);
    }

    pub fn attach_sprite(&mut self, h: usize, s: Sprite)
        requires
            h < old(self)@.len(),
        ensures
            final(self)@ == old(self)@.update(
                h as int,
                (Slot { sprite: Some(s), ..old(self)@[h as int] }),
            ),
    {
        self.slots[h].sprite = Some(s);
    }

    pub fn attach_card(&mut self, h: usize, c: Card)
        requires
            h < old(self)@.len(),
        ensures
            final(self)@ == old(self)@.update(
                h as int,
                (Slot { card: Some(c), ..old(self)@[h as int] }),
            ),
    {
        self.slots[h].card = Some(c);
    }

    pub fn attach_enemy(&mut self, h: usize, e: Enemy)
        requires
            h < old(self)@.len(),
        ensures
            final(self)@ == old(self)@.update(
                h as int,
                (Slot { enemy: Some(e), ..old(self)@[h as int] }),
            ),
    {
        self.slots[h].enemy = Some(e);
    }

    pub fn attach_health_bar(&mut self, h: usize, b: HealthBar)
        requires
            h < old(self)@.len(),
        ensures
            final(self)@ == old(self)@.update(
                h as int,
                (Slot { health_bar: Some(b), ..old(self)@[h as int] }),
            ),
    {
        self.slots[h].health_bar = Some(b);
    }

    pub fn attach_button(&mut self, h: usize, b: Button)
        requires
            h < old(self)@.len(),
        ensures
            final(self)@ == old(self)@.update(
                h as int,
                (Slot { button: Some(b), ..old(self)@[h as int] }),
            ),
    {
        self.slots[h].button = Some(b);
    }

    pub fn attach_active(&mut self, h: usize, a: Active)
        requires
            h < old(self)@.len(),
        ensures
            final(self)@ == old(self)@.update(
                h as int,
                (Slot { active: Some(a), ..old(self)@[h as int] }),
            ),
    {
        self.slots[h].active = Some(a);
    }

    pub fn attach_player(&mut self, h: usize)
        requires
            h < old(self)@.len(),
        ensures
            final(self)@ == old(self)@.update(
                h as int,
                (Slot { player: true, ..old(self)@[h as int] }),
            ),
    {
        self.slots[h].player = true;
    }

    pub fn attach_mouse_handler(&mut self, h: usize)
        requires
            h < old(self)@.len(),
        ensures
            final(self)@ == old(self)@.update(
                h as int,
                (Slot { mouse_handler: true, ..old(self)@[h as int] }),
            ),
    {
        self.slots[h].mouse_handler = true;
    }

    /// Request destruction of an entity.  The entity stays observable until
    /// the next maintenance barrier.
    pub fn destroy(&mut self, h: usize)
        requires
            h < old(self)@.len(),
        ensures
            final(self)@ == old(self)@.update(
                h as int,
                (Slot { pending_destroy: true, ..old(self)@[h as int] }),
            ),
    {
        self.slots[h].pending_destroy = true;
    }

    /// The maintenance barrier: every entity marked for destruction dies and
    /// loses its facets; everything else is untouched.
    pub fn maintain(&mut self)
        ensures
            final(self)@.len() == old(self)@.len(),
            forall|i: int|
                0 <= i < old(self)@.len() ==> final(self)@[i] == swept_slot(old(self)@[i]),
    {
        let n = self.slots.len();
        let mut i: usize = 0;
        while i < n
            invariant
                n == old(self)@.len(),
                self@.len() == n,
                i <= n,
                forall|j: int| 0 <= j < i ==> self@[j] == swept_slot(old(self)@[j]),
                forall|j: int| i <= j < n ==> self@[j] == old(self)@[j],
            decreases n - i,
        {
            if self.slots[i].pending_destroy {
                self.slots[i] = Slot {
                    alive: false,
                    pending_destroy: false,
                    position: None,
                    rect: None,
                    sprite: None,
                    card: None,
                    enemy: None,
                    health_bar: None,
                    player: false,
                    mouse_handler: false,
                    button: None,
                    active: None,
                };
            }
            i = i + 1;
        }
    }
}

} // verus!
