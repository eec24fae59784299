//! Catalogs of card and enemy definitions, and the initial deck.
//!
//! Definitions are loaded once at startup by the caller and handed over as
//! plain lists; the catalog assigns each a stable small-integer key by load
//! order.  The initial deck is ten cards drawn at random from the card
//! catalog.

use vstd::prelude::*;

use crate::components::{Card, Enemy};
use crate::{CardID, EnemyID};

verus! {

/// The card catalog: key `k` names the `k`-th definition handed over at
/// startup.
pub struct CardDB {
    pub cards: Vec<Card>,
}

impl View for CardDB {
    type V = Seq<Card>;

    open spec fn view(&self) -> Seq<Card> {
        self.cards@
    }
}

impl CardDB {
    /// Builds the catalog from the startup list; keys are assigned by load
    /// order.
    pub fn from_list(list: Vec<Card>) -> (db: CardDB)
        ensures
            db@ == list@,
    {
        CardDB { cards: list }
    }

    pub fn len(&self) -> (n: usize)
        ensures
            n == self@.len(),
    {
        self.cards.len()
    }

    pub fn get(&self, id: CardID) -> (c: Option<&Card>)
        ensures
            id < self@.len() ==> (c matches Some(card) && *card == self@[id as int]),
            id >= self@.len() ==> c is None,
    {
        if id < self.cards.len() as u64 {
            Some(&self.cards[id as usize])
        } else {
            None
        }
    }
}

/// The enemy catalog: key `k` names the `k`-th definition handed over at
/// startup.
pub struct EnemiesDB {
    pub enemies: Vec<Enemy>,
}

impl View for EnemiesDB {
    type V = Seq<Enemy>;

    open spec fn view(&self) -> Seq<Enemy> {
        self.enemies@
    }
}

impl EnemiesDB {
    /// Builds the catalog from the startup list; keys are assigned by load
    /// order.
    pub fn from_list(list: Vec<Enemy>) -> (db: EnemiesDB)
        ensures
            db@ == list@,
    {
        EnemiesDB { enemies: list }
    }

    pub fn len(&self) -> (n: usize)
        ensures
            n == self@.len(),
    {
        self.enemies.len()
    }

    pub fn get(&self, id: EnemyID) -> (e: Option<&Enemy>)
        ensures
            id < self@.len() ==> (e matches Some(enemy) && *enemy == self@[id as int]),
            id >= self@.len() ==> e is None,
    {
        if id < self.enemies.len() as u64 {
            Some(&self.enemies[id as usize])
        } else {
            None
        }
    }
}

/// Relies on rand::random_range on `0..n`: the thread-local generator
/// returns a uniformly distributed value of the range, and panics only on an
/// empty range, which the precondition rules out.  Nothing more can be
/// promised of a random value than its bound.
#[verifier::external_body]
fn random_index(n: usize) -> (r: usize)
    requires
        n > 0,
    ensures
        r < n,
{
    rand::random_range(0..n)
}

/// Draws the starting deck: ten keys picked at random from the card
/// catalog.  Every drawn key is a valid catalog key.
pub fn generate_intial_deck(cards_db: &CardDB) -> (deck: Vec<CardID>)
    requires
        cards_db@.len() > 0,
    ensures
        deck@.len() == 10,
        forall|i: int| 0 <= i < deck@.len() ==> deck@[i] < cards_db@.len(),
{
    let mut deck: Vec<CardID> = Vec::new();
    let n = cards_db.len();
    let mut k: usize = 0;
    while k < 10
        invariant
            n == cards_db@.len(),
            n > 0,
            k <= 10,
            deck@.len() == k,
            forall|i: int| 0 <= i < deck@.len() ==> deck@[i] < n,
        decreases 10 - k,
    {
        let index = random_index(n);
        deck.push(index as u64);
        k = k + 1;
    }
    deck
}

} // verus!
