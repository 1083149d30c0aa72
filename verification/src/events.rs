//! What happened during a step of the simulation, as data.
use vstd::prelude::*;
use crate::enemy::EnemyType;
use crate::items::ItemType;
use crate::ui::GameState;

verus! {

/// Who dealt or took damage, or died.
#[derive(Clone, Copy, Debug, PartialEq, Eq, Structural)]
pub enum Actor {
    Player,
    Enemy(EnemyType),
}

#[derive(Clone, Copy, Debug, PartialEq, Eq, Structural)]
pub enum Event {
    /// The player picked up an item of this kind.
    ItemCollected(ItemType),
    /// `source` struck `target`; `amount` is the nominal damage of the blow.
    DamageDealt { source: Actor, target: Actor, amount: i32 },
    /// The actor's health reached zero.
    ActorDied(Actor),
    /// The number of collected quest artefacts changed.
    QuestProgress { collected: u32, total: u32 },
    /// The boss entered the arena.
    BossSpawned,
    /// The game entered this phase.
    PhaseChanged(GameState),
}

} // verus!
