//! Collectible items.
use vstd::prelude::*;
use crate::geometry::{Point, closer_than, is_within};

verus! {

/// Distance below which the player picks an item up.
pub const PICKUP_RADIUS: u32 = 25_000;

#[derive(Clone, Copy, Debug, PartialEq, Eq, Structural)]
pub enum ItemType {
    Coin,
    Potion,
    WeaponUpgrade,
    QuestArtifact,
}

#[derive(Clone, Copy, Debug, PartialEq, Eq, Structural)]
pub struct Item {
    pub position: Point,
    pub item_type: ItemType,
    pub is_collected: bool,
}

impl Item {
    /// The item of the given kind as placed at `(x, y)`.
    pub open spec fn placed_at(x: i32, y: i32, item_type: ItemType) -> Item {
        Item { position: Point { x, y }, item_type, is_collected: false }
    }

    /// The item is still there and the player at `player_pos` touches it.
    pub open spec fn touched_by(self, player_pos: Point) -> bool {
        !self.is_collected && closer_than(self.position, player_pos, PICKUP_RADIUS as int)
    }

    pub fn new(x: i32, y: i32, item_type: ItemType) -> (item: Item)
        ensures
            item == Item::placed_at(x, y, item_type),
    {
        Item { position: Point { x, y }, item_type, is_collected: false }
    }

    pub fn new_quest(x: i32, y: i32) -> (item: Item)
        ensures
            item == Item::placed_at(x, y, ItemType::QuestArtifact),
    {
        Item { position: Point { x, y }, item_type: ItemType::QuestArtifact, is_collected: false }
    }

    /// Marks the item as collected and tells its kind.
    pub fn collect(&mut self) -> (kind: ItemType)
        ensures
            *final(self) == (Item { is_collected: true, ..*old(self) }),
            kind == old(self).item_type,
    {
        self.is_collected = true;
        self.item_type
    }

    pub fn is_colliding_with_player(&self, player_pos: Point) -> (touching: bool)
        ensures
            touching == self.touched_by(player_pos),
    {
        if self.is_collected {
            return false;
        }
        is_within(self.position, player_pos, PICKUP_RADIUS as u64)
    }
}

} // verus!
