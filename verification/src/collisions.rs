//! Pickups and combat: what one step of the simulation does once everybody
//! has moved.  Four phases run in a fixed order: the player picks up the
//! items it touches, the enemies in range strike the player, the player's
//! open attack window hits the enemies around it, and the dead are removed.
use vstd::prelude::*;
use crate::enemy::Enemy;
use crate::events::{Actor, Event};
use crate::game::{Game, GameView, all_wf};
use crate::geometry::{Point, closer_than, is_within};
use crate::items::{Item, ItemType};
use crate::player::{Player, weapon_damage};
use crate::ui::GameState;

verus! {

/// Health a potion gives back.
pub const POTION_HEAL: i32 = 25;

/// Distance below which the player's attack hits an enemy.
pub const MELEE_RADIUS: u32 = 50_000;

/// The items that the player at `pos` touches.
pub open spec fn touched(pos: Point) -> spec_fn(Item) -> bool {
    |item: Item| item.touched_by(pos)
}

/// The items that stay in the arena: those not collected before and not
/// touched by the player at `pos`.
pub open spec fn stays(pos: Point) -> spec_fn(Item) -> bool {
    |item: Item| !item.is_collected && !item.touched_by(pos)
}

/// The items of one kind.
pub open spec fn of_kind(kind: ItemType) -> spec_fn(Item) -> bool {
    |item: Item| item.item_type == kind
}

/// The event that reports the pickup of an item.
pub open spec fn pickup_event() -> spec_fn(Item) -> Event {
    |item: Item| Event::ItemCollected(item.item_type)
}

/// The items among `items` that the player at `pos` picks up, in order.
pub open spec fn picked(items: Seq<Item>, pos: Point) -> Seq<Item> {
    items.filter(touched(pos))
}

/// How many items of one kind the player at `pos` picks up.
pub open spec fn picked_count(items: Seq<Item>, pos: Point, kind: ItemType) -> int {
    picked(items, pos).filter(of_kind(kind)).len() as int
}

/// The player after the effects of all the items it picks up: a coin each
/// for the coins, `POTION_HEAL` each for the potions, a weapon level each
/// for the upgrades.
pub open spec fn rewarded(player: Player, items: Seq<Item>) -> Player {
    let pos = player.position;
    player.with_coins(picked_count(items, pos, ItemType::Coin)).healed(
        POTION_HEAL * picked_count(items, pos, ItemType::Potion),
    ).upgraded(picked_count(items, pos, ItemType::WeaponUpgrade))
}

/// The quest count after the player at `pos` has picked up its items; it
/// stops at `total`.
pub open spec fn quest_after(collected: u32, total: u32, items: Seq<Item>, pos: Point) -> int {
    let sum = collected + picked_count(items, pos, ItemType::QuestArtifact);
    if sum > total {
        total as int
    } else {
        sum
    }
}

impl GameView {
    /// The session after the pickup phase.
    pub open spec fn after_pickup(self) -> GameView {
        GameView {
            player: rewarded(self.player, self.items),
            items: self.items.filter(stays(self.player.position)),
            quest_items_collected: quest_after(
                self.quest_items_collected,
                self.total_quest_items,
                self.items,
                self.player.position,
            ) as u32,
            ..self
        }
    }

    /// The events of the pickup phase: one for each item picked up, in the
    /// order of the items, then one for the quest if its count changed.
    pub open spec fn pickup_events(self) -> Seq<Event> {
        let after = self.after_pickup();
        picked(self.items, self.player.position).map_values(pickup_event()) + (
        if after.quest_items_collected != self.quest_items_collected {
            seq![
                Event::QuestProgress {
                    collected: after.quest_items_collected,
                    total: self.total_quest_items,
                },
            ]
        } else {
            Seq::empty()
        })
    }
}

/// How the pickup of the first `i + 1` items follows from that of the
/// first `i`.
proof fn lemma_pickup_next(items: Seq<Item>, i: int, pos: Point)
    requires
        0 <= i < items.len(),
    ensures
        picked(items.take(i + 1), pos) == if items[i].touched_by(pos) {
            picked(items.take(i), pos).push(items[i])
        } else {
            picked(items.take(i), pos)
        },
        forall|kind: ItemType| #[trigger]
            picked_count(items.take(i + 1), pos, kind) == picked_count(items.take(i), pos, kind) + (
            if items[i].touched_by(pos) && items[i].item_type == kind {
                1int
            } else {
                0int
            }),
        items.take(i + 1).filter(stays(pos)) == if stays(pos)(items[i]) {
            items.take(i).filter(stays(pos)).push(items[i])
        } else {
            items.take(i).filter(stays(pos))
        },
        picked(items.take(i + 1), pos).map_values(pickup_event()) == if items[i].touched_by(pos) {
            picked(items.take(i), pos).map_values(pickup_event()).push(
                Event::ItemCollected(items[i].item_type),
            )
        } else {
            picked(items.take(i), pos).map_values(pickup_event())
        },
{
    let before = items.take(i);
    let item = items[i];
    items.lemma_take_succ_push(i);
    before.lemma_filter_push(item, touched(pos));
    before.lemma_filter_push(item, stays(pos));
    assert forall|kind: ItemType| #[trigger]
        picked_count(items.take(i + 1), pos, kind) == picked_count(before, pos, kind) + (
        if item.touched_by(pos) && item.item_type == kind {
            1int
        } else {
            0int
        }) by {
        picked(before, pos).lemma_filter_push(item, of_kind(kind));
    }
    picked(before, pos).lemma_push_map_commute(pickup_event(), item);
}

impl Game {
    /// The pickup phase: the player collects every item it touches and
    /// gets its effect; collected items leave the arena.
    pub fn collect_items(&mut self) -> (events: Vec<Event>)
        requires
            old(self).wf(),
        ensures
            final(self)@ == old(self)@.after_pickup(),
            events@ == old(self)@.pickup_events(),
            final(self).wf(),
    {
        let ghost start = self@;
        let pos = self.player.position;
        let quest_before = self.quest_items_collected;
        let mut events: Vec<Event> = Vec::new();
        let mut kept: Vec<Item> = Vec::new();
        let mut i: usize = 0;
        assert(start.items.take(0) =~= Seq::<Item>::empty());
        assert(picked(Seq::<Item>::empty(), pos) =~= Seq::<Item>::empty()) by {
            reveal(Seq::filter);
        }
        assert(Seq::<Item>::empty().filter(stays(pos)) =~= Seq::<Item>::empty()) by {
            reveal(Seq::filter);
        }
        assert(forall|kind: ItemType| #[trigger]
            picked_count(Seq::<Item>::empty(), pos, kind) == 0) by {
            reveal(Seq::filter);
        }
        while i < self.items.len()
            invariant
                i <= self.items.len(),
                start.wf(),
                start == old(self)@,
                pos == start.player.position,
                self@ == (GameView {
                    player: self.player,
                    quest_items_collected: self.quest_items_collected,
                    ..start
                }),
                self.player == rewarded(start.player, start.items.take(i as int)),
                self.quest_items_collected == quest_after(
                    start.quest_items_collected,
                    start.total_quest_items,
                    start.items.take(i as int),
                    pos,
                ),
                kept@ == start.items.take(i as int).filter(stays(pos)),
                events@ == picked(start.items.take(i as int), pos).map_values(pickup_event()),
            decreases self.items.len() - i,
        {
            proof {
                lemma_pickup_next(start.items, i as int, pos);
            }
            let mut item = self.items[i];
            if !item.is_collected && item.is_colliding_with_player(pos) {
                let kind = item.collect();
                match kind {
                    ItemType::Coin => {
                        self.player.add_coin();
                    },
                    ItemType::Potion => {
                        self.player.heal(POTION_HEAL);
                    },
                    ItemType::WeaponUpgrade => {
                        self.player.upgrade_weapon();
                    },
                    ItemType::QuestArtifact => {
                        if self.quest_items_collected < self.total_quest_items {
                            self.quest_items_collected = self.quest_items_collected + 1;
                        }
                    },
                }
                events.push(Event::ItemCollected(kind));
            }
            if !item.is_collected {
                kept.push(item);
            }
            i = i + 1;
        }
        assert(start.items.take(i as int) =~= start.items);
        if self.quest_items_collected != quest_before {
            events.push(
                Event::QuestProgress {
                    collected: self.quest_items_collected,
                    total: self.total_quest_items,
                },
            );
        }
        self.items = kept;
        events
    }
}

/// The enemy can strike the player at `pos`: it is alive, its cool-down
/// has run out and the player is in range.
pub open spec fn strikes(enemy: Enemy, pos: Point) -> bool {
    enemy.ready() && enemy.in_range(pos)
}

/// The enemies that strike the player at `pos`.
pub open spec fn striking(pos: Point) -> spec_fn(Enemy) -> bool {
    |enemy: Enemy| strikes(enemy, pos)
}

/// What the strike phase does to an enemy: one that strikes starts its
/// cool-down.
pub open spec fn after_strike(pos: Point) -> spec_fn(Enemy) -> Enemy {
    |enemy: Enemy|
        if strikes(enemy, pos) {
            enemy.cooling()
        } else {
            enemy
        }
}

/// The event that reports an enemy's strike.
pub open spec fn strike_event() -> spec_fn(Enemy) -> Event {
    |enemy: Enemy|
        Event::DamageDealt {
            source: Actor::Enemy(enemy.enemy_type),
            target: Actor::Player,
            amount: enemy.enemy_type.strike_damage() as i32,
        }
}

/// Sum of the damage of all the enemies that strike the player at `pos`.
pub open spec fn strike_total(enemies: Seq<Enemy>, pos: Point) -> int
    decreases enemies.len(),
{
    if enemies.len() == 0 {
        0
    } else {
        strike_total(enemies.drop_last(), pos) + if strikes(enemies.last(), pos) {
            enemies.last().enemy_type.strike_damage()
        } else {
            0
        }
    }
}

/// The player's open attack window reaches the enemy.
pub open spec fn hit_by(enemy: Enemy, player: Player) -> bool {
    player.is_attacking && enemy.is_alive && closer_than(
        enemy.position,
        player.position,
        MELEE_RADIUS as int,
    )
}

/// The enemies that the player's attack hits.
pub open spec fn hit(player: Player) -> spec_fn(Enemy) -> bool {
    |enemy: Enemy| hit_by(enemy, player)
}

/// What the player's attack does to an enemy: one that is hit takes the
/// damage of the player's weapon.
pub open spec fn after_hit(player: Player) -> spec_fn(Enemy) -> Enemy {
    |enemy: Enemy|
        if hit_by(enemy, player) {
            enemy.damaged(weapon_damage(player.weapon_level as int))
        } else {
            enemy
        }
}

/// The event that reports a hit of the player's attack.
pub open spec fn hit_event(player: Player) -> spec_fn(Enemy) -> Event {
    |enemy: Enemy|
        Event::DamageDealt {
            source: Actor::Player,
            target: Actor::Enemy(enemy.enemy_type),
            amount: weapon_damage(player.weapon_level as int) as i32,
        }
}

/// The living enemies.
pub open spec fn alive() -> spec_fn(Enemy) -> bool {
    |enemy: Enemy| enemy.is_alive
}

/// The dead enemies.
pub open spec fn dead() -> spec_fn(Enemy) -> bool {
    |enemy: Enemy| !enemy.is_alive
}

/// The event that reports an enemy's death.
pub open spec fn death_event() -> spec_fn(Enemy) -> Event {
    |enemy: Enemy| Event::ActorDied(Actor::Enemy(enemy.enemy_type))
}

impl GameView {
    /// The session after the strike phase: every enemy that can strike
    /// does so and starts its cool-down, the player takes the sum of the
    /// damage, and a game being played is over if that kills the player.
    pub open spec fn after_strikes(self) -> GameView {
        let pos = self.player.position;
        let player = self.player.damaged(strike_total(self.enemies, pos));
        GameView {
            player,
            enemies: self.enemies.map_values(after_strike(pos)),
            game_state: if self.game_state == GameState::Playing && player.health <= 0 {
                GameState::GameOver
            } else {
                self.game_state
            },
            ..self
        }
    }

    /// The events of the strike phase: one for each strike, in the order
    /// of the enemies, then the player's death and the end of the game
    /// where they happen.
    pub open spec fn strike_events(self) -> Seq<Event> {
        let after = self.after_strikes();
        self.enemies.filter(striking(self.player.position)).map_values(strike_event()) + (
        if self.player.health > 0 && after.player.health <= 0 {
            seq![Event::ActorDied(Actor::Player)]
        } else {
            Seq::empty()
        }) + (if after.game_state != self.game_state {
            seq![Event::PhaseChanged(GameState::GameOver)]
        } else {
            Seq::empty()
        })
    }

    /// The session after the player's attack: while the attack window is
    /// open, every living enemy within `MELEE_RADIUS` takes the damage of
    /// the player's weapon.
    pub open spec fn after_melee(self) -> GameView {
        GameView { enemies: self.enemies.map_values(after_hit(self.player)), ..self }
    }

    /// The events of the player's attack: one for each enemy hit, in the
    /// order of the enemies.
    pub open spec fn melee_events(self) -> Seq<Event> {
        self.enemies.filter(hit(self.player)).map_values(hit_event(self.player))
    }

    /// The session without its dead enemies.
    pub open spec fn after_purge(self) -> GameView {
        GameView { enemies: self.enemies.filter(alive()), ..self }
    }

    /// The events of the purge: one for each enemy removed, in the order
    /// of the enemies.
    pub open spec fn purge_events(self) -> Seq<Event> {
        self.enemies.filter(dead()).map_values(death_event())
    }

    /// The session after pickups and combat: the four phases in their
    /// order.
    pub open spec fn resolved(self) -> GameView {
        self.after_pickup().after_strikes().after_melee().after_purge()
    }

    /// The events of pickups and combat: those of the four phases in their
    /// order.
    pub open spec fn resolution_events(self) -> Seq<Event> {
        let picked_up = self.after_pickup();
        let struck = picked_up.after_strikes();
        let fought = struck.after_melee();
        self.pickup_events() + picked_up.strike_events() + struck.melee_events()
            + fought.purge_events()
    }
}

/// No filter lets anything out of an empty sequence.
proof fn lemma_filter_empty<A>(pred: spec_fn(A) -> bool)
    ensures
        Seq::<A>::empty().filter(pred) == Seq::<A>::empty(),
{
    reveal(Seq::filter);
}

/// How the strikes of the first `i + 1` enemies follow from those of the
/// first `i`.
proof fn lemma_strike_next(enemies: Seq<Enemy>, i: int, pos: Point)
    requires
        0 <= i < enemies.len(),
    ensures
        strike_total(enemies.take(i), pos) >= 0,
        strike_total(enemies.take(i + 1), pos) == strike_total(enemies.take(i), pos) + if strikes(
            enemies[i],
            pos,
        ) {
            enemies[i].enemy_type.strike_damage()
        } else {
            0
        },
        enemies.take(i + 1).filter(striking(pos)).map_values(strike_event()) == if strikes(
            enemies[i],
            pos,
        ) {
            enemies.take(i).filter(striking(pos)).map_values(strike_event()).push(
                strike_event()(enemies[i]),
            )
        } else {
            enemies.take(i).filter(striking(pos)).map_values(strike_event())
        },
    decreases i,
{
    let before = enemies.take(i);
    let enemy = enemies[i];
    enemies.lemma_take_succ_push(i);
    assert(enemies.take(i + 1).drop_last() =~= before);
    before.lemma_filter_push(enemy, striking(pos));
    before.filter(striking(pos)).lemma_push_map_commute(strike_event(), enemy);
    if i > 0 {
        lemma_strike_next(enemies, i - 1, pos);
    }
}

/// How the hits on the first `i + 1` enemies follow from those on the
/// first `i`; the same for the removal of the dead.
proof fn lemma_filter_map_next<A, B>(
    s: Seq<A>,
    i: int,
    pred: spec_fn(A) -> bool,
    f: spec_fn(A) -> B,
)
    requires
        0 <= i < s.len(),
    ensures
        s.take(i + 1).filter(pred) == if pred(s[i]) {
            s.take(i).filter(pred).push(s[i])
        } else {
            s.take(i).filter(pred)
        },
        s.take(i + 1).filter(pred).map_values(f) == if pred(s[i]) {
            s.take(i).filter(pred).map_values(f).push(f(s[i]))
        } else {
            s.take(i).filter(pred).map_values(f)
        },
{
    s.lemma_take_succ_push(i);
    s.take(i).lemma_filter_push(s[i], pred);
    s.take(i).filter(pred).lemma_push_map_commute(f, s[i]);
}

/// A predicate that holds of nothing filters everything out.
proof fn lemma_filter_none<A>(s: Seq<A>, pred: spec_fn(A) -> bool)
    requires
        forall|i: int| 0 <= i < s.len() ==> !pred(#[trigger] s[i]),
    ensures
        s.filter(pred) == Seq::<A>::empty(),
    decreases s.len(),
{
    reveal(Seq::filter);
    if s.len() > 0 {
        lemma_filter_none(s.drop_last(), pred);
    }
}

/// The pickup phase keeps the invariants of a session; the quest count
/// does not go down and stays within its total; the player loses no health.
proof fn lemma_pickup_keeps_invariants(g: GameView)
    requires
        g.wf(),
    ensures
        g.after_pickup().wf(),
        g.quest_items_collected <= g.after_pickup().quest_items_collected <= g.total_quest_items,
        g.after_pickup().player.health >= g.player.health,
        forall|i: int|
            0 <= i < g.after_pickup().items.len() ==> !(#[trigger] g.after_pickup().items[i]).is_collected,
{
    let pos = g.player.position;
    assert forall|i: int| 0 <= i < g.after_pickup().items.len() implies !(
    #[trigger] g.after_pickup().items[i]).is_collected by {
        g.items.lemma_filter_pred(stays(pos), i);
    }
}

/// Every enemy's strike damage is positive, so their sum is not negative
/// and no less than the damage of any single striker.
proof fn lemma_strike_total_bounds(enemies: Seq<Enemy>, pos: Point, i: int)
    requires
        0 <= i < enemies.len(),
    ensures
        strike_total(enemies, pos) >= 0,
        strikes(enemies[i], pos) ==> strike_total(enemies, pos)
            >= enemies[i].enemy_type.strike_damage(),
    decreases enemies.len(),
{
    if enemies.len() > 1 {
        if i < enemies.len() - 1 {
            lemma_strike_total_bounds(enemies.drop_last(), pos, i);
        } else {
            lemma_strike_total_bounds(enemies.drop_last(), pos, 0);
        }
    } else {
        assert(enemies.drop_last().len() == 0);
        assert(strike_total(enemies.drop_last(), pos) == 0);
    }
}

/// Where no enemy strikes, the sum of the damage is zero.
proof fn lemma_strike_total_zero(enemies: Seq<Enemy>, pos: Point)
    requires
        forall|i: int| 0 <= i < enemies.len() ==> !strikes(#[trigger] enemies[i], pos),
    ensures
        strike_total(enemies, pos) == 0,
    decreases enemies.len(),
{
    if enemies.len() > 0 {
        lemma_strike_total_zero(enemies.drop_last(), pos);
    }
}

/// The strike phase keeps the invariants of a session.
proof fn lemma_strikes_keep_invariants(g: GameView)
    requires
        g.wf(),
    ensures
        g.after_strikes().wf(),
{
    if g.enemies.len() > 0 {
        lemma_strike_total_bounds(g.enemies, g.player.position, 0);
    }
    let after = g.after_strikes();
    assert forall|i: int| 0 <= i < after.enemies.len() implies (#[trigger] after.enemies[i]).wf() by {
        assert(g.enemies[i].wf());
    }
}

/// The player's attack keeps the invariants of a session.
proof fn lemma_melee_keeps_invariants(g: GameView)
    requires
        g.wf(),
    ensures
        g.after_melee().wf(),
{
    let after = g.after_melee();
    assert forall|i: int| 0 <= i < after.enemies.len() implies (#[trigger] after.enemies[i]).wf() by {
        assert(g.enemies[i].wf());
    }
}

/// The purge keeps the invariants of a session and leaves only living
/// enemies.
proof fn lemma_purge_keeps_invariants(g: GameView)
    requires
        g.wf(),
    ensures
        g.after_purge().wf(),
        forall|i: int|
            0 <= i < g.after_purge().enemies.len() ==> (#[trigger] g.after_purge().enemies[i]).is_alive,
{
    let after = g.after_purge();
    assert forall|i: int| 0 <= i < after.enemies.len() implies (#[trigger] after.enemies[i]).wf()
        && after.enemies[i].is_alive by {
        g.enemies.lemma_filter_pred(alive(), i);
        assert(g.enemies.filter(alive()).contains(after.enemies[i]));
        g.enemies.lemma_filter_contains_rev(alive(), after.enemies[i]);
        let j = choose|j: int| 0 <= j < g.enemies.len() && g.enemies[j] == after.enemies[i];
        assert(g.enemies[j].wf());
    }
}

/// Pickups and combat keep the invariants of a session: the health of
/// the player and of every enemy stays between zero and its maximum.  The
/// quest count does not go down and stays within its total.  Afterwards
/// every enemy left is alive and no item left is collected.  The arena,
/// the quest's total and the boss latch are not touched.
pub proof fn lemma_resolution_keeps_invariants(g: GameView)
    requires
        g.wf(),
    ensures
        g.resolved().wf(),
        g.quest_items_collected <= g.resolved().quest_items_collected <= g.total_quest_items,
        g.resolved().total_quest_items == g.total_quest_items,
        g.resolved().boss_spawned == g.boss_spawned,
        g.resolved().arena == g.arena,
        forall|i: int|
            0 <= i < g.resolved().enemies.len() ==> (#[trigger] g.resolved().enemies[i]).is_alive,
        forall|i: int|
            0 <= i < g.resolved().items.len() ==> !(#[trigger] g.resolved().items[i]).is_collected,
{
    lemma_pickup_keeps_invariants(g);
    let picked_up = g.after_pickup();
    lemma_strikes_keep_invariants(picked_up);
    let struck = picked_up.after_strikes();
    lemma_melee_keeps_invariants(struck);
    let fought = struck.after_melee();
    lemma_purge_keeps_invariants(fought);
    assert(g.resolved().items == picked_up.items);
}

/// What the pickup phase does with one item.  An item that the player
/// touches is picked up: its pickup is reported and it is gone afterwards.
/// An item that the player does not touch is not picked up, and stays
/// unless it was collected before.
pub proof fn lemma_pickup_of_item(g: GameView, i: int)
    requires
        0 <= i < g.items.len(),
    ensures
        g.items[i].touched_by(g.player.position) ==> {
            &&& picked(g.items, g.player.position).contains(g.items[i])
            &&& g.pickup_events().contains(Event::ItemCollected(g.items[i].item_type))
            &&& !g.after_pickup().items.contains(g.items[i])
        },
        !g.items[i].touched_by(g.player.position) ==> {
            &&& !picked(g.items, g.player.position).contains(g.items[i])
            &&& !g.items[i].is_collected ==> g.after_pickup().items.contains(g.items[i])
        },
{
    let pos = g.player.position;
    let item = g.items[i];
    let taken = picked(g.items, pos);
    let left = g.after_pickup().items;
    if item.touched_by(pos) {
        g.items.lemma_filter_contains(touched(pos), i);
        let j = choose|j: int| 0 <= j < taken.len() && taken[j] == item;
        let reports = taken.map_values(pickup_event());
        assert(reports[j] == Event::ItemCollected(item.item_type));
        assert(g.pickup_events()[j] == reports[j]);
        if left.contains(item) {
            let k = choose|k: int| 0 <= k < left.len() && left[k] == item;
            g.items.lemma_filter_pred(stays(pos), k);
        }
    } else {
        if taken.contains(item) {
            let j = choose|j: int| 0 <= j < taken.len() && taken[j] == item;
            g.items.lemma_filter_pred(touched(pos), j);
        }
        if !item.is_collected {
            g.items.lemma_filter_contains(stays(pos), i);
        }
    }
}

/// What the strike phase does with one enemy that can strike: its strike
/// is reported with the damage of its kind, the player takes at least
/// that damage, and the enemy starts its cool-down, so that it cannot
/// strike again right away.
pub proof fn lemma_strike_of_enemy(g: GameView, i: int)
    requires
        g.wf(),
        0 <= i < g.enemies.len(),
        strikes(g.enemies[i], g.player.position),
    ensures
        g.after_strikes().enemies[i] == g.enemies[i].cooling(),
        !strikes(g.after_strikes().enemies[i], g.after_strikes().player.position),
        g.strike_events().contains(
            Event::DamageDealt {
                source: Actor::Enemy(g.enemies[i].enemy_type),
                target: Actor::Player,
                amount: g.enemies[i].enemy_type.strike_damage() as i32,
            },
        ),
        g.after_strikes().player.health <= g.player.health
            - g.enemies[i].enemy_type.strike_damage() || g.after_strikes().player.health == 0,
{
    let pos = g.player.position;
    let enemy = g.enemies[i];
    lemma_strike_total_bounds(g.enemies, pos, i);
    let strikers = g.enemies.filter(striking(pos));
    g.enemies.lemma_filter_contains(striking(pos), i);
    let j = choose|j: int| 0 <= j < strikers.len() && strikers[j] == enemy;
    let reports = strikers.map_values(strike_event());
    assert(reports[j] == strike_event()(enemy));
    assert(g.strike_events()[j] == reports[j]);
}

/// Right after the strike phase no enemy can strike: a second strike
/// phase deals no damage, reports no strike and changes nothing.
pub proof fn lemma_no_second_strike(g: GameView)
    requires
        g.wf(),
    ensures
        strike_total(g.after_strikes().enemies, g.player.position) == 0,
        g.after_strikes().enemies.filter(striking(g.player.position)) == Seq::<Enemy>::empty(),
        g.after_strikes().after_strikes() == g.after_strikes(),
{
    let pos = g.player.position;
    let after = g.after_strikes();
    assert forall|i: int| 0 <= i < after.enemies.len() implies !strikes(
        #[trigger] after.enemies[i],
        pos,
    ) by {}
    lemma_strike_total_zero(after.enemies, pos);
    lemma_filter_none(after.enemies, striking(pos));
    lemma_strikes_keep_invariants(g);
    assert(after.after_strikes().enemies =~= after.enemies);
}

/// Pickups and combat never report the entry of the boss.
pub proof fn lemma_resolution_reports_no_entry(g: GameView)
    ensures
        !g.resolution_events().contains(Event::BossSpawned),
{
    let picked_up = g.after_pickup();
    let struck = picked_up.after_strikes();
    let fought = struck.after_melee();
    let a = g.pickup_events();
    let b = picked_up.strike_events();
    let c = struck.melee_events();
    let d = fought.purge_events();
    assert forall|i: int| 0 <= i < a.len() implies a[i] != Event::BossSpawned by {}
    assert forall|i: int| 0 <= i < b.len() implies b[i] != Event::BossSpawned by {}
    assert forall|i: int| 0 <= i < c.len() implies c[i] != Event::BossSpawned by {}
    assert forall|i: int| 0 <= i < d.len() implies d[i] != Event::BossSpawned by {}
    let all = g.resolution_events();
    assert forall|i: int| 0 <= i < all.len() implies all[i] != Event::BossSpawned by {
        if i < a.len() {
            assert(all[i] == a[i]);
        } else if i < a.len() + b.len() {
            assert(all[i] == b[i - a.len()]);
        } else if i < a.len() + b.len() + c.len() {
            assert(all[i] == c[i - a.len() - b.len()]);
        } else {
            assert(all[i] == d[i - a.len() - b.len() - c.len()]);
        }
    }
}

impl Game {
    /// The strike phase: every living enemy in range whose cool-down has
    /// run out strikes the player.
    pub fn enemies_strike(&mut self) -> (events: Vec<Event>)
        requires
            old(self).wf(),
        ensures
            final(self)@ == old(self)@.after_strikes(),
            events@ == old(self)@.strike_events(),
            final(self).wf(),
    {
        let ghost start = self@;
        let pos = self.player.position;
        let health_before = self.player.health;
        let mut events: Vec<Event> = Vec::new();
        let mut i: usize = 0;
        proof {
            assert(start.enemies.take(0) =~= Seq::<Enemy>::empty());
            lemma_filter_empty(striking(pos));
        }
        while i < self.enemies.len()
            invariant
                i <= self.enemies.len(),
                start.wf(),
                start == old(self)@,
                pos == start.player.position,
                self@ == (GameView { player: self.player, enemies: self.enemies@, ..start }),
                self.enemies@.len() == start.enemies.len(),
                forall|j: int| 0 <= j < i ==> self.enemies@[j] == after_strike(pos)(start.enemies[j]),
                forall|j: int| i <= j < start.enemies.len() ==> self.enemies@[j] == start.enemies[j],
                self.player == start.player.damaged(strike_total(start.enemies.take(i as int), pos)),
                events@ == start.enemies.take(i as int).filter(striking(pos)).map_values(
                    strike_event(),
                ),
            decreases self.enemies.len() - i,
        {
            proof {
                lemma_strike_next(start.enemies, i as int, pos);
            }
            let mut enemy = self.enemies[i];
            if enemy.is_alive && enemy.is_in_attack_range(pos) && enemy.can_attack() {
                let damage = enemy.attack();
                self.player.take_damage(damage);
                events.push(
                    Event::DamageDealt {
                        source: Actor::Enemy(enemy.enemy_type),
                        target: Actor::Player,
                        amount: damage,
                    },
                );
                self.enemies[i] = enemy;
            }
            i = i + 1;
        }
        proof {
            assert(start.enemies.take(i as int) =~= start.enemies);
            assert(self.enemies@ =~= start.enemies.map_values(after_strike(pos)));
            assert forall|j: int| 0 <= j < self.enemies@.len() implies (
            #[trigger] self.enemies@[j]).wf() by {
                assert(start.enemies[j].wf());
            }
        }
        if health_before > 0 && !self.player.is_alive() {
            events.push(Event::ActorDied(Actor::Player));
        }
        if self.game_state == GameState::Playing && !self.player.is_alive() {
            self.game_state = GameState::GameOver;
            events.push(Event::PhaseChanged(GameState::GameOver));
        }
        events
    }

    /// The player's attack: while the attack window is open, every living
    /// enemy within `MELEE_RADIUS` is hit, once per call.
    pub fn player_strikes(&mut self) -> (events: Vec<Event>)
        requires
            old(self).wf(),
        ensures
            final(self)@ == old(self)@.after_melee(),
            events@ == old(self)@.melee_events(),
            final(self).wf(),
    {
        let ghost start = self@;
        let player = self.player;
        let mut events: Vec<Event> = Vec::new();
        if !player.is_attacking {
            proof {
                lemma_filter_none(start.enemies, hit(player));
                assert(start.enemies.map_values(after_hit(player)) =~= start.enemies);
            }
            return events;
        }
        let damage = player.get_attack_damage();
        let mut i: usize = 0;
        proof {
            assert(start.enemies.take(0) =~= Seq::<Enemy>::empty());
            lemma_filter_empty(hit(player));
        }
        while i < self.enemies.len()
            invariant
                i <= self.enemies.len(),
                start.wf(),
                start == old(self)@,
                player == start.player,
                player.is_attacking,
                damage == weapon_damage(player.weapon_level as int),
                self@ == (GameView { enemies: self.enemies@, ..start }),
                self.enemies@.len() == start.enemies.len(),
                forall|j: int| 0 <= j < i ==> self.enemies@[j] == after_hit(player)(start.enemies[j]),
                forall|j: int| i <= j < start.enemies.len() ==> self.enemies@[j] == start.enemies[j],
                events@ == start.enemies.take(i as int).filter(hit(player)).map_values(
                    hit_event(player),
                ),
            decreases self.enemies.len() - i,
        {
            proof {
                lemma_filter_map_next(start.enemies, i as int, hit(player), hit_event(player));
            }
            let mut enemy = self.enemies[i];
            if enemy.is_alive && is_within(enemy.position, player.position, MELEE_RADIUS as u64) {
                enemy.take_damage(damage);
                events.push(
                    Event::DamageDealt {
                        source: Actor::Player,
                        target: Actor::Enemy(enemy.enemy_type),
                        amount: damage,
                    },
                );
                self.enemies[i] = enemy;
            }
            i = i + 1;
        }
        proof {
            assert(start.enemies.take(i as int) =~= start.enemies);
            assert(self.enemies@ =~= start.enemies.map_values(after_hit(player)));
            assert forall|j: int| 0 <= j < self.enemies@.len() implies (
            #[trigger] self.enemies@[j]).wf() by {
                assert(start.enemies[j].wf());
            }
        }
        events
    }

    /// Removes the dead enemies.
    pub fn purge_dead(&mut self) -> (events: Vec<Event>)
        requires
            old(self).wf(),
        ensures
            final(self)@ == old(self)@.after_purge(),
            events@ == old(self)@.purge_events(),
            final(self).wf(),
    {
        let ghost start = self@;
        let mut events: Vec<Event> = Vec::new();
        let mut kept: Vec<Enemy> = Vec::new();
        let mut i: usize = 0;
        proof {
            assert(start.enemies.take(0) =~= Seq::<Enemy>::empty());
            lemma_filter_empty(alive());
            lemma_filter_empty(dead());
        }
        while i < self.enemies.len()
            invariant
                i <= self.enemies.len(),
                start.wf(),
                start == old(self)@,
                self@ == start,
                all_wf(kept@),
                kept@ == start.enemies.take(i as int).filter(alive()),
                events@ == start.enemies.take(i as int).filter(dead()).map_values(death_event()),
            decreases self.enemies.len() - i,
        {
            proof {
                lemma_filter_map_next(start.enemies, i as int, alive(), death_event());
                lemma_filter_map_next(start.enemies, i as int, dead(), death_event());
            }
            let enemy = self.enemies[i];
            if enemy.is_alive {
                kept.push(enemy);
            } else {
                events.push(Event::ActorDied(Actor::Enemy(enemy.enemy_type)));
            }
            i = i + 1;
        }
        assert(start.enemies.take(i as int) =~= start.enemies);
        self.enemies = kept;
        events
    }

    /// Pickups and combat of one step: the player picks up what it
    /// touches, the enemies strike, the player's attack hits, the dead are
    /// removed.  Afterwards every enemy left is alive and no item left is
    /// collected.
    pub fn check_collisions(&mut self) -> (events: Vec<Event>)
        requires
            old(self).wf(),
        ensures
            final(self)@ == old(self)@.resolved(),
            events@ == old(self)@.resolution_events(),
            final(self).wf(),
            old(self).quest_items_collected <= final(self).quest_items_collected
                <= final(self).total_quest_items,
            forall|i: int| 0 <= i < final(self)@.enemies.len() ==> (#[trigger] final(self)@.enemies[i]).is_alive,
            forall|i: int| 0 <= i < final(self)@.items.len() ==> !(#[trigger] final(self)@.items[i]).is_collected,
    {
        proof {
            lemma_resolution_keeps_invariants(self@);
        }
        let mut events = self.collect_items();
        let mut struck = self.enemies_strike();
        events.append(&mut struck);
        let mut fought = self.player_strikes();
        events.append(&mut fought);
        let mut purged = self.purge_dead();
        events.append(&mut purged);
        events
    }
}

} // verus!
