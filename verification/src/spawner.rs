//! Placement of items and enemies.  Candidate positions are drawn at
//! random; the first one that fits is taken, and a fallback position where
//! none does.  The choice among given candidates is a function of its own,
//! so that everything but the drawing is decided by proved code.
use vstd::prelude::*;
use rand::rngs::ThreadRng;
use crate::arena::{Arena, ArenaView};
use crate::enemy::{Enemy, EnemyType};
use crate::game::{Game, GameView};
use crate::geometry::{Point, circle_point, cosine, dist_sq, lemma_full_turn, lemma_unit_circle};
use crate::geometry::{point_on_circle, sine};
use crate::items::{Item, ItemType};
use crate::random::draw;

verus! {

/// Number of candidate positions tried for an item.
pub const ITEM_ATTEMPTS: u32 = 50;

/// Number of candidate positions tried for an enemy.
pub const ENEMY_ATTEMPTS: u32 = 30;

/// Number of ordinary items laid out when a game starts.
pub const AMBIENT_ITEMS: u32 = 15;

/// The part of the arena that items are scattered over:
/// `REGION_LEFT..REGION_RIGHT` by `REGION_TOP..REGION_BOTTOM`.
pub const REGION_LEFT: i32 = 100_000;

pub const REGION_RIGHT: i32 = 700_000;

pub const REGION_TOP: i32 = 100_000;

pub const REGION_BOTTOM: i32 = 500_000;

/// Free space needed around an ordinary item.
pub const ITEM_CLEARANCE: u32 = 10_000;

/// Free space needed around a quest artefact.
pub const QUEST_CLEARANCE: u32 = 15_000;

/// Free space needed around a new enemy.
pub const ENEMY_CLEARANCE: u32 = 12_000;

/// Distance a new enemy keeps from the arena's edges.
pub const ENEMY_MARGIN: u32 = 50_000;

/// Enemies appear at a distance of `RING_NEAR..RING_FAR` from the player.
pub const RING_NEAR: i32 = 150_000;

pub const RING_FAR: i32 = 300_000;

/// Centre of the standard arena, where an ordinary item goes when no
/// candidate fits.
pub const CENTER_X: i32 = 400_000;

pub const CENTER_Y: i32 = 300_000;

/// Radius of the circle around the centre on which quest artefacts go
/// when no candidate fits.  The whole circle lies in the region.
pub const QUEST_RING: u32 = 150_000;

/// `p` lies in the part of the arena that items are scattered over.
pub open spec fn in_region(p: Point) -> bool {
    REGION_LEFT <= p.x < REGION_RIGHT && REGION_TOP <= p.y < REGION_BOTTOM
}

/// `p` lies in some direction at a distance of `RING_NEAR..RING_FAR` from
/// `center`.
pub open spec fn on_ring(center: Point, p: Point) -> bool {
    exists|deg: int, dist: int|
        0 <= deg < 360 && RING_NEAR <= dist < RING_FAR && p == #[trigger] circle_point(
            center,
            deg,
            dist,
        )
}

/// The candidates are `count` positions of the region.
pub open spec fn drawn_from_region(candidates: Seq<Point>, count: int) -> bool {
    &&& candidates.len() == count
    &&& forall|i: int| 0 <= i < count ==> in_region(#[trigger] candidates[i])
}

/// The candidates are `count` positions of the ring around `center`.
pub open spec fn drawn_from_ring(candidates: Seq<Point>, center: Point, count: int) -> bool {
    &&& candidates.len() == count
    &&& forall|i: int| 0 <= i < count ==> on_ring(center, #[trigger] candidates[i])
}

/// A disc of radius `clearance` around `p` is free, and `p` is at least
/// `margin` away from the arena's edges.
pub open spec fn fits(arena: ArenaView, p: Point, clearance: u32, margin: u32) -> bool {
    &&& arena.clear_at(p, clearance)
    &&& margin <= p.x <= arena.width - margin
    &&& margin <= p.y <= arena.height - margin
}

/// The first of the candidates that fits, if any does.
pub open spec fn first_fit(
    arena: ArenaView,
    candidates: Seq<Point>,
    clearance: u32,
    margin: u32,
) -> Option<Point>
    decreases candidates.len(),
{
    if candidates.len() == 0 {
        None
    } else if fits(arena, candidates[0], clearance, margin) {
        Some(candidates[0])
    } else {
        first_fit(arena, candidates.skip(1), clearance, margin)
    }
}

/// Where the quest artefact number `index` of `total` goes when no
/// candidate fits: on the circle of radius `QUEST_RING` around the centre,
/// at the angle `360 * index / total` degrees, rounded down to a whole
/// degree.  The first artefact lies on the positive x axis, and so do all
/// of a quest without artefacts.
pub open spec fn quest_fallback_spot(index: int, total: int) -> Point {
    circle_point(Point { x: CENTER_X, y: CENTER_Y }, quest_angle(index, total), QUEST_RING as int)
}

/// Angle of the quest artefact number `index` of `total` on its circle, in
/// whole degrees.
pub open spec fn quest_angle(index: int, total: int) -> int {
    if total <= 0 {
        0
    } else {
        (360 * index) / total
    }
}

/// Kind of an ordinary item for a roll of a three-sided die.
pub open spec fn item_kind(roll: int) -> ItemType {
    if roll == 0 {
        ItemType::Coin
    } else if roll == 1 {
        ItemType::Potion
    } else {
        ItemType::WeaponUpgrade
    }
}

/// Kind of an enemy for a roll of a ten-sided die: six sides give a
/// goblin, three an orc, one a dragon.
pub open spec fn enemy_kind(roll: int) -> EnemyType {
    if 0 <= roll <= 5 {
        EnemyType::Goblin
    } else if 6 <= roll <= 8 {
        EnemyType::Orc
    } else {
        EnemyType::Dragon
    }
}

/// An ordinary item as the spawner lays it out in `arena`: on a free spot
/// of the region, or at the centre.
pub open spec fn ambient_item_ok(arena: ArenaView, item: Item) -> bool {
    &&& !item.is_collected
    &&& item.item_type != ItemType::QuestArtifact
    &&& item.position == (Point { x: CENTER_X, y: CENTER_Y }) || (in_region(item.position) && fits(
        arena,
        item.position,
        ITEM_CLEARANCE,
        0,
    ))
}

/// The quest artefact number `index` of `total` as the spawner lays it out
/// in `arena`: on a free spot of the region, or at its fallback position.
pub open spec fn quest_item_ok(arena: ArenaView, item: Item, index: int, total: int) -> bool {
    &&& !item.is_collected
    &&& item.item_type == ItemType::QuestArtifact
    &&& item.position == quest_fallback_spot(index, total) || (in_region(item.position) && fits(
        arena,
        item.position,
        QUEST_CLEARANCE,
        0,
    ))
}

/// A new enemy as the spawner sends it into `arena` against a player at
/// `player_pos`: fresh of its kind, on a free spot of the ring around the
/// player, or anywhere in the region.
pub open spec fn spawned_enemy_ok(arena: ArenaView, player_pos: Point, enemy: Enemy) -> bool {
    &&& enemy == Enemy::spawned_at(enemy.position.x, enemy.position.y, enemy.enemy_type)
    &&& in_region(enemy.position) || (on_ring(player_pos, enemy.position) && fits(
        arena,
        enemy.position,
        ENEMY_CLEARANCE,
        ENEMY_MARGIN,
    ))
}

/// The fallback positions of the quest artefacts lie on one circle around
/// the centre: each is at the distance `QUEST_RING` from the centre, to
/// within a tenth of a world unit, which is what the sine table allows.
/// They lie in the region, and the first lies on the positive x axis.
pub proof fn lemma_quest_fallback_on_circle(index: int, total: int)
    ensures
        (QUEST_RING - 100) * (QUEST_RING - 100) <= dist_sq(
            Point { x: CENTER_X, y: CENTER_Y },
            quest_fallback_spot(index, total),
        ) <= (QUEST_RING + 100) * (QUEST_RING + 100),
        in_region(quest_fallback_spot(index, total)),
        index == 0 ==> quest_fallback_spot(index, total) == (Point {
            x: (CENTER_X + QUEST_RING) as i32,
            y: CENTER_Y,
        }),
{
    let deg = quest_angle(index, total);
    let s = sine(deg);
    let c = cosine(deg);
    lemma_unit_circle(deg);
    let spot = quest_fallback_spot(index, total);
    assert(spot.x == CENTER_X + 150 * c);
    assert(spot.y == CENTER_Y + 150 * s);
    let dx = CENTER_X - spot.x;
    let dy = CENTER_Y - spot.y;
    assert(22_470_010_000 <= dx * dx + dy * dy <= 22_530_010_000) by (nonlinear_arith)
        requires
            dx == -150 * c,
            dy == -150 * s,
            998_800 <= s * s + c * c <= 1_001_200,
    ;
    if index == 0 && total > 0 {
        assert(deg == 0) by (nonlinear_arith)
            requires
                deg == 0int / total,
                total > 0,
        ;
    }
}

/// Where no candidate fits, none is chosen: the caller falls back.
pub proof fn lemma_first_fit_none(
    arena: ArenaView,
    candidates: Seq<Point>,
    clearance: u32,
    margin: u32,
)
    requires
        forall|i: int|
            0 <= i < candidates.len() ==> !fits(arena, #[trigger] candidates[i], clearance, margin),
    ensures
        first_fit(arena, candidates, clearance, margin) is None,
    decreases candidates.len(),
{
    if candidates.len() > 0 {
        let rest = candidates.skip(1);
        assert forall|i: int| 0 <= i < rest.len() implies !fits(
            arena,
            #[trigger] rest[i],
            clearance,
            margin,
        ) by {
            assert(rest[i] == candidates[i + 1]);
        }
        lemma_first_fit_none(arena, rest, clearance, margin);
    }
}

/// A chosen candidate fits, and no candidate before it does.
pub proof fn lemma_first_fit_some(
    arena: ArenaView,
    candidates: Seq<Point>,
    clearance: u32,
    margin: u32,
) -> (at: int)
    requires
        first_fit(arena, candidates, clearance, margin) is Some,
    ensures
        0 <= at < candidates.len(),
        first_fit(arena, candidates, clearance, margin) == Some(candidates[at]),
        fits(arena, candidates[at], clearance, margin),
        forall|i: int| 0 <= i < at ==> !fits(arena, #[trigger] candidates[i], clearance, margin),
    decreases candidates.len(),
{
    if fits(arena, candidates[0], clearance, margin) {
        0
    } else {
        let rest = candidates.skip(1);
        let at = lemma_first_fit_some(arena, rest, clearance, margin);
        assert(rest[at] == candidates[at + 1]);
        assert forall|i: int| 0 <= i < at + 1 implies !fits(
            arena,
            #[trigger] candidates[i],
            clearance,
            margin,
        ) by {
            if i > 0 {
                assert(rest[i - 1] == candidates[i]);
            }
        }
        at + 1
    }
}

/// Whether a disc of radius `clearance` around `p` is free in `arena` and
/// `p` is at least `margin` away from its edges.
pub fn spot_fits(arena: &Arena, p: Point, clearance: u32, margin: u32) -> (ok: bool)
    ensures
        ok == fits(arena@, p, clearance, margin),
{
    let m: i64 = margin as i64;
    arena.is_position_valid(p, clearance) && m <= p.x as i64 && p.x as i64 <= arena.width as i64
        - m && m <= p.y as i64 && p.y as i64 <= arena.height as i64 - m
}

/// The first of the candidates that fits, if any does.
pub fn first_free_spot(arena: &Arena, candidates: &Vec<Point>, clearance: u32, margin: u32) -> (spot:
    Option<Point>)
    ensures
        spot == first_fit(arena@, candidates@, clearance, margin),
{
    let mut i: usize = 0;
    assert(candidates@.skip(0) =~= candidates@);
    while i < candidates.len()
        invariant
            i <= candidates.len(),
            first_fit(arena@, candidates@, clearance, margin) == first_fit(
                arena@,
                candidates@.skip(i as int),
                clearance,
                margin,
            ),
        decreases candidates.len() - i,
    {
        let candidate = candidates[i];
        assert(candidates@.skip(i as int)[0] == candidate);
        if spot_fits(arena, candidate, clearance, margin) {
            return Some(candidate);
        }
        assert(candidates@.skip(i as int).skip(1) =~= candidates@.skip(i + 1));
        i = i + 1;
    }
    None
}

/// Kind of an ordinary item for a roll of a three-sided die.
pub fn item_kind_for(roll: i32) -> (kind: ItemType)
    ensures
        kind == item_kind(roll as int),
{
    match roll {
        0 => ItemType::Coin,
        1 => ItemType::Potion,
        _ => ItemType::WeaponUpgrade,
    }
}

/// Kind of an enemy for a roll of a ten-sided die.
pub fn enemy_kind_for(roll: i32) -> (kind: EnemyType)
    ensures
        kind == enemy_kind(roll as int),
{
    match roll {
        0..=5 => EnemyType::Goblin,
        6..=8 => EnemyType::Orc,
        _ => EnemyType::Dragon,
    }
}

/// Where the quest artefact number `index` of `total` goes when no
/// candidate fits.
pub fn quest_fallback(index: u32, total: u32) -> (p: Point)
    ensures
        p == quest_fallback_spot(index as int, total as int),
{
    let turn: u64 = if total == 0 {
        0
    } else {
        360 * (index as u64) / (total as u64)
    };
    let deg: u32 = (turn % 360) as u32;
    proof {
        lemma_full_turn(turn as int);
    }
    point_on_circle(Point { x: CENTER_X, y: CENTER_Y }, deg, QUEST_RING)
}

/// A position drawn from the region.
pub fn draw_spot(rng: &mut ThreadRng) -> (p: Point)
    ensures
        in_region(p),
{
    let x = draw(rng, REGION_LEFT, REGION_RIGHT);
    let y = draw(rng, REGION_TOP, REGION_BOTTOM);
    Point { x, y }
}

/// A position drawn from the ring around `center`.
pub fn draw_ring_spot(rng: &mut ThreadRng, center: Point) -> (p: Point)
    ensures
        on_ring(center, p),
{
    let deg = draw(rng, 0, 360);
    let dist = draw(rng, RING_NEAR, RING_FAR);
    point_on_circle(center, deg as u32, dist as u32)
}

/// `count` positions drawn from the region.
pub fn draw_spots(rng: &mut ThreadRng, count: u32) -> (spots: Vec<Point>)
    ensures
        drawn_from_region(spots@, count as int),
{
    let mut spots: Vec<Point> = Vec::new();
    let mut n: u32 = 0;
    while n < count
        invariant
            n <= count,
            spots@.len() == n,
            forall|i: int| 0 <= i < n ==> in_region(#[trigger] spots@[i]),
        decreases count - n,
    {
        let p = draw_spot(rng);
        spots.push(p);
        n = n + 1;
    }
    spots
}

/// `count` positions drawn from the ring around `center`.
pub fn draw_ring_spots(rng: &mut ThreadRng, center: Point, count: u32) -> (spots: Vec<Point>)
    ensures
        drawn_from_ring(spots@, center, count as int),
{
    let mut spots: Vec<Point> = Vec::new();
    let mut n: u32 = 0;
    while n < count
        invariant
            n <= count,
            spots@.len() == n,
            forall|i: int| 0 <= i < n ==> on_ring(center, #[trigger] spots@[i]),
        decreases count - n,
    {
        let p = draw_ring_spot(rng, center);
        spots.push(p);
        n = n + 1;
    }
    spots
}

/// A position for an item: the first of `ITEM_ATTEMPTS` positions drawn
/// from the region that fits, or `fallback` if none does.  So the position
/// is `fallback` or a free spot of the region, and it is `fallback` where
/// no spot of the region is free.
pub fn place_item(rng: &mut ThreadRng, arena: &Arena, clearance: u32, fallback: Point) -> (p: Point)
    ensures
        exists|candidates: Seq<Point>|
            {
                &&& drawn_from_region(candidates, ITEM_ATTEMPTS as int)
                &&& p == match #[trigger] first_fit(arena@, candidates, clearance, 0) {
                    Some(spot) => spot,
                    None => fallback,
                }
            },
        p == fallback || (in_region(p) && fits(arena@, p, clearance, 0)),
        (forall|q: Point| in_region(q) ==> !fits(arena@, q, clearance, 0)) ==> p == fallback,
{
    let candidates = draw_spots(rng, ITEM_ATTEMPTS);
    assert(drawn_from_region(candidates@, ITEM_ATTEMPTS as int));
    match first_free_spot(arena, &candidates, clearance, 0) {
        Some(p) => {
            proof {
                let at = lemma_first_fit_some(arena@, candidates@, clearance, 0);
                assert(in_region(candidates@[at]));
            }
            p
        },
        None => fallback,
    }
}

/// A position for an enemy: the first of `ENEMY_ATTEMPTS` positions drawn
/// from the ring around the player that fits, or, if none does, a position
/// drawn from the region.
pub fn place_enemy(rng: &mut ThreadRng, arena: &Arena, player_pos: Point) -> (p: Point)
    ensures
        exists|candidates: Seq<Point>|
            {
                &&& drawn_from_ring(candidates, player_pos, ENEMY_ATTEMPTS as int)
                &&& match #[trigger] first_fit(
                    arena@,
                    candidates,
                    ENEMY_CLEARANCE,
                    ENEMY_MARGIN,
                ) {
                    Some(spot) => p == spot,
                    None => in_region(p),
                }
            },
        in_region(p) || (on_ring(player_pos, p) && fits(arena@, p, ENEMY_CLEARANCE, ENEMY_MARGIN)),
        (forall|q: Point| on_ring(player_pos, q) ==> !fits(arena@, q, ENEMY_CLEARANCE, ENEMY_MARGIN))
            ==> in_region(p),
{
    let candidates = draw_ring_spots(rng, player_pos, ENEMY_ATTEMPTS);
    assert(drawn_from_ring(candidates@, player_pos, ENEMY_ATTEMPTS as int));
    match first_free_spot(arena, &candidates, ENEMY_CLEARANCE, ENEMY_MARGIN) {
        Some(p) => {
            proof {
                let at = lemma_first_fit_some(arena@, candidates@, ENEMY_CLEARANCE, ENEMY_MARGIN);
                assert(on_ring(player_pos, candidates@[at]));
            }
            p
        },
        None => draw_spot(rng),
    }
}

impl GameView {
    /// `after` is this session with `count` more items at the end, and
    /// nothing else changed.
    pub open spec fn with_more_items(self, after: GameView, count: int) -> bool {
        &&& after == (GameView { items: after.items, ..self })
        &&& after.items.len() == self.items.len() + count
        &&& after.items.take(self.items.len() as int) == self.items
    }

    /// `after` is this session with the ordinary items of a new game laid
    /// out after its own.
    pub open spec fn ambient_items_added(self, after: GameView) -> bool {
        &&& self.with_more_items(after, AMBIENT_ITEMS as int)
        &&& forall|k: int|
            self.items.len() <= k < after.items.len() ==> ambient_item_ok(
                self.arena,
                #[trigger] after.items[k],
            )
    }

    /// `after` is this session with its quest artefacts laid out after its
    /// other items, as many as the quest asks for.
    pub open spec fn quest_items_added(self, after: GameView) -> bool {
        &&& self.with_more_items(after, self.total_quest_items as int)
        &&& forall|k: int|
            self.items.len() <= k < after.items.len() ==> quest_item_ok(
                self.arena,
                #[trigger] after.items[k],
                k - self.items.len(),
                self.total_quest_items as int,
            )
    }

    /// This session with one more enemy.
    pub open spec fn with_enemy(self, enemy: Enemy) -> GameView {
        GameView { enemies: self.enemies.push(enemy), ..self }
    }
}

impl Game {
    /// Lays out the ordinary items of a new game: `AMBIENT_ITEMS` items of
    /// random kinds, each on a free spot of the region or, where none was
    /// found, at the centre.
    pub fn spawn_initial_items(&mut self)
        ensures
            old(self)@.ambient_items_added(final(self)@),
            old(self).wf() ==> final(self).wf(),
    {
        let ghost start = self@;
        let mut rng = rand::thread_rng();
        let mut n: u32 = 0;
        assert(start.items.take(start.items.len() as int) =~= start.items);
        while n < AMBIENT_ITEMS
            invariant
                n <= AMBIENT_ITEMS,
                start == old(self)@,
                start.with_more_items(self@, n as int),
                forall|k: int|
                    start.items.len() <= k < self@.items.len() ==> ambient_item_ok(
                        start.arena,
                        #[trigger] self@.items[k],
                    ),
            decreases AMBIENT_ITEMS - n,
        {
            let roll = draw(&mut rng, 0, 3);
            let kind = item_kind_for(roll);
            let p = place_item(
                &mut rng,
                &self.arena,
                ITEM_CLEARANCE,
                Point { x: CENTER_X, y: CENTER_Y },
            );
            let ghost before = self@.items;
            self.items.push(Item::new(p.x, p.y, kind));
            assert(self@.items.take(start.items.len() as int) =~= before.take(
                start.items.len() as int,
            ));
            n = n + 1;
        }
    }

    /// Lays out the quest artefacts: as many as the quest asks for, each
    /// on a free spot of the region or, where none was found, at its place
    /// on the circle around the centre.
    pub fn spawn_quest_items(&mut self)
        ensures
            old(self)@.quest_items_added(final(self)@),
            old(self).wf() ==> final(self).wf(),
    {
        let ghost start = self@;
        let total = self.total_quest_items;
        let mut rng = rand::thread_rng();
        let mut i: u32 = 0;
        assert(start.items.take(start.items.len() as int) =~= start.items);
        while i < total
            invariant
                i <= total,
                total == start.total_quest_items,
                start == old(self)@,
                start.with_more_items(self@, i as int),
                forall|k: int|
                    start.items.len() <= k < self@.items.len() ==> quest_item_ok(
                        start.arena,
                        #[trigger] self@.items[k],
                        k - start.items.len(),
                        total as int,
                    ),
            decreases total - i,
        {
            let fallback = quest_fallback(i, total);
            let p = place_item(&mut rng, &self.arena, QUEST_CLEARANCE, fallback);
            let ghost before = self@.items;
            self.items.push(Item::new_quest(p.x, p.y));
            assert(self@.items.take(start.items.len() as int) =~= before.take(
                start.items.len() as int,
            ));
            i = i + 1;
        }
    }

    /// Sends a new enemy in: of a random kind, on a free spot of the ring
    /// around the player or, where none was found, somewhere in the
    /// region.  Returns the enemy.
    pub fn spawn_enemy(&mut self) -> (enemy: Enemy)
        ensures
            final(self)@ == old(self)@.with_enemy(enemy),
            spawned_enemy_ok(old(self)@.arena, old(self)@.player.position, enemy),
            enemy.wf(),
            old(self).wf() ==> final(self).wf(),
    {
        let mut rng = rand::thread_rng();
        let roll = draw(&mut rng, 0, 10);
        let kind = enemy_kind_for(roll);
        let p = place_enemy(&mut rng, &self.arena, self.player.position);
        let enemy = Enemy::new(p.x, p.y, kind);
        self.enemies.push(enemy);
        enemy
    }
}

} // verus!
