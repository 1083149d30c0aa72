//! Hostile actors: their kinds and fixed stats, pursuit of the player, and
//! the attack cool-down.
use vstd::prelude::*;
use crate::geometry::{Point, abs_diff, clamp_i32, closer_than, dist_sq, distance};
use crate::geometry::{distance_squared, integer_sqrt, is_within};

verus! {

/// Distance below which an enemy can strike the player.
pub const ATTACK_RANGE: u32 = 30_000;

/// Time an enemy waits between two strikes, in milliseconds.
pub const ATTACK_COOLDOWN_MS: u32 = 1500;

/// Distance to the player at or below which an enemy stops approaching.
pub const DEAD_ZONE: u32 = 10_000;

#[derive(Clone, Copy, Debug, PartialEq, Eq, Structural)]
pub enum EnemyType {
    Goblin,
    Orc,
    Dragon,
}

#[derive(Clone, Copy, Debug, PartialEq, Eq, Structural)]
pub struct Enemy {
    pub position: Point,
    pub health: i32,
    pub max_health: i32,
    pub enemy_type: EnemyType,
    /// World units per second.
    pub speed: i32,
    /// Time until the next strike is allowed, in milliseconds.
    pub attack_timer: u32,
    pub is_alive: bool,
}

impl EnemyType {
    /// Health an enemy of this kind starts with.
    pub open spec fn base_health(self) -> int {
        match self {
            EnemyType::Goblin => 30,
            EnemyType::Orc => 60,
            EnemyType::Dragon => 120,
        }
    }

    /// Speed of an enemy of this kind, in world units per second.
    pub open spec fn base_speed(self) -> int {
        match self {
            EnemyType::Goblin => 80,
            EnemyType::Orc => 50,
            EnemyType::Dragon => 40,
        }
    }

    /// Damage of one strike by an enemy of this kind.
    pub open spec fn strike_damage(self) -> int {
        match self {
            EnemyType::Goblin => 5,
            EnemyType::Orc => 10,
            EnemyType::Dragon => 20,
        }
    }
}

/// Coordinate reached from `from` when moving `travel` along a segment of
/// length `dist` whose far end has the coordinate `to`, limited to the range
/// of an `i32`.
pub open spec fn approach(from: int, to: int, travel: int, dist: int) -> int {
    if to >= from {
        clamp_i32(from + ((to - from) * travel) / dist)
    } else {
        clamp_i32(from - ((from - to) * travel) / dist)
    }
}

impl Enemy {
    /// The invariants of an enemy.
    pub open spec fn wf(self) -> bool {
        &&& 0 <= self.health <= self.max_health
        &&& self.is_alive == (self.health > 0)
        &&& self.speed >= 0
    }

    /// The enemy of the given kind as created at `(x, y)`.
    pub open spec fn spawned_at(x: i32, y: i32, enemy_type: EnemyType) -> Enemy {
        Enemy {
            position: Point { x, y },
            health: enemy_type.base_health() as i32,
            max_health: enemy_type.base_health() as i32,
            enemy_type,
            speed: enemy_type.base_speed() as i32,
            attack_timer: 0,
            is_alive: true,
        }
    }

    /// The enemy after `dt` milliseconds of pursuing `target`.
    pub open spec fn advanced(self, dt: u32, target: Point) -> Enemy {
        if !self.is_alive {
            self
        } else {
            let dist = distance(self.position, target);
            let travel = self.speed * dt;
            Enemy {
                position: if dist_sq(self.position, target) > DEAD_ZONE * DEAD_ZONE {
                    Point {
                        x: approach(self.position.x as int, target.x as int, travel, dist) as i32,
                        y: approach(self.position.y as int, target.y as int, travel, dist) as i32,
                    }
                } else {
                    self.position
                },
                attack_timer: if self.attack_timer > dt {
                    (self.attack_timer - dt) as u32
                } else {
                    0
                },
                ..self
            }
        }
    }

    /// The enemy after taking `damage`; health stops at zero, where the
    /// enemy dies, and a damage that is not positive changes nothing.
    pub open spec fn damaged(self, damage: int) -> Enemy {
        if damage <= 0 {
            self
        } else if damage >= self.health {
            Enemy { health: 0, is_alive: false, ..self }
        } else {
            Enemy { health: (self.health - damage) as i32, ..self }
        }
    }

    /// The enemy is alive and its cool-down has run out.
    pub open spec fn ready(self) -> bool {
        self.attack_timer == 0 && self.is_alive
    }

    /// The enemy right after a strike.
    pub open spec fn cooling(self) -> Enemy {
        Enemy { attack_timer: ATTACK_COOLDOWN_MS, ..self }
    }

    /// The enemy is close enough to `target` to strike it.
    pub open spec fn in_range(self, target: Point) -> bool {
        closer_than(self.position, target, ATTACK_RANGE as int)
    }

    pub fn new(x: i32, y: i32, enemy_type: EnemyType) -> (e: Enemy)
        ensures
            e == Enemy::spawned_at(x, y, enemy_type),
            e.wf(),
    {
        let (health, speed): (i32, i32) = match enemy_type {
            EnemyType::Goblin => (30, 80),
            EnemyType::Orc => (60, 50),
            EnemyType::Dragon => (120, 40),
        };
        Enemy {
            position: Point { x, y },
            health,
            max_health: health,
            enemy_type,
            speed,
            attack_timer: 0,
            is_alive: true,
        }
    }

    /// Moves a living enemy towards the player and runs down its cool-down.
    pub fn update(&mut self, dt: u32, player_pos: Point)
        requires
            old(self).wf(),
        ensures
            *final(self) == old(self).advanced(dt, player_pos),
            final(self).wf(),
    {
        if !self.is_alive {
            return ;
        }
        let d2: u128 = distance_squared(self.position, player_pos);
        if d2 > (DEAD_ZONE as u128) * (DEAD_ZONE as u128) {
            let dist: u64 = integer_sqrt(d2);
            assert(dist > 0) by (nonlinear_arith)
                requires
                    d2 > 0,
                    d2 < (dist + 1) * (dist + 1),
                    dist >= 0,
            ;
            assert(0 <= self.speed * dt <= 0x7fff_ffff * 0xffff_ffff) by (nonlinear_arith)
                requires
                    0 <= self.speed <= 0x7fff_ffff,
                    0 <= dt <= 0xffff_ffff,
            ;
            let travel: u64 = (self.speed as u64) * (dt as u64);
            self.position.x = approach_towards(self.position.x, player_pos.x, travel, dist);
            self.position.y = approach_towards(self.position.y, player_pos.y, travel, dist);
        }
        if self.attack_timer > dt {
            self.attack_timer = self.attack_timer - dt;
        } else {
            self.attack_timer = 0;
        }
    }

    pub fn take_damage(&mut self, damage: i32)
        ensures
            *final(self) == old(self).damaged(damage as int),
            old(self).wf() ==> final(self).wf(),
    {
        if damage > 0 {
            if damage >= self.health {
                self.health = 0;
                self.is_alive = false;
            } else {
                self.health = self.health - damage;
            }
        }
    }

    pub fn can_attack(&self) -> (ready: bool)
        ensures
            ready == self.ready(),
    {
        self.attack_timer == 0 && self.is_alive
    }

    /// Starts the cool-down and returns the damage of the strike.
    pub fn attack(&mut self) -> (damage: i32)
        ensures
            *final(self) == old(self).cooling(),
            damage == old(self).enemy_type.strike_damage(),
            old(self).wf() ==> final(self).wf(),
    {
        self.attack_timer = ATTACK_COOLDOWN_MS;
        match self.enemy_type {
            EnemyType::Goblin => 5,
            EnemyType::Orc => 10,
            EnemyType::Dragon => 20,
        }
    }

    pub fn is_in_attack_range(&self, player_pos: Point) -> (near: bool)
        ensures
            near == self.in_range(player_pos),
    {
        is_within(self.position, player_pos, ATTACK_RANGE as u64)
    }
}

/// One axis of an enemy's step towards the player.
pub fn approach_towards(from: i32, to: i32, travel: u64, dist: u64) -> (reached: i32)
    requires
        dist > 0,
    ensures
        reached == approach(from as int, to as int, travel as int, dist as int),
{
    let gap: u128 = abs_diff(to, from) as u128;
    assert(0 <= gap * travel <= 0xffff_ffff * 0xffff_ffff_ffff_ffff) by (nonlinear_arith)
        requires
            0 <= gap <= 0xffff_ffff,
            0 <= travel <= 0xffff_ffff_ffff_ffff,
    ;
    let moved: u128 = gap * (travel as u128) / (dist as u128);
    let target: i128 = if to >= from {
        from as i128 + moved as i128
    } else {
        from as i128 - moved as i128
    };
    if target < i32::MIN as i128 {
        i32::MIN
    } else if target > i32::MAX as i128 {
        i32::MAX
    } else {
        target as i32
    }
}

} // verus!
