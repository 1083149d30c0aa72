//! The player-controlled actor: movement, the melee attack window, health,
//! coins and weapon level.
use vstd::prelude::*;
use crate::geometry::Point;

verus! {

/// Health a new player starts with, and its maximum.
pub const PLAYER_MAX_HEALTH: i32 = 100;

/// Walking speed of a new player, in world units per second.
pub const PLAYER_SPEED: i32 = 200;

/// Length of the melee attack window, in milliseconds.
pub const ATTACK_WINDOW_MS: u32 = 300;

/// Distance the player keeps from the arena's edges.
pub const EDGE_MARGIN: i32 = 20_000;

#[derive(Clone, Copy, Debug, PartialEq, Eq, Structural)]
pub enum Direction {
    Left,
    Right,
    Up,
    Down,
}

/// A velocity, in world units per second on each axis.
#[derive(Clone, Copy, Debug, PartialEq, Eq, Structural)]
pub struct Velocity {
    pub x: i32,
    pub y: i32,
}

#[derive(Clone, Copy, Debug, PartialEq, Eq, Structural)]
pub struct Player {
    pub position: Point,
    pub velocity: Velocity,
    pub health: i32,
    pub max_health: i32,
    pub coins: u32,
    pub direction: Direction,
    pub speed: i32,
    pub is_attacking: bool,
    /// Time left in the attack window, in milliseconds.
    pub attack_timer: u32,
    pub weapon_level: u32,
}

/// `v` limited to `lo..=hi`.
pub open spec fn clamp(v: int, lo: int, hi: int) -> int {
    if v < lo {
        lo
    } else if v > hi {
        hi
    } else {
        v
    }
}

/// Damage of one melee hit at the given weapon level.  The fourth level is
/// the highest with a damage of its own: higher levels deal the same.
pub open spec fn weapon_damage(level: int) -> int {
    if level == 1 {
        10
    } else if level == 2 {
        15
    } else if level == 3 {
        20
    } else {
        25
    }
}

/// Coordinate reached from `from` after `dt` milliseconds at `speed` world
/// units per second, kept `EDGE_MARGIN` inside `0..=extent`.
pub open spec fn walked(from: int, speed: int, dt: int, extent: int) -> int {
    clamp(from + speed * dt, EDGE_MARGIN as int, extent - EDGE_MARGIN)
}

impl Player {
    /// The invariants of a player.
    pub open spec fn wf(self) -> bool {
        &&& 0 <= self.health <= self.max_health
        &&& self.is_attacking ==> self.attack_timer > 0
        &&& self.weapon_level >= 1
        &&& self.speed >= 0
    }

    /// The player as created at `(x, y)`.
    pub open spec fn spawned_at(x: i32, y: i32) -> Player {
        Player {
            position: Point { x, y },
            velocity: Velocity { x: 0, y: 0 },
            health: PLAYER_MAX_HEALTH,
            max_health: PLAYER_MAX_HEALTH,
            coins: 0,
            direction: Direction::Right,
            speed: PLAYER_SPEED,
            is_attacking: false,
            attack_timer: 0,
            weapon_level: 1,
        }
    }

    /// The player after `dt` milliseconds in an arena of the given size.
    pub open spec fn advanced(self, dt: u32, width: i32, height: i32) -> Player {
        let left: int = if self.attack_timer > dt {
            self.attack_timer - dt
        } else {
            0
        };
        Player {
            position: Point {
                x: walked(self.position.x as int, self.velocity.x as int, dt as int, width as int) as i32,
                y: walked(self.position.y as int, self.velocity.y as int, dt as int, height as int) as i32,
            },
            is_attacking: self.is_attacking && left > 0,
            attack_timer: if self.is_attacking {
                left as u32
            } else {
                self.attack_timer
            },
            ..self
        }
    }

    /// The player after a movement signal.
    pub open spec fn steered(self, direction: Direction) -> Player {
        match direction {
            Direction::Left => Player {
                velocity: Velocity { x: (-self.speed) as i32, y: self.velocity.y },
                direction: Direction::Left,
                ..self
            },
            Direction::Right => Player {
                velocity: Velocity { x: self.speed, y: self.velocity.y },
                direction: Direction::Right,
                ..self
            },
            Direction::Up => Player {
                velocity: Velocity { x: self.velocity.x, y: (-self.speed) as i32 },
                ..self
            },
            Direction::Down => Player {
                velocity: Velocity { x: self.velocity.x, y: self.speed },
                ..self
            },
        }
    }

    /// The player after an attack signal: a new window opens unless one is
    /// already open.
    pub open spec fn swinging(self) -> Player {
        if self.is_attacking {
            self
        } else {
            Player { is_attacking: true, attack_timer: ATTACK_WINDOW_MS, ..self }
        }
    }

    /// The player after taking `damage`; health stops at zero, and a damage
    /// that is not positive changes nothing.
    pub open spec fn damaged(self, damage: int) -> Player {
        if damage <= 0 {
            self
        } else if damage >= self.health {
            Player { health: 0, ..self }
        } else {
            Player { health: (self.health - damage) as i32, ..self }
        }
    }

    /// The player after healing by `amount`; health stops at `max_health`,
    /// and an amount that is not positive changes nothing.
    pub open spec fn healed(self, amount: int) -> Player {
        if amount <= 0 {
            self
        } else if self.health + amount >= self.max_health {
            Player { health: self.max_health, ..self }
        } else {
            Player { health: (self.health + amount) as i32, ..self }
        }
    }

    /// The player with `n` more coins, the count stopping at `u32::MAX`.
    pub open spec fn with_coins(self, n: int) -> Player {
        Player {
            coins: if self.coins + n > u32::MAX {
                u32::MAX
            } else {
                (self.coins + n) as u32
            },
            ..self
        }
    }

    /// The player with a weapon `n` levels higher, the level stopping at
    /// `u32::MAX`.
    pub open spec fn upgraded(self, n: int) -> Player {
        Player {
            weapon_level: if self.weapon_level + n > u32::MAX {
                u32::MAX
            } else {
                (self.weapon_level + n) as u32
            },
            ..self
        }
    }

    pub fn new(x: i32, y: i32) -> (p: Player)
        ensures
            p == Player::spawned_at(x, y),
            p.wf(),
    {
        Player {
            position: Point { x, y },
            velocity: Velocity { x: 0, y: 0 },
            health: PLAYER_MAX_HEALTH,
            max_health: PLAYER_MAX_HEALTH,
            coins: 0,
            direction: Direction::Right,
            speed: PLAYER_SPEED,
            is_attacking: false,
            attack_timer: 0,
            weapon_level: 1,
        }
    }

    /// Moves the player for `dt` milliseconds, keeps it inside the arena and
    /// runs down the attack window.
    pub fn update(&mut self, dt: u32, map_width: i32, map_height: i32)
        requires
            old(self).wf(),
            map_width >= 2 * EDGE_MARGIN,
            map_height >= 2 * EDGE_MARGIN,
        ensures
            *final(self) == old(self).advanced(dt, map_width, map_height),
            final(self).wf(),
            EDGE_MARGIN <= final(self).position.x <= map_width - EDGE_MARGIN,
            EDGE_MARGIN <= final(self).position.y <= map_height - EDGE_MARGIN,
    {
        self.position.x = walk(self.position.x, self.velocity.x, dt, map_width);
        self.position.y = walk(self.position.y, self.velocity.y, dt, map_height);
        if self.is_attacking {
            if self.attack_timer > dt {
                self.attack_timer = self.attack_timer - dt;
            } else {
                self.attack_timer = 0;
                self.is_attacking = false;
            }
        }
    }

    pub fn move_direction(&mut self, direction: Direction)
        requires
            old(self).wf(),
        ensures
            *final(self) == old(self).steered(direction),
            final(self).wf(),
    {
        match direction {
            Direction::Left => {
                self.velocity.x = -self.speed;
                self.direction = Direction::Left;
            },
            Direction::Right => {
                self.velocity.x = self.speed;
                self.direction = Direction::Right;
            },
            Direction::Up => {
                self.velocity.y = -self.speed;
            },
            Direction::Down => {
                self.velocity.y = self.speed;
            },
        }
    }

    pub fn stop_movement(&mut self)
        ensures
            *final(self) == (Player { velocity: Velocity { x: 0, y: 0 }, ..*old(self) }),
    {
        self.velocity.x = 0;
        self.velocity.y = 0;
    }

    pub fn attack(&mut self)
        ensures
            *final(self) == old(self).swinging(),
            old(self).wf() ==> final(self).wf(),
            final(self).is_attacking,
    {
        if !self.is_attacking {
            self.is_attacking = true;
            self.attack_timer = ATTACK_WINDOW_MS;
        }
    }

    pub fn take_damage(&mut self, damage: i32)
        ensures
            *final(self) == old(self).damaged(damage as int),
            old(self).wf() ==> final(self).wf(),
    {
        if damage > 0 {
            if damage >= self.health {
                self.health = 0;
            } else {
                self.health = self.health - damage;
            }
        }
    }

    pub fn heal(&mut self, amount: i32)
        ensures
            *final(self) == old(self).healed(amount as int),
            old(self).wf() ==> final(self).wf(),
    {
        if amount > 0 {
            if self.health as i64 + amount as i64 >= self.max_health as i64 {
                self.health = self.max_health;
            } else {
                self.health = self.health + amount;
            }
        }
    }

    pub fn add_coin(&mut self)
        ensures
            *final(self) == old(self).with_coins(1),
            old(self).wf() ==> final(self).wf(),
    {
        if self.coins < u32::MAX {
            self.coins = self.coins + 1;
        }
    }

    pub fn upgrade_weapon(&mut self)
        ensures
            *final(self) == old(self).upgraded(1),
            old(self).wf() ==> final(self).wf(),
    {
        if self.weapon_level < u32::MAX {
            self.weapon_level = self.weapon_level + 1;
        }
    }

    pub fn get_attack_damage(&self) -> (damage: i32)
        ensures
            damage == weapon_damage(self.weapon_level as int),
    {
        if self.weapon_level == 1 {
            10
        } else if self.weapon_level == 2 {
            15
        } else if self.weapon_level == 3 {
            20
        } else {
            25
        }
    }

    pub fn is_alive(&self) -> (alive: bool)
        ensures
            alive == (self.health > 0),
    {
        self.health > 0
    }
}

/// One axis of the player's movement.
pub fn walk(from: i32, speed: i32, dt: u32, extent: i32) -> (to: i32)
    requires
        extent >= 2 * EDGE_MARGIN,
    ensures
        to == walked(from as int, speed as int, dt as int, extent as int),
        EDGE_MARGIN <= to <= extent - EDGE_MARGIN,
{
    assert(-0x8000_0000 * 0xffff_ffff <= speed * dt <= 0x7fff_ffff * 0xffff_ffff)
        by (nonlinear_arith)
        requires
            -0x8000_0000 <= speed <= 0x7fff_ffff,
            0 <= dt <= 0xffff_ffff,
    ;
    let travel: i64 = (speed as i64) * (dt as i64);
    let target: i128 = from as i128 + travel as i128;
    let lo: i32 = EDGE_MARGIN;
    let hi: i32 = extent - EDGE_MARGIN;
    if target < lo as i128 {
        lo
    } else if target > hi as i128 {
        hi
    } else {
        target as i32
    }
}

} // verus!
