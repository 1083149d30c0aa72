//! One step of the simulation.  A step moves everybody, lets the spawner
//! send in an enemy when one is due, resolves pickups and combat, and looks
//! at the objective, in this order.  A game that is won or lost does not
//! step any more.
use vstd::prelude::*;
use crate::collisions::{lemma_resolution_keeps_invariants, lemma_resolution_reports_no_entry};
use crate::enemy::Enemy;
use crate::events::Event;
use crate::game::{Game, GameView};
use crate::geometry::Point;
use crate::objective::{boss_alive, lemma_boss_entry};
use crate::spawner::spawned_enemy_ok;
use crate::ui::GameState;

verus! {

/// Time between two enemies, in milliseconds.
pub const SPAWN_INTERVAL_MS: u32 = 3000;

/// Number of enemies at which the spawner holds back.
pub const MAX_ENEMIES: usize = 8;

/// What `dt` milliseconds of pursuing `target` do to an enemy.
pub open spec fn pursuing(dt: u32, target: Point) -> spec_fn(Enemy) -> Enemy {
    |enemy: Enemy| enemy.advanced(dt, target)
}

impl GameView {
    /// The session after everybody has moved for `dt` milliseconds: the
    /// player first, then each enemy towards where the player is now.
    /// The clock and the spawn timer have run on; both stop at the end of
    /// their ranges.
    pub open spec fn moved(self, dt: u32) -> GameView {
        let player = self.player.advanced(dt, self.arena.width, self.arena.height);
        GameView {
            player,
            enemies: self.enemies.map_values(pursuing(dt, player.position)),
            spawn_timer: if self.spawn_timer > dt {
                (self.spawn_timer - dt) as u32
            } else {
                0
            },
            game_time: if self.game_time + dt > u64::MAX {
                u64::MAX
            } else {
                (self.game_time + dt) as u64
            },
            ..self
        }
    }

    /// An enemy is due: the spawn timer has run out and there is room for
    /// one more.
    pub open spec fn spawn_due(self) -> bool {
        self.spawn_timer == 0 && self.enemies.len() < MAX_ENEMIES
    }

    /// The session after the spawner's turn: where it spawned an enemy,
    /// the enemy has joined and the spawn timer starts again.
    pub open spec fn populated(self, spawned: Option<Enemy>) -> GameView {
        match spawned {
            Some(enemy) => GameView { spawn_timer: SPAWN_INTERVAL_MS, ..self.with_enemy(enemy) },
            None => self,
        }
    }

    /// What the spawner may do in a step of `dt` milliseconds: it spawns
    /// an enemy exactly when one is due after everybody has moved, and
    /// then one that it may send in against the player where it is now.
    pub open spec fn spawn_allowed(self, dt: u32, spawned: Option<Enemy>) -> bool {
        if self.game_state == GameState::Playing && self.moved(dt).spawn_due() {
            spawned is Some && spawned_enemy_ok(
                self.arena,
                self.moved(dt).player.position,
                spawned->0,
            )
        } else {
            spawned is None
        }
    }

    /// The session after a step of `dt` milliseconds in which the spawner
    /// did `spawned`.
    pub open spec fn stepped(self, dt: u32, spawned: Option<Enemy>) -> GameView {
        if self.game_state != GameState::Playing {
            self
        } else {
            self.moved(dt).populated(spawned).resolved().after_objective()
        }
    }

    /// The events of a step of `dt` milliseconds in which the spawner did
    /// `spawned`: those of pickups and combat, then those of the
    /// objective.
    pub open spec fn step_events(self, dt: u32, spawned: Option<Enemy>) -> Seq<Event> {
        if self.game_state != GameState::Playing {
            Seq::empty()
        } else {
            let ready = self.moved(dt).populated(spawned);
            ready.resolution_events() + ready.resolved().objective_events()
        }
    }
}

/// Moving keeps the invariants of a session.
proof fn lemma_moving_keeps_invariants(g: GameView, dt: u32)
    requires
        g.wf(),
    ensures
        g.moved(dt).wf(),
{
    let after = g.moved(dt);
    assert forall|i: int| 0 <= i < after.enemies.len() implies (#[trigger] after.enemies[i]).wf() by {
        assert(g.enemies[i].wf());
    }
}

/// A step keeps the invariants of a session, whatever the spawner does
/// within what it may do: after every step the health of the player and of
/// every enemy lies between zero and its maximum.  The quest count does
/// not go down and stays within its total, which does not change.  The
/// arena does not change.
pub proof fn lemma_step_keeps_invariants(g: GameView, dt: u32, spawned: Option<Enemy>)
    requires
        g.wf(),
        g.spawn_allowed(dt, spawned),
    ensures
        g.stepped(dt, spawned).wf(),
        0 <= g.stepped(dt, spawned).player.health <= g.stepped(dt, spawned).player.max_health,
        forall|i: int|
            0 <= i < g.stepped(dt, spawned).enemies.len() ==> 0 <= (
            #[trigger] g.stepped(dt, spawned).enemies[i]).health <= g.stepped(
                dt,
                spawned,
            ).enemies[i].max_health,
        g.quest_items_collected <= g.stepped(dt, spawned).quest_items_collected
            <= g.total_quest_items,
        g.stepped(dt, spawned).total_quest_items == g.total_quest_items,
        g.stepped(dt, spawned).arena == g.arena,
{
    if g.game_state == GameState::Playing {
        lemma_moving_keeps_invariants(g, dt);
        let ready = g.moved(dt).populated(spawned);
        assert(ready.wf());
        lemma_resolution_keeps_invariants(ready);
        let settled = ready.resolved();
        lemma_boss_entry(settled);
        let after = settled.after_objective();
        assert forall|i: int| 0 <= i < after.enemies.len() implies (#[trigger] after.enemies[i]).wf() by {
            if i < settled.enemies.len() {
                assert(settled.enemies[i].wf());
            }
        }
    }
    let after = g.stepped(dt, spawned);
    assert forall|i: int| 0 <= i < after.enemies.len() implies 0 <= (
    #[trigger] after.enemies[i]).health <= after.enemies[i].max_health by {
        assert(after.enemies[i].wf());
    }
}

/// The boss enters at most once in a session.  A step reports the entry
/// of the boss exactly when it sets the latch, which it can only do while
/// the latch is clear; and no step clears the latch.
pub proof fn lemma_step_boss_latch(g: GameView, dt: u32, spawned: Option<Enemy>)
    ensures
        g.boss_spawned ==> g.stepped(dt, spawned).boss_spawned,
        g.step_events(dt, spawned).contains(Event::BossSpawned) <==> (!g.boss_spawned && g.stepped(
            dt,
            spawned,
        ).boss_spawned),
{
    let events = g.step_events(dt, spawned);
    if g.game_state == GameState::Playing {
        let ready = g.moved(dt).populated(spawned);
        let settled = ready.resolved();
        lemma_resolution_reports_no_entry(ready);
        lemma_boss_entry(settled);
        let first = ready.resolution_events();
        let second = settled.objective_events();
        assert(settled.boss_spawned == g.boss_spawned);
        if second.contains(Event::BossSpawned) {
            let j = choose|j: int| 0 <= j < second.len() && second[j] == Event::BossSpawned;
            assert(events[first.len() + j] == Event::BossSpawned);
        }
        if events.contains(Event::BossSpawned) {
            let i = choose|i: int| 0 <= i < events.len() && events[i] == Event::BossSpawned;
            if i < first.len() {
                assert(first[i] == Event::BossSpawned);
            } else {
                assert(second[i - first.len()] == Event::BossSpawned);
            }
        }
    }
}

/// The step in which the last dragon falls is the step of victory: if,
/// once pickups and combat are resolved, the game is still being played,
/// the quest is complete, the boss has been sent in and no dragon is
/// alive, the game is won at the end of that step.
pub proof fn lemma_step_to_victory(g: GameView, dt: u32, spawned: Option<Enemy>)
    requires
        g.game_state == GameState::Playing,
        g.moved(dt).populated(spawned).resolved().game_state == GameState::Playing,
        g.moved(dt).populated(spawned).resolved().quest_complete(),
        g.moved(dt).populated(spawned).resolved().boss_spawned,
        !boss_alive(g.moved(dt).populated(spawned).resolved().enemies),
    ensures
        g.stepped(dt, spawned).game_state == GameState::Victory,
{
}

impl Game {
    /// Moves everybody for `dt` milliseconds and lets the clock and the
    /// spawn timer run on.
    pub fn advance(&mut self, dt: u32)
        requires
            old(self).wf(),
        ensures
            final(self)@ == old(self)@.moved(dt),
            final(self).wf(),
    {
        let ghost start = self@;
        self.game_time = if self.game_time > u64::MAX - dt as u64 {
            u64::MAX
        } else {
            self.game_time + dt as u64
        };
        self.player.update(dt, self.arena.width, self.arena.height);
        let target = self.player.position;
        let mut i: usize = 0;
        while i < self.enemies.len()
            invariant
                i <= self.enemies.len(),
                start.wf(),
                self@ == (GameView {
                    enemies: self.enemies@,
                    spawn_timer: start.spawn_timer,
                    ..start.moved(dt)
                }),
                target == self.player.position,
                self.enemies@.len() == start.enemies.len(),
                forall|j: int|
                    0 <= j < i ==> self.enemies@[j] == (#[trigger] start.enemies[j]).advanced(
                        dt,
                        target,
                    ),
                forall|j: int| i <= j < start.enemies.len() ==> self.enemies@[j] == start.enemies[j],
            decreases self.enemies.len() - i,
        {
            let mut enemy = self.enemies[i];
            assert(start.enemies[i as int].wf());
            enemy.update(dt, target);
            self.enemies[i] = enemy;
            i = i + 1;
        }
        proof {
            assert(self.enemies@ =~= start.enemies.map_values(pursuing(dt, target)));
            assert forall|j: int| 0 <= j < self.enemies@.len() implies (
            #[trigger] self.enemies@[j]).wf() by {
                assert(start.enemies[j].wf());
            }
        }
        self.spawn_timer = if self.spawn_timer > dt {
            self.spawn_timer - dt
        } else {
            0
        };
    }

    /// One step of the simulation, `dt` milliseconds long.  Returns what
    /// happened.  A game that is won or lost is left as it is.
    ///
    /// The step is the one that [`GameView::stepped`] describes, for
    /// something that the spawner may do.  Whatever the spawner does, the
    /// invariants of the session hold afterwards, the quest count has not
    /// gone down, and the boss has entered in this step exactly if the
    /// latch went from clear to set.
    pub fn update(&mut self, dt: u32) -> (events: Vec<Event>)
        requires
            old(self).wf(),
        ensures
            final(self).wf(),
            exists|spawned: Option<Enemy>|
                {
                    &&& old(self)@.spawn_allowed(dt, spawned)
                    &&& final(self)@ == #[trigger] old(self)@.stepped(dt, spawned)
                    &&& events@ == old(self)@.step_events(dt, spawned)
                },
            old(self).game_state != GameState::Playing ==> final(self)@ == old(self)@ && events@
                == Seq::<Event>::empty(),
            old(self).quest_items_collected <= final(self).quest_items_collected
                <= final(self).total_quest_items,
            final(self).total_quest_items == old(self).total_quest_items,
            final(self)@.arena == old(self)@.arena,
            old(self).boss_spawned ==> final(self).boss_spawned,
            events@.contains(Event::BossSpawned) <==> (!old(self).boss_spawned && final(self).boss_spawned),
    {
        let ghost start = self@;
        if self.game_state != GameState::Playing {
            let events: Vec<Event> = Vec::new();
            proof {
                let none: Option<Enemy> = None;
                assert(start.spawn_allowed(dt, none));
                assert(self@ == start.stepped(dt, none));
                assert(events@ == start.step_events(dt, none));
                lemma_step_boss_latch(start, dt, none);
            }
            return events;
        }
        self.advance(dt);
        let mut spawned: Option<Enemy> = None;
        if self.spawn_timer == 0 && self.enemies.len() < MAX_ENEMIES {
            let enemy = self.spawn_enemy();
            self.spawn_timer = SPAWN_INTERVAL_MS;
            spawned = Some(enemy);
        }
        assert(self@ == start.moved(dt).populated(spawned));
        let mut events = self.check_collisions();
        let mut verdict = self.check_quest_progress();
        events.append(&mut verdict);
        proof {
            assert(start.spawn_allowed(dt, spawned));
            assert(self@ == start.stepped(dt, spawned));
            assert(events@ == start.step_events(dt, spawned));
            lemma_step_keeps_invariants(start, dt, spawned);
            lemma_step_boss_latch(start, dt, spawned);
        }
        events
    }
}

} // verus!
