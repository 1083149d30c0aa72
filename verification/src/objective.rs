//! The quest: once every artefact is collected the boss is sent in, once
//! and for all, and the game is won when no dragon is left alive.
use vstd::prelude::*;
use crate::enemy::{Enemy, EnemyType};
use crate::events::Event;
use crate::game::{Game, GameView};
use crate::ui::GameState;

verus! {

/// Where the boss enters the arena.
pub const BOSS_X: i32 = 400_000;

pub const BOSS_Y: i32 = 100_000;

/// The enemy is a living dragon.
pub open spec fn is_boss(enemy: Enemy) -> bool {
    enemy.is_alive && enemy.enemy_type == EnemyType::Dragon
}

/// Some enemy of the sequence is a living dragon.
pub open spec fn boss_alive(enemies: Seq<Enemy>) -> bool {
    exists|i: int| 0 <= i < enemies.len() && is_boss(#[trigger] enemies[i])
}

impl GameView {
    /// The boss as it enters the arena.
    pub open spec fn boss() -> Enemy {
        Enemy::spawned_at(BOSS_X, BOSS_Y, EnemyType::Dragon)
    }

    /// The session after the order to send the boss in: the boss joins the
    /// enemies and the latch is set, unless the latch was set already.
    pub open spec fn boss_sent(self) -> GameView {
        if self.boss_spawned {
            self
        } else {
            GameView { enemies: self.enemies.push(GameView::boss()), boss_spawned: true, ..self }
        }
    }

    /// Every quest artefact has been collected.
    pub open spec fn quest_complete(self) -> bool {
        self.quest_items_collected >= self.total_quest_items
    }

    /// The quest is complete and the boss has not been sent in yet.
    pub open spec fn boss_due(self) -> bool {
        self.game_state == GameState::Playing && self.quest_complete() && !self.boss_spawned
    }

    /// The session after the objective has been looked at.  Only a game
    /// being played changes: the boss is sent in when it is due, and the
    /// game is won when the quest is complete, the boss has been sent in
    /// and no dragon is alive.
    pub open spec fn after_objective(self) -> GameView {
        if self.game_state != GameState::Playing {
            self
        } else {
            let summoned = if self.boss_due() {
                self.boss_sent()
            } else {
                self
            };
            if summoned.quest_complete() && summoned.boss_spawned && !boss_alive(
                summoned.enemies,
            ) {
                GameView { game_state: GameState::Victory, ..summoned }
            } else {
                summoned
            }
        }
    }

    /// The events of looking at the objective: the boss's entry and the
    /// victory, where they happen.
    pub open spec fn objective_events(self) -> Seq<Event> {
        (if self.boss_due() {
            seq![Event::BossSpawned]
        } else {
            Seq::empty()
        }) + (if self.after_objective().game_state != self.game_state {
            seq![Event::PhaseChanged(GameState::Victory)]
        } else {
            Seq::empty()
        })
    }
}

/// Sending the boss in twice is the same as sending it in once.
pub proof fn lemma_boss_sent_once(g: GameView)
    ensures
        g.boss_sent().boss_sent() == g.boss_sent(),
        g.boss_sent().boss_spawned,
{
}

/// Once the latch is set, looking at the objective never sends a boss in
/// again: it adds no enemy, reports no entry and leaves the latch set.
pub proof fn lemma_boss_latched(g: GameView)
    requires
        g.boss_spawned,
    ensures
        g.after_objective().enemies == g.enemies,
        g.after_objective().boss_spawned,
        !g.objective_events().contains(Event::BossSpawned),
{
    let events = g.objective_events();
    assert forall|i: int| 0 <= i < events.len() implies events[i] != Event::BossSpawned by {}
}

/// The entry of the boss is reported exactly when the latch goes from
/// clear to set, and then the boss is the enemy added last.
pub proof fn lemma_boss_entry(g: GameView)
    ensures
        g.objective_events().contains(Event::BossSpawned) <==> (!g.boss_spawned
            && g.after_objective().boss_spawned),
        g.boss_due() ==> g.after_objective().enemies == g.enemies.push(GameView::boss()),
        !g.boss_due() ==> g.after_objective().enemies == g.enemies,
        g.boss_spawned ==> g.after_objective().boss_spawned,
{
    let events = g.objective_events();
    if g.boss_due() {
        assert(events[0] == Event::BossSpawned);
    } else {
        assert forall|i: int| 0 <= i < events.len() implies events[i] != Event::BossSpawned by {}
    }
}

/// A game that is won or lost stays so: looking at the objective changes
/// nothing and reports nothing.
pub proof fn lemma_final_phase_kept(g: GameView)
    requires
        g.game_state != GameState::Playing,
    ensures
        g.after_objective() == g,
        g.objective_events() == Seq::<Event>::empty(),
{
}

/// With the quest complete, the boss sent in and no dragon alive, a game
/// being played is won at once.
pub proof fn lemma_victory(g: GameView)
    requires
        g.game_state == GameState::Playing,
        g.quest_complete(),
        g.boss_spawned,
        !boss_alive(g.enemies),
    ensures
        g.after_objective().game_state == GameState::Victory,
{
}

impl Game {
    /// Sends the boss in, unless it has been sent in before.  Tells
    /// whether it did.
    pub fn spawn_boss(&mut self) -> (sent: bool)
        ensures
            final(self)@ == old(self)@.boss_sent(),
            sent == !old(self).boss_spawned,
            old(self).wf() ==> final(self).wf(),
    {
        if !self.boss_spawned {
            let boss = Enemy::new(BOSS_X, BOSS_Y, EnemyType::Dragon);
            self.enemies.push(boss);
            self.boss_spawned = true;
            true
        } else {
            false
        }
    }

    /// Whether a dragon is alive.
    pub fn is_boss_alive(&self) -> (found: bool)
        ensures
            found == boss_alive(self@.enemies),
    {
        let mut i: usize = 0;
        while i < self.enemies.len()
            invariant
                i <= self.enemies.len(),
                forall|j: int| 0 <= j < i ==> !is_boss(#[trigger] self.enemies@[j]),
            decreases self.enemies.len() - i,
        {
            let enemy = self.enemies[i];
            if enemy.is_alive && enemy.enemy_type == EnemyType::Dragon {
                assert(is_boss(self.enemies@[i as int]));
                return true;
            }
            i = i + 1;
        }
        false
    }

    /// Looks at the objective: sends the boss in when it is due, and
    /// declares victory when the quest is complete, the boss has been sent
    /// in and no dragon is alive.  A game that is won or lost is left
    /// alone.
    pub fn check_quest_progress(&mut self) -> (events: Vec<Event>)
        ensures
            final(self)@ == old(self)@.after_objective(),
            events@ == old(self)@.objective_events(),
            old(self).wf() ==> final(self).wf(),
    {
        let mut events: Vec<Event> = Vec::new();
        if self.game_state != GameState::Playing {
            assert(events@ =~= old(self)@.objective_events());
            return events;
        }
        if self.quest_items_collected >= self.total_quest_items && !self.boss_spawned {
            self.spawn_boss();
            events.push(Event::BossSpawned);
        }
        if self.boss_spawned && self.quest_items_collected >= self.total_quest_items {
            let alive = self.is_boss_alive();
            if !alive {
                self.game_state = GameState::Victory;
                events.push(Event::PhaseChanged(GameState::Victory));
            }
        }
        assert(events@ =~= old(self)@.objective_events());
        events
    }
}

} // verus!
