//! The state of one game session and its mathematical model.
use vstd::prelude::*;
use crate::arena::{Arena, ArenaView};
use crate::enemy::Enemy;
use crate::items::Item;
use crate::player::{EDGE_MARGIN, Player};
use crate::spawner::{AMBIENT_ITEMS, CENTER_X, CENTER_Y, ambient_item_ok, quest_item_ok};
use crate::ui::GameState;

verus! {

/// Width and height of the arena of a new game.
pub const ARENA_WIDTH: i32 = 800_000;

pub const ARENA_HEIGHT: i32 = 600_000;

/// Number of quest artefacts of a new game.
pub const QUEST_ITEMS: u32 = 5;

/// Time until the first enemy of a new game is due, in milliseconds.
pub const FIRST_SPAWN_MS: u32 = 2000;

/// Everything a session holds.  The session owns its player, its enemies,
/// its items and its arena; the steps of the simulation are its methods.
#[derive(Debug)]
pub struct Game {
    pub player: Player,
    pub enemies: Vec<Enemy>,
    pub items: Vec<Item>,
    pub arena: Arena,
    pub game_state: GameState,
    /// Time until the next enemy is due, in milliseconds.
    pub spawn_timer: u32,
    pub quest_items_collected: u32,
    pub total_quest_items: u32,
    /// Set once the boss has been sent in; never cleared.
    pub boss_spawned: bool,
    /// Time played so far, in milliseconds.
    pub game_time: u64,
}

/// The state of a session as plain mathematical data.
pub struct GameView {
    pub player: Player,
    pub enemies: Seq<Enemy>,
    pub items: Seq<Item>,
    pub arena: ArenaView,
    pub game_state: GameState,
    pub spawn_timer: u32,
    pub quest_items_collected: u32,
    pub total_quest_items: u32,
    pub boss_spawned: bool,
    pub game_time: u64,
}

impl View for Game {
    type V = GameView;

    open spec fn view(&self) -> GameView {
        GameView {
            player: self.player,
            enemies: self.enemies@,
            items: self.items@,
            arena: self.arena@,
            game_state: self.game_state,
            spawn_timer: self.spawn_timer,
            quest_items_collected: self.quest_items_collected,
            total_quest_items: self.total_quest_items,
            boss_spawned: self.boss_spawned,
            game_time: self.game_time,
        }
    }
}

/// Every enemy of the sequence satisfies its invariants.
pub open spec fn all_wf(enemies: Seq<Enemy>) -> bool {
    forall|i: int| 0 <= i < enemies.len() ==> (#[trigger] enemies[i]).wf()
}

impl GameView {
    /// The invariants of a session: those of its player and enemies, a
    /// quest count within its total, a living player while the game is
    /// being played, and an arena the player fits in.
    pub open spec fn wf(self) -> bool {
        &&& self.player.wf()
        &&& all_wf(self.enemies)
        &&& self.quest_items_collected <= self.total_quest_items
        &&& self.game_state == GameState::Playing ==> self.player.health > 0
        &&& self.arena.width >= 2 * EDGE_MARGIN
        &&& self.arena.height >= 2 * EDGE_MARGIN
    }
}

impl GameView {
    /// A new game before its items are laid out: the player stands at the
    /// centre of the standard arena, in full health, and nothing has
    /// happened yet.
    pub open spec fn blank() -> GameView {
        GameView {
            player: Player::spawned_at(CENTER_X, CENTER_Y),
            enemies: Seq::empty(),
            items: Seq::empty(),
            arena: ArenaView::laid_out(ARENA_WIDTH, ARENA_HEIGHT),
            game_state: GameState::Playing,
            spawn_timer: FIRST_SPAWN_MS,
            quest_items_collected: 0,
            total_quest_items: QUEST_ITEMS,
            boss_spawned: false,
            game_time: 0,
        }
    }

    /// The session is a new game: a blank one with `AMBIENT_ITEMS`
    /// ordinary items laid out, and `QUEST_ITEMS` quest artefacts after
    /// them.  Where the items lie and of which kind the ordinary ones are
    /// is left to chance.
    pub open spec fn is_fresh(self) -> bool {
        &&& self == (GameView { items: self.items, ..GameView::blank() })
        &&& self.items.len() == AMBIENT_ITEMS + QUEST_ITEMS
        &&& forall|k: int|
            0 <= k < AMBIENT_ITEMS ==> ambient_item_ok(self.arena, #[trigger] self.items[k])
        &&& forall|k: int|
            AMBIENT_ITEMS <= k < AMBIENT_ITEMS + QUEST_ITEMS ==> quest_item_ok(
                self.arena,
                #[trigger] self.items[k],
                k - AMBIENT_ITEMS,
                QUEST_ITEMS as int,
            )
    }
}

impl Game {
    /// Starts a new game.
    pub fn new() -> (game: Game)
        ensures
            game@.is_fresh(),
            game.wf(),
    {
        let mut game = Game {
            player: Player::new(CENTER_X, CENTER_Y),
            enemies: Vec::new(),
            items: Vec::new(),
            arena: Arena::new(ARENA_WIDTH, ARENA_HEIGHT),
            game_state: GameState::Playing,
            spawn_timer: FIRST_SPAWN_MS,
            quest_items_collected: 0,
            total_quest_items: QUEST_ITEMS,
            boss_spawned: false,
            game_time: 0,
        };
        assert(game@ == GameView::blank());
        game.spawn_initial_items();
        let ghost mid = game@;
        game.spawn_quest_items();
        proof {
            assert forall|k: int| 0 <= k < AMBIENT_ITEMS implies ambient_item_ok(
                game@.arena,
                #[trigger] game@.items[k],
            ) by {
                assert(game@.items.take(mid.items.len() as int)[k] == mid.items[k]);
            }
        }
        game
    }

    /// The invariants of a session, see [`GameView::wf`].
    pub open spec fn wf(&self) -> bool {
        self@.wf()
    }

    /// Tests the invariants of the session.
    pub fn is_well_formed(&self) -> (ok: bool)
        ensures
            ok == self.wf(),
    {
        if !(0 <= self.player.health && self.player.health <= self.player.max_health) {
            return false;
        }
        if self.player.is_attacking && self.player.attack_timer == 0 {
            return false;
        }
        if self.player.weapon_level < 1 || self.player.speed < 0 {
            return false;
        }
        if self.quest_items_collected > self.total_quest_items {
            return false;
        }
        if self.game_state == GameState::Playing && self.player.health <= 0 {
            return false;
        }
        if self.arena.width < 2 * EDGE_MARGIN || self.arena.height < 2 * EDGE_MARGIN {
            return false;
        }
        let mut i: usize = 0;
        while i < self.enemies.len()
            invariant
                i <= self.enemies.len(),
                forall|j: int| 0 <= j < i ==> (#[trigger] self.enemies@[j]).wf(),
            decreases self.enemies.len() - i,
        {
            let e = self.enemies[i];
            if !(0 <= e.health && e.health <= e.max_health && e.is_alive == (e.health > 0)
                && e.speed >= 0) {
                assert(!self.enemies@[i as int].wf());
                return false;
            }
            i = i + 1;
        }
        true
    }
}

} // verus!
