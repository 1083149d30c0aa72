use jeu_aventure::arena::Arena;
use jeu_aventure::enemy::{Enemy, EnemyType};
use jeu_aventure::events::Event;
use jeu_aventure::game::Game;
use jeu_aventure::geometry::Point;
use jeu_aventure::player::Player;
use jeu_aventure::ui::GameState;

fn quiet_game() -> Game {
    Game {
        player: Player::new(400_000, 300_000),
        enemies: Vec::new(),
        items: Vec::new(),
        arena: Arena::new(800_000, 600_000),
        game_state: GameState::Playing,
        spawn_timer: 2000,
        quest_items_collected: 0,
        total_quest_items: 5,
        boss_spawned: false,
        game_time: 0,
    }
}

#[test]
fn boss_is_sent_in_only_once() {
    let mut game = quiet_game();
    assert!(game.spawn_boss());
    assert!(game.boss_spawned);
    assert_eq!(game.enemies, vec![Enemy::new(400_000, 100_000, EnemyType::Dragon)]);
    assert!(!game.spawn_boss());
    assert!(!game.spawn_boss());
    assert!(game.boss_spawned);
    assert_eq!(game.enemies.len(), 1);
}

#[test]
fn boss_enters_when_the_quest_is_complete() {
    let mut game = quiet_game();
    game.quest_items_collected = 4;
    assert!(game.check_quest_progress().is_empty());
    assert!(!game.boss_spawned);
    game.quest_items_collected = 5;
    assert_eq!(game.check_quest_progress(), vec![Event::BossSpawned]);
    assert!(game.boss_spawned);
    assert_eq!(game.enemies.len(), 1);
    assert_eq!(game.enemies[0].position, Point { x: 400_000, y: 100_000 });
    assert_eq!(game.enemies[0].enemy_type, EnemyType::Dragon);
    assert_eq!(game.game_state, GameState::Playing);
    assert!(game.check_quest_progress().is_empty());
    assert_eq!(game.enemies.len(), 1);
    assert_eq!(game.game_state, GameState::Playing);
}

#[test]
fn game_is_won_when_the_boss_is_gone() {
    let mut game = quiet_game();
    game.quest_items_collected = 5;
    game.check_quest_progress();
    game.enemies.clear();
    assert_eq!(game.check_quest_progress(), vec![Event::PhaseChanged(GameState::Victory)]);
    assert_eq!(game.game_state, GameState::Victory);
    assert!(game.check_quest_progress().is_empty());
    assert_eq!(game.game_state, GameState::Victory);
    assert!(game.enemies.is_empty());
}

#[test]
fn any_living_dragon_holds_victory_back() {
    let mut game = quiet_game();
    game.quest_items_collected = 5;
    game.boss_spawned = true;
    game.enemies.push(Enemy::new(100_000, 100_000, EnemyType::Goblin));
    game.enemies.push(Enemy::new(200_000, 100_000, EnemyType::Dragon));
    assert!(game.is_boss_alive());
    assert!(game.check_quest_progress().is_empty());
    assert_eq!(game.game_state, GameState::Playing);
    game.enemies[1].take_damage(120);
    assert!(!game.is_boss_alive());
    assert_eq!(game.check_quest_progress(), vec![Event::PhaseChanged(GameState::Victory)]);
}

#[test]
fn wild_dragon_does_not_set_the_latch() {
    let mut game = quiet_game();
    game.enemies.push(Enemy::new(200_000, 100_000, EnemyType::Dragon));
    assert!(game.check_quest_progress().is_empty());
    assert!(!game.boss_spawned);
    game.enemies.clear();
    assert!(game.check_quest_progress().is_empty());
    assert_eq!(game.game_state, GameState::Playing);
}

#[test]
fn lost_game_is_not_won_afterwards() {
    let mut game = quiet_game();
    game.quest_items_collected = 5;
    game.player.take_damage(100);
    game.game_state = GameState::GameOver;
    assert!(game.check_quest_progress().is_empty());
    assert_eq!(game.game_state, GameState::GameOver);
    assert!(!game.boss_spawned);
    assert!(game.enemies.is_empty());
}

#[test]
fn quest_without_artefacts_sends_the_boss_in_at_once() {
    let mut game = quiet_game();
    game.total_quest_items = 0;
    assert_eq!(game.check_quest_progress(), vec![Event::BossSpawned]);
    assert_eq!(game.game_state, GameState::Playing);
}

#[test]
fn latch_alone_does_not_win_the_game() {
    let mut game = quiet_game();
    game.quest_items_collected = 3;
    assert!(game.spawn_boss());
    game.enemies.clear();
    assert!(game.check_quest_progress().is_empty());
    assert_eq!(game.game_state, GameState::Playing);
    game.quest_items_collected = 5;
    assert_eq!(game.check_quest_progress(), vec![Event::PhaseChanged(GameState::Victory)]);
}
