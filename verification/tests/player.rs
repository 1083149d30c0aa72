use jeu_aventure::geometry::Point;
use jeu_aventure::player::{walk, Direction, Player, Velocity};

#[test]
fn new_player_has_its_initial_values() {
    let p = Player::new(400_000, 300_000);
    assert_eq!(p.position, Point { x: 400_000, y: 300_000 });
    assert_eq!(p.velocity, Velocity { x: 0, y: 0 });
    assert_eq!(p.health, 100);
    assert_eq!(p.max_health, 100);
    assert_eq!(p.coins, 0);
    assert_eq!(p.direction, Direction::Right);
    assert_eq!(p.speed, 200);
    assert!(!p.is_attacking);
    assert_eq!(p.attack_timer, 0);
    assert_eq!(p.weapon_level, 1);
    assert!(p.is_alive());
}

#[test]
fn player_walks_speed_times_elapsed_time() {
    let mut p = Player::new(400_000, 300_000);
    p.move_direction(Direction::Right);
    p.update(16, 800_000, 600_000);
    assert_eq!(p.position, Point { x: 403_200, y: 300_000 });
    p.move_direction(Direction::Up);
    p.update(100, 800_000, 600_000);
    assert_eq!(p.position, Point { x: 423_200, y: 280_000 });
}

#[test]
fn player_is_kept_inside_the_arena() {
    let mut p = Player::new(400_000, 300_000);
    p.move_direction(Direction::Left);
    p.move_direction(Direction::Down);
    p.update(60_000, 800_000, 600_000);
    assert_eq!(p.position, Point { x: 20_000, y: 580_000 });
    p.move_direction(Direction::Right);
    p.move_direction(Direction::Up);
    p.update(u32::MAX, 800_000, 600_000);
    assert_eq!(p.position, Point { x: 780_000, y: 20_000 });
}

#[test]
fn player_outside_the_arena_is_brought_back() {
    let mut p = Player::new(-5_000, 900_000);
    p.update(0, 800_000, 600_000);
    assert_eq!(p.position, Point { x: 20_000, y: 580_000 });
}

#[test]
fn walk_handles_the_extremes() {
    assert_eq!(walk(i32::MAX, i32::MAX, u32::MAX, i32::MAX), i32::MAX - 20_000);
    assert_eq!(walk(i32::MIN, i32::MIN, u32::MAX, 40_000), 20_000);
    assert_eq!(walk(100_000, -200, 10, 800_000), 98_000);
}

#[test]
fn move_direction_sets_one_axis() {
    let mut p = Player::new(0, 0);
    p.move_direction(Direction::Left);
    assert_eq!(p.velocity, Velocity { x: -200, y: 0 });
    assert_eq!(p.direction, Direction::Left);
    p.move_direction(Direction::Down);
    assert_eq!(p.velocity, Velocity { x: -200, y: 200 });
    assert_eq!(p.direction, Direction::Left);
    p.move_direction(Direction::Right);
    assert_eq!(p.velocity, Velocity { x: 200, y: 200 });
    assert_eq!(p.direction, Direction::Right);
    p.move_direction(Direction::Up);
    assert_eq!(p.velocity, Velocity { x: 200, y: -200 });
    assert_eq!(p.direction, Direction::Right);
}

#[test]
fn stop_movement_clears_both_axes() {
    let mut p = Player::new(0, 0);
    p.move_direction(Direction::Left);
    p.move_direction(Direction::Down);
    p.stop_movement();
    assert_eq!(p.velocity, Velocity { x: 0, y: 0 });
    assert_eq!(p.direction, Direction::Left);
}

#[test]
fn attack_window_lasts_300_ms() {
    let mut p = Player::new(400_000, 300_000);
    p.attack();
    assert!(p.is_attacking);
    assert_eq!(p.attack_timer, 300);
    p.update(299, 800_000, 600_000);
    assert!(p.is_attacking);
    assert_eq!(p.attack_timer, 1);
    p.update(1, 800_000, 600_000);
    assert!(!p.is_attacking);
    assert_eq!(p.attack_timer, 0);
}

#[test]
fn attack_during_an_open_window_does_not_extend_it() {
    let mut p = Player::new(400_000, 300_000);
    p.attack();
    p.update(200, 800_000, 600_000);
    p.attack();
    assert_eq!(p.attack_timer, 100);
    p.update(100, 800_000, 600_000);
    assert!(!p.is_attacking);
    p.attack();
    assert_eq!(p.attack_timer, 300);
}

#[test]
fn take_damage_stops_at_zero() {
    let mut p = Player::new(0, 0);
    p.take_damage(30);
    assert_eq!(p.health, 70);
    p.take_damage(0);
    assert_eq!(p.health, 70);
    p.take_damage(-10);
    assert_eq!(p.health, 70);
    p.take_damage(70);
    assert_eq!(p.health, 0);
    assert!(!p.is_alive());
    p.take_damage(i32::MAX);
    assert_eq!(p.health, 0);
}

#[test]
fn heal_stops_at_max_health() {
    let mut p = Player::new(0, 0);
    p.take_damage(40);
    p.heal(25);
    assert_eq!(p.health, 85);
    p.heal(25);
    assert_eq!(p.health, 100);
    p.heal(i32::MAX);
    assert_eq!(p.health, 100);
    p.take_damage(10);
    p.heal(0);
    assert_eq!(p.health, 90);
    p.heal(-5);
    assert_eq!(p.health, 90);
}

#[test]
fn coins_and_weapon_level_stop_at_the_end_of_their_range() {
    let mut p = Player::new(0, 0);
    p.add_coin();
    p.add_coin();
    assert_eq!(p.coins, 2);
    p.coins = u32::MAX;
    p.add_coin();
    assert_eq!(p.coins, u32::MAX);
    p.upgrade_weapon();
    assert_eq!(p.weapon_level, 2);
    p.weapon_level = u32::MAX;
    p.upgrade_weapon();
    assert_eq!(p.weapon_level, u32::MAX);
}

#[test]
fn attack_damage_follows_the_weapon_level() {
    let mut p = Player::new(0, 0);
    assert_eq!(p.get_attack_damage(), 10);
    p.upgrade_weapon();
    assert_eq!(p.get_attack_damage(), 15);
    p.upgrade_weapon();
    assert_eq!(p.get_attack_damage(), 20);
    p.upgrade_weapon();
    assert_eq!(p.get_attack_damage(), 25);
    p.upgrade_weapon();
    assert_eq!(p.get_attack_damage(), 25);
    p.weapon_level = u32::MAX;
    assert_eq!(p.get_attack_damage(), 25);
}
