use jeu_aventure::enemy::{approach_towards, Enemy, EnemyType};
use jeu_aventure::geometry::Point;

#[test]
fn new_enemy_has_the_stats_of_its_kind() {
    let g = Enemy::new(1, 2, EnemyType::Goblin);
    assert_eq!((g.health, g.max_health, g.speed), (30, 30, 80));
    let o = Enemy::new(1, 2, EnemyType::Orc);
    assert_eq!((o.health, o.max_health, o.speed), (60, 60, 50));
    let d = Enemy::new(1, 2, EnemyType::Dragon);
    assert_eq!((d.health, d.max_health, d.speed), (120, 120, 40));
    assert_eq!(d.position, Point { x: 1, y: 2 });
    assert_eq!(d.enemy_type, EnemyType::Dragon);
    assert_eq!(d.attack_timer, 0);
    assert!(d.is_alive);
}

#[test]
fn enemy_moves_towards_the_player_at_its_speed() {
    let mut e = Enemy::new(0, 0, EnemyType::Goblin);
    e.update(100, Point { x: 30_000, y: 40_000 });
    assert_eq!(e.position, Point { x: 4_800, y: 6_400 });
    let mut o = Enemy::new(100_000, 100_000, EnemyType::Orc);
    o.update(1000, Point { x: 100_000, y: 0 });
    assert_eq!(o.position, Point { x: 100_000, y: 50_000 });
    let mut d = Enemy::new(0, 0, EnemyType::Dragon);
    d.update(500, Point { x: -60_000, y: 0 });
    assert_eq!(d.position, Point { x: -20_000, y: 0 });
}

#[test]
fn enemy_stands_still_inside_the_dead_zone() {
    let mut e = Enemy::new(0, 0, EnemyType::Goblin);
    e.update(100, Point { x: 10_000, y: 0 });
    assert_eq!(e.position, Point { x: 0, y: 0 });
    e.update(100, Point { x: 6_000, y: 8_000 });
    assert_eq!(e.position, Point { x: 0, y: 0 });
    e.update(100, Point { x: 10_001, y: 0 });
    assert_eq!(e.position, Point { x: 8_000, y: 0 });
}

#[test]
fn enemy_may_overshoot_in_a_long_step() {
    let mut e = Enemy::new(0, 0, EnemyType::Goblin);
    e.update(1000, Point { x: 30_000, y: 40_000 });
    assert_eq!(e.position, Point { x: 48_000, y: 64_000 });
}

#[test]
fn enemy_position_stops_at_the_end_of_the_range() {
    let mut e = Enemy::new(i32::MAX - 30_000, 0, EnemyType::Goblin);
    e.update(u32::MAX, Point { x: i32::MAX, y: 0 });
    assert_eq!(e.position, Point { x: i32::MAX, y: 0 });
    assert_eq!(approach_towards(0, -1, u64::MAX, 1), i32::MIN);
    assert_eq!(approach_towards(i32::MIN, i32::MAX, 7, 7), i32::MAX);
}

#[test]
fn dead_enemy_does_nothing() {
    let mut e = Enemy::new(0, 0, EnemyType::Goblin);
    e.attack();
    e.take_damage(30);
    assert!(!e.is_alive);
    let before = e;
    e.update(1000, Point { x: 30_000, y: 40_000 });
    assert_eq!(e, before);
    assert!(!e.can_attack());
}

#[test]
fn enemy_take_damage_stops_at_zero_and_kills() {
    let mut e = Enemy::new(0, 0, EnemyType::Orc);
    e.take_damage(25);
    assert_eq!(e.health, 35);
    assert!(e.is_alive);
    e.take_damage(0);
    e.take_damage(-3);
    assert_eq!(e.health, 35);
    e.take_damage(100);
    assert_eq!(e.health, 0);
    assert!(!e.is_alive);
    e.take_damage(5);
    assert_eq!(e.health, 0);
    assert!(!e.is_alive);
}

#[test]
fn enemy_strike_damage_follows_its_kind() {
    assert_eq!(Enemy::new(0, 0, EnemyType::Goblin).attack(), 5);
    assert_eq!(Enemy::new(0, 0, EnemyType::Orc).attack(), 10);
    assert_eq!(Enemy::new(0, 0, EnemyType::Dragon).attack(), 20);
}

#[test]
fn enemy_cool_down_lasts_1500_ms() {
    let mut e = Enemy::new(0, 0, EnemyType::Goblin);
    let here = Point { x: 0, y: 0 };
    assert!(e.can_attack());
    e.attack();
    assert_eq!(e.attack_timer, 1500);
    assert!(!e.can_attack());
    e.update(1499, here);
    assert_eq!(e.attack_timer, 1);
    assert!(!e.can_attack());
    e.update(1, here);
    assert!(e.can_attack());
    e.update(1000, here);
    assert_eq!(e.attack_timer, 0);
}

#[test]
fn enemy_attack_range_is_30_units_strictly() {
    let e = Enemy::new(100_000, 100_000, EnemyType::Goblin);
    assert!(e.is_in_attack_range(Point { x: 100_000, y: 100_000 }));
    assert!(e.is_in_attack_range(Point { x: 129_999, y: 100_000 }));
    assert!(!e.is_in_attack_range(Point { x: 130_000, y: 100_000 }));
    assert!(e.is_in_attack_range(Point { x: 118_000, y: 123_999 }));
    assert!(!e.is_in_attack_range(Point { x: 118_000, y: 124_000 }));
}
