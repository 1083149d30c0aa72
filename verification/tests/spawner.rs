use jeu_aventure::arena::Arena;
use jeu_aventure::enemy::EnemyType;
use jeu_aventure::game::Game;
use jeu_aventure::geometry::{distance_squared, Point};
use jeu_aventure::items::ItemType;
use jeu_aventure::spawner::{
    draw_ring_spot, draw_ring_spots, draw_spot, draw_spots, enemy_kind_for, first_free_spot,
    item_kind_for, place_enemy, place_item, quest_fallback, spot_fits,
};

fn in_region(p: Point) -> bool {
    100_000 <= p.x && p.x < 700_000 && 100_000 <= p.y && p.y < 500_000
}

#[test]
fn item_kind_follows_the_roll() {
    assert_eq!(item_kind_for(0), ItemType::Coin);
    assert_eq!(item_kind_for(1), ItemType::Potion);
    assert_eq!(item_kind_for(2), ItemType::WeaponUpgrade);
}

#[test]
fn enemy_kind_follows_the_roll() {
    for roll in 0..=5 {
        assert_eq!(enemy_kind_for(roll), EnemyType::Goblin);
    }
    for roll in 6..=8 {
        assert_eq!(enemy_kind_for(roll), EnemyType::Orc);
    }
    assert_eq!(enemy_kind_for(9), EnemyType::Dragon);
}

#[test]
fn spot_fits_asks_for_clearance_and_margin() {
    let arena = Arena::new(800_000, 600_000);
    assert!(spot_fits(&arena, Point { x: 50_000, y: 50_000 }, 12_000, 50_000));
    assert!(!spot_fits(&arena, Point { x: 49_999, y: 50_000 }, 12_000, 50_000));
    assert!(spot_fits(&arena, Point { x: 750_000, y: 550_000 }, 12_000, 50_000));
    assert!(!spot_fits(&arena, Point { x: 750_000, y: 550_001 }, 12_000, 50_000));
    assert!(spot_fits(&arena, Point { x: 12_000, y: 12_000 }, 12_000, 0));
    assert!(!spot_fits(&arena, Point { x: 224_000, y: 224_000 }, 12_000, 50_000));
    assert!(!spot_fits(&arena, Point { x: 400_000, y: 300_000 }, 12_000, u32::MAX));
}

#[test]
fn first_free_spot_takes_the_first_candidate_that_fits() {
    let arena = Arena::new(800_000, 600_000);
    let on_obstacle = Point { x: 224_000, y: 224_000 };
    let outside = Point { x: -5, y: 100_000 };
    let free = Point { x: 100_000, y: 100_000 };
    let also_free = Point { x: 300_000, y: 100_000 };
    assert_eq!(
        first_free_spot(&arena, &vec![on_obstacle, outside, free, also_free], 10_000, 0),
        Some(free)
    );
    assert_eq!(first_free_spot(&arena, &vec![also_free, free], 10_000, 0), Some(also_free));
    assert_eq!(first_free_spot(&arena, &vec![on_obstacle, outside], 10_000, 0), None);
    assert_eq!(first_free_spot(&arena, &vec![], 10_000, 0), None);
}

#[test]
fn placement_that_never_fits_ends_with_the_fallback() {
    let arena = Arena::new(800_000, 600_000);
    let mut rng = rand::thread_rng();
    let fallback = Point { x: 400_000, y: 300_000 };
    for _ in 0..20 {
        assert_eq!(place_item(&mut rng, &arena, 300_001, fallback), fallback);
        assert_eq!(place_item(&mut rng, &arena, u32::MAX, fallback), fallback);
    }
    let fifty: Vec<Point> = draw_spots(&mut rng, 50);
    assert_eq!(first_free_spot(&arena, &fifty, 300_001, 0), None);
    let nowhere = Arena::new(0, 0);
    assert_eq!(place_item(&mut rng, &nowhere, 0, fallback), fallback);
}

#[test]
fn placed_items_lie_on_free_spots_of_the_region() {
    let arena = Arena::new(800_000, 600_000);
    let mut rng = rand::thread_rng();
    let fallback = Point { x: 400_000, y: 300_000 };
    let mut away_from_fallback = 0;
    for _ in 0..200 {
        let p = place_item(&mut rng, &arena, 15_000, fallback);
        if p != fallback {
            away_from_fallback += 1;
            assert!(in_region(p));
            assert!(arena.is_position_valid(p, 15_000));
        }
    }
    assert!(away_from_fallback > 0);
}

#[test]
fn drawn_spots_lie_in_the_region_and_differ() {
    let mut rng = rand::thread_rng();
    let spots = draw_spots(&mut rng, 200);
    assert_eq!(spots.len(), 200);
    assert!(spots.iter().all(|p| in_region(*p)));
    assert!(spots.iter().any(|p| p.x != 100_000));
    assert!(spots.iter().any(|p| p.y != 100_000));
    assert!(spots.iter().any(|p| *p != spots[0]));
    assert!(in_region(draw_spot(&mut rng)));
    assert!(draw_spots(&mut rng, 0).is_empty());
}

#[test]
fn drawn_ring_spots_keep_their_distance() {
    let mut rng = rand::thread_rng();
    let center = Point { x: 400_000, y: 300_000 };
    let spots = draw_ring_spots(&mut rng, center, 200);
    assert_eq!(spots.len(), 200);
    for p in &spots {
        let d2 = distance_squared(center, *p);
        // the sine table is exact to a thousandth
        assert!(d2 >= 149_000 * 149_000, "too near: {:?}", p);
        assert!(d2 <= 301_000 * 301_000, "too far: {:?}", p);
    }
    assert!(spots.iter().any(|p| *p != spots[0]));
    let one = draw_ring_spot(&mut rng, center);
    assert!(distance_squared(center, one) >= 149_000 * 149_000);
}

#[test]
fn placed_enemies_fit_or_lie_in_the_region() {
    let arena = Arena::new(800_000, 600_000);
    let mut rng = rand::thread_rng();
    let player = Point { x: 400_000, y: 300_000 };
    for _ in 0..200 {
        let p = place_enemy(&mut rng, &arena, player);
        let near_player = {
            let d2 = distance_squared(player, p);
            d2 >= 149_000 * 149_000 && d2 <= 301_000 * 301_000
        };
        assert!(in_region(p) || (near_player && spot_fits(&arena, p, 12_000, 50_000)));
    }
    let nowhere = Arena::new(0, 0);
    for _ in 0..20 {
        assert!(in_region(place_enemy(&mut rng, &nowhere, player)));
    }
}

#[test]
fn quest_fallback_spreads_the_artefacts_over_a_circle() {
    assert_eq!(quest_fallback(0, 5), Point { x: 550_000, y: 300_000 });
    assert_eq!(quest_fallback(1, 5), Point { x: 446_350, y: 442_650 });
    assert_eq!(quest_fallback(2, 5), Point { x: 278_650, y: 388_200 });
    assert_eq!(quest_fallback(3, 5), Point { x: 278_650, y: 211_800 });
    assert_eq!(quest_fallback(4, 5), Point { x: 446_350, y: 157_350 });
    assert_eq!(quest_fallback(1, 4), Point { x: 400_000, y: 450_000 });
    assert_eq!(quest_fallback(2, 4), Point { x: 250_000, y: 300_000 });
    assert_eq!(quest_fallback(3, 4), Point { x: 400_000, y: 150_000 });
    assert_eq!(quest_fallback(3, 7), Point { x: 265_150, y: 365_700 });
    assert_eq!(quest_fallback(5, 5), quest_fallback(0, 5));
    assert_eq!(quest_fallback(u32::MAX, 1), quest_fallback(0, 1));
    assert_eq!(quest_fallback(3, 0), Point { x: 550_000, y: 300_000 });
}

#[test]
fn quest_fallback_positions_are_equally_far_from_the_centre() {
    let centre = Point { x: 400_000, y: 300_000 };
    for total in 1..=400u32 {
        assert_eq!(quest_fallback(0, total), Point { x: 550_000, y: 300_000 });
        for index in 0..total {
            let p = quest_fallback(index, total);
            let d2 = distance_squared(centre, p);
            // within a tenth of a world unit of the circle of radius 150
            assert!(d2 >= 149_900 * 149_900, "too near: {:?}", p);
            assert!(d2 <= 150_100 * 150_100, "too far: {:?}", p);
            assert!(in_region(p));
        }
    }
}

#[test]
fn quest_fallback_follows_the_angle_of_the_index() {
    let centre = Point { x: 400_000, y: 300_000 };
    for total in [1u32, 2, 3, 4, 5, 6, 8, 9, 10, 12, 360] {
        for index in 0..total {
            let p = quest_fallback(index, total);
            let angle = 2.0 * std::f64::consts::PI * index as f64 / total as f64;
            let x = centre.x as f64 + 150_000.0 * angle.cos();
            let y = centre.y as f64 + 150_000.0 * angle.sin();
            assert!((p.x as f64 - x).abs() <= 76.0, "{} of {}: {:?}", index, total, p);
            assert!((p.y as f64 - y).abs() <= 76.0, "{} of {}: {:?}", index, total, p);
        }
    }
}

#[test]
fn spawn_initial_items_adds_fifteen_ordinary_items() {
    let mut game = Game::new();
    game.items.clear();
    game.spawn_initial_items();
    assert_eq!(game.items.len(), 15);
    for item in &game.items {
        assert!(!item.is_collected);
        assert_ne!(item.item_type, ItemType::QuestArtifact);
        let at_center = item.position == Point { x: 400_000, y: 300_000 };
        assert!(
            at_center
                || (in_region(item.position) && game.arena.is_position_valid(item.position, 10_000))
        );
    }
    game.spawn_initial_items();
    assert_eq!(game.items.len(), 30);
}

#[test]
fn spawn_quest_items_adds_as_many_artefacts_as_the_quest_asks_for() {
    let mut game = Game::new();
    game.items.clear();
    game.total_quest_items = 7;
    game.spawn_quest_items();
    assert_eq!(game.items.len(), 7);
    for (i, item) in game.items.iter().enumerate() {
        assert!(!item.is_collected);
        assert_eq!(item.item_type, ItemType::QuestArtifact);
        let at_fallback = item.position == quest_fallback(i as u32, 7);
        assert!(
            at_fallback
                || (in_region(item.position) && game.arena.is_position_valid(item.position, 15_000))
        );
    }
    game.total_quest_items = 0;
    game.spawn_quest_items();
    assert_eq!(game.items.len(), 7);
}

#[test]
fn quest_items_fall_back_to_the_circle_where_nothing_fits() {
    let mut game = Game::new();
    game.items.clear();
    game.arena = Arena::new(0, 0);
    game.spawn_quest_items();
    let places: Vec<Point> = game.items.iter().map(|item| item.position).collect();
    assert_eq!(
        places,
        vec![
            Point { x: 550_000, y: 300_000 },
            Point { x: 446_350, y: 442_650 },
            Point { x: 278_650, y: 388_200 },
            Point { x: 278_650, y: 211_800 },
            Point { x: 446_350, y: 157_350 },
        ]
    );
    game.items.clear();
    game.spawn_initial_items();
    assert!(game.items.iter().all(|item| item.position == Point { x: 400_000, y: 300_000 }));
}

#[test]
fn spawn_enemy_adds_one_fresh_enemy() {
    let mut game = Game::new();
    let mut kinds = Vec::new();
    for n in 1..=100usize {
        let enemy = game.spawn_enemy();
        assert_eq!(game.enemies.len(), n);
        assert_eq!(game.enemies[n - 1], enemy);
        assert!(enemy.is_alive);
        assert_eq!(enemy.health, enemy.max_health);
        assert_eq!(enemy.attack_timer, 0);
        let (health, speed) = match enemy.enemy_type {
            EnemyType::Goblin => (30, 80),
            EnemyType::Orc => (60, 50),
            EnemyType::Dragon => (120, 40),
        };
        assert_eq!((enemy.health, enemy.speed), (health, speed));
        assert!(
            in_region(enemy.position)
                || spot_fits(&game.arena, enemy.position, 12_000, 50_000)
        );
        kinds.push(enemy.enemy_type);
    }
    assert!(kinds.iter().any(|k| *k != kinds[0]));
    assert!(!game.boss_spawned);
}
