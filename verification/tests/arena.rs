use jeu_aventure::arena::{count_tiles, ground_of, Arena, Obstacle, ObstacleType, TileType};
use jeu_aventure::geometry::Point;

#[test]
fn count_tiles_rounds_up() {
    assert_eq!(count_tiles(800_000), 13);
    assert_eq!(count_tiles(600_000), 10);
    assert_eq!(count_tiles(64_000), 1);
    assert_eq!(count_tiles(64_001), 2);
    assert_eq!(count_tiles(1), 1);
    assert_eq!(count_tiles(0), 0);
    assert_eq!(count_tiles(-800_000), 0);
    assert_eq!(count_tiles(i32::MAX), 33_555);
}

#[test]
fn ground_follows_the_pattern() {
    assert_eq!(ground_of(0, 0), TileType::Path);
    assert_eq!(ground_of(1, 3), TileType::Path);
    assert_eq!(ground_of(1, 0), TileType::Stone);
    assert_eq!(ground_of(7, 3), TileType::Stone);
    assert_eq!(ground_of(1, 2), TileType::Water);
    assert_eq!(ground_of(1, 1), TileType::Grass);
}

#[test]
fn ground_is_defined_for_every_column_and_row() {
    assert_eq!(ground_of(u32::MAX, u32::MAX), TileType::Water);
    assert_eq!(ground_of(u32::MAX, 7), TileType::Stone);
    assert_eq!(ground_of(70_000, 70_001), TileType::Stone);
    assert_eq!(ground_of(65_536, 65_536), TileType::Path);
    assert_eq!(ground_of(100_000, 3), TileType::Grass);
}

#[test]
fn standard_arena_has_130_tiles_column_by_column() {
    let arena = Arena::new(800_000, 600_000);
    assert_eq!(arena.width, 800_000);
    assert_eq!(arena.height, 600_000);
    assert_eq!(arena.tiles.len(), 130);
    assert_eq!(arena.tiles[0].position, Point { x: 32_000, y: 32_000 });
    assert_eq!(arena.tiles[1].position, Point { x: 32_000, y: 96_000 });
    assert_eq!(arena.tiles[10].position, Point { x: 96_000, y: 32_000 });
    assert_eq!(arena.tiles[129].position, Point { x: 800_000, y: 608_000 });
    for x in 0..13u32 {
        for y in 0..10u32 {
            let tile = arena.tiles[(x * 10 + y) as usize];
            assert_eq!(tile.tile_type, ground_of(x, y));
            assert_eq!(
                tile.position,
                Point { x: (x * 64_000 + 32_000) as i32, y: (y * 64_000 + 32_000) as i32 }
            );
        }
    }
}

#[test]
fn standard_arena_has_six_obstacles() {
    let arena = Arena::new(800_000, 600_000);
    let centres: Vec<Point> = arena.obstacles.iter().map(|o| o.position).collect();
    assert_eq!(
        centres,
        vec![
            Point { x: 224_000, y: 224_000 },
            Point { x: 352_000, y: 480_000 },
            Point { x: 416_000, y: 416_000 },
            Point { x: 480_000, y: 352_000 },
            Point { x: 544_000, y: 288_000 },
            Point { x: 608_000, y: 224_000 },
        ]
    );
    for o in &arena.obstacles {
        assert_eq!(o.width, 40_000);
        assert_eq!(o.height, 40_000);
        assert_eq!(o.obstacle_type, ObstacleType::Tree);
    }
}

#[test]
fn small_arenas_have_no_obstacles() {
    assert!(Arena::new(0, 0).tiles.is_empty());
    assert!(Arena::new(-1, 600_000).tiles.is_empty());
    let small = Arena::new(320_000, 320_000);
    assert_eq!(small.tiles.len(), 25);
    assert!(small.obstacles.is_empty());
    let seven = Arena::new(448_000, 448_000);
    assert_eq!(seven.tiles.len(), 49);
    assert_eq!(seven.obstacles.len(), 1);
    assert_eq!(seven.obstacles[0].position, Point { x: 224_000, y: 224_000 });
}

#[test]
fn positions_outside_the_arena_are_not_valid() {
    let arena = Arena::new(800_000, 600_000);
    assert!(arena.is_position_valid(Point { x: 100_000, y: 100_000 }, 10_000));
    assert!(arena.is_position_valid(Point { x: 10_000, y: 10_000 }, 10_000));
    assert!(!arena.is_position_valid(Point { x: 9_999, y: 10_000 }, 10_000));
    assert!(!arena.is_position_valid(Point { x: 10_000, y: 9_999 }, 10_000));
    assert!(arena.is_position_valid(Point { x: 790_000, y: 590_000 }, 10_000));
    assert!(!arena.is_position_valid(Point { x: 790_001, y: 590_000 }, 10_000));
    assert!(!arena.is_position_valid(Point { x: 790_000, y: 590_001 }, 10_000));
    assert!(!arena.is_position_valid(Point { x: -1, y: 100_000 }, 0));
    assert!(arena.is_position_valid(Point { x: 0, y: 0 }, 0));
    assert!(arena.is_position_valid(Point { x: 800_000, y: 600_000 }, 0));
    assert!(!arena.is_position_valid(Point { x: i32::MIN, y: i32::MAX }, 0));
}

#[test]
fn positions_on_obstacles_are_not_valid() {
    let arena = Arena::new(800_000, 600_000);
    assert!(!arena.is_position_valid(Point { x: 224_000, y: 224_000 }, 10_000));
    assert!(!arena.is_position_valid(Point { x: 224_000, y: 224_000 }, 0));
    // the obstacle reaches 20 units, the disc 10
    assert!(!arena.is_position_valid(Point { x: 253_999, y: 224_000 }, 10_000));
    assert!(arena.is_position_valid(Point { x: 254_000, y: 224_000 }, 10_000));
    assert!(!arena.is_position_valid(Point { x: 243_999, y: 224_000 }, 0));
    assert!(arena.is_position_valid(Point { x: 244_000, y: 224_000 }, 0));
    assert!(!arena.is_position_valid(Point { x: 416_000, y: 450_999 }, 15_000));
    assert!(arena.is_position_valid(Point { x: 416_000, y: 451_000 }, 15_000));
}

#[test]
fn no_position_is_valid_for_a_disc_larger_than_the_arena() {
    let arena = Arena::new(800_000, 600_000);
    for x in (0..=800_000).step_by(50_000) {
        for y in (0..=600_000).step_by(50_000) {
            assert!(!arena.is_position_valid(Point { x, y }, 300_001));
            assert!(!arena.is_position_valid(Point { x, y }, u32::MAX));
        }
    }
}

#[test]
fn obstacle_blocks_within_half_its_width_plus_the_radius() {
    let o = Obstacle {
        position: Point { x: 0, y: 0 },
        width: 40_001,
        height: 40_001,
        obstacle_type: ObstacleType::Rock,
    };
    // half the width is 20000.5
    assert!(o.is_blocking(Point { x: 30_000, y: 0 }, 10_000));
    assert!(!o.is_blocking(Point { x: 30_001, y: 0 }, 10_000));
    assert!(o.is_blocking(Point { x: 0, y: -20_000 }, 0));
    assert!(!o.is_blocking(Point { x: 0, y: -20_001 }, 0));
    let far = Point { x: i32::MAX, y: i32::MIN };
    assert!(!o.is_blocking(far, u32::MAX / 2));
    assert!(o.is_blocking(far, u32::MAX));
}
