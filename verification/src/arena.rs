//! The arena: its size, its tiled ground and its obstacles, and the test
//! that tells whether a position is free.
use vstd::prelude::*;
use crate::geometry::{Point, dist_sq, distance_squared};

verus! {

/// Edge length of a ground tile.
pub const TILE_SIZE: i32 = 64_000;

/// Width and height of an obstacle.
pub const OBSTACLE_SIZE: u32 = 40_000;

/// Largest width or height an arena can be built with.
pub const MAX_EXTENT: i32 = 2_000_000_000;

#[derive(Clone, Copy, Debug, PartialEq, Eq, Structural)]
pub enum TileType {
    Grass,
    Path,
    Water,
    Stone,
}

#[derive(Clone, Copy, Debug, PartialEq, Eq, Structural)]
pub struct Tile {
    /// Centre of the tile.
    pub position: Point,
    pub tile_type: TileType,
}

#[derive(Clone, Copy, Debug, PartialEq, Eq, Structural)]
pub enum ObstacleType {
    Tree,
    Rock,
    Bush,
}

#[derive(Clone, Copy, Debug, PartialEq, Eq, Structural)]
pub struct Obstacle {
    /// Centre of the obstacle.
    pub position: Point,
    pub width: u32,
    pub height: u32,
    pub obstacle_type: ObstacleType,
}

/// A bounded rectangle `0..=width` by `0..=height` with obstacles in it.
/// Nothing changes it once it is built.
#[derive(Debug)]
pub struct Arena {
    pub width: i32,
    pub height: i32,
    pub tiles: Vec<Tile>,
    pub obstacles: Vec<Obstacle>,
}

/// What an arena holds.
pub struct ArenaView {
    pub width: i32,
    pub height: i32,
    pub tiles: Seq<Tile>,
    pub obstacles: Seq<Obstacle>,
}

impl View for Arena {
    type V = ArenaView;

    open spec fn view(&self) -> ArenaView {
        ArenaView {
            width: self.width,
            height: self.height,
            tiles: self.tiles@,
            obstacles: self.obstacles@,
        }
    }
}

/// Number of tiles needed to cover a length of `extent`.
pub open spec fn tiles_across(extent: int) -> int {
    if extent <= 0 {
        0
    } else {
        (extent + TILE_SIZE - 1) / (TILE_SIZE as int)
    }
}

/// Centre coordinate of the tiles in column (or row) `k`.
pub open spec fn tile_center(k: int) -> int {
    k * TILE_SIZE + TILE_SIZE / 2
}

/// Ground of the tile in column `x` and row `y`.
pub open spec fn ground_at(x: int, y: int) -> TileType {
    if (x + y) % 4 == 0 {
        TileType::Path
    } else if (x * y) % 7 == 0 {
        TileType::Stone
    } else if (x + y * 2) % 5 == 0 {
        TileType::Water
    } else {
        TileType::Grass
    }
}

/// The tile in column `x` and row `y`.
pub open spec fn tile_at(x: int, y: int) -> Tile {
    Tile {
        position: Point { x: tile_center(x) as i32, y: tile_center(y) as i32 },
        tile_type: ground_at(x, y),
    }
}

/// Whether the tile in column `x` and row `y` of a grid of `cols` by `rows`
/// tiles carries an obstacle: every sixth diagonal does, away from the rim.
pub open spec fn has_obstacle(x: int, y: int, cols: int, rows: int) -> bool {
    (x + y) % 6 == 0 && 2 < x < cols - 2 && 2 < y < rows - 2
}

/// The obstacle on the tile in column `x` and row `y`.
pub open spec fn obstacle_at(x: int, y: int) -> Obstacle {
    Obstacle {
        position: Point { x: tile_center(x) as i32, y: tile_center(y) as i32 },
        width: OBSTACLE_SIZE,
        height: OBSTACLE_SIZE,
        obstacle_type: if (x + y) % 3 == 0 {
            ObstacleType::Tree
        } else if (x + y) % 3 == 1 {
            ObstacleType::Rock
        } else {
            ObstacleType::Bush
        },
    }
}

/// The first `n` tiles of column `x`, top down.
pub open spec fn column_tiles(x: int, n: int) -> Seq<Tile> {
    Seq::new(n as nat, |y: int| tile_at(x, y))
}

/// The obstacles on the first `n` tiles of column `x`, top down.
pub open spec fn column_obstacles(x: int, n: int, cols: int, rows: int) -> Seq<Obstacle>
    decreases n,
{
    if n <= 0 {
        Seq::empty()
    } else if has_obstacle(x, n - 1, cols, rows) {
        column_obstacles(x, n - 1, cols, rows).push(obstacle_at(x, n - 1))
    } else {
        column_obstacles(x, n - 1, cols, rows)
    }
}

/// The tiles of the first `n` columns of a grid with `rows` rows, column by
/// column.
pub open spec fn grid_tiles(n: int, rows: int) -> Seq<Tile>
    decreases n,
{
    if n <= 0 {
        Seq::empty()
    } else {
        grid_tiles(n - 1, rows) + column_tiles(n - 1, rows)
    }
}

/// The obstacles on the first `n` columns of a grid of `cols` by `rows`
/// tiles, column by column.
pub open spec fn grid_obstacles(n: int, cols: int, rows: int) -> Seq<Obstacle>
    decreases n,
{
    if n <= 0 {
        Seq::empty()
    } else {
        grid_obstacles(n - 1, cols, rows) + column_obstacles(n - 1, rows, cols, rows)
    }
}

impl Obstacle {
    /// A disc of the given radius around `p` overlaps the obstacle, taken
    /// as a disc of diameter `width`: the distance between the centres is
    /// less than `width / 2 + radius`.
    pub open spec fn blocks(self, p: Point, radius: u32) -> bool {
        4 * dist_sq(self.position, p) < (self.width + 2 * radius) * (self.width + 2 * radius)
    }

    pub fn is_blocking(&self, p: Point, radius: u32) -> (hit: bool)
        ensures
            hit == self.blocks(p, radius),
    {
        let d2: u128 = distance_squared(self.position, p);
        let reach: u128 = (self.width as u128) + 2 * (radius as u128);
        assert(reach * reach <= 0x3_0000_0000 * 0x3_0000_0000) by (nonlinear_arith)
            requires
                0 <= reach <= 0x3_0000_0000,
        ;
        4 * d2 < reach * reach
    }
}

impl ArenaView {
    /// A disc of the given radius around `p` lies inside the arena and
    /// overlaps no obstacle.
    pub open spec fn clear_at(self, p: Point, radius: u32) -> bool {
        &&& radius <= p.x <= self.width - radius
        &&& radius <= p.y <= self.height - radius
        &&& forall|i: int| 0 <= i < self.obstacles.len() ==> !(#[trigger] self.obstacles[i]).blocks(p, radius)
    }

    /// The arena of the given size as `Arena::new` lays it out.
    pub open spec fn laid_out(width: i32, height: i32) -> ArenaView {
        let cols = tiles_across(width as int);
        let rows = tiles_across(height as int);
        ArenaView {
            width,
            height,
            tiles: grid_tiles(cols, rows),
            obstacles: grid_obstacles(cols, cols, rows),
        }
    }
}

/// Number of tiles needed to cover a length of `extent`.
pub fn count_tiles(extent: i32) -> (n: u32)
    ensures
        n == tiles_across(extent as int),
        n <= 33_555,
        extent <= MAX_EXTENT ==> n * TILE_SIZE <= MAX_EXTENT + TILE_SIZE,
{
    if extent <= 0 {
        0
    } else {
        ((extent as u32) + (TILE_SIZE as u32 - 1)) / (TILE_SIZE as u32)
    }
}

/// Ground of the tile in column `x` and row `y`.
pub fn ground_of(x: u32, y: u32) -> (ground: TileType)
    ensures
        ground == ground_at(x as int, y as int),
{
    let column: u64 = x as u64;
    let row: u64 = y as u64;
    assert(column * row <= 0xffff_ffff * 0xffff_ffff) by (nonlinear_arith)
        requires
            0 <= column <= 0xffff_ffff,
            0 <= row <= 0xffff_ffff,
    ;
    if (column + row) % 4 == 0 {
        TileType::Path
    } else if (column * row) % 7 == 0 {
        TileType::Stone
    } else if (column + row * 2) % 5 == 0 {
        TileType::Water
    } else {
        TileType::Grass
    }
}

impl Arena {
    /// Lays out the ground tiles column by column and puts an obstacle on
    /// every sixth diagonal, away from the rim.
    pub fn new(width: i32, height: i32) -> (arena: Arena)
        requires
            width <= MAX_EXTENT,
            height <= MAX_EXTENT,
        ensures
            arena@ == ArenaView::laid_out(width, height),
    {
        let cols: u32 = count_tiles(width);
        let rows: u32 = count_tiles(height);
        let mut tiles: Vec<Tile> = Vec::new();
        let mut obstacles: Vec<Obstacle> = Vec::new();
        let mut x: u32 = 0;
        while x < cols
            invariant
                x <= cols,
                cols * TILE_SIZE <= MAX_EXTENT + TILE_SIZE,
                rows * TILE_SIZE <= MAX_EXTENT + TILE_SIZE,
                tiles@ == grid_tiles(x as int, rows as int),
                obstacles@ == grid_obstacles(x as int, cols as int, rows as int),
            decreases cols - x,
        {
            let ghost tiles_before = tiles@;
            let ghost obstacles_before = obstacles@;
            let mut y: u32 = 0;
            while y < rows
                invariant
                    x < cols,
                    y <= rows,
                    cols * TILE_SIZE <= MAX_EXTENT + TILE_SIZE,
                    rows * TILE_SIZE <= MAX_EXTENT + TILE_SIZE,
                    tiles@ == tiles_before + column_tiles(x as int, y as int),
                    obstacles@ == obstacles_before + column_obstacles(
                        x as int,
                        y as int,
                        cols as int,
                        rows as int,
                    ),
                decreases rows - y,
            {
                let position = Point {
                    x: (x * 64_000 + 32_000) as i32,
                    y: (y * 64_000 + 32_000) as i32,
                };
                let tile_type = ground_of(x, y);
                tiles.push(Tile { position, tile_type });
                assert(column_tiles(x as int, y + 1) == column_tiles(x as int, y as int).push(
                    tile_at(x as int, y as int),
                ));
                if (x + y) % 6 == 0 && x > 2 && x + 2 < cols && y > 2 && y + 2 < rows {
                    let obstacle_type = match (x + y) % 3 {
                        0 => ObstacleType::Tree,
                        1 => ObstacleType::Rock,
                        _ => ObstacleType::Bush,
                    };
                    obstacles.push(
                        Obstacle {
                            position,
                            width: OBSTACLE_SIZE,
                            height: OBSTACLE_SIZE,
                            obstacle_type,
                        },
                    );
                }
                y = y + 1;
            }
            x = x + 1;
        }
        Arena { width, height, tiles, obstacles }
    }

    /// Whether a disc of the given radius around `position` lies inside the
    /// arena and overlaps no obstacle.
    pub fn is_position_valid(&self, position: Point, radius: u32) -> (valid: bool)
        ensures
            valid == self@.clear_at(position, radius),
    {
        let r: i64 = radius as i64;
        if (position.x as i64) < r || position.x as i64 > self.width as i64 - r
            || (position.y as i64) < r || position.y as i64 > self.height as i64 - r {
            return false;
        }
        let mut i: usize = 0;
        while i < self.obstacles.len()
            invariant
                i <= self.obstacles.len(),
                forall|j: int| 0 <= j < i ==> !(#[trigger] self.obstacles@[j]).blocks(position, radius),
            decreases self.obstacles.len() - i,
        {
            if self.obstacles[i].is_blocking(position, radius) {
                assert(self@.obstacles[i as int].blocks(position, radius));
                return false;
            }
            i = i + 1;
        }
        true
    }
}

} // verus!
