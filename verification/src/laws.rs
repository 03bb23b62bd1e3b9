//! What holds of the bricks of every valid grid: each cell that is due a
//! brick lies under exactly one, and that brick has the height and the colour
//! of the cell.

use vstd::prelude::*;
use crate::brick::{
    brick_for, lemma_brick_covers_region, lemma_brick_horizontal, lemma_vertical_extent_bounds,
    round_up_even, spec_vertical_extent, BrickRecord, OptimizerConfig, Square, BASE_OFFSET,
};
use crate::map::GridModel;
use crate::util::{
    ez_brick_extent, ez_brick_place_fits, ez_brick_type, spec_ez_brick, BrickType,
};
use crate::quad::{
    alike, cell_culled, is_pow2, lemma_enclosing_edge, lemma_enclosing_edge_unique,
    lemma_held_square_fits, lemma_level_fits, lemma_pow2_half, lemma_pow2_positive,
    lemma_side_within_limit, level_at, optimized, region_bricks, uniform, valid_input,
};

verus! {

/// The number of bricks that lie over the cell `(x, y)`.
pub open spec fn cover_count(bricks: Seq<BrickRecord>, unit: int, x: int, y: int) -> nat
    decreases bricks.len(),
{
    if bricks.len() == 0 {
        0
    } else {
        cover_count(bricks.drop_last(), unit, x, y) + if bricks.last().covers(unit, x, y) {
            1nat
        } else {
            0nat
        }
    }
}

/// Whether the cell `(x, y)` is due a brick: it is a cell of the grid and is
/// not culled.
pub open spec fn due(grid: GridModel, config: OptimizerConfig, x: int, y: int) -> bool {
    grid.in_bounds(x, y) && !cell_culled(grid, config, x, y)
}

/// Whether the brick stands for each cell under it: the cell is due a brick,
/// and the brick has the colour of the cell, the vertical extent of its
/// level, and its upper face the fixed offset above that level.
pub open spec fn faithful(brick: BrickRecord, grid: GridModel, config: OptimizerConfig) -> bool {
    forall|x: int, y: int| #[trigger]
        brick.covers(config.spec_unit(), x, y) ==> {
            &&& due(grid, config, x, y)
            &&& brick.color == grid.color_at(x, y)
            &&& brick.extent == spec_vertical_extent(config, level_at(grid, config, x, y))
            &&& brick.top() == level_at(grid, config, x, y) + BASE_OFFSET
        }
}

/// Whether the brick is of the configured type, with an even vertical extent
/// that is not below the minimum of the type; collides as configured; and
/// stands upright and unturned, with the first material and owner.
pub open spec fn well_shaped(brick: BrickRecord, config: OptimizerConfig) -> bool {
    &&& brick.extent % 2 == 0
    &&& brick.extent >= config.brick_type.spec_min_height()
    &&& brick.brick_type == config.brick_type
    &&& brick.collision == config.collision_enabled
    &&& brick.is_plain()
}

proof fn lemma_cover_count_concat(
    front: Seq<BrickRecord>,
    back: Seq<BrickRecord>,
    unit: int,
    x: int,
    y: int,
)
    ensures
        cover_count(front + back, unit, x, y) == cover_count(front, unit, x, y) + cover_count(
            back,
            unit,
            x,
            y,
        ),
    decreases back.len(),
{
    if back.len() == 0 {
        assert(front + back =~= front);
    } else {
        assert((front + back).drop_last() =~= front + back.drop_last());
        lemma_cover_count_concat(front, back.drop_last(), unit, x, y);
    }
}

proof fn lemma_cover_count_single(brick: BrickRecord, unit: int, x: int, y: int)
    ensures
        cover_count(seq![brick], unit, x, y) == if brick.covers(unit, x, y) {
            1nat
        } else {
            0nat
        },
{
    assert(seq![brick].drop_last() =~= Seq::<BrickRecord>::empty());
    assert(cover_count(Seq::<BrickRecord>::empty(), unit, x, y) == 0);
}

/// A brick that lies over a cell is counted.
proof fn lemma_cover_count_at_least_one(
    bricks: Seq<BrickRecord>,
    unit: int,
    x: int,
    y: int,
    i: int,
)
    requires
        0 <= i < bricks.len(),
        bricks[i].covers(unit, x, y),
    ensures
        cover_count(bricks, unit, x, y) >= 1,
    decreases bricks.len(),
{
    if i < bricks.len() - 1 {
        lemma_cover_count_at_least_one(bricks.drop_last(), unit, x, y, i);
    }
}

/// Two bricks that lie over a cell are both counted.
proof fn lemma_cover_count_at_least_two(
    bricks: Seq<BrickRecord>,
    unit: int,
    x: int,
    y: int,
    i: int,
    j: int,
)
    requires
        0 <= i < j < bricks.len(),
        bricks[i].covers(unit, x, y),
        bricks[j].covers(unit, x, y),
    ensures
        cover_count(bricks, unit, x, y) >= 2,
    decreases bricks.len(),
{
    if j < bricks.len() - 1 {
        lemma_cover_count_at_least_two(bricks.drop_last(), unit, x, y, i, j);
    } else {
        lemma_cover_count_at_least_one(bricks.drop_last(), unit, x, y, i);
    }
}

/// Where the count is positive, some brick lies over the cell.
proof fn lemma_cover_count_witness(bricks: Seq<BrickRecord>, unit: int, x: int, y: int) -> (i: int)
    requires
        cover_count(bricks, unit, x, y) >= 1,
    ensures
        0 <= i < bricks.len(),
        bricks[i].covers(unit, x, y),
    decreases bricks.len(),
{
    if bricks.last().covers(unit, x, y) {
        bricks.len() - 1
    } else {
        lemma_cover_count_witness(bricks.drop_last(), unit, x, y)
    }
}

/// A square of one cell is uniform.
proof fn lemma_single_cell_uniform(grid: GridModel, config: OptimizerConfig, square: Square)
    requires
        square.edge == 1,
    ensures
        uniform(grid, config, square),
{
    assert forall|x: int, y: int| square.contains(x, y) implies #[trigger] alike(
        grid,
        config,
        x,
        y,
        square.x0,
        square.y0,
    ) by {
        assert(x == square.x0 && y == square.y0);
    }
}

/// The four quadrants of a node are nodes, and a cell of the node lies in
/// exactly one of them.
proof fn lemma_quadrants(square: Square, x: int, y: int)
    requires
        square.is_node(),
        square.edge > 1,
    ensures
        forall|k: int| 0 <= k < 4 ==> (#[trigger] square.quadrant(k)).is_node(),
        forall|k: int| 0 <= k < 4 ==> (#[trigger] square.quadrant(k)).edge == square.edge / 2,
        square.contains(x, y) <==> (square.quadrant(0).contains(x, y) || square.quadrant(
            1,
        ).contains(x, y) || square.quadrant(2).contains(x, y) || square.quadrant(3).contains(
            x,
            y,
        )),
        !(square.quadrant(0).contains(x, y) && square.quadrant(1).contains(x, y)),
        !(square.quadrant(0).contains(x, y) && square.quadrant(2).contains(x, y)),
        !(square.quadrant(0).contains(x, y) && square.quadrant(3).contains(x, y)),
        !(square.quadrant(1).contains(x, y) && square.quadrant(2).contains(x, y)),
        !(square.quadrant(1).contains(x, y) && square.quadrant(3).contains(x, y)),
        !(square.quadrant(2).contains(x, y) && square.quadrant(3).contains(x, y)),
{
    lemma_pow2_half(square.edge);
}

/// Within a node of the tree, each cell that is due a brick lies under
/// exactly one of the bricks of the node, and no brick of the node lies over
/// any other cell.
pub proof fn lemma_region_coverage(
    grid: GridModel,
    config: OptimizerConfig,
    square: Square,
    x: int,
    y: int,
)
    requires
        valid_input(grid, config),
        square.is_node(),
    ensures
        cover_count(region_bricks(grid, config, square), config.spec_unit(), x, y) == if
            square.contains(x, y) && due(grid, config, x, y) {
            1nat
        } else {
            0nat
        },
    decreases square.edge,
{
    let unit = config.spec_unit();
    lemma_pow2_positive(square.edge);
    if grid.misses(square) {
    } else if grid.holds(square) && uniform(grid, config, square) {
        let level = level_at(grid, config, square.x0, square.y0);
        let color = grid.color_at(square.x0, square.y0);
        if square.contains(x, y) {
            assert(alike(grid, config, x, y, square.x0, square.y0));
        }
        if !config.culls(level, color) {
            lemma_held_square_fits(grid, config, square);
            lemma_brick_covers_region(config, square, level, color, x, y);
            lemma_cover_count_single(brick_for(config, square, level, color), unit, x, y);
        }
    } else if square.edge == 1 {
        lemma_single_cell_uniform(grid, config, square);
    } else {
        lemma_quadrants(square, x, y);
        let b0 = region_bricks(grid, config, square.quadrant(0));
        let b1 = region_bricks(grid, config, square.quadrant(1));
        let b2 = region_bricks(grid, config, square.quadrant(2));
        let b3 = region_bricks(grid, config, square.quadrant(3));
        lemma_region_coverage(grid, config, square.quadrant(0), x, y);
        lemma_region_coverage(grid, config, square.quadrant(1), x, y);
        lemma_region_coverage(grid, config, square.quadrant(2), x, y);
        lemma_region_coverage(grid, config, square.quadrant(3), x, y);
        lemma_cover_count_concat(b0, b1, unit, x, y);
        lemma_cover_count_concat(b0 + b1, b2, unit, x, y);
        lemma_cover_count_concat(b0 + b1 + b2, b3, unit, x, y);
    }
}

/// Every brick of a node of the tree is faithful and well-shaped.
pub proof fn lemma_region_faithful(
    grid: GridModel,
    config: OptimizerConfig,
    square: Square,
    i: int,
)
    requires
        valid_input(grid, config),
        square.is_node(),
        0 <= i < region_bricks(grid, config, square).len(),
    ensures
        faithful(region_bricks(grid, config, square)[i], grid, config),
        well_shaped(region_bricks(grid, config, square)[i], config),
    decreases square.edge,
{
    let unit = config.spec_unit();
    lemma_pow2_positive(square.edge);
    if grid.misses(square) {
    } else if grid.holds(square) && uniform(grid, config, square) {
        let level = level_at(grid, config, square.x0, square.y0);
        let color = grid.color_at(square.x0, square.y0);
        let brick = brick_for(config, square, level, color);
        lemma_held_square_fits(grid, config, square);
        lemma_level_fits(grid, config, square.x0, square.y0);
        lemma_vertical_extent_bounds(config, level);
        assert forall|x: int, y: int| #[trigger] brick.covers(unit, x, y) implies {
            &&& due(grid, config, x, y)
            &&& brick.color == grid.color_at(x, y)
            &&& brick.extent == spec_vertical_extent(config, level_at(grid, config, x, y))
            &&& brick.top() == level_at(grid, config, x, y) + BASE_OFFSET
        } by {
            lemma_brick_covers_region(config, square, level, color, x, y);
            assert(alike(grid, config, x, y, square.x0, square.y0));
        }
    } else if square.edge == 1 {
    } else {
        lemma_quadrants(square, 0, 0);
        let b0 = region_bricks(grid, config, square.quadrant(0));
        let b1 = region_bricks(grid, config, square.quadrant(1));
        let b2 = region_bricks(grid, config, square.quadrant(2));
        if i < b0.len() {
            lemma_region_faithful(grid, config, square.quadrant(0), i);
        } else if i < b0.len() + b1.len() {
            lemma_region_faithful(grid, config, square.quadrant(1), i - b0.len());
        } else if i < b0.len() + b1.len() + b2.len() {
            lemma_region_faithful(grid, config, square.quadrant(2), i - b0.len() - b1.len());
        } else {
            lemma_region_faithful(
                grid,
                config,
                square.quadrant(3),
                i - b0.len() - b1.len() - b2.len(),
            );
        }
    }
}

/// The root of a valid grid is a node of the tree and holds every cell of
/// the grid.
pub proof fn lemma_root(grid: GridModel, config: OptimizerConfig)
    requires
        valid_input(grid, config),
    ensures
        grid.root().is_node(),
        forall|x: int, y: int| grid.in_bounds(x, y) ==> #[trigger] grid.root().contains(x, y),
{
    let longest = if grid.width >= grid.height {
        grid.width
    } else {
        grid.height
    };
    lemma_side_within_limit(config.spec_unit(), grid.width);
    lemma_side_within_limit(config.spec_unit(), grid.height);
    lemma_enclosing_edge(longest);
}

/// Coverage: each cell of a valid grid that is not culled lies under exactly
/// one brick, and no brick lies over a culled cell or over anything that is
/// not a cell of the grid.
pub proof fn lemma_coverage(grid: GridModel, config: OptimizerConfig, x: int, y: int)
    requires
        valid_input(grid, config),
    ensures
        cover_count(optimized(grid, config), config.spec_unit(), x, y) == if due(
            grid,
            config,
            x,
            y,
        ) {
            1nat
        } else {
            0nat
        },
{
    lemma_root(grid, config);
    lemma_region_coverage(grid, config, grid.root(), x, y);
    if grid.in_bounds(x, y) {
        assert(grid.root().contains(x, y));
    }
}

/// Every cell that is due a brick lies under one.
pub proof fn lemma_due_cell_is_covered(grid: GridModel, config: OptimizerConfig, x: int, y: int)
    -> (i: int)
    requires
        valid_input(grid, config),
        due(grid, config, x, y),
    ensures
        0 <= i < optimized(grid, config).len(),
        optimized(grid, config)[i].covers(config.spec_unit(), x, y),
{
    lemma_coverage(grid, config, x, y);
    lemma_cover_count_witness(optimized(grid, config), config.spec_unit(), x, y)
}

/// No two bricks overlap: a cell under one brick is under no other.
pub proof fn lemma_no_overlap(
    grid: GridModel,
    config: OptimizerConfig,
    i: int,
    j: int,
    x: int,
    y: int,
)
    requires
        valid_input(grid, config),
        0 <= i < optimized(grid, config).len(),
        0 <= j < optimized(grid, config).len(),
        i != j,
        optimized(grid, config)[i].covers(config.spec_unit(), x, y),
    ensures
        !optimized(grid, config)[j].covers(config.spec_unit(), x, y),
{
    lemma_coverage(grid, config, x, y);
    if optimized(grid, config)[j].covers(config.spec_unit(), x, y) {
        if i < j {
            lemma_cover_count_at_least_two(
                optimized(grid, config),
                config.spec_unit(),
                x,
                y,
                i,
                j,
            );
        } else {
            lemma_cover_count_at_least_two(
                optimized(grid, config),
                config.spec_unit(),
                x,
                y,
                j,
                i,
            );
        }
    }
}

/// Every brick is faithful to the cells under it, and well-shaped: no brick
/// has a vertical extent that is odd or below the minimum of its type.
pub proof fn lemma_bricks_faithful(grid: GridModel, config: OptimizerConfig, i: int)
    requires
        valid_input(grid, config),
        0 <= i < optimized(grid, config).len(),
    ensures
        faithful(optimized(grid, config)[i], grid, config),
        well_shaped(optimized(grid, config)[i], config),
{
    lemma_root(grid, config);
    lemma_region_faithful(grid, config, grid.root(), i);
}

/// Height fidelity: without snapping and flattening, the vertical extent of
/// the brick over a cell is the scaled height of the cell, raised to the
/// minimum of the brick type and then to the next even number.
pub proof fn lemma_height_fidelity(
    grid: GridModel,
    config: OptimizerConfig,
    i: int,
    x: int,
    y: int,
)
    requires
        valid_input(grid, config),
        !config.snap,
        !config.flatten,
        0 <= i < optimized(grid, config).len(),
        optimized(grid, config)[i].covers(config.spec_unit(), x, y),
    ensures
        optimized(grid, config)[i].extent == round_up_even(
            if grid.height_at(x, y) * config.vertical_scale
                < config.brick_type.spec_min_height() {
                config.brick_type.spec_min_height() as int
            } else {
                grid.height_at(x, y) * config.vertical_scale
            },
        ),
{
    lemma_bricks_faithful(grid, config, i);
}

/// A grid whose sides are one power of two and whose cells are all alike
/// gives one brick over the whole grid, or none where the cells are culled.
pub proof fn lemma_uniform_square_grid(grid: GridModel, config: OptimizerConfig)
    requires
        grid.wf(),
        grid.width == grid.height,
        is_pow2(grid.width),
        uniform(grid, config, Square { x0: 0, y0: 0, edge: grid.width }),
    ensures
        grid.root() == (Square { x0: 0, y0: 0, edge: grid.width }),
        optimized(grid, config) == if cell_culled(grid, config, 0, 0) {
            Seq::<BrickRecord>::empty()
        } else {
            seq![
                brick_for(config, grid.root(), level_at(grid, config, 0, 0), grid.color_at(0, 0)),
            ]
        },
{
    lemma_enclosing_edge_unique(grid.width, grid.width);
}

/// In a grid whose cells are all alike, no square of the grid is split:
/// each gives one brick, or none where the cells are culled. Only squares
/// that reach beyond the grid are divided.
pub proof fn lemma_uniform_grid_keeps_squares_whole(
    grid: GridModel,
    config: OptimizerConfig,
    square: Square,
)
    requires
        grid.wf(),
        forall|x: int, y: int| grid.in_bounds(x, y) ==> #[trigger] alike(grid, config, x, y, 0, 0),
        square.edge >= 1,
        grid.holds(square),
    ensures
        region_bricks(grid, config, square) == if cell_culled(grid, config, 0, 0) {
            Seq::<BrickRecord>::empty()
        } else {
            seq![
                brick_for(config, square, level_at(grid, config, 0, 0), grid.color_at(0, 0)),
            ]
        },
{
    assert(grid.in_bounds(square.x0, square.y0));
    assert(alike(grid, config, square.x0, square.y0, 0, 0));
    assert forall|x: int, y: int| square.contains(x, y) implies #[trigger] alike(
        grid,
        config,
        x,
        y,
        square.x0,
        square.y0,
    ) by {
        assert(grid.in_bounds(x, y));
        assert(alike(grid, config, x, y, 0, 0));
    }
}

/// In flatten mode the bricks of a square depend on the colours alone: two
/// grids of the same sides and colours give the same bricks, whatever their
/// heights.
pub proof fn lemma_flatten_region_ignores_heights(
    first: GridModel,
    second: GridModel,
    config: OptimizerConfig,
    square: Square,
)
    requires
        config.flatten,
        first.width == second.width,
        first.height == second.height,
        first.colors == second.colors,
    ensures
        region_bricks(first, config, square) == region_bricks(second, config, square),
    decreases square.edge,
{
    assert(uniform(first, config, square) == uniform(second, config, square)) by {
        if uniform(first, config, square) {
            assert forall|x: int, y: int| square.contains(x, y) implies #[trigger] alike(
                second,
                config,
                x,
                y,
                square.x0,
                square.y0,
            ) by {
                assert(alike(first, config, x, y, square.x0, square.y0));
            }
        }
        if uniform(second, config, square) {
            assert forall|x: int, y: int| square.contains(x, y) implies #[trigger] alike(
                first,
                config,
                x,
                y,
                square.x0,
                square.y0,
            ) by {
                assert(alike(second, config, x, y, square.x0, square.y0));
            }
        }
    }
    if square.edge > 1 {
        lemma_flatten_region_ignores_heights(first, second, config, square.quadrant(0));
        lemma_flatten_region_ignores_heights(first, second, config, square.quadrant(1));
        lemma_flatten_region_ignores_heights(first, second, config, square.quadrant(2));
        lemma_flatten_region_ignores_heights(first, second, config, square.quadrant(3));
    }
}

/// In flatten mode the bricks of a grid depend on its colours alone.
pub proof fn lemma_flatten_ignores_heights(
    first: GridModel,
    second: GridModel,
    config: OptimizerConfig,
)
    requires
        config.flatten,
        first.width == second.width,
        first.height == second.height,
        first.colors == second.colors,
    ensures
        optimized(first, config) == optimized(second, config),
{
    lemma_flatten_region_ignores_heights(first, second, config, first.root());
}

/// The vertical extent that `ez_brick` gives is even, not below the minimum
/// of the type of the brick and not below the height; and it fits in `u32`
/// for every height but the largest.
pub proof fn lemma_ez_brick_extent(height: u32, tile: bool)
    ensures
        ez_brick_extent(height, tile) % 2 == 0,
        ez_brick_extent(height, tile) >= ez_brick_type(tile).spec_min_height(),
        height <= ez_brick_extent(height, tile) <= height + 2,
        height < u32::MAX ==> ez_brick_extent(height, tile) <= u32::MAX,
{
}

/// The brick that `ez_brick` makes for a place of the lattice lies over the
/// cell of that place and over no other.
pub proof fn lemma_ez_brick_covers_its_cell(
    size: u32,
    position: (i32, i32, i32),
    height: u32,
    color: [u8; 4],
    tile: bool,
    collision: bool,
    x: int,
    y: int,
)
    requires
        size >= 1,
        ez_brick_place_fits(size, position),
    ensures
        spec_ez_brick(size, position, height, color, tile, collision).covers(size as int, x, y)
            <==> (x == position.0 && y == position.1),
{
    lemma_lattice_axis(size as int, position.0 as int, x);
    lemma_lattice_axis(size as int, position.1 as int, y);
}

/// Along one axis, the span of the brick at place `p` of a lattice holds the
/// span of the cell `i` exactly when `i` is `p`.
proof fn lemma_lattice_axis(size: int, p: int, i: int)
    requires
        1 <= size,
    ensures
        (p * size * 2 + 5 - size <= 2 * size * i + 5 - size && 2 * size * i + 5 + size <= p * size
            * 2 + 5 + size) <==> i == p,
        i != p ==> (p * size * 2 - 2 * size * i >= 2 * size || 2 * size * i - p * size * 2 >= 2
            * size),
{
    assert(p * size * 2 == 2 * size * p) by (nonlinear_arith);
    assert(2 * size * p <= 2 * size * i <==> p <= i) by (nonlinear_arith)
        requires
            1 <= size,
    ;
    assert(2 * size * i <= 2 * size * p <==> i <= p) by (nonlinear_arith)
        requires
            1 <= size,
    ;
    assert(2 * size * (p + 1) == 2 * size * p + 2 * size && 2 * size * (i + 1) == 2 * size * i + 2
        * size) by (nonlinear_arith);
    assert(2 * size * (p + 1) <= 2 * size * i <==> p + 1 <= i) by (nonlinear_arith)
        requires
            1 <= size,
    ;
    assert(2 * size * (i + 1) <= 2 * size * p <==> i + 1 <= p) by (nonlinear_arith)
        requires
            1 <= size,
    ;
}

/// The bricks that `ez_brick` makes for two places of one lattice do not
/// overlap: along one axis at least, their centres are a whole cell apart.
pub proof fn lemma_ez_bricks_apart(
    size: u32,
    first: (i32, i32, i32),
    second: (i32, i32, i32),
    heights: (u32, u32),
    colors: ([u8; 4], [u8; 4]),
    tiles: (bool, bool),
    collisions: (bool, bool),
)
    requires
        size >= 1,
        first.0 != second.0 || first.1 != second.1,
        ez_brick_place_fits(size, first),
        ez_brick_place_fits(size, second),
    ensures
        ({
            let a = spec_ez_brick(size, first, heights.0, colors.0, tiles.0, collisions.0);
            let b = spec_ez_brick(size, second, heights.1, colors.1, tiles.1, collisions.1);
            ||| a.position.0 - b.position.0 >= 2 * size
            ||| b.position.0 - a.position.0 >= 2 * size
            ||| a.position.1 - b.position.1 >= 2 * size
            ||| b.position.1 - a.position.1 >= 2 * size
        }),
{
    lemma_lattice_axis(size as int, first.0 as int, second.0 as int);
    lemma_lattice_axis(size as int, first.1 as int, second.1 as int);
    assert(second.0 * size * 2 == 2 * size * second.0 && second.1 * size * 2 == 2 * size
        * second.1) by (nonlinear_arith);
}

/// The brick that `ez_brick` makes is square, of the size that was asked for
/// and of no other, whatever that size is.
pub proof fn lemma_ez_brick_is_square(
    size: u32,
    position: (i32, i32, i32),
    height: u32,
    color: [u8; 4],
    tile: bool,
    collision: bool,
)
    ensures
        spec_ez_brick(size, position, height, color, tile, collision).footprint == size,
        spec_ez_brick(size, position, height, color, tile, collision).spec_size().0 == size,
        spec_ez_brick(size, position, height, color, tile, collision).spec_size().1 == size,
        spec_ez_brick(size, position, height, color, tile, collision).color == color,
        spec_ez_brick(size, position, height, color, tile, collision).collision == collision,
{
}

/// Over a single cell, the optimizer makes the brick that `ez_brick` makes
/// for the place of that cell, given the level of the cell as the height: as
/// long as it does not snap and the brick is basic or a tile.
pub proof fn lemma_single_cell_brick_is_ez_brick(
    config: OptimizerConfig,
    x: u32,
    y: u32,
    level: u32,
    color: [u8; 4],
)
    requires
        config.wf(),
        !config.snap,
        config.brick_type == BrickType::Basic || config.brick_type == BrickType::Tile,
        (Square { x0: x as int, y0: y as int, edge: 1 }).fits(config.spec_unit()),
        level <= i32::MAX,
    ensures
        brick_for(config, Square { x0: x as int, y0: y as int, edge: 1 }, level as int, color)
            == spec_ez_brick(
            config.spec_unit() as u32,
            (x as i32, y as i32, level as i32),
            level,
            color,
            config.brick_type == BrickType::Tile,
            config.collision_enabled,
        ),
{
    let unit = config.spec_unit();
    let square = Square { x0: x as int, y0: y as int, edge: 1 };
    let ours = brick_for(config, square, level as int, color);
    let theirs = spec_ez_brick(
        unit as u32,
        (x as i32, y as i32, level as i32),
        level,
        color,
        config.brick_type == BrickType::Tile,
        config.collision_enabled,
    );
    lemma_brick_horizontal(config, square, level as int, color);
    assert(x <= 2 * unit * x && y <= 2 * unit * y) by (nonlinear_arith)
        requires
            1 <= unit,
            0 <= x,
            0 <= y,
    ;
    assert(2 * unit * (x + 1) == 2 * unit * x + 2 * unit && 2 * unit * (y + 1) == 2 * unit * y + 2
        * unit) by (nonlinear_arith);
    assert(x * unit * 2 == 2 * unit * x && y * unit * 2 == 2 * unit * y) by (nonlinear_arith);
    assert((1 - 1) * unit == 0 && 1 * unit == unit) by (nonlinear_arith);
    assert(ours.position == theirs.position);
    assert(ours.footprint == theirs.footprint);
    assert(ours.extent == theirs.extent);
}

} // verus!
