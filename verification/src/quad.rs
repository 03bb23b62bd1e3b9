//! The optimizer: a quadtree over the grid that turns every square of like
//! cells into one brick.

use vstd::prelude::*;
use crate::brick::{
    brick_for, emit_brick, span_fits, BrickRecord, OptimizerConfig, Region, Square, FLAT_HEIGHT,
    MAX_LEVEL,
};
use crate::laws::{
    cover_count, due, faithful, lemma_bricks_faithful, lemma_coverage, well_shaped,
};
use crate::map::{lemma_max_of, max_of, Grid, GridModel};

verus! {

/// Whether `n` is a power of two.
pub open spec fn is_pow2(n: int) -> bool
    decreases n,
{
    if n <= 1 {
        n == 1
    } else {
        n % 2 == 0 && is_pow2(n / 2)
    }
}

/// The smallest power of two that is not below `n`.
pub open spec fn enclosing_edge(n: int) -> int
    decreases n,
{
    if n <= 1 {
        1
    } else {
        2 * enclosing_edge((n + 1) / 2)
    }
}

/// The largest coordinate that the far side of a square of the tree may have.
pub const EDGE_LIMIT: u32 = 0x8000_0000;

impl Square {
    /// One of the four squares of half the edge that make up this one:
    /// `k` counts them row by row.
    pub open spec fn quadrant(self, k: int) -> Square {
        let half = self.edge / 2;
        Square {
            x0: if k % 2 == 0 { self.x0 } else { self.x0 + half },
            y0: if k < 2 { self.y0 } else { self.y0 + half },
            edge: half,
        }
    }

    /// The square can be a node of the tree: it starts at a cell, its edge is
    /// a power of two, and its far sides are within the limit.
    pub open spec fn is_node(self) -> bool {
        &&& 0 <= self.x0
        &&& 0 <= self.y0
        &&& is_pow2(self.edge)
        &&& self.x0 + self.edge <= EDGE_LIMIT
        &&& self.y0 + self.edge <= EDGE_LIMIT
    }
}

impl GridModel {
    /// Whether every cell of the square is a cell of the grid.
    pub open spec fn holds(self, square: Square) -> bool {
        &&& 0 <= square.x0
        &&& 0 <= square.y0
        &&& square.x0 + square.edge <= self.width
        &&& square.y0 + square.edge <= self.height
    }

    /// Whether no cell of the square is a cell of the grid.
    pub open spec fn misses(self, square: Square) -> bool {
        square.x0 >= self.width || square.y0 >= self.height
    }

    /// The square that the tree starts from: the smallest one at the origin
    /// whose edge is a power of two and which holds the whole grid.
    pub open spec fn root(self) -> Square {
        Square {
            x0: 0,
            y0: 0,
            edge: enclosing_edge(if self.width >= self.height { self.width } else { self.height }),
        }
    }
}

/// The level of the cell `(x, y)`.
pub open spec fn level_at(grid: GridModel, config: OptimizerConfig, x: int, y: int) -> int {
    config.level(grid.height_at(x, y) as int)
}

/// Whether the cells `(x, y)` and `(u, v)` have the same level and colour.
pub open spec fn alike(
    grid: GridModel,
    config: OptimizerConfig,
    x: int,
    y: int,
    u: int,
    v: int,
) -> bool {
    level_at(grid, config, x, y) == level_at(grid, config, u, v) && grid.color_at(x, y)
        == grid.color_at(u, v)
}

/// Whether all cells of the square have one level and one colour.
pub open spec fn uniform(grid: GridModel, config: OptimizerConfig, square: Square) -> bool {
    forall|x: int, y: int|
        square.contains(x, y) ==> #[trigger] alike(grid, config, x, y, square.x0, square.y0)
}

/// Whether the cell `(x, y)` gets no brick.
pub open spec fn cell_culled(grid: GridModel, config: OptimizerConfig, x: int, y: int) -> bool {
    config.culls(level_at(grid, config, x, y), grid.color_at(x, y))
}

/// What the scan of a square finds.
#[derive(Debug, Copy, Clone, PartialEq, Eq)]
pub enum MergeOutcome {
    /// All cells have this level and this colour.
    Uniform { level: u32, color: [u8; 4] },
    /// Two cells differ in level or in colour.
    Heterogeneous,
}

/// What the scan of a square of the grid finds.
pub open spec fn spec_merge_outcome(
    grid: GridModel,
    config: OptimizerConfig,
    square: Square,
) -> MergeOutcome {
    if uniform(grid, config, square) {
        MergeOutcome::Uniform {
            level: level_at(grid, config, square.x0, square.y0) as u32,
            color: grid.color_at(square.x0, square.y0),
        }
    } else {
        MergeOutcome::Heterogeneous
    }
}

/// The bricks of a square, in the order in which they are emitted.
///
/// A square with no cell of the grid gives none. A square of the grid whose
/// cells are all alike gives one brick, or none where its cells are culled.
/// Any other square gives the bricks of its four quadrants, row by row.
pub open spec fn region_bricks(
    grid: GridModel,
    config: OptimizerConfig,
    square: Square,
) -> Seq<BrickRecord>
    decreases square.edge,
{
    if square.edge < 1 || grid.misses(square) {
        Seq::empty()
    } else if grid.holds(square) && uniform(grid, config, square) {
        let level = level_at(grid, config, square.x0, square.y0);
        let color = grid.color_at(square.x0, square.y0);
        if config.culls(level, color) {
            Seq::empty()
        } else {
            seq![brick_for(config, square, level, color)]
        }
    } else if square.edge == 1 {
        Seq::empty()
    } else {
        region_bricks(grid, config, square.quadrant(0)) + region_bricks(
            grid,
            config,
            square.quadrant(1),
        ) + region_bricks(grid, config, square.quadrant(2)) + region_bricks(
            grid,
            config,
            square.quadrant(3),
        )
    }
}

/// The bricks of the whole grid.
pub open spec fn optimized(grid: GridModel, config: OptimizerConfig) -> Seq<BrickRecord> {
    region_bricks(grid, config, grid.root())
}

/// The grid and the configuration are well-formed, the far sides of the grid
/// fit in `i32` in engine units, and the level of the highest cell is within
/// the limit.
pub open spec fn valid_input(grid: GridModel, config: OptimizerConfig) -> bool {
    &&& grid.wf()
    &&& config.wf()
    &&& span_fits(config.spec_unit(), grid.width)
    &&& span_fits(config.spec_unit(), grid.height)
    &&& config.level(max_of(grid.heights)) <= MAX_LEVEL
}

/// Why a grid cannot be optimized under a configuration.
#[derive(Debug, Copy, Clone, PartialEq, Eq, Structural)]
pub enum InputError {
    /// The vertical scale or the size multiplier is zero.
    InvalidConfig,
    /// A far side of the grid, in engine units, does not fit in `i32`.
    TooWide,
    /// The level of the highest cell is above the limit.
    TooHigh,
}

/// What is wrong with an input, if anything: the first of the three faults,
/// in the order in which `InputError` lists them.
pub open spec fn spec_validate(grid: GridModel, config: OptimizerConfig) -> Result<
    (),
    InputError,
> {
    if !config.wf() {
        Err(InputError::InvalidConfig)
    } else if !span_fits(config.spec_unit(), grid.width) || !span_fits(
        config.spec_unit(),
        grid.height,
    ) {
        Err(InputError::TooWide)
    } else if config.level(max_of(grid.heights)) > MAX_LEVEL {
        Err(InputError::TooHigh)
    } else {
        Ok(())
    }
}

/// The level of every cell of a valid input is within the limit.
pub proof fn lemma_level_fits(grid: GridModel, config: OptimizerConfig, x: int, y: int)
    requires
        valid_input(grid, config),
        grid.in_bounds(x, y),
    ensures
        0 <= level_at(grid, config, x, y) <= MAX_LEVEL,
{
    grid.lemma_index_in_range(x, y);
    lemma_max_of(grid.heights);
    let height = grid.height_at(x, y) as int;
    let max = max_of(grid.heights);
    let scale = config.vertical_scale as int;
    assert(0 <= height * scale <= max * scale) by (nonlinear_arith)
        requires
            0 <= height <= max,
            0 <= scale,
    ;
}

/// A square of a valid grid fits, in engine units, wherever it lies.
pub proof fn lemma_held_square_fits(grid: GridModel, config: OptimizerConfig, square: Square)
    requires
        valid_input(grid, config),
        grid.holds(square),
        1 <= square.edge,
    ensures
        square.fits(config.spec_unit()),
{
    let unit = config.spec_unit();
    assert(2 * unit * (square.x0 + square.edge) <= 2 * unit * grid.width) by (nonlinear_arith)
        requires
            1 <= unit,
            square.x0 + square.edge <= grid.width,
    ;
    assert(2 * unit * (square.y0 + square.edge) <= 2 * unit * grid.height) by (nonlinear_arith)
        requires
            1 <= unit,
            square.y0 + square.edge <= grid.height,
    ;
}

/// Whether two colours are the same.
pub fn same_color(a: [u8; 4], b: [u8; 4]) -> (same: bool)
    ensures
        same == (a == b),
{
    let same = a[0] == b[0] && a[1] == b[1] && a[2] == b[2] && a[3] == b[3];
    assert(same == (a =~= b));
    same
}

/// Computes the level of the cell `(x, y)`.
pub fn cell_level(grid: &Grid, config: &OptimizerConfig, x: u32, y: u32) -> (level: u32)
    requires
        valid_input(grid@, *config),
        grid@.in_bounds(x as int, y as int),
    ensures
        level == level_at(grid@, *config, x as int, y as int),
        level <= MAX_LEVEL,
{
    proof {
        lemma_level_fits(grid@, *config, x as int, y as int);
    }
    let height = if config.flatten {
        FLAT_HEIGHT
    } else {
        grid.height_at(x, y)
    };
    (height as u64 * config.vertical_scale as u64) as u32
}

/// Scans a square of the grid.
pub fn merge_outcome(grid: &Grid, config: &OptimizerConfig, region: Region) -> (outcome:
    MergeOutcome)
    requires
        valid_input(grid@, *config),
        grid@.holds(region@),
        1 <= region.edge,
    ensures
        outcome == spec_merge_outcome(grid@, *config, region@),
{
    let level = cell_level(grid, config, region.x0, region.y0);
    let color = grid.color_at(region.x0, region.y0);
    let mut dy: u32 = 0;
    while dy < region.edge
        invariant
            valid_input(grid@, *config),
            grid@.holds(region@),
            1 <= region.edge,
            dy <= region.edge,
            level == level_at(grid@, *config, region.x0 as int, region.y0 as int),
            color == grid@.color_at(region.x0 as int, region.y0 as int),
            forall|x: int, y: int|
                region@.contains(x, y) && y < region.y0 + dy ==> #[trigger] alike(
                    grid@,
                    *config,
                    x,
                    y,
                    region.x0 as int,
                    region.y0 as int,
                ),
        decreases region.edge - dy,
    {
        let y = region.y0 + dy;
        let mut dx: u32 = 0;
        while dx < region.edge
            invariant
                valid_input(grid@, *config),
                grid@.holds(region@),
                1 <= region.edge,
                dy < region.edge,
                dx <= region.edge,
                y == region.y0 + dy,
                level == level_at(grid@, *config, region.x0 as int, region.y0 as int),
                color == grid@.color_at(region.x0 as int, region.y0 as int),
                forall|x: int, y: int|
                    region@.contains(x, y) && (y < region.y0 + dy || (y == region.y0 + dy && x
                        < region.x0 + dx)) ==> #[trigger] alike(
                        grid@,
                        *config,
                        x,
                        y,
                        region.x0 as int,
                        region.y0 as int,
                    ),
            decreases region.edge - dx,
        {
            let x = region.x0 + dx;
            let here = cell_level(grid, config, x, y);
            if here != level || !same_color(grid.color_at(x, y), color) {
                assert(region@.contains(x as int, y as int));
                assert(!alike(
                    grid@,
                    *config,
                    x as int,
                    y as int,
                    region.x0 as int,
                    region.y0 as int,
                ));
                return MergeOutcome::Heterogeneous;
            }
            dx += 1;
        }
        dy += 1;
    }
    MergeOutcome::Uniform { level, color }
}

/// Half of a power of two above one is a power of two, and twice the half
/// gives it back.
pub proof fn lemma_pow2_half(n: int)
    requires
        is_pow2(n),
        n > 1,
    ensures
        is_pow2(n / 2),
        n == 2 * (n / 2),
        1 <= n / 2 < n,
{
}

/// A power of two is positive.
pub proof fn lemma_pow2_positive(n: int)
    requires
        is_pow2(n),
    ensures
        n >= 1,
    decreases n,
{
    if n > 1 {
        lemma_pow2_half(n);
        lemma_pow2_positive(n / 2);
    }
}

/// The enclosing edge of `n` is a power of two, not below `n`, and less than
/// twice `n`.
pub proof fn lemma_enclosing_edge(n: int)
    ensures
        is_pow2(enclosing_edge(n)),
        enclosing_edge(n) >= n,
        enclosing_edge(n) >= 1,
        n >= 1 ==> enclosing_edge(n) < 2 * n,
    decreases n,
{
    if n > 1 {
        lemma_enclosing_edge((n + 1) / 2);
        let half = enclosing_edge((n + 1) / 2);
        assert((2 * half) / 2 == half);
    }
}

/// Only one power of two is not below `n` while its half is.
pub proof fn lemma_enclosing_edge_unique(n: int, edge: int)
    requires
        is_pow2(edge),
        edge >= n,
        edge == 1 || edge / 2 < n,
    ensures
        edge == enclosing_edge(n),
    decreases n,
{
    lemma_pow2_positive(edge);
    if n > 1 {
        lemma_pow2_half(edge);
        if edge / 2 > 1 {
            lemma_pow2_half(edge / 2);
        }
        lemma_enclosing_edge_unique((n + 1) / 2, edge / 2);
    }
}

/// Of two powers of two, the larger is at least twice the smaller.
pub proof fn lemma_pow2_gap(small: int, large: int)
    requires
        is_pow2(small),
        is_pow2(large),
        small < large,
    ensures
        2 * small <= large,
    decreases large,
{
    lemma_pow2_positive(small);
    if small > 1 {
        lemma_pow2_half(small);
        lemma_pow2_half(large);
        lemma_pow2_gap(small / 2, large / 2);
    }
}

/// The limit on the far side of a square is a power of two.
pub proof fn lemma_edge_limit_pow2()
    ensures
        is_pow2(EDGE_LIMIT as int),
{
    reveal_with_fuel(is_pow2, 33);
}

/// Computes the smallest power of two that is not below `n`.
pub fn enclosing_edge_of(n: u32) -> (edge: u32)
    requires
        n <= EDGE_LIMIT,
    ensures
        edge == enclosing_edge(n as int),
{
    let mut edge: u32 = 1;
    while edge < n
        invariant
            n <= EDGE_LIMIT,
            is_pow2(edge as int),
            edge <= EDGE_LIMIT,
            edge == 1 || edge / 2 < n,
        decreases EDGE_LIMIT - edge,
    {
        proof {
            lemma_edge_limit_pow2();
            lemma_pow2_gap(edge as int, EDGE_LIMIT as int);
            assert((2 * edge as int) / 2 == edge as int);
        }
        edge = 2 * edge;
    }
    proof {
        lemma_enclosing_edge_unique(n as int, edge as int);
    }
    edge
}

/// Appends the bricks of a square of the tree to `bricks`.
pub fn collect_region(
    grid: &Grid,
    config: &OptimizerConfig,
    region: Region,
    bricks: &mut Vec<BrickRecord>,
)
    requires
        valid_input(grid@, *config),
        region@.is_node(),
    ensures
        final(bricks)@ == old(bricks)@ + region_bricks(grid@, *config, region@),
    decreases region.edge,
{
    proof {
        lemma_pow2_positive(region.edge as int);
    }
    let (width, height) = grid.dimensions();
    if region.x0 >= width || region.y0 >= height {
        assert(bricks@ == old(bricks)@ + Seq::<BrickRecord>::empty());
        return;
    }
    if region.x0 + region.edge <= width && region.y0 + region.edge <= height {
        proof {
            lemma_level_fits(grid@, *config, region.x0 as int, region.y0 as int);
        }
        match merge_outcome(grid, config, region) {
            MergeOutcome::Uniform { level, color } => {
                if config.cull && (level == 0 || color[3] == 0) {
                    assert(bricks@ == old(bricks)@ + Seq::<BrickRecord>::empty());
                } else {
                    proof {
                        lemma_held_square_fits(grid@, *config, region@);
                    }
                    bricks.push(emit_brick(config, region, level, color));
                    assert(bricks@ == old(bricks)@ + seq![
                        brick_for(*config, region@, level as int, color),
                    ]);
                }
                return;
            },
            MergeOutcome::Heterogeneous => {},
        }
    }
    if region.edge == 1 {
        assert(bricks@ == old(bricks)@ + Seq::<BrickRecord>::empty());
        return;
    }
    proof {
        lemma_pow2_half(region.edge as int);
    }
    let half = region.edge / 2;
    let q0 = Region { x0: region.x0, y0: region.y0, edge: half };
    let q1 = Region { x0: region.x0 + half, y0: region.y0, edge: half };
    let q2 = Region { x0: region.x0, y0: region.y0 + half, edge: half };
    let q3 = Region { x0: region.x0 + half, y0: region.y0 + half, edge: half };
    assert(q0@ == region@.quadrant(0));
    assert(q1@ == region@.quadrant(1));
    assert(q2@ == region@.quadrant(2));
    assert(q3@ == region@.quadrant(3));
    collect_region(grid, config, q0, bricks);
    collect_region(grid, config, q1, bricks);
    collect_region(grid, config, q2, bricks);
    collect_region(grid, config, q3, bricks);
    assert(bricks@ == old(bricks)@ + region_bricks(grid@, *config, region@));
}

/// Checks that the grid can be optimized under the configuration.
pub fn validate(grid: &Grid, config: &OptimizerConfig) -> (result: Result<(), InputError>)
    ensures
        result == spec_validate(grid@, *config),
        result is Ok <==> valid_input(grid@, *config),
{
    if config.vertical_scale == 0 || config.size_multiplier == 0 {
        return Err(InputError::InvalidConfig);
    }
    let (width, height) = grid.dimensions();
    let unit = config.unit();
    if !span_within(unit, width) || !span_within(unit, height) {
        return Err(InputError::TooWide);
    }
    let highest = if config.flatten {
        FLAT_HEIGHT
    } else {
        grid.max_height()
    };
    assert(0 <= highest * config.vertical_scale <= 0xffff_ffff * 0xffff_ffff) by (nonlinear_arith)
        requires
            0 <= highest <= 0xffff_ffff,
            0 <= config.vertical_scale <= 0xffff_ffff,
    ;
    if highest as u64 * config.vertical_scale as u64 > MAX_LEVEL as u64 {
        return Err(InputError::TooHigh);
    }
    Ok(())
}

/// Whether the far side of a row of `cells` cells, in engine units, fits in
/// `i32` when a cell is `2 * unit` wide.
pub fn span_within(unit: u64, cells: u32) -> (within: bool)
    ensures
        within == span_fits(unit as int, cells as int),
{
    assert(0 <= 2 * unit * cells <= 2 * 0xffff_ffff_ffff_ffff * 0xffff_ffff) by (nonlinear_arith)
        requires
            0 <= unit <= 0xffff_ffff_ffff_ffff,
            0 <= cells <= 0xffff_ffff,
    ;
    2 * unit as u128 * cells as u128 + 5 <= i32::MAX as u128 + unit as u128
}

/// Turns a grid into bricks: every cell that is not culled lies under exactly
/// one brick, which has the level and the colour of the cell; no brick lies
/// over anything else, and none has a vertical extent that is odd or below the
/// minimum of its type.
pub fn gen_opt_heightmap(grid: &Grid, config: &OptimizerConfig) -> (bricks: Vec<BrickRecord>)
    requires
        valid_input(grid@, *config),
    ensures
        bricks@ == optimized(grid@, *config),
        forall|x: int, y: int|
            #[trigger] cover_count(bricks@, config.spec_unit(), x, y) == if due(
                grid@,
                *config,
                x,
                y,
            ) {
                1nat
            } else {
                0nat
            },
        forall|i: int|
            0 <= i < bricks.len() ==> faithful(#[trigger] bricks[i], grid@, *config)
                && well_shaped(bricks[i], *config),
{
    let (width, height) = grid.dimensions();
    let longest = if width >= height {
        width
    } else {
        height
    };
    proof {
        lemma_side_within_limit(config.spec_unit(), width as int);
        lemma_side_within_limit(config.spec_unit(), height as int);
        lemma_enclosing_edge(longest as int);
    }
    let root = Region { x0: 0, y0: 0, edge: enclosing_edge_of(longest) };
    assert(root@ == grid@.root());
    let mut bricks: Vec<BrickRecord> = Vec::new();
    collect_region(grid, config, root, &mut bricks);
    proof {
        assert(bricks@ == optimized(grid@, *config));
        assert forall|x: int, y: int|
            #[trigger] cover_count(bricks@, config.spec_unit(), x, y) == if due(
                grid@,
                *config,
                x,
                y,
            ) {
                1nat
            } else {
                0nat
            } by {
            lemma_coverage(grid@, *config, x, y);
        }
        assert forall|i: int| 0 <= i < bricks.len() implies faithful(
            #[trigger] bricks[i],
            grid@,
            *config,
        ) && well_shaped(bricks[i], *config) by {
            lemma_bricks_faithful(grid@, *config, i);
        }
    }
    bricks
}

/// A row of cells whose far side fits has at most `2^30` cells.
pub proof fn lemma_side_within_limit(unit: int, cells: int)
    requires
        1 <= unit,
        1 <= cells,
        span_fits(unit, cells),
    ensures
        2 * cells <= EDGE_LIMIT,
{
    assert(2 * cells - 1 <= 2 * unit * cells - unit) by (nonlinear_arith)
        requires
            1 <= unit,
            1 <= cells,
    ;
}

/// Checks the input and turns the grid into bricks.
pub fn optimize(grid: &Grid, config: &OptimizerConfig) -> (result: Result<
    Vec<BrickRecord>,
    InputError,
>)
    ensures
        match result {
            Ok(bricks) => {
                &&& valid_input(grid@, *config)
                &&& spec_validate(grid@, *config) is Ok
                &&& bricks@ == optimized(grid@, *config)
                &&& forall|x: int, y: int|
                    #[trigger] cover_count(bricks@, config.spec_unit(), x, y) == if due(
                        grid@,
                        *config,
                        x,
                        y,
                    ) {
                        1nat
                    } else {
                        0nat
                    }
                &&& forall|i: int|
                    0 <= i < bricks.len() ==> faithful(#[trigger] bricks[i], grid@, *config)
                        && well_shaped(bricks[i], *config)
            },
            Err(error) => {
                &&& !valid_input(grid@, *config)
                &&& spec_validate(grid@, *config) == Err::<(), InputError>(error)
            },
        },
{
    match validate(grid, config) {
        Ok(()) => Ok(gen_opt_heightmap(grid, config)),
        Err(error) => Err(error),
    }
}

} // verus!
