//! Brick records and the rules that place one brick over a square region.

use vstd::prelude::*;
use crate::util::BrickType;

verus! {

/// Engine units of half-width per stud of size, for every type but `Micro`.
pub const STUD_SCALE: u32 = 5;

/// Horizontal offset, in engine units, of the centre of the cell at the origin.
pub const CENTER_BIAS: i32 = 5;

/// Height, in engine units, by which every upper face lies above its level.
pub const BASE_OFFSET: i32 = 2;

/// Vertical extents are multiples of this when snapping is on.
pub const STACKING_UNIT: u32 = 4;

/// The raw height that every cell is given in flatten mode.
pub const FLAT_HEIGHT: u32 = 1;

/// The largest level for which the vertical extent still fits in `u32`.
pub const MAX_LEVEL: u32 = 0xffff_fffc;

/// What the optimizer is asked to do.
#[derive(Debug, Copy, Clone, PartialEq, Eq)]
pub struct OptimizerConfig {
    /// Leave out bricks over transparent cells and over cells at level zero.
    pub cull: bool,
    /// Factor from raw height to level.
    pub vertical_scale: u32,
    /// Round vertical extents to whole stacking units.
    pub snap: bool,
    pub brick_type: BrickType,
    /// Studs per cell along each horizontal axis.
    pub size_multiplier: u32,
    /// Give every cell the same height, so that only colour decides merges.
    pub flatten: bool,
    pub collision_enabled: bool,
}

/// A square of cells: `edge` cells along each axis, starting at `(x0, y0)`.
#[derive(Debug, Copy, Clone, PartialEq, Eq)]
pub struct Region {
    pub x0: u32,
    pub y0: u32,
    pub edge: u32,
}

/// A region as plain mathematics.
pub struct Square {
    pub x0: int,
    pub y0: int,
    pub edge: int,
}

impl View for Region {
    type V = Square;

    open spec fn view(&self) -> Square {
        Square { x0: self.x0 as int, y0: self.y0 as int, edge: self.edge as int }
    }
}

/// The axis along which the upper face of a brick points.
#[derive(Debug, Copy, Clone, PartialEq, Eq, Hash, Structural)]
pub enum Direction {
    XPositive,
    XNegative,
    YPositive,
    YNegative,
    ZPositive,
    ZNegative,
}

/// How far a brick is turned about its direction.
#[derive(Debug, Copy, Clone, PartialEq, Eq, Hash, Structural)]
pub enum Rotation {
    Deg0,
    Deg90,
    Deg180,
    Deg270,
}

/// The material of every brick: the first of the materials of a save.
pub const MATERIAL_INDEX: u32 = 0;

/// The owner of every brick: the first of the owners of a save.
pub const OWNER_INDEX: u32 = 0;

/// One brick, as it is handed to whatever writes the save.
///
/// `position` is the centre of the brick; `footprint` and `extent` are the
/// distances from the centre to its sides and to its upper and lower faces.
#[derive(Debug, Copy, Clone, PartialEq, Eq)]
pub struct BrickRecord {
    pub position: (i32, i32, i32),
    pub footprint: u32,
    pub extent: u32,
    pub color: [u8; 4],
    pub brick_type: BrickType,
    pub collision: bool,
    pub direction: Direction,
    pub rotation: Rotation,
    pub visibility: bool,
    pub material_index: u32,
    pub owner_index: Option<u32>,
}

impl Square {
    /// Whether the cell `(x, y)` lies in the square.
    pub open spec fn contains(self, x: int, y: int) -> bool {
        self.x0 <= x < self.x0 + self.edge && self.y0 <= y < self.y0 + self.edge
    }

    /// The square is not empty, starts at a cell, and its far sides, in
    /// engine units, fit in `i32` when a cell is `2 * unit` wide.
    pub open spec fn fits(self, unit: int) -> bool {
        &&& 0 <= self.x0
        &&& 0 <= self.y0
        &&& 1 <= self.edge
        &&& span_fits(unit, self.x0 + self.edge)
        &&& span_fits(unit, self.y0 + self.edge)
    }
}

/// Whether the far side of a row of `cells` cells, in engine units, fits in
/// `i32` when a cell is `2 * unit` wide.
pub open spec fn span_fits(unit: int, cells: int) -> bool {
    cell_center(unit, cells) - unit <= i32::MAX
}

impl BrickRecord {
    /// Whether the brick stands upright and unturned, can be seen, and has
    /// the first material and the first owner of its save.
    pub open spec fn is_plain(self) -> bool {
        &&& self.direction == Direction::ZPositive
        &&& self.rotation == Rotation::Deg0
        &&& self.visibility
        &&& self.material_index == MATERIAL_INDEX
        &&& self.owner_index == Some(OWNER_INDEX)
    }

    /// The three distances from the centre of the brick to its faces.
    pub open spec fn spec_size(self) -> (u32, u32, u32) {
        (self.footprint, self.footprint, self.extent)
    }

    /// The three distances from the centre of the brick to its faces.
    pub fn size(&self) -> (size: (u32, u32, u32))
        ensures
            size == self.spec_size(),
    {
        (self.footprint, self.footprint, self.extent)
    }

    /// Whether the brick lies over the whole of cell `(x, y)`, in a grid
    /// whose cells are `2 * unit` wide.
    pub open spec fn covers(self, unit: int, x: int, y: int) -> bool {
        &&& self.position.0 - self.footprint <= cell_center(unit, x) - unit
        &&& cell_center(unit, x) + unit <= self.position.0 + self.footprint
        &&& self.position.1 - self.footprint <= cell_center(unit, y) - unit
        &&& cell_center(unit, y) + unit <= self.position.1 + self.footprint
    }

    /// The height of the upper face of the brick.
    pub open spec fn top(self) -> int {
        self.position.2 + self.extent
    }
}

impl OptimizerConfig {
    /// The scale is positive and so is the size of a cell.
    pub open spec fn wf(self) -> bool {
        self.vertical_scale >= 1 && self.size_multiplier >= 1
    }

    /// Half the width of one cell, in engine units: the size of a cell in
    /// studs, scaled for every type but `Micro`.
    pub open spec fn spec_unit(self) -> int {
        if self.brick_type == BrickType::Micro {
            self.size_multiplier as int
        } else {
            self.size_multiplier * STUD_SCALE
        }
    }

    /// Half the width of one cell, in engine units.
    pub fn unit(&self) -> (unit: u64)
        ensures
            unit == self.spec_unit(),
    {
        match self.brick_type {
            BrickType::Micro => self.size_multiplier as u64,
            _ => {
                let scale: u64 = STUD_SCALE as u64;
                assert(scale == 5);
                self.size_multiplier as u64 * scale
            },
        }
    }

    /// The level of a cell of raw height `height`.
    pub open spec fn level(self, height: int) -> int {
        if self.flatten {
            FLAT_HEIGHT * self.vertical_scale
        } else {
            height * self.vertical_scale
        }
    }

    /// Whether a cell of this level and colour gets no brick.
    pub open spec fn culls(self, level: int, color: [u8; 4]) -> bool {
        self.cull && (level == 0 || color[3] == 0)
    }
}

/// `n` if it is even, else the next integer.
pub open spec fn round_up_even(n: int) -> int {
    n + n % 2
}

/// The multiple of the stacking unit nearest to `n`; of two equally near, the
/// upper one.
pub open spec fn snap_to_stack(n: int) -> int {
    (n + STACKING_UNIT / 2) / (STACKING_UNIT as int) * STACKING_UNIT
}

/// The vertical extent of a brick whose upper face marks `level`.
pub open spec fn spec_vertical_extent(config: OptimizerConfig, level: int) -> int {
    let raised = if level < config.brick_type.spec_min_height() {
        config.brick_type.spec_min_height() as int
    } else {
        level
    };
    if config.snap {
        snap_to_stack(round_up_even(raised))
    } else {
        round_up_even(raised)
    }
}

/// The horizontal coordinate of the centre of the cells in column or row `i`.
pub open spec fn cell_center(unit: int, i: int) -> int {
    2 * unit * i + CENTER_BIAS
}

/// The brick that stands for `region` when all its cells have this level and
/// colour.
pub open spec fn brick_for(config: OptimizerConfig, region: Square, level: int, color: [u8; 4]) -> BrickRecord {
    let unit = config.spec_unit();
    let extent = spec_vertical_extent(config, level);
    BrickRecord {
        position: (
            (cell_center(unit, region.x0) + (region.edge - 1) * unit) as i32,
            (cell_center(unit, region.y0) + (region.edge - 1) * unit) as i32,
            (level - extent + BASE_OFFSET) as i32,
        ),
        footprint: (region.edge * unit) as u32,
        extent: extent as u32,
        color,
        brick_type: config.brick_type,
        collision: config.collision_enabled,
        direction: Direction::ZPositive,
        rotation: Rotation::Deg0,
        visibility: true,
        material_index: MATERIAL_INDEX,
        owner_index: Some(OWNER_INDEX),
    }
}

/// Even, not below the minimum of the brick type, and not below the level.
pub proof fn lemma_vertical_extent_bounds(config: OptimizerConfig, level: int)
    requires
        0 <= level,
    ensures
        spec_vertical_extent(config, level) % 2 == 0,
        spec_vertical_extent(config, level) >= config.brick_type.spec_min_height(),
        spec_vertical_extent(config, level) >= level,
        spec_vertical_extent(config, level) <= level + 8,
        config.snap ==> spec_vertical_extent(config, level) % (STACKING_UNIT as int) == 0,
{
}

/// Computes the vertical extent of a brick whose upper face marks `level`.
pub fn vertical_extent(config: &OptimizerConfig, level: u32) -> (extent: u32)
    requires
        level <= MAX_LEVEL,
    ensures
        extent == spec_vertical_extent(*config, level as int),
{
    let min = config.brick_type.min_height();
    let raised = if level < min { min } else { level };
    let even = raised + raised % 2;
    if config.snap {
        (even + STACKING_UNIT / 2) / STACKING_UNIT * STACKING_UNIT
    } else {
        even
    }
}

/// The brick for a region lies over exactly the cells of the region.
pub proof fn lemma_brick_covers_region(
    config: OptimizerConfig,
    region: Square,
    level: int,
    color: [u8; 4],
    x: int,
    y: int,
)
    requires
        config.wf(),
        region.fits(config.spec_unit()),
    ensures
        brick_for(config, region, level, color).covers(config.spec_unit(), x, y)
            <==> region.contains(x, y),
{
    let unit = config.spec_unit();
    let brick = brick_for(config, region, level, color);
    lemma_brick_horizontal(config, region, level, color);
    lemma_axis_covered(unit, region.x0, region.edge, x);
    lemma_axis_covered(unit, region.y0, region.edge, y);
}

/// Along one axis, the span of a brick holds the span of a cell exactly when
/// the cell is one of those that the brick was made for.
proof fn lemma_axis_covered(unit: int, start: int, edge: int, i: int)
    requires
        1 <= unit,
        1 <= edge,
    ensures
        (cell_center(unit, start) + (edge - 1) * unit - edge * unit <= cell_center(unit, i) - unit
            && cell_center(unit, i) + unit <= cell_center(unit, start) + (edge - 1) * unit + edge
            * unit) <==> start <= i < start + edge,
{
    assert((edge - 1) * unit - edge * unit == -unit) by (nonlinear_arith);
    assert((edge - 1) * unit + edge * unit == 2 * unit * edge - unit) by (nonlinear_arith);
    assert(2 * unit * start + 2 * unit * edge == 2 * unit * (start + edge)) by (nonlinear_arith);
    assert(2 * unit * start <= 2 * unit * i <==> start <= i) by (nonlinear_arith)
        requires
            1 <= unit,
    ;
    assert(2 * unit * i + 2 * unit <= 2 * unit * (start + edge) <==> i + 1 <= start + edge)
        by (nonlinear_arith)
        requires
            1 <= unit,
    ;
}

/// The horizontal fields of the brick for a region, free of casts.
pub proof fn lemma_brick_horizontal(
    config: OptimizerConfig,
    region: Square,
    level: int,
    color: [u8; 4],
)
    requires
        config.wf(),
        region.fits(config.spec_unit()),
    ensures
        brick_for(config, region, level, color).position.0 == cell_center(
            config.spec_unit(),
            region.x0,
        ) + (region.edge - 1) * config.spec_unit(),
        brick_for(config, region, level, color).position.1 == cell_center(
            config.spec_unit(),
            region.y0,
        ) + (region.edge - 1) * config.spec_unit(),
        brick_for(config, region, level, color).footprint == region.edge * config.spec_unit(),
        1 <= config.spec_unit() <= i32::MAX,
{
    let unit = config.spec_unit();
    lemma_axis_bounds(unit, region.x0, region.edge);
    lemma_axis_bounds(unit, region.y0, region.edge);
}

/// Along one axis, the centre and the half-width of a brick are within the
/// far side of its region.
proof fn lemma_axis_bounds(unit: int, start: int, edge: int)
    requires
        1 <= unit,
        0 <= start,
        1 <= edge,
        span_fits(unit, start + edge),
    ensures
        0 <= cell_center(unit, start) + (edge - 1) * unit <= i32::MAX,
        0 <= edge * unit <= i32::MAX,
        unit <= i32::MAX,
        0 <= unit * start <= i32::MAX,
        0 <= (edge - 1) * unit <= i32::MAX,
{
    assert(2 * unit * (start + edge) == 2 * (unit * start) + 2 * (edge * unit))
        by (nonlinear_arith);
    assert((edge - 1) * unit == edge * unit - unit) by (nonlinear_arith);
    assert(2 * unit * start == 2 * (unit * start)) by (nonlinear_arith);
    assert(0 <= unit * start) by (nonlinear_arith)
        requires
            1 <= unit,
            0 <= start,
    ;
    assert(unit <= edge * unit) by (nonlinear_arith)
        requires
            1 <= unit,
            1 <= edge,
    ;
}

/// Builds the brick that stands for `region` when all its cells have this
/// level and colour.
pub fn emit_brick(config: &OptimizerConfig, region: Region, level: u32, color: [u8; 4]) -> (brick:
    BrickRecord)
    requires
        config.wf(),
        region@.fits(config.spec_unit()),
        level <= MAX_LEVEL,
    ensures
        brick == brick_for(*config, region@, level as int, color),
{
    let unit = config.unit();
    let extent = vertical_extent(config, level);
    proof {
        lemma_vertical_extent_bounds(*config, level as int);
        lemma_axis_bounds(unit as int, region.x0 as int, region.edge as int);
        lemma_axis_bounds(unit as int, region.y0 as int, region.edge as int);
    }
    let spread: u64 = (region.edge - 1) as u64 * unit;
    let x: u64 = 2 * (unit * region.x0 as u64) + CENTER_BIAS as u64 + spread;
    let y: u64 = 2 * (unit * region.y0 as u64) + CENTER_BIAS as u64 + spread;
    let z: i64 = level as i64 - extent as i64 + BASE_OFFSET as i64;
    assert(2 * (unit * region.x0) == 2 * unit * region.x0) by (nonlinear_arith);
    assert(2 * (unit * region.y0) == 2 * unit * region.y0) by (nonlinear_arith);
    BrickRecord {
        position: (x as i32, y as i32, z as i32),
        footprint: (region.edge as u64 * unit) as u32,
        extent,
        color,
        brick_type: config.brick_type,
        collision: config.collision_enabled,
        direction: Direction::ZPositive,
        rotation: Rotation::Deg0,
        visibility: true,
        material_index: MATERIAL_INDEX,
        owner_index: Some(OWNER_INDEX),
    }
}

} // verus!
