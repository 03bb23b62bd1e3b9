use heightmap::brick::{BrickRecord, Direction, OptimizerConfig, Region, Rotation};
use heightmap::map::Grid;
use heightmap::quad::{
    cell_level, collect_region, enclosing_edge_of, gen_opt_heightmap, merge_outcome, optimize,
    same_color, span_within, validate, InputError, MergeOutcome,
};
use heightmap::util::BrickType;

const WHITE: [u8; 4] = [255, 255, 255, 255];

fn config(brick_type: BrickType) -> OptimizerConfig {
    OptimizerConfig {
        cull: false,
        vertical_scale: 1,
        snap: false,
        brick_type,
        size_multiplier: 1,
        flatten: false,
        collision_enabled: true,
    }
}

fn unit(config: &OptimizerConfig) -> i64 {
    match config.brick_type {
        BrickType::Micro => config.size_multiplier as i64,
        _ => config.size_multiplier as i64 * 5,
    }
}

fn covers(brick: &BrickRecord, unit: i64, x: i64, y: i64) -> bool {
    let cx = 2 * unit * x + 5;
    let cy = 2 * unit * y + 5;
    let half = brick.footprint as i64;
    brick.position.0 as i64 - half <= cx - unit
        && cx + unit <= brick.position.0 as i64 + half
        && brick.position.1 as i64 - half <= cy - unit
        && cy + unit <= brick.position.1 as i64 + half
}

fn cover_count(bricks: &[BrickRecord], unit: i64, x: i64, y: i64) -> usize {
    bricks.iter().filter(|b| covers(b, unit, x, y)).count()
}

fn grid_of(width: u32, height: u32, heights: Vec<u32>, colors: Vec<[u8; 4]>) -> Grid {
    Grid::new(width, height, heights, colors).unwrap()
}

#[test]
fn flat_two_by_two_gives_one_brick() {
    let grid = grid_of(2, 2, vec![4; 4], vec![WHITE; 4]);
    let bricks = optimize(&grid, &config(BrickType::Basic)).unwrap();
    assert_eq!(
        bricks,
        vec![BrickRecord {
            position: (10, 10, 2),
            footprint: 10,
            extent: 4,
            color: WHITE,
            brick_type: BrickType::Basic,
            collision: true,
            direction: Direction::ZPositive,
            rotation: Rotation::Deg0,
            visibility: true,
            material_index: 0,
            owner_index: Some(0),
        }]
    );
    for y in 0..2 {
        for x in 0..2 {
            assert!(covers(&bricks[0], 5, x, y));
        }
    }
}

#[test]
fn raised_quadrant_gives_four_bricks() {
    let mut heights = vec![0u32; 16];
    for y in 0..2 {
        for x in 0..2 {
            heights[x + y * 4] = 10;
        }
    }
    let grid = grid_of(4, 4, heights, vec![WHITE; 16]);
    let bricks = optimize(&grid, &config(BrickType::Basic)).unwrap();
    let brick = |position: (i32, i32, i32), extent: u32| BrickRecord {
        position,
        footprint: 10,
        extent,
        color: WHITE,
        brick_type: BrickType::Basic,
        collision: true,
        direction: Direction::ZPositive,
        rotation: Rotation::Deg0,
        visibility: true,
        material_index: 0,
        owner_index: Some(0),
    };
    assert_eq!(
        bricks,
        vec![
            brick((10, 10, 2), 10),
            brick((30, 10, 0), 2),
            brick((10, 30, 0), 2),
            brick((30, 30, 0), 2),
        ]
    );
    assert_eq!(bricks.iter().filter(|b| b.extent == 2).count(), 3);
    assert_eq!(bricks.iter().filter(|b| b.extent == 10).count(), 1);
}

#[test]
fn transparent_grid_is_culled_away() {
    let grid = grid_of(2, 2, vec![4; 4], vec![[9, 9, 9, 0]; 4]);
    let mut culling = config(BrickType::Basic);
    culling.cull = true;
    assert_eq!(optimize(&grid, &culling).unwrap(), vec![]);
    let kept = optimize(&grid, &config(BrickType::Basic)).unwrap();
    assert_eq!(kept.len(), 1);
    assert_eq!(kept[0].color, [9, 9, 9, 0]);
}

#[test]
fn cells_at_level_zero_are_culled() {
    let grid = grid_of(2, 1, vec![0, 3], vec![WHITE; 2]);
    let mut culling = config(BrickType::Basic);
    culling.cull = true;
    let bricks = optimize(&grid, &culling).unwrap();
    assert_eq!(bricks.len(), 1);
    assert_eq!(cover_count(&bricks, 5, 0, 0), 0);
    assert_eq!(cover_count(&bricks, 5, 1, 0), 1);
    assert_eq!(bricks[0].extent, 4);
    assert_eq!(bricks[0].position, (15, 5, 1));
}

#[test]
fn every_cell_lies_under_exactly_one_brick() {
    let width = 5u32;
    let height = 3u32;
    let heights = vec![1, 1, 2, 2, 7, 1, 1, 2, 2, 7, 3, 3, 3, 0, 0];
    let mut colors = vec![WHITE; 15];
    colors[14] = [1, 2, 3, 0];
    let grid = grid_of(width, height, heights.clone(), colors.clone());
    for cull in [false, true] {
        let mut options = config(BrickType::Tile);
        options.cull = cull;
        options.size_multiplier = 3;
        let bricks = optimize(&grid, &options).unwrap();
        let unit = unit(&options);
        for y in -2..10i64 {
            for x in -2..10i64 {
                let inside = 0 <= x && x < width as i64 && 0 <= y && y < height as i64;
                let due = inside && {
                    let i = (x + y * width as i64) as usize;
                    !(cull && (heights[i] == 0 || colors[i][3] == 0))
                };
                assert_eq!(cover_count(&bricks, unit, x, y), if due { 1 } else { 0 });
            }
        }
    }
}

#[test]
fn bricks_match_the_cells_under_them() {
    let heights = vec![1, 1, 2, 2, 7, 1, 1, 2, 2, 7, 3, 3, 3, 0, 0];
    let grid = Grid::from_heights(5, 3, heights.clone()).unwrap();
    let mut options = config(BrickType::Stud);
    options.vertical_scale = 3;
    let bricks = optimize(&grid, &options).unwrap();
    for y in 0..3i64 {
        for x in 0..5i64 {
            let over: Vec<&BrickRecord> =
                bricks.iter().filter(|b| covers(b, 5, x, y)).collect();
            assert_eq!(over.len(), 1);
            let level = heights[(x + y * 5) as usize] * 3;
            let raised = level.max(5);
            assert_eq!(over[0].extent, raised + raised % 2);
            assert_eq!(over[0].position.2 + over[0].extent as i32, level as i32 + 2);
            assert_eq!(over[0].color, grid.color_at(x as u32, y as u32));
            assert_eq!(over[0].brick_type, BrickType::Stud);
        }
    }
}

#[test]
fn low_cells_get_the_minimum_of_the_type() {
    let grid = grid_of(1, 1, vec![1], vec![WHITE]);
    for (brick_type, extent) in [
        (BrickType::Basic, 2),
        (BrickType::Tile, 2),
        (BrickType::Micro, 2),
        (BrickType::Stud, 6),
    ] {
        let bricks = optimize(&grid, &config(brick_type)).unwrap();
        assert_eq!(bricks.len(), 1);
        assert_eq!(bricks[0].extent, extent);
        assert!(bricks[0].extent >= brick_type.min_height());
        assert_eq!(bricks[0].extent % 2, 0);
    }
}

#[test]
fn uniform_power_of_two_grid_is_one_brick() {
    let grid = grid_of(8, 8, vec![6; 64], vec![WHITE; 64]);
    let bricks = optimize(&grid, &config(BrickType::Basic)).unwrap();
    assert_eq!(
        bricks,
        vec![BrickRecord {
            position: (40, 40, 2),
            footprint: 40,
            extent: 6,
            color: WHITE,
            brick_type: BrickType::Basic,
            collision: true,
            direction: Direction::ZPositive,
            rotation: Rotation::Deg0,
            visibility: true,
            material_index: 0,
            owner_index: Some(0),
        }]
    );
}

#[test]
fn uniform_grid_splits_only_at_its_border() {
    let grid = grid_of(3, 3, vec![6; 9], vec![WHITE; 9]);
    let bricks = optimize(&grid, &config(BrickType::Basic)).unwrap();
    assert_eq!(bricks.len(), 6);
    assert_eq!(bricks.iter().filter(|b| b.footprint == 10).count(), 1);
    assert_eq!(bricks.iter().filter(|b| b.footprint == 5).count(), 5);
    let wide = grid_of(6, 2, vec![6; 12], vec![WHITE; 12]);
    assert_eq!(optimize(&wide, &config(BrickType::Basic)).unwrap().len(), 3);
}

#[test]
fn flatten_depends_on_colors_alone() {
    let red = [200, 0, 0, 255];
    let colors = vec![red, red, WHITE, WHITE, red, red, WHITE, red];
    let first = grid_of(4, 2, vec![1, 2, 3, 4, 5, 6, 7, 8], colors.clone());
    let second = grid_of(4, 2, vec![9; 8], colors);
    let mut flat = config(BrickType::Basic);
    flat.flatten = true;
    flat.vertical_scale = 4;
    let bricks = optimize(&first, &flat).unwrap();
    assert_eq!(bricks, optimize(&second, &flat).unwrap());
    assert_eq!(bricks, optimize(&first, &flat).unwrap());
    assert_eq!(bricks.len(), 5);
    assert_eq!(bricks[0].footprint, 10);
    assert_eq!(bricks[0].color, red);
    assert_eq!(bricks[4].color, red);
    assert_eq!(bricks[4].position, (35, 15, 2));
    assert!(bricks.iter().all(|b| b.extent == 4 && b.position.2 == 2));
}

#[test]
fn colors_split_cells_of_one_height() {
    let grid = grid_of(2, 2, vec![4; 4], vec![WHITE, WHITE, WHITE, [0, 0, 0, 255]]);
    let bricks = optimize(&grid, &config(BrickType::Basic)).unwrap();
    assert_eq!(bricks.len(), 4);
    assert_eq!(bricks[3].color, [0, 0, 0, 255]);
    assert_eq!(bricks[3].position, (15, 15, 2));
}

#[test]
fn snapping_rounds_to_whole_stacking_units() {
    let grid = grid_of(4, 1, vec![2, 4, 6, 9], vec![WHITE; 4]);
    let mut snapped = config(BrickType::Basic);
    snapped.snap = true;
    let bricks = optimize(&grid, &snapped).unwrap();
    let extents: Vec<u32> = bricks.iter().map(|b| b.extent).collect();
    assert_eq!(extents, vec![4, 4, 8, 12]);
    let tops: Vec<i32> = bricks.iter().map(|b| b.position.2 + b.extent as i32).collect();
    assert_eq!(tops, vec![4, 6, 8, 11]);
}

#[test]
fn micro_bricks_are_not_scaled() {
    let grid = grid_of(2, 2, vec![4; 4], vec![WHITE; 4]);
    let mut micro = config(BrickType::Micro);
    micro.size_multiplier = 3;
    micro.collision_enabled = false;
    let bricks = optimize(&grid, &micro).unwrap();
    assert_eq!(
        bricks,
        vec![BrickRecord {
            position: (8, 8, 2),
            footprint: 6,
            extent: 4,
            color: WHITE,
            brick_type: BrickType::Micro,
            collision: false,
            direction: Direction::ZPositive,
            rotation: Rotation::Deg0,
            visibility: true,
            material_index: 0,
            owner_index: Some(0),
        }]
    );
}

#[test]
fn vertical_scale_multiplies_heights() {
    let grid = grid_of(1, 1, vec![7], vec![WHITE]);
    let mut scaled = config(BrickType::Basic);
    scaled.vertical_scale = 3;
    let bricks = optimize(&grid, &scaled).unwrap();
    assert_eq!(bricks[0].extent, 22);
    assert_eq!(bricks[0].position, (5, 5, 1));
    assert_eq!(cell_level(&grid, &scaled, 0, 0), 21);
}

#[test]
fn validate_names_what_is_wrong() {
    let grid = grid_of(2, 2, vec![4; 4], vec![WHITE; 4]);
    assert_eq!(validate(&grid, &config(BrickType::Basic)), Ok(()));
    let mut no_scale = config(BrickType::Basic);
    no_scale.vertical_scale = 0;
    assert_eq!(validate(&grid, &no_scale), Err(InputError::InvalidConfig));
    assert_eq!(optimize(&grid, &no_scale), Err(InputError::InvalidConfig));
    let mut no_size = config(BrickType::Basic);
    no_size.size_multiplier = 0;
    assert_eq!(validate(&grid, &no_size), Err(InputError::InvalidConfig));
    let mut huge = config(BrickType::Basic);
    huge.size_multiplier = 200_000_000;
    assert_eq!(validate(&grid, &huge), Err(InputError::TooWide));
    assert_eq!(optimize(&grid, &huge), Err(InputError::TooWide));
    let mut steep = config(BrickType::Basic);
    steep.vertical_scale = u32::MAX;
    assert_eq!(validate(&grid, &steep), Err(InputError::TooHigh));
    assert_eq!(optimize(&grid, &steep), Err(InputError::TooHigh));
    steep.flatten = true;
    assert_eq!(validate(&grid, &steep), Err(InputError::TooHigh));
    steep.vertical_scale = u32::MAX - 3;
    assert_eq!(validate(&grid, &steep), Ok(()));
}

#[test]
fn far_side_limit_is_exact() {
    // 2 * unit * cells + 5 - unit <= i32::MAX
    assert!(span_within(5, 214_748_364));
    assert!(!span_within(5, 214_748_365));
    assert!(span_within(1, 1_073_741_821));
    assert!(!span_within(1, 1_073_741_822));
    assert!(span_within(2_147_483_642, 1));
    assert!(!span_within(2_147_483_643, 1));
    assert!(!span_within(u64::MAX, u32::MAX));
}

#[test]
fn enclosing_edge_is_the_next_power_of_two() {
    let cases = [(0, 1), (1, 1), (2, 2), (3, 4), (4, 4), (5, 8), (1000, 1024), (1025, 2048)];
    for (n, edge) in cases {
        assert_eq!(enclosing_edge_of(n), edge);
    }
    assert_eq!(enclosing_edge_of(0x8000_0000), 0x8000_0000);
    assert_eq!(enclosing_edge_of(0x4000_0001), 0x8000_0000);
}

#[test]
fn scan_tells_uniform_from_mixed() {
    let grid = grid_of(2, 2, vec![4, 4, 4, 5], vec![WHITE; 4]);
    let options = config(BrickType::Basic);
    assert_eq!(
        merge_outcome(&grid, &options, Region { x0: 0, y0: 0, edge: 1 }),
        MergeOutcome::Uniform { level: 4, color: WHITE }
    );
    assert_eq!(
        merge_outcome(&grid, &options, Region { x0: 1, y0: 1, edge: 1 }),
        MergeOutcome::Uniform { level: 5, color: WHITE }
    );
    assert_eq!(
        merge_outcome(&grid, &options, Region { x0: 0, y0: 0, edge: 2 }),
        MergeOutcome::Heterogeneous
    );
    let mut flat = options;
    flat.flatten = true;
    flat.vertical_scale = 6;
    assert_eq!(
        merge_outcome(&grid, &flat, Region { x0: 0, y0: 0, edge: 2 }),
        MergeOutcome::Uniform { level: 6, color: WHITE }
    );
}

#[test]
fn colors_compare_by_all_four_channels() {
    assert!(same_color([1, 2, 3, 4], [1, 2, 3, 4]));
    assert!(!same_color([1, 2, 3, 4], [0, 2, 3, 4]));
    assert!(!same_color([1, 2, 3, 4], [1, 0, 3, 4]));
    assert!(!same_color([1, 2, 3, 4], [1, 2, 0, 4]));
    assert!(!same_color([1, 2, 3, 4], [1, 2, 3, 0]));
}

#[test]
fn collecting_appends_to_what_is_there() {
    let grid = grid_of(2, 2, vec![4; 4], vec![WHITE; 4]);
    let options = config(BrickType::Basic);
    let mut bricks = gen_opt_heightmap(&grid, &options);
    collect_region(&grid, &options, Region { x0: 1, y0: 1, edge: 1 }, &mut bricks);
    collect_region(&grid, &options, Region { x0: 2, y0: 0, edge: 2 }, &mut bricks);
    assert_eq!(bricks.len(), 2);
    assert_eq!(bricks[0].footprint, 10);
    assert_eq!(bricks[1].position, (15, 15, 2));
    assert_eq!(bricks[1].footprint, 5);
}

#[test]
fn single_cell_grid() {
    let grid = grid_of(1, 1, vec![0], vec![WHITE]);
    let bricks = optimize(&grid, &config(BrickType::Basic)).unwrap();
    assert_eq!(bricks.len(), 1);
    assert_eq!(bricks[0].position, (5, 5, 0));
    assert_eq!(bricks[0].footprint, 5);
    assert_eq!(bricks[0].extent, 2);
}
