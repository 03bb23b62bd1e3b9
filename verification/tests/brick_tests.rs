use heightmap::brick::{
    emit_brick, vertical_extent, BrickRecord, Direction, OptimizerConfig, Region, Rotation,
};
use heightmap::util::BrickType;

fn config(brick_type: BrickType, snap: bool) -> OptimizerConfig {
    OptimizerConfig {
        cull: false,
        vertical_scale: 1,
        snap,
        brick_type,
        size_multiplier: 2,
        flatten: false,
        collision_enabled: true,
    }
}

#[test]
fn unit_is_scaled_for_all_but_micro() {
    assert_eq!(config(BrickType::Basic, false).unit(), 10);
    assert_eq!(config(BrickType::Tile, false).unit(), 10);
    assert_eq!(config(BrickType::Stud, false).unit(), 10);
    assert_eq!(config(BrickType::Micro, false).unit(), 2);
}

#[test]
fn extent_is_even_and_not_below_the_minimum() {
    let basic = config(BrickType::Basic, false);
    let expected = [(0, 2), (1, 2), (2, 2), (3, 4), (4, 4), (5, 6), (11, 12)];
    for (level, extent) in expected {
        assert_eq!(vertical_extent(&basic, level), extent);
    }
    let stud = config(BrickType::Stud, false);
    let expected = [(0, 6), (4, 6), (5, 6), (6, 6), (7, 8), (8, 8)];
    for (level, extent) in expected {
        assert_eq!(vertical_extent(&stud, level), extent);
    }
    assert_eq!(vertical_extent(&basic, 0xffff_fffc), 0xffff_fffc);
    assert_eq!(vertical_extent(&basic, 0xffff_fffb), 0xffff_fffc);
}

#[test]
fn snapped_extent_is_a_multiple_of_four() {
    let basic = config(BrickType::Basic, true);
    let expected = [(0, 4), (2, 4), (3, 4), (4, 4), (5, 8), (6, 8), (7, 8), (8, 8), (9, 12)];
    for (level, extent) in expected {
        assert_eq!(vertical_extent(&basic, level), extent);
    }
    let stud = config(BrickType::Stud, true);
    assert_eq!(vertical_extent(&stud, 1), 8);
    assert_eq!(vertical_extent(&stud, 9), 12);
}

#[test]
fn brick_sits_in_the_middle_of_its_region() {
    let region = Region { x0: 4, y0: 8, edge: 4 };
    let brick = emit_brick(&config(BrickType::Basic, false), region, 9, [1, 2, 3, 4]);
    assert_eq!(
        brick,
        BrickRecord {
            position: (2 * 10 * 4 + 5 + 3 * 10, 2 * 10 * 8 + 5 + 3 * 10, 9 - 10 + 2),
            footprint: 40,
            extent: 10,
            color: [1, 2, 3, 4],
            brick_type: BrickType::Basic,
            collision: true,
            direction: Direction::ZPositive,
            rotation: Rotation::Deg0,
            visibility: true,
            material_index: 0,
            owner_index: Some(0),
        }
    );
    assert_eq!(brick.position.0 - brick.footprint as i32, 2 * 10 * 4 + 5 - 10);
    assert_eq!(brick.position.0 + brick.footprint as i32, 2 * 10 * 7 + 5 + 10);
}

#[test]
fn single_cell_brick() {
    let region = Region { x0: 3, y0: 0, edge: 1 };
    let mut options = config(BrickType::Micro, false);
    options.collision_enabled = false;
    let brick = emit_brick(&options, region, 0, [0; 4]);
    assert_eq!(brick.position, (2 * 2 * 3 + 5, 5, 0));
    assert_eq!(brick.footprint, 2);
    assert_eq!(brick.extent, 2);
    assert!(!brick.collision);
    assert_eq!(brick.brick_type, BrickType::Micro);
    assert_eq!(brick.size(), (2, 2, 2));
    assert_eq!(brick.direction, Direction::ZPositive);
    assert_eq!(brick.rotation, Rotation::Deg0);
    assert!(brick.visibility);
    assert_eq!(brick.material_index, 0);
    assert_eq!(brick.owner_index, Some(0));
}

#[test]
fn single_cell_brick_is_what_ez_brick_makes() {
    let mut options = config(BrickType::Tile, false);
    options.size_multiplier = 1;
    options.collision_enabled = false;
    let ours = emit_brick(&options, Region { x0: 3, y0: 4, edge: 1 }, 7, [10, 20, 30, 99]);
    let theirs = heightmap::util::ez_brick(5, (3, 4, 7), 7, [10, 20, 30, 99], true, false);
    assert_eq!(ours, theirs);
    assert_eq!(ours.position, (35, 45, 1));
    let low = emit_brick(&options, Region { x0: 0, y0: 0, edge: 1 }, 1, [1, 2, 3, 255]);
    assert_eq!(low, heightmap::util::ez_brick(5, (0, 0, 1), 1, [1, 2, 3, 255], true, false));
    assert_eq!(low.extent, 2);
    let ground = emit_brick(&options, Region { x0: 1, y0: 0, edge: 1 }, 0, [0, 0, 0, 255]);
    assert_eq!(ground, heightmap::util::ez_brick(5, (1, 0, 0), 0, [0, 0, 0, 255], true, false));
    assert_eq!(ground.size(), (5, 5, 2));
}
