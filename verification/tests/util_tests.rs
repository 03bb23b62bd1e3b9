use heightmap::brick::{BrickRecord, Direction, Rotation};
use heightmap::gamma::LINEAR_GAMMA;
use heightmap::util::{
    bricks_to_save, ez_brick, owner_id_or_default, read_owner_id, save_with_owner,
    to_linear_gamma, to_linear_rgb, BrickType, UnrecognizedBrickType, User, DEFAULT_OWNER_ID,
};

#[test]
fn brick_types_have_their_minimum_heights() {
    assert_eq!(BrickType::Basic.min_height(), 2);
    assert_eq!(BrickType::Tile.min_height(), 2);
    assert_eq!(BrickType::Micro.min_height(), 2);
    assert_eq!(BrickType::Stud.min_height(), 5);
}

#[test]
fn brick_types_have_their_asset_indices() {
    assert_eq!(BrickType::Basic.asset_index(), 0);
    assert_eq!(BrickType::Tile.asset_index(), 1);
    assert_eq!(BrickType::Micro.asset_index(), 2);
    assert_eq!(BrickType::Stud.asset_index(), 3);
}

#[test]
fn brick_types_are_read_in_any_case() {
    assert_eq!(BrickType::from_str("basic"), Ok(BrickType::Basic));
    assert_eq!(BrickType::from_str("tile"), Ok(BrickType::Tile));
    assert_eq!(BrickType::from_str("micro"), Ok(BrickType::Micro));
    assert_eq!(BrickType::from_str("stud"), Ok(BrickType::Stud));
    assert_eq!(BrickType::from_str("TILE"), Ok(BrickType::Tile));
    assert_eq!(BrickType::from_str("Micro"), Ok(BrickType::Micro));
    assert_eq!(BrickType::from_str("sTuD"), Ok(BrickType::Stud));
}

#[test]
fn other_names_are_no_brick_types() {
    assert_eq!(BrickType::from_str(""), Err(UnrecognizedBrickType));
    assert_eq!(BrickType::from_str("brick"), Err(UnrecognizedBrickType));
    assert_eq!(BrickType::from_str(" basic"), Err(UnrecognizedBrickType));
    assert_eq!(BrickType::from_str("studs"), Err(UnrecognizedBrickType));
    assert_eq!(UnrecognizedBrickType.message(), "unrecognized brick type");
}

#[test]
fn lower_case_names_are_read_as_they_stand() {
    assert_eq!(BrickType::from_name("basic"), Ok(BrickType::Basic));
    assert_eq!(BrickType::from_name("tile"), Ok(BrickType::Tile));
    assert_eq!(BrickType::from_name("micro"), Ok(BrickType::Micro));
    assert_eq!(BrickType::from_name("stud"), Ok(BrickType::Stud));
    assert_eq!(BrickType::from_name("Basic"), Err(UnrecognizedBrickType));
    assert_eq!(BrickType::from_name("STUD"), Err(UnrecognizedBrickType));
}

#[test]
fn gamma_values() {
    assert_eq!(to_linear_gamma(0), 0);
    assert_eq!(to_linear_gamma(10), 0);
    assert_eq!(to_linear_gamma(12), 0);
    assert_eq!(to_linear_gamma(13), 1);
    assert_eq!(to_linear_gamma(21), 1);
    assert_eq!(to_linear_gamma(22), 2);
    assert_eq!(to_linear_gamma(127), 54);
    assert_eq!(to_linear_gamma(128), 55);
    assert_eq!(to_linear_gamma(200), 147);
    assert_eq!(to_linear_gamma(254), 252);
    assert_eq!(to_linear_gamma(255), 254);
}

#[test]
fn gamma_matches_the_transfer_function() {
    for c in 0..=255u8 {
        let share = c as f64 / 255.0;
        let linear = if share > 0.04045 {
            (share / 1.055 + 0.0521327).powf(2.4) * 255.0
        } else {
            share / 12.192 * 255.0
        };
        assert_eq!(to_linear_gamma(c), linear as u8);
        assert_eq!(LINEAR_GAMMA[c as usize], linear as u8);
    }
}

#[test]
fn gamma_never_falls_and_never_brightens() {
    for c in 0..=255u8 {
        assert!(to_linear_gamma(c) <= c);
        if c > 0 {
            assert!(to_linear_gamma(c - 1) <= to_linear_gamma(c));
        }
    }
}

#[test]
fn linear_rgb_keeps_opacity() {
    assert_eq!(to_linear_rgb([255, 128, 0, 77]), [254, 55, 0, 77]);
    assert_eq!(to_linear_rgb([13, 22, 200, 0]), [1, 2, 147, 0]);
    assert_eq!(to_linear_rgb([0, 0, 0, 255]), [0, 0, 0, 255]);
}

#[test]
fn ez_brick_places_and_evens() {
    assert_eq!(
        ez_brick(5, (3, 4, 20), 7, [10, 20, 30, 255], false, true),
        BrickRecord {
            position: (35, 45, 14),
            footprint: 5,
            extent: 8,
            color: [10, 20, 30, 255],
            brick_type: BrickType::Basic,
            collision: true,
            direction: Direction::ZPositive,
            rotation: Rotation::Deg0,
            visibility: true,
            material_index: 0,
            owner_index: Some(0),
        }
    );
    assert_eq!(
        ez_brick(10, (-2, 0, 6), 6, [1, 2, 3, 40], true, false),
        BrickRecord {
            position: (-35, 5, 2),
            footprint: 10,
            extent: 6,
            color: [1, 2, 3, 40],
            brick_type: BrickType::Tile,
            collision: false,
            direction: Direction::ZPositive,
            rotation: Rotation::Deg0,
            visibility: true,
            material_index: 0,
            owner_index: Some(0),
        }
    );
}

#[test]
fn ez_brick_raises_low_heights_to_the_minimum() {
    let low = ez_brick(10, (1, 0, 0), 0, [0, 0, 0, 255], false, true);
    assert_eq!(low.size(), (10, 10, 2));
    assert_eq!(low.position, (25, 5, 0));
    let expected = [(0, 2), (1, 2), (2, 2), (3, 4), (4, 4), (5, 6), (4_294_967_294, 4_294_967_294)];
    for tile in [false, true] {
        for (height, extent) in expected {
            let brick = ez_brick(5, (0, 0, i32::MAX), height, [9, 9, 9, 255], tile, true);
            assert_eq!(brick.extent, extent);
            assert!(brick.extent >= brick.brick_type.min_height());
            assert_eq!(brick.extent % 2, 0);
            assert_eq!(brick.position.2 as i64, i32::MAX as i64 - extent as i64 + 2);
        }
    }
    let point = ez_brick(0, (9, 9, 0), 0, [0, 0, 0, 0], false, false);
    assert_eq!(point.position, (5, 5, 0));
    assert_eq!(point.size(), (0, 0, 2));
}

#[test]
fn ez_brick_passes_color_and_collision_through() {
    for collision in [false, true] {
        for alpha in [0u8, 1, 128, 255] {
            let brick = ez_brick(5, (1, 2, 3), 4, [7, 8, 9, alpha], true, collision);
            assert_eq!(brick.color, [7, 8, 9, alpha]);
            assert_eq!(brick.collision, collision);
            assert_eq!(brick.brick_type, BrickType::Tile);
        }
    }
}

#[test]
fn ez_bricks_of_a_lattice_do_not_overlap() {
    let size = 7u32;
    let places = [(-2, -2), (-1, 0), (0, 0), (0, 1), (1, 0), (1, 1), (3, -1)];
    for a in places {
        for b in places {
            let first = ez_brick(size, (a.0, a.1, 0), 2, [0; 4], false, true);
            let second = ez_brick(size, (b.0, b.1, 9), 5, [1; 4], true, false);
            let apart = (first.position.0 - second.position.0).abs() >= 2 * size as i32
                || (first.position.1 - second.position.1).abs() >= 2 * size as i32;
            assert_eq!(apart, a != b);
            assert_eq!(first.footprint, size);
            assert_eq!(second.footprint, size);
        }
    }
}

#[test]
fn ez_brick_spans_a_whole_region() {
    let brick = ez_brick(8 * 5, (0, 0, 6), 6, [3, 3, 3, 255], false, true);
    assert_eq!(brick.size(), (40, 40, 6));
    assert_eq!(brick.position, (5, 5, 2));
    let large = ez_brick(1 << 30, (0, 0, 6), 6, [3, 3, 3, 255], false, true);
    assert_eq!(large.size(), (1 << 30, 1 << 30, 6));
}

#[test]
fn owner_identifier_is_read() {
    assert_eq!(
        read_owner_id("936DA01F-9ABD-4D9D-80C7-02AF85C822A8"),
        Some(0x936DA01F9ABD4D9D80C702AF85C822A8)
    );
    assert_eq!(
        read_owner_id("936da01f9abd4d9d80c702af85c822a8"),
        Some(0x936DA01F9ABD4D9D80C702AF85C822A8)
    );
    assert_eq!(
        read_owner_id("urn:uuid:00000000-0000-0000-0000-000000000001"),
        Some(1)
    );
    assert_eq!(read_owner_id("a1b16aca-9627-4a16-a160-67fa9adbb7b6"), Some(DEFAULT_OWNER_ID));
    assert_eq!(read_owner_id(""), None);
    assert_eq!(read_owner_id("not an identifier"), None);
    assert_eq!(read_owner_id("936DA01F-9ABD-4D9D-80C7-02AF85C822A"), None);
    assert_eq!(read_owner_id("936DA01F-9ABD-4D9D-80C7-02AF85C822AG"), None);
}

#[test]
fn missing_identifier_gives_the_default() {
    assert_eq!(owner_id_or_default(Some(7)), 7);
    assert_eq!(owner_id_or_default(Some(0)), 0);
    assert_eq!(owner_id_or_default(None), 0xa1b16aca96274a16a16067fa9adbb7b6);
    assert_eq!(owner_id_or_default(None), DEFAULT_OWNER_ID);
}

#[test]
fn save_names_its_owner_and_assets() {
    let brick = ez_brick(5, (0, 0, 2), 2, [1, 2, 3, 255], false, true);
    let save = bricks_to_save(
        vec![brick, brick],
        String::from("936DA01F-9ABD-4D9D-80C7-02AF85C822A8"),
        String::from("Builder"),
    );
    let owner = User { id: 0x936DA01F9ABD4D9D80C702AF85C822A8, name: String::from("Builder") };
    assert_eq!(save.map, "Plate");
    assert_eq!(save.author, owner);
    assert_eq!(save.description, "Save generated from heightmap file");
    assert!(save.mods.is_empty());
    assert_eq!(
        save.brick_assets,
        vec!["PB_DefaultBrick", "PB_DefaultTile", "PB_DefaultMicroBrick", "PB_DefaultStudded"]
    );
    assert!(save.colors.is_empty());
    assert_eq!(save.materials, vec!["BMC_Plastic"]);
    assert_eq!(save.brick_owners, vec![owner]);
    assert_eq!(save.bricks, vec![brick, brick]);
    assert_eq!(save.brick_assets[BrickType::Stud.asset_index() as usize], "PB_DefaultStudded");
    assert_eq!(save.brick_assets[BrickType::Micro.asset_index() as usize], "PB_DefaultMicroBrick");
}

#[test]
fn save_with_bad_identifier_has_the_default_owner() {
    let save = bricks_to_save(vec![], String::from("nobody"), String::from("Generator"));
    assert_eq!(save.author.id, DEFAULT_OWNER_ID);
    assert_eq!(save.author.name, "Generator");
    assert_eq!(save.brick_owners.len(), 1);
    assert_eq!(save.brick_owners[0].id, DEFAULT_OWNER_ID);
    assert!(save.bricks.is_empty());
    assert_eq!(save, save_with_owner(vec![], DEFAULT_OWNER_ID, String::from("Generator")));
}

#[test]
fn brick_types_parse_from_text() {
    assert_eq!("Basic".parse::<BrickType>(), Ok(BrickType::Basic));
    assert_eq!("STUD".parse::<BrickType>(), Ok(BrickType::Stud));
    assert_eq!("plate".parse::<BrickType>(), Err(UnrecognizedBrickType));
}
