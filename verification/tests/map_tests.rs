use heightmap::map::{
    add_layer, grey_of, max_height, pixel_height, Grid, GridError, LayerError,
};

#[test]
fn grid_keeps_what_it_was_given() {
    let colors = vec![[1, 2, 3, 4], [5, 6, 7, 8], [9, 10, 11, 12], [13, 14, 15, 16], [0; 4], [1; 4]];
    let grid = Grid::new(3, 2, vec![10, 20, 30, 40, 50, 60], colors.clone()).unwrap();
    assert_eq!(grid.width(), 3);
    assert_eq!(grid.height(), 2);
    assert_eq!(grid.dimensions(), (3, 2));
    assert_eq!(grid.height_at(0, 0), 10);
    assert_eq!(grid.height_at(2, 0), 30);
    assert_eq!(grid.height_at(0, 1), 40);
    assert_eq!(grid.height_at(2, 1), 60);
    assert_eq!(grid.color_at(1, 0), [5, 6, 7, 8]);
    assert_eq!(grid.color_at(0, 1), [13, 14, 15, 16]);
    assert_eq!(grid.max_height(), 60);
}

#[test]
fn grid_without_cells_is_an_error() {
    assert_eq!(Grid::new(0, 2, vec![], vec![]).unwrap_err(), GridError::ZeroArea);
    assert_eq!(Grid::new(2, 0, vec![], vec![]).unwrap_err(), GridError::ZeroArea);
    assert_eq!(Grid::new(0, 0, vec![1], vec![[0; 4]]).unwrap_err(), GridError::ZeroArea);
    assert_eq!(Grid::from_heights(0, 1, vec![]).unwrap_err(), GridError::ZeroArea);
}

#[test]
fn grid_of_the_wrong_size_is_an_error() {
    assert_eq!(
        Grid::new(2, 2, vec![1, 2, 3], vec![[0; 4]; 4]).unwrap_err(),
        GridError::DimensionMismatch
    );
    assert_eq!(
        Grid::new(2, 2, vec![1, 2, 3, 4], vec![[0; 4]; 5]).unwrap_err(),
        GridError::DimensionMismatch
    );
    assert_eq!(
        Grid::from_heights(2, 2, vec![1, 2, 3, 4, 5]).unwrap_err(),
        GridError::DimensionMismatch
    );
}

#[test]
fn heights_alone_give_shades_of_grey() {
    let grid = Grid::from_heights(3, 1, vec![0, 5, 10]).unwrap();
    assert_eq!(grid.color_at(0, 0), [0, 0, 0, 255]);
    assert_eq!(grid.color_at(1, 0), [127, 127, 127, 255]);
    assert_eq!(grid.color_at(2, 0), [255, 255, 255, 255]);
    assert_eq!(grid.height_at(1, 0), 5);
}

#[test]
fn flat_ground_is_black() {
    let grid = Grid::from_heights(2, 1, vec![0, 0]).unwrap();
    assert_eq!(grid.color_at(0, 0), [0, 0, 0, 255]);
    assert_eq!(grid.color_at(1, 0), [0, 0, 0, 255]);
}

#[test]
fn grey_is_the_share_of_the_largest_height() {
    assert_eq!(grey_of(1, 3), [85, 85, 85, 255]);
    assert_eq!(grey_of(2, 3), [170, 170, 170, 255]);
    assert_eq!(grey_of(0, 0), [0, 0, 0, 255]);
    assert_eq!(grey_of(u32::MAX, u32::MAX), [255, 255, 255, 255]);
    assert_eq!(grey_of(u32::MAX - 1, u32::MAX), [254, 254, 254, 255]);
}

#[test]
fn largest_height_of_a_vector() {
    assert_eq!(max_height(&vec![]), 0);
    assert_eq!(max_height(&vec![3, 9, 2]), 9);
    assert_eq!(max_height(&vec![u32::MAX, 0]), u32::MAX);
}

#[test]
fn colors_alone_give_a_flat_grid() {
    let colors = vec![[1, 2, 3, 4], [5, 6, 7, 8]];
    let grid = Grid::from_colors(2, 1, colors).unwrap();
    assert_eq!(grid.height_at(0, 0), 1);
    assert_eq!(grid.height_at(1, 0), 1);
    assert_eq!(grid.color_at(1, 0), [5, 6, 7, 8]);
    assert_eq!(Grid::from_colors(2, 0, vec![]).unwrap_err(), GridError::ZeroArea);
    assert_eq!(
        Grid::from_colors(2, 2, vec![[0; 4]; 3]).unwrap_err(),
        GridError::DimensionMismatch
    );
}

#[test]
fn pixel_height_is_red_or_all_three_channels() {
    assert_eq!(pixel_height([7, 200, 100, 0], false), 7);
    assert_eq!(pixel_height([255, 0, 0, 255], false), 255);
    assert_eq!(pixel_height([0, 0, 0, 255], true), 0);
    assert_eq!(pixel_height([0, 0, 9, 255], true), 9);
    assert_eq!(pixel_height([0, 2, 1, 255], true), 513);
    assert_eq!(pixel_height([1, 2, 3, 0], true), 66_051);
    assert_eq!(pixel_height([255, 255, 255, 9], true), 16_777_215);
}

#[test]
fn layers_add_cell_by_cell() {
    assert_eq!(add_layer(&vec![1, 2, 3], &vec![10, 20, 30]), Ok(vec![11, 22, 33]));
    assert_eq!(add_layer(&vec![], &vec![]), Ok(vec![]));
    assert_eq!(add_layer(&vec![u32::MAX - 1, 0], &vec![1, u32::MAX]), Ok(vec![u32::MAX; 2]));
}

#[test]
fn layers_that_do_not_fit_are_errors() {
    assert_eq!(add_layer(&vec![1, 2], &vec![1]), Err(LayerError::SizeMismatch));
    assert_eq!(add_layer(&vec![], &vec![0]), Err(LayerError::SizeMismatch));
    assert_eq!(add_layer(&vec![0, u32::MAX], &vec![0, 1]), Err(LayerError::TooHigh));
    assert_eq!(add_layer(&vec![u32::MAX], &vec![u32::MAX]), Err(LayerError::TooHigh));
}
