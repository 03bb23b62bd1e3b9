//! The grid of samples that the optimizer reads: a height and a colour for
//! every cell of a rectangle.

use vstd::prelude::*;
use crate::brick::FLAT_HEIGHT;

verus! {

/// What a grid is, as plain mathematics: its two sides, and the heights and
/// colours of its cells row by row.
pub struct GridModel {
    pub width: int,
    pub height: int,
    pub heights: Seq<u32>,
    pub colors: Seq<[u8; 4]>,
}

impl GridModel {
    /// Both sides are positive and every cell has a height and a colour.
    pub open spec fn wf(self) -> bool {
        &&& 0 < self.width <= u32::MAX
        &&& 0 < self.height <= u32::MAX
        &&& self.heights.len() == self.width * self.height
        &&& self.colors.len() == self.width * self.height
    }

    /// Whether `(x, y)` is a cell of the grid.
    pub open spec fn in_bounds(self, x: int, y: int) -> bool {
        0 <= x < self.width && 0 <= y < self.height
    }

    /// Where the cell `(x, y)` stands in the two sequences.
    pub open spec fn index_of(self, x: int, y: int) -> int {
        x + y * self.width
    }

    pub open spec fn height_at(self, x: int, y: int) -> u32 {
        self.heights[self.index_of(x, y)]
    }

    pub open spec fn color_at(self, x: int, y: int) -> [u8; 4] {
        self.colors[self.index_of(x, y)]
    }

    /// Every cell of a well-formed grid has its own place in the sequences.
    pub proof fn lemma_index_in_range(self, x: int, y: int)
        requires
            self.wf(),
            self.in_bounds(x, y),
        ensures
            0 <= self.index_of(x, y) < self.width * self.height,
            self.index_of(x, y) < self.heights.len(),
            self.index_of(x, y) < self.colors.len(),
    {
        assert(0 <= y * self.width <= (self.height - 1) * self.width) by (nonlinear_arith)
            requires
                0 <= y <= self.height - 1,
                0 < self.width,
        ;
        assert((self.height - 1) * self.width == self.width * self.height - self.width)
            by (nonlinear_arith);
    }
}

/// The product of two sides fits in `u64`.
proof fn lemma_area_fits(a: u32, b: u32)
    ensures
        0 <= a * b <= 0xffff_fffe_0000_0001,
{
    assert(0 <= a * b <= 0xffff_fffe_0000_0001) by (nonlinear_arith)
        requires
            0 <= a <= 0xffff_ffff,
            0 <= b <= 0xffff_ffff,
    ;
}

/// The largest element of `heights`, and zero where there is none.
pub open spec fn max_of(heights: Seq<u32>) -> int
    decreases heights.len(),
{
    if heights.len() == 0 {
        0
    } else {
        let rest = max_of(heights.drop_last());
        if heights.last() > rest {
            heights.last() as int
        } else {
            rest
        }
    }
}

/// No element is above the maximum, and a sequence that is not empty holds
/// its maximum.
pub proof fn lemma_max_of(heights: Seq<u32>)
    ensures
        0 <= max_of(heights) <= u32::MAX,
        forall|i: int| 0 <= i < heights.len() ==> heights[i] <= max_of(heights),
        heights.len() > 0 ==> exists|i: int| 0 <= i < heights.len() && heights[i] == max_of(heights),
    decreases heights.len(),
{
    if heights.len() > 0 {
        let front = heights.drop_last();
        lemma_max_of(front);
        assert forall|i: int| 0 <= i < heights.len() implies heights[i] <= max_of(heights) by {
            if i < front.len() {
                assert(front[i] == heights[i]);
            }
        }
        if heights.last() > max_of(front) {
            assert(heights[heights.len() - 1] == max_of(heights));
        } else if front.len() > 0 {
            let i = choose|i: int| 0 <= i < front.len() && front[i] == max_of(front);
            assert(heights[i] == max_of(heights));
        }
    }
}

/// The shade of grey of a cell: its height as a share of the largest height
/// of the grid, on the scale of a byte. Where the largest height is zero the
/// shade is black.
pub open spec fn grey_shade(height: int, max: int) -> int {
    if max == 0 {
        0
    } else {
        255 * height / max
    }
}

/// The opaque grey of the given shade.
pub open spec fn grey(shade: int) -> [u8; 4] {
    [shade as u8, shade as u8, shade as u8, 255u8]
}

/// The colours of a grid that has heights only: each cell in the grey of its
/// shade.
pub open spec fn greyscale(heights: Seq<u32>) -> Seq<[u8; 4]> {
    Seq::new(heights.len(), |i: int| grey(grey_shade(heights[i] as int, max_of(heights))))
}

/// Why a grid could not be built.
#[derive(Debug, Copy, Clone, PartialEq, Eq, Structural)]
pub enum GridError {
    /// One of the two sides is zero.
    ZeroArea,
    /// The number of heights or of colours is not that of the cells.
    DimensionMismatch,
}

/// A rectangle of cells, each with a height and a colour.
#[derive(Debug)]
pub struct Grid {
    width: u32,
    height: u32,
    heights: Vec<u32>,
    colors: Vec<[u8; 4]>,
}

impl View for Grid {
    type V = GridModel;

    closed spec fn view(&self) -> GridModel {
        GridModel {
            width: self.width as int,
            height: self.height as int,
            heights: self.heights@,
            colors: self.colors@,
        }
    }
}

/// Computes the largest element of `heights`.
pub fn max_height(heights: &Vec<u32>) -> (max: u32)
    ensures
        max == max_of(heights@),
{
    let mut max: u32 = 0;
    let mut i: usize = 0;
    while i < heights.len()
        invariant
            i <= heights.len(),
            max == max_of(heights@.take(i as int)),
        decreases heights.len() - i,
    {
        assert(heights@.take(i + 1).drop_last() == heights@.take(i as int));
        if heights[i] > max {
            max = heights[i];
        }
        i += 1;
    }
    assert(heights@.take(i as int) == heights@);
    max
}

/// Computes the grey of a cell of height `height` in a grid whose largest
/// height is `max`.
pub fn grey_of(height: u32, max: u32) -> (color: [u8; 4])
    requires
        height <= max,
    ensures
        color == grey(grey_shade(height as int, max as int)),
        0 <= grey_shade(height as int, max as int) <= 255,
{
    let shade: u8 = if max == 0 {
        0
    } else {
        assert(255 * height / (max as int) <= 255) by (nonlinear_arith)
            requires
                0 <= height <= max,
                0 < max,
        ;
        assert(0 <= 255 * height / (max as int)) by (nonlinear_arith)
            requires
                0 <= height,
                0 < max,
        ;
        (255 * height as u64 / max as u64) as u8
    };
    let color = [shade, shade, shade, 255u8];
    assert(color =~= grey(grey_shade(height as int, max as int)));
    color
}

impl Grid {
    #[verifier::type_invariant]
    spec fn well_formed(self) -> bool {
        self@.wf()
    }


    /// Builds a grid from the heights and colours of its cells, row by row.
    pub fn new(width: u32, height: u32, heights: Vec<u32>, colors: Vec<[u8; 4]>) -> (result:
        Result<Grid, GridError>)
        ensures
            match result {
                Ok(grid) => {
                    &&& width > 0 && height > 0
                    &&& heights.len() == width * height
                    &&& colors.len() == width * height
                    &&& grid@ == (GridModel {
                        width: width as int,
                        height: height as int,
                        heights: heights@,
                        colors: colors@,
                    })
                },
                Err(GridError::ZeroArea) => width == 0 || height == 0,
                Err(GridError::DimensionMismatch) => {
                    &&& width > 0 && height > 0
                    &&& (heights.len() != width * height || colors.len() != width * height)
                },
            },
    {
        if width == 0 || height == 0 {
            return Err(GridError::ZeroArea);
        }
        proof {
            lemma_area_fits(width, height);
        }
        let cells: u64 = width as u64 * height as u64;
        if heights.len() as u64 != cells || colors.len() as u64 != cells {
            return Err(GridError::DimensionMismatch);
        }
        Ok(Grid { width, height, heights, colors })
    }

    /// Builds a grid that has heights only; each cell gets the grey of its
    /// shade.
    pub fn from_heights(width: u32, height: u32, heights: Vec<u32>) -> (result: Result<
        Grid,
        GridError,
    >)
        ensures
            match result {
                Ok(grid) => {
                    &&& width > 0 && height > 0
                    &&& heights.len() == width * height
                    &&& grid@ == (GridModel {
                        width: width as int,
                        height: height as int,
                        heights: heights@,
                        colors: greyscale(heights@),
                    })
                },
                Err(GridError::ZeroArea) => width == 0 || height == 0,
                Err(GridError::DimensionMismatch) => {
                    width > 0 && height > 0 && heights.len() != width * height
                },
            },
    {
        let max = max_height(&heights);
        let mut colors: Vec<[u8; 4]> = Vec::new();
        let mut i: usize = 0;
        proof {
            lemma_max_of(heights@);
        }
        while i < heights.len()
            invariant
                i <= heights.len(),
                max == max_of(heights@),
                forall|j: int| 0 <= j < heights.len() ==> heights[j] <= max,
                colors.len() == i,
                forall|j: int|
                    0 <= j < i ==> colors[j] == grey(
                        grey_shade(heights[j] as int, max_of(heights@)),
                    ),
            decreases heights.len() - i,
        {
            colors.push(grey_of(heights[i], max));
            i += 1;
        }
        assert(colors@ =~= greyscale(heights@));
        Grid::new(width, height, heights, colors)
    }

    /// Builds a grid that has colours only; every cell gets the height of a
    /// flat mosaic.
    pub fn from_colors(width: u32, height: u32, colors: Vec<[u8; 4]>) -> (result: Result<
        Grid,
        GridError,
    >)
        ensures
            match result {
                Ok(grid) => {
                    &&& width > 0 && height > 0
                    &&& colors.len() == width * height
                    &&& grid@ == (GridModel {
                        width: width as int,
                        height: height as int,
                        heights: Seq::new(colors@.len(), |i: int| FLAT_HEIGHT),
                        colors: colors@,
                    })
                },
                Err(GridError::ZeroArea) => width == 0 || height == 0,
                Err(GridError::DimensionMismatch) => {
                    width > 0 && height > 0 && colors.len() != width * height
                },
            },
    {
        let mut heights: Vec<u32> = Vec::new();
        let mut i: usize = 0;
        while i < colors.len()
            invariant
                i <= colors.len(),
                heights.len() == i,
                forall|j: int| 0 <= j < i ==> heights[j] == FLAT_HEIGHT,
            decreases colors.len() - i,
        {
            heights.push(FLAT_HEIGHT);
            i += 1;
        }
        assert(heights@ =~= Seq::new(colors@.len(), |i: int| FLAT_HEIGHT));
        Grid::new(width, height, heights, colors)
    }

    /// The number of cells along the first axis.
    pub fn width(&self) -> (width: u32)
        ensures
            width == self@.width,
            self@.wf(),
    {
        proof {
            use_type_invariant(self);
        }
        self.width
    }

    /// The number of cells along the second axis.
    pub fn height(&self) -> (height: u32)
        ensures
            height == self@.height,
            self@.wf(),
    {
        proof {
            use_type_invariant(self);
        }
        self.height
    }

    /// Both sides of the grid. Every grid is well-formed.
    pub fn dimensions(&self) -> (size: (u32, u32))
        ensures
            size.0 == self@.width,
            size.1 == self@.height,
            self@.wf(),
    {
        proof {
            use_type_invariant(self);
        }
        (self.width, self.height)
    }

    /// Where the cell `(x, y)` stands in the two vectors.
    fn offset(&self, x: u32, y: u32) -> (index: usize)
        requires
            self@.in_bounds(x as int, y as int),
        ensures
            index == self@.index_of(x as int, y as int),
            index < self.heights.len(),
            index < self.colors.len(),
    {
        proof {
            use_type_invariant(self);
            self@.lemma_index_in_range(x as int, y as int);
            lemma_area_fits(y, self.width);
        }
        let row: u64 = y as u64 * self.width as u64;
        assert(row == y * self@.width);
        let index: u64 = x as u64 + row;
        assert(index < self.heights.len());
        index as usize
    }

    /// The height of the cell `(x, y)`.
    pub fn height_at(&self, x: u32, y: u32) -> (height: u32)
        requires
            self@.in_bounds(x as int, y as int),
        ensures
            height == self@.height_at(x as int, y as int),
    {
        let index = self.offset(x, y);
        self.heights[index]
    }

    /// The colour of the cell `(x, y)`.
    pub fn color_at(&self, x: u32, y: u32) -> (color: [u8; 4])
        requires
            self@.in_bounds(x as int, y as int),
        ensures
            color == self@.color_at(x as int, y as int),
    {
        let index = self.offset(x, y);
        self.colors[index]
    }

    /// The largest height of the grid.
    pub fn max_height(&self) -> (max: u32)
        ensures
            max == max_of(self@.heights),
    {
        max_height(&self.heights)
    }
}

/// The height that a pixel of a height image stands for: its red channel,
/// or, in an image that spreads the height over its colour, the 24 bits of
/// red, green and blue, red foremost.
pub open spec fn spec_pixel_height(pixel: [u8; 4], rgb_encoded: bool) -> int {
    if rgb_encoded {
        pixel[0] * 65536 + pixel[1] * 256 + pixel[2]
    } else {
        pixel[0] as int
    }
}

/// Reads the height that a pixel of a height image stands for.
pub fn pixel_height(pixel: [u8; 4], rgb_encoded: bool) -> (height: u32)
    ensures
        height == spec_pixel_height(pixel, rgb_encoded),
{
    if rgb_encoded {
        pixel[0] as u32 * 65536 + pixel[1] as u32 * 256 + pixel[2] as u32
    } else {
        pixel[0] as u32
    }
}

/// Why one layer of heights could not be laid on another.
#[derive(Debug, Copy, Clone, PartialEq, Eq, Structural)]
pub enum LayerError {
    /// The two layers differ in the number of their cells.
    SizeMismatch,
    /// In some cell the two heights together do not fit in `u32`.
    TooHigh,
}

/// Whether in some cell the heights of the two layers together do not fit
/// in `u32`.
pub open spec fn overflows(below: Seq<u32>, layer: Seq<u32>) -> bool {
    exists|i: int| 0 <= i < below.len() && i < layer.len() && #[trigger] below[i] + layer[i]
        > u32::MAX
}

/// Lays one layer of heights on another: the height of each cell is the sum
/// of its heights in the two.
pub fn add_layer(below: &Vec<u32>, layer: &Vec<u32>) -> (result: Result<Vec<u32>, LayerError>)
    ensures
        match result {
            Ok(sum) => {
                &&& below.len() == layer.len()
                &&& !overflows(below@, layer@)
                &&& sum.len() == below.len()
                &&& forall|i: int| 0 <= i < sum.len() ==> sum[i] == below[i] + layer[i]
            },
            Err(LayerError::SizeMismatch) => below.len() != layer.len(),
            Err(LayerError::TooHigh) => below.len() == layer.len() && overflows(below@, layer@),
        },
{
    if below.len() != layer.len() {
        return Err(LayerError::SizeMismatch);
    }
    let mut sum: Vec<u32> = Vec::new();
    let mut i: usize = 0;
    while i < below.len()
        invariant
            below.len() == layer.len(),
            i <= below.len(),
            sum.len() == i,
            forall|j: int| 0 <= j < i ==> sum[j] == below[j] + layer[j],
        decreases below.len() - i,
    {
        match below[i].checked_add(layer[i]) {
            Some(height) => {
                sum.push(height);
            },
            None => {
                assert(below[i as int] + layer[i as int] > u32::MAX);
                return Err(LayerError::TooHigh);
            },
        }
        i += 1;
    }
    assert(!overflows(below@, layer@)) by {
        if overflows(below@, layer@) {
            let j = choose|j: int|
                0 <= j < below.len() && j < layer.len() && #[trigger] below[j] + layer[j]
                    > u32::MAX;
            assert(sum[j] == below[j] + layer[j]);
        }
    }
    Ok(sum)
}

} // verus!
