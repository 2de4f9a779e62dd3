//! Row-major height grids over a rectangular window of integer world coordinates.

use vstd::prelude::*;

verus! {

/// Position, in a row-major grid of `width` columns, of the cell in column `x` and row `y`.
pub open spec fn row_major_index(x: int, y: int, width: int) -> int {
    y * width + x
}

/// A window of `width` by `height` cells whose corner is `(offset_x, offset_y)` can be
/// laid out: every world coordinate in it is a `u32`, and its cell count is a `usize`.
pub open spec fn window_fits(width: u32, height: u32, offset_x: u32, offset_y: u32) -> bool {
    &&& offset_x + width <= u32::MAX + 1
    &&& offset_y + height <= u32::MAX + 1
    &&& width * height <= usize::MAX
}

/// `grid` is the row-major grid of `width` by `height` cells at `(offset_x, offset_y)`
/// whose cell in column `x` and row `y` is a result of `sample` at `(offset_x + x, offset_y + y)`.
pub open spec fn is_height_grid<T, F: Fn(u32, u32) -> T>(
    sample: F,
    width: u32,
    height: u32,
    offset_x: u32,
    offset_y: u32,
    grid: Seq<T>,
) -> bool {
    &&& grid.len() == width * height
    &&& forall|x: int, y: int|
        0 <= x < width && 0 <= y < height ==> sample.ensures(
            ((offset_x + x) as u32, (offset_y + y) as u32),
            #[trigger] grid[row_major_index(x, y, width as int)],
        )
}

/// `sample` gives one result for each coordinate.
pub open spec fn is_deterministic<T, F: Fn(u32, u32) -> T>(sample: F) -> bool {
    forall|x: u32, y: u32, a: T, b: T|
        #[trigger] sample.ensures((x, y), a) && #[trigger] sample.ensures((x, y), b) ==> a == b
}

/// A window and a sampler that gives one result per coordinate determine the grid:
/// two grids sampled from the same window with the same sampler are equal.
pub proof fn lemma_grid_determined<T, F: Fn(u32, u32) -> T>(
    sample: F,
    width: u32,
    height: u32,
    offset_x: u32,
    offset_y: u32,
    first: Seq<T>,
    second: Seq<T>,
)
    requires
        is_deterministic(sample),
        is_height_grid(sample, width, height, offset_x, offset_y, first),
        is_height_grid(sample, width, height, offset_x, offset_y, second),
    ensures
        first == second,
{
    assert forall|i: int| 0 <= i < first.len() implies first[i] == second[i] by {
        let x = i % (width as int);
        let y = i / (width as int);
        assert(width > 0) by (nonlinear_arith)
            requires
                0 <= i < width * height,
        ;
        assert(0 <= x < width && 0 <= y < height && i == row_major_index(x, y, width as int))
            by (nonlinear_arith)
            requires
                0 <= i < width * height,
                width > 0,
                x == i % (width as int),
                y == i / (width as int),
        ;
        let args = ((offset_x + x) as u32, (offset_y + y) as u32);
        assert(sample.ensures(args, first[row_major_index(x, y, width as int)]));
        assert(sample.ensures(args, second[row_major_index(x, y, width as int)]));
    }
    assert(first =~= second);
}

proof fn lemma_rows_below(x: int, y: int, width: int, rows: int)
    requires
        0 <= x < width,
        0 <= y < rows,
    ensures
        0 <= row_major_index(x, y, width) < rows * width,
{
    assert(0 <= y * width + x < rows * width) by (nonlinear_arith)
        requires
            0 <= x < width,
            0 <= y < rows,
    ;
}

proof fn lemma_index_unique(x1: int, y1: int, x2: int, y2: int, width: int)
    requires
        0 <= x1 < width,
        0 <= x2 < width,
        0 <= y1,
        0 <= y2,
        row_major_index(x1, y1, width) == row_major_index(x2, y2, width),
    ensures
        x1 == x2,
        y1 == y2,
{
    assert(y1 == y2) by (nonlinear_arith)
        requires
            0 <= x1 < width,
            0 <= x2 < width,
            0 <= y1,
            0 <= y2,
            y1 * width + x1 == y2 * width + x2,
    ;
}

/// Whether a window of `width` by `height` cells at `(offset_x, offset_y)` can be laid out.
pub fn check_window(width: u32, height: u32, offset_x: u32, offset_y: u32) -> (r: bool)
    ensures
        r == window_fits(width, height, offset_x, offset_y),
{
    assert(width * height <= u32::MAX * u32::MAX) by (nonlinear_arith)
        requires
            width <= u32::MAX,
            height <= u32::MAX,
    ;
    let cells = (width as u64) * (height as u64);
    (offset_x as u64) + (width as u64) <= 0x1_0000_0000u64
        && (offset_y as u64) + (height as u64) <= 0x1_0000_0000u64
        && cells as u128 <= usize::MAX as u128
}

/// Position, in a row-major grid of `width` columns, of the cell in column `x` and row `y`.
pub fn cell_index(x: u32, y: u32, width: u32) -> (r: usize)
    requires
        x < width,
        row_major_index(x as int, y as int, width as int) <= usize::MAX,
    ensures
        r as int == row_major_index(x as int, y as int, width as int),
{
    assert(0 <= y * width <= y * width + x) by (nonlinear_arith)
        requires
            x < width,
    ;
    (y as usize) * (width as usize) + (x as usize)
}

/// Samples a window of `width` by `height` cells whose corner is `(offset_x, offset_y)`.
///
/// The result holds `width * height` values in row-major order: the cell in column `x`
/// and row `y` of the window sits at `y * width + x` and is `sample` taken at the world
/// coordinate `(offset_x + x, offset_y + y)`. Rows are filled from top to bottom and
/// each row from left to right.
pub fn build_height_grid<T, F: Fn(u32, u32) -> T>(
    sample: &F,
    width: u32,
    height: u32,
    offset_x: u32,
    offset_y: u32,
) -> (grid: Vec<T>)
    requires
        window_fits(width, height, offset_x, offset_y),
        forall|x: u32, y: u32| #[trigger] sample.requires((x, y)),
    ensures
        grid.len() == width * height,
        forall|x: int, y: int|
            0 <= x < width && 0 <= y < height ==> sample.ensures(
                ((offset_x + x) as u32, (offset_y + y) as u32),
                #[trigger] grid@[row_major_index(x, y, width as int)],
            ),
{
    let mut grid: Vec<T> = Vec::new();
    let mut row: u32 = 0;
    while row < height
        invariant
            window_fits(width, height, offset_x, offset_y),
            forall|x: u32, y: u32| #[trigger] sample.requires((x, y)),
            row <= height,
            grid.len() == row * width,
            forall|x: int, y: int|
                0 <= x < width && 0 <= y < row ==> sample.ensures(
                    ((offset_x + x) as u32, (offset_y + y) as u32),
                    #[trigger] grid@[row_major_index(x, y, width as int)],
                ),
        decreases height - row,
    {
        let mut col: u32 = 0;
        while col < width
            invariant
                window_fits(width, height, offset_x, offset_y),
                forall|x: u32, y: u32| #[trigger] sample.requires((x, y)),
                row < height,
                col <= width,
                grid.len() == row * width + col,
                forall|x: int, y: int|
                    0 <= x < width && 0 <= y <= row && row_major_index(x, y, width as int)
                        < grid.len() ==> sample.ensures(
                        ((offset_x + x) as u32, (offset_y + y) as u32),
                        #[trigger] grid@[row_major_index(x, y, width as int)],
                    ),
            decreases width - col,
        {
            let value = sample(offset_x + col, offset_y + row);
            let ghost before = grid@;
            grid.push(value);
            assert forall|x: int, y: int|
                0 <= x < width && 0 <= y <= row && row_major_index(x, y, width as int)
                    < grid.len() implies sample.ensures(
                ((offset_x + x) as u32, (offset_y + y) as u32),
                #[trigger] grid@[row_major_index(x, y, width as int)],
            ) by {
                if row_major_index(x, y, width as int) == before.len() {
                    lemma_index_unique(x, y, col as int, row as int, width as int);
                }
            }
            col = col + 1;
        }
        assert(grid.len() == (row + 1) * width) by (nonlinear_arith)
            requires
                grid.len() == row * width + width,
        ;
        assert forall|x: int, y: int| 0 <= x < width && 0 <= y <= row implies
            row_major_index(x, y, width as int) < grid.len() by {
            lemma_rows_below(x, y, width as int, row + 1);
        }
        row = row + 1;
    }
    assert(grid.len() == width * height) by (nonlinear_arith)
        requires
            grid.len() == height * width,
    ;
    grid
}

} // verus!
