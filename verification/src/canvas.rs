//! The grid of colored blocks that the animated background is painted from
//! before it is blurred: square blocks of one size, each in a color drawn
//! from the palette.
use crate::renderer::Color;
use rand::seq::IndexedRandom;
use vstd::prelude::*;

verus! {

/// One color of `colors`, drawn with rand's `IndexedRandom::choose` and the
/// thread-local generator `rand::rng()`. Trusted: a color comes back exactly
/// when there is one to draw, and it is one of `colors`; which one is left to
/// chance and not stated.
#[verifier::external_body]
fn choose_color(colors: &Vec<Color>) -> (r: Option<Color>)
    ensures
        r is Some <==> colors.len() > 0,
        r matches Some(c) ==> colors@.contains(c),
{
    colors.choose(&mut rand::rng()).copied()
}

/// How many blocks of size `block` it takes to cover `len` pixels: the
/// least count whose blocks reach `len`.
pub fn blocks_needed(len: u32, block: u32) -> (r: u32)
    requires
        block > 0,
    ensures
        r * block >= len,
        r == 0 || (r - 1) * block < len,
{
    let q = len / block;
    let rem = len % block;
    proof {
        vstd::arithmetic::div_mod::lemma_fundamental_div_mod(len as int, block as int);
        assert(q * block + rem == len) by (nonlinear_arith)
            requires
                len == block * (len / block) + len % block,
                q == len / block,
                rem == len % block,
        ;
    }
    if rem == 0 {
        proof {
            assert(q == 0 || (q - 1) * block < len) by (nonlinear_arith)
                requires
                    q * block == len,
                    block > 0,
            ;
        }
        q
    } else {
        proof {
            assert((q + 1) * block >= len && q * block < len) by (nonlinear_arith)
                requires
                    q * block + rem == len,
                    0 < rem < block,
            ;
            assert(q + 1 <= len) by (nonlinear_arith)
                requires
                    q * block + rem == len,
                    0 < rem,
                    block > 0,
                    q >= 0,
            ;
        }
        q + 1
    }
}

/// A grid of `rows` rows of `cols` blocks, each in a color drawn from `colors`.
fn random_block_grid(colors: &Vec<Color>, rows: u32, cols: u32) -> (r: Vec<Vec<Color>>)
    requires
        colors.len() > 0,
    ensures
        r.len() == rows,
        forall|j: int| 0 <= j < rows ==> (#[trigger] r[j]).len() == cols,
        forall|j: int, i: int| 0 <= j < rows && 0 <= i < cols ==> colors@.contains(#[trigger] r[j][i]),
{
    let mut grid: Vec<Vec<Color>> = Vec::new();
    let mut j: u32 = 0;
    while j < rows
        invariant
            j <= rows,
            colors.len() > 0,
            grid.len() == j,
            forall|a: int| 0 <= a < j ==> (#[trigger] grid[a]).len() == cols,
            forall|a: int, i: int| 0 <= a < j && 0 <= i < cols ==> colors@.contains(#[trigger] grid[a][i]),
        decreases rows - j,
    {
        let mut row: Vec<Color> = Vec::new();
        let mut i: u32 = 0;
        while i < cols
            invariant
                i <= cols,
                colors.len() > 0,
                row.len() == i,
                forall|b: int| 0 <= b < i ==> colors@.contains(#[trigger] row[b]),
            decreases cols - i,
        {
            let c = match choose_color(colors) {
                Some(c) => c,
                None => colors[0],
            };
            row.push(c);
            i = i + 1;
        }
        grid.push(row);
        j = j + 1;
    }
    grid
}

/// Paints `width` by `height` pixels from a grid of block colors: the pixel
/// in column `x` of row `y` takes the color of block `x / block` of block
/// row `y / block`. The grid has to have enough blocks to cover the picture.
pub fn paint_blocks(grid: &Vec<Vec<Color>>, width: u32, height: u32, block: u32) -> (r: Vec<Vec<Color>>)
    requires
        block > 0,
        height <= grid.len() * block,
        forall|j: int| 0 <= j < grid.len() ==> width <= (#[trigger] grid[j]).len() * block,
    ensures
        r.len() == height,
        forall|y: int| 0 <= y < height ==> (#[trigger] r[y]).len() == width,
        forall|y: int, x: int|
            0 <= y < height && 0 <= x < width ==> #[trigger] r[y][x] == grid[y / block as int][x
                / block as int],
{
    let mut out: Vec<Vec<Color>> = Vec::new();
    let mut y: u32 = 0;
    while y < height
        invariant
            y <= height,
            block > 0,
            height <= grid.len() * block,
            forall|j: int| 0 <= j < grid.len() ==> width <= (#[trigger] grid[j]).len() * block,
            out.len() == y,
            forall|a: int| 0 <= a < y ==> (#[trigger] out[a]).len() == width,
            forall|a: int, x: int|
                0 <= a < y && 0 <= x < width ==> #[trigger] out[a][x] == grid[a / block as int][x
                    / block as int],
        decreases height - y,
    {
        let by = y / block;
        assert(by < grid.len()) by (nonlinear_arith)
            requires
                y < height,
                height <= grid.len() * block,
                block > 0,
                by == y / block,
        ;
        let blocks = &grid[by as usize];
        let mut row: Vec<Color> = Vec::new();
        let mut x: u32 = 0;
        while x < width
            invariant
                x <= width,
                block > 0,
                width <= blocks.len() * block,
                row.len() == x,
                forall|b: int| 0 <= b < x ==> #[trigger] row[b] == blocks[b / block as int],
            decreases width - x,
        {
            let bx = x / block;
            assert(bx < blocks.len()) by (nonlinear_arith)
                requires
                    x < width,
                    width <= blocks.len() * block,
                    block > 0,
                    bx == x / block,
            ;
            row.push(blocks[bx as usize]);
            x = x + 1;
        }
        out.push(row);
        y = y + 1;
    }
    out
}

/// The block picture behind the animated background: `width` by `height`
/// pixels in blocks of `block` pixels, each block in one color drawn from
/// `colors`. Which colors are drawn is left to chance; every pixel has a
/// palette color and pixels of one block have the same color.
pub fn block_canvas(colors: &Vec<Color>, width: u32, height: u32, block: u32) -> (r: Vec<Vec<Color>>)
    requires
        colors.len() > 0,
        block > 0,
    ensures
        r.len() == height,
        forall|y: int| 0 <= y < height ==> (#[trigger] r[y]).len() == width,
        forall|y: int, x: int|
            0 <= y < height && 0 <= x < width ==> colors@.contains(#[trigger] r[y][x]),
        forall|y1: int, x1: int, y2: int, x2: int|
            0 <= y1 < height && 0 <= x1 < width && 0 <= y2 < height && 0 <= x2 < width && y1
                / block as int == y2 / block as int && x1 / block as int == x2 / block as int
                ==> #[trigger] r[y1][x1] == #[trigger] r[y2][x2],
{
    let rows = blocks_needed(height, block);
    let cols = blocks_needed(width, block);
    let grid = random_block_grid(colors, rows, cols);
    let r = paint_blocks(&grid, width, height, block);
    proof {
        assert forall|y: int, x: int| 0 <= y < height && 0 <= x < width implies colors@.contains(
            #[trigger] r[y][x],
        ) by {
            assert(y / (block as int) < rows) by (nonlinear_arith)
                requires
                    0 <= y < height,
                    height <= rows * block,
                    block > 0,
            ;
            assert(x / (block as int) < cols) by (nonlinear_arith)
                requires
                    0 <= x < width,
                    width <= cols * block,
                    block > 0,
            ;
            assert(0 <= y / (block as int) && 0 <= x / (block as int)) by (nonlinear_arith)
                requires
                    0 <= y,
                    0 <= x,
                    block > 0,
            ;
        }
    }
    r
}

} // verus!
