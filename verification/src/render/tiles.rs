//! Splitting a full-resolution image into the square tiles that are rendered
//! one at a time.

use vstd::prelude::*;
use vstd::arithmetic::div_mod::{lemma_fundamental_div_mod, lemma_fundamental_div_mod_converse};

verus! {

/// Edge length, in pixels, of a full-resolution render tile.
pub const FULL_RES_TILE_SIZE: u32 = 1024;

/// Largest image edge whose tiling does not push a tile origin past `u32::MAX`.
pub const MAX_TILED_EDGE: u32 = 4294966272;

/// A rectangle of the source image, in pixels.
#[derive(Debug, Clone, Copy, PartialEq, Eq, Structural)]
pub struct RenderTile {
    pub x: u32,
    pub y: u32,
    pub width: u32,
    pub height: u32,
}

/// Number of tiles needed to cover `len` pixels along one axis.
pub open spec fn tiles_along(len: nat) -> nat {
    (len + 1023) / 1024
}

/// Extent of the tile that starts at `start` on an axis of `len` pixels.
pub open spec fn tile_extent(len: nat, start: nat) -> nat {
    if len - start < 1024 { (len - start) as nat } else { 1024 }
}

/// The tile in column `col` and row `row` of the grid over a
/// `width` x `height` image.
pub open spec fn spec_tile(width: nat, height: nat, col: nat, row: nat) -> RenderTile {
    RenderTile {
        x: (col * 1024) as u32,
        y: (row * 1024) as u32,
        width: tile_extent(width, col * 1024) as u32,
        height: tile_extent(height, row * 1024) as u32,
    }
}

/// The tiles of a `width` x `height` image in row-major order: row by row from
/// the top, left to right within a row.
pub open spec fn spec_full_resolution_tiles(width: nat, height: nat) -> Seq<RenderTile> {
    let cols = tiles_along(width);
    Seq::new(
        cols * tiles_along(height),
        |i: int| spec_tile(width, height, (i % cols as int) as nat, (i / cols as int) as nat),
    )
}

/// Whether pixel (`px`, `py`) lies in `tile`.
pub open spec fn tile_contains(tile: RenderTile, px: nat, py: nat) -> bool {
    &&& tile.x <= px < tile.x + tile.width
    &&& tile.y <= py < tile.y + tile.height
}

/// Whether tiling a `width` x `height` image keeps every tile origin within
/// `u32` (the loop counters step past the last tile by one tile size).
pub open spec fn tiling_fits(width: u32, height: u32) -> bool {
    &&& height <= MAX_TILED_EDGE
    &&& (height == 0 || width <= MAX_TILED_EDGE)
}

proof fn lemma_index_of_grid(r: int, c: int, cols: int)
    requires
        0 <= r,
        0 <= c < cols,
    ensures
        (r * cols + c) % cols == c,
        (r * cols + c) / cols == r,
{
    lemma_fundamental_div_mod_converse(r * cols + c, cols, r, c);
}

proof fn lemma_grid_cell(width: nat, height: nat, i: int)
    requires
        0 <= i < spec_full_resolution_tiles(width, height).len(),
    ensures
        tiles_along(width) > 0,
        0 <= i % (tiles_along(width) as int) < tiles_along(width),
        0 <= i / (tiles_along(width) as int) < tiles_along(height),
        i == (i / (tiles_along(width) as int)) * tiles_along(width) + i % (tiles_along(width) as int),
{
    let cols = tiles_along(width) as int;
    let rows = tiles_along(height) as int;
    assert(cols * rows > 0);
    assert(cols > 0) by (nonlinear_arith)
        requires
            cols * rows > 0,
            cols >= 0,
            rows >= 0,
    ;
    lemma_fundamental_div_mod(i, cols);
    let q = i / cols;
    let m = i % cols;
    assert(0 <= m < cols);
    assert(0 <= q < rows) by (nonlinear_arith)
        requires
            i == cols * q + m,
            0 <= m < cols,
            0 <= i < cols * rows,
            cols > 0,
    ;
    assert(i == q * cols + m) by (nonlinear_arith)
        requires
            i == cols * q + m,
    ;
}

/// Every tile lies inside the image, is non-empty, is at most
/// `FULL_RES_TILE_SIZE` on each side, and starts on the tile grid.
pub proof fn lemma_tiles_inside_image(width: nat, height: nat, i: int)
    requires
        width <= u32::MAX,
        height <= u32::MAX,
        0 <= i < spec_full_resolution_tiles(width, height).len(),
    ensures
        ({
            let t = spec_full_resolution_tiles(width, height)[i];
            &&& 1 <= t.width <= FULL_RES_TILE_SIZE
            &&& 1 <= t.height <= FULL_RES_TILE_SIZE
            &&& t.x + t.width <= width
            &&& t.y + t.height <= height
            &&& t.x % FULL_RES_TILE_SIZE == 0
            &&& t.y % FULL_RES_TILE_SIZE == 0
        }),
{
    lemma_grid_cell(width, height, i);
}

/// Every pixel of the image lies in exactly one tile: the one in its cell of
/// the `FULL_RES_TILE_SIZE` grid.
pub proof fn lemma_tiles_partition_image(width: nat, height: nat, px: nat, py: nat)
    requires
        width <= u32::MAX,
        height <= u32::MAX,
        px < width,
        py < height,
    ensures
        ({
            let tiles = spec_full_resolution_tiles(width, height);
            let i = (py / 1024) * tiles_along(width) + px / 1024;
            &&& 0 <= i < tiles.len()
            &&& tile_contains(tiles[i as int], px, py)
            &&& forall|j: int| 0 <= j < tiles.len() && #[trigger] tile_contains(tiles[j], px, py) ==> j == i
        }),
{
    let tiles = spec_full_resolution_tiles(width, height);
    let cols = tiles_along(width) as int;
    let rows = tiles_along(height) as int;
    let c = (px / 1024) as int;
    let r = (py / 1024) as int;
    let i = r * cols + c;
    assert(c < cols && r < rows);
    assert(0 <= i < cols * rows) by (nonlinear_arith)
        requires
            0 <= c < cols,
            0 <= r < rows,
            i == r * cols + c,
    ;
    lemma_index_of_grid(r, c, cols);
    assert(tile_contains(tiles[i], px, py));
    assert forall|j: int| 0 <= j < tiles.len() && #[trigger] tile_contains(tiles[j], px, py) implies j == i by {
        lemma_grid_cell(width, height, j);
        let cj = j % cols;
        let rj = j / cols;
        assert(cj == c);
        assert(rj == r);
    }
}

/// Covers a `width` x `height` image with tiles of at most
/// `FULL_RES_TILE_SIZE` pixels on a side, in row-major order.
pub fn full_resolution_tiles(width: u32, height: u32) -> (tiles: Vec<RenderTile>)
    requires
        tiling_fits(width, height),
    ensures
        tiles@ == spec_full_resolution_tiles(width as nat, height as nat),
{
    let ghost cols = tiles_along(width as nat);
    let ghost rows = tiles_along(height as nat);
    let mut tiles: Vec<RenderTile> = Vec::new();
    let mut y: u32 = 0;
    let ghost mut r: nat = 0;
    while y < height
        invariant
            tiling_fits(width, height),
            cols == tiles_along(width as nat),
            rows == tiles_along(height as nat),
            y == r * 1024,
            r <= rows,
            tiles@ =~= Seq::new(
                r * cols,
                |i: int| spec_tile(width as nat, height as nat, (i % cols as int) as nat, (i / cols as int) as nat),
            ),
        decreases rows - r,
    {
        let mut x: u32 = 0;
        let ghost mut c: nat = 0;
        while x < width
            invariant
                tiling_fits(width, height),
                cols == tiles_along(width as nat),
                rows == tiles_along(height as nat),
                y < height,
                y == r * 1024,
                r < rows,
                x == c * 1024,
                c <= cols,
                tiles@ =~= Seq::new(
                    r * cols + c,
                    |i: int| spec_tile(width as nat, height as nat, (i % cols as int) as nat, (i / cols as int) as nat),
                ),
            decreases cols - c,
        {
            let tile_width = if width - x < FULL_RES_TILE_SIZE { width - x } else { FULL_RES_TILE_SIZE };
            let tile_height = if height - y < FULL_RES_TILE_SIZE { height - y } else { FULL_RES_TILE_SIZE };
            let tile = RenderTile { x, y, width: tile_width, height: tile_height };
            proof {
                lemma_index_of_grid(r as int, c as int, cols as int);
                assert(tile == spec_tile(width as nat, height as nat, c, r));
            }
            tiles.push(tile);
            x += FULL_RES_TILE_SIZE;
            proof {
                c = c + 1;
            }
        }
        assert(c == cols);
        assert(r * cols + cols == (r + 1) * cols) by (nonlinear_arith);
        y += FULL_RES_TILE_SIZE;
        proof {
            r = r + 1;
        }
    }
    assert(r == rows);
    assert(r * cols == cols * rows) by (nonlinear_arith)
        requires
            r == rows,
    ;
    tiles
}

} // verus!
