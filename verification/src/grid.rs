//! Row-major indexing of a rectangular grid of tiles.

use vstd::prelude::*;

verus! {

/// Whether `(x, y)` is a tile of the grid of `width` by `height`.
pub open spec fn within(width: int, height: int, x: int, y: int) -> bool {
    0 <= x < width && 0 <= y < height
}

/// The place of tile `(x, y)` in a row-major array of rows `width` long.
pub open spec fn index_of(width: int, x: int, y: int) -> int {
    y * width + x
}

/// The tile that stands at place `idx` of a row-major array of rows `width` long.
pub open spec fn coords_of(width: int, idx: int) -> (int, int) {
    (idx % width, idx / width)
}

/// Every tile of the grid has its place inside the array.
pub proof fn lemma_index_in_range(width: int, height: int, x: int, y: int)
    requires
        within(width, height, x, y),
    ensures
        0 <= index_of(width, x, y) < width * height,
{
    assert(0 <= y * width && y * width + width <= height * width) by (nonlinear_arith)
        requires
            0 <= y < height,
            0 < width,
    ;
    assert(height * width == width * height) by (nonlinear_arith);
}

/// The tile found at the place of `(x, y)` is `(x, y)` itself.
pub proof fn lemma_coords_of_index(width: int, x: int, y: int)
    requires
        0 <= x < width,
    ensures
        coords_of(width, index_of(width, x, y)) == (x, y),
{
    vstd::arithmetic::div_mod::lemma_fundamental_div_mod_converse(y * width + x, width, y, x);
}

/// The place of the tile found at `idx` is `idx` itself, and that tile is in
/// the grid.
pub proof fn lemma_index_of_coords(width: int, height: int, idx: int)
    requires
        0 < width,
        0 <= idx < width * height,
    ensures
        within(width, height, coords_of(width, idx).0, coords_of(width, idx).1),
        index_of(width, coords_of(width, idx).0, coords_of(width, idx).1) == idx,
{
    let x = idx % width;
    let y = idx / width;
    vstd::arithmetic::div_mod::lemma_fundamental_div_mod(idx, width);
    assert(idx == width * y + x);
    assert(width * y == y * width) by (nonlinear_arith);
    assert(0 <= y < height) by (nonlinear_arith)
        requires
            0 < width,
            0 <= x < width,
            0 <= width * y + x < width * height,
    ;
}

/// Two tiles of one grid that share a place are the same tile.
pub proof fn lemma_index_injective(width: int, x1: int, y1: int, x2: int, y2: int)
    requires
        0 <= x1 < width,
        0 <= x2 < width,
        index_of(width, x1, y1) == index_of(width, x2, y2),
    ensures
        x1 == x2,
        y1 == y2,
{
    lemma_coords_of_index(width, x1, y1);
    lemma_coords_of_index(width, x2, y2);
}

/// Indexing maps the tiles of the grid one-to-one onto the places
/// `0 .. width * height`, and `coords_of` is its inverse.
pub proof fn lemma_index_bijection(width: int, height: int)
    requires
        0 < width,
        0 <= height,
    ensures
        forall|x: int, y: int|
            within(width, height, x, y) ==> 0 <= #[trigger] index_of(width, x, y) < width * height
                && coords_of(width, index_of(width, x, y)) == (x, y),
        forall|idx: int|
            0 <= idx < width * height ==> within(
                width,
                height,
                (#[trigger] coords_of(width, idx)).0,
                coords_of(width, idx).1,
            ) && index_of(width, coords_of(width, idx).0, coords_of(width, idx).1) == idx,
        forall|x1: int, y1: int, x2: int, y2: int|
            within(width, height, x1, y1) && within(width, height, x2, y2) && #[trigger] index_of(
                width,
                x1,
                y1,
            ) == #[trigger] index_of(width, x2, y2) ==> x1 == x2 && y1 == y2,
{
    assert forall|x: int, y: int| within(width, height, x, y) implies 0 <= #[trigger] index_of(
        width,
        x,
        y,
    ) < width * height && coords_of(width, index_of(width, x, y)) == (x, y) by {
        lemma_index_in_range(width, height, x, y);
        lemma_coords_of_index(width, x, y);
    }
    assert forall|idx: int| 0 <= idx < width * height implies within(
        width,
        height,
        (#[trigger] coords_of(width, idx)).0,
        coords_of(width, idx).1,
    ) && index_of(width, coords_of(width, idx).0, coords_of(width, idx).1) == idx by {
        lemma_index_of_coords(width, height, idx);
    }
    assert forall|x1: int, y1: int, x2: int, y2: int|
        within(width, height, x1, y1) && within(width, height, x2, y2) && #[trigger] index_of(
            width,
            x1,
            y1,
        ) == #[trigger] index_of(width, x2, y2) implies x1 == x2 && y1 == y2 by {
        lemma_index_injective(width, x1, y1, x2, y2);
    }
}

} // verus!
