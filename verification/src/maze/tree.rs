//! Ways through a grid of maze cells: which cells are joined, whether
//! every cell can be reached from every other, and whether the passages
//! form a tree.
//!
//! The walls are given as a function from a cell to its two walls. A cell
//! is joined to the cell above it where its top wall is open, and to the
//! cell to its left where its left wall is open; the neighbours are taken
//! round the edges of the grid.

use vstd::prelude::*;
use crate::maze::Walls;
use crate::video::wrapping::wrap_dec;

verus! {

/// Whether `cell`, a row and a column, is a cell of a grid of `rows` by
/// `cols` cells.
pub open spec fn in_grid(rows: int, cols: int, cell: (int, int)) -> bool {
    0 <= cell.0 < rows && 0 <= cell.1 < cols
}

/// Whether a passage joins the cells `a` and `b`: they are cells of the
/// grid, one lies above or to the left of the other, and the wall between
/// them is open.
pub open spec fn passage(
    walls: spec_fn(int, int) -> Walls,
    rows: int,
    cols: int,
    a: (int, int),
    b: (int, int),
) -> bool {
    &&& in_grid(rows, cols, a)
    &&& in_grid(rows, cols, b)
    &&& {
        ||| b == (wrap_dec(a.0, rows), a.1) && !walls(a.0, a.1).top
        ||| a == (wrap_dec(b.0, rows), b.1) && !walls(b.0, b.1).top
        ||| b == (a.0, wrap_dec(a.1, cols)) && !walls(a.0, a.1).left
        ||| a == (b.0, wrap_dec(b.1, cols)) && !walls(b.0, b.1).left
    }
}

/// Whether `path` is a way through the grid from `from` to `to`: a
/// sequence of cells that begins with the one and ends with the other,
/// each joined to the one before by a passage.
pub open spec fn way(
    walls: spec_fn(int, int) -> Walls,
    rows: int,
    cols: int,
    from: (int, int),
    to: (int, int),
    path: Seq<(int, int)>,
) -> bool {
    &&& path.len() >= 1
    &&& path[0] == from
    &&& path.last() == to
    &&& in_grid(rows, cols, from)
    &&& forall|i: int|
        0 <= i < path.len() - 1 ==> passage(walls, rows, cols, #[trigger] path[i], path[i + 1])
}

/// Whether there is a way through the grid from `from` to `to`.
pub open spec fn reachable(
    walls: spec_fn(int, int) -> Walls,
    rows: int,
    cols: int,
    from: (int, int),
    to: (int, int),
) -> bool {
    exists|path: Seq<(int, int)>| way(walls, rows, cols, from, to, path)
}

/// Whether every cell of the grid can be reached from every other.
pub open spec fn connected(walls: spec_fn(int, int) -> Walls, rows: int, cols: int) -> bool {
    forall|a: (int, int), b: (int, int)|
        in_grid(rows, cols, a) && in_grid(rows, cols, b) ==> #[trigger] reachable(
            walls,
            rows,
            cols,
            a,
            b,
        )
}

/// How many walls of the first `n` cells of a row are open.
pub open spec fn open_in_row(walls: spec_fn(int, int) -> Walls, row: int, n: int) -> nat
    decreases n,
{
    if n <= 0 {
        0
    } else {
        open_in_row(walls, row, n - 1) + (if walls(row, n - 1).top {
            0nat
        } else {
            1nat
        }) + (if walls(row, n - 1).left {
            0nat
        } else {
            1nat
        })
    }
}

/// How many walls of the cells of the first `n` rows are open: how many
/// passages these cells have upwards and to the left.
pub open spec fn openings(walls: spec_fn(int, int) -> Walls, n: int, cols: int) -> nat
    decreases n,
{
    if n <= 0 {
        0
    } else {
        openings(walls, n - 1, cols) + open_in_row(walls, n - 1, cols)
    }
}

/// Whether the passages of the grid form a spanning tree: every cell can
/// be reached from every other, and there is one passage fewer than there
/// are cells, so that no passage closes a loop.
pub open spec fn spanning_tree(walls: spec_fn(int, int) -> Walls, rows: int, cols: int) -> bool {
    &&& connected(walls, rows, cols)
    &&& openings(walls, rows, cols) + 1 == rows * cols
}

/// Opening walls cuts no way: where every cell can be reached from every
/// other, and walls are taken away and none is added, every cell can
/// still be reached from every other.
pub proof fn lemma_connected_opened(
    before: spec_fn(int, int) -> Walls,
    after: spec_fn(int, int) -> Walls,
    rows: int,
    cols: int,
)
    requires
        connected(before, rows, cols),
        forall|r: int, c: int| (#[trigger] after(r, c)).top ==> before(r, c).top,
        forall|r: int, c: int| (#[trigger] after(r, c)).left ==> before(r, c).left,
    ensures
        connected(after, rows, cols),
{
    assert forall|a: (int, int), b: (int, int)|
        in_grid(rows, cols, a) && in_grid(rows, cols, b) implies #[trigger] reachable(
        after,
        rows,
        cols,
        a,
        b,
    ) by {
        assert(reachable(before, rows, cols, a, b));
        let path = choose|path: Seq<(int, int)>| way(before, rows, cols, a, b, path);
        assert forall|i: int| 0 <= i < path.len() - 1 implies passage(
            after,
            rows,
            cols,
            #[trigger] path[i],
            path[i + 1],
        ) by {
            let x = path[i];
            let y = path[i + 1];
            assert(passage(before, rows, cols, x, y));
            let _ = after(x.0, x.1);
            let _ = after(y.0, y.1);
        }
        assert(way(after, rows, cols, a, b, path));
    }
}

} // verus!
