//! Grid topology: where a cell sits in the square grid and which cells are
//! its neighbours.
//!
//! Cells are numbered row by row: the cell in column `x` of row `y` of a grid
//! `width` cells wide has the id `y * width + x`. The neighbours of a cell are
//! the cells of its Moore neighbourhood, the up to eight cells one step away
//! horizontally, vertically or diagonally. The grid does not wrap around: a
//! cell on the border has fewer neighbours.

use vstd::prelude::*;
use vstd::arithmetic::div_mod::lemma_fundamental_div_mod;
use vstd::arithmetic::div_mod::lemma_fundamental_div_mod_converse;
use vstd::arithmetic::div_mod::lemma_mod_bound;

verus! {

/// The column of cell `id` in a grid `width` cells wide.
pub open spec fn column(id: int, width: int) -> int {
    id % width
}

/// The row of cell `id` in a grid `width` cells wide.
pub open spec fn row(id: int, width: int) -> int {
    id / width
}

/// `id` names a cell of a grid `width` cells wide, and every id of that grid
/// fits in an `i32`.
pub open spec fn valid_cell(id: int, width: int) -> bool {
    &&& 1 <= width
    &&& width * width <= i32::MAX
    &&& 0 <= id < width * width
}

/// `n` is a neighbour of `id`: another cell of the grid, at most one column
/// and at most one row away.
pub open spec fn adjacent(id: int, n: int, width: int) -> bool {
    &&& 0 <= n < width * width
    &&& n != id
    &&& -1 <= column(n, width) - column(id, width) <= 1
    &&& -1 <= row(n, width) - row(id, width) <= 1
}

/// `s` is the neighbour set of `id`: exactly the neighbours of `id`, in
/// ascending order, so each of them once.
pub open spec fn is_neighbor_set(s: Seq<i32>, id: int, width: int) -> bool {
    &&& forall|i: int, j: int| 0 <= i < j < s.len() ==> s[i] < s[j]
    &&& forall|n: i32| s.contains(n) <==> adjacent(id, n as int, width)
}

/// How many of the positions `c - 1`, `c`, `c + 1` lie inside `0..width`,
/// for a position `c` that does.
pub open spec fn span(c: int, width: int) -> int {
    1 + (if c >= 1 { 1int } else { 0int }) + (if c + 1 < width { 1int } else { 0int })
}

/// The number of neighbours of cell `id`: the cells in reach in the row
/// above, in its own row without the cell itself, and in the row below.
pub open spec fn neighbor_count(id: int, width: int) -> int {
    let across = span(column(id, width), width);
    let y = row(id, width);
    (if y >= 1 { across } else { 0int }) + (across - 1) + (if y + 1 < width { across } else { 0int })
}

/// Position `c` is the first or the last of `0..width`.
pub open spec fn on_border(c: int, width: int) -> bool {
    c == 0 || c == width - 1
}

/// Cell `id` lies in a corner of the grid.
pub open spec fn is_corner(id: int, width: int) -> bool {
    on_border(column(id, width), width) && on_border(row(id, width), width)
}

/// Cell `id` lies on an edge of the grid, but not in a corner.
pub open spec fn is_edge(id: int, width: int) -> bool {
    on_border(column(id, width), width) != on_border(row(id, width), width)
}

/// Cell `id` lies off the border of the grid.
pub open spec fn is_interior(id: int, width: int) -> bool {
    !on_border(column(id, width), width) && !on_border(row(id, width), width)
}

/// The coordinates of a cell of the grid lie in the grid and give its id back.
pub proof fn lemma_coordinates_of_cell(id: int, width: int)
    requires
        1 <= width,
        0 <= id < width * width,
    ensures
        0 <= column(id, width) < width,
        0 <= row(id, width) < width,
        id == row(id, width) * width + column(id, width),
{
    lemma_fundamental_div_mod(id, width);
    lemma_mod_bound(id, width);
    let q = id / width;
    let r = id % width;
    assert(width * q == q * width) by (nonlinear_arith);
    assert(0 <= q < width) by (nonlinear_arith)
        requires
            1 <= width,
            0 <= id < width * width,
            id == q * width + r,
            0 <= r < width,
    ;
}

/// The cell in column `x` of row `y` belongs to the grid and has those
/// coordinates.
pub proof fn lemma_cell_of_coordinates(x: int, y: int, width: int)
    requires
        0 <= x < width,
        0 <= y < width,
    ensures
        0 <= y * width + x < width * width,
        column(y * width + x, width) == x,
        row(y * width + x, width) == y,
{
    lemma_fundamental_div_mod_converse(y * width + x, width, y, x);
    assert(0 <= y * width + x < width * width) by (nonlinear_arith)
        requires
            0 <= x < width,
            0 <= y < width,
    ;
}

/// Ids grow along a row and from each row to the next.
pub proof fn lemma_row_major_order(a: int, b: int, width: int)
    requires
        1 <= width,
        row(a, width) < row(b, width) || (row(a, width) == row(b, width) && column(a, width)
            < column(b, width)),
    ensures
        a < b,
{
    lemma_fundamental_div_mod(a, width);
    lemma_fundamental_div_mod(b, width);
    lemma_mod_bound(a, width);
    lemma_mod_bound(b, width);
    let qa = a / width;
    let qb = b / width;
    assert(qa < qb ==> width * qa + width <= width * qb) by (nonlinear_arith)
        requires
            1 <= width,
    ;
}

/// A neighbour set holds only cells of the grid, none of them twice and never
/// the cell itself; it has three members for a cell in a corner, five for a
/// cell elsewhere on an edge and eight for a cell off the border.
pub proof fn lemma_neighbor_set_shape(s: Seq<i32>, id: int, width: int)
    requires
        valid_cell(id, width),
        is_neighbor_set(s, id, width),
        s.len() == neighbor_count(id, width),
    ensures
        forall|i: int| 0 <= i < s.len() ==> 0 <= #[trigger] s[i] < width * width,
        s.no_duplicates(),
        forall|i: int| 0 <= i < s.len() ==> #[trigger] s[i] != id,
        width >= 2 && is_corner(id, width) ==> s.len() == 3,
        is_edge(id, width) ==> s.len() == 5,
        is_interior(id, width) ==> s.len() == 8,
{
    assert forall|i: int| 0 <= i < s.len() implies 0 <= #[trigger] s[i] < width * width && s[i]
        != id by {
        assert(s.contains(s[i]));
    }
    assert forall|i: int, j: int| 0 <= i < s.len() && 0 <= j < s.len() && i != j implies s[i]
        != s[j] by {
        if i < j {
            assert(s[i] < s[j]);
        } else {
            assert(s[j] < s[i]);
        }
    }
    lemma_coordinates_of_cell(id, width);
}

/// Two ascending sequences with the same members are the same sequence.
proof fn lemma_ascending_same_members(a: Seq<i32>, b: Seq<i32>)
    requires
        forall|i: int, j: int| 0 <= i < j < a.len() ==> a[i] < a[j],
        forall|i: int, j: int| 0 <= i < j < b.len() ==> b[i] < b[j],
        forall|n: i32| a.contains(n) <==> b.contains(n),
    ensures
        a == b,
    decreases a.len(),
{
    if a.len() == 0 {
        if b.len() > 0 {
            assert(b.contains(b[0]));
        }
        assert(a =~= b);
    } else {
        assert(a.contains(a.last()));
        assert(b.contains(a.last()));
        let kb = choose|k: int| 0 <= k < b.len() && b[k] == a.last();
        assert(b.contains(b.last()));
        let ka = choose|k: int| 0 <= k < a.len() && a[k] == b.last();
        assert(a.last() == b.last()) by {
            if ka < a.len() - 1 {
                assert(a[ka] < a[a.len() - 1]);
            }
            if kb < b.len() - 1 {
                assert(b[kb] < b[b.len() - 1]);
            }
        }
        let a1 = a.drop_last();
        let b1 = b.drop_last();
        assert forall|n: i32| a1.contains(n) <==> b1.contains(n) by {
            if a1.contains(n) {
                let i = choose|i: int| 0 <= i < a1.len() && a1[i] == n;
                assert(a[i] < a[a.len() - 1]);
                assert(a.contains(n));
                let j = choose|j: int| 0 <= j < b.len() && b[j] == n;
                assert(b1[j] == n);
            }
            if b1.contains(n) {
                let i = choose|i: int| 0 <= i < b1.len() && b1[i] == n;
                assert(b[i] < b[b.len() - 1]);
                assert(b.contains(n));
                let j = choose|j: int| 0 <= j < a.len() && a[j] == n;
                assert(a1[j] == n);
            }
        }
        lemma_ascending_same_members(a1, b1);
        assert(a =~= a1.push(a.last()));
        assert(b =~= b1.push(b.last()));
    }
}

/// A cell has one neighbour set: the grid and the cell decide it, member by
/// member and in its order.
pub proof fn lemma_neighbor_set_unique(a: Seq<i32>, b: Seq<i32>, id: int, width: int)
    requires
        is_neighbor_set(a, id, width),
        is_neighbor_set(b, id, width),
    ensures
        a == b,
{
    lemma_ascending_same_members(a, b);
}

/// The offset of cell `n` from cell `id` comes before `(dy, dx)` when offsets
/// are taken row by row.
spec fn offset_before(id: int, n: int, width: int, dy: int, dx: int) -> bool {
    let ry = row(n, width) - row(id, width);
    let rx = column(n, width) - column(id, width);
    ry < dy || (ry == dy && rx < dx)
}

/// How many of the positions `c - 1`, `c`, `c + 1` below `c + d` lie inside
/// `0..width`, for a position `c` that does.
spec fn span_before(c: int, width: int, d: int) -> int {
    (if d > -1 && c >= 1 { 1int } else { 0int }) + (if d > 0 { 1int } else { 0int }) + (if d > 1 && c
        + 1 < width { 1int } else { 0int })
}

/// How many neighbours of the cell at `(x, y)` have an offset before
/// `(dy, dx)`.
spec fn neighbors_before(x: int, y: int, width: int, dy: int, dx: int) -> int {
    (if dy > -1 && y >= 1 { span(x, width) } else { 0int })
    + (if dy > 0 { span(x, width) - 1 } else { 0int })
    + (if dy > 1 && y + 1 < width { span(x, width) } else { 0int })
    + (if -1 <= dy <= 1 && 0 <= y + dy < width {
        span_before(x, width, dx) - (if dy == 0 && dx > 0 { 1int } else { 0int })
    } else {
        0int
    })
}

/// The neighbours of cell `id` in a grid `width` cells wide: the ids of the
/// cells of its Moore neighbourhood that exist, in ascending order.
pub fn get_neighbors(id: i32, width: i32) -> (neighbors: Vec<i32>)
    requires
        valid_cell(id as int, width as int),
    ensures
        is_neighbor_set(neighbors@, id as int, width as int),
        neighbors@.len() == neighbor_count(id as int, width as int),
        forall|i: int| 0 <= i < neighbors@.len() ==> 0 <= #[trigger] neighbors@[i] < width * width,
        neighbors@.no_duplicates(),
        !neighbors@.contains(id),
        width >= 2 && is_corner(id as int, width as int) ==> neighbors@.len() == 3,
        is_edge(id as int, width as int) ==> neighbors@.len() == 5,
        is_interior(id as int, width as int) ==> neighbors@.len() == 8,
{
    let x = id % width;
    let y = id / width;
    let mut neighbors: Vec<i32> = Vec::new();
    proof {
        lemma_coordinates_of_cell(id as int, width as int);
    }
    let mut dy: i32 = -1;
    while dy <= 1
        invariant
            valid_cell(id as int, width as int),
            x == column(id as int, width as int),
            y == row(id as int, width as int),
            0 <= x < width,
            0 <= y < width,
            -1 <= dy <= 2,
            forall|i: int, j: int| 0 <= i < j < neighbors@.len() ==> neighbors@[i] < neighbors@[j],
            forall|n: i32|
                neighbors@.contains(n) <==> adjacent(id as int, n as int, width as int)
                    && offset_before(id as int, n as int, width as int, dy as int, -1),
            neighbors@.len() == neighbors_before(x as int, y as int, width as int, dy as int, -1),
        decreases 2 - dy,
    {
        let mut dx: i32 = -1;
        while dx <= 1
            invariant
                valid_cell(id as int, width as int),
                x == column(id as int, width as int),
                y == row(id as int, width as int),
                0 <= x < width,
                0 <= y < width,
                -1 <= dy <= 1,
                -1 <= dx <= 2,
                forall|i: int, j: int|
                    0 <= i < j < neighbors@.len() ==> neighbors@[i] < neighbors@[j],
                forall|n: i32|
                    neighbors@.contains(n) <==> adjacent(id as int, n as int, width as int)
                        && offset_before(id as int, n as int, width as int, dy as int, dx as int),
                neighbors@.len() == neighbors_before(
                    x as int,
                    y as int,
                    width as int,
                    dy as int,
                    dx as int,
                ),
            decreases 2 - dx,
        {
            let ghost before = neighbors@;
            let nx = x + dx;
            let ny = y + dy;
            if !(dx == 0 && dy == 0) && nx >= 0 && nx < width && ny >= 0 && ny < width {
                proof {
                    lemma_cell_of_coordinates(nx as int, ny as int, width as int);
                }
                let nid = ny * width + nx;
                neighbors.push(nid);
                proof {
                    assert forall|i: int, j: int| 0 <= i < j < neighbors@.len() implies neighbors@[i]
                        < neighbors@[j] by {
                        if j == before.len() {
                            assert(before.contains(before[i]));
                            lemma_row_major_order(before[i] as int, nid as int, width as int);
                        }
                    }
                    assert forall|n: i32|
                        neighbors@.contains(n) <==> adjacent(id as int, n as int, width as int)
                            && offset_before(
                            id as int,
                            n as int,
                            width as int,
                            dy as int,
                            dx + 1,
                        ) by {
                        if n == nid {
                            assert(neighbors@[before.len() as int] == nid);
                        } else if before.contains(n) {
                            let i = choose|i: int| 0 <= i < before.len() && before[i] == n;
                            assert(neighbors@[i] == n);
                        } else if neighbors@.contains(n) {
                            let i = choose|i: int| 0 <= i < neighbors@.len() && neighbors@[i] == n;
                            assert(before[i] == n);
                        } else if adjacent(id as int, n as int, width as int) {
                            lemma_coordinates_of_cell(n as int, width as int);
                        }
                    }
                }
            } else {
                proof {
                    assert forall|n: i32| adjacent(id as int, n as int, width as int) implies !(row(
                        n as int,
                        width as int,
                    ) == ny && column(n as int, width as int) == nx) by {
                        lemma_coordinates_of_cell(n as int, width as int);
                        lemma_coordinates_of_cell(id as int, width as int);
                    }
                }
            }
            dx += 1;
        }
        dy += 1;
    }
    proof {
        lemma_neighbor_set_shape(neighbors@, id as int, width as int);
    }
    neighbors
}

/// Where a node sits in the grid: its id, its column `x`, its row `y` and the
/// width of the grid. It is made once and never changes.
pub struct NodeIdentity {
    id: i32,
    x: i32,
    y: i32,
    grid_width: i32,
}

impl NodeIdentity {
    /// The id is the row times the width plus the column, the coordinates lie
    /// in the grid, and every id of the grid fits in an `i32`.
    #[verifier::type_invariant]
    pub closed spec fn wf(self) -> bool {
        &&& 1 <= self.grid_width
        &&& self.grid_width * self.grid_width <= i32::MAX
        &&& 0 <= self.x < self.grid_width
        &&& 0 <= self.y < self.grid_width
        &&& self.id == self.y * self.grid_width + self.x
    }

    /// The node's id.
    pub closed spec fn spec_id(&self) -> i32 {
        self.id
    }

    /// The node's column.
    pub closed spec fn spec_x(&self) -> i32 {
        self.x
    }

    /// The node's row.
    pub closed spec fn spec_y(&self) -> i32 {
        self.y
    }

    /// The width of the grid.
    pub closed spec fn spec_grid_width(&self) -> i32 {
        self.grid_width
    }

    /// What holds of every identity: it names a cell of its grid, by id and by
    /// coordinates alike.
    pub proof fn lemma_wf(self)
        requires
            self.wf(),
        ensures
            valid_cell(self.spec_id() as int, self.spec_grid_width() as int),
            self.spec_x() == column(self.spec_id() as int, self.spec_grid_width() as int),
            self.spec_y() == row(self.spec_id() as int, self.spec_grid_width() as int),
            self.spec_id() == self.spec_y() * self.spec_grid_width() + self.spec_x(),
    {
        lemma_cell_of_coordinates(self.x as int, self.y as int, self.grid_width as int);
    }

    /// The identity of the node `id` in a grid `grid_width` cells wide, if
    /// there is such a cell and the ids of the grid fit in an `i32`.
    pub fn new(id: i32, grid_width: i32) -> (identity: Option<NodeIdentity>)
        ensures
            identity is Some <==> valid_cell(id as int, grid_width as int),
            identity matches Some(n) ==> {
                &&& n.wf()
                &&& n.spec_id() == id
                &&& n.spec_grid_width() == grid_width
                &&& n.spec_x() == column(id as int, grid_width as int)
                &&& n.spec_y() == row(id as int, grid_width as int)
            },
    {
        if grid_width < 1 || id < 0 {
            return None;
        }
        assert(grid_width * grid_width <= 0x4000_0000_0000_0000) by (nonlinear_arith)
            requires
                1 <= grid_width <= 0x8000_0000,
        ;
        let size: i64 = (grid_width as i64) * (grid_width as i64);
        if size > i32::MAX as i64 || id as i64 >= size {
            return None;
        }
        proof {
            lemma_coordinates_of_cell(id as int, grid_width as int);
        }
        Some(NodeIdentity { id, x: id % grid_width, y: id / grid_width, grid_width })
    }

    /// The node's id.
    #[verifier::when_used_as_spec(spec_id)]
    pub fn id(&self) -> (id: i32)
        ensures
            id == self.spec_id(),
    {
        self.id
    }

    /// The node's column.
    #[verifier::when_used_as_spec(spec_x)]
    pub fn x(&self) -> (x: i32)
        ensures
            x == self.spec_x(),
    {
        self.x
    }

    /// The node's row.
    #[verifier::when_used_as_spec(spec_y)]
    pub fn y(&self) -> (y: i32)
        ensures
            y == self.spec_y(),
    {
        self.y
    }

    /// The width of the grid.
    #[verifier::when_used_as_spec(spec_grid_width)]
    pub fn grid_width(&self) -> (grid_width: i32)
        ensures
            grid_width == self.spec_grid_width(),
    {
        self.grid_width
    }

    /// The node's neighbours: the ids of the cells of its Moore neighbourhood
    /// that exist, in ascending order.
    pub fn neighbors(&self) -> (neighbors: Vec<i32>)
        ensures
            is_neighbor_set(neighbors@, self.spec_id() as int, self.spec_grid_width() as int),
            neighbors@.len() == neighbor_count(
                self.spec_id() as int,
                self.spec_grid_width() as int,
            ),
    {
        proof {
            use_type_invariant(self);
            self.lemma_wf();
        }
        get_neighbors(self.id, self.grid_width)
    }
}

} // verus!
