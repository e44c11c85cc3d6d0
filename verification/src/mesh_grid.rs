//! Index buffers of the generated meshes: the surface grid over which the
//! wavefunction is drawn, the walls of the double-slit barrier, and the fan
//! that closes an arrow head.
use vstd::prelude::*;

verus! {

/// The six indices of the two triangles of the grid cell whose top-left
/// vertex is `(x, y)`, on a grid `width` vertices wide: top-left,
/// bottom-left, top-right, then top-right, bottom-left, bottom-right.
pub open spec fn cell_indices(width: int, x: int, y: int) -> Seq<int> {
    let top_left = y * width + x;
    let top_right = top_left + 1;
    let bottom_left = (y + 1) * width + x;
    let bottom_right = bottom_left + 1;
    seq![top_left, bottom_left, top_right, top_right, bottom_left, bottom_right]
}

/// The indices of the first `n` cells of row `y`, left to right.
pub open spec fn row_indices(width: int, y: int, n: int) -> Seq<int>
    decreases n,
{
    if n <= 0 {
        Seq::empty()
    } else {
        row_indices(width, y, n - 1) + cell_indices(width, n - 1, y)
    }
}

/// The indices of the first `m` rows of cells, top to bottom.
pub open spec fn rows_indices(width: int, m: int) -> Seq<int>
    decreases m,
{
    if m <= 0 {
        Seq::empty()
    } else {
        rows_indices(width, m - 1) + row_indices(width, m - 1, width - 1)
    }
}

/// The triangle list of a grid of `width` by `height` vertices: every cell,
/// row by row, as two triangles.
pub open spec fn grid_indices(width: int, height: int) -> Seq<int> {
    rows_indices(width, height - 1)
}

/// The triangle list of a grid of `width` by `height` vertices, numbered row
/// by row, as `grid_indices` gives it. A single row of vertices, even an
/// empty one, has no triangles.
pub fn grid_triangle_indices(width: u32, height: u32) -> (r: Vec<u32>)
    requires
        height >= 1,
        width >= 1 || height == 1,
        width * height <= u32::MAX + 1,
    ensures
        r@.map_values(|v: u32| v as int) == grid_indices(width as int, height as int),
{
    let mut r: Vec<u32> = Vec::new();
    let mut y: u32 = 0;
    assert(r@.map_values(|v: u32| v as int) =~= rows_indices(width as int, 0));
    while y < height - 1
        invariant
            width >= 1 || height == 1,
            height >= 1,
            width * height <= u32::MAX + 1,
            y <= height - 1,
            r@.map_values(|v: u32| v as int) == rows_indices(width as int, y as int),
        decreases height - 1 - y,
    {
        let mut x: u32 = 0;
        while x < width - 1
            invariant
                width >= 1,
                height >= 1,
                width * height <= u32::MAX + 1,
                y < height - 1,
                x <= width - 1,
                r@.map_values(|v: u32| v as int) == rows_indices(width as int, y as int)
                    + row_indices(width as int, y as int, x as int),
            decreases width - 1 - x,
        {
            proof {
                lemma_cell_fits(width as int, height as int, x as int, y as int);
            }
            let top_left = y * width + x;
            let top_right = top_left + 1;
            let bottom_left = (y + 1) * width + x;
            let bottom_right = bottom_left + 1;
            let ghost before = r@;
            r.push(top_left);
            r.push(bottom_left);
            r.push(top_right);
            r.push(top_right);
            r.push(bottom_left);
            r.push(bottom_right);
            proof {
                assert(r@ =~= before + seq![
                    top_left,
                    bottom_left,
                    top_right,
                    top_right,
                    bottom_left,
                    bottom_right,
                ]);
                assert(r@.map_values(|v: u32| v as int) =~= before.map_values(|v: u32| v as int)
                    + cell_indices(width as int, x as int, y as int));
            }
            x = x + 1;
        }
        y = y + 1;
    }
    r
}

/// The corners of a cell inside the grid are vertices of the grid.
proof fn lemma_cell_fits(width: int, height: int, x: int, y: int)
    requires
        width >= 1,
        0 <= x < width - 1,
        0 <= y < height - 1,
    ensures
        0 <= y * width + x,
        (y + 1) * width + x + 1 <= width * height - 1,
        y * width + x + 1 <= width * height - 1,
{
    assert(0 <= y * width) by (nonlinear_arith)
        requires
            0 <= y,
            width >= 1,
    ;
    assert((y + 1) * width <= (height - 1) * width) by (nonlinear_arith)
        requires
            y + 1 <= height - 1,
            width >= 1,
    ;
    assert((height - 1) * width == width * height - width) by (nonlinear_arith);
    assert((y + 1) * width == y * width + width) by (nonlinear_arith);
}

/// The number of vertices of a grid of `resolution.0` by `resolution.1`.
pub fn grid_vertex_count(resolution: (u32, u32)) -> (r: usize)
    requires
        resolution.0 * resolution.1 <= u32::MAX,
    ensures
        r == resolution.0 * resolution.1,
{
    (resolution.0 * resolution.1) as usize
}

/// The number of triangles of a grid of `resolution.0` by `resolution.1`:
/// two for each cell.
pub fn grid_triangle_count(resolution: (u32, u32)) -> (r: usize)
    requires
        resolution.0 >= 1,
        resolution.1 >= 1,
        (resolution.0 - 1) * (resolution.1 - 1) * 2 <= u32::MAX,
    ensures
        r == (resolution.0 - 1) * (resolution.1 - 1) * 2,
{
    proof {
        assert(0 <= (resolution.0 - 1) * (resolution.1 - 1)) by (nonlinear_arith)
            requires
                resolution.0 >= 1,
                resolution.1 >= 1,
        ;
    }
    ((resolution.0 - 1) * (resolution.1 - 1) * 2) as usize
}

/// The first `n` cells of a row hold `6 n` indices, each naming a vertex of
/// the grid.
proof fn lemma_row_indices(width: int, height: int, y: int, n: int)
    requires
        width >= 1,
        0 <= y < height - 1,
        0 <= n <= width - 1,
    ensures
        row_indices(width, y, n).len() == 6 * n,
        forall|k: int|
            0 <= k < 6 * n ==> 0 <= #[trigger] row_indices(width, y, n)[k] < width * height,
    decreases n,
{
    if n > 0 {
        lemma_row_indices(width, height, y, n - 1);
        lemma_cell_fits(width, height, n - 1, y);
        let prev = row_indices(width, y, n - 1);
        let cell = cell_indices(width, n - 1, y);
        assert forall|k: int| 0 <= k < 6 * n implies 0 <= #[trigger] row_indices(
            width,
            y,
            n,
        )[k] < width * height by {
            if k < 6 * (n - 1) {
                assert(row_indices(width, y, n)[k] == prev[k]);
            } else {
                assert(row_indices(width, y, n)[k] == cell[k - 6 * (n - 1)]);
            }
        }
    }
}

/// The first `m` rows hold `6 (width - 1) m` indices, each naming a vertex
/// of the grid.
proof fn lemma_rows_indices(width: int, height: int, m: int)
    requires
        width >= 1,
        0 <= m <= height - 1,
    ensures
        rows_indices(width, m).len() == 6 * (width - 1) * m,
        forall|k: int|
            0 <= k < rows_indices(width, m).len() ==> 0 <= #[trigger] rows_indices(width, m)[k]
                < width * height,
    decreases m,
{
    if m > 0 {
        lemma_rows_indices(width, height, m - 1);
        lemma_row_indices(width, height, m - 1, width - 1);
        let prev = rows_indices(width, m - 1);
        let row = row_indices(width, m - 1, width - 1);
        assert(6 * (width - 1) * m == 6 * (width - 1) * (m - 1) + 6 * (width - 1))
            by (nonlinear_arith);
        assert forall|k: int| 0 <= k < rows_indices(width, m).len() implies 0
            <= #[trigger] rows_indices(width, m)[k] < width * height by {
            if k < prev.len() {
                assert(rows_indices(width, m)[k] == prev[k]);
            } else {
                assert(rows_indices(width, m)[k] == row[k - prev.len()]);
            }
        }
    } else {
        assert(6 * (width - 1) * m == 0) by (nonlinear_arith)
            requires
                m == 0,
        ;
    }
}

/// The triangle list of a grid holds three indices for each of its
/// triangles, and every index names a vertex of the grid.
pub proof fn lemma_grid_indices_in_range(width: int, height: int)
    requires
        width >= 1,
        height >= 1,
    ensures
        grid_indices(width, height).len() == 3 * ((width - 1) * (height - 1) * 2),
        forall|k: int|
            0 <= k < grid_indices(width, height).len() ==> 0 <= #[trigger] grid_indices(
                width,
                height,
            )[k] < width * height,
{
    lemma_rows_indices(width, height, height - 1);
    assert(6 * (width - 1) * (height - 1) == 3 * ((width - 1) * (height - 1) * 2))
        by (nonlinear_arith);
}

/// The twelve indices of one wall segment of the barrier, whose eight
/// vertices start at `base`: two triangles for the face toward `-x`, then two
/// for the face toward `+x`, wound the other way.
pub open spec fn wall_indices(base: int) -> Seq<int> {
    seq![
        base,
        base + 1,
        base + 2,
        base,
        base + 2,
        base + 3,
        base + 4,
        base + 6,
        base + 5,
        base + 4,
        base + 7,
        base + 6,
    ]
}

/// The indices of one wall segment of the barrier whose eight vertices
/// start at `base`.
pub fn wall_segment_indices(base: u32) -> (r: Vec<u32>)
    requires
        base + 7 <= u32::MAX,
    ensures
        r@.map_values(|v: u32| v as int) == wall_indices(base as int),
{
    let mut r: Vec<u32> = Vec::new();
    r.push(base);
    r.push(base + 1);
    r.push(base + 2);
    r.push(base);
    r.push(base + 2);
    r.push(base + 3);
    r.push(base + 4);
    r.push(base + 6);
    r.push(base + 5);
    r.push(base + 4);
    r.push(base + 7);
    r.push(base + 6);
    assert(r@.map_values(|v: u32| v as int) =~= wall_indices(base as int));
    r
}

/// The indices `0, 1, ..., segments` of a triangle fan: the tip of an arrow
/// head followed by the points of its base circle.
pub fn fan_indices(segments: u16) -> (r: Vec<u16>)
    ensures
        r@.len() == segments + 1,
        forall|k: int| 0 <= k <= segments ==> r@[k] == k,
{
    let mut r: Vec<u16> = Vec::new();
    let mut i: u16 = 0;
    loop
        invariant
            i <= segments,
            r@.len() == i,
            forall|k: int| 0 <= k < i ==> r@[k] == k,
        decreases segments - i,
    {
        r.push(i);
        if i == segments {
            return r;
        }
        i = i + 1;
    }
}

/// The indices of a line strip through `count` points, `0, 1, ...`, as a
/// list of `u16`: the count is taken modulo `2^16`, as a `u16` cast of it
/// gives.
pub fn line_strip_indices(count: usize) -> (r: Vec<u16>)
    ensures
        r@.len() == (count as u16) as nat,
        forall|k: int| 0 <= k < r@.len() ==> r@[k] == k,
{
    let n: u16 = count as u16;
    let mut r: Vec<u16> = Vec::new();
    let mut i: u16 = 0;
    while i < n
        invariant
            i <= n,
            n == count as u16,
            r@.len() == i,
            forall|k: int| 0 <= k < i ==> r@[k] == k,
        decreases n - i,
    {
        r.push(i);
        i = i + 1;
    }
    r
}

/// Builds a quantum grid of a chosen size.
pub struct QuantumGridBuilder {
    width: u32,
    height: u32,
}

impl QuantumGridBuilder {
    /// A builder for a grid of `width` by `height` cells.
    pub fn new(width: u32, height: u32) -> (r: QuantumGridBuilder)
        ensures
            r.spec_size() == (width, height),
    {
        QuantumGridBuilder { width, height }
    }

    pub closed spec fn spec_size(&self) -> (u32, u32) {
        (self.width, self.height)
    }

    /// The size `(width, height)` of the grid it builds.
    pub fn size(&self) -> (r: (u32, u32))
        ensures
            r == self.spec_size(),
    {
        (self.width, self.height)
    }
}

} // verus!
