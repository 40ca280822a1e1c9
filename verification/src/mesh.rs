//! Gradient meshes: a color function sampled on a regular grid, and the
//! triangles that fill the grid.
//!
//! A mesh places its vertices by grid coordinates, not by pixels. Columns
//! count from the left edge of the region that the mesh will fill and rows
//! from its bottom edge: a vertex in column `c` of `columns` and row `r` of
//! `rows` belongs at the fraction `c / columns` of the width and, upward,
//! `r / rows` of the height. So a triangle has area on screen exactly when it
//! has area on the grid and the region has area.

use vstd::prelude::*;
use crate::color::DisplayColor;

verus! {

/// The number of samples per axis that the picker's own sliders use.
pub const SAMPLES: u32 = 36;

/// The most samples a strip can have with every vertex index in 32 bits.
pub const MAX_STRIP_SAMPLES: u32 = 0x7fff_fffe;

/// The most samples per axis a grid can have with every vertex index in 32
/// bits.
pub const MAX_GRID_SAMPLES: u32 = 0xfffe;

/// Whether `n` steps put a sample on each sixth of the range, so that a hue
/// gradient shows its six extremes at full strength.
pub open spec fn is_sample_count(n: u32) -> bool {
    n > 0 && n % 6 == 0
}

/// With a sample count that is a multiple of six, every sixth of the range
/// is a sample: sample `k * (n / 6)` of `n` lies at exactly `k / 6` of the
/// way.
pub proof fn lemma_sixths_are_sampled(n: u32, k: int)
    requires
        is_sample_count(n),
        0 <= k <= 6,
    ensures
        0 <= k * (n / 6) <= n,
        6 * (k * (n / 6)) == k * n,
{
    let sixth = n as int / 6;
    assert(n == 6 * sixth);
    assert(6 * (k * sixth) == k * (6 * sixth)) by (nonlinear_arith);
    assert(0 <= k * sixth <= 6 * sixth) by (nonlinear_arith)
        requires
            0 <= k <= 6,
            0 <= sixth,
    ;
}

/// One vertex of a gradient mesh.
#[derive(Clone, Copy, Debug, PartialEq, Eq, Structural)]
pub struct GridVertex {
    pub column: u32,
    pub row: u32,
    pub color: DisplayColor,
}

/// A triangulated gradient: the number of steps along each axis, the
/// vertices, and the triangles as triples of vertex indices laid end to end
/// in `indices`.
#[derive(Debug)]
pub struct GradientMesh {
    pub columns: u32,
    pub rows: u32,
    pub vertices: Vec<GridVertex>,
    pub indices: Vec<u32>,
}

/// Whether the two vertices of sample `i` of a strip stand as they should:
/// the top one before the bottom one, both in column `i` and of one color.
pub open spec fn pair_stands(vertices: Seq<GridVertex>, i: int) -> bool {
    let top = vertices[2 * i];
    let bottom = vertices[2 * i + 1];
    &&& top.column == i && top.row == 1
    &&& bottom.column == i && bottom.row == 0
    &&& bottom.color == top.color
}

/// Whether sample `i` of a strip has a color that `color_at` gave for it.
pub open spec fn pair_is_colored<F: Fn(u32) -> DisplayColor>(
    vertices: Seq<GridVertex>,
    i: int,
    color_at: F,
) -> bool {
    call_ensures(color_at, (i as u32,), vertices[2 * i].color)
}

/// Whether triangle `t` of a strip joins the three vertices from `t` on.
pub open spec fn step_is_indexed(indices: Seq<u32>, t: int) -> bool {
    indices[3 * t] == t && indices[3 * t + 1] == t + 1 && indices[3 * t + 2] == t + 2
}

/// Whether the vertex of column `c` and row `r` stands in its place in a grid
/// of `n` steps per axis, whose vertices are laid out column by column.
pub open spec fn vertex_stands(vertices: Seq<GridVertex>, n: int, c: int, r: int) -> bool {
    let v = vertices[c * (n + 1) + r];
    v.column == c && v.row == r
}

/// Whether the vertex of column `c` and row `r` of a grid has a color that
/// `color_at` gave for it.
pub open spec fn vertex_is_colored<F: Fn(u32, u32) -> DisplayColor>(
    vertices: Seq<GridVertex>,
    n: int,
    c: int,
    r: int,
    color_at: F,
) -> bool {
    call_ensures(color_at, (c as u32, r as u32), vertices[c * (n + 1) + r].color)
}

/// Whether the cell that reaches from column `c` and row `r` to the next
/// column and row has its two triangles: they share the diagonal from
/// `(c, r + 1)` to `(c + 1, r)` and turn the same way. Cells are taken row by
/// row.
pub open spec fn cell_is_indexed(indices: Seq<u32>, n: int, c: int, r: int) -> bool {
    let corner = c * (n + 1) + r;
    let at = 6 * (r * n + c);
    &&& indices[at] == corner
    &&& indices[at + 1] == corner + 1
    &&& indices[at + 2] == corner + n + 1
    &&& indices[at + 3] == corner + 1
    &&& indices[at + 4] == corner + n + 2
    &&& indices[at + 5] == corner + n + 1
}

/// The column and row of the cell that triangle `t` of a grid lies in.
pub open spec fn cell_of(n: int, t: int) -> (int, int) {
    ((t / 2) % n, (t / 2) / n)
}

impl GradientMesh {
    /// The number of triangles.
    pub open spec fn triangle_count(self) -> nat {
        self.indices@.len() / 3
    }

    /// The three vertex indices of triangle `t`.
    pub open spec fn triangle(self, t: int) -> (int, int, int) {
        (
            self.indices@[3 * t] as int,
            self.indices@[3 * t + 1] as int,
            self.indices@[3 * t + 2] as int,
        )
    }

    /// Whether the indices come in triples and each names a vertex.
    pub open spec fn is_closed(self) -> bool {
        &&& self.indices@.len() % 3 == 0
        &&& forall|j: int|
            0 <= j < self.indices@.len() ==> (#[trigger] self.indices@[j]) < self.vertices@.len()
    }

    /// Twice the signed area of triangle `t`, measured on the grid. Zero only
    /// for a triangle whose corners lie on one line; the sign tells its
    /// winding.
    pub open spec fn doubled_area(self, t: int) -> int {
        let (i, j, k) = self.triangle(t);
        let a = self.vertices@[i];
        let b = self.vertices@[j];
        let c = self.vertices@[k];
        (b.column - a.column) * (c.row - a.row) - (c.column - a.column) * (b.row - a.row)
    }

    /// Whether the mesh is a strip of `n` steps: one row high, samples `0`
    /// to `n` as pairs of one color, and triangle `t` joining the three
    /// vertices from `t` on.
    pub open spec fn is_strip(self, n: int) -> bool {
        &&& self.columns == n
        &&& self.rows == 1
        &&& self.vertices@.len() == 2 * (n + 1)
        &&& self.indices@.len() == 6 * n
        &&& forall|i: int| 0 <= i <= n ==> #[trigger] pair_stands(self.vertices@, i)
        &&& forall|t: int| 0 <= t < 2 * n ==> #[trigger] step_is_indexed(self.indices@, t)
    }

    /// Whether the mesh is a grid of `n` steps per axis: a vertex for every
    /// column and row from `0` to `n`, and two triangles for every cell.
    pub open spec fn is_grid(self, n: int) -> bool {
        &&& 0 <= n
        &&& self.columns == n
        &&& self.rows == n
        &&& self.vertices@.len() == (n + 1) * (n + 1)
        &&& self.indices@.len() == 6 * (n * n)
        &&& forall|c: int, r: int|
            0 <= c <= n && 0 <= r <= n ==> #[trigger] vertex_stands(self.vertices@, n, c, r)
        &&& forall|c: int, r: int|
            0 <= c < n && 0 <= r < n ==> #[trigger] cell_is_indexed(self.indices@, n, c, r)
    }
}

/// The cross product of two grid steps, for the pairs of steps that the
/// meshes use.
proof fn lemma_unit_cross(bx: int, by: int, cx: int, cy: int)
    ensures
        (bx, by, cx, cy) == (0int, -1int, 1int, 0int) ==> bx * cy - cx * by == 1,
        (bx, by, cx, cy) == (1int, 1int, 1int, 0int) ==> bx * cy - cx * by == -1,
        (bx, by, cx, cy) == (0int, 1int, 1int, 0int) ==> bx * cy - cx * by == -1,
        (bx, by, cx, cy) == (1int, 0int, 1int, -1int) ==> bx * cy - cx * by == -1,
{
    assert(0 * cy == 0 && 1 * cy == cy && cx * 0 == 0 && cx * 1 == cx && cx * (-1) == -cx)
        by (nonlinear_arith);
}

/// Every triangle of a strip has area: on the grid, twice the area is one,
/// with the sign alternating from triangle to triangle.
pub proof fn lemma_strip_triangles_have_area(mesh: GradientMesh, n: int, t: int)
    requires
        mesh.is_strip(n),
        0 <= t < 2 * n,
    ensures
        mesh.doubled_area(t) == (if t % 2 == 0 { 1int } else { -1int }),
        mesh.doubled_area(t) != 0,
{
    let i = t / 2;
    assert(step_is_indexed(mesh.indices@, t));
    assert(pair_stands(mesh.vertices@, i));
    assert(pair_stands(mesh.vertices@, i + 1));
    let a = mesh.vertices@[t];
    let b = mesh.vertices@[t + 1];
    let c = mesh.vertices@[t + 2];
    lemma_unit_cross(b.column - a.column, b.row - a.row, c.column - a.column, c.row - a.row);
}

/// A strip uses every index for a vertex it has.
pub proof fn lemma_strip_is_closed(mesh: GradientMesh, n: int)
    requires
        mesh.is_strip(n),
    ensures
        mesh.is_closed(),
        mesh.triangle_count() == 2 * n,
{
    assert forall|j: int| 0 <= j < mesh.indices@.len() implies (#[trigger] mesh.indices@[j])
        < mesh.vertices@.len() by {
        assert(step_is_indexed(mesh.indices@, j / 3));
    }
}

/// Samples `color_at` at the `n + 1` points `0, 1, .. n` and builds the strip
/// that shows the gradient: two vertices per sample and two triangles per
/// step.
pub fn tessellate_1d<F: Fn(u32) -> DisplayColor>(n: u32, color_at: F) -> (mesh: GradientMesh)
    requires
        is_sample_count(n),
        n <= MAX_STRIP_SAMPLES,
        forall|i: u32| i <= n ==> call_requires(color_at, (i,)),
    ensures
        mesh.is_strip(n as int),
        mesh.is_closed(),
        mesh.triangle_count() == 2 * n,
        forall|i: int| 0 <= i <= n ==> #[trigger] pair_is_colored(mesh.vertices@, i, color_at),
        forall|t: int| 0 <= t < 2 * n ==> #[trigger] mesh.doubled_area(t) != 0,
{
    let mut mesh = GradientMesh { columns: n, rows: 1, vertices: Vec::new(), indices: Vec::new() };
    let mut i: u32 = 0;
    while i <= n
        invariant
            n <= MAX_STRIP_SAMPLES,
            i <= n + 1,
            forall|i: u32| i <= n ==> call_requires(color_at, (i,)),
            mesh.columns == n,
            mesh.rows == 1,
            mesh.vertices@.len() == 2 * i,
            mesh.indices@.len() == 6 * (if i <= n { i } else { n }),
            forall|s: int| 0 <= s < i ==> #[trigger] pair_stands(mesh.vertices@, s),
            forall|s: int| 0 <= s < i ==> #[trigger] pair_is_colored(mesh.vertices@, s, color_at),
            forall|t: int|
                0 <= t < 2 * i && t < 2 * n ==> #[trigger] step_is_indexed(mesh.indices@, t),
        decreases n + 1 - i,
    {
        let ghost before = mesh;
        let color = color_at(i);
        mesh.vertices.push(GridVertex { column: i, row: 1, color });
        mesh.vertices.push(GridVertex { column: i, row: 0, color });
        if i < n {
            mesh.indices.push(2 * i);
            mesh.indices.push(2 * i + 1);
            mesh.indices.push(2 * i + 2);
            mesh.indices.push(2 * i + 1);
            mesh.indices.push(2 * i + 2);
            mesh.indices.push(2 * i + 3);
        }
        proof {
            assert forall|s: int| 0 <= s < i + 1 implies #[trigger] pair_stands(
                mesh.vertices@,
                s,
            ) by {
                if s < i {
                    assert(pair_stands(before.vertices@, s));
                }
            }
            assert forall|s: int| 0 <= s < i + 1 implies #[trigger] pair_is_colored(
                mesh.vertices@,
                s,
                color_at,
            ) by {
                if s < i {
                    assert(pair_is_colored(before.vertices@, s, color_at));
                }
            }
            assert forall|t: int| 0 <= t < 2 * (i + 1) && t < 2 * n implies #[trigger] step_is_indexed(
                mesh.indices@,
                t,
            ) by {
                if t < 2 * i {
                    assert(step_is_indexed(before.indices@, t));
                }
            }
        }
        i += 1;
    }
    proof {
        lemma_strip_is_closed(mesh, n as int);
        assert forall|t: int| 0 <= t < 2 * n implies #[trigger] mesh.doubled_area(t) != 0 by {
            lemma_strip_triangles_have_area(mesh, n as int, t);
        }
    }
    mesh
}

/// Index arithmetic of a grid of `n` steps per axis.
proof fn lemma_grid_index(n: int, c: int, r: int)
    requires
        0 <= c <= n,
        0 <= r <= n,
    ensures
        0 <= c * (n + 1) + r < (n + 1) * (n + 1),
        (c + 1) * (n + 1) == c * (n + 1) + n + 1,
        n <= MAX_GRID_SAMPLES ==> (n + 1) * (n + 1) <= u32::MAX,
{
    assert((c + 1) * (n + 1) == c * (n + 1) + n + 1) by (nonlinear_arith);
    assert(c * (n + 1) + r < (n + 1) * (n + 1)) by (nonlinear_arith)
        requires
            0 <= c <= n,
            0 <= r <= n,
    ;
    assert(0 <= c * (n + 1)) by (nonlinear_arith)
        requires
            0 <= c,
            0 <= n,
    ;
    assert(n <= 0xfffe ==> (n + 1) * (n + 1) <= 0xffff_ffff) by (nonlinear_arith)
        requires
            0 <= n,
    ;
}

/// A vertex that comes before another, column by column, has the lesser
/// index.
proof fn lemma_earlier_vertex(n: int, column: int, row: int, c: int, r: int)
    requires
        0 <= c <= n,
        0 <= r <= n,
        0 <= column <= n,
        0 <= row <= n,
        c < column || (c == column && r <= row),
    ensures
        0 <= c * (n + 1) + r <= column * (n + 1) + row,
        c * (n + 1) + r == column * (n + 1) + row ==> c == column && r == row,
{
    lemma_grid_index(n, c, r);
    if c < column {
        assert(c * (n + 1) + r < column * (n + 1)) by (nonlinear_arith)
            requires
                0 <= c < column,
                0 <= r <= n,
        ;
    }
}

/// Counting the cells of a grid row by row: cell `(c, r)` is cell number
/// `r * n + c`, and the cells before a cell are those of the rows before it
/// and those before it in its own row.
proof fn lemma_cell_number(n: int, c: int, r: int)
    requires
        0 <= c < n,
        0 <= r < n,
    ensures
        0 <= r * n + c < n * n,
        (r + 1) * n == r * n + n,
        forall|c2: int, r2: int|
            0 <= c2 < n && 0 <= r2 < r ==> 0 <= #[trigger] (r2 * n + c2) < r * n,
{
    assert((r + 1) * n == r * n + n) by (nonlinear_arith);
    assert(r * n + c < n * n) by (nonlinear_arith)
        requires
            0 <= c < n,
            0 <= r < n,
    ;
    assert(0 <= r * n) by (nonlinear_arith)
        requires
            0 <= r,
            0 <= n,
    ;
    assert forall|c2: int, r2: int| 0 <= c2 < n && 0 <= r2 < r implies 0 <= #[trigger] (r2 * n
        + c2) < r * n by {
        assert(0 <= r2 * n && r2 * n + c2 < r * n) by (nonlinear_arith)
            requires
                0 <= c2 < n,
                0 <= r2 < r,
        ;
    }
}

/// Every triangle of a grid lies in one cell: triangle `t` is the first or
/// the second triangle of the cell `cell_of(n, t)`.
proof fn lemma_cell_of_triangle(n: int, t: int)
    requires
        0 <= n,
        0 <= t < 2 * (n * n),
    ensures
        ({
            let (c, r) = cell_of(n, t);
            &&& 0 <= c < n
            &&& 0 <= r < n
            &&& t == 2 * (r * n + c) + t % 2
        }),
{
    let k = t / 2;
    assert(0 < n) by (nonlinear_arith)
        requires
            0 <= n,
            0 < n * n,
    ;
    let r = k / n;
    let c = k % n;
    vstd::arithmetic::div_mod::lemma_fundamental_div_mod(k, n);
    vstd::arithmetic::div_mod::lemma_mod_bound(k, n);
    assert(n * r == r * n) by (nonlinear_arith);
    assert(0 <= r < n) by (nonlinear_arith)
        requires
            0 <= k < n * n,
            k == n * r + c,
            0 <= c < n,
    ;
}

/// Every triangle of a grid has area and all of them turn the same way: on
/// the grid, twice the signed area of each is minus one.
pub proof fn lemma_grid_triangles_wound_alike(mesh: GradientMesh, n: int, t: int)
    requires
        mesh.is_grid(n),
        0 <= t < 2 * (n * n),
    ensures
        mesh.doubled_area(t) == -1,
{
    lemma_cell_of_triangle(n, t);
    let (c, r) = cell_of(n, t);
    let corner = c * (n + 1) + r;
    assert(cell_is_indexed(mesh.indices@, n, c, r));
    lemma_grid_index(n, c, r);
    assert(vertex_stands(mesh.vertices@, n, c, r));
    assert(vertex_stands(mesh.vertices@, n, c, r + 1));
    assert(vertex_stands(mesh.vertices@, n, c + 1, r));
    assert(vertex_stands(mesh.vertices@, n, c + 1, r + 1));
    let v00 = mesh.vertices@[corner];
    let v01 = mesh.vertices@[corner + 1];
    let v10 = mesh.vertices@[corner + n + 1];
    let v11 = mesh.vertices@[corner + n + 2];
    if t % 2 == 0 {
        assert(mesh.triangle(t) == (corner, corner + 1, corner + n + 1));
        lemma_unit_cross(
            v01.column - v00.column,
            v01.row - v00.row,
            v10.column - v00.column,
            v10.row - v00.row,
        );
    } else {
        assert(mesh.triangle(t) == (corner + 1, corner + n + 2, corner + n + 1));
        lemma_unit_cross(
            v11.column - v01.column,
            v11.row - v01.row,
            v10.column - v01.column,
            v10.row - v01.row,
        );
    }
}

/// A grid uses every index for a vertex it has.
pub proof fn lemma_grid_is_closed(mesh: GradientMesh, n: int)
    requires
        mesh.is_grid(n),
    ensures
        mesh.is_closed(),
        mesh.triangle_count() == 2 * (n * n),
{
    assert forall|j: int| 0 <= j < mesh.indices@.len() implies (#[trigger] mesh.indices@[j])
        < mesh.vertices@.len() by {
        let t = j / 3;
        lemma_cell_of_triangle(n, t);
        let (c, r) = cell_of(n, t);
        assert(cell_is_indexed(mesh.indices@, n, c, r));
        lemma_grid_index(n, c + 1, r + 1);
        lemma_grid_index(n, c, r);
    }
}

/// The vertices of a grid, column by column, each colored by one call of
/// `color_at`.
fn grid_vertices<F: Fn(u32, u32) -> DisplayColor>(n: u32, color_at: &F) -> (vertices: Vec<
    GridVertex,
>)
    requires
        n <= MAX_GRID_SAMPLES,
        forall|c: u32, r: u32| c <= n && r <= n ==> call_requires(*color_at, (c, r)),
    ensures
        vertices@.len() == (n + 1) * (n + 1),
        forall|c: int, r: int|
            0 <= c <= n && 0 <= r <= n ==> #[trigger] vertex_stands(vertices@, n as int, c, r),
        forall|c: int, r: int|
            0 <= c <= n && 0 <= r <= n ==> #[trigger] vertex_is_colored(
                vertices@,
                n as int,
                c,
                r,
                *color_at,
            ),
{
    let mut vertices: Vec<GridVertex> = Vec::new();
    let mut column: u32 = 0;
    while column <= n
        invariant
            n <= MAX_GRID_SAMPLES,
            column <= n + 1,
            forall|c: u32, r: u32| c <= n && r <= n ==> call_requires(*color_at, (c, r)),
            vertices@.len() == column * (n + 1),
            forall|c: int, r: int|
                0 <= c < column && 0 <= r <= n ==> #[trigger] vertex_stands(
                    vertices@,
                    n as int,
                    c,
                    r,
                ),
            forall|c: int, r: int|
                0 <= c < column && 0 <= r <= n ==> #[trigger] vertex_is_colored(
                    vertices@,
                    n as int,
                    c,
                    r,
                    *color_at,
                ),
        decreases n + 1 - column,
    {
        let mut row: u32 = 0;
        while row <= n
            invariant
                n <= MAX_GRID_SAMPLES,
                column <= n,
                row <= n + 1,
                forall|c: u32, r: u32| c <= n && r <= n ==> call_requires(*color_at, (c, r)),
                vertices@.len() == column * (n + 1) + row,
                forall|c: int, r: int|
                    0 <= c <= n && 0 <= r <= n && (c < column || (c == column && r < row))
                        ==> #[trigger] vertex_stands(vertices@, n as int, c, r),
                forall|c: int, r: int|
                    0 <= c <= n && 0 <= r <= n && (c < column || (c == column && r < row))
                        ==> #[trigger] vertex_is_colored(vertices@, n as int, c, r, *color_at),
            decreases n + 1 - row,
        {
            let ghost before = vertices@;
            let color = color_at(column, row);
            vertices.push(GridVertex { column, row, color });
            proof {
                assert forall|c: int, r: int|
                    0 <= c <= n && 0 <= r <= n && (c < column || (c == column && r < row + 1))
                    implies #[trigger] vertex_stands(vertices@, n as int, c, r) by {
                    lemma_earlier_vertex(n as int, column as int, row as int, c, r);
                    if c < column || r < row {
                        assert(vertex_stands(before, n as int, c, r));
                    }
                }
                assert forall|c: int, r: int|
                    0 <= c <= n && 0 <= r <= n && (c < column || (c == column && r < row + 1))
                    implies #[trigger] vertex_is_colored(vertices@, n as int, c, r, *color_at) by {
                    lemma_earlier_vertex(n as int, column as int, row as int, c, r);
                    if c < column || r < row {
                        assert(vertex_is_colored(before, n as int, c, r, *color_at));
                    }
                }
            }
            row += 1;
        }
        proof {
            lemma_grid_index(n as int, column as int, 0);
        }
        column += 1;
    }
    vertices
}

/// The triangles of a grid: for each cell, row by row, the two halves that
/// its diagonal parts.
fn grid_indices(n: u32) -> (indices: Vec<u32>)
    requires
        n <= MAX_GRID_SAMPLES,
    ensures
        indices@.len() == 6 * (n * n),
        forall|c: int, r: int|
            0 <= c < n && 0 <= r < n ==> #[trigger] cell_is_indexed(indices@, n as int, c, r),
{
    let mut indices: Vec<u32> = Vec::new();
    let stride: u32 = n + 1;
    let mut row: u32 = 0;
    while row < n
        invariant
            n <= MAX_GRID_SAMPLES,
            stride == n + 1,
            row <= n,
            indices@.len() == 6 * (row * n),
            forall|c: int, r: int|
                0 <= c < n && 0 <= r < row ==> #[trigger] cell_is_indexed(
                    indices@,
                    n as int,
                    c,
                    r,
                ),
        decreases n - row,
    {
        let mut column: u32 = 0;
        while column < n
            invariant
                n <= MAX_GRID_SAMPLES,
                stride == n + 1,
                row < n,
                column <= n,
                indices@.len() == 6 * (row * n + column),
                forall|c: int, r: int|
                    0 <= c < n && 0 <= r < n && (r < row || (r == row && c < column))
                        ==> #[trigger] cell_is_indexed(indices@, n as int, c, r),
            decreases n - column,
        {
            let ghost before = indices@;
            proof {
                lemma_grid_index(n as int, column as int + 1, row as int + 1);
                lemma_grid_index(n as int, column as int, row as int);
                lemma_cell_number(n as int, column as int, row as int);
            }
            let corner: u32 = column * stride + row;
            indices.push(corner);
            indices.push(corner + 1);
            indices.push(corner + stride);
            indices.push(corner + 1);
            indices.push(corner + stride + 1);
            indices.push(corner + stride);
            proof {
                assert forall|c: int, r: int|
                    0 <= c < n && 0 <= r < n && (r < row || (r == row && c < column + 1))
                    implies #[trigger] cell_is_indexed(indices@, n as int, c, r) by {
                    if r < row {
                        assert(0 <= r * n + c < row * n);
                    }
                    if r < row || c < column {
                        assert(cell_is_indexed(before, n as int, c, r));
                    }
                }
            }
            column += 1;
        }
        proof {
            lemma_cell_number(n as int, 0, row as int);
        }
        row += 1;
    }
    indices
}

/// Samples `color_at` once at each point of the grid of columns and rows
/// `0, 1, .. n` and builds the mesh that shows the two-dimensional gradient:
/// one vertex per point, shared by the triangles round it, and two triangles
/// per cell.
pub fn tessellate_2d<F: Fn(u32, u32) -> DisplayColor>(n: u32, color_at: F) -> (mesh: GradientMesh)
    requires
        is_sample_count(n),
        n <= MAX_GRID_SAMPLES,
        forall|c: u32, r: u32| c <= n && r <= n ==> call_requires(color_at, (c, r)),
    ensures
        mesh.is_grid(n as int),
        mesh.is_closed(),
        mesh.triangle_count() == 2 * (n * n),
        forall|c: int, r: int|
            0 <= c <= n && 0 <= r <= n ==> #[trigger] vertex_is_colored(
                mesh.vertices@,
                n as int,
                c,
                r,
                color_at,
            ),
        forall|t: int| 0 <= t < 2 * (n * n) ==> #[trigger] mesh.doubled_area(t) == -1,
{
    let vertices = grid_vertices(n, &color_at);
    let indices = grid_indices(n);
    let mesh = GradientMesh { columns: n, rows: n, vertices, indices };
    proof {
        lemma_grid_is_closed(mesh, n as int);
        assert forall|t: int| 0 <= t < 2 * (n * n) implies #[trigger] mesh.doubled_area(t)
            == -1 by {
            lemma_grid_triangles_wound_alike(mesh, n as int, t);
        }
    }
    mesh
}

} // verus!
