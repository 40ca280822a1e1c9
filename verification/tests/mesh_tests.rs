use std::cell::Cell;

use oklch_picker::color::DisplayColor;
use oklch_picker::mesh::{
    tessellate_1d, tessellate_2d, GradientMesh, GridVertex, MAX_GRID_SAMPLES, MAX_STRIP_SAMPLES,
    SAMPLES,
};

fn shade(column: u32) -> DisplayColor {
    DisplayColor::new((column % 256) as u8, (column / 256) as u8, 0, 255)
}

fn shade_2d(column: u32, row: u32) -> DisplayColor {
    DisplayColor::new(column as u8, row as u8, 7, 255)
}

fn doubled_area(mesh: &GradientMesh, t: usize) -> i64 {
    let a = mesh.vertices[mesh.indices[3 * t] as usize];
    let b = mesh.vertices[mesh.indices[3 * t + 1] as usize];
    let c = mesh.vertices[mesh.indices[3 * t + 2] as usize];
    let (ax, ay) = (a.column as i64, a.row as i64);
    let (bx, by) = (b.column as i64, b.row as i64);
    let (cx, cy) = (c.column as i64, c.row as i64);
    (bx - ax) * (cy - ay) - (cx - ax) * (by - ay)
}

#[test]
fn default_sample_count_is_a_multiple_of_six() {
    assert_eq!(SAMPLES, 36);
    assert_eq!(SAMPLES % 6, 0);
    assert!(SAMPLES <= MAX_GRID_SAMPLES);
    assert!(SAMPLES <= MAX_STRIP_SAMPLES);
}

#[test]
fn strip_of_six_is_exact() {
    let mesh = tessellate_1d(6, shade);
    assert_eq!(mesh.columns, 6);
    assert_eq!(mesh.rows, 1);
    let expected_vertices: Vec<GridVertex> = (0..=6u32)
        .flat_map(|i| {
            vec![
                GridVertex { column: i, row: 1, color: shade(i) },
                GridVertex { column: i, row: 0, color: shade(i) },
            ]
        })
        .collect();
    assert_eq!(mesh.vertices, expected_vertices);
    let expected_indices: Vec<u32> = vec![
        0, 1, 2, 1, 2, 3, 2, 3, 4, 3, 4, 5, 4, 5, 6, 5, 6, 7, 6, 7, 8, 7, 8, 9, 8, 9, 10, 9, 10,
        11, 10, 11, 12, 11, 12, 13,
    ];
    assert_eq!(mesh.indices, expected_indices);
}

#[test]
fn strip_has_a_pair_per_sample_and_two_triangles_per_step() {
    for n in [6u32, 12, 18, 36, 60, 600] {
        let mesh = tessellate_1d(n, shade);
        assert_eq!(mesh.vertices.len(), 2 * (n as usize + 1));
        assert_eq!(mesh.indices.len(), 3 * 2 * n as usize);
        for i in 0..=n as usize {
            let top = mesh.vertices[2 * i];
            let bottom = mesh.vertices[2 * i + 1];
            assert_eq!(top, GridVertex { column: i as u32, row: 1, color: shade(i as u32) });
            assert_eq!(bottom, GridVertex { column: i as u32, row: 0, color: shade(i as u32) });
        }
    }
}

#[test]
fn strip_starts_and_ends_on_the_edges() {
    let mesh = tessellate_1d(SAMPLES, shade);
    let first = mesh.vertices[0];
    let last = mesh.vertices[mesh.vertices.len() - 1];
    assert_eq!(first.column, 0);
    assert_eq!(last.column, mesh.columns);
    assert_eq!(mesh.columns, SAMPLES);
}

#[test]
fn strip_triangles_have_area() {
    for n in [6u32, 36, 120] {
        let mesh = tessellate_1d(n, shade);
        for t in 0..2 * n as usize {
            let area = doubled_area(&mesh, t);
            assert_eq!(area, if t % 2 == 0 { 1 } else { -1 });
            let (i, j, k) = (mesh.indices[3 * t], mesh.indices[3 * t + 1], mesh.indices[3 * t + 2]);
            assert_eq!((i, j, k), (t as u32, t as u32 + 1, t as u32 + 2));
        }
    }
}

#[test]
fn strip_indices_name_vertices() {
    let mesh = tessellate_1d(SAMPLES, shade);
    for &index in mesh.indices.iter() {
        assert!((index as usize) < mesh.vertices.len());
    }
}

#[test]
fn strip_calls_the_color_function_once_per_sample() {
    let calls = Cell::new(0u32);
    let seen = Cell::new(0u64);
    let mesh = tessellate_1d(36, |i| {
        calls.set(calls.get() + 1);
        seen.set(seen.get() | (1u64 << i));
        shade(i)
    });
    assert_eq!(calls.get(), 37);
    assert_eq!(seen.get(), (1u64 << 37) - 1);
    assert_eq!(mesh.vertices.len(), 74);
}

#[test]
fn grid_of_six_has_exact_counts() {
    let mesh = tessellate_2d(6, shade_2d);
    assert_eq!(mesh.columns, 6);
    assert_eq!(mesh.rows, 6);
    assert_eq!(mesh.vertices.len(), 49);
    assert_eq!(mesh.indices.len(), 216);
}

#[test]
fn grid_has_a_vertex_per_point_and_two_triangles_per_cell() {
    for n in [6u32, 12, 36, 60] {
        let mesh = tessellate_2d(n, shade_2d);
        let side = n as usize + 1;
        assert_eq!(mesh.vertices.len(), side * side);
        assert_eq!(mesh.indices.len(), 3 * 2 * (n as usize) * (n as usize));
        for c in 0..side {
            for r in 0..side {
                assert_eq!(
                    mesh.vertices[c * side + r],
                    GridVertex { column: c as u32, row: r as u32, color: shade_2d(c as u32, r as u32) }
                );
            }
        }
    }
}

#[test]
fn grid_cells_are_split_along_one_diagonal() {
    let n = 6usize;
    let mesh = tessellate_2d(6, shade_2d);
    for c in 0..n {
        for r in 0..n {
            let at = 6 * (r * n + c);
            let corner = (c * (n + 1) + r) as u32;
            let stride = n as u32 + 1;
            assert_eq!(
                &mesh.indices[at..at + 6],
                &[corner, corner + 1, corner + stride, corner + 1, corner + stride + 1, corner + stride]
            );
        }
    }
    assert_eq!(&mesh.indices[0..6], &[0, 1, 7, 1, 8, 7]);
    assert_eq!(&mesh.indices[6..12], &[7, 8, 14, 8, 15, 14]);
    assert_eq!(&mesh.indices[36..42], &[1, 2, 8, 2, 9, 8]);
}

#[test]
fn grid_triangles_turn_the_same_way() {
    for n in [6u32, 36] {
        let mesh = tessellate_2d(n, shade_2d);
        let triangles = mesh.indices.len() / 3;
        assert_eq!(triangles, 2 * (n as usize) * (n as usize));
        for t in 0..triangles {
            assert_eq!(doubled_area(&mesh, t), -1);
        }
    }
}

#[test]
fn grid_indices_name_vertices() {
    let mesh = tessellate_2d(SAMPLES, shade_2d);
    for &index in mesh.indices.iter() {
        assert!((index as usize) < mesh.vertices.len());
    }
}

#[test]
fn grid_cells_cover_the_grid_once() {
    let n = 12usize;
    let mesh = tessellate_2d(12, shade_2d);
    let mut covered = vec![0u32; n * n];
    for t in 0..mesh.indices.len() / 3 {
        let corners: Vec<GridVertex> =
            (0..3).map(|k| mesh.vertices[mesh.indices[3 * t + k] as usize]).collect();
        let c = corners.iter().map(|v| v.column).min().unwrap() as usize;
        let r = corners.iter().map(|v| v.row).min().unwrap() as usize;
        assert!(corners.iter().all(|v| v.column as usize <= c + 1 && v.row as usize <= r + 1));
        covered[c * n + r] += 1;
    }
    assert!(covered.iter().all(|&count| count == 2));
}

#[test]
fn grid_calls_the_color_function_once_per_vertex() {
    let n = 36usize;
    let calls = Cell::new(0usize);
    let seen: Vec<Cell<u32>> = (0..(n + 1) * (n + 1)).map(|_| Cell::new(0)).collect();
    let mesh = tessellate_2d(36, |c, r| {
        calls.set(calls.get() + 1);
        let slot = &seen[c as usize * (n + 1) + r as usize];
        slot.set(slot.get() + 1);
        shade_2d(c, r)
    });
    assert_eq!(calls.get(), (n + 1) * (n + 1));
    assert!(seen.iter().all(|slot| slot.get() == 1));
    assert_eq!(mesh.vertices.len(), (n + 1) * (n + 1));
}

#[test]
fn sixths_of_the_range_are_samples() {
    for n in [6u32, 12, 36, 600] {
        let mesh = tessellate_1d(n, shade);
        for k in 0..=6u32 {
            let i = k * (n / 6);
            assert_eq!(6 * i, k * n);
            assert_eq!(mesh.vertices[2 * i as usize].column, i);
        }
    }
}
