use krabmaga::engine::fields::grid_index::cell_index;
use krabmaga::engine::fields::neighborhood::{relax_distance_cells, t_transform, t_transform_defined};
use krabmaga::engine::location::Int2D;

fn cells(pairs: &[(i32, i32)]) -> Vec<Int2D> {
    pairs.iter().map(|&(x, y)| Int2D { x, y }).collect()
}

#[test]
fn cell_index_is_row_major() {
    assert_eq!(cell_index(3, &Int2D { x: 1, y: 2 }, 9), Some(7));
    assert_eq!(cell_index(3, &Int2D { x: 0, y: 0 }, 9), Some(0));
    assert_eq!(cell_index(3, &Int2D { x: 2, y: 2 }, 9), Some(8));
}

#[test]
fn cell_index_spills_into_next_row() {
    assert_eq!(cell_index(3, &Int2D { x: 3, y: 0 }, 9), Some(3));
}

#[test]
fn cell_index_rejects_cells_outside_storage() {
    assert_eq!(cell_index(3, &Int2D { x: 0, y: 3 }, 9), None);
    assert_eq!(cell_index(3, &Int2D { x: -1, y: 0 }, 9), None);
    assert_eq!(cell_index(3, &Int2D { x: 0, y: 0 }, 0), None);
}

#[test]
fn cell_index_rejects_overflow() {
    assert_eq!(cell_index(i32::MAX, &Int2D { x: 0, y: 2 }, usize::MAX), None);
    assert_eq!(cell_index(i32::MAX, &Int2D { x: 1, y: 1 }, usize::MAX), None);
    assert_eq!(cell_index(i32::MAX, &Int2D { x: 0, y: 1 }, usize::MAX), Some(i32::MAX as usize));
}

#[test]
fn cell_index_distinct_cells_distinct_slots() {
    let mut seen = std::collections::HashSet::new();
    for y in 0..4 {
        for x in 0..5 {
            let index = cell_index(5, &Int2D { x, y }, 20).unwrap();
            assert!(index < 20);
            assert!(seen.insert(index));
        }
    }
    assert_eq!(seen.len(), 20);
}

#[test]
fn t_transform_wraps_coordinates() {
    assert_eq!(t_transform(5, 3), 2);
    assert_eq!(t_transform(2, 3), 2);
    assert_eq!(t_transform(0, 3), 0);
    assert_eq!(t_transform(-1, 3), 2);
    assert_eq!(t_transform(-4, 3), 2);
}

#[test]
fn t_transform_negative_multiple_gives_size() {
    assert_eq!(t_transform(-3, 3), 3);
    assert_eq!(t_transform(-6, 3), 3);
}

#[test]
fn t_transform_residue_matches() {
    for n in -20..20 {
        let r = t_transform(n, 7);
        assert_eq!(r.rem_euclid(7), n.rem_euclid(7));
        if n >= 0 || n % 7 != 0 {
            assert!(0 <= r && r < 7);
        } else {
            assert_eq!(r, 7);
        }
    }
}

#[test]
fn t_transform_negative_size() {
    assert_eq!(t_transform(5, -3), 2);
    assert_eq!(t_transform(-5, -3), -5);
}

#[test]
fn t_transform_defined_cases() {
    assert!(!t_transform_defined(4, 0));
    assert!(!t_transform_defined(i32::MIN, -1));
    assert!(!t_transform_defined(-1, i32::MIN));
    assert!(t_transform_defined(-1, 3));
    assert!(t_transform_defined(i32::MAX, 2));
}

#[test]
fn relax_distance_cells_toroidal_clamps_window() {
    let r = relax_distance_cells(Int2D { x: 0, y: 0 }, 1, 3, 3, true);
    assert_eq!(r, Some(cells(&[(0, 0), (0, 1), (1, 0), (1, 1)])));
}

#[test]
fn relax_distance_cells_toroidal_in_grid() {
    let r = relax_distance_cells(Int2D { x: 4, y: 1 }, 2, 5, 4, true).unwrap();
    assert_eq!(r.len(), 3 * 4);
    for c in &r {
        assert!(0 <= c.x && c.x < 5 && 0 <= c.y && c.y < 4);
    }
}

#[test]
fn relax_distance_cells_wraps_when_not_toroidal() {
    let r = relax_distance_cells(Int2D { x: 0, y: 0 }, 1, 3, 3, false);
    assert_eq!(
        r,
        Some(cells(&[
            (2, 2),
            (2, 0),
            (2, 1),
            (0, 2),
            (0, 0),
            (0, 1),
            (1, 2),
            (1, 0),
            (1, 1)
        ]))
    );
}

#[test]
fn relax_distance_cells_leaves_grid_on_negative_multiple() {
    let r = relax_distance_cells(Int2D { x: 0, y: 0 }, 2, 2, 2, false).unwrap();
    assert_eq!(r.len(), 25);
    assert_eq!(r[0], Int2D { x: 2, y: 2 });
}

#[test]
fn relax_distance_cells_negative_radius_is_empty() {
    assert_eq!(relax_distance_cells(Int2D { x: 1, y: 1 }, -1, 3, 3, false), Some(vec![]));
}

#[test]
fn relax_distance_cells_zero_radius_is_own_cell() {
    assert_eq!(
        relax_distance_cells(Int2D { x: 2, y: 1 }, 0, 3, 3, false),
        Some(cells(&[(2, 1)]))
    );
}

#[test]
fn relax_distance_cells_rejects_overflow() {
    assert_eq!(relax_distance_cells(Int2D { x: 1, y: 0 }, i32::MAX, 3, 3, false), None);
    assert_eq!(relax_distance_cells(Int2D { x: i32::MAX, y: 0 }, 0, 3, 3, false), None);
}

#[test]
fn relax_distance_cells_rejects_zero_size() {
    assert_eq!(relax_distance_cells(Int2D { x: 1, y: 1 }, 1, 0, 3, false), None);
    assert_eq!(relax_distance_cells(Int2D { x: 1, y: 1 }, 1, 3, 0, false), None);
}

#[test]
fn relax_distance_cells_toroidal_empty_grid_is_empty() {
    assert_eq!(relax_distance_cells(Int2D { x: 1, y: 1 }, 1, 0, 0, true), Some(vec![]));
}
