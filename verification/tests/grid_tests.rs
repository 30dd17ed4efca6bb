use std::sync::Arc;

use krabmaga::engine::fields::atomic_grid::AtomicGrid2D;
use krabmaga::engine::fields::dense_number_grid_2d_t::DenseSingleValueGrid2D;
use krabmaga::engine::fields::dense_object_grid_2d_t::DenseBagGrid2D;
use krabmaga::engine::fields::grid_option::GridOption;
use krabmaga::engine::fields::parallel_dense_object_grid_2d_t::ParDenseBagGrid2D;
use krabmaga::engine::location::Int2D;

struct Marker;

fn at(x: i32, y: i32) -> Int2D {
    Int2D { x, y }
}

#[test]
fn single_value_grid_starts_empty() {
    let grid: DenseSingleValueGrid2D<u32> = DenseSingleValueGrid2D::new(4, 3);
    assert_eq!(grid.values.len(), 12);
    assert_eq!(grid.width, 4);
    assert_eq!(grid.height, 3);
    for y in 0..3 {
        for x in 0..4 {
            assert_eq!(grid.get_value(&at(x, y)), None);
        }
    }
}

#[test]
fn single_value_grid_stores_dimension_magnitudes() {
    let grid: DenseSingleValueGrid2D<u8> = DenseSingleValueGrid2D::new(-2, -3);
    assert_eq!(grid.values.len(), 6);
    assert_eq!(grid.width, 2);
    assert_eq!(grid.height, 3);
}

#[test]
fn single_value_grid_read_after_write() {
    let mut grid: DenseSingleValueGrid2D<i64> = DenseSingleValueGrid2D::new(3, 3);
    grid.set_value_location(42, &at(1, 2));
    assert_eq!(grid.get_value(&at(1, 2)), Some(42));
    assert_eq!(grid.values[7], Some(42));
    assert_eq!(grid.get_value(&at(2, 1)), None);
    grid.set_value_location(-5, &at(1, 2));
    assert_eq!(grid.get_value(&at(1, 2)), Some(-5));
}

#[test]
fn single_value_grid_apply_to_all_values() {
    let mut grid: DenseSingleValueGrid2D<u32> = DenseSingleValueGrid2D::new(2, 2);
    grid.set_value_location(3, &at(0, 0));
    grid.set_value_location(10, &at(1, 1));
    grid.apply_to_all_values(|v| v * 2 + 1, GridOption::READWRITE);
    assert_eq!(grid.values, vec![Some(7), None, None, Some(21)]);
}

#[test]
fn bag_grid_starts_empty() {
    let grid: DenseBagGrid2D<u32, Marker> = DenseBagGrid2D::new(3, 2);
    assert_eq!(grid.bags.len(), 6);
    assert!(grid.bags.iter().all(|b| b.is_empty()));
    assert_eq!(grid.get_objects(&at(2, 1)), None);
}

#[test]
fn bag_grid_set_object_location_keeps_one_copy() {
    let mut grid: DenseBagGrid2D<u32, Marker> = DenseBagGrid2D::new(3, 3);
    grid.set_object_location(1, &at(1, 1));
    grid.set_object_location(2, &at(1, 1));
    grid.set_object_location(1, &at(1, 1));
    assert_eq!(grid.get_objects(&at(1, 1)), Some(vec![2, 1]));
    grid.set_object_location(1, &at(1, 1));
    assert_eq!(grid.get_objects(&at(1, 1)), Some(vec![2, 1]));
}

#[test]
fn bag_grid_set_object_allows_duplicates() {
    let mut grid: DenseBagGrid2D<u32, Marker> = DenseBagGrid2D::new(2, 2);
    grid.set_object(5, &at(0, 1));
    grid.set_object(5, &at(0, 1));
    assert_eq!(grid.get_ref_bag(&at(0, 1)), &vec![5, 5]);
    assert!(grid.get_ref_bag(&at(1, 1)).is_empty());
}

#[test]
fn bag_grid_remove_object_location() {
    let mut grid: DenseBagGrid2D<u32, Marker> = DenseBagGrid2D::new(2, 2);
    grid.set_object(5, &at(1, 0));
    grid.set_object(6, &at(1, 0));
    grid.set_object(5, &at(1, 0));
    grid.remove_object_location(5, &at(1, 0));
    assert_eq!(grid.get_objects(&at(1, 0)), Some(vec![6]));
    grid.remove_object_location(6, &at(1, 0));
    assert_eq!(grid.get_objects(&at(1, 0)), None);
    grid.remove_object_location(6, &at(1, 0));
    assert_eq!(grid.get_objects(&at(1, 0)), None);
}

#[test]
fn bag_grid_remove_after_set_restores_others() {
    let mut grid: DenseBagGrid2D<u32, Marker> = DenseBagGrid2D::new(2, 2);
    grid.set_object(7, &at(0, 0));
    grid.set_object(8, &at(0, 0));
    grid.set_object_location(9, &at(0, 0));
    grid.remove_object_location(9, &at(0, 0));
    assert_eq!(grid.get_objects(&at(0, 0)), Some(vec![7, 8]));
}

#[test]
fn bag_grid_remove_object_with_index() {
    let mut grid: DenseBagGrid2D<u32, Marker> = DenseBagGrid2D::new(2, 2);
    grid.set_object(1, &at(1, 1));
    grid.set_object(2, &at(1, 1));
    grid.set_object(3, &at(1, 1));
    grid.remove_object_with_index(&at(1, 1), 1);
    assert_eq!(grid.get_objects(&at(1, 1)), Some(vec![1, 3]));
    grid.remove_object_with_index(&at(0, 0), 17);
    assert_eq!(grid.get_objects(&at(0, 0)), None);
}

#[test]
fn bag_grid_get_object_already_allocation_appends() {
    let mut grid: DenseBagGrid2D<u32, Marker> = DenseBagGrid2D::new(2, 2);
    grid.set_object(4, &at(0, 1));
    grid.set_object(9, &at(0, 1));
    let mut buffer = vec![1];
    grid.get_object_already_allocation(&at(0, 1), &mut buffer);
    assert_eq!(buffer, vec![1, 4, 9]);
    grid.get_object_already_allocation(&at(1, 1), &mut buffer);
    assert_eq!(buffer, vec![1, 4, 9]);
}

#[test]
fn bag_grid_get_ref_mut_bag_changes_in_place() {
    let mut grid: DenseBagGrid2D<u32, Marker> = DenseBagGrid2D::new(2, 2);
    grid.get_ref_mut_bag(&at(1, 0)).push(11);
    grid.get_ref_mut_bag(&at(1, 0)).push(12);
    assert_eq!(grid.get_objects(&at(1, 0)), Some(vec![11, 12]));
    assert_eq!(grid.bags[1], vec![11, 12]);
}

#[test]
fn bag_grid_clear_empties_every_bag() {
    let mut grid: DenseBagGrid2D<u32, Marker> = DenseBagGrid2D::new(2, 2);
    grid.set_object(1, &at(0, 0));
    grid.set_object(2, &at(1, 1));
    grid.clear();
    assert_eq!(grid.bags.len(), 4);
    for y in 0..2 {
        for x in 0..2 {
            assert_eq!(grid.get_objects(&at(x, y)), None);
        }
    }
}

#[test]
fn parallel_bag_grid_push_and_read() {
    let mut grid: ParDenseBagGrid2D<u64, Marker> = ParDenseBagGrid2D::new(3, 2);
    assert_eq!(grid.bags.len(), 6);
    grid.push_object_location(10, &at(2, 1));
    grid.push_object_location(10, &at(2, 1));
    grid.get_write_bag(&at(0, 0)).push(3);
    assert_eq!(grid.get_read_bag(&at(2, 1)), &vec![10, 10]);
    assert_eq!(grid.get_read_bag(&at(0, 0)), &vec![3]);
    assert!(grid.get_read_bag(&at(1, 0)).is_empty());
}

#[test]
fn parallel_bag_grid_rebuild() {
    let mut grid: ParDenseBagGrid2D<u64, Marker> = ParDenseBagGrid2D::new(2, 2);
    grid.push_object_location(1, &at(0, 0));
    grid.push_object_location(2, &at(1, 1));
    grid.clear();
    grid.push_object_location(3, &at(1, 1));
    assert_eq!(grid.get_read_bag(&at(1, 1)), &vec![3]);
    assert!(grid.get_read_bag(&at(0, 0)).is_empty());
}

#[test]
fn atomic_grid_counters_start_at_default() {
    let grid: AtomicGrid2D<Marker> = AtomicGrid2D::new(7, 3, 2);
    assert_eq!(grid.values.len(), 6);
    assert_eq!(grid.width, 3);
    assert_eq!(grid.height, 2);
    for counter in &grid.values {
        assert_eq!(*counter.lock().unwrap(), 7);
    }
}

#[test]
fn atomic_grid_negative_product_has_no_cells() {
    let grid: AtomicGrid2D<Marker> = AtomicGrid2D::new(1, -3, 2);
    assert_eq!(grid.values.len(), 0);
}

#[test]
fn atomic_grid_counter_is_shared() {
    let grid: AtomicGrid2D<Marker> = AtomicGrid2D::new(0, 2, 2);
    let counter = grid.get_atomic_counter(&at(1, 1));
    assert!(Arc::ptr_eq(&counter, &grid.values[3]));
    *counter.lock().unwrap() += 5;
    assert_eq!(*grid.values[3].lock().unwrap(), 5);
    assert_eq!(*grid.get_atomic_counter(&at(1, 1)).lock().unwrap(), 5);
    assert_eq!(*grid.get_atomic_counter(&at(0, 1)).lock().unwrap(), 0);
}

#[test]
fn bag_grid_set_object_then_remove_restores_bag() {
    let mut grid: DenseBagGrid2D<u32, Marker> = DenseBagGrid2D::new(2, 2);
    grid.set_object(3, &at(1, 1));
    grid.set_object(4, &at(1, 1));
    grid.set_object(8, &at(1, 1));
    grid.remove_object_location(8, &at(1, 1));
    assert_eq!(grid.get_objects(&at(1, 1)), Some(vec![3, 4]));
}

#[test]
fn single_value_grid_apply_ignores_option() {
    let mut a: DenseSingleValueGrid2D<u32> = DenseSingleValueGrid2D::new(2, 2);
    let mut b: DenseSingleValueGrid2D<u32> = DenseSingleValueGrid2D::new(2, 2);
    a.set_value_location(4, &at(1, 0));
    b.set_value_location(4, &at(1, 0));
    a.apply_to_all_values(|v| v + 10, GridOption::READ);
    b.apply_to_all_values(|v| v + 10, GridOption::WRITE);
    assert_eq!(a.values, b.values);
    assert_eq!(a.values, vec![None, Some(14), None, None]);
}

#[test]
fn atomic_grid_zero_default_counters() {
    let grid: AtomicGrid2D<Marker> = AtomicGrid2D::new(0, 4, 4);
    assert_eq!(grid.values.len(), 16);
    assert!(grid.values.iter().all(|c| *c.lock().unwrap() == 0));
}
