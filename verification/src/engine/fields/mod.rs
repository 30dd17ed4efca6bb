pub mod atomic_grid;
pub mod dense_number_grid_2d_t;
pub mod dense_object_grid_2d_t;
pub mod grid_index;
pub mod grid_option;
pub mod neighborhood;
pub mod parallel_dense_object_grid_2d_t;
