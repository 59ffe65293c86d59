pub mod data;
pub mod math;
pub mod bound_index;
pub mod bound_iterator;
