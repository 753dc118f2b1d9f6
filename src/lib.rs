//! Small utilities: a bounded history of recent values, an either type, and a
//! flat two-dimensional array.
//!
//! ## Memcache
//! [`memcache::MemoryCacher`] is a circular history backed by a `Vec`, holding the
//! most recent `N` values pushed into it, optionally throttled by a
//! [`time_based_structs::do_on_interval::DoOnInterval`] so that values are only
//! recorded once an interval has passed.
//!
//! ## Either
//! [`either::Either`] represents a value that is one of two alternatives.
//!
//! ## 2D Array
//! [`twod_array::TwoArray`] and [`multid_array::TwoArray`] hold a grid of values
//! in row-major order.
pub mod average;
pub mod either;
pub mod memcache;
pub mod multid_array;
pub mod time_based_structs;
pub mod twod_array;
