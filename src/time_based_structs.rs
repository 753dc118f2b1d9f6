//! Structures whose behaviour depends on the passing of time.
pub mod do_on_interval;
