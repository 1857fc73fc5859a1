//! Byte-sequence merge sort: a sequential recursive form and a
//! thread-budget-bounded form, sharing one verified merge step. The
//! contracts pin every result to one mathematical sort, so the budget —
//! and any concurrent schedule it permits — cannot change the output.

pub mod gen;
pub mod merge;
pub mod model;
pub mod sort;

pub use gen::arrange_deterministic_random_sequence;
pub use merge::merge;
pub use sort::{mergesort, mergesort_mt, should_fork, split_budget};
