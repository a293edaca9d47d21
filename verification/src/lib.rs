//! Small building blocks for memory and ownership: a lock-free bump
//! allocator over one fixed arena, and a handful of cell, borrow and
//! reference-count helpers.
//!
//! The code is verified with Verus. What is believed without proof is the
//! behaviour of the standard library's atomic `fetch_update` (in
//! `allocator`) and of its `Cell` (in `raw_cell`).

pub mod allocator;
pub mod cell;
pub mod cow;
pub mod history;
pub mod mutex;
pub mod placement;
pub mod raw_cell;
pub mod rc;
pub mod refcell;
