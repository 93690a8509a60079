//! Builds a comparison basis for diffing two points of a rewritten history:
//! a reconstructed base tree and a target tree whose diff shows only the net
//! effect of the rewritten work.
pub mod engine;
pub mod store;
pub mod trailer;

pub use engine::{cmp_branches, cmp_commits, CmpError};
