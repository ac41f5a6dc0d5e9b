//! Verified core of `ctx`: the braid strand logic and the pure helpers of the
//! command-line front end.
use vstd::prelude::*;

pub mod braid;
pub mod cli;
pub mod order;
pub mod paths;
pub mod text;

pub use crate::braid::merge::merge_paths;
pub use crate::braid::policy::{is_supported_source, strand_subcommand};
pub use crate::braid::shellquote::{shell_split, strip_ctx_and_sub, ShellSplitError};
pub use crate::braid::types::{MergedFile, PolicyKind, PolicyKindOrEmpty, StrandSelection};

verus! {

} // verus!
