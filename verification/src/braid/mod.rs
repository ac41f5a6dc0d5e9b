//! Braid: composing one context pack out of several strands, each with its
//! own source command, share of the budget and de-duplication policy.
pub mod config;
pub mod merge;
pub mod policy;
pub mod shellquote;
pub mod types;
pub mod fixtures;
pub mod report;
pub mod trim;
