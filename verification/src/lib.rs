//! Stacked branches on top of a version-control system that knows only
//! independent branches.
//!
//! For each stacked branch three auxiliary references record which branch it
//! was forked from (its base), the commit at which it forked (its start), and
//! the commit that was last published for it (its remote). This crate holds
//! the protocol that writes, reads and repairs them:
//!
//! - `branch`: branches and the names of their references;
//! - `object`: object names and the failure value;
//! - `refs`, `table`: references as a snapshot shows them, and the map that
//!   keeps them;
//! - `repo`: the repository as the protocol sees it, the model that all
//!   contracts speak of;
//! - `git`: the capability interface that the operations call through;
//! - `protocol`: what each operation does to a repository, as functions of
//!   the model;
//! - `stc`: the operations themselves;
//! - `memory`: a repository in memory that implements the interface;
//! - `laws`: what holds of the operations, proved from their definitions.

pub mod object;
pub mod branch;
pub mod table;
pub mod refs;
pub mod repo;
pub mod git;
pub mod protocol;
pub mod stc;
pub mod memory;
pub mod laws;
