//! Driving git: which commands a repository operation runs, in which order, and what it makes of
//! what they print.
//!
//! The library runs nothing itself. An [`operation::Operation`] says what outside work it waits
//! for, and goes on when it is told what came back. What it does is stated by the scripts of
//! [`script`], which each step is proved to follow; [`confinement`] and [`laws`] prove what holds
//! of all their runs, and [`conduct`] what a caller sees of them, word for word.
pub mod command;
pub mod conduct;
pub mod confinement;
pub mod error;
pub mod executor;
pub mod laws;
pub mod operation;
pub mod reference;
pub mod repository;
pub mod request;
pub mod script;
pub mod symref;
pub mod text;
pub mod trace;

pub use executor::GitExecutor;
pub use operation::Operation;
pub use reference::{GitReference, Oid};
pub use repository::{
    resolve_default_branch_for_url, resolve_default_branch_in_repo, GitRepository,
};
