//! Reading committed packs out of Git repositories.

pub mod acquire;
pub mod acquire_steps;
pub mod config;
pub mod confinement;
pub mod contents;
pub mod issue;
pub mod object;
pub mod places;
pub mod process;
pub mod supervision;
pub mod reader;
pub mod reply;
pub mod selector;
pub mod tree;
