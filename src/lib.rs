//! Rewrites simple shell commands to faster equivalents (`grep` to `rg`,
//! `find` to `fd`, ...) when the rewrite is known to be safe, and declines
//! otherwise.

pub mod cache;
pub mod config;
pub mod engine;
pub mod filters;
pub mod find;
pub mod grep;
pub mod outside;
pub mod sed;
pub mod text;
