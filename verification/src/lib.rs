//! Persistence core for users and content items.
//!
//! - `range`: bound pairs, and the notation `N`, `N..`, `..=N` that writes them;
//! - `query`, `mutation`: optional predicates and optional replacements;
//! - `repositories`: the contract of a repository, its in-memory backend,
//!   and what the document-store backend decides;
//! - `handlers`: the use cases on two repositories;
//! - `responses`, `text`, `cmds`: what is shown, and what is asked.

pub mod cmds;
pub mod entities;
pub mod handlers;
pub mod mutation;
pub mod pattern;
pub mod query;
pub mod range;
pub mod repositories;
pub mod responses;
mod sets;
pub mod text;
