//! Core logic of `rewind`: provider resolution, configuration rules,
//! repository-state formatting and prompt construction, verified with Verus.

pub mod provider;
pub mod text;
pub mod json;
pub mod error;
pub mod git;
pub mod prompts;
pub mod config;
pub mod client;
pub mod models;
pub mod brief;
