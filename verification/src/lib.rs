//! Adjent's core logic: where the local state lives on disk, how the
//! working directory maps to a project/task/round, how rounds are numbered
//! and bumped, how actions are claimed and updated, and the decisions of the
//! CLI and of the manager loop.

pub mod text;
pub mod outside;
pub mod paths;
pub mod context;
pub mod numbers;
pub mod storage;
pub mod server;
pub mod cli;
pub mod mcp;
