//! Core of a tool that brings a git work tree up to date with its main branch.
pub mod text;
pub mod git;
pub mod ui;
pub mod cli;
pub mod flow;
