//! Decision logic of a helper that installs, updates and searches packages of
//! the Arch User Repository.
//!
//! The library never touches the network, the file system or another process.
//! It decides: which requests to send, how to read what the tools print, and
//! in which order the steps of a run follow each other. The program around it
//! performs each step and reports what happened.

pub mod api;
pub mod cli;
pub mod error;
pub mod git;
pub mod makepkg;
pub mod pacman;
pub mod pipeline;
pub mod search;
pub mod text;
