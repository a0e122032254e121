//! Backups of an agent's persona files in a git repository.
//!
//! The crate holds what the program decides, and does no input or output of its own. Whatever
//! takes files, processes, threads or time is written as a step by step conversation: a step
//! holds what to do next, and its `resume` takes what came of it and says what follows.
//!
//! - [`config`], [`error`] and [`state`]: the settings, the errors, and what the system is busy
//!   with.
//! - [`git`], [`setup`] and [`executor`]: git commands, the setup of a repository, and the
//!   executor that runs commands one after the other.
//! - [`filter`], [`hash`], [`storm`] and [`watcher`]: which changes are backed up, and when.
//! - [`walk`] and [`hook`]: backups that a hook asks for.
//! - [`counter`], [`push`], [`checkpoint`] and [`bisect`]: pushes, checkpoints, and the search
//!   for a bad commit.
//! - [`lock`], [`defaults`], [`init`] and [`commands`]: the rest of what the commands of the
//!   program need.
//! - [`text`] and [`paths`]: characters and paths.

pub mod bisect;
pub mod checkpoint;
pub mod commands;
pub mod config;
pub mod counter;
pub mod defaults;
pub mod error;
pub mod executor;
pub mod filter;
pub mod git;
pub mod hash;
pub mod hook;
pub mod init;
pub mod lock;
pub mod paths;
pub mod push;
pub mod setup;
pub mod state;
pub mod storm;
pub mod text;
pub mod walk;
pub mod watcher;
