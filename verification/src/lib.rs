//! Safai: find the caches, build artifacts and junk that developer tools pile
//! up, decide what is safe to remove, and schedule unattended maintenance.
//!
//! This crate is the verified core. The file system, the OS and the desktop
//! shell stay outside it; what they observe is handed in as plain values and
//! what they should do is handed back the same way.

pub mod text;

pub mod model;
pub mod rules;
pub mod detect;
pub mod fast_readdir;
pub mod scan;
pub mod walk;
pub mod assembly;

pub mod dto;
pub mod session;
pub mod guard;
pub mod delete_engine;
pub mod cli;

pub mod schedule;

pub mod error;
pub mod state;
pub mod commands;
pub mod tray;
pub mod winsys;
