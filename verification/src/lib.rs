//! Verified logic of a developer-oriented operating system.
//!
//! Every module states what its functions compute in `requires` / `ensures`
//! contracts over sequences of characters, bytes and plain integers.

pub mod build_cache;
pub mod build_plan;
pub mod bytes;
pub mod cli;
pub mod compositor;
pub mod environment;
pub mod execution;
pub mod extensions;
pub mod files;
pub mod firstboot;
pub mod graph;
pub mod greeter;
pub mod hardware;
pub mod installer;
pub mod installer_screen;
pub mod installer_service;
pub mod json;
pub mod path;
pub mod provision;
pub mod provision_service;
pub mod resource;
pub mod session;
pub mod shell;
pub mod sorted;
pub mod studio;
pub mod test_plan;
pub mod text;
pub mod update;
pub mod work;
pub mod workspace;
