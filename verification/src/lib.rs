//! A build-and-deploy orchestrator for a handheld game console toolchain:
//! it plans how compiled application code becomes a console-loadable
//! bundle, and how that bundle ships to the desktop simulator or onto
//! physical hardware.  Everything here is decision logic — the manifest
//! grammar, the staged pipeline, the command lines, the device state
//! machine — stated in contracts and verified; the process spawning,
//! filesystem work and polling that carry the decisions out live with the
//! caller.

pub mod assembler;
pub mod config;
pub mod device;
pub mod error;
pub mod manifest;
pub mod package;
pub mod pdxinfo;
pub mod pipeline;
pub mod platform;
pub mod render;
pub mod strutil;
pub mod title;
pub mod toolchain;
