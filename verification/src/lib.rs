//! Toolchains of the Rust toolchain installer: reading toolchain names as
//! descriptors, deciding how installs and removals proceed, keeping account of
//! components, and planning the commands that run a toolchain's binaries.
//! The file system, the network and the process environment stay with the caller,
//! who hands in what it observed and carries out what is planned.

pub mod desc;
pub mod number;
pub mod path;
pub mod text;
pub mod component;
pub mod error;
pub mod installer;
pub mod toolchain;
pub mod install;
pub mod inventory;
pub mod command;
pub mod laws;
