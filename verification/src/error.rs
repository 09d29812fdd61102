//! Errors of toolchain operations.

use vstd::prelude::*;

verus! {

/// What can go wrong in an operation on a toolchain.
#[derive(Debug)]
pub enum ToolchainError {
    /// The name does not read as `<channel>[-<date>]-<target>`.
    InvalidToolchainName(String),
    /// The operation needs a custom toolchain, and the name reads as a descriptor.
    InvalidCustomToolchainName(String),
    /// The toolchain's directory does not exist.
    ToolchainNotInstalled(String),
    /// A path that must be a directory is not one.
    NotADirectory(String),
    /// A path that must be a file is not one.
    NotAFile(String),
    /// An installer whose extension is not `gz`; the extension, or `(none)`.
    BadInstallerType(String),
    /// The binary, the toolchain, and whether the toolchain is the default one.
    BinaryNotFound(String, String, bool),
    /// The toolchain has no manifest, or its name is not a descriptor.
    ComponentsUnsupported(String),
    /// The toolchain, the component's description, and a suggestion if one is close.
    UnknownComponent(String, String, Option<String>),
    /// The manifest has no package of that name.
    MissingPackage(String),
}

} // verus!
