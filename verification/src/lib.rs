//! autocc
//!
//! A compiler-dispatch library: the decision logic behind a generic
//! `/usr/bin/cc` entry point. Given the conventional environment overrides
//! (`CC`, `LD`) and the executables visible on the search path, it picks the
//! concrete toolchain (GNU or LLVM) that should handle the invocation and the
//! path of the binary to become.
//!
//! The library itself is pure: it works on plain string values and existence
//! flags. Reading the environment, probing the filesystem and replacing the
//! process image are left to the thin binary around it.

pub mod env_resolver;
pub mod fs_resolver;
pub mod laws;
pub mod resolve;
pub mod strutil;
pub mod toolchain;
