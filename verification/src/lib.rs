//! Core logic of the FRS manager: a self-updating installer/uninstaller for a
//! command-line tool.
//!
//! The library holds the decision logic: resolving named release assets from a
//! manifest, the version-gated synchronization plan, the PATH environment
//! value editing, the version marker encoding, and the uninstall state
//! machine. All I/O (network, filesystem, registry, console) lives outside
//! the library and hands plain values in and out.

pub mod models;
pub mod pathenv;
pub mod paths;
pub mod resolver;
pub mod strings;
pub mod sync;
pub mod uninstall;
pub mod version;
