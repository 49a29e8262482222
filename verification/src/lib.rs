//! Declarative file installer core: manifest resolution, install planning,
//! index reconciliation and version-driven update decisions.
//!
//! Paths are handled as plain strings; all filesystem effects are decided
//! here and performed by the caller, so every rule in this crate is verified.

pub mod charon_file;
pub mod errors;
pub mod install_item;
pub mod installation_cmd;
pub mod main_index;
pub mod manifest;
pub mod paths;
pub mod text;
pub mod uninstaller;
pub mod updater;
pub mod util_index;
