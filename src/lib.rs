//! Declarative application bootstrapping.
//!
//! A configuration lists applications with per-platform recipes (run a
//! command, create a symbolic link, install a package) and per-platform
//! package-install templates. The library resolves `same_with` aliases,
//! expands package installs into concrete commands, turns operations into
//! process invocations for the running operating system, and decides, step
//! by step, how the installation of each application proceeds.
pub mod alias;
pub mod argument_resolver;
pub mod execution_platform;
pub mod expand;
pub mod install;
pub mod schema;
