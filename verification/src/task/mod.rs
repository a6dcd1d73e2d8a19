//! Installing and removing the program.
pub mod bundle;
pub mod cargo;
pub mod disable;
pub mod enable;
pub mod files;
pub mod invocation;
pub mod operation;
pub mod paths;
pub mod progress;
