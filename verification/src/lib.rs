//! Resizes and places newly created main windows of configured applications,
//! once per window, and leaves later manual changes alone.
//!
//! The library holds every decision of the two programs: which rules a
//! configuration text stands for, which windows are adjusted and how, and in
//! which order the installer works. Talking to the window server, to the file
//! system and to other processes is left to the program around it.
pub mod adjust;
pub mod attributes;
pub mod config;
pub mod document;
pub mod json;
pub mod listener;
pub mod manager;
pub mod number;
pub mod parse;
pub mod sections;
pub mod setup;
pub mod task;
pub mod text;
pub mod windows;
