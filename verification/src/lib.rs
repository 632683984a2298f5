//! Explorer Tab Merger: the decisions of a Windows 11 background program that folds
//! newly opened File Explorer windows into an existing window as tabs.
//!
//! Nothing here talks to Windows. Every flow that alternates system calls with decisions
//! is a machine: it names the next call to make, and is told the reply. The program around
//! the library performs the calls.

pub mod text;
pub mod win_util;
pub mod cloak;
pub mod shell_windows;
pub mod protocol;
pub mod merge;
pub mod tab_merger;
pub mod parsing_path;
pub mod shell_events;
pub mod autostart;
pub mod log;
pub mod conflicts;
pub mod single_instance;
pub mod supervisor;
pub mod startup;
