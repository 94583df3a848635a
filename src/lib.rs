//! Core of an interactive configuration installer: the selection tree, the
//! interaction state machine, the task dispatcher and materializer, and the
//! decisions of the cancellable process runner, all verified.

pub mod text;
pub mod mcp;
pub mod validation;
pub mod component;
pub mod types;
pub mod tree;
pub mod theme;
pub mod plugin;
pub mod runner;
pub mod app;
pub mod command;
pub mod settings;
pub mod installer;
pub mod hooklog;
pub mod installed;
pub mod scanner;
