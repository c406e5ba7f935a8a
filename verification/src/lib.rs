//! The verified core of a desktop coding assistant: it decides what a chat
//! message asks for, extracts code from the model's answer for the editor,
//! builds the command that runs the editor's code in the terminal, and keeps
//! the API-key configuration, error handling and retry policy.

pub mod text;
pub mod platform;
pub mod language;
pub mod api;
pub mod config;
pub mod flow;
pub mod file_tree;
pub mod theme;
