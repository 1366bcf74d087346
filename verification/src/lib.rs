//! A modal text editor core: a line-addressed text buffer engine, a
//! window/cursor/viewport model, a modal input state machine, and a closed
//! request/response protocol dispatched against a single editor state.
//!
//! Terminal painting, key decoding, file input/output and process plumbing are
//! external collaborators; this crate holds the editor's logic and its
//! contracts.

pub mod action;
pub mod api;
pub mod buffer;
pub mod builtin;
pub mod commands;
pub mod content;
pub mod editor;
pub mod fileio;
pub mod input;
pub mod managers;
pub mod state;
pub mod strings;
pub mod text;
pub mod vec2;
pub mod window;
