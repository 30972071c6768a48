//! The execution core of a branching-narrative engine: it advances a
//! cursor through a story's paragraphs one unit at a time, resolves each
//! unit's content across a primary and a base locale, dispatches to
//! pluggable command handlers, and keeps an undo-capable history that
//! makes play-throughs resumable.
//!
//! The story model is consumed as already-parsed data; reading it from
//! disk, and persisting settings and records, happen behind the
//! capability traits in `plugin` and `view_model`.

pub mod value;
pub mod types;
pub mod smap;
pub mod script;
pub mod fallbk;
pub mod action;
pub mod record;
pub mod game;
pub mod plugin;
pub mod context;
pub mod view_model;
pub mod laws;
