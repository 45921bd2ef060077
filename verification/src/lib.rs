//! A modal, terminal-resident plain-text editor core.
//!
//! The crate keeps an in-memory line buffer together with a cursor and a
//! scrolling viewport over it, applies keyboard and mouse events to that
//! state, and composes an abstract frame (visible rows, a status bar with
//! escape-aware truncation, and a target cursor cell) for a terminal backend
//! to draw. Every operation is specified and verified: the buffer never
//! becomes empty, the cursor always designates a valid position, and the
//! viewport reconciliation is minimal and idempotent.

pub mod buffer;
pub mod command;
pub mod cursor;
pub mod dispatch;
pub mod editor;
pub mod input;
pub mod render;
pub mod text;
