//! Core of a modal, vim-style text editor: a key-stroke state machine that
//! tokenizes characters into count/operator/motion commands, a word-boundary
//! classifier, a cursor/viewport engine over a rope-backed buffer, and the
//! dispatcher that interprets completed motions.

pub mod buffer;
pub mod colors;
pub mod command;
pub mod editor;
pub mod laws;
pub mod rope;
pub mod statemachine;
pub mod strutil;
pub mod text;
pub mod window;
pub mod word;

use vstd::prelude::*;

verus! {

/// Width of the line-number gutter: the column where buffer text starts.
pub const X_OFFSET: usize = 5;

} // verus!
