//! Core of a line-oriented text editor: a grapheme-aware text buffer,
//! cursor and viewport coordination, and command dispatch.
//!
//! Text is indexed in user-perceived characters (grapheme clusters), never
//! in bytes or code points, so that multi-codepoint characters are never
//! split by an edit.

use vstd::prelude::*;

pub mod document;
pub mod editor;
pub mod row;
pub mod text;

pub use document::Document;
pub use editor::{Command, Direction, Editor, EditorMode, Position};
pub use row::Row;

verus! {

/// Smallest of two machine integers, used when clamping coordinates.
pub(crate) fn min_usize(a: usize, b: usize) -> (r: usize)
    ensures
        r == if a < b {
            a as int
        } else {
            b as int
        },
{
    if a < b {
        a
    } else {
        b
    }
}

} // verus!
