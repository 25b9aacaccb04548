//! A minimal screen-oriented text editor core: a line buffer of rows,
//! cursor and viewport arithmetic, and frame composition for a terminal.
//!
//! Terminal control and keyboard decoding are capabilities supplied by the
//! surrounding application; this crate holds the verified engine.

use vstd::prelude::*;

mod document;
mod editor;
mod position;
mod row;
mod terminal;
mod text;

pub use document::Document;
pub use editor::Command;
pub use editor::Editor;
pub use editor::NavKey;
pub use editor::StatusMessage;
pub use editor::startup_document;
pub use position::Position;
pub use row::Row;
pub use terminal::Size;
pub use terminal::Terminal;
pub use text::chars_to_string;
pub use text::str_to_chars;

verus! {

} // verus!
