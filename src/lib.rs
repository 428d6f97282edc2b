//! A line editor's core: a buffer of lines, a scrolled viewport onto it, and
//! the commands that edit and navigate while keeping the two consistent.

pub mod editor;
pub mod render;
pub mod terminal;
pub mod text_buffer;
pub mod text_view;

pub use editor::{decode_key, Command, Editor, EditorView, Key};
pub use terminal::{Size, Terminal};
pub use text_buffer::TextBuffer;
pub use render::{centering_padding, message_padding};
pub use text_view::TextView;
