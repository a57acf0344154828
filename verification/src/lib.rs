//! A keystroke-driven editor for an ordered list of tagged notes.
//!
//! The library holds the application's entire logic: an editable text
//! buffer with an insertion cursor (`buffer`), the ordered note store
//! with its selection index (`store`), the draft being composed
//! (`session`), the modal key-event state machine (`controller`), a pure
//! projection of the state into renderable text (`view_model`), and the
//! JSON codec that persists the note list (`codec`). Terminal setup,
//! drawing, key-event reading and file access live outside the library
//! and exchange plain values with it.

pub mod text;
pub mod buffer;
pub mod note;
pub mod store;
pub mod session;
pub mod controller;
pub mod view_model;
pub mod codec;
