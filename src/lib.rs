//! Notes made of todo items, shared between handles and kept one file per note.
pub mod codec;
pub mod error;
pub mod note;
pub mod record;
pub mod todo;
pub mod wall;

pub use error::NoteError;
pub use note::Note;
pub use record::{NoteRecord, TodoState};
pub use todo::Todo;
pub use wall::NotesWall;
