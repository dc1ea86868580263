use vstd::prelude::*;
use std::sync::Arc;
use vstd::rwlock::{RwLock, RwLockPredicate};
use vstd::std_specs::cmp::PartialEqSpec;
use crate::codec::{encode_record, note_bytes};
use crate::error::NoteError;
use crate::record::{first_matching, NoteModel, NoteRecord, TodoState};
use crate::todo::Todo;

verus! {

/// The loaded content of a note.
struct NoteBody {
    title: String,
    created: String,
    todos: Vec<Todo>,
}

/// What every state of a note's lock satisfies: content is present exactly when the note
/// was made loaded, and its creation stamp never changes.
pub struct NoteLockInv {
    pub loaded: bool,
    pub created: Seq<char>,
}

impl RwLockPredicate<Option<NoteBody>> for NoteLockInv {
    closed spec fn inv(self, v: Option<NoteBody>) -> bool {
        match v {
            Some(body) => self.loaded && body.created@ == self.created,
            None => !self.loaded && self.created.len() == 0,
        }
    }
}

/// A shared handle to a note backed by the file at its path. Clones refer to the same
/// note; two handles are equal exactly when their paths are.
#[derive(Clone)]
pub struct Note {
    path: String,
    cell: Arc<RwLock<Option<NoteBody>, NoteLockInv>>,
}

impl View for Note {
    type V = Seq<char>;

    /// A note is identified by its path.
    closed spec fn view(&self) -> Seq<char> {
        self.path@
    }
}

impl Note {
    /// Whether the note holds content (a note is loaded or not for its whole life).
    pub closed spec fn is_loaded(&self) -> bool {
        self.cell.pred().loaded
    }

    /// Whether the two handles refer to the same note.
    pub closed spec fn same_note(&self, other: &Note) -> bool {
        self.cell == other.cell
    }

    /// The creation stamp of a loaded note; empty for one that is not loaded.
    pub closed spec fn created_stamp(&self) -> Seq<char> {
        self.cell.pred().created
    }

    /// A loaded note at `path` holding `rec`, with a fresh item for each todo of `rec`.
    pub fn from_record(path: String, rec: NoteRecord) -> (r: Note)
        ensures
            r@ == path@,
            r.is_loaded(),
            r.created_stamp() == rec.created@,
    {
        let NoteRecord { title, created, todos: states } = rec;
        let mut todos: Vec<Todo> = Vec::new();
        let mut i: usize = 0;
        while i < states.len()
            invariant
                i <= states@.len(),
                todos@.len() == i,
            decreases states@.len() - i,
        {
            todos.push(Todo::from_state(states[i].duplicate()));
            i = i + 1;
        }
        let ghost inv = NoteLockInv { loaded: true, created: created@ };
        let body = NoteBody { title, created, todos };
        Note { path, cell: Arc::new(RwLock::new(Some(body), Ghost(inv))) }
    }

    /// A note at `path` whose content is not loaded.
    pub fn unloaded(path: String) -> (r: Note)
        ensures
            r@ == path@,
            !r.is_loaded(),
            r.created_stamp().len() == 0,
    {
        let ghost inv = NoteLockInv { loaded: false, created: Seq::empty() };
        Note { path, cell: Arc::new(RwLock::new(None, Ghost(inv))) }
    }

    /// Another handle to the same note.
    pub fn share(&self) -> (r: Note)
        ensures
            r@ == self@,
            r.same_note(self),
            r.is_loaded() == self.is_loaded(),
            r.created_stamp() == self.created_stamp(),
    {
        Note { path: self.path.clone(), cell: self.cell.clone() }
    }

    /// The note's path.
    pub fn path(&self) -> (r: String)
        ensures
            r@ == self@,
    {
        self.path.clone()
    }

    /// Overwrites the title of a loaded note.
    pub fn set_title(&self, title: &str) -> (r: Result<(), NoteError>)
        ensures
            r is Ok <==> self.is_loaded(),
            r is Err ==> r->Err_0 == NoteError::EmptyNote,
    {
        let (content, handle) = self.cell.acquire_write();
        match content {
            Some(body) => {
                let NoteBody { title: _, created, todos } = body;
                handle.release_write(Some(NoteBody { title: title.to_string(), created, todos }));
                Ok(())
            },
            None => {
                handle.release_write(None);
                Err(NoteError::EmptyNote)
            },
        }
    }

    /// The title to show: the note's title, or its creation stamp when the title is empty;
    /// empty for a note that is not loaded.
    pub fn title(&self) -> (r: Result<String, NoteError>)
        ensures
            r is Ok,
            !self.is_loaded() ==> r->Ok_0@.len() == 0,
            self.is_loaded() ==> (r->Ok_0@ == self.created_stamp() || r->Ok_0@.len() > 0),
    {
        let handle = self.cell.acquire_read();
        let shown = match handle.borrow() {
            Some(body) => {
                if body.title.as_str().is_empty() {
                    body.created.clone()
                } else {
                    body.title.clone()
                }
            },
            None => String::new(),
        };
        handle.release_read();
        Ok(shown)
    }

    /// Appends a fresh todo item (completion unset, empty description) to a loaded note
    /// and returns a handle to it.
    pub fn create_todo(&mut self) -> (r: Result<Todo, NoteError>)
        ensures
            final(self)@ == old(self)@,
            final(self).is_loaded() == old(self).is_loaded(),
            final(self).created_stamp() == old(self).created_stamp(),
            r is Ok <==> old(self).is_loaded(),
            r is Err ==> r->Err_0 == NoteError::EmptyNote,
    {
        let (content, handle) = self.cell.acquire_write();
        match content {
            Some(body) => {
                let NoteBody { title, created, mut todos } = body;
                let todo = Todo::fresh();
                todos.push(todo.share());
                handle.release_write(Some(NoteBody { title, created, todos }));
                Ok(todo)
            },
            None => {
                handle.release_write(None);
                Err(NoteError::EmptyNote)
            },
        }
    }

    /// Removes from a loaded note the first todo item whose content equals that of `todo`;
    /// nothing changes when there is none.
    pub fn remove_todo(&mut self, todo: &Todo) -> (r: Result<(), NoteError>)
        ensures
            final(self)@ == old(self)@,
            final(self).is_loaded() == old(self).is_loaded(),
            final(self).created_stamp() == old(self).created_stamp(),
            r is Ok <==> old(self).is_loaded(),
            r is Err ==> r->Err_0 == NoteError::EmptyNote,
    {
        let target = todo.snapshot();
        let (content, handle) = self.cell.acquire_write();
        match content {
            Some(body) => {
                let NoteBody { title, created, mut todos } = body;
                let states = snapshot_all(&todos);
                match first_matching(&states, &target) {
                    Some(i) => {
                        todos.remove(i);
                    },
                    None => {},
                }
                handle.release_write(Some(NoteBody { title, created, todos }));
                Ok(())
            },
            None => {
                handle.release_write(None);
                Err(NoteError::EmptyNote)
            },
        }
    }

    /// Handles to the note's todo items in display order; none for a note that is not
    /// loaded.
    pub fn todos(&self) -> (r: Vec<Todo>)
        ensures
            !self.is_loaded() ==> r@.len() == 0,
    {
        let handle = self.cell.acquire_read();
        let mut r: Vec<Todo> = Vec::new();
        match handle.borrow() {
            Some(body) => {
                let mut i: usize = 0;
                while i < body.todos.len()
                    invariant
                        i <= body.todos@.len(),
                    decreases body.todos@.len() - i,
                {
                    r.push(body.todos[i].share());
                    i = i + 1;
                }
            },
            None => {},
        }
        handle.release_read();
        r
    }

    /// A snapshot of the note's content, read under its lock; none for a note that is not
    /// loaded.
    pub fn snapshot_record(&self) -> (r: Option<NoteRecord>)
        ensures
            r is Some <==> self.is_loaded(),
            r is Some ==> r->Some_0.created@ == self.created_stamp(),
    {
        let handle = self.cell.acquire_read();
        let r = match handle.borrow() {
            Some(body) => Some(
                NoteRecord {
                    title: body.title.clone(),
                    created: body.created.clone(),
                    todos: snapshot_all(&body.todos),
                },
            ),
            None => None,
        };
        handle.release_read();
        r
    }

    /// The bytes to store in the note's file: the encoding of a snapshot of its content;
    /// none for a note that is not loaded, which has nothing to store. Never fails.
    pub fn to_bytes(&self) -> (r: Result<Option<Vec<u8>>, NoteError>)
        ensures
            r is Ok,
            !self.is_loaded() ==> r->Ok_0 is None,
            self.is_loaded() ==> r->Ok_0 is Some && exists|m: NoteModel|
                m.created == self.created_stamp() && r->Ok_0->Some_0@ == note_bytes(m),
    {
        match self.snapshot_record() {
            None => Ok(None),
            Some(rec) => match encode_record(&rec) {
                Ok(bytes) => Ok(Some(bytes)),
                Err(e) => Err(e),
            },
        }
    }
}

/// Snapshots of the items, one per handle, in order.
fn snapshot_all(todos: &Vec<Todo>) -> (r: Vec<TodoState>)
    ensures
        r@.len() == todos@.len(),
{
    let mut r: Vec<TodoState> = Vec::new();
    let mut i: usize = 0;
    while i < todos.len()
        invariant
            i <= todos@.len(),
            r@.len() == i,
        decreases todos@.len() - i,
    {
        r.push(todos[i].snapshot());
        i = i + 1;
    }
    r
}

impl PartialEq for Note {
    fn eq(&self, other: &Note) -> (r: bool)
        ensures
            r == (self@ == other@),
    {
        self.path == other.path
    }
}

impl vstd::std_specs::cmp::PartialEqSpecImpl for Note {
    open spec fn obeys_eq_spec() -> bool {
        true
    }

    open spec fn eq_spec(&self, other: &Note) -> bool {
        self@ == other@
    }
}

impl Eq for Note {
}

/// Handles to the same note agree on whether it is loaded and on its creation stamp.
pub proof fn lemma_same_note(a: &Note, b: &Note)
    requires
        a.same_note(b),
    ensures
        a.is_loaded() == b.is_loaded(),
        a.created_stamp() == b.created_stamp(),
{
}

/// Two handles with the same path are equal, whatever content each holds.
pub proof fn lemma_identity_via_path(a: &Note, b: &Note)
    requires
        a@ == b@,
    ensures
        a.eq_spec(b),
{
}

} // verus!
