use vstd::prelude::*;
use std::cmp::Ordering;
use std::sync::Arc;
use vstd::rwlock::{RwLock, RwLockPredicate};
use crate::error::NoteError;
use crate::record::TodoState;

verus! {

/// Any content is acceptable for a todo item.
pub struct AnyTodoState;

impl RwLockPredicate<TodoState> for AnyTodoState {
    open spec fn inv(self, v: TodoState) -> bool {
        true
    }
}

/// A shared handle to a todo item. Clones refer to the same item, so a change made
/// through one handle is seen through all of them.
#[derive(Clone)]
pub struct Todo {
    cell: Arc<RwLock<TodoState, AnyTodoState>>,
}

impl Todo {
    /// Whether the two handles refer to the same item.
    pub closed spec fn same_item(&self, other: &Todo) -> bool {
        self.cell == other.cell
    }

    /// A new item holding `state`.
    pub fn from_state(state: TodoState) -> (r: Todo) {
        Todo { cell: Arc::new(RwLock::new(state, Ghost(AnyTodoState))) }
    }

    /// A new item with completion unset and an empty description.
    pub fn fresh() -> (r: Todo) {
        Todo::from_state(TodoState::new())
    }

    /// Another handle to the same item.
    pub fn share(&self) -> (r: Todo)
        ensures
            r.same_item(self),
    {
        Todo { cell: self.cell.clone() }
    }

    /// A copy of the item's current content, read under the lock.
    pub fn snapshot(&self) -> (r: TodoState) {
        let handle = self.cell.acquire_read();
        let r = handle.borrow().duplicate();
        handle.release_read();
        r
    }

    /// The item's completion state.
    pub fn done(&self) -> (r: Result<Option<bool>, NoteError>)
        ensures
            r is Ok,
    {
        let handle = self.cell.acquire_read();
        let d = handle.borrow().done;
        handle.release_read();
        Ok(d)
    }

    /// Overwrites the item's completion state.
    pub fn set_done(&self, done: Option<bool>) -> (r: Result<(), NoteError>)
        ensures
            r is Ok,
    {
        let (state, handle) = self.cell.acquire_write();
        handle.release_write(TodoState { done, description: state.description });
        Ok(())
    }

    /// The item's description.
    pub fn description(&self) -> (r: Result<String, NoteError>)
        ensures
            r is Ok,
    {
        let handle = self.cell.acquire_read();
        let d = handle.borrow().description.clone();
        handle.release_read();
        Ok(d)
    }

    /// Overwrites the item's description.
    pub fn set_description(&self, description: &str) -> (r: Result<(), NoteError>)
        ensures
            r is Ok,
    {
        let (state, handle) = self.cell.acquire_write();
        handle.release_write(TodoState { done: state.done, description: description.to_string() });
        Ok(())
    }
}

/// Two handles are equal when the items they refer to hold the same content at the time of
/// the comparison; each item is read under its own lock, one after the other. Since the
/// content may change between two comparisons, `==` on handles promises nothing fixed.
impl PartialEq for Todo {
    fn eq(&self, other: &Todo) -> (r: bool) {
        let a = self.snapshot();
        let b = other.snapshot();
        a.same_content(&b)
    }
}

impl vstd::std_specs::cmp::PartialEqSpecImpl for Todo {
    open spec fn obeys_eq_spec() -> bool {
        false
    }

    open spec fn eq_spec(&self, other: &Todo) -> bool {
        true
    }
}

/// Handles are ordered as the contents of their items at the time of the comparison (see
/// `TodoState::compare`), each read under its own lock.
impl PartialOrd for Todo {
    fn partial_cmp(&self, other: &Todo) -> (r: Option<Ordering>)
        ensures
            r is Some,
    {
        let a = self.snapshot();
        let b = other.snapshot();
        Some(a.compare(&b))
    }
}

impl vstd::std_specs::cmp::PartialOrdSpecImpl for Todo {
    open spec fn obeys_partial_cmp_spec() -> bool {
        false
    }

    open spec fn partial_cmp_spec(&self, other: &Todo) -> Option<Ordering> {
        None
    }
}

} // verus!
