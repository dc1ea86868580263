use vstd::prelude::*;
use vstd::string::*;
use std::cmp::Ordering;

verus! {

/// The abstract content of a todo item.
pub struct TodoModel {
    pub done: Option<bool>,
    pub description: Seq<char>,
}

/// The abstract content of a note: what its file holds.
pub struct NoteModel {
    pub title: Seq<char>,
    pub created: Seq<char>,
    pub todos: Seq<TodoModel>,
}

/// The title shown for a note: its own title, or its creation stamp when the title is empty.
pub open spec fn effective_title(m: NoteModel) -> Seq<char> {
    if m.title.len() == 0 {
        m.created
    } else {
        m.title
    }
}

/// Position of a completion state in the order of items: unset, then not done, then done.
pub open spec fn done_rank(d: Option<bool>) -> int {
    match d {
        None => 0,
        Some(false) => 1,
        Some(true) => 2,
    }
}

/// Lexicographic order of character sequences, character by character by code point.
pub open spec fn chars_cmp(a: Seq<char>, b: Seq<char>) -> Ordering
    decreases a.len(),
{
    if a.len() == 0 {
        if b.len() == 0 {
            Ordering::Equal
        } else {
            Ordering::Less
        }
    } else if b.len() == 0 {
        Ordering::Greater
    } else if (a[0] as u32) < (b[0] as u32) {
        Ordering::Less
    } else if (a[0] as u32) > (b[0] as u32) {
        Ordering::Greater
    } else {
        chars_cmp(a.drop_first(), b.drop_first())
    }
}

/// The order of todo items: by completion state, then by description.
pub open spec fn todo_cmp(a: TodoModel, b: TodoModel) -> Ordering {
    if done_rank(a.done) < done_rank(b.done) {
        Ordering::Less
    } else if done_rank(a.done) > done_rank(b.done) {
        Ordering::Greater
    } else {
        chars_cmp(a.description, b.description)
    }
}

fn done_rank_of(d: Option<bool>) -> (r: u8)
    ensures
        r as int == done_rank(d),
{
    match d {
        None => 0,
        Some(false) => 1,
        Some(true) => 2,
    }
}

/// Compares two strings character by character, by code point.
pub fn compare_chars(a: &str, b: &str) -> (r: Ordering)
    ensures
        r == chars_cmp(a@, b@),
{
    let n = a.unicode_len();
    let m = b.unicode_len();
    let mut i: usize = 0;
    proof {
        assert(a@.skip(0) =~= a@);
        assert(b@.skip(0) =~= b@);
    }
    while i < n && i < m
        invariant
            n == a@.len(),
            m == b@.len(),
            i <= n,
            i <= m,
            chars_cmp(a@, b@) == chars_cmp(a@.skip(i as int), b@.skip(i as int)),
        decreases n - i,
    {
        let x = a.get_char(i);
        let y = b.get_char(i);
        proof {
            assert(a@.skip(i as int)[0] == x);
            assert(b@.skip(i as int)[0] == y);
        }
        if (x as u32) < (y as u32) {
            return Ordering::Less;
        } else if (x as u32) > (y as u32) {
            return Ordering::Greater;
        }
        proof {
            assert(a@.skip(i as int).drop_first() =~= a@.skip(i + 1));
            assert(b@.skip(i as int).drop_first() =~= b@.skip(i + 1));
        }
        i = i + 1;
    }
    if n == m {
        proof {
            assert(a@.skip(i as int).len() == 0 && b@.skip(i as int).len() == 0);
        }
        Ordering::Equal
    } else if i == n {
        proof {
            assert(a@.skip(i as int).len() == 0 && b@.skip(i as int).len() > 0);
        }
        Ordering::Less
    } else {
        proof {
            assert(a@.skip(i as int).len() > 0 && b@.skip(i as int).len() == 0);
        }
        Ordering::Greater
    }
}

/// A snapshot of one todo item's content.
pub struct TodoState {
    pub done: Option<bool>,
    pub description: String,
}

impl View for TodoState {
    type V = TodoModel;

    open spec fn view(&self) -> TodoModel {
        TodoModel { done: self.done, description: self.description@ }
    }
}

impl TodoState {
    /// A fresh item: completion unset, empty description.
    pub fn new() -> (r: TodoState)
        ensures
            r@ == (TodoModel { done: None, description: Seq::<char>::empty() }),
    {
        TodoState { done: None, description: String::new() }
    }

    /// An independent copy with the same content.
    pub fn duplicate(&self) -> (r: TodoState)
        ensures
            r@ == self@,
    {
        TodoState { done: self.done, description: self.description.clone() }
    }

    /// Whether the two items have the same completion state and description.
    pub fn same_content(&self, other: &TodoState) -> (r: bool)
        ensures
            r == (self@ == other@),
    {
        let same_done = match (self.done, other.done) {
            (None, None) => true,
            (Some(a), Some(b)) => a == b,
            _ => false,
        };
        same_done && self.description == other.description
    }

    /// Orders items by completion state (unset, not done, done), then by description.
    pub fn compare(&self, other: &TodoState) -> (r: Ordering)
        ensures
            r == todo_cmp(self@, other@),
    {
        let a = done_rank_of(self.done);
        let b = done_rank_of(other.done);
        if a < b {
            Ordering::Less
        } else if a > b {
            Ordering::Greater
        } else {
            compare_chars(self.description.as_str(), other.description.as_str())
        }
    }
}

impl PartialEq for TodoState {
    fn eq(&self, other: &TodoState) -> (r: bool)
        ensures
            r == (self@ == other@),
    {
        self.same_content(other)
    }
}

impl vstd::std_specs::cmp::PartialEqSpecImpl for TodoState {
    open spec fn obeys_eq_spec() -> bool {
        true
    }

    open spec fn eq_spec(&self, other: &TodoState) -> bool {
        self@ == other@
    }
}

impl Eq for TodoState {
}

impl PartialOrd for TodoState {
    fn partial_cmp(&self, other: &TodoState) -> (r: Option<Ordering>)
        ensures
            r == Some(todo_cmp(self@, other@)),
    {
        Some(self.compare(other))
    }
}

impl vstd::std_specs::cmp::PartialOrdSpecImpl for TodoState {
    open spec fn obeys_partial_cmp_spec() -> bool {
        true
    }

    open spec fn partial_cmp_spec(&self, other: &TodoState) -> Option<Ordering> {
        Some(todo_cmp(self@, other@))
    }
}

/// A snapshot of a note's content: title, creation stamp and todo items in display order.
pub struct NoteRecord {
    pub title: String,
    pub created: String,
    pub todos: Vec<TodoState>,
}

impl View for NoteRecord {
    type V = NoteModel;

    open spec fn view(&self) -> NoteModel {
        NoteModel {
            title: self.title@,
            created: self.created@,
            todos: self.todos@.map_values(|t: TodoState| t@),
        }
    }
}

impl NoteRecord {
    /// The title to show for this note.
    pub fn effective_title(&self) -> (r: String)
        ensures
            r@ == effective_title(self@),
    {
        if self.title.as_str().is_empty() {
            self.created.clone()
        } else {
            self.title.clone()
        }
    }
}

/// Index of the first item with the same content as `target`, if any.
pub fn first_matching(items: &Vec<TodoState>, target: &TodoState) -> (r: Option<usize>)
    ensures
        match r {
            Some(i) => i < items@.len() && items@[i as int]@ == target@ && forall|j: int|
                0 <= j < i ==> items@[j]@ != target@,
            None => forall|j: int| 0 <= j < items@.len() ==> items@[j]@ != target@,
        },
{
    let mut i: usize = 0;
    while i < items.len()
        invariant
            i <= items@.len(),
            forall|j: int| 0 <= j < i ==> items@[j]@ != target@,
        decreases items@.len() - i,
    {
        if items[i].same_content(target) {
            return Some(i);
        }
        i = i + 1;
    }
    None
}

/// The effective title falls back to the creation stamp exactly when the title is empty.
pub proof fn lemma_fallback_title(m: NoteModel)
    ensures
        m.title.len() == 0 ==> effective_title(m) == m.created,
        m.title.len() > 0 ==> effective_title(m) == m.title,
{
}

} // verus!
