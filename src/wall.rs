use vstd::prelude::*;
use vstd::string::*;
use crate::codec::{decode_record, postcard_decoded};
use crate::error::NoteError;
use crate::note::Note;
use crate::record::NoteRecord;

verus! {

/// The extension marker of a note file's name.
pub open spec fn note_suffix() -> Seq<char> {
    seq!['.', 'p', 'o', 's', 't']
}

/// The layout of a creation stamp: day, month, year, hour, minute, microseconds.
pub open spec fn stamp_format() -> Seq<char> {
    seq!['%', 'd', '_', '%', 'm', '_', '%', 'Y', '_', '%', 'H', ':', '%', 'M', '_', '%', '6', 'f']
}

const NOTE_SUFFIX: &'static str = ".post";

const STAMP_FORMAT: &'static str = "%d_%m_%Y_%H:%M_%6f";

/// Whether a file name marks a note file: it contains the extension marker.
pub open spec fn is_note_file(name: Seq<char>) -> bool {
    exists|i: int| 0 <= i && i + 5 <= name.len() && #[trigger] name.subrange(i, i + 5) == note_suffix()
}

/// The path of the entry `name` of `folder`.
pub open spec fn file_path(folder: Seq<char>, name: Seq<char>) -> Seq<char> {
    folder.push('/') + name
}

/// Whether `p` names an entry of `folder`.
pub open spec fn in_folder(p: Seq<char>, folder: Seq<char>) -> bool {
    p.len() > folder.len() + 1 && p.subrange(0, folder.len() + 1int) == folder.push('/')
}

/// The file name of a note created at `created`, with `k` underscores to tell it apart from
/// the notes already there.
pub open spec fn note_file_name(created: Seq<char>, k: nat) -> Seq<char> {
    created + Seq::new(k, |i: int| '_') + note_suffix()
}

/// No path occurs twice.
pub open spec fn unique_paths(s: Seq<Seq<char>>) -> bool {
    forall|i: int, j: int| 0 <= i < j < s.len() ==> s[i] != s[j]
}

/// The paths of the note files that a scan keeps, in order: files whose name marks a
/// note and whose bytes decode, each path once.
pub open spec fn loaded_paths(folder: Seq<char>, files: Seq<(Seq<char>, Seq<u8>)>) -> Seq<Seq<char>>
    decreases files.len(),
{
    if files.len() == 0 {
        Seq::empty()
    } else {
        let prev = loaded_paths(folder, files.drop_last());
        let f = files.last();
        let p = file_path(folder, f.0);
        if is_note_file(f.0) && postcard_decoded(f.1) is Some && !prev.contains(p) {
            prev.push(p)
        } else {
            prev
        }
    }
}

/// The creation stamps of the notes a scan loads, in the order of `loaded_paths`: each is
/// the stamp decoded from the note's file.
pub open spec fn loaded_stamps(folder: Seq<char>, files: Seq<(Seq<char>, Seq<u8>)>) -> Seq<Seq<char>>
    decreases files.len(),
{
    if files.len() == 0 {
        Seq::empty()
    } else {
        let prev = loaded_stamps(folder, files.drop_last());
        let f = files.last();
        let p = file_path(folder, f.0);
        if is_note_file(f.0) && postcard_decoded(f.1) is Some && !loaded_paths(folder, files.drop_last()).contains(p) {
            prev.push(postcard_decoded(f.1)->Some_0.created)
        } else {
            prev
        }
    }
}

/// The (name, bytes) pairs of listed files, as plain values.
pub open spec fn files_model(files: Seq<(String, Vec<u8>)>) -> Seq<(Seq<char>, Seq<u8>)> {
    files.map_values(|f: (String, Vec<u8>)| (f.0@, f.1@))
}

/// The length of the longest path.
pub open spec fn max_len(s: Seq<Seq<char>>) -> nat
    decreases s.len(),
{
    if s.len() == 0 {
        0
    } else {
        let m = max_len(s.drop_last());
        if s.last().len() > m {
            s.last().len()
        } else {
            m
        }
    }
}

proof fn lemma_max_len(s: Seq<Seq<char>>, i: int)
    requires
        0 <= i < s.len(),
    ensures
        s[i].len() <= max_len(s),
    decreases s.len(),
{
    if i < s.len() - 1 {
        lemma_max_len(s.drop_last(), i);
    }
}

proof fn lemma_file_path_in_folder(folder: Seq<char>, name: Seq<char>)
    requires
        name.len() > 0,
    ensures
        in_folder(file_path(folder, name), folder),
{
    assert(file_path(folder, name).subrange(0, folder.len() + 1int) =~= folder.push('/'));
}

/// Whether `name` holds the extension marker at position `i`.
fn suffix_at(name: &str, n: usize, i: usize) -> (r: bool)
    requires
        n == name@.len(),
        i + 5 <= n,
    ensures
        r == (name@.subrange(i as int, i + 5) == note_suffix()),
{
    let r = name.get_char(i) == '.' && name.get_char(i + 1) == 'p' && name.get_char(i + 2) == 'o'
        && name.get_char(i + 3) == 's' && name.get_char(i + 4) == 't';
    proof {
        let sub = name@.subrange(i as int, i + 5);
        if r {
            assert(sub =~= note_suffix());
        } else if sub == note_suffix() {
            assert(sub[0] == '.' && sub[1] == 'p' && sub[2] == 'o' && sub[3] == 's' && sub[4] == 't');
        }
    }
    r
}

/// Whether a file name marks a note file: it contains the extension marker.
pub fn is_note_file_name(name: &str) -> (r: bool)
    ensures
        r == is_note_file(name@),
{
    let n = name.unicode_len();
    if n < 5 {
        return false;
    }
    let mut i: usize = 0;
    while i <= n - 5
        invariant
            n == name@.len(),
            n >= 5,
            forall|j: int| 0 <= j < i ==> #[trigger] name@.subrange(j, j + 5) != note_suffix(),
        decreases n - i,
    {
        if suffix_at(name, n, i) {
            return true;
        }
        i = i + 1;
    }
    false
}

/// The path of the entry `name` of `folder`.
fn build_path(folder: &String, name: &str) -> (r: String)
    ensures
        r@ == file_path(folder@, name@),
{
    let mut p = folder.clone();
    p.append("/");
    p.append(name);
    proof {
        reveal_strlit("/");
        assert(p@ =~= file_path(folder@, name@));
    }
    p
}

/// Index of the note at `path`, if any.
fn position_of(notes: &Vec<Note>, path: &String) -> (r: Option<usize>)
    ensures
        match r {
            Some(i) => i < notes@.len() && notes@[i as int]@ == path@,
            None => !notes@.map_values(|n: Note| n@).contains(path@),
        },
{
    let mut i: usize = 0;
    while i < notes.len()
        invariant
            i <= notes@.len(),
            forall|j: int| 0 <= j < i ==> (#[trigger] notes@[j])@ != path@,
        decreases notes@.len() - i,
    {
        if notes[i].path() == *path {
            return Some(i);
        }
        i = i + 1;
    }
    proof {
        let s = notes@.map_values(|n: Note| n@);
        if s.contains(path@) {
            let j = choose|j: int| 0 <= j < s.len() && s[j] == path@;
            assert(notes@[j]@ == path@);
        }
    }
    None
}

/// Relies on chrono's `From<SystemTime>` for `DateTime<Utc>` and `DateTime::format`: the
/// current UTC time written in the layout `fmt`, which is a valid layout and begins with
/// the two-digit day, so the result is not empty.
#[verifier::external_body]
fn utc_now_formatted(fmt: &str) -> (r: String)
    requires
        fmt@ == stamp_format(),
    ensures
        r@.len() > 0,
{
    chrono::DateTime::<chrono::Utc>::from(std::time::SystemTime::now()).format(fmt).to_string()
}

/// The outcome of saving several notes: the first failure, or success when none failed.
pub open spec fn first_failure(results: Seq<Result<(), NoteError>>) -> Result<(), NoteError>
    decreases results.len(),
{
    if results.len() == 0 {
        Ok(())
    } else if results[0] is Err {
        results[0]
    } else {
        first_failure(results.drop_first())
    }
}

/// Combines the results of saving every note of a wall, each save attempted whatever the
/// others gave: the first failure, or success when all succeeded.
pub fn combine_saves(results: &Vec<Result<(), NoteError>>) -> (r: Result<(), NoteError>)
    ensures
        r == first_failure(results@),
{
    let mut i: usize = results.len();
    let mut r: Result<(), NoteError> = Ok(());
    proof {
        assert(results@.skip(i as int) =~= Seq::<Result<(), NoteError>>::empty());
    }
    while i > 0
        invariant
            i <= results@.len(),
            r == first_failure(results@.skip(i as int)),
        decreases i,
    {
        i = i - 1;
        proof {
            assert(results@.skip(i as int).drop_first() =~= results@.skip(i + 1));
        }
        match &results[i] {
            Ok(()) => {},
            Err(e) => {
                r = Err(*e);
            },
        }
    }
    proof {
        assert(results@.skip(0) =~= results@);
    }
    r
}

/// The notes kept in one folder, one file per note, in the order they were found or made.
pub struct NotesWall {
    folder_path: String,
    notes: Vec<Note>,
}

impl NotesWall {
    /// The folder that holds the notes' files.
    pub closed spec fn folder(&self) -> Seq<char> {
        self.folder_path@
    }

    /// The wall's own handles to its notes, in order.
    pub closed spec fn notes(&self) -> Seq<Note> {
        self.notes@
    }

    /// The paths of the notes, in order.
    pub closed spec fn paths(&self) -> Seq<Seq<char>> {
        self.notes@.map_values(|n: Note| n@)
    }

    /// Every note lies in the folder and holds content, and no two share a path.
    pub open spec fn wf(&self) -> bool {
        &&& unique_paths(self.paths())
        &&& self.paths().len() == self.notes().len()
        &&& forall|i: int| 0 <= i < self.paths().len() ==> in_folder(#[trigger] self.paths()[i], self.folder())
        &&& forall|i: int| 0 <= i < self.notes().len() ==> (#[trigger] self.notes()[i]).is_loaded()
        &&& forall|i: int| 0 <= i < self.notes().len() ==> (#[trigger] self.notes()[i])@ == self.paths()[i]
    }

    /// A wall over `folder_path`, with no notes yet.
    pub fn new(folder_path: String) -> (r: NotesWall)
        ensures
            r.wf(),
            r.folder() == folder_path@,
            r.paths().len() == 0,
    {
        let r = NotesWall { folder_path, notes: Vec::new() };
        assert(r.paths() =~= Seq::<Seq<char>>::empty());
        r
    }

    /// The folder's path.
    pub fn folder_path(&self) -> (r: String)
        ensures
            r@ == self.folder(),
    {
        self.folder_path.clone()
    }

    /// Handles to the notes, in order.
    pub fn get_notes(&self) -> (r: Vec<Note>)
        ensures
            r@.map_values(|n: Note| n@) == self.paths(),
            r@.len() == self.notes().len(),
            forall|i: int| 0 <= i < r@.len() ==> (#[trigger] r@[i]).same_note(&self.notes()[i])
                && r@[i]@ == self.notes()[i]@,
    {
        let mut r: Vec<Note> = Vec::new();
        let mut i: usize = 0;
        while i < self.notes.len()
            invariant
                i <= self.notes@.len(),
                r@.len() == i,
                forall|j: int| 0 <= j < i ==> (#[trigger] r@[j])@ == self.notes@[j]@ && r@[j].same_note(
                    &self.notes@[j],
                ),
            decreases self.notes@.len() - i,
        {
            r.push(self.notes[i].share());
            i = i + 1;
        }
        assert(r@.map_values(|n: Note| n@) =~= self.paths());
        r
    }

    /// Makes a new, empty, loaded note created at `created` and appends it. Its file is
    /// `<created>.post` in the folder; when a note already has that path, the first of
    /// `<created>_.post`, `<created>__.post`, ... that none has.
    pub fn create_note_at(&mut self, created: String) -> (r: Note)
        requires
            old(self).wf(),
        ensures
            final(self).wf(),
            final(self).folder() == old(self).folder(),
            final(self).paths() == old(self).paths().push(r@),
            final(self).notes().len() == old(self).notes().len() + 1,
            forall|i: int| 0 <= i < old(self).notes().len() ==> final(self).notes()[i] == old(self).notes()[i],
            final(self).notes().last().same_note(&r),
            final(self).notes().last()@ == r@,
            !old(self).paths().contains(r@),
            in_folder(r@, old(self).folder()),
            exists|k: nat|
                r@ == file_path(old(self).folder(), #[trigger] note_file_name(created@, k))
                && forall|j: nat| j < k ==> old(self).paths().contains(
                    file_path(old(self).folder(), #[trigger] note_file_name(created@, j)),
                ),
            r.is_loaded(),
            r.created_stamp() == created@,
    {
        let ghost folder = self.folder();
        let ghost paths = self.paths();
        let mut stem = created.clone();
        let ghost mut k: nat = 0;
        let mut name = stem.clone();
        name.append(NOTE_SUFFIX);
        proof {
            reveal_strlit(".post");
            assert(name@ =~= note_file_name(created@, 0));
        }
        let mut path = build_path(&self.folder_path, name.as_str());
        loop
            invariant
                self.folder() == folder,
                self.paths() == paths,
                self.wf(),
                stem@ == created@ + Seq::new(k, |i: int| '_'),
                path@ == file_path(folder, note_file_name(created@, k)),
                forall|j: nat| j < k ==> paths.contains(
                    file_path(folder, #[trigger] note_file_name(created@, j)),
                ),
                k <= max_len(paths) + 1,
            ensures
                path@ == file_path(folder, note_file_name(created@, k)),
                !paths.contains(path@),
                forall|j: nat| j < k ==> paths.contains(
                    file_path(folder, #[trigger] note_file_name(created@, j)),
                ),
            decreases max_len(paths) + 1 - k,
        {
            match position_of(&self.notes, &path) {
                None => {
                    break;
                },
                Some(idx) => {
                    proof {
                        lemma_max_len(paths, idx as int);
                        assert(paths[idx as int] == path@);
                        assert(paths.contains(path@));
                    }
                    stem.append("_");
                    let ghost old_k = k;
                    proof {
                        reveal_strlit("_");
                        k = k + 1;
                        assert(stem@ =~= created@ + Seq::new(k, |i: int| '_'));
                    }
                    name = stem.clone();
                    name.append(NOTE_SUFFIX);
                    proof {
                        reveal_strlit(".post");
                        assert(name@ =~= note_file_name(created@, k));
                        assert forall|j: nat| j < k implies paths.contains(
                            file_path(folder, #[trigger] note_file_name(created@, j)),
                        ) by {
                            if j == old_k {
                            }
                        }
                    }
                    path = build_path(&self.folder_path, name.as_str());
                },
            }
        }
        let rec = NoteRecord { title: String::new(), created, todos: Vec::new() };
        let note = Note::from_record(path, rec);
        self.notes.push(note.share());
        proof {
            lemma_file_path_in_folder(folder, note_file_name(created@, k));
            assert(self.paths() =~= paths.push(note@));
        }
        note
    }

    /// Makes a new, empty, loaded note stamped with the current time and appends it (see
    /// `create_note_at`): its file is `<stamp>.post` in the folder unless a note already
    /// has that path.
    pub fn create_note(&mut self) -> (r: Note)
        requires
            old(self).wf(),
        ensures
            final(self).wf(),
            final(self).folder() == old(self).folder(),
            final(self).paths() == old(self).paths().push(r@),
            final(self).notes().len() == old(self).notes().len() + 1,
            forall|i: int| 0 <= i < old(self).notes().len() ==> final(self).notes()[i] == old(self).notes()[i],
            final(self).notes().last().same_note(&r),
            final(self).notes().last()@ == r@,
            !old(self).paths().contains(r@),
            in_folder(r@, old(self).folder()),
            exists|k: nat|
                r@ == file_path(old(self).folder(), #[trigger] note_file_name(r.created_stamp(), k))
                && forall|j: nat| j < k ==> old(self).paths().contains(
                    file_path(old(self).folder(), #[trigger] note_file_name(r.created_stamp(), j)),
                ),
            r.is_loaded(),
            r.created_stamp().len() > 0,
    {
        proof {
            reveal_strlit("%d_%m_%Y_%H:%M_%6f");
            assert(STAMP_FORMAT@ =~= stamp_format());
        }
        let created = utc_now_formatted(STAMP_FORMAT);
        self.create_note_at(created)
    }

    /// Takes the note with the same path as `note` out of the wall and returns that path,
    /// whose file the caller then deletes; nothing when the wall has no such note.
    pub fn remove_note(&mut self, note: &Note) -> (r: Option<String>)
        requires
            old(self).wf(),
        ensures
            final(self).wf(),
            final(self).folder() == old(self).folder(),
            r is Some <==> old(self).paths().contains(note@),
            r is Some ==> r->Some_0@ == note@ && exists|i: int|
                0 <= i < old(self).paths().len() && old(self).paths()[i] == note@
                && final(self).paths() == old(self).paths().remove(i)
                && final(self).notes() == old(self).notes().remove(i),
            r is None ==> final(self).paths() == old(self).paths() && final(self).notes() == old(self).notes(),
    {
        let ghost paths = self.paths();
        let p = note.path();
        match position_of(&self.notes, &p) {
            None => None,
            Some(i) => {
                let removed = self.notes.remove(i);
                proof {
                    assert(self.paths() =~= paths.remove(i as int));
                    assert(paths[i as int] == note@);
                    assert forall|a: int, b: int| 0 <= a < b < self.paths().len() implies
                        self.paths()[a] != self.paths()[b] by {
                        let a0 = if a < i { a } else { a + 1 };
                        let b0 = if b < i { b } else { b + 1 };
                        assert(self.paths()[a] == paths[a0]);
                        assert(self.paths()[b] == paths[b0]);
                    }
                    assert forall|a: int| 0 <= a < self.paths().len() implies
                        in_folder(#[trigger] self.paths()[a], self.folder()) by {
                        let a0 = if a < i { a } else { a + 1 };
                        assert(self.paths()[a] == paths[a0]);
                    }
                }
                Some(removed.path())
            },
        }
    }

    /// Replaces the notes with those read from the folder's files, given as (name, bytes)
    /// in listing order: each file whose name marks a note and whose bytes decode becomes a
    /// loaded note; the others are skipped.
    pub fn init_from_files(&mut self, files: &Vec<(String, Vec<u8>)>)
        ensures
            final(self).wf(),
            final(self).folder() == old(self).folder(),
            final(self).paths() == loaded_paths(old(self).folder(), files_model(files@)),
            final(self).notes().map_values(|n: Note| n.created_stamp()) == loaded_stamps(
                old(self).folder(),
                files_model(files@),
            ),
    {
        let ghost folder = self.folder();
        let ghost fm = files_model(files@);
        let mut notes: Vec<Note> = Vec::new();
        let mut i: usize = 0;
        while i < files.len()
            invariant
                i <= files@.len(),
                fm == files_model(files@),
                folder == self.folder_path@,
                notes@.map_values(|n: Note| n@) == loaded_paths(folder, fm.take(i as int)),
                notes@.map_values(|n: Note| n.created_stamp()) == loaded_stamps(folder, fm.take(i as int)),
                forall|j: int| 0 <= j < notes@.len() ==> (#[trigger] notes@[j]).is_loaded(),
                unique_paths(notes@.map_values(|n: Note| n@)),
                forall|j: int| 0 <= j < notes@.len() ==> in_folder(#[trigger] notes@[j]@, folder),
            decreases files@.len() - i,
        {
            let ghost before = notes@.map_values(|n: Note| n@);
            let ghost before_stamps = notes@.map_values(|n: Note| n.created_stamp());
            let name = &files[i].0;
            let bytes = &files[i].1;
            proof {
                assert(fm.take(i + 1).drop_last() =~= fm.take(i as int));
                assert(fm.take(i + 1).last() == (name@, bytes@));
            }
            if is_note_file_name(name.as_str()) {
                match decode_record(bytes.as_slice()) {
                    Ok(rec) => {
                        let path = build_path(&self.folder_path, name.as_str());
                        let found = position_of(&notes, &path);
                        if let Some(idx) = found {
                            proof {
                                assert(before[idx as int] == path@);
                            }
                        } else {
                            notes.push(Note::from_record(path, rec));
                            proof {
                                let after = notes@.map_values(|n: Note| n@);
                                assert(after =~= before.push(path@));
                                assert(notes@.map_values(|n: Note| n.created_stamp()) =~= before_stamps.push(
                                    postcard_decoded(bytes@)->Some_0.created,
                                ));
                                assert(name@.len() >= 5) by {
                                    let w = choose|w: int| 0 <= w && w + 5 <= name@.len()
                                        && #[trigger] name@.subrange(w, w + 5) == note_suffix();
                                }
                                lemma_file_path_in_folder(folder, name@);
                                assert forall|j: int| 0 <= j < notes@.len() implies in_folder(
                                    #[trigger] notes@[j]@, folder) by {
                                    if j < before.len() {
                                        assert(notes@[j]@ == before[j]);
                                    }
                                }
                            }
                        }
                    },
                    Err(_) => {},
                }
            }
            proof {
                let t = fm.take(i + 1);
                let p = file_path(folder, name@);
                assert(loaded_paths(folder, t) == if is_note_file(name@) && postcard_decoded(bytes@) is Some
                    && !before.contains(p) {
                    before.push(p)
                } else {
                    before
                });
                assert(loaded_stamps(folder, t) == if is_note_file(name@) && postcard_decoded(bytes@) is Some
                    && !before.contains(p) {
                    before_stamps.push(postcard_decoded(bytes@)->Some_0.created)
                } else {
                    before_stamps
                });
            }
            i = i + 1;
        }
        proof {
            assert(fm.take(files@.len() as int) =~= fm);
        }
        self.notes = notes;
    }
}

/// Removing, right after it was appended, the note that `create_note` made gives back the
/// paths the wall had before: `remove_note` takes out the one path equal to it, which is
/// the last.
pub proof fn lemma_create_remove_symmetry(before: Seq<Seq<char>>, p: Seq<char>, i: int)
    requires
        !before.contains(p),
        0 <= i < before.len() + 1,
        before.push(p)[i] == p,
    ensures
        before.push(p).remove(i) == before,
{
    if i < before.len() {
        assert(before[i] == p);
    }
    assert(before.push(p).remove(i) =~= before);
}

proof fn lemma_file_path_injective(folder: Seq<char>, a: Seq<char>, b: Seq<char>)
    requires
        file_path(folder, a) == file_path(folder, b),
    ensures
        a == b,
{
    let n = folder.len() + 1;
    assert(a =~= file_path(folder, a).subrange(n as int, file_path(folder, a).len() as int));
    assert(b =~= file_path(folder, b).subrange(n as int, file_path(folder, b).len() as int));
}

proof fn lemma_loaded_paths_origin(folder: Seq<char>, files: Seq<(Seq<char>, Seq<u8>)>, q: Seq<char>)
    requires
        loaded_paths(folder, files).contains(q),
    ensures
        exists|j: int| 0 <= j < files.len() && q == file_path(folder, #[trigger] files[j].0),
    decreases files.len(),
{
    let prev = loaded_paths(folder, files.drop_last());
    if prev.contains(q) {
        lemma_loaded_paths_origin(folder, files.drop_last(), q);
        let j = choose|j: int| 0 <= j < files.drop_last().len() && q == file_path(folder, #[trigger] files.drop_last()[j].0);
        assert(files.drop_last()[j] == files[j]);
    } else {
        let all = loaded_paths(folder, files);
        let k = choose|k: int| 0 <= k < all.len() && all[k] == q;
        if k < prev.len() {
            assert(all[k] == prev[k]);
        }
        assert(q == file_path(folder, files[files.len() - 1].0));
    }
}

/// A file whose bytes do not decode is not among the notes a scan loads, as long as no
/// other file has the same name.
pub proof fn lemma_corrupt_file_skipped(folder: Seq<char>, files: Seq<(Seq<char>, Seq<u8>)>, i: int)
    requires
        0 <= i < files.len(),
        postcard_decoded(files[i].1) is None,
        forall|j: int| 0 <= j < files.len() && j != i ==> files[j].0 != files[i].0,
    ensures
        !loaded_paths(folder, files).contains(file_path(folder, files[i].0)),
    decreases files.len(),
{
    let p = file_path(folder, files[i].0);
    let prev_files = files.drop_last();
    let prev = loaded_paths(folder, prev_files);
    let last = files.len() - 1;
    if i == last {
        if prev.contains(p) {
            lemma_loaded_paths_origin(folder, prev_files, p);
            let j = choose|j: int| 0 <= j < prev_files.len() && p == file_path(folder, #[trigger] prev_files[j].0);
            lemma_file_path_injective(folder, prev_files[j].0, files[i].0);
            assert(files[j] == prev_files[j]);
        }
    } else {
        assert forall|j: int| 0 <= j < prev_files.len() && j != i implies prev_files[j].0 != prev_files[i].0 by {
            assert(prev_files[j] == files[j]);
        }
        lemma_corrupt_file_skipped(folder, prev_files, i);
        assert(prev_files[i] == files[i]);
        if file_path(folder, files[last].0) == p {
            lemma_file_path_injective(folder, files[last].0, files[i].0);
        }
        let all = loaded_paths(folder, files);
        if all.contains(p) {
            let k = choose|k: int| 0 <= k < all.len() && all[k] == p;
            if k < prev.len() {
                assert(all[k] == prev[k]);
            }
        }
    }
}

} // verus!
