use std::cmp::Ordering;

use todotui::codec::{decode_record, encode_record};
use todotui::wall::{combine_saves, is_note_file_name};
use todotui::{Note, NoteError, NoteRecord, NotesWall, TodoState};

const TEST_FOLDER_PATH: &str = "/tmp/test_todotui";

fn record(title: &str, created: &str, todos: Vec<(Option<bool>, &str)>) -> NoteRecord {
    NoteRecord {
        title: title.to_string(),
        created: created.to_string(),
        todos: todos
            .into_iter()
            .map(|(done, d)| TodoState { done, description: d.to_string() })
            .collect(),
    }
}

/// The files a wall's notes would be saved to: (name in the folder, bytes).
fn saved_files(wall: &NotesWall) -> Vec<(String, Vec<u8>)> {
    let prefix = format!("{}/", wall.folder_path());
    wall.get_notes()
        .iter()
        .map(|n| {
            let path = n.path();
            let name = path.strip_prefix(&prefix).unwrap().to_string();
            (name, n.to_bytes().unwrap().unwrap())
        })
        .collect()
}

#[test]
fn standard_test() {
    let mut wall_1 = NotesWall::new(TEST_FOLDER_PATH.to_string());

    //This will load an empty wall due to empty work dir
    wall_1.init_from_files(&vec![]);
    assert_eq!(wall_1.get_notes().len(), 0);

    let mut note_1 = wall_1.create_note();
    let mut note_2 = wall_1.create_note();
    let _ = wall_1.create_note();

    assert!(note_1.set_title("note_1").is_ok());
    assert!(note_2.set_title("note_2").is_ok());

    let todo_1 = note_1.create_todo().unwrap();
    let todo_2 = note_1.create_todo().unwrap();
    let todo_3 = note_2.create_todo().unwrap();
    let todo_4 = note_2.create_todo().unwrap();
    let todo_5 = note_2.create_todo().unwrap();

    assert!(todo_1.set_description("desc1").is_ok());
    assert!(todo_1.set_done(Some(true)).is_ok());
    assert!(todo_2.set_description("desc2").is_ok());
    assert!(todo_2.set_done(Some(true)).is_ok());
    assert!(todo_3.set_description("desc3").is_ok());
    assert!(todo_3.set_done(Some(false)).is_ok());
    assert!(todo_4.set_description("desc4").is_ok());
    assert!(todo_4.set_done(None).is_ok());
    assert!(todo_5.set_description("desc5").is_ok());
    assert!(todo_5.set_done(Some(true)).is_ok());

    //wall_1 has two notes attached to it
    let binding_wall_1 = wall_1.get_notes();
    let mut notes_wall_1 = binding_wall_1.iter();
    assert!(note_1 == notes_wall_1.next().unwrap().to_owned());
    assert!(note_2 == notes_wall_1.next().unwrap().to_owned());

    assert!(wall_1.get_notes().iter().all(|n| n.to_bytes().is_ok()));
}

#[test]
fn record_round_trip() {
    let rec = record(
        "groceries",
        "19_10_2026_18:49_123456",
        vec![(Some(true), "milk"), (Some(false), "bread"), (None, ""), (None, "çà ✓ 日本")],
    );
    let bytes = encode_record(&rec).unwrap();
    let back = decode_record(&bytes).unwrap();
    assert_eq!(back.title, rec.title);
    assert_eq!(back.created, rec.created);
    assert_eq!(back.todos.len(), rec.todos.len());
    for (a, b) in back.todos.iter().zip(rec.todos.iter()) {
        assert_eq!(a.done, b.done);
        assert_eq!(a.description, b.description);
    }
}

#[test]
fn record_round_trip_ignores_trailing_bytes() {
    let rec = record("", "c", vec![(Some(false), "x")]);
    let mut bytes = encode_record(&rec).unwrap();
    bytes.extend_from_slice(&[7, 7, 7]);
    let back = decode_record(&bytes).unwrap();
    assert_eq!(back.created, "c");
    assert_eq!(back.todos[0].done, Some(false));
    assert_eq!(back.todos[0].description, "x");
}

#[test]
fn encoding_layout() {
    let rec = record("ab", "c", vec![(Some(true), "d"), (None, "")]);
    let bytes = encode_record(&rec).unwrap();
    assert_eq!(bytes, vec![2, b'a', b'b', 1, b'c', 2, 1, 1, 1, b'd', 0, 0]);
}

#[test]
fn encoding_long_length_uses_two_bytes() {
    let long = "x".repeat(200);
    let rec = record("", "", vec![(Some(false), long.as_str())]);
    let bytes = encode_record(&rec).unwrap();
    assert_eq!(&bytes[..6], &[0, 0, 1, 1, 0, 0xC8]);
    assert_eq!(bytes[6], 0x01);
    assert_eq!(bytes.len(), 7 + 200);
}

#[test]
fn encoding_multibyte_characters() {
    let rec = record("é", "", vec![]);
    let bytes = encode_record(&rec).unwrap();
    assert_eq!(bytes, vec![2, 0xC3, 0xA9, 0, 0]);
}

#[test]
fn decode_rejects_malformed_bytes() {
    assert_eq!(decode_record(&[0xFF]).err(), Some(NoteError::SerializationFailure));
    assert_eq!(decode_record(&[]).err(), Some(NoteError::SerializationFailure));
    assert_eq!(decode_record(&[0, 0, 1, 2]).err(), Some(NoteError::SerializationFailure));
}

#[test]
fn identity_via_path() {
    let a = Note::from_record("/w/x.post".to_string(), record("one", "s1", vec![(None, "a")]));
    let b = Note::from_record("/w/x.post".to_string(), record("two", "s2", vec![]));
    let c = Note::unloaded("/w/x.post".to_string());
    let d = Note::from_record("/w/y.post".to_string(), record("one", "s1", vec![(None, "a")]));
    assert!(a == b);
    assert!(a == c);
    assert!(a != d);
}

#[test]
fn fallback_title() {
    let n = Note::from_record("/w/a.post".to_string(), record("", "stamp", vec![]));
    assert_eq!(n.title().unwrap(), "stamp");
    assert!(n.set_title("named").is_ok());
    assert_eq!(n.title().unwrap(), "named");
    assert!(n.set_title("").is_ok());
    assert_eq!(n.title().unwrap(), "stamp");
    let rec = record("", "stamp", vec![]);
    assert_eq!(rec.effective_title(), "stamp");
    assert_eq!(record("t", "stamp", vec![]).effective_title(), "t");
}

#[test]
fn shared_mutation_visibility() {
    let mut n = Note::from_record("/w/a.post".to_string(), record("", "s", vec![]));
    let t1 = n.create_todo().unwrap();
    let t2 = t1.clone();
    assert!(t1.set_description("x").is_ok());
    assert_eq!(t2.description().unwrap(), "x");
    assert!(t2.set_done(Some(false)).is_ok());
    assert_eq!(t1.done().unwrap(), Some(false));
    let listed = n.todos();
    assert_eq!(listed.len(), 1);
    assert_eq!(listed[0].description().unwrap(), "x");
    let n2 = n.clone();
    assert!(n2.set_title("shared").is_ok());
    assert_eq!(n.title().unwrap(), "shared");
}

#[test]
fn fresh_todo_is_unset_and_empty() {
    let mut n = Note::from_record("/w/a.post".to_string(), record("", "s", vec![]));
    let t = n.create_todo().unwrap();
    assert_eq!(t.done().unwrap(), None);
    assert_eq!(t.description().unwrap(), "");
}

#[test]
fn remove_todo_removes_first_equal_item() {
    let mut n = Note::from_record(
        "/w/a.post".to_string(),
        record("", "s", vec![(Some(true), "a"), (None, "b"), (Some(true), "a")]),
    );
    let probe = Note::from_record("/w/b.post".to_string(), record("", "s", vec![(Some(true), "a")]));
    let target = probe.todos()[0].clone();
    assert!(n.remove_todo(&target).is_ok());
    let left = n.todos();
    assert_eq!(left.len(), 2);
    assert_eq!(left[0].description().unwrap(), "b");
    assert_eq!(left[1].description().unwrap(), "a");
    let other = Note::from_record("/w/c.post".to_string(), record("", "s", vec![(None, "zzz")]));
    assert!(n.remove_todo(&other.todos()[0]).is_ok());
    assert_eq!(n.todos().len(), 2);
}

#[test]
fn unloaded_note_errors() {
    let mut n = Note::unloaded("/w/a.post".to_string());
    assert_eq!(n.set_title("t").err(), Some(NoteError::EmptyNote));
    assert_eq!(n.create_todo().err(), Some(NoteError::EmptyNote));
    let other = Note::from_record("/w/b.post".to_string(), record("", "s", vec![(None, "a")]));
    assert_eq!(n.remove_todo(&other.todos()[0]).err(), Some(NoteError::EmptyNote));
    assert!(n.todos().is_empty());
    assert_eq!(n.title().unwrap(), "");
    assert!(n.to_bytes().unwrap().is_none());
    assert!(n.snapshot_record().is_none());
}

#[test]
fn create_remove_symmetry() {
    let mut wall = NotesWall::new("/w".to_string());
    let first = wall.create_note_at("s0".to_string());
    let before = wall.get_notes().len();
    let note = wall.create_note();
    assert_eq!(wall.get_notes().len(), before + 1);
    let path = note.path();
    assert!(path.starts_with("/w/"));
    assert!(path.ends_with(".post"));
    assert!(wall.get_notes().iter().filter(|n| **n == note).count() == 1);
    assert_eq!(wall.remove_note(&note), Some(path));
    assert_eq!(wall.get_notes().len(), before);
    assert!(wall.get_notes()[0] == first);
    assert_eq!(wall.remove_note(&note), None);
    assert_eq!(wall.get_notes().len(), before);
}

#[test]
fn create_note_uses_creation_stamp_for_path() {
    let mut wall = NotesWall::new("/w".to_string());
    let note = wall.create_note();
    let stamp = note.title().unwrap();
    assert_eq!(stamp.len(), "19_10_2026_18:49_123456".len());
    assert_eq!(note.path(), format!("/w/{}.post", stamp));
    let rec = note.snapshot_record().unwrap();
    assert_eq!(rec.title, "");
    assert_eq!(rec.created, stamp);
    assert!(rec.todos.is_empty());
}

#[test]
fn create_note_at_keeps_paths_unique() {
    let mut wall = NotesWall::new("/w".to_string());
    let a = wall.create_note_at("s".to_string());
    let b = wall.create_note_at("s".to_string());
    let c = wall.create_note_at("s".to_string());
    assert_eq!(a.path(), "/w/s.post");
    assert_eq!(b.path(), "/w/s_.post");
    assert_eq!(c.path(), "/w/s__.post");
    assert_eq!(b.title().unwrap(), "s");
    assert_eq!(wall.get_notes().len(), 3);
}

#[test]
fn note_file_names() {
    assert!(is_note_file_name("a.post"));
    assert!(is_note_file_name(".post"));
    assert!(is_note_file_name("a.post.bak"));
    assert!(!is_note_file_name("a.pos"));
    assert!(!is_note_file_name("apost"));
    assert!(!is_note_file_name(""));
}

#[test]
fn load_skips_corrupt_and_foreign_files() {
    let good = encode_record(&record("ok", "s", vec![(Some(true), "d")])).unwrap();
    let files = vec![
        ("a.post".to_string(), good.clone()),
        ("b.post".to_string(), vec![0xFF]),
        ("c.txt".to_string(), good.clone()),
        ("d.post".to_string(), vec![]),
    ];
    let mut wall = NotesWall::new("/w".to_string());
    wall.init_from_files(&files);
    let notes = wall.get_notes();
    assert_eq!(notes.len(), 1);
    assert_eq!(notes[0].path(), "/w/a.post");
    assert_eq!(notes[0].title().unwrap(), "ok");
}

#[test]
fn load_replaces_previous_notes() {
    let mut wall = NotesWall::new("/w".to_string());
    wall.create_note_at("s".to_string());
    wall.init_from_files(&vec![]);
    assert!(wall.get_notes().is_empty());
}

#[test]
fn end_to_end_scenario() {
    let mut wall_1 = NotesWall::new(TEST_FOLDER_PATH.to_string());
    wall_1.init_from_files(&vec![]);
    assert!(wall_1.get_notes().is_empty());
    let mut note_1 = wall_1.create_note();
    let note_2 = wall_1.create_note();
    assert!(note_1.set_title("note_1").is_ok());
    assert!(note_2.set_title("note_2").is_ok());
    let t1 = note_1.create_todo().unwrap();
    let t2 = note_1.create_todo().unwrap();
    assert!(t1.set_description("desc1").is_ok());
    assert!(t1.set_done(Some(true)).is_ok());
    assert!(t2.set_description("desc2").is_ok());
    assert!(t2.set_done(Some(true)).is_ok());

    let files = saved_files(&wall_1);
    let mut wall_2 = NotesWall::new(TEST_FOLDER_PATH.to_string());
    wall_2.init_from_files(&files);
    let loaded = wall_2.get_notes();
    assert_eq!(loaded.len(), 2);
    assert!(loaded[0] == note_1);
    assert!(loaded[1] == note_2);
    assert_eq!(loaded[0].title().unwrap(), "note_1");
    assert_eq!(loaded[1].title().unwrap(), "note_2");
    let todos = loaded[0].todos();
    assert_eq!(todos.len(), 2);
    assert_eq!(todos[0].description().unwrap(), "desc1");
    assert_eq!(todos[0].done().unwrap(), Some(true));
    assert_eq!(todos[1].description().unwrap(), "desc2");
    assert_eq!(todos[1].done().unwrap(), Some(true));
    assert!(loaded[1].todos().is_empty());
}

#[test]
fn todo_equality_is_structural() {
    let n = Note::from_record(
        "/w/a.post".to_string(),
        record("", "s", vec![(Some(true), "a"), (Some(true), "a"), (None, "a")]),
    );
    let t = n.todos();
    assert!(t[0] == t[1]);
    assert!(t[0] != t[2]);
    assert!(t[1].set_description("b").is_ok());
    assert!(t[0] != t[1]);
    let x = TodoState { done: Some(false), description: "d".to_string() };
    let y = TodoState { done: Some(false), description: "d".to_string() };
    let z = TodoState { done: None, description: "d".to_string() };
    assert!(x == y);
    assert!(x != z);
}

#[test]
fn todo_order_by_state_then_description() {
    let st = |done: Option<bool>, d: &str| TodoState { done, description: d.to_string() };
    assert_eq!(st(None, "z").compare(&st(Some(false), "a")), Ordering::Less);
    assert_eq!(st(Some(false), "z").compare(&st(Some(true), "a")), Ordering::Less);
    assert_eq!(st(Some(true), "a").compare(&st(Some(false), "z")), Ordering::Greater);
    assert_eq!(st(Some(true), "ab").compare(&st(Some(true), "b")), Ordering::Less);
    assert_eq!(st(Some(true), "ab").compare(&st(Some(true), "a")), Ordering::Greater);
    assert_eq!(st(None, "é").compare(&st(None, "z")), Ordering::Greater);
    assert_eq!(st(None, "same").compare(&st(None, "same")), Ordering::Equal);
    assert!(st(None, "a") < st(None, "b"));
    let n = Note::from_record(
        "/w/a.post".to_string(),
        record("", "s", vec![(Some(true), "a"), (None, "b")]),
    );
    let t = n.todos();
    assert!(t[1] < t[0]);
    assert_eq!(t[0].partial_cmp(&t[0]), Some(Ordering::Equal));
}

#[test]
fn combine_saves_reports_first_failure() {
    assert_eq!(combine_saves(&vec![]), Ok(()));
    assert_eq!(combine_saves(&vec![Ok(()), Ok(())]), Ok(()));
    assert_eq!(
        combine_saves(&vec![Ok(()), Err(NoteError::WriteFailure), Err(NoteError::SerializationFailure)]),
        Err(NoteError::WriteFailure)
    );
    assert_eq!(combine_saves(&vec![Err(NoteError::SerializationFailure), Ok(())]), Err(NoteError::SerializationFailure));
}

#[test]
fn loaded_note_always_encodes() {
    let n = Note::from_record("/w/a.post".to_string(), record("t", "s", vec![(None, "x")]));
    let bytes = n.to_bytes().unwrap().unwrap();
    assert_eq!(bytes, encode_record(&record("t", "s", vec![(None, "x")])).unwrap());
}

#[test]
fn wall_handles_share_notes() {
    let mut wall = NotesWall::new("/w".to_string());
    let first = wall.create_note_at("a".to_string());
    let second = wall.create_note();
    assert!(wall.get_notes()[0].set_title("renamed").is_ok());
    assert_eq!(first.title().unwrap(), "renamed");
    let mut listed = wall.get_notes()[1].clone();
    let todo = listed.create_todo().unwrap();
    assert!(todo.set_description("via wall").is_ok());
    assert_eq!(second.todos()[0].description().unwrap(), "via wall");
}

#[test]
fn load_installs_decoded_content() {
    let files = vec![
        ("x.post".to_string(), encode_record(&record("", "stamp_x", vec![(Some(true), "d")])).unwrap()),
        ("y.post".to_string(), encode_record(&record("named", "stamp_y", vec![])).unwrap()),
    ];
    let mut wall = NotesWall::new("/w".to_string());
    wall.init_from_files(&files);
    let notes = wall.get_notes();
    assert_eq!(notes.len(), 2);
    let a = notes[0].snapshot_record().unwrap();
    assert_eq!(a.created, "stamp_x");
    assert_eq!(a.todos[0].description, "d");
    assert_eq!(notes[0].title().unwrap(), "stamp_x");
    assert_eq!(notes[1].snapshot_record().unwrap().created, "stamp_y");
    assert_eq!(notes[1].title().unwrap(), "named");
}
