//! The on-disk encoding of a note: postcard's layout of
//! `(title, created, [(done, description)])`.
use vstd::prelude::*;
use vstd::utf8::encode_utf8;
use crate::error::NoteError;
use crate::record::{NoteModel, NoteRecord, TodoModel, TodoState};

verus! {

/// Little-endian base-128 encoding of a length: seven bits per byte, high bit set on all
/// bytes but the last.
pub open spec fn varint(n: nat) -> Seq<u8>
    decreases n,
{
    if n < 128 {
        seq![n as u8]
    } else {
        seq![(n % 128 + 128) as u8] + varint(n / 128)
    }
}

/// A string: the length of its UTF-8 bytes, then those bytes.
pub open spec fn str_bytes(s: Seq<char>) -> Seq<u8> {
    varint(encode_utf8(s).len()) + encode_utf8(s)
}

/// A tri-state completion flag: tag 0 for unset, tag 1 followed by 0 or 1 otherwise.
pub open spec fn done_bytes(d: Option<bool>) -> Seq<u8> {
    match d {
        None => seq![0u8],
        Some(b) => seq![1u8, if b { 1u8 } else { 0u8 }],
    }
}

/// A todo item: its flag, then its description.
pub open spec fn todo_bytes(t: TodoModel) -> Seq<u8> {
    done_bytes(t.done) + str_bytes(t.description)
}

/// Todo items one after the other, without a count.
pub open spec fn todo_list_bytes(ts: Seq<TodoModel>) -> Seq<u8>
    decreases ts.len(),
{
    if ts.len() == 0 {
        Seq::<u8>::empty()
    } else {
        todo_bytes(ts[0]) + todo_list_bytes(ts.drop_first())
    }
}

/// A whole note: title, creation stamp, the number of todo items, then the items.
pub open spec fn note_bytes(m: NoteModel) -> Seq<u8> {
    str_bytes(m.title) + str_bytes(m.created) + varint(m.todos.len()) + todo_list_bytes(m.todos)
}

/// `b` begins with the encoding of `m`; what follows it is ignored.
pub open spec fn encodes(b: Seq<u8>, m: NoteModel) -> bool {
    exists|rest: Seq<u8>| b == note_bytes(m) + rest
}

/// The value handed to postcard: a note as plain std types.
pub type WireNote = (String, String, Vec<(Option<bool>, String)>);

pub open spec fn wire_todo_model(t: (Option<bool>, String)) -> TodoModel {
    TodoModel { done: t.0, description: t.1@ }
}

pub open spec fn wire_model(w: WireNote) -> NoteModel {
    NoteModel { title: w.0@, created: w.1@, todos: w.2@.map_values(|t| wire_todo_model(t)) }
}

/// What postcard decodes from the given bytes, if anything.
pub uninterp spec fn postcard_decoded(b: Seq<u8>) -> Option<NoteModel>;

#[verifier::external_type_specification]
#[verifier::external_body]
pub struct ExPostcardError(postcard::Error);

/// Relies on postcard::to_stdvec: the fields in order; a string as the varint of its
/// UTF-8 length followed by its bytes; an option as tag 0, or tag 1 and the value; a bool
/// as one byte 0 or 1; a vector as the varint of its length followed by its items. Writing
/// into a growable vector cannot fail, and every vector has a known length.
#[verifier::external_body]
fn postcard_encode(w: &WireNote) -> (r: Result<Vec<u8>, postcard::Error>)
    ensures
        r is Ok,
        r->Ok_0@ == note_bytes(wire_model(*w)),
{
    postcard::to_stdvec(w)
}

/// Relies on postcard::from_bytes: the result depends on the bytes alone, and bytes that
/// begin with the layout written by postcard::to_stdvec decode to the value written there,
/// whatever follows it.
#[verifier::external_body]
fn postcard_decode(b: &[u8]) -> (r: Result<WireNote, postcard::Error>)
    ensures
        r is Ok <==> postcard_decoded(b@) is Some,
        r is Ok ==> wire_model(r->Ok_0) == postcard_decoded(b@)->Some_0,
        forall|m: NoteModel| encodes(b@, m) ==> (r is Ok && wire_model(r->Ok_0) == m),
{
    postcard::from_bytes::<WireNote>(b)
}

/// Encodes a note's content into the bytes of its file.
pub fn encode_record(rec: &NoteRecord) -> (r: Result<Vec<u8>, NoteError>)
    ensures
        r is Ok,
        r->Ok_0@ == note_bytes(rec@),
{
    let mut items: Vec<(Option<bool>, String)> = Vec::new();
    let mut i: usize = 0;
    while i < rec.todos.len()
        invariant
            i <= rec.todos@.len(),
            items@.len() == i,
            forall|j: int| 0 <= j < i ==> wire_todo_model(#[trigger] items@[j]) == rec.todos@[j]@,
        decreases rec.todos@.len() - i,
    {
        let t = &rec.todos[i];
        items.push((t.done, t.description.clone()));
        i = i + 1;
    }
    let wire: WireNote = (rec.title.clone(), rec.created.clone(), items);
    assert(wire_model(wire).todos =~= rec@.todos);
    match postcard_encode(&wire) {
        Ok(bytes) => Ok(bytes),
        Err(_) => Err(NoteError::SerializationFailure),
    }
}

/// Decodes the bytes of a note's file into its content.
pub fn decode_record(b: &[u8]) -> (r: Result<NoteRecord, NoteError>)
    ensures
        r is Ok <==> postcard_decoded(b@) is Some,
        r is Ok ==> r->Ok_0@ == postcard_decoded(b@)->Some_0,
        r is Err ==> r->Err_0 == NoteError::SerializationFailure,
        forall|m: NoteModel| encodes(b@, m) ==> (r is Ok && r->Ok_0@ == m),
{
    match postcard_decode(b) {
        Ok(wire) => {
            let (title, created, items) = wire;
            let mut todos: Vec<TodoState> = Vec::new();
            let mut i: usize = 0;
            while i < items.len()
                invariant
                    i <= items@.len(),
                    todos@.len() == i,
                    forall|j: int| 0 <= j < i ==> (#[trigger] todos@[j])@ == wire_todo_model(items@[j]),
                decreases items@.len() - i,
            {
                let item = &items[i];
                todos.push(TodoState { done: item.0, description: item.1.clone() });
                i = i + 1;
            }
            let rec = NoteRecord { title, created, todos };
            assert(rec@.todos =~= wire_model((rec.title, rec.created, items)).todos);
            Ok(rec)
        },
        Err(_) => Err(NoteError::SerializationFailure),
    }
}

/// Equal sequences that begin with equal parts go on equally.
proof fn lemma_rest_equal(h1: Seq<u8>, r1: Seq<u8>, h2: Seq<u8>, r2: Seq<u8>)
    requires
        h1 + r1 == h2 + r2,
        h1.len() == h2.len(),
    ensures
        h1 == h2,
        r1 == r2,
{
    let x = h1 + r1;
    assert(h1 =~= x.subrange(0, h1.len() as int));
    assert(h2 =~= (h2 + r2).subrange(0, h2.len() as int));
    assert(r1 =~= x.subrange(h1.len() as int, x.len() as int));
    assert(r2 =~= (h2 + r2).subrange(h2.len() as int, (h2 + r2).len() as int));
}

proof fn lemma_varint_unambiguous(a: nat, b: nat, r1: Seq<u8>, r2: Seq<u8>)
    requires
        varint(a) + r1 == varint(b) + r2,
    ensures
        a == b,
        r1 == r2,
    decreases a,
{
    let x = varint(a) + r1;
    assert(x[0] == varint(a)[0]);
    assert(x[0] == varint(b)[0]);
    if a < 128 {
        if b >= 128 {
            assert(varint(b)[0] == (b % 128 + 128) as u8);
            assert(false);
        }
        lemma_rest_equal(varint(a), r1, varint(b), r2);
    } else {
        if b < 128 {
            assert(varint(a)[0] == (a % 128 + 128) as u8);
            assert(false);
        }
        let ha = seq![(a % 128 + 128) as u8];
        let hb = seq![(b % 128 + 128) as u8];
        assert(x =~= ha + (varint(a / 128) + r1));
        assert(x =~= hb + (varint(b / 128) + r2));
        lemma_rest_equal(ha, varint(a / 128) + r1, hb, varint(b / 128) + r2);
        assert(ha[0] == hb[0]);
        lemma_varint_unambiguous(a / 128, b / 128, r1, r2);
    }
}

proof fn lemma_str_unambiguous(s1: Seq<char>, s2: Seq<char>, r1: Seq<u8>, r2: Seq<u8>)
    requires
        str_bytes(s1) + r1 == str_bytes(s2) + r2,
    ensures
        s1 == s2,
        r1 == r2,
{
    let e1 = encode_utf8(s1);
    let e2 = encode_utf8(s2);
    assert(str_bytes(s1) + r1 =~= varint(e1.len()) + (e1 + r1));
    assert(str_bytes(s2) + r2 =~= varint(e2.len()) + (e2 + r2));
    lemma_varint_unambiguous(e1.len(), e2.len(), e1 + r1, e2 + r2);
    lemma_rest_equal(e1, r1, e2, r2);
    vstd::utf8::encode_utf8_decode_utf8(s1);
    vstd::utf8::encode_utf8_decode_utf8(s2);
}

proof fn lemma_todo_unambiguous(t1: TodoModel, t2: TodoModel, r1: Seq<u8>, r2: Seq<u8>)
    requires
        todo_bytes(t1) + r1 == todo_bytes(t2) + r2,
    ensures
        t1 == t2,
        r1 == r2,
{
    let d1 = done_bytes(t1.done);
    let d2 = done_bytes(t2.done);
    let x = todo_bytes(t1) + r1;
    assert(x =~= d1 + (str_bytes(t1.description) + r1));
    assert(todo_bytes(t2) + r2 =~= d2 + (str_bytes(t2.description) + r2));
    assert(x[0] == d1[0] && x[0] == d2[0]);
    assert(t1.done is Some <==> t2.done is Some);
    if t1.done is Some {
        assert(x[1] == d1[1] && x[1] == d2[1]);
    }
    assert(d1 == d2);
    lemma_rest_equal(d1, str_bytes(t1.description) + r1, d2, str_bytes(t2.description) + r2);
    lemma_str_unambiguous(t1.description, t2.description, r1, r2);
}

proof fn lemma_todo_list_unambiguous(ts1: Seq<TodoModel>, ts2: Seq<TodoModel>, r1: Seq<u8>, r2: Seq<u8>)
    requires
        ts1.len() == ts2.len(),
        todo_list_bytes(ts1) + r1 == todo_list_bytes(ts2) + r2,
    ensures
        ts1 == ts2,
        r1 == r2,
    decreases ts1.len(),
{
    if ts1.len() == 0 {
        assert(todo_list_bytes(ts1) + r1 =~= r1);
        assert(todo_list_bytes(ts2) + r2 =~= r2);
        assert(ts1 =~= ts2);
    } else {
        let rest1 = todo_list_bytes(ts1.drop_first()) + r1;
        let rest2 = todo_list_bytes(ts2.drop_first()) + r2;
        assert(todo_list_bytes(ts1) + r1 =~= todo_bytes(ts1[0]) + rest1);
        assert(todo_list_bytes(ts2) + r2 =~= todo_bytes(ts2[0]) + rest2);
        lemma_todo_unambiguous(ts1[0], ts2[0], rest1, rest2);
        lemma_todo_list_unambiguous(ts1.drop_first(), ts2.drop_first(), r1, r2);
        assert(ts1 =~= seq![ts1[0]] + ts1.drop_first());
        assert(ts2 =~= seq![ts2[0]] + ts2.drop_first());
    }
}

/// The encoding is unambiguous: bytes that begin with the encoding of a note begin with
/// the encoding of no other note, and what follows it is fixed.
pub proof fn lemma_encoding_unambiguous(m1: NoteModel, m2: NoteModel, r1: Seq<u8>, r2: Seq<u8>)
    requires
        note_bytes(m1) + r1 == note_bytes(m2) + r2,
    ensures
        m1 == m2,
        r1 == r2,
{
    let (c1, c2) = (lemma_note_bytes_split(m1, r1), lemma_note_bytes_split(m2, r2));
    lemma_str_unambiguous(m1.title, m2.title, str_bytes(m1.created) + c1, str_bytes(m2.created) + c2);
    lemma_str_unambiguous(m1.created, m2.created, c1, c2);
    lemma_varint_unambiguous(
        m1.todos.len(),
        m2.todos.len(),
        todo_list_bytes(m1.todos) + r1,
        todo_list_bytes(m2.todos) + r2,
    );
    lemma_todo_list_unambiguous(m1.todos, m2.todos, r1, r2);
}

/// Regroups a note's encoding, followed by `r`, field by field.
proof fn lemma_note_bytes_split(m: NoteModel, r: Seq<u8>) -> (c: Seq<u8>)
    ensures
        c == varint(m.todos.len()) + (todo_list_bytes(m.todos) + r),
        note_bytes(m) + r == str_bytes(m.title) + (str_bytes(m.created) + c),
{
    let a = str_bytes(m.title);
    let b = str_bytes(m.created);
    let v = varint(m.todos.len());
    let l = todo_list_bytes(m.todos);
    vstd::seq_lib::lemma_concat_associative(v, l, r);
    vstd::seq_lib::lemma_concat_associative(b, v + l, r);
    vstd::seq_lib::lemma_concat_associative(b, v, l);
    vstd::seq_lib::lemma_concat_associative(a, b + v + l, r);
    vstd::seq_lib::lemma_concat_associative(a, b + v, l);
    vstd::seq_lib::lemma_concat_associative(a, b, v);
    v + (l + r)
}

/// The encoding of a note decodes back to that note, and to no other.
pub proof fn lemma_round_trip(m: NoteModel)
    ensures
        encodes(note_bytes(m), m),
        forall|other: NoteModel| encodes(note_bytes(m), other) ==> other == m,
{
    assert(note_bytes(m) == note_bytes(m) + Seq::<u8>::empty());
    assert forall|other: NoteModel| encodes(note_bytes(m), other) implies other == m by {
        let rest = choose|rest: Seq<u8>| note_bytes(m) == note_bytes(other) + rest;
        lemma_encoding_unambiguous(m, other, Seq::<u8>::empty(), rest);
    }
}

} // verus!
