//! Notes that are made once each.

use vstd::prelude::*;
use crate::text::{is_among, push_text, texts};

verus! {

/// The notes with one more, unless it was made before.
pub open spec fn noted(notes: Seq<Seq<char>>, note: Seq<char>) -> Seq<Seq<char>> {
    if notes.contains(note) {
        notes
    } else {
        notes.push(note)
    }
}

/// The notes with one more where `when` holds, unless it was made before.
pub open spec fn noted_if(notes: Seq<Seq<char>>, when: bool, note: Seq<char>) -> Seq<Seq<char>> {
    if when {
        noted(notes, note)
    } else {
        notes
    }
}

pub fn push_unique_note(notes: &mut Vec<String>, note: String)
    ensures
        texts(final(notes)@) == noted(texts(old(notes)@), note@),
{
    if !is_among(notes, note.as_str()) {
        push_text(notes, note);
    }
}

/// Makes a note where `when` holds, unless it was made before.
pub fn note_if(notes: &mut Vec<String>, when: bool, note: &str)
    ensures
        texts(final(notes)@) == noted_if(texts(old(notes)@), when, note@),
{
    if when {
        push_unique_note(notes, note.to_owned());
    }
}

/// Making a note keeps every note that was made, and holds the new one.
pub proof fn lemma_noted_keeps(notes: Seq<Seq<char>>, note: Seq<char>)
    ensures
        noted(notes, note).contains(note),
        notes.len() <= noted(notes, note).len(),
        noted(notes, note).take(notes.len() as int) == notes,
        forall|made: Seq<char>| #[trigger] notes.contains(made) ==> noted(notes, note).contains(made),
{
    assert forall|made: Seq<char>| #[trigger] notes.contains(made) implies noted(notes, note).contains(
        made,
    ) by {
        let k = choose|k: int| 0 <= k < notes.len() && notes[k] == made;
        assert(noted(notes, note)[k] == made);
    }
    if !notes.contains(note) {
        assert(noted(notes, note)[notes.len() as int] == note);
    }
    assert(noted(notes, note).take(notes.len() as int) =~= notes);
}

/// Notes of which none was made twice stay so.
pub proof fn lemma_noted_unique(notes: Seq<Seq<char>>, note: Seq<char>)
    requires
        notes.no_duplicates(),
    ensures
        noted(notes, note).no_duplicates(),
{
    if !notes.contains(note) {
        assert forall|i: int, j: int|
            0 <= i < noted(notes, note).len() && 0 <= j < noted(notes, note).len() && i
                != j implies noted(notes, note)[i] != noted(notes, note)[j] by {
            if i < notes.len() && j < notes.len() {
                assert(notes[i] != notes[j]);
            }
        }
    }
}

} // verus!
