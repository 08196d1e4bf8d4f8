//! Notes as the app and its backups see them, the rows they are stored as,
//! and the rules that relate them: how a row reads as a note, how a backup
//! note is checked, and how an import merges backup notes into the store.
use vstd::prelude::*;
use crate::clock::opt_view;
use crate::text::{is_blank, is_blank_text};

verus! {

/// What the store holds for one note id: text, creation time, update time,
/// the favorite column as stored, and the reminder time.
pub type StoredNote = (Seq<char>, Seq<char>, Seq<char>, i64, Option<Seq<char>>);

/// A note as the app shows it.
#[derive(Clone, Debug)]
pub struct Note {
    pub id: String,
    pub text: String,
    pub created_at: String,
    pub updated_at: String,
    pub favorite: bool,
    pub remind_at: Option<String>,
}

/// A note as a backup file holds it, with the favorite flag as `0` or `1`.
#[derive(Clone, Debug)]
pub struct BackupNote {
    pub id: String,
    pub text: String,
    pub created_at: String,
    pub updated_at: String,
    pub favorite: i64,
    pub remind_at: Option<String>,
}

/// A row of the notes table, column by column.
#[derive(Clone, Debug)]
pub struct NoteRow {
    pub id: String,
    pub text: String,
    pub created_at: String,
    pub updated_at: String,
    pub favorite: i64,
    pub remind_at: Option<String>,
}

/// What an import did.
#[derive(Clone, Copy, Debug, PartialEq, Eq)]
pub struct ImportResult {
    pub imported: bool,
    pub added: usize,
    pub skipped: usize,
}

/// What an export did.
#[derive(Clone, Debug)]
pub struct ExportResult {
    pub exported: bool,
    pub count: usize,
    pub path: Option<String>,
}

/// The favorite flag as a backup stores it: `0` stays `0`, anything else is `1`.
pub open spec fn backup_favorite(stored: i64) -> i64 {
    if stored == 0 {
        0
    } else {
        1
    }
}

/// The stored form of a row.
pub open spec fn row_fields(r: NoteRow) -> StoredNote {
    (r.text@, r.created_at@, r.updated_at@, r.favorite, opt_view(r.remind_at))
}

/// The stored form of a backup note.
pub open spec fn backup_fields(n: BackupNote) -> StoredNote {
    (n.text@, n.created_at@, n.updated_at@, backup_favorite(n.favorite), opt_view(n.remind_at))
}

/// Whether a note shows what the store holds for an id.
pub open spec fn shows(n: Note, id: Seq<char>, f: StoredNote) -> bool {
    &&& n.id@ == id
    &&& n.text@ == f.0
    &&& n.created_at@ == f.1
    &&& n.updated_at@ == f.2
    &&& n.favorite == (f.3 != 0)
    &&& opt_view(n.remind_at) == f.4
}

/// Whether a backup note carries what the store holds for an id.
pub open spec fn backs_up(n: BackupNote, id: Seq<char>, f: StoredNote) -> bool {
    &&& n.id@ == id
    &&& n.text@ == f.0
    &&& n.created_at@ == f.1
    &&& n.updated_at@ == f.2
    &&& n.favorite == backup_favorite(f.3)
    &&& opt_view(n.remind_at) == f.4
}

/// Whether a sequence of ids names each note of a store exactly once.
pub open spec fn enumerates(ids: Seq<Seq<char>>, m: Map<Seq<char>, StoredNote>) -> bool {
    &&& forall|i: int| 0 <= i < ids.len() ==> m.contains_key(#[trigger] ids[i])
    &&& forall|i: int, j: int| 0 <= i < j < ids.len() ==> #[trigger] ids[i] != #[trigger] ids[j]
    &&& forall|k: Seq<char>| m.contains_key(k) ==> exists|i: int| 0 <= i < ids.len() && #[trigger] ids[i] == k
}

/// The ids of a list of rows.
pub open spec fn row_ids(v: Seq<NoteRow>) -> Seq<Seq<char>> {
    v.map_values(|r: NoteRow| r.id@)
}

/// The ids of a list of notes.
pub open spec fn note_ids(v: Seq<Note>) -> Seq<Seq<char>> {
    v.map_values(|n: Note| n.id@)
}

/// The ids of a list of backup notes.
pub open spec fn backup_ids(v: Seq<BackupNote>) -> Seq<Seq<char>> {
    v.map_values(|n: BackupNote| n.id@)
}

/// Whether a backup note is complete: none of id, text, creation time and
/// update time is blank.
pub open spec fn complete(n: BackupNote) -> bool {
    !is_blank(n.id@) && !is_blank(n.text@) && !is_blank(n.created_at@) && !is_blank(
        n.updated_at@,
    )
}

/// Reads a row as a note: the favorite flag is set when the column is not 0.
pub fn row_to_note(row: NoteRow) -> (n: Note)
    ensures
        shows(n, row.id@, row_fields(row)),
{
    Note {
        id: row.id,
        text: row.text,
        created_at: row.created_at,
        updated_at: row.updated_at,
        favorite: row.favorite != 0,
        remind_at: row.remind_at,
    }
}

/// Reads a row as a backup note: the favorite flag becomes `0` or `1`.
pub fn row_to_backup_note(row: NoteRow) -> (n: BackupNote)
    ensures
        backs_up(n, row.id@, row_fields(row)),
{
    BackupNote {
        id: row.id,
        text: row.text,
        created_at: row.created_at,
        updated_at: row.updated_at,
        favorite: if row.favorite == 0 {
            0
        } else {
            1
        },
        remind_at: row.remind_at,
    }
}

/// The row a backup note is imported as.
pub fn backup_note_to_row(n: &BackupNote) -> (r: NoteRow)
    ensures
        r.id@ == n.id@,
        row_fields(r) == backup_fields(*n),
{
    NoteRow {
        id: n.id.clone(),
        text: n.text.clone(),
        created_at: n.created_at.clone(),
        updated_at: n.updated_at.clone(),
        favorite: if n.favorite == 0 {
            0
        } else {
            1
        },
        remind_at: n.remind_at.clone(),
    }
}

/// Checks the notes of a backup: an error when some note is incomplete.
pub fn validate_backup_notes(notes: &[BackupNote]) -> (r: Result<(), String>)
    ensures
        r is Ok <==> forall|i: int| 0 <= i < notes@.len() ==> complete(#[trigger] notes@[i]),
        r matches Err(e) ==> e@ == "Backup JSON has invalid note data"@,
{
    let mut i: usize = 0;
    while i < notes.len()
        invariant
            i <= notes@.len(),
            forall|k: int| 0 <= k < i ==> complete(#[trigger] notes@[k]),
        decreases notes@.len() - i,
    {
        let note = &notes[i];
        if is_blank_text(note.id.as_str()) || is_blank_text(note.text.as_str()) || is_blank_text(
            note.created_at.as_str(),
        ) || is_blank_text(note.updated_at.as_str()) {
            assert(!complete(notes@[i as int]));
            return Err(crate::text::owned("Backup JSON has invalid note data"));
        }
        i = i + 1;
    }
    Ok(())
}

/// The store after importing backup notes in order: a note is added when no
/// note with its id is there yet, and skipped otherwise.
pub open spec fn merged(m: Map<Seq<char>, StoredNote>, notes: Seq<BackupNote>) -> Map<
    Seq<char>,
    StoredNote,
>
    decreases notes.len(),
{
    if notes.len() == 0 {
        m
    } else {
        let before = merged(m, notes.drop_last());
        let n = notes.last();
        if before.contains_key(n.id@) {
            before
        } else {
            before.insert(n.id@, backup_fields(n))
        }
    }
}

/// How many backup notes an import adds to the store.
pub open spec fn added_count(m: Map<Seq<char>, StoredNote>, notes: Seq<BackupNote>) -> nat
    decreases notes.len(),
{
    if notes.len() == 0 {
        0
    } else {
        let before = merged(m, notes.drop_last());
        let n = notes.last();
        if before.contains_key(n.id@) {
            added_count(m, notes.drop_last())
        } else {
            added_count(m, notes.drop_last()) + 1
        }
    }
}

/// An import adds at most one note per backup note.
pub proof fn lemma_added_at_most_total(m: Map<Seq<char>, StoredNote>, notes: Seq<BackupNote>)
    ensures
        added_count(m, notes) <= notes.len(),
    decreases notes.len(),
{
    if notes.len() > 0 {
        lemma_added_at_most_total(m, notes.drop_last());
    }
}

/// An import keeps every note that was in the store, unchanged, and holds a
/// note for the id of every backup note.
pub proof fn lemma_merge_keeps_and_covers(m: Map<Seq<char>, StoredNote>, notes: Seq<BackupNote>)
    ensures
        forall|k: Seq<char>| #[trigger] m.contains_key(k) ==> merged(m, notes).contains_key(k)
            && merged(m, notes)[k] == m[k],
        forall|i: int| 0 <= i < notes.len() ==> merged(m, notes).contains_key(#[trigger] notes[i].id@),
        forall|k: Seq<char>| #[trigger] merged(m, notes).contains_key(k) ==> m.contains_key(k) || exists|i: int|
            0 <= i < notes.len() && notes[i].id@ == k,
    decreases notes.len(),
{
    if notes.len() > 0 {
        let rest = notes.drop_last();
        lemma_merge_keeps_and_covers(m, rest);
        assert forall|i: int| 0 <= i < notes.len() implies merged(m, notes).contains_key(
            #[trigger] notes[i].id@,
        ) by {
            if i < notes.len() - 1 {
                assert(notes[i] == rest[i]);
            }
        }
        assert forall|k: Seq<char>| #[trigger] merged(m, notes).contains_key(k) implies m.contains_key(k)
            || exists|i: int| 0 <= i < notes.len() && notes[i].id@ == k by {
            if m.contains_key(k) {
            } else if k == notes.last().id@ {
                assert(notes[notes.len() - 1].id@ == k);
            } else {
                assert(merged(m, rest).contains_key(k));
                let i = choose|i: int| 0 <= i < rest.len() && rest[i].id@ == k;
                assert(notes[i] == rest[i]);
            }
        }
    }
}

/// Merging is idempotent: importing the same notes a second time adds nothing
/// and leaves the store as it is.
pub proof fn lemma_import_twice(m: Map<Seq<char>, StoredNote>, notes: Seq<BackupNote>)
    ensures
        merged(merged(m, notes), notes) == merged(m, notes),
        added_count(merged(m, notes), notes) == 0,
{
    lemma_merge_keeps_and_covers(m, notes);
    lemma_merge_nothing_new(merged(m, notes), notes);
}

/// Merging notes whose ids are all in the store already changes nothing.
pub proof fn lemma_merge_nothing_new(m: Map<Seq<char>, StoredNote>, notes: Seq<BackupNote>)
    requires
        forall|i: int| 0 <= i < notes.len() ==> m.contains_key(#[trigger] notes[i].id@),
    ensures
        merged(m, notes) == m,
        added_count(m, notes) == 0,
    decreases notes.len(),
{
    if notes.len() > 0 {
        let rest = notes.drop_last();
        assert forall|i: int| 0 <= i < rest.len() implies m.contains_key(#[trigger] rest[i].id@) by {
            assert(rest[i] == notes[i]);
        }
        lemma_merge_nothing_new(m, rest);
        assert(m.contains_key(notes[notes.len() - 1].id@));
    }
}

/// The ids of backup notes that the store does not hold yet.
pub open spec fn new_ids(m: Map<Seq<char>, StoredNote>, notes: Seq<BackupNote>) -> Set<Seq<char>> {
    backup_ids(notes).to_set().difference(m.dom())
}

/// An import adds one note for each distinct id of the backup notes that the
/// store did not hold, and afterwards holds the ids it held and those of the
/// backup notes.
pub proof fn lemma_added_counts_new_ids(m: Map<Seq<char>, StoredNote>, notes: Seq<BackupNote>)
    ensures
        added_count(m, notes) == new_ids(m, notes).len(),
        merged(m, notes).dom() == m.dom().union(backup_ids(notes).to_set()),
    decreases notes.len(),
{
    if notes.len() == 0 {
        assert(backup_ids(notes).to_set() =~= Set::<Seq<char>>::empty());
        assert(new_ids(m, notes) =~= Set::<Seq<char>>::empty());
        assert(m.dom().union(backup_ids(notes).to_set()) =~= m.dom());
    } else {
        let rest = notes.drop_last();
        let x = notes.last().id@;
        lemma_added_counts_new_ids(m, rest);
        assert(backup_ids(notes) =~= backup_ids(rest).push(x));
        backup_ids(rest).lemma_push_to_set_commute(x);
        vstd::seq_lib::seq_to_set_is_finite(backup_ids(rest));
        let before = merged(m, rest);
        if before.contains_key(x) {
            assert(new_ids(m, notes) =~= new_ids(m, rest));
            assert(merged(m, notes).dom() =~= m.dom().union(backup_ids(notes).to_set()));
        } else {
            assert(new_ids(m, notes) =~= new_ids(m, rest).insert(x));
            assert(!new_ids(m, rest).contains(x));
            assert(merged(m, notes).dom() =~= m.dom().union(backup_ids(notes).to_set()));
        }
    }
}

} // verus!
