//! The operations of the notes store: schema setup and migration, settings
//! lookups and writes, reading, creating, updating and deleting notes,
//! reminders that fall due, and importing backup notes.
use vstd::prelude::*;
use rusqlite::Connection;
use crate::clock::{clock_error_text, now_iso, normalize_remind_at, opt_view, remind_at_form, rfc3339_millis_text};
use crate::db::{
    cleared, pairs_list, due_notes, note_columns, setting_lookup,
    sql_add_reminder_column, sql_all_settings, sql_begin, sql_clear_reminder, sql_commit, sql_create_tables,
    sql_delete_note, sql_due_notes, sql_error_text, sql_get_setting, sql_insert_note,
    sql_insert_note_if_absent, sql_note_by_id, sql_note_columns, sql_notes_by_creation,
    sql_put_setting, sql_rollback, sql_update_note, stored_notes, stored_settings, in_transaction,
    transaction_start_notes, transaction_start_settings,
    failed_statement, rolled_back, same_transaction, unchanged,
};
use crate::notes::{
    added_count, backs_up, backup_ids, backup_note_to_row, complete, enumerates, lemma_added_at_most_total,
    lemma_added_counts_new_ids, new_ids,
    merged, note_ids, row_fields, row_ids, row_to_backup_note, row_to_note, shows, validate_backup_notes,
    BackupNote, ImportResult, Note, NoteRow, StoredNote,
};
use crate::text::{concat, owned, same_text, text_lt, trim_text, trimmed};

verus! {

/// The messages of the library's own errors.
pub open spec fn is_own_message(t: Seq<char>) -> bool {
    ||| t == "Text is required"@
    ||| t == "Reminder must be a valid date"@
    ||| t == "Note not found"@
    ||| t == "Reminder already cleared or note not found"@
    ||| t == "Backup JSON has invalid note data"@
    ||| t == "Launch behavior must be open or background"@
    ||| t == "Note text size must be small, default, or large"@
    ||| t == "Shortcut cannot be empty"@
    ||| t == "System clock could not be read"@
    ||| t == "Could not make a random note id"@
}

/// Whether an error message comes from outside the library's own checks:
/// from SQLite, from the system clock or from the random source.
pub open spec fn outside_failure(e: Seq<char>) -> bool {
    ||| !is_own_message(e)
    ||| e == "System clock could not be read"@
    ||| e == "Could not make a random note id"@
}

/// Whether a text is one of the library's own error messages.
fn is_own_message_text(t: &str) -> (r: bool)
    ensures
        r == is_own_message(t@),
{
    same_text(t, "Text is required") || same_text(t, "Reminder must be a valid date") || same_text(t, "Note not found") || same_text(t, "Reminder already cleared or note not found") || same_text(t, "Backup JSON has invalid note data") || same_text(t, "Launch behavior must be open or background") || same_text(t, "Note text size must be small, default, or large") || same_text(t, "Shortcut cannot be empty") || same_text(t, "System clock could not be read") || same_text(t, "Could not make a random note id")
}

/// The message of a failed SQLite call: rusqlite's own text, with `sqlite: `
/// in front when that text reads like one of the library's own messages, so
/// that the two can always be told apart.
fn store_error(e: &rusqlite::Error) -> (r: String)
    ensures
        !is_own_message(r@),
{
    let t = sql_error_text(e);
    if is_own_message_text(t.as_str()) {
        let r = concat("sqlite: ", t.as_str());
        proof {
            reveal_strlit("sqlite: ");
        reveal_strlit("Text is required");
        reveal_strlit("Reminder must be a valid date");
        reveal_strlit("Note not found");
        reveal_strlit("Reminder already cleared or note not found");
        reveal_strlit("Backup JSON has invalid note data");
        reveal_strlit("Launch behavior must be open or background");
        reveal_strlit("Note text size must be small, default, or large");
        reveal_strlit("Shortcut cannot be empty");
        reveal_strlit("System clock could not be read");
        reveal_strlit("Could not make a random note id");
            assert(r@[0] == 's');
            assert("Text is required"@[0] != 's');
            assert("Reminder must be a valid date"@[0] != 's');
            assert("Note not found"@[0] != 's');
            assert("Reminder already cleared or note not found"@[0] != 's');
            assert("Backup JSON has invalid note data"@[0] != 's');
            assert("Launch behavior must be open or background"@[0] != 's');
            assert("Note text size must be small, default, or large"@[0] != 's');
            assert("Shortcut cannot be empty"@[0] != 's');
            assert("System clock could not be read"@[0] != 's');
            assert("Could not make a random note id"@[0] != 's');
        }
        r
    } else {
        t
    }
}

/// Whether notes show exactly the notes of a map, each once.
pub open spec fn notes_list(v: Seq<Note>, m: Map<Seq<char>, StoredNote>) -> bool {
    &&& enumerates(note_ids(v), m)
    &&& forall|i: int| 0 <= i < v.len() ==> shows(#[trigger] v[i], v[i].id@, m[v[i].id@])
}

/// Whether backup notes carry exactly the notes of a map, each once.
pub open spec fn backups_list(v: Seq<BackupNote>, m: Map<Seq<char>, StoredNote>) -> bool {
    &&& enumerates(backup_ids(v), m)
    &&& forall|i: int| 0 <= i < v.len() ==> backs_up(#[trigger] v[i], v[i].id@, m[v[i].id@])
}

/// Whether notes come in ascending order of creation time.
pub open spec fn notes_by_creation(v: Seq<Note>) -> bool {
    forall|i: int, j: int|
        0 <= i < j < v.len() ==> !text_lt(#[trigger] v[j].created_at@, #[trigger] v[i].created_at@)
}

/// Whether backup notes come in ascending order of creation time.
pub open spec fn backups_by_creation(v: Seq<BackupNote>) -> bool {
    forall|i: int, j: int|
        0 <= i < j < v.len() ==> !text_lt(#[trigger] v[j].created_at@, #[trigger] v[i].created_at@)
}

/// Whether notes come in ascending order of reminder time.
pub open spec fn notes_by_reminder(v: Seq<Note>) -> bool {
    forall|i: int, j: int|
        0 <= i < j < v.len() ==> !text_lt(
            opt_view(#[trigger] v[j].remind_at).unwrap_or(Seq::empty()),
            opt_view(#[trigger] v[i].remind_at).unwrap_or(Seq::empty()),
        )
}

/// The text of a time that `now_iso` can give.
pub open spec fn is_clock_text(t: Seq<char>) -> bool {
    exists|s: i64, n: u32| rfc3339_millis_text(s, n) == Some(t)
}

/// The favorite column for a flag.
pub open spec fn favorite_column(favorite: bool) -> i64 {
    if favorite {
        1
    } else {
        0
    }
}

/// Creates the notes and settings tables when they are missing, and adds the
/// reminder column to a notes table that lacks it. Notes and settings stay
/// as they are; a table that has the column keeps its columns, and the notes
/// of a table that lacked it read with no reminder.
pub fn create_schema(db: &mut Connection) -> (r: Result<(), String>)
    ensures
        r is Err ==> (stored_notes(*final(db)) == stored_notes(*old(db)) && stored_settings(*final(db))
            == stored_settings(*old(db))) || rolled_back(*old(db), *final(db)),
        r matches Err(e) ==> !is_own_message(e@),
        r is Ok ==> note_columns(*final(db)).contains("remind_at"@),
        r is Ok && note_columns(*old(db)).contains("remind_at"@) ==> note_columns(*final(db)) == note_columns(
            *old(db),
        ),
        r is Ok && note_columns(*old(db)).len() > 0 && !note_columns(*old(db)).contains("remind_at"@) ==> forall|
            k: Seq<char>,
        | #[trigger] stored_notes(*final(db)).contains_key(k) ==> stored_notes(*final(db))[k].4 is None,
        r is Ok ==> stored_notes(*final(db)) == stored_notes(*old(db)),
        r is Ok ==> stored_settings(*final(db)) == stored_settings(*old(db)),
{
    match sql_create_tables(db) {
        Ok(()) => {},
        Err(e) => return Err(store_error(&e)),
    }
    let columns = match sql_note_columns(db) {
        Ok(c) => c,
        Err(e) => return Err(store_error(&e)),
    };
    let ghost names = columns@.map_values(|c: String| c@);
    let mut found = false;
    let mut i: usize = 0;
    while i < columns.len() && !found
        invariant
            i <= columns.len(),
            names == columns@.map_values(|c: String| c@),
            found ==> names.contains("remind_at"@),
            !found ==> forall|k: int| 0 <= k < i ==> names[k] != "remind_at"@,
        decreases columns.len() - i,
    {
        if same_text(columns[i].as_str(), "remind_at") {
            assert(names[i as int] == "remind_at"@);
            found = true;
        }
        i = i + 1;
    }
    assert(!found ==> !names.contains("remind_at"@));
    if !found {
        match sql_add_reminder_column(db) {
            Ok(_) => {
                assert(note_columns(*db).last() == "remind_at"@);
                assert(note_columns(*db)[note_columns(*db).len() - 1] == "remind_at"@);
            },
            Err(e) => return Err(store_error(&e)),
        }
    }
    Ok(())
}

/// The stored value of a setting, or none.
pub fn get_setting(db: &Connection, key: &str) -> (r: Result<Option<String>, String>)
    ensures
        r matches Err(e) ==> !is_own_message(e@),
        r matches Ok(v) ==> opt_view(v) == setting_lookup(stored_settings(*db), key@),
{
    match sql_get_setting(db, key) {
        Ok(v) => Ok(v),
        Err(e) => Err(store_error(&e)),
    }
}

/// Stores a setting, replacing any earlier value of the key.
pub fn set_setting(db: &mut Connection, key: &str, value: &str) -> (r: Result<(), String>)
    ensures
        r matches Err(e) ==> !is_own_message(e@),
        r is Ok ==> stored_settings(*final(db)) == stored_settings(*old(db)).insert(key@, value@),
        r is Ok ==> stored_notes(*final(db)) == stored_notes(*old(db)),
        r is Ok ==> note_columns(*final(db)) == note_columns(*old(db)),
        r is Ok ==> same_transaction(*old(db), *final(db)),
        r is Err ==> failed_statement(*old(db), *final(db)),
{
    match sql_put_setting(db, key, value) {
        Ok(_) => Ok(()),
        Err(e) => Err(store_error(&e)),
    }
}

/// A setting written is read back: after storing `value` under `key`, a
/// lookup of `key` gives `value`, and lookups of other keys are unchanged.
pub proof fn lemma_setting_read_after_write(
    m: Map<Seq<char>, Seq<char>>,
    key: Seq<char>,
    value: Seq<char>,
    other: Seq<char>,
)
    ensures
        setting_lookup(m.insert(key, value), key) == Some(value),
        other != key ==> setting_lookup(m.insert(key, value), other) == setting_lookup(m, other),
{
}

/// The note stored under an id, or none.
pub fn select_note(db: &Connection, id: &str) -> (r: Result<Option<Note>, String>)
    ensures
        r matches Err(e) ==> !is_own_message(e@),
        r matches Ok(v) ==> match v {
            Some(n) => stored_notes(*db).contains_key(id@) && shows(n, id@, stored_notes(*db)[id@]),
            None => !stored_notes(*db).contains_key(id@),
        },
{
    match sql_note_by_id(db, id) {
        Ok(Some(row)) => Ok(Some(row_to_note(row))),
        Ok(None) => Ok(None),
        Err(e) => Err(store_error(&e)),
    }
}

fn copy_row(r: &NoteRow) -> (c: NoteRow)
    ensures
        c.id@ == r.id@,
        row_fields(c) == row_fields(*r),
{
    NoteRow {
        id: r.id.clone(),
        text: r.text.clone(),
        created_at: r.created_at.clone(),
        updated_at: r.updated_at.clone(),
        favorite: r.favorite,
        remind_at: r.remind_at.clone(),
    }
}

fn rows_to_notes(rows: Vec<NoteRow>) -> (v: Vec<Note>)
    ensures
        v@.len() == rows@.len(),
        forall|i: int| 0 <= i < v@.len() ==> shows(#[trigger] v@[i], rows@[i].id@, row_fields(rows@[i])),
        note_ids(v@) == row_ids(rows@),
{
    let mut v: Vec<Note> = Vec::new();
    let mut i: usize = 0;
    while i < rows.len()
        invariant
            i <= rows.len(),
            v@.len() == i,
            forall|k: int| 0 <= k < i ==> shows(#[trigger] v@[k], rows@[k].id@, row_fields(rows@[k])),
        decreases rows.len() - i,
    {
        let row = copy_row(&rows[i]);
        v.push(row_to_note(row));
        i = i + 1;
    }
    assert(note_ids(v@) =~= row_ids(rows@));
    v
}

fn rows_to_backup_notes(rows: Vec<NoteRow>) -> (v: Vec<BackupNote>)
    ensures
        v@.len() == rows@.len(),
        forall|i: int| 0 <= i < v@.len() ==> backs_up(#[trigger] v@[i], rows@[i].id@, row_fields(rows@[i])),
        backup_ids(v@) == row_ids(rows@),
{
    let mut v: Vec<BackupNote> = Vec::new();
    let mut i: usize = 0;
    while i < rows.len()
        invariant
            i <= rows.len(),
            v@.len() == i,
            forall|k: int| 0 <= k < i ==> backs_up(#[trigger] v@[k], rows@[k].id@, row_fields(rows@[k])),
        decreases rows.len() - i,
    {
        let row = copy_row(&rows[i]);
        v.push(row_to_backup_note(row));
        i = i + 1;
    }
    assert(backup_ids(v@) =~= row_ids(rows@));
    v
}

/// All notes, oldest first.
pub fn get_notes(db: &Connection) -> (r: Result<Vec<Note>, String>)
    ensures
        r matches Err(e) ==> !is_own_message(e@),
        r matches Ok(v) ==> notes_list(v@, stored_notes(*db)) && notes_by_creation(v@),
{
    match sql_notes_by_creation(db) {
        Ok(rows) => {
            let ghost rs = rows@;
            let v = rows_to_notes(rows);
            proof {
                assert forall|i: int| 0 <= i < v@.len() implies shows(
                    #[trigger] v@[i],
                    v@[i].id@,
                    stored_notes(*db)[v@[i].id@],
                ) by {
                    assert(row_ids(rs)[i] == rs[i].id@);
                    assert(note_ids(v@)[i] == v@[i].id@);
                }
                assert forall|i: int, j: int| 0 <= i < j < v@.len() implies !text_lt(
                    #[trigger] v@[j].created_at@,
                    #[trigger] v@[i].created_at@,
                ) by {
                    assert(!text_lt(rs[j].created_at@, rs[i].created_at@));
                }
            }
            Ok(v)
        },
        Err(e) => Err(store_error(&e)),
    }
}

/// All notes as backup notes, oldest first.
pub fn select_backup_notes(db: &Connection) -> (r: Result<Vec<BackupNote>, String>)
    ensures
        r matches Err(e) ==> !is_own_message(e@),
        r matches Ok(v) ==> backups_list(v@, stored_notes(*db)) && backups_by_creation(v@),
{
    match sql_notes_by_creation(db) {
        Ok(rows) => {
            let ghost rs = rows@;
            let v = rows_to_backup_notes(rows);
            proof {
                assert forall|i: int| 0 <= i < v@.len() implies backs_up(
                    #[trigger] v@[i],
                    v@[i].id@,
                    stored_notes(*db)[v@[i].id@],
                ) by {
                    assert(row_ids(rs)[i] == rs[i].id@);
                    assert(backup_ids(v@)[i] == v@[i].id@);
                }
                assert forall|i: int, j: int| 0 <= i < j < v@.len() implies !text_lt(
                    #[trigger] v@[j].created_at@,
                    #[trigger] v@[i].created_at@,
                ) by {
                    assert(!text_lt(rs[j].created_at@, rs[i].created_at@));
                }
            }
            Ok(v)
        },
        Err(e) => Err(store_error(&e)),
    }
}

/// The notes whose reminder time is not after `now` (compared as text),
/// earliest reminder first.
pub fn select_due_reminder_notes_at(db: &Connection, now: &str) -> (r: Result<Vec<Note>, String>)
    ensures
        r matches Err(e) ==> !is_own_message(e@),
        r matches Ok(v) ==> notes_list(v@, due_notes(stored_notes(*db), now@)) && notes_by_reminder(v@),
{
    match sql_due_notes(db, now) {
        Ok(rows) => {
            let ghost rs = rows@;
            let ghost m = due_notes(stored_notes(*db), now@);
            let v = rows_to_notes(rows);
            proof {
                assert forall|i: int| 0 <= i < v@.len() implies shows(
                    #[trigger] v@[i],
                    v@[i].id@,
                    m[v@[i].id@],
                ) by {
                    assert(row_ids(rs)[i] == rs[i].id@);
                    assert(note_ids(v@)[i] == v@[i].id@);
                }
                assert forall|i: int, j: int| 0 <= i < j < v@.len() implies !text_lt(
                    opt_view(#[trigger] v@[j].remind_at).unwrap_or(Seq::empty()),
                    opt_view(#[trigger] v@[i].remind_at).unwrap_or(Seq::empty()),
                ) by {
                    assert(!text_lt(
                        opt_view(rs[j].remind_at).unwrap_or(Seq::empty()),
                        opt_view(rs[i].remind_at).unwrap_or(Seq::empty()),
                    ));
                }
            }
            Ok(v)
        },
        Err(e) => Err(store_error(&e)),
    }
}

/// The notes whose reminder is due now (see `select_due_reminder_notes_at`).
/// An error, with nothing read, when the system clock has no reading.
pub fn select_due_reminder_notes(db: &Connection) -> (r: Result<Vec<Note>, String>)
    ensures
        r matches Err(e) ==> outside_failure(e@),
        r matches Ok(v) ==> exists|now: Seq<char>|
            is_clock_text(now) && notes_list(v@, due_notes(stored_notes(*db), now)) && notes_by_reminder(v@),
{
    let now = match now_iso() {
        Some(t) => t,
        None => return Err(clock_error_text()),
    };
    let r = select_due_reminder_notes_at(db, now.as_str());
    assert(r matches Ok(v) ==> is_clock_text(now@) && notes_list(v@, due_notes(stored_notes(*db), now@))
        && notes_by_reminder(v@));
    r
}

/// What a reminder clear answers from the number of rows it changed: an
/// error when it changed none.
pub fn reminder_clear_outcome(changed: usize) -> (r: Result<(), String>)
    ensures
        changed == 0 ==> (r matches Err(e) && e@ == "Reminder already cleared or note not found"@),
        changed != 0 ==> r is Ok,
{
    if changed == 0 {
        Err(owned("Reminder already cleared or note not found"))
    } else {
        Ok(())
    }
}

/// What a delete answers from the number of rows it removed: an error when
/// it removed none.
pub fn delete_outcome(changed: usize) -> (r: Result<(), String>)
    ensures
        changed == 0 ==> (r matches Err(e) && e@ == "Note not found"@),
        changed != 0 ==> r is Ok,
{
    if changed == 0 {
        Err(owned("Note not found"))
    } else {
        Ok(())
    }
}

/// Whether `b` is `a` with the reminder of note `id` cleared at some time,
/// and nothing else changed.
pub open spec fn cleared_at_some_time(a: Connection, b: Connection, id: Seq<char>) -> bool {
    &&& stored_notes(a).contains_key(id)
    &&& exists|t: Seq<char>| stored_notes(b) == stored_notes(a).insert(id, cleared(stored_notes(a)[id], t))
    &&& stored_settings(b) == stored_settings(a)
    &&& note_columns(b) == note_columns(a)
    &&& same_transaction(a, b)
}

/// Clears the reminder of a note, recording `updated_at` as its update time,
/// and gives the note back. An error when no note has the id or the note has
/// no reminder (see `reminder_clear_outcome`), in which case nothing changes;
/// a failed statement is a failed statement, and a failure to read the note
/// back leaves the reminder cleared.
pub fn clear_note_reminder_at(db: &mut Connection, id: &str, updated_at: &str) -> (r: Result<Note, String>)
    ensures
        !(stored_notes(*old(db)).contains_key(id@) && stored_notes(*old(db))[id@].4 is Some) ==> (r matches Err(e) && (e@
            == "Reminder already cleared or note not found"@ || !is_own_message(e@))),
        stored_notes(*old(db)).contains_key(id@) && stored_notes(*old(db))[id@].4 is Some ==> r is Ok || (r matches Err(
            e,
        ) && !is_own_message(e@)),
        !(stored_notes(*old(db)).contains_key(id@) && stored_notes(*old(db))[id@].4 is Some) ==> r is Err
            && failed_statement(*old(db), *final(db)),
        r is Err ==> failed_statement(*old(db), *final(db)) || cleared_at_some_time(*old(db), *final(db), id@),
        r matches Ok(n) ==> {
            &&& stored_notes(*old(db)).contains_key(id@)
            &&& stored_notes(*final(db)) == stored_notes(*old(db)).insert(
                id@,
                cleared(stored_notes(*old(db))[id@], updated_at@),
            )
            &&& shows(n, id@, stored_notes(*final(db))[id@])
            &&& stored_settings(*final(db)) == stored_settings(*old(db))
            &&& note_columns(*final(db)) == note_columns(*old(db))
            &&& same_transaction(*old(db), *final(db))
        },
{
    let ghost before = *db;
    let changed = match sql_clear_reminder(db, id, updated_at) {
        Ok(n) => n,
        Err(e) => return Err(store_error(&e)),
    };
    match reminder_clear_outcome(changed) {
        Ok(()) => {},
        Err(e) => return Err(e),
    }
    assert(stored_notes(*db) == stored_notes(before).insert(id@, cleared(stored_notes(before)[id@], updated_at@)));
    match select_note(db, id) {
        Ok(Some(n)) => Ok(n),
        Ok(None) => Err(owned("Note not found")),
        Err(e) => Err(e),
    }
}

/// Clears the reminder of a note now (see `clear_note_reminder_at`). An
/// error, with nothing changed, when the system clock has no reading.
pub fn clear_note_reminder(db: &mut Connection, id: &str) -> (r: Result<Note, String>)
    ensures
        !(stored_notes(*old(db)).contains_key(id@) && stored_notes(*old(db))[id@].4 is Some) ==> (r matches Err(e) && (e@
            == "Reminder already cleared or note not found"@ || outside_failure(e@))),
        stored_notes(*old(db)).contains_key(id@) && stored_notes(*old(db))[id@].4 is Some ==> r is Ok || (r matches Err(
            e,
        ) && outside_failure(e@)),
        !(stored_notes(*old(db)).contains_key(id@) && stored_notes(*old(db))[id@].4 is Some) ==> r is Err
            && failed_statement(*old(db), *final(db)),
        r is Err ==> failed_statement(*old(db), *final(db)) || cleared_at_some_time(*old(db), *final(db), id@),
        r matches Ok(n) ==> {
            &&& stored_notes(*old(db)).contains_key(id@)
            &&& is_clock_text(n.updated_at@)
            &&& stored_notes(*final(db)) == stored_notes(*old(db)).insert(
                id@,
                cleared(stored_notes(*old(db))[id@], n.updated_at@),
            )
            &&& shows(n, id@, stored_notes(*final(db))[id@])
            &&& stored_settings(*final(db)) == stored_settings(*old(db))
            &&& note_columns(*final(db)) == note_columns(*old(db))
            &&& same_transaction(*old(db), *final(db))
        },
{
    let now = match now_iso() {
        Some(t) => t,
        None => return Err(clock_error_text()),
    };
    clear_note_reminder_at(db, id, now.as_str())
}

/// Deletes a note. An error when no note has the id (see `delete_outcome`),
/// in which case nothing changes; a failed statement is a failed statement.
pub fn delete_note_by_id(db: &mut Connection, id: &str) -> (r: Result<(), String>)
    ensures
        !stored_notes(*old(db)).contains_key(id@) ==> (r matches Err(e) && (e@ == "Note not found"@ || !is_own_message(
            e@,
        ))),
        stored_notes(*old(db)).contains_key(id@) ==> r is Ok || (r matches Err(e) && !is_own_message(e@)),
        !stored_notes(*old(db)).contains_key(id@) ==> r is Err,
        r is Err ==> failed_statement(*old(db), *final(db)),
        r is Ok ==> stored_notes(*old(db)).contains_key(id@),
        r is Ok ==> stored_notes(*final(db)) == stored_notes(*old(db)).remove(id@),
        r is Ok ==> stored_settings(*final(db)) == stored_settings(*old(db)),
        r is Ok ==> note_columns(*final(db)) == note_columns(*old(db)),
        r is Ok ==> same_transaction(*old(db), *final(db)),
{
    let changed = match sql_delete_note(db, id) {
        Ok(n) => n,
        Err(e) => return Err(store_error(&e)),
    };
    delete_outcome(changed)
}

/// Calls `getrandom::fill` on a buffer of 16 bytes. Nothing is claimed of the
/// bytes: they are random, and `None` comes back when the operating system's
/// random source fails.
#[verifier::external_body]
fn random_bytes() -> Option<[u8; 16]> {
    let mut bytes = [0u8; 16];
    match getrandom::fill(&mut bytes) {
        Ok(()) => Some(bytes),
        Err(_) => None,
    }
}

/// Whether a character is a lowercase hexadecimal digit.
pub open spec fn is_lower_hex(c: char) -> bool {
    ('0' <= c <= '9') || ('a' <= c <= 'f')
}

/// Whether a text has the hyphenated form of a UUID: 36 characters, hyphens
/// at 8, 13, 18 and 23, lowercase hexadecimal digits elsewhere.
pub open spec fn is_uuid_text(t: Seq<char>) -> bool {
    &&& t.len() == 36
    &&& forall|i: int|
        0 <= i < 36 ==> if i == 8 || i == 13 || i == 18 || i == 23 {
            #[trigger] t[i] == '-'
        } else {
            is_lower_hex(t[i])
        }
}

/// The lowercase hexadecimal digit of a value below 16.
pub open spec fn hex_digit(v: int) -> char {
    seq!['0', '1', '2', '3', '4', '5', '6', '7', '8', '9', 'a', 'b', 'c', 'd', 'e', 'f'][v]
}

/// The bytes of a version 4 UUID made from sixteen random bytes, as
/// `Builder::from_random_bytes` sets them: version 4 in the high half of
/// byte 6, and the variant bits `10` at the top of byte 8.
pub open spec fn v4_bytes(b: Seq<u8>) -> Seq<u8> {
    b.update(6, (b[6] & 0x0f) | 0x40).update(8, (b[8] & 0x3f) | 0x80)
}

/// The hyphenated lowercase text of sixteen bytes: two hexadecimal digits
/// per byte, high half first, with hyphens after the 4th, 6th, 8th and 10th
/// byte.
pub open spec fn hyphenated(b: Seq<u8>) -> Seq<char> {
    Seq::new(
        36,
        |i: int|
            if i == 8 || i == 13 || i == 18 || i == 23 {
                '-'
            } else {
                let k = i - (if i < 8 {
                    0int
                } else if i < 13 {
                    1
                } else if i < 18 {
                    2
                } else if i < 23 {
                    3
                } else {
                    4
                });
                if k % 2 == 0 {
                    hex_digit((b[k / 2] / 16) as int)
                } else {
                    hex_digit((b[k / 2] % 16) as int)
                }
            },
    )
}

/// The text of a version 4 UUID has the hyphenated form, with the version
/// digit `4` at 14 and a variant digit `8`, `9`, `a` or `b` at 19.
proof fn lemma_v4_text_form(b: Seq<u8>)
    requires
        b.len() == 16,
    ensures
        is_uuid_text(hyphenated(v4_bytes(b))),
        hyphenated(v4_bytes(b))[14] == '4',
        ({
            let c = hyphenated(v4_bytes(b))[19];
            c == '8' || c == '9' || c == 'a' || c == 'b'
        }),
{
    let t = hyphenated(v4_bytes(b));
    let v = v4_bytes(b);
    assert forall|i: int| 0 <= i < 36 implies if i == 8 || i == 13 || i == 18 || i == 23 {
        #[trigger] t[i] == '-'
    } else {
        is_lower_hex(t[i])
    } by {
        if !(i == 8 || i == 13 || i == 18 || i == 23) {
            let k = i - (if i < 8 {
                0int
            } else if i < 13 {
                1
            } else if i < 18 {
                2
            } else if i < 23 {
                3
            } else {
                4
            });
            let d = if k % 2 == 0 {
                v[k / 2] / 16
            } else {
                v[k / 2] % 16
            };
            assert(0 <= d < 16);
            assert(t[i] == hex_digit(d as int));
        }
    }
    let x = b[6];
    let y = b[8];
    assert(((x & 0x0f) | 0x40) / 16 == 4) by (bit_vector);
    assert(8 <= ((y & 0x3f) | 0x80) / 16 <= 11) by (bit_vector);
    assert(t[14] == hex_digit((v[6] / 16) as int));
    assert(t[19] == hex_digit((v[8] / 16) as int));
}

/// Calls `uuid::Builder::from_random_bytes`, `Builder::into_uuid` and
/// `ToString::to_string` on the id. The contract claims the text that uuid's
/// `Display` writes (`fmt::LowerHex`, hyphenated): `hyphenated` of the bytes
/// with the version and variant set as `from_random_bytes` sets them.
#[verifier::external_body]
fn uuid_text(bytes: [u8; 16]) -> (r: String)
    ensures
        r@ == hyphenated(v4_bytes(bytes@)),
{
    uuid::Builder::from_random_bytes(bytes).into_uuid().to_string()
}

/// A new random note id in the hyphenated form of a version 4 UUID, or
/// `None` when the random source fails.
pub fn new_note_id() -> (r: Option<String>)
    ensures
        r matches Some(t) ==> is_uuid_text(t@) && t@[14] == '4',
        r matches Some(t) ==> exists|b: Seq<u8>| b.len() == 16 && t@ == hyphenated(v4_bytes(b)),
{
    match random_bytes() {
        Some(bytes) => {
            proof {
                lemma_v4_text_form(bytes@);
            }
            Some(uuid_text(bytes))
        },
        None => None,
    }
}

/// The stored form of a new note.
pub open spec fn new_note_fields(text: Seq<char>, now: Seq<char>, favorite: bool, remind_at: Option<Seq<char>>) -> StoredNote {
    (text, now, now, favorite_column(favorite), remind_at)
}

/// Creates a note under the given id with the given creation time: the text
/// is trimmed and must not be blank, the favorite flag defaults to unset, and
/// the reminder time is normalized (see `remind_at_form`).
pub fn create_note_with(
    db: &mut Connection,
    id: &str,
    now: &str,
    text: &str,
    favorite: Option<bool>,
    remind_at: Option<String>,
) -> (r: Result<Note, String>)
    ensures
        trimmed(text@).len() > 0 && remind_at_form(opt_view(remind_at)) is Ok ==> r is Ok || (r matches Err(e)
            && !is_own_message(e@)),
        trimmed(text@).len() == 0 ==> (r matches Err(e) && e@ == "Text is required"@),
        trimmed(text@).len() == 0 ==> *final(db) == *old(db),
        trimmed(text@).len() > 0 && remind_at_form(opt_view(remind_at)) is Err ==> (r matches Err(e) && Err::<
            Option<Seq<char>>,
            Seq<char>,
        >(e@) == remind_at_form(opt_view(remind_at))),
        remind_at_form(opt_view(remind_at)) is Err ==> *final(db) == *old(db),
        stored_notes(*old(db)).contains_key(id@) ==> r is Err && failed_statement(*old(db), *final(db)),
        r matches Ok(n) ==> {
            &&& trimmed(text@).len() > 0
            &&& remind_at_form(opt_view(remind_at)) matches Ok(rv)
            &&& !stored_notes(*old(db)).contains_key(id@)
            &&& stored_notes(*final(db)) == stored_notes(*old(db)).insert(
                id@,
                new_note_fields(trimmed(text@), now@, favorite.unwrap_or(false), rv),
            )
            &&& shows(n, id@, stored_notes(*final(db))[id@])
            &&& stored_settings(*final(db)) == stored_settings(*old(db))
        },
{
    let text = trim_text(text);
    if text.as_str().unicode_len() == 0 {
        return Err(owned("Text is required"));
    }
    let favorite = match favorite {
        Some(f) => f,
        None => false,
    };
    let remind_at = match normalize_remind_at(remind_at) {
        Ok(v) => v,
        Err(e) => return Err(e),
    };
    let row = NoteRow {
        id: owned(id),
        text,
        created_at: owned(now),
        updated_at: owned(now),
        favorite: if favorite {
            1
        } else {
            0
        },
        remind_at,
    };
    match sql_insert_note(db, &row) {
        Ok(_) => {},
        Err(e) => return Err(store_error(&e)),
    }
    match select_note(db, id) {
        Ok(Some(n)) => Ok(n),
        Ok(None) => Err(owned("Note not found")),
        Err(e) => Err(e),
    }
}

/// Creates a note with a new random id, created now (see
/// `create_note_with`). The text and the reminder are checked first; an
/// error, with nothing changed, when the system clock has no reading or no
/// random id can be made.
pub fn create_note(
    db: &mut Connection,
    text: &str,
    favorite: Option<bool>,
    remind_at: Option<String>,
) -> (r: Result<Note, String>)
    ensures
        trimmed(text@).len() > 0 && remind_at_form(opt_view(remind_at)) is Ok ==> r is Ok || (r matches Err(e)
            && outside_failure(e@)),
        trimmed(text@).len() == 0 ==> (r matches Err(e) && e@ == "Text is required"@),
        trimmed(text@).len() == 0 ==> *final(db) == *old(db),
        trimmed(text@).len() > 0 && remind_at_form(opt_view(remind_at)) is Err ==> (r matches Err(e) && Err::<
            Option<Seq<char>>,
            Seq<char>,
        >(e@) == remind_at_form(opt_view(remind_at))),
        remind_at_form(opt_view(remind_at)) is Err ==> *final(db) == *old(db),
        r matches Ok(n) ==> {
            &&& trimmed(text@).len() > 0
            &&& remind_at_form(opt_view(remind_at)) matches Ok(rv)
            &&& is_clock_text(n.created_at@)
            &&& is_uuid_text(n.id@)
            &&& !stored_notes(*old(db)).contains_key(n.id@)
            &&& stored_notes(*final(db)) == stored_notes(*old(db)).insert(
                n.id@,
                new_note_fields(trimmed(text@), n.created_at@, favorite.unwrap_or(false), rv),
            )
            &&& shows(n, n.id@, stored_notes(*final(db))[n.id@])
            &&& stored_settings(*final(db)) == stored_settings(*old(db))
        },
{
    if crate::text::is_blank_text(text) {
        return Err(owned("Text is required"));
    }
    let requested = match &remind_at {
        Some(v) => Some(owned(v.as_str())),
        None => None,
    };
    assert(opt_view(requested) == opt_view(remind_at));
    if let Err(e) = normalize_remind_at(requested) {
        return Err(e);
    }
    let now = match now_iso() {
        Some(t) => t,
        None => return Err(clock_error_text()),
    };
    let id = match new_note_id() {
        Some(t) => t,
        None => return Err(owned("Could not make a random note id")),
    };
    create_note_with(db, id.as_str(), now.as_str(), text, favorite, remind_at)
}

/// What an update asks for and what the note holds decide the stored note:
/// the text (the given one or the current one) trimmed, the favorite flag
/// (given or current), the reminder (none when cleared; otherwise the given
/// one normalized, or the current one when none is given) and the update time.
pub open spec fn updated_fields(
    current: StoredNote,
    now: Seq<char>,
    text: Option<Seq<char>>,
    favorite: Option<bool>,
    remind: Option<Seq<char>>,
    clear: bool,
) -> StoredNote {
    (
        trimmed(text.unwrap_or(current.0)),
        current.1,
        now,
        favorite_column(favorite.unwrap_or(current.3 != 0)),
        remind,
    )
}

/// The reminder an update leaves: none when cleared; otherwise the given one
/// normalized, or the current one when none is given.
pub open spec fn updated_reminder(current: Option<Seq<char>>, form: Option<Seq<char>>, clear: bool) -> Option<Seq<char>> {
    if clear {
        None
    } else {
        match form {
            Some(v) => Some(v),
            None => current,
        }
    }
}

/// The reminder an update leaves, case by case: clearing removes it; a given
/// reminder replaces the current one, whatever it was; only when none is
/// given does the current one stay.
pub proof fn law_update_reminder(current: Option<Seq<char>>, given: Seq<char>)
    ensures
        updated_reminder(current, Some(given), true) is None,
        updated_reminder(current, None, true) is None,
        updated_reminder(current, Some(given), false) == Some(given),
        updated_reminder(current, None, false) == current,
{
}

/// What an update stores: the text, the favorite flag and the reminder.
pub struct UpdatePlan {
    pub text: String,
    pub favorite: bool,
    pub remind_at: Option<String>,
}

/// The reminder an update leaves, from the request: none when cleared; the
/// given one normalized (see `remind_at_form`) when it is valid.
pub open spec fn requested_reminder(remind_at: Option<String>, clear: bool) -> Option<Seq<char>> {
    if clear {
        None
    } else {
        remind_at_form(opt_view(remind_at))->Ok_0
    }
}

/// Whether a plan is what an update asks of a note as it is now.
pub open spec fn plans(
    p: UpdatePlan,
    current: Note,
    text: Option<String>,
    favorite: Option<bool>,
    remind_at: Option<String>,
    clear: bool,
) -> bool {
    &&& p.text@ == trimmed(opt_view(text).unwrap_or(current.text@))
    &&& p.favorite == favorite.unwrap_or(current.favorite)
    &&& opt_view(p.remind_at) == updated_reminder(
        opt_view(current.remind_at),
        requested_reminder(remind_at, clear),
        clear,
    )
}

/// Works out an update from the note as it is now (`None` when no note has
/// the id). The errors, checked in this order: `Note not found` without a
/// note, `Text is required` when the resulting text is blank, and the
/// reminder error when the reminder is not cleared and the given one is
/// invalid.
pub fn plan_update(
    current: Option<Note>,
    text: Option<String>,
    favorite: Option<bool>,
    remind_at: Option<String>,
    clear_reminder: Option<bool>,
) -> (r: Result<UpdatePlan, String>)
    ensures
        r matches Ok(p) ==> (clear_reminder.unwrap_or(false) ==> p.remind_at is None),
        r matches Ok(p) ==> !clear_reminder.unwrap_or(false) ==> match remind_at_form(opt_view(remind_at)) {
            Ok(Some(v)) => opt_view(p.remind_at) == Some(v),
            Ok(None) => current matches Some(n) && p.remind_at == n.remind_at,
            Err(_) => false,
        },
        current matches Some(n) && trimmed(opt_view(text).unwrap_or(n.text@)).len() > 0 && (clear_reminder.unwrap_or(
            false,
        ) || remind_at_form(opt_view(remind_at)) is Ok) ==> r is Ok,
        current is None ==> (r matches Err(e) && e@ == "Note not found"@),
        current matches Some(n) && trimmed(opt_view(text).unwrap_or(n.text@)).len() == 0 ==> (r matches Err(
            e,
        ) && e@ == "Text is required"@),
        current matches Some(n) && trimmed(opt_view(text).unwrap_or(n.text@)).len() > 0
            && !clear_reminder.unwrap_or(false) && remind_at_form(opt_view(remind_at)) is Err ==> (r matches Err(
            e,
        ) && Err::<Option<Seq<char>>, Seq<char>>(e@) == remind_at_form(opt_view(remind_at))),
        r matches Ok(p) ==> {
            &&& current matches Some(n)
            &&& trimmed(opt_view(text).unwrap_or(n.text@)).len() > 0
            &&& (clear_reminder.unwrap_or(false) || remind_at_form(opt_view(remind_at)) is Ok)
            &&& plans(p, n, text, favorite, remind_at, clear_reminder.unwrap_or(false))
        },
{
    let current = match current {
        Some(n) => n,
        None => return Err(owned("Note not found")),
    };
    let source = match text {
        Some(t) => t,
        None => current.text,
    };
    let next_text = trim_text(source.as_str());
    if next_text.as_str().unicode_len() == 0 {
        return Err(owned("Text is required"));
    }
    let next_favorite = match favorite {
        Some(f) => f,
        None => current.favorite,
    };
    let clear = match clear_reminder {
        Some(c) => c,
        None => false,
    };
    let next_remind_at = if clear {
        None
    } else {
        match normalize_remind_at(remind_at) {
            Ok(Some(v)) => Some(v),
            Ok(None) => current.remind_at,
            Err(e) => return Err(e),
        }
    };
    Ok(UpdatePlan { text: next_text, favorite: next_favorite, remind_at: next_remind_at })
}

/// Stores a planned update of a note with `now` as its update time and reads
/// the note back.
fn apply_update(db: &mut Connection, id: &str, plan: UpdatePlan, now: &str) -> (r: Result<Note, String>)
    ensures
        stored_notes(*old(db)).contains_key(id@) ==> r is Ok || (r matches Err(e) && !is_own_message(e@)),
        r matches Ok(n) ==> {
            &&& stored_notes(*old(db)).contains_key(id@)
            &&& stored_notes(*final(db)) == stored_notes(*old(db)).insert(
                id@,
                (
                    plan.text@,
                    stored_notes(*old(db))[id@].1,
                    now@,
                    favorite_column(plan.favorite),
                    opt_view(plan.remind_at),
                ),
            )
            &&& shows(n, id@, stored_notes(*final(db))[id@])
            &&& stored_settings(*final(db)) == stored_settings(*old(db))
        },
{
    match sql_update_note(
        db,
        id,
        plan.text.as_str(),
        if plan.favorite {
            1
        } else {
            0
        },
        &plan.remind_at,
        now,
    ) {
        Ok(_) => {},
        Err(e) => return Err(store_error(&e)),
    }
    match select_note(db, id) {
        Ok(Some(n)) => Ok(n),
        Ok(None) => Err(owned("Note not found")),
        Err(e) => Err(e),
    }
}

/// The stored note an update leaves (see `updated_fields`).
pub open spec fn update_result(
    m: Map<Seq<char>, StoredNote>,
    id: Seq<char>,
    now: Seq<char>,
    text: Option<String>,
    favorite: Option<bool>,
    remind_at: Option<String>,
    clear: bool,
) -> StoredNote {
    updated_fields(
        m[id],
        now,
        opt_view(text),
        favorite,
        updated_reminder(m[id].4, requested_reminder(remind_at, clear), clear),
        clear,
    )
}

proof fn lemma_plan_stores(
    p: UpdatePlan,
    n: Note,
    f: StoredNote,
    id: Seq<char>,
    now: Seq<char>,
    text: Option<String>,
    favorite: Option<bool>,
    remind_at: Option<String>,
    clear: bool,
)
    requires
        shows(n, id, f),
        plans(p, n, text, favorite, remind_at, clear),
    ensures
        (p.text@, f.1, now, favorite_column(p.favorite), opt_view(p.remind_at)) == updated_fields(
            f,
            now,
            opt_view(text),
            favorite,
            updated_reminder(f.4, requested_reminder(remind_at, clear), clear),
            clear,
        ),
{
}

/// Whether an update asks for something `plan_update` accepts: the note
/// exists, the resulting text is not blank, and the reminder is cleared or
/// valid.
pub open spec fn update_is_valid(
    m: Map<Seq<char>, StoredNote>,
    id: Seq<char>,
    text: Option<String>,
    remind_at: Option<String>,
    clear: bool,
) -> bool {
    &&& m.contains_key(id)
    &&& trimmed(opt_view(text).unwrap_or(m[id].0)).len() > 0
    &&& (clear || remind_at_form(opt_view(remind_at)) is Ok)
}

/// Updates a note, recording `now` as its update time, and gives the note
/// back (see `updated_fields`). The errors of `plan_update` change nothing.
pub fn update_note_at(
    db: &mut Connection,
    now: &str,
    id: &str,
    text: Option<String>,
    favorite: Option<bool>,
    remind_at: Option<String>,
    clear_reminder: Option<bool>,
) -> (r: Result<Note, String>)
    ensures
        r matches Ok(n) ==> (clear_reminder.unwrap_or(false) ==> n.remind_at is None && stored_notes(*final(db))[id@].4 is None),
        r matches Ok(n) ==> !clear_reminder.unwrap_or(false) ==> match remind_at_form(opt_view(remind_at)) {
            Ok(Some(v)) => opt_view(n.remind_at) == Some(v) && stored_notes(*final(db))[id@].4 == Some(v),
            Ok(None) => stored_notes(*final(db))[id@].4 == stored_notes(*old(db))[id@].4,
            Err(_) => false,
        },
        !stored_notes(*old(db)).contains_key(id@) ==> (r matches Err(e) && (e@ == "Note not found"@ || !is_own_message(
            e@,
        ))),
        stored_notes(*old(db)).contains_key(id@) && trimmed(
            opt_view(text).unwrap_or(stored_notes(*old(db))[id@].0),
        ).len() == 0 ==> (r matches Err(e) && (e@ == "Text is required"@ || !is_own_message(e@))),
        stored_notes(*old(db)).contains_key(id@) && trimmed(
            opt_view(text).unwrap_or(stored_notes(*old(db))[id@].0),
        ).len() > 0 && !clear_reminder.unwrap_or(false) && remind_at_form(opt_view(remind_at)) is Err ==> (r matches Err(
            e,
        ) && (Err::<Option<Seq<char>>, Seq<char>>(e@) == remind_at_form(opt_view(remind_at)) || !is_own_message(e@))),
        update_is_valid(stored_notes(*old(db)), id@, text, remind_at, clear_reminder.unwrap_or(false)) ==> r is Ok
            || (r matches Err(e) && !is_own_message(e@)),
        !stored_notes(*old(db)).contains_key(id@) ==> r is Err && *final(db) == *old(db),
        stored_notes(*old(db)).contains_key(id@) && trimmed(
            opt_view(text).unwrap_or(stored_notes(*old(db))[id@].0),
        ).len() == 0 ==> r is Err && *final(db) == *old(db),
        !clear_reminder.unwrap_or(false) && remind_at_form(opt_view(remind_at)) is Err ==> r is Err
            && *final(db) == *old(db),
        r matches Ok(n) ==> {
            let m = stored_notes(*old(db));
            let clear = clear_reminder.unwrap_or(false);
            &&& m.contains_key(id@)
            &&& trimmed(opt_view(text).unwrap_or(m[id@].0)).len() > 0
            &&& (clear || remind_at_form(opt_view(remind_at)) is Ok)
            &&& stored_notes(*final(db)) == m.insert(
                id@,
                update_result(m, id@, now@, text, favorite, remind_at, clear),
            )
            &&& shows(n, id@, stored_notes(*final(db))[id@])
            &&& stored_settings(*final(db)) == stored_settings(*old(db))
        },
{
    let ghost m = stored_notes(*db);
    let ghost clear = clear_reminder.unwrap_or(false);
    let current = match select_note(db, id) {
        Ok(c) => c,
        Err(e) => return Err(e),
    };
    let ghost cur = current;
    let plan = match plan_update(current, text, favorite, remind_at, clear_reminder) {
        Ok(p) => p,
        Err(e) => return Err(e),
    };
    proof {
        let n = cur->Some_0;
        lemma_plan_stores(plan, n, m[id@], id@, now@, text, favorite, remind_at, clear);
    }
    apply_update(db, id, plan, now)
}

/// Updates a note now (see `update_note_at`). The note is read and the
/// update checked before the clock; an error, with nothing changed, when the
/// system clock has no reading.
pub fn update_note(
    db: &mut Connection,
    id: &str,
    text: Option<String>,
    favorite: Option<bool>,
    remind_at: Option<String>,
    clear_reminder: Option<bool>,
) -> (r: Result<Note, String>)
    ensures
        r matches Ok(n) ==> (clear_reminder.unwrap_or(false) ==> n.remind_at is None && stored_notes(*final(db))[id@].4 is None),
        r matches Ok(n) ==> !clear_reminder.unwrap_or(false) ==> match remind_at_form(opt_view(remind_at)) {
            Ok(Some(v)) => opt_view(n.remind_at) == Some(v) && stored_notes(*final(db))[id@].4 == Some(v),
            Ok(None) => stored_notes(*final(db))[id@].4 == stored_notes(*old(db))[id@].4,
            Err(_) => false,
        },
        !stored_notes(*old(db)).contains_key(id@) ==> (r matches Err(e) && (e@ == "Note not found"@ || !is_own_message(
            e@,
        ))),
        stored_notes(*old(db)).contains_key(id@) && trimmed(
            opt_view(text).unwrap_or(stored_notes(*old(db))[id@].0),
        ).len() == 0 ==> (r matches Err(e) && (e@ == "Text is required"@ || !is_own_message(e@))),
        stored_notes(*old(db)).contains_key(id@) && trimmed(
            opt_view(text).unwrap_or(stored_notes(*old(db))[id@].0),
        ).len() > 0 && !clear_reminder.unwrap_or(false) && remind_at_form(opt_view(remind_at)) is Err ==> (r matches Err(
            e,
        ) && (Err::<Option<Seq<char>>, Seq<char>>(e@) == remind_at_form(opt_view(remind_at)) || !is_own_message(e@))),
        update_is_valid(stored_notes(*old(db)), id@, text, remind_at, clear_reminder.unwrap_or(false)) ==> r is Ok
            || (r matches Err(e) && outside_failure(e@)),
        !stored_notes(*old(db)).contains_key(id@) ==> r is Err && *final(db) == *old(db),
        stored_notes(*old(db)).contains_key(id@) && trimmed(
            opt_view(text).unwrap_or(stored_notes(*old(db))[id@].0),
        ).len() == 0 ==> r is Err && *final(db) == *old(db),
        !clear_reminder.unwrap_or(false) && remind_at_form(opt_view(remind_at)) is Err ==> r is Err
            && *final(db) == *old(db),
        r matches Ok(n) ==> {
            let m = stored_notes(*old(db));
            let clear = clear_reminder.unwrap_or(false);
            &&& m.contains_key(id@)
            &&& is_clock_text(n.updated_at@)
            &&& trimmed(opt_view(text).unwrap_or(m[id@].0)).len() > 0
            &&& (clear || remind_at_form(opt_view(remind_at)) is Ok)
            &&& stored_notes(*final(db)) == m.insert(
                id@,
                update_result(m, id@, n.updated_at@, text, favorite, remind_at, clear),
            )
            &&& shows(n, id@, stored_notes(*final(db))[id@])
            &&& stored_settings(*final(db)) == stored_settings(*old(db))
        },
{
    let ghost m = stored_notes(*db);
    let ghost clear = clear_reminder.unwrap_or(false);
    let current = match select_note(db, id) {
        Ok(c) => c,
        Err(e) => return Err(e),
    };
    let ghost cur = current;
    let plan = match plan_update(current, text, favorite, remind_at, clear_reminder) {
        Ok(p) => p,
        Err(e) => return Err(e),
    };
    let now = match now_iso() {
        Some(t) => t,
        None => return Err(clock_error_text()),
    };
    proof {
        let n = cur->Some_0;
        lemma_plan_stores(plan, n, m[id@], id@, now@, text, favorite, remind_at, clear);
    }
    apply_update(db, id, plan, now.as_str())
}

/// Imports backup notes in one transaction: every note must be complete;
/// a note is added when no note with its id is stored yet and skipped
/// otherwise. The result counts what was added and skipped. On an error the
/// transaction is rolled back, so the notes and settings are those from
/// before the call, unless the rollback itself failed and left the
/// transaction open.
pub fn import_backup_notes(db: &mut Connection, notes: &Vec<BackupNote>) -> (r: Result<ImportResult, String>)
    ensures
        (forall|i: int| 0 <= i < notes@.len() ==> complete(#[trigger] notes@[i])) ==> r is Ok || (r matches Err(
            e,
        ) && !is_own_message(e@)),
        r is Ok ==> !in_transaction(*final(db)),
        !(forall|i: int| 0 <= i < notes@.len() ==> complete(#[trigger] notes@[i])) ==> (r matches Err(
            e,
        ) && e@ == "Backup JSON has invalid note data"@ && *final(db) == *old(db)),
        r is Err ==> (stored_notes(*final(db)) == stored_notes(*old(db)) && stored_settings(*final(db))
            == stored_settings(*old(db))) || in_transaction(*final(db)),
        r matches Ok(res) ==> {
            &&& forall|i: int| 0 <= i < notes@.len() ==> complete(#[trigger] notes@[i])
            &&& res.imported
            &&& res.added == added_count(stored_notes(*old(db)), notes@)
            &&& res.added == new_ids(stored_notes(*old(db)), notes@).len()
            &&& res.added + res.skipped == notes@.len()
            &&& stored_notes(*final(db)) == merged(stored_notes(*old(db)), notes@)
            &&& stored_settings(*final(db)) == stored_settings(*old(db))
        },
{
    match validate_backup_notes(notes.as_slice()) {
        Ok(()) => {},
        Err(e) => return Err(e),
    }
    let total = notes.len();
    let ghost m = stored_notes(*db);
    let ghost settings = stored_settings(*db);
    match sql_begin(db) {
        Ok(()) => {},
        Err(e) => return Err(store_error(&e)),
    }
    let mut added: usize = 0;
    let mut i: usize = 0;
    while i < total
        invariant
            total == notes@.len(),
            i <= total,
            forall|k: int| 0 <= k < notes@.len() ==> complete(#[trigger] notes@[k]),
            stored_notes(*db) == merged(m, notes@.take(i as int)),
            stored_settings(*db) == settings,
            in_transaction(*db),
            transaction_start_notes(*db) == m,
            transaction_start_settings(*db) == settings,
            stored_notes(*old(db)) == m,
            stored_settings(*old(db)) == settings,
            added == added_count(m, notes@.take(i as int)),
        decreases total - i,
    {
        proof {
            lemma_added_at_most_total(m, notes@.take(i as int));
            let t = notes@.take(i + 1);
            assert(t.drop_last() =~= notes@.take(i as int));
            assert(t.last() == notes@[i as int]);
        }
        let row = backup_note_to_row(&notes[i]);
        let ghost s0 = *db;
        match sql_insert_note_if_absent(db, &row) {
            Ok(c) => {
                added = added + c;
            },
            Err(e) => {
                let ghost s1 = *db;
                let undone = sql_rollback(db);
                proof {
                    lemma_rollback_after_failure(s0, s1, *db, undone is Ok);
                }
                return Err(store_error(&e));
            },
        }
        i = i + 1;
    }
    assert(notes@.take(total as int) =~= notes@);
    let ghost s0 = *db;
    match sql_commit(db) {
        Ok(()) => {},
        Err(e) => {
            let ghost s1 = *db;
            let undone = sql_rollback(db);
            proof {
                lemma_rollback_after_failure(s0, s1, *db, undone is Ok);
            }
            return Err(store_error(&e));
        },
    }
    proof {
        lemma_added_at_most_total(m, notes@);
        lemma_added_counts_new_ids(m, notes@);
    }
    Ok(ImportResult { imported: true, added, skipped: total - added })
}

/// A failed statement inside a transaction, followed by a rollback, leaves
/// the connection where the transaction began, unless the rollback failed
/// and left the transaction open.
proof fn lemma_rollback_after_failure(s0: Connection, s1: Connection, s2: Connection, undone: bool)
    requires
        in_transaction(s0),
        failed_statement(s0, s1),
        undone && in_transaction(s1) ==> rolled_back(s1, s2),
        !in_transaction(s1) ==> unchanged(s1, s2),
        !undone ==> failed_statement(s1, s2),
    ensures
        (stored_notes(s2) == transaction_start_notes(s0) && stored_settings(s2) == transaction_start_settings(
            s0,
        )) || in_transaction(s2),
{
}

/// All settings as key/value pairs, in ascending key order.
pub fn select_all_settings(db: &Connection) -> (r: Result<Vec<(String, String)>, String>)
    ensures
        r matches Err(e) ==> !is_own_message(e@),
        r matches Ok(v) ==> pairs_list(v@, stored_settings(*db)),
{
    match sql_all_settings(db) {
        Ok(v) => Ok(v),
        Err(e) => Err(store_error(&e)),
    }
}

/// A deleted note is gone: deleting the same id again fails, since no note
/// has it any more.
pub proof fn lemma_deleted_note_is_gone(m: Map<Seq<char>, StoredNote>, id: Seq<char>)
    ensures
        !m.remove(id).contains_key(id),
{
}

/// A cleared reminder stays cleared: clearing it again fails, since the note
/// has no reminder any more.
pub proof fn lemma_cleared_reminder_is_gone(m: Map<Seq<char>, StoredNote>, id: Seq<char>, updated_at: Seq<char>)
    requires
        m.contains_key(id),
    ensures
        !(m.insert(id, cleared(m[id], updated_at))[id].4 is Some),
{
}

/// A stored note as an export and a later import leave it: the favorite
/// column becomes `0` or `1`, everything else is kept.
pub open spec fn exported_form(f: StoredNote) -> StoredNote {
    (f.0, f.1, f.2, crate::notes::backup_favorite(f.3), f.4)
}

proof fn lemma_merge_distinct(v: Seq<BackupNote>)
    requires
        forall|i: int, j: int| 0 <= i < j < v.len() ==> #[trigger] v[i].id@ != #[trigger] v[j].id@,
    ensures
        added_count(Map::empty(), v) == v.len(),
        forall|k: Seq<char>| #[trigger] merged(Map::empty(), v).contains_key(k) <==> exists|i: int|
            0 <= i < v.len() && v[i].id@ == k,
        forall|i: int| 0 <= i < v.len() ==> merged(Map::empty(), v)[#[trigger] v[i].id@] == crate::notes::backup_fields(
            v[i],
        ),
    decreases v.len(),
{
    if v.len() > 0 {
        let rest = v.drop_last();
        let last = v.last();
        assert forall|i: int, j: int| 0 <= i < j < rest.len() implies #[trigger] rest[i].id@ != #[trigger] rest[j].id@ by {
            assert(rest[i] == v[i]);
            assert(rest[j] == v[j]);
        }
        lemma_merge_distinct(rest);
        assert(!merged(Map::empty(), rest).contains_key(last.id@)) by {
            if merged(Map::empty(), rest).contains_key(last.id@) {
                let i = choose|i: int| 0 <= i < rest.len() && rest[i].id@ == last.id@;
                assert(v[i].id@ == v[v.len() - 1].id@);
            }
        }
        assert forall|k: Seq<char>| #[trigger] merged(Map::empty(), v).contains_key(k) <==> exists|i: int|
            0 <= i < v.len() && v[i].id@ == k by {
            if merged(Map::empty(), v).contains_key(k) && k != last.id@ {
                let i = choose|i: int| 0 <= i < rest.len() && rest[i].id@ == k;
                assert(v[i] == rest[i]);
            }
            if k == last.id@ {
                assert(v[v.len() - 1].id@ == k);
            }
            if exists|i: int| 0 <= i < v.len() && v[i].id@ == k {
                let i = choose|i: int| 0 <= i < v.len() && v[i].id@ == k;
                if i < v.len() - 1 {
                    assert(rest[i] == v[i]);
                }
            }
        }
        assert forall|i: int| 0 <= i < v.len() implies merged(Map::empty(), v)[#[trigger] v[i].id@]
            == crate::notes::backup_fields(v[i]) by {
            if i < v.len() - 1 {
                assert(rest[i] == v[i]);
                assert(v[i].id@ != last.id@);
            }
        }
    }
}

/// Exporting every note and importing the export into an empty store gives
/// back every note, each as `exported_form`, all counted as added. (Importing
/// requires complete notes, so a store holding a blank note cannot be
/// brought back this way.)
pub proof fn lemma_export_import_round_trip(m: Map<Seq<char>, StoredNote>, v: Seq<BackupNote>)
    requires
        backups_list(v, m),
    ensures
        merged(Map::empty(), v) == m.map_values(|f: StoredNote| exported_form(f)),
        added_count(Map::empty(), v) == v.len(),
{
    assert forall|i: int, j: int| 0 <= i < j < v.len() implies #[trigger] v[i].id@ != #[trigger] v[j].id@ by {
        assert(backup_ids(v)[i] == v[i].id@);
        assert(backup_ids(v)[j] == v[j].id@);
    }
    lemma_merge_distinct(v);
    let target = m.map_values(|f: StoredNote| exported_form(f));
    assert forall|k: Seq<char>| #[trigger] merged(Map::empty(), v).contains_key(k) <==> target.contains_key(k) by {
        if target.contains_key(k) {
            let i = choose|i: int| 0 <= i < backup_ids(v).len() && #[trigger] backup_ids(v)[i] == k;
            assert(v[i].id@ == k);
        }
        if merged(Map::empty(), v).contains_key(k) {
            let i = choose|i: int| 0 <= i < v.len() && v[i].id@ == k;
            assert(backup_ids(v)[i] == k);
        }
    }
    assert forall|k: Seq<char>| #[trigger] merged(Map::empty(), v).contains_key(k) implies merged(Map::empty(), v)[k]
        == target[k] by {
        let i = choose|i: int| 0 <= i < v.len() && v[i].id@ == k;
        assert(backs_up(v[i], v[i].id@, m[v[i].id@]));
    }
    assert(merged(Map::empty(), v) =~= target);
}

} // verus!
