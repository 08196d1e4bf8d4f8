//! The SQLite store, reached through rusqlite, and the model of what it holds:
//! the notes table as a map from note id to stored note, the settings table as
//! a map from key to value, and the column names of the notes table.
//!
//! Every statement the library runs has a wrapper here whose contract says
//! what the statement does to that model when rusqlite reports success. For
//! the statements that write, it also says what a failure leaves behind:
//! SQLite runs each statement atomically, so a failed statement changes
//! nothing, except that inside a transaction SQLite may give up the whole
//! transaction and return to what the connection saw when it began.
use vstd::prelude::*;
use rusqlite::{Connection, OptionalExtension};
use crate::clock::opt_view;
use crate::notes::{NoteRow, StoredNote, enumerates, row_fields, row_ids};
use crate::text::text_lt;

verus! {

#[verifier::external_type_specification]
#[verifier::external_body]
pub struct ExConnection(rusqlite::Connection);

#[verifier::external_type_specification]
#[verifier::external_body]
pub struct ExSqliteError(rusqlite::Error);

/// The notes a connection sees, by id.
pub uninterp spec fn stored_notes(db: Connection) -> Map<Seq<char>, (Seq<char>, Seq<char>, Seq<char>, i64, Option<Seq<char>>)>;

/// The settings a connection sees, by key.
pub uninterp spec fn stored_settings(db: Connection) -> Map<Seq<char>, Seq<char>>;

/// The column names of the notes table, in order; empty while the table does
/// not exist.
pub uninterp spec fn note_columns(db: Connection) -> Seq<Seq<char>>;

/// Whether the connection is inside a transaction opened with `BEGIN`.
pub uninterp spec fn in_transaction(db: Connection) -> bool;

/// The notes the connection saw when its open transaction began.
pub uninterp spec fn transaction_start_notes(db: Connection) -> Map<Seq<char>, (Seq<char>, Seq<char>, Seq<char>, i64, Option<Seq<char>>)>;

/// The settings the connection saw when its open transaction began.
pub uninterp spec fn transaction_start_settings(db: Connection) -> Map<Seq<char>, Seq<char>>;

/// Whether two states of a connection are in the same transaction state:
/// both outside a transaction, or both inside the same one.
pub open spec fn same_transaction(a: Connection, b: Connection) -> bool {
    &&& in_transaction(b) == in_transaction(a)
    &&& in_transaction(a) ==> transaction_start_notes(b) == transaction_start_notes(a)
        && transaction_start_settings(b) == transaction_start_settings(a)
}

/// Whether a connection sees the same notes, settings and columns as before,
/// in the same transaction state.
pub open spec fn unchanged(a: Connection, b: Connection) -> bool {
    &&& stored_notes(b) == stored_notes(a)
    &&& stored_settings(b) == stored_settings(a)
    &&& note_columns(b) == note_columns(a)
    &&& same_transaction(a, b)
}

/// Whether the open transaction of `a` was given up, so that `b` is outside
/// any transaction and sees what `a` saw when the transaction began.
pub open spec fn rolled_back(a: Connection, b: Connection) -> bool {
    &&& in_transaction(a)
    &&& !in_transaction(b)
    &&& stored_notes(b) == transaction_start_notes(a)
    &&& stored_settings(b) == transaction_start_settings(a)
}

/// What a failed statement leaves behind: nothing changed, or the open
/// transaction given up.
pub open spec fn failed_statement(a: Connection, b: Connection) -> bool {
    unchanged(a, b) || rolled_back(a, b)
}

/// The columns of a newly created notes table.
pub open spec fn fresh_note_columns() -> Seq<Seq<char>> {
    seq!["id"@, "text"@, "created_at"@, "updated_at"@, "favorite"@, "remind_at"@]
}

/// What a lookup of a key in the settings gives.
pub open spec fn setting_lookup(m: Map<Seq<char>, Seq<char>>, key: Seq<char>) -> Option<Seq<char>> {
    if m.contains_key(key) {
        Some(m[key])
    } else {
        None
    }
}

/// Whether a note is due at a time: it has a reminder time that is not
/// after the given time, both compared as text.
pub open spec fn due_at(f: StoredNote, now: Seq<char>) -> bool {
    f.4 matches Some(r) && !text_lt(now, r)
}

/// The notes due at a time.
pub open spec fn due_notes(m: Map<Seq<char>, StoredNote>, now: Seq<char>) -> Map<Seq<char>, StoredNote> {
    Map::new(|k: Seq<char>| m.contains_key(k) && due_at(m[k], now), |k: Seq<char>| m[k])
}

/// Whether rows list exactly the notes of a map, each as stored.
pub open spec fn rows_list(rows: Seq<NoteRow>, m: Map<Seq<char>, StoredNote>) -> bool {
    &&& enumerates(row_ids(rows), m)
    &&& forall|i: int| 0 <= i < rows.len() ==> m[#[trigger] rows[i].id@] == row_fields(rows[i])
}

/// Whether rows come in ascending order of creation time.
pub open spec fn by_creation(rows: Seq<NoteRow>) -> bool {
    forall|i: int, j: int|
        0 <= i < j < rows.len() ==> !text_lt(#[trigger] rows[j].created_at@, #[trigger] rows[i].created_at@)
}

/// Whether rows come in ascending order of reminder time.
pub open spec fn by_reminder(rows: Seq<NoteRow>) -> bool {
    forall|i: int, j: int|
        0 <= i < j < rows.len() ==> !text_lt(
            opt_view(#[trigger] rows[j].remind_at).unwrap_or(Seq::empty()),
            opt_view(#[trigger] rows[i].remind_at).unwrap_or(Seq::empty()),
        )
}

/// Whether key/value pairs list exactly the settings, each once, in ascending
/// order of key.
pub open spec fn pairs_list(pairs: Seq<(String, String)>, m: Map<Seq<char>, Seq<char>>) -> bool {
    &&& forall|i: int| 0 <= i < pairs.len() ==> m.contains_key(#[trigger] pairs[i].0@) && m[pairs[i].0@] == pairs[i].1@
    &&& forall|i: int, j: int| 0 <= i < j < pairs.len() ==> #[trigger] pairs[i].0@ != #[trigger] pairs[j].0@
    &&& forall|k: Seq<char>| m.contains_key(k) ==> exists|i: int| 0 <= i < pairs.len() && #[trigger] pairs[i].0@ == k
    &&& forall|i: int, j: int| 0 <= i < j < pairs.len() ==> !text_lt(#[trigger] pairs[j].0@, #[trigger] pairs[i].0@)
}

/// The stored note after its reminder is cleared at a time.
pub open spec fn cleared(f: StoredNote, updated_at: Seq<char>) -> StoredNote {
    (f.0, f.1, updated_at, f.3, None)
}

/// Calls `Connection::execute_batch` with the statements that create the
/// notes and settings tables when they do not exist. The contract claims that
/// on success no note or setting changes, the transaction state stays, and a
/// missing notes table is created with the six columns of
/// `fresh_note_columns`; on failure no note or setting changes (creating a
/// table adds no rows), unless SQLite gave up an open transaction.
#[verifier::external_body]
pub(crate) fn sql_create_tables(db: &mut Connection) -> (r: Result<(), rusqlite::Error>)
    ensures
        r is Ok ==> same_transaction(*old(db), *final(db)),
        r is Err ==> (stored_notes(*final(db)) == stored_notes(*old(db)) && stored_settings(*final(db))
            == stored_settings(*old(db)) && same_transaction(*old(db), *final(db))) || rolled_back(
            *old(db),
            *final(db),
        ),
        r is Ok ==> stored_notes(*final(db)) == stored_notes(*old(db)),
        r is Ok ==> stored_settings(*final(db)) == stored_settings(*old(db)),
        r is Ok ==> note_columns(*final(db)) == (if note_columns(*old(db)).len() == 0 {
            fresh_note_columns()
        } else {
            note_columns(*old(db))
        }),
{
    db.execute_batch(
        "CREATE TABLE IF NOT EXISTS notes (id TEXT PRIMARY KEY, text TEXT NOT NULL, created_at TEXT NOT NULL, updated_at TEXT NOT NULL, favorite INTEGER DEFAULT 0, remind_at TEXT); CREATE TABLE IF NOT EXISTS settings (key TEXT PRIMARY KEY, value TEXT NOT NULL);",
    )
}

/// Runs `PRAGMA table_info(notes)` through `Connection::prepare` and
/// `Statement::query_map`, reading the name column of each row. The contract
/// claims that on success the names are `note_columns`.
#[verifier::external_body]
pub(crate) fn sql_note_columns(db: &Connection) -> (r: Result<Vec<String>, rusqlite::Error>)
    ensures
        r matches Ok(v) ==> v@.map_values(|c: String| c@) == note_columns(*db),
{
    let mut statement = db.prepare("PRAGMA table_info(notes)")?;
    let rows = statement.query_map([], |row| row.get::<_, String>(1))?;
    rows.collect()
}

/// Calls `Connection::execute` with `ALTER TABLE notes ADD COLUMN remind_at
/// TEXT`. The contract claims that on success the column is appended, no
/// note or setting changes, and every note reads with no reminder (the new
/// column holds NULL in every row); a failure is a failed statement.
#[verifier::external_body]
pub(crate) fn sql_add_reminder_column(db: &mut Connection) -> (r: Result<usize, rusqlite::Error>)
    ensures
        r is Err ==> failed_statement(*old(db), *final(db)),
        r is Ok ==> note_columns(*final(db)) == note_columns(*old(db)).push("remind_at"@),
        r is Ok ==> stored_notes(*final(db)) == stored_notes(*old(db)),
        r is Ok ==> stored_settings(*final(db)) == stored_settings(*old(db)),
        r is Ok ==> forall|k: Seq<char>|
            #[trigger] stored_notes(*final(db)).contains_key(k) ==> stored_notes(*final(db))[k].4 is None,
{
    db.execute("ALTER TABLE notes ADD COLUMN remind_at TEXT", [])
}

/// Calls `Connection::query_row` with `SELECT value FROM settings WHERE key =
/// ?1`, then `OptionalExtension::optional`. The contract claims that on
/// success the result is the stored value of the key, or none.
#[verifier::external_body]
pub(crate) fn sql_get_setting(db: &Connection, key: &str) -> (r: Result<Option<String>, rusqlite::Error>)
    ensures
        r matches Ok(v) ==> opt_view(v) == setting_lookup(stored_settings(*db), key@),
{
    db.query_row("SELECT value FROM settings WHERE key = ?1", (key,), |row| row.get(0)).optional()
}

/// Calls `Connection::execute` with `INSERT INTO settings (key, value) VALUES
/// (?1, ?2) ON CONFLICT(key) DO UPDATE SET value = excluded.value`. The
/// contract claims that on success the key holds the value and nothing else
/// changes.
#[verifier::external_body]
pub(crate) fn sql_put_setting(db: &mut Connection, key: &str, value: &str) -> (r: Result<usize, rusqlite::Error>)
    ensures
        r is Ok ==> stored_settings(*final(db)) == stored_settings(*old(db)).insert(key@, value@),
        r is Ok ==> stored_notes(*final(db)) == stored_notes(*old(db)),
        r is Ok ==> note_columns(*final(db)) == note_columns(*old(db)),
        r is Ok ==> same_transaction(*old(db), *final(db)),
        r is Err ==> failed_statement(*old(db), *final(db)),
{
    db.execute(
        "INSERT INTO settings (key, value) VALUES (?1, ?2) ON CONFLICT(key) DO UPDATE SET value = excluded.value",
        (key, value),
    )
}

/// Runs `SELECT key, value FROM settings ORDER BY key ASC` through
/// `Connection::prepare` and `Statement::query_map`. The contract claims that
/// on success the pairs list every setting once, in ascending key order.
#[verifier::external_body]
pub(crate) fn sql_all_settings(db: &Connection) -> (r: Result<Vec<(String, String)>, rusqlite::Error>)
    ensures
        r matches Ok(v) ==> pairs_list(v@, stored_settings(*db)),
{
    let mut statement = db.prepare("SELECT key, value FROM settings ORDER BY key ASC")?;
    let rows = statement.query_map([], |row| Ok((row.get(0)?, row.get(1)?)))?;
    rows.collect()
}

/// Runs `SELECT id, text, created_at, updated_at, favorite, remind_at FROM
/// notes ORDER BY created_at ASC` through `Connection::prepare` and
/// `Statement::query_map`. The contract claims that on success the rows list
/// every note once, as stored, in ascending order of creation time.
#[verifier::external_body]
pub(crate) fn sql_notes_by_creation(db: &Connection) -> (r: Result<Vec<NoteRow>, rusqlite::Error>)
    ensures
        r matches Ok(v) ==> rows_list(v@, stored_notes(*db)) && by_creation(v@),
{
    let mut statement = db.prepare(
        "SELECT id, text, created_at, updated_at, favorite, remind_at FROM notes ORDER BY created_at ASC",
    )?;
    let rows = statement.query_map([], |row| Ok(NoteRow { id: row.get(0)?, text: row.get(1)?, created_at: row.get(2)?, updated_at: row.get(3)?, favorite: row.get(4)?, remind_at: row.get(5)? }))?;
    rows.collect()
}

/// Runs `SELECT id, text, created_at, updated_at, favorite, remind_at FROM
/// notes WHERE remind_at IS NOT NULL AND remind_at <= ?1 ORDER BY remind_at
/// ASC` through `Connection::prepare` and `Statement::query_map`. The contract
/// claims that on success the rows list exactly the notes due at the given
/// time, as stored, in ascending order of reminder time.
#[verifier::external_body]
pub(crate) fn sql_due_notes(db: &Connection, now: &str) -> (r: Result<Vec<NoteRow>, rusqlite::Error>)
    ensures
        r matches Ok(v) ==> rows_list(v@, due_notes(stored_notes(*db), now@)) && by_reminder(v@),
{
    let mut statement = db.prepare(
        "SELECT id, text, created_at, updated_at, favorite, remind_at FROM notes WHERE remind_at IS NOT NULL AND remind_at <= ?1 ORDER BY remind_at ASC",
    )?;
    let rows = statement.query_map((now,), |row| Ok(NoteRow { id: row.get(0)?, text: row.get(1)?, created_at: row.get(2)?, updated_at: row.get(3)?, favorite: row.get(4)?, remind_at: row.get(5)? }))?;
    rows.collect()
}

/// Calls `Connection::query_row` with `SELECT id, text, created_at,
/// updated_at, favorite, remind_at FROM notes WHERE id = ?1`, then
/// `OptionalExtension::optional`. The contract claims that on success the
/// result is the stored note of the id, or none.
#[verifier::external_body]
pub(crate) fn sql_note_by_id(db: &Connection, id: &str) -> (r: Result<Option<NoteRow>, rusqlite::Error>)
    ensures
        r matches Ok(v) ==> match v {
            Some(row) => row.id@ == id@ && stored_notes(*db).contains_key(id@) && stored_notes(
                *db,
            )[id@] == row_fields(row),
            None => !stored_notes(*db).contains_key(id@),
        },
{
    db.query_row(
        "SELECT id, text, created_at, updated_at, favorite, remind_at FROM notes WHERE id = ?1",
        (id,),
        |row| Ok(NoteRow { id: row.get(0)?, text: row.get(1)?, created_at: row.get(2)?, updated_at: row.get(3)?, favorite: row.get(4)?, remind_at: row.get(5)? }),
    ).optional()
}

/// Calls `Connection::execute` with `INSERT INTO notes (id, text, created_at,
/// updated_at, favorite, remind_at) VALUES (?1, ?2, ?3, ?4, ?5, ?6)`. The
/// contract claims that on success no note had the id before and the row is
/// now stored under it, and that the settings do not change.
#[verifier::external_body]
pub(crate) fn sql_insert_note(db: &mut Connection, row: &NoteRow) -> (r: Result<usize, rusqlite::Error>)
    ensures
        r is Ok ==> !stored_notes(*old(db)).contains_key(row.id@),
        r is Ok ==> stored_notes(*final(db)) == stored_notes(*old(db)).insert(row.id@, row_fields(*row)),
        r is Ok ==> stored_settings(*final(db)) == stored_settings(*old(db)),
        r is Ok ==> note_columns(*final(db)) == note_columns(*old(db)),
        r is Ok ==> same_transaction(*old(db), *final(db)),
        r is Err ==> failed_statement(*old(db), *final(db)),
{
    db.execute(
        "INSERT INTO notes (id, text, created_at, updated_at, favorite, remind_at) VALUES (?1, ?2, ?3, ?4, ?5, ?6)",
        (&row.id, &row.text, &row.created_at, &row.updated_at, row.favorite, &row.remind_at),
    )
}

/// Calls `Connection::execute` with `INSERT OR IGNORE INTO notes (id, text,
/// created_at, updated_at, favorite, remind_at) VALUES (?1, ?2, ?3, ?4, ?5,
/// ?6)`. The contract claims that on success a row whose id is stored already
/// changes nothing and counts 0, and any other row is stored and counts 1.
#[verifier::external_body]
pub(crate) fn sql_insert_note_if_absent(db: &mut Connection, row: &NoteRow) -> (r: Result<usize, rusqlite::Error>)
    ensures
        r matches Ok(n) ==> if stored_notes(*old(db)).contains_key(row.id@) {
            n == 0 && stored_notes(*final(db)) == stored_notes(*old(db))
        } else {
            n == 1 && stored_notes(*final(db)) == stored_notes(*old(db)).insert(row.id@, row_fields(*row))
        },
        r is Ok ==> stored_settings(*final(db)) == stored_settings(*old(db)),
        r is Ok ==> note_columns(*final(db)) == note_columns(*old(db)),
        r is Ok ==> same_transaction(*old(db), *final(db)),
        r is Err ==> failed_statement(*old(db), *final(db)),
{
    db.execute(
        "INSERT OR IGNORE INTO notes (id, text, created_at, updated_at, favorite, remind_at) VALUES (?1, ?2, ?3, ?4, ?5, ?6)",
        (&row.id, &row.text, &row.created_at, &row.updated_at, row.favorite, &row.remind_at),
    )
}

/// Calls `Connection::execute` with `UPDATE notes SET text = ?1, favorite =
/// ?2, remind_at = ?3, updated_at = ?4 WHERE id = ?5`. The contract claims
/// that on success a stored note with the id gets the new text, favorite
/// column, reminder time and update time (counting 1), and that otherwise
/// nothing changes (counting 0).
#[verifier::external_body]
pub(crate) fn sql_update_note(
    db: &mut Connection,
    id: &str,
    text: &str,
    favorite: i64,
    remind_at: &Option<String>,
    updated_at: &str,
) -> (r: Result<usize, rusqlite::Error>)
    ensures
        r matches Ok(n) ==> if stored_notes(*old(db)).contains_key(id@) {
            n == 1 && stored_notes(*final(db)) == stored_notes(*old(db)).insert(
                id@,
                (text@, stored_notes(*old(db))[id@].1, updated_at@, favorite, opt_view(*remind_at)),
            )
        } else {
            n == 0 && stored_notes(*final(db)) == stored_notes(*old(db))
        },
        r is Ok ==> stored_settings(*final(db)) == stored_settings(*old(db)),
        r is Ok ==> note_columns(*final(db)) == note_columns(*old(db)),
        r is Ok ==> same_transaction(*old(db), *final(db)),
        r is Err ==> failed_statement(*old(db), *final(db)),
{
    db.execute(
        "UPDATE notes SET text = ?1, favorite = ?2, remind_at = ?3, updated_at = ?4 WHERE id = ?5",
        (text, favorite, remind_at, updated_at, id),
    )
}

/// Calls `Connection::execute` with `UPDATE notes SET remind_at = NULL,
/// updated_at = ?1 WHERE id = ?2 AND remind_at IS NOT NULL`. The contract
/// claims that on success a stored note with the id and a reminder loses the
/// reminder and gets the update time (counting 1), and that otherwise
/// nothing changes (counting 0).
#[verifier::external_body]
pub(crate) fn sql_clear_reminder(db: &mut Connection, id: &str, updated_at: &str) -> (r: Result<usize, rusqlite::Error>)
    ensures
        r matches Ok(n) ==> if stored_notes(*old(db)).contains_key(id@) && stored_notes(
            *old(db),
        )[id@].4 is Some {
            n == 1 && stored_notes(*final(db)) == stored_notes(*old(db)).insert(
                id@,
                cleared(stored_notes(*old(db))[id@], updated_at@),
            )
        } else {
            n == 0 && stored_notes(*final(db)) == stored_notes(*old(db))
        },
        r is Ok ==> stored_settings(*final(db)) == stored_settings(*old(db)),
        r is Ok ==> note_columns(*final(db)) == note_columns(*old(db)),
        r is Ok ==> same_transaction(*old(db), *final(db)),
        r is Err ==> failed_statement(*old(db), *final(db)),
{
    db.execute(
        "UPDATE notes SET remind_at = NULL, updated_at = ?1 WHERE id = ?2 AND remind_at IS NOT NULL",
        (updated_at, id),
    )
}

/// Calls `Connection::execute` with `DELETE FROM notes WHERE id = ?1`. The
/// contract claims that on success a stored note with the id is removed
/// (counting 1) and that otherwise nothing changes (counting 0).
#[verifier::external_body]
pub(crate) fn sql_delete_note(db: &mut Connection, id: &str) -> (r: Result<usize, rusqlite::Error>)
    ensures
        r matches Ok(n) ==> if stored_notes(*old(db)).contains_key(id@) {
            n == 1 && stored_notes(*final(db)) == stored_notes(*old(db)).remove(id@)
        } else {
            n == 0 && stored_notes(*final(db)) == stored_notes(*old(db))
        },
        r is Ok ==> stored_settings(*final(db)) == stored_settings(*old(db)),
        r is Ok ==> note_columns(*final(db)) == note_columns(*old(db)),
        r is Ok ==> same_transaction(*old(db), *final(db)),
        r is Err ==> failed_statement(*old(db), *final(db)),
{
    db.execute("DELETE FROM notes WHERE id = ?1", (id,))
}

/// Calls `Connection::execute_batch` with `BEGIN DEFERRED`, which is how
/// `Connection::transaction` opens a transaction. The contract claims that on
/// success the connection is inside a transaction that starts from what it
/// sees, which does not change, and that a failure changes nothing.
#[verifier::external_body]
pub(crate) fn sql_begin(db: &mut Connection) -> (r: Result<(), rusqlite::Error>)
    ensures
        r is Ok ==> stored_notes(*final(db)) == stored_notes(*old(db)),
        r is Ok ==> stored_settings(*final(db)) == stored_settings(*old(db)),
        r is Ok ==> in_transaction(*final(db)),
        r is Ok ==> transaction_start_notes(*final(db)) == stored_notes(*old(db)),
        r is Ok ==> transaction_start_settings(*final(db)) == stored_settings(*old(db)),
        r is Err ==> unchanged(*old(db), *final(db)),
{
    db.execute_batch("BEGIN DEFERRED")
}

/// Calls `Connection::execute_batch` with `COMMIT`, as
/// `Transaction::commit` does. The contract claims that on success the
/// connection leaves the transaction and what it sees does not change; a
/// failure is a failed statement.
#[verifier::external_body]
pub(crate) fn sql_commit(db: &mut Connection) -> (r: Result<(), rusqlite::Error>)
    ensures
        r is Ok ==> stored_notes(*final(db)) == stored_notes(*old(db)),
        r is Ok ==> stored_settings(*final(db)) == stored_settings(*old(db)),
        r is Ok ==> !in_transaction(*final(db)),
        r is Err ==> failed_statement(*old(db), *final(db)),
{
    db.execute_batch("COMMIT")
}

/// Calls `Connection::execute_batch` with `ROLLBACK`, as a `Transaction`
/// that is dropped without a commit does. The contract claims that inside a
/// transaction a success returns the connection to what it saw when the
/// transaction began, outside one nothing changes, and a failure is a failed
/// statement.
#[verifier::external_body]
pub(crate) fn sql_rollback(db: &mut Connection) -> (r: Result<(), rusqlite::Error>)
    ensures
        r is Ok && in_transaction(*old(db)) ==> rolled_back(*old(db), *final(db)),
        !in_transaction(*old(db)) ==> unchanged(*old(db), *final(db)),
        r is Err ==> failed_statement(*old(db), *final(db)),
{
    db.execute_batch("ROLLBACK")
}

/// Calls `ToString::to_string` on a rusqlite error. Nothing is claimed of the
/// message.
#[verifier::external_body]
pub(crate) fn sql_error_text(error: &rusqlite::Error) -> String {
    error.to_string()
}

} // verus!
