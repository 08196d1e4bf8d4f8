use flow_notes::backup::{
    build_automatic_backup, should_run_automatic_backup, should_run_automatic_backup_at, AUTOMATIC_BACKUP_FORMAT,
    AUTOMATIC_BACKUP_VERSION,
};
use flow_notes::clock::Timestamp;
use flow_notes::notes::BackupNote;
use flow_notes::settings::{
    ensure_settings, read_settings, set_launch_behavior, set_note_text_size, SETTING_AUTOMATIC_BACKUPS,
    SETTING_LAST_AUTOMATIC_BACKUP_AT,
};
use flow_notes::store::{
    clear_note_reminder, clear_note_reminder_at, create_note, create_note_with, create_schema,
    delete_note_by_id, get_notes, get_setting, import_backup_notes, select_backup_notes,
    select_due_reminder_notes, select_due_reminder_notes_at, select_note, set_setting, update_note_at,
};
use rusqlite::Connection;

fn insert_sample_note(db: &Connection, id: &str, favorite: i64) {
    db.execute(
        "
        INSERT INTO notes (id, text, created_at, updated_at, favorite, remind_at)
        VALUES (?1, ?2, ?3, ?4, ?5, ?6)
        ",
        (
            id,
            "A calm local note",
            "2026-05-27T10:00:00.000Z",
            "2026-05-27T10:00:00.000Z",
            favorite,
            Option::<String>::None,
        ),
    )
    .expect("sample note should insert");
}

fn count_notes(db: &Connection) -> i64 {
    db.query_row("SELECT COUNT(*) FROM notes", [], |row| row.get(0))
        .expect("count should query")
}

#[test]
fn export_writes_backup_json_with_integer_favorites() {
    let mut db = Connection::open_in_memory().expect("db should open");
    create_schema(&mut db).expect("schema should create");
    insert_sample_note(&db, "note-1", 1);

    let parsed = select_backup_notes(&db).expect("export should succeed");
    let count = parsed.len();

    assert_eq!(count, 1);
    assert_eq!(parsed.len(), 1);
    assert_eq!(parsed[0].id, "note-1");
    assert_eq!(parsed[0].favorite, 1);
}

#[test]
fn import_merges_without_duplicate_ids() {
    let mut source = Connection::open_in_memory().expect("source db should open");
    create_schema(&mut source).expect("source schema should create");
    insert_sample_note(&source, "note-1", 0);

    let backup = select_backup_notes(&source).expect("export should succeed");

    let mut target = Connection::open_in_memory().expect("target db should open");
    create_schema(&mut target).expect("target schema should create");

    let first = import_backup_notes(&mut target, &backup).expect("first import should succeed");
    let second = import_backup_notes(&mut target, &backup).expect("second import should succeed");
    let count = count_notes(&target);

    assert!(first.imported);
    assert_eq!(first.added, 1);
    assert_eq!(first.skipped, 0);
    assert_eq!(second.added, 0);
    assert_eq!(second.skipped, 1);
    assert_eq!(count, 1);
}

#[test]
fn delete_removes_note_and_errors_when_missing() {
    let mut db = Connection::open_in_memory().expect("db should open");
    create_schema(&mut db).expect("schema should create");
    insert_sample_note(&db, "note-to-delete", 0);

    delete_note_by_id(&mut db, "note-to-delete").expect("delete should succeed");
    let count: i64 = db
        .query_row(
            "SELECT COUNT(*) FROM notes WHERE id = ?1",
            ("note-to-delete",),
            |row| row.get(0),
        )
        .expect("count should query");

    assert_eq!(count, 0);
    assert!(delete_note_by_id(&mut db, "note-to-delete").is_err());
}

#[test]
fn automatic_backup_writes_snapshot_with_settings() {
    let mut db = Connection::open_in_memory().expect("db should open");
    create_schema(&mut db).expect("schema should create");
    set_setting(&mut db, SETTING_AUTOMATIC_BACKUPS, "1").expect("setting should save");
    insert_sample_note(&db, "note-1", 1);

    let parsed = build_automatic_backup(&db).expect("automatic backup should succeed");

    assert_eq!(parsed.format, AUTOMATIC_BACKUP_FORMAT);
    assert_eq!(parsed.version, AUTOMATIC_BACKUP_VERSION);
    assert_eq!(parsed.notes.len(), 1);
    assert!(parsed
        .settings
        .iter()
        .any(|(key, value)| key == SETTING_AUTOMATIC_BACKUPS && value == "1"));
}

#[test]
fn select_due_reminder_notes_returns_only_overdue() {
    let mut db = Connection::open_in_memory().expect("db should open");
    create_schema(&mut db).expect("schema should create");

    db.execute(
        "
        INSERT INTO notes (id, text, created_at, updated_at, favorite, remind_at)
        VALUES (?1, ?2, ?3, ?4, ?5, ?6), (?7, ?8, ?9, ?10, ?11, ?12)
        ",
        (
            "due-note",
            "Due",
            "2026-05-27T10:00:00.000Z",
            "2026-05-27T10:00:00.000Z",
            0,
            "2026-05-27T10:00:00.000Z",
            "future-note",
            "Future",
            "2026-05-27T10:00:00.000Z",
            "2026-05-27T10:00:00.000Z",
            0,
            "2099-05-27T10:00:00.000Z",
        ),
    )
    .expect("notes should insert");

    let due = select_due_reminder_notes(&db).expect("due notes should query");

    assert_eq!(due.len(), 1);
    assert_eq!(due[0].id, "due-note");
}

#[test]
fn clear_note_reminder_clears_remind_at() {
    let mut db = Connection::open_in_memory().expect("db should open");
    create_schema(&mut db).expect("schema should create");

    db.execute(
        "
        INSERT INTO notes (id, text, created_at, updated_at, favorite, remind_at)
        VALUES (?1, ?2, ?3, ?4, ?5, ?6)
        ",
        (
            "reminder-note",
            "Reminder",
            "2026-05-27T10:00:00.000Z",
            "2026-05-27T10:00:00.000Z",
            0,
            "2026-05-27T11:00:00.000Z",
        ),
    )
    .expect("note should insert");

    let updated = clear_note_reminder(&mut db, "reminder-note").expect("clear should succeed");

    assert_eq!(updated.id, "reminder-note");
    assert_eq!(updated.remind_at, None);
    assert!(clear_note_reminder(&mut db, "reminder-note").is_err());
}

#[test]
fn schema_migrates_existing_notes_without_reminders() {
    let mut db = Connection::open_in_memory().expect("db should open");
    db.execute_batch(
        "
        CREATE TABLE notes (
          id TEXT PRIMARY KEY,
          text TEXT NOT NULL,
          created_at TEXT NOT NULL,
          updated_at TEXT NOT NULL,
          favorite INTEGER DEFAULT 0
        );
        INSERT INTO notes (id, text, created_at, updated_at, favorite)
        VALUES ('legacy-note', 'Legacy', '2026-05-27T10:00:00.000Z', '2026-05-27T10:00:00.000Z', 0);
        ",
    )
    .expect("legacy schema should create");

    create_schema(&mut db).expect("schema should migrate");

    let note = select_note(&db, "legacy-note")
        .expect("note should select")
        .expect("note should exist");

    assert_eq!(note.id, "legacy-note");
    assert_eq!(note.remind_at, None);
}

#[test]
fn schema_setup_is_repeatable_and_keeps_notes() {
    let mut db = Connection::open_in_memory().expect("db should open");
    create_schema(&mut db).expect("schema should create");
    insert_sample_note(&db, "kept", 0);
    create_schema(&mut db).expect("schema should stay");
    assert_eq!(count_notes(&db), 1);
}

#[test]
fn create_note_trims_text_and_stores_defaults() {
    let mut db = Connection::open_in_memory().expect("db should open");
    create_schema(&mut db).expect("schema should create");
    let note = create_note_with(
        &mut db,
        "fixed-id",
        "2026-05-27T10:00:00.000Z",
        "  Buy milk \n",
        None,
        Some("2026-05-27T12:30:00+02:00".to_string()),
    )
    .expect("create should succeed");
    assert_eq!(note.id, "fixed-id");
    assert_eq!(note.text, "Buy milk");
    assert!(!note.favorite);
    assert_eq!(note.created_at, "2026-05-27T10:00:00.000Z");
    assert_eq!(note.updated_at, "2026-05-27T10:00:00.000Z");
    assert_eq!(note.remind_at, Some("2026-05-27T10:30:00.000Z".to_string()));
}

#[test]
fn create_note_rejects_blank_text_and_bad_reminders() {
    let mut db = Connection::open_in_memory().expect("db should open");
    create_schema(&mut db).expect("schema should create");
    assert_eq!(create_note(&mut db, " \t ", None, None).unwrap_err(), "Text is required");
    assert_eq!(
        create_note(&mut db, "note", Some(true), Some("tomorrow".to_string())).unwrap_err(),
        "Reminder must be a valid date"
    );
    assert_eq!(count_notes(&db), 0);
    let note = create_note(&mut db, "note", Some(true), Some("   ".to_string())).expect("create should succeed");
    assert!(note.favorite);
    assert_eq!(note.remind_at, None);
    assert_eq!(note.created_at, note.updated_at);
    assert_eq!(note.id.len(), 36);
}

#[test]
fn create_note_refuses_an_id_in_use() {
    let mut db = Connection::open_in_memory().expect("db should open");
    create_schema(&mut db).expect("schema should create");
    insert_sample_note(&db, "taken", 0);
    assert!(create_note_with(&mut db, "taken", "2026-05-27T10:00:00.000Z", "x", None, None).is_err());
    assert_eq!(count_notes(&db), 1);
}

#[test]
fn update_note_keeps_what_is_not_given() {
    let mut db = Connection::open_in_memory().expect("db should open");
    create_schema(&mut db).expect("schema should create");
    create_note_with(
        &mut db,
        "n",
        "2026-05-27T10:00:00.000Z",
        "First",
        Some(true),
        Some("2026-06-01T08:00:00Z".to_string()),
    )
    .expect("create should succeed");
    let updated = update_note_at(&mut db, "2026-05-28T09:00:00.000Z", "n", None, None, None, None)
        .expect("update should succeed");
    assert_eq!(updated.text, "First");
    assert!(updated.favorite);
    assert_eq!(updated.remind_at, Some("2026-06-01T08:00:00.000Z".to_string()));
    assert_eq!(updated.created_at, "2026-05-27T10:00:00.000Z");
    assert_eq!(updated.updated_at, "2026-05-28T09:00:00.000Z");

    let updated = update_note_at(
        &mut db,
        "2026-05-29T09:00:00.000Z",
        "n",
        Some(" Second ".to_string()),
        Some(false),
        Some("2026-06-02T08:00:00Z".to_string()),
        Some(true),
    )
    .expect("update should succeed");
    assert_eq!(updated.text, "Second");
    assert!(!updated.favorite);
    assert_eq!(updated.remind_at, None);
}

#[test]
fn update_note_errors() {
    let mut db = Connection::open_in_memory().expect("db should open");
    create_schema(&mut db).expect("schema should create");
    assert_eq!(
        update_note_at(&mut db, "t", "missing", None, None, None, None).unwrap_err(),
        "Note not found"
    );
    insert_sample_note(&db, "n", 0);
    assert_eq!(
        update_note_at(&mut db, "t", "n", Some("  ".to_string()), None, None, None).unwrap_err(),
        "Text is required"
    );
    assert_eq!(
        update_note_at(&mut db, "t", "n", None, None, Some("soon".to_string()), None).unwrap_err(),
        "Reminder must be a valid date"
    );
    let kept = update_note_at(&mut db, "t", "n", None, None, Some("soon".to_string()), Some(true))
        .expect("a cleared reminder is not read");
    assert_eq!(kept.remind_at, None);
}

#[test]
fn notes_come_oldest_first() {
    let mut db = Connection::open_in_memory().expect("db should open");
    create_schema(&mut db).expect("schema should create");
    create_note_with(&mut db, "b", "2026-05-28T10:00:00.000Z", "later", None, None).unwrap();
    create_note_with(&mut db, "a", "2026-05-27T10:00:00.000Z", "earlier", None, None).unwrap();
    let notes = get_notes(&db).expect("notes should list");
    assert_eq!(notes.len(), 2);
    assert_eq!(notes[0].id, "a");
    assert_eq!(notes[1].id, "b");
}

#[test]
fn due_reminders_come_earliest_first_and_include_now() {
    let mut db = Connection::open_in_memory().expect("db should open");
    create_schema(&mut db).expect("schema should create");
    create_note_with(&mut db, "late", "t", "x", None, Some("2026-05-27T10:00:00.000Z".to_string())).unwrap();
    create_note_with(&mut db, "early", "t", "y", None, Some("2026-05-27T09:00:00.000Z".to_string())).unwrap();
    create_note_with(&mut db, "none", "t", "z", None, None).unwrap();
    let due = select_due_reminder_notes_at(&db, "2026-05-27T10:00:00.000Z").unwrap();
    assert_eq!(due.len(), 2);
    assert_eq!(due[0].id, "early");
    assert_eq!(due[1].id, "late");
    let due = select_due_reminder_notes_at(&db, "2026-05-27T09:30:00.000Z").unwrap();
    assert_eq!(due.len(), 1);
}

#[test]
fn clearing_reminders_of_missing_or_plain_notes_fails() {
    let mut db = Connection::open_in_memory().expect("db should open");
    create_schema(&mut db).expect("schema should create");
    insert_sample_note(&db, "plain", 0);
    assert_eq!(
        clear_note_reminder_at(&mut db, "plain", "t").unwrap_err(),
        "Reminder already cleared or note not found"
    );
    assert!(clear_note_reminder_at(&mut db, "missing", "t").is_err());
}

fn backup_note(id: &str, text: &str, favorite: i64) -> BackupNote {
    BackupNote {
        id: id.to_string(),
        text: text.to_string(),
        created_at: "2026-05-27T10:00:00.000Z".to_string(),
        updated_at: "2026-05-27T10:00:00.000Z".to_string(),
        favorite,
        remind_at: None,
    }
}

#[test]
fn import_rejects_incomplete_notes_and_keeps_store() {
    let mut db = Connection::open_in_memory().expect("db should open");
    create_schema(&mut db).expect("schema should create");
    let notes = vec![backup_note("a", "ok", 0), backup_note("b", "  ", 0)];
    assert_eq!(
        import_backup_notes(&mut db, &notes).unwrap_err(),
        "Backup JSON has invalid note data"
    );
    assert_eq!(count_notes(&db), 0);
}

#[test]
fn import_keeps_existing_notes_and_first_of_duplicates() {
    let mut db = Connection::open_in_memory().expect("db should open");
    create_schema(&mut db).expect("schema should create");
    insert_sample_note(&db, "old", 0);
    let notes = vec![
        backup_note("old", "replacement", 1),
        backup_note("new", "first", 7),
        backup_note("new", "second", 0),
    ];
    let result = import_backup_notes(&mut db, &notes).expect("import should succeed");
    assert_eq!(result.added, 1);
    assert_eq!(result.skipped, 2);
    let old = select_note(&db, "old").unwrap().unwrap();
    assert_eq!(old.text, "A calm local note");
    let new = select_note(&db, "new").unwrap().unwrap();
    assert_eq!(new.text, "first");
    assert!(new.favorite);
    let stored: i64 = db
        .query_row("SELECT favorite FROM notes WHERE id = 'new'", [], |row| row.get(0))
        .unwrap();
    assert_eq!(stored, 1);
}

#[test]
fn settings_read_back_with_defaults() {
    let mut db = Connection::open_in_memory().expect("db should open");
    create_schema(&mut db).expect("schema should create");
    let s = read_settings(&db).expect("settings should read");
    assert!(!s.launch_at_login);
    assert_eq!(s.launch_behavior, "background");
    assert_eq!(s.note_text_size, "default");
    assert_eq!(s.quick_capture_shortcut, "CommandOrControl+Shift+Space");
    assert!(s.hide_quick_capture_on_blur);
    assert!(s.automatic_backups);
    assert_eq!(s.last_automatic_backup_at, None);

    set_setting(&mut db, "note_text_size", "large").unwrap();
    set_setting(&mut db, "note_text_size", "small").unwrap();
    assert_eq!(get_setting(&db, "note_text_size").unwrap(), Some("small".to_string()));
    assert_eq!(get_setting(&db, "unknown").unwrap(), None);
}

#[test]
fn ensure_settings_fills_only_missing_values() {
    let mut db = Connection::open_in_memory().expect("db should open");
    create_schema(&mut db).expect("schema should create");
    set_setting(&mut db, "hide_quick_capture_on_blur", "0").unwrap();
    set_setting(&mut db, "quick_capture_shortcut", "Alt+N").unwrap();
    let (shortcut, hide) = ensure_settings(&mut db, true).expect("settings should fill");
    assert_eq!(shortcut, "Alt+N");
    assert!(!hide);
    let s = read_settings(&db).unwrap();
    assert!(s.launch_at_login);
    assert_eq!(get_setting(&db, "automatic_backups").unwrap(), Some("1".to_string()));
    assert_eq!(get_setting(&db, "launch_behavior").unwrap(), Some("background".to_string()));
    let (shortcut, _) = ensure_settings(&mut db, false).unwrap();
    assert_eq!(shortcut, "Alt+N");
    assert!(read_settings(&db).unwrap().launch_at_login);
}

#[test]
fn setters_check_and_store_values() {
    let mut db = Connection::open_in_memory().expect("db should open");
    create_schema(&mut db).expect("schema should create");
    assert_eq!(set_launch_behavior(&mut db, " open ").unwrap(), "open");
    assert_eq!(
        set_launch_behavior(&mut db, "later").unwrap_err(),
        "Launch behavior must be open or background"
    );
    assert_eq!(read_settings(&db).unwrap().launch_behavior, "open");
    assert_eq!(set_note_text_size(&mut db, "large").unwrap(), "large");
    assert_eq!(
        set_note_text_size(&mut db, "huge").unwrap_err(),
        "Note text size must be small, default, or large"
    );
}

#[test]
fn automatic_backup_due_rules() {
    let mut db = Connection::open_in_memory().expect("db should open");
    create_schema(&mut db).expect("schema should create");
    assert!(should_run_automatic_backup(&db, false).unwrap());
    set_setting(&mut db, SETTING_LAST_AUTOMATIC_BACKUP_AT, "2099-01-01T00:00:00.000Z").unwrap();
    assert!(!should_run_automatic_backup(&db, false).unwrap());
    assert!(should_run_automatic_backup(&db, true).unwrap());
    set_setting(&mut db, SETTING_LAST_AUTOMATIC_BACKUP_AT, "not a time").unwrap();
    assert!(should_run_automatic_backup(&db, false).unwrap());
    set_setting(&mut db, SETTING_LAST_AUTOMATIC_BACKUP_AT, "2000-01-01T00:00:00Z").unwrap();
    assert!(should_run_automatic_backup(&db, false).unwrap());
    set_setting(&mut db, SETTING_AUTOMATIC_BACKUPS, "0").unwrap();
    assert!(!should_run_automatic_backup(&db, true).unwrap());
}

#[test]
fn export_then_import_into_an_empty_store_round_trips() {
    let mut source = Connection::open_in_memory().unwrap();
    create_schema(&mut source).unwrap();
    create_note_with(&mut source, "a", "2026-05-27T10:00:00.000Z", "one", Some(true), Some("2026-06-01T00:00:00Z".to_string())).unwrap();
    create_note_with(&mut source, "b", "2026-05-28T10:00:00.000Z", "two", None, None).unwrap();
    source
        .execute("UPDATE notes SET favorite = 5 WHERE id = 'b'", [])
        .unwrap();
    let backup = select_backup_notes(&source).unwrap();
    assert_eq!(backup[1].favorite, 1);

    let mut target = Connection::open_in_memory().unwrap();
    create_schema(&mut target).unwrap();
    let result = import_backup_notes(&mut target, &backup).unwrap();
    assert_eq!(result.added, 2);
    assert_eq!(result.skipped, 0);
    let before = get_notes(&source).unwrap();
    let after = get_notes(&target).unwrap();
    assert_eq!(before.len(), after.len());
    for (x, y) in before.iter().zip(after.iter()) {
        assert_eq!(x.id, y.id);
        assert_eq!(x.text, y.text);
        assert_eq!(x.created_at, y.created_at);
        assert_eq!(x.updated_at, y.updated_at);
        assert_eq!(x.favorite, y.favorite);
        assert_eq!(x.remind_at, y.remind_at);
    }
}

#[test]
fn import_that_fails_midway_keeps_the_store() {
    let mut db = Connection::open_in_memory().expect("db should open");
    create_schema(&mut db).expect("schema should create");
    insert_sample_note(&db, "note-1", 0);
    db.execute_batch(
        "CREATE TRIGGER refuse BEFORE INSERT ON notes WHEN NEW.text = 'refused' BEGIN SELECT RAISE(ABORT, 'refused'); END;",
    )
    .expect("trigger should create");
    let notes = vec![backup_note("note-2", "Fine", 0), backup_note("note-3", "refused", 0)];
    assert!(import_backup_notes(&mut db, &notes).is_err());
    assert_eq!(count_notes(&db), 1);
    assert!(select_note(&db, "note-2").unwrap().is_none());
    assert!(db.is_autocommit());
}

#[test]
fn missing_ids_give_their_messages_and_change_nothing() {
    let mut db = Connection::open_in_memory().expect("db should open");
    create_schema(&mut db).expect("schema should create");
    insert_sample_note(&db, "note-1", 0);
    assert_eq!(delete_note_by_id(&mut db, "other").unwrap_err(), "Note not found");
    assert_eq!(
        clear_note_reminder_at(&mut db, "note-1", "2026-05-28T00:00:00.000Z").unwrap_err(),
        "Reminder already cleared or note not found"
    );
    let n = select_note(&db, "note-1").unwrap().unwrap();
    assert_eq!(n.updated_at, "2026-05-27T10:00:00.000Z");
    assert_eq!(count_notes(&db), 1);
}

#[test]
fn automatic_backup_due_at_a_given_time() {
    let mut db = Connection::open_in_memory().expect("db should open");
    create_schema(&mut db).expect("schema should create");
    let at = |secs: i64| Timestamp { secs, nanos: 0 };
    // 2026-05-27T10:00:00Z is 1779876000.
    set_setting(&mut db, SETTING_LAST_AUTOMATIC_BACKUP_AT, "2026-05-27T10:00:00.000Z").unwrap();
    assert!(!should_run_automatic_backup_at(&db, false, at(1_779_876_000 + 86_399)).unwrap());
    assert!(should_run_automatic_backup_at(&db, false, at(1_779_876_000 + 86_400)).unwrap());
    assert!(should_run_automatic_backup_at(&db, true, at(1_779_876_000)).unwrap());
    set_setting(&mut db, SETTING_AUTOMATIC_BACKUPS, "0").unwrap();
    assert!(!should_run_automatic_backup_at(&db, true, at(1_779_876_000 + 86_400)).unwrap());
}

#[test]
fn second_schema_setup_keeps_the_columns() {
    let mut db = Connection::open_in_memory().expect("db should open");
    create_schema(&mut db).expect("schema should create");
    create_schema(&mut db).expect("schema should set up again");
    let mut statement = db.prepare("PRAGMA table_info(notes)").unwrap();
    let names: Vec<String> = statement
        .query_map([], |row| row.get::<_, String>(1))
        .unwrap()
        .map(|r| r.unwrap())
        .collect();
    assert_eq!(names, vec!["id", "text", "created_at", "updated_at", "favorite", "remind_at"]);
}

#[test]
fn store_errors_never_read_like_the_library_messages() {
    let mut db = Connection::open_in_memory().expect("db should open");
    create_schema(&mut db).expect("schema should create");
    insert_sample_note(&db, "note-1", 0);
    db.execute_batch(
        "CREATE TRIGGER refuse BEFORE DELETE ON notes BEGIN SELECT RAISE(ABORT, 'Note not found'); END;",
    )
    .expect("trigger should create");
    let error = delete_note_by_id(&mut db, "note-1").unwrap_err();
    assert_eq!(error, "sqlite: Note not found");
    assert_eq!(count_notes(&db), 1);
}

#[test]
fn import_of_complete_notes_commits() {
    let mut db = Connection::open_in_memory().expect("db should open");
    create_schema(&mut db).expect("schema should create");
    let notes = vec![backup_note("note-2", "Fine", 1)];
    let result = import_backup_notes(&mut db, &notes).expect("import should succeed");
    assert_eq!((result.imported, result.added, result.skipped), (true, 1, 0));
    assert!(db.is_autocommit());
    assert_eq!(count_notes(&db), 1);
}

#[test]
fn failed_settings_writes_keep_the_store() {
    let mut db = Connection::open_in_memory().expect("db should open");
    create_schema(&mut db).expect("schema should create");
    set_launch_behavior(&mut db, "open").unwrap();
    db.execute_batch(
        "CREATE TRIGGER refuse BEFORE UPDATE ON settings BEGIN SELECT RAISE(ABORT, 'refused'); END;
         CREATE TRIGGER refuse_new BEFORE INSERT ON settings WHEN NEW.key = 'note_text_size' BEGIN SELECT RAISE(ABORT, 'refused'); END;",
    )
    .expect("triggers should create");
    assert_eq!(set_launch_behavior(&mut db, "background").unwrap_err(), "refused");
    assert_eq!(get_setting(&db, "launch_behavior").unwrap(), Some("open".to_string()));
    // Filling defaults stops at the refused key; what was filled before it stays.
    assert!(ensure_settings(&mut db, false).is_err());
    assert_eq!(get_setting(&db, "launch_behavior").unwrap(), Some("open".to_string()));
    assert_eq!(get_setting(&db, "launch_at_login").unwrap(), Some("0".to_string()));
    assert_eq!(get_setting(&db, "note_text_size").unwrap(), None);
    assert_eq!(get_setting(&db, "automatic_backups").unwrap(), None);
}
