use flow_notes::backup::{
    automatic_backup_dir, automatic_backup_file_name, automatic_backup_file_name_at,
    automatic_backups_to_prune, default_backup_file_name, export_file_name_at,
    is_automatic_backup_file_name,
};
use flow_notes::clock::{backup_due, elapsed_nanos_between, normalize_remind_at, now_iso, LocalDateTime, Timestamp};
use flow_notes::desktop::{
    after_shortcut_parsed, after_shortcut_registered, after_shortcut_unregistered, app_menu_command,
    autostart_change, close_request_action, exit_request_refused, legacy_login_item_script,
    open_path_in_file_manager, plan_shortcut_change, prefer_installed_launch_agent_path,
    quick_capture_window_event, reminder_title, scheduler_should_stop, tray_menu_command,
    AutostartChange, CloseAction, MenuCommand, Platform, QuickCaptureAction, ShortcutStep,
    WindowEventKind,
};
use flow_notes::notes::{validate_backup_notes, BackupNote, Note};
use flow_notes::reminders::{after_notification, reminders_to_notify, retry_pending_clears, ReminderState};
use flow_notes::settings::{
    bool_to_setting, normalize_launch_behavior, normalize_note_text_size, setting_to_bool,
    validate_shortcut,
};
use flow_notes::store::{
    create_note_with, create_schema, delete_outcome, plan_update, reminder_clear_outcome,
    select_due_reminder_notes_at,
};
use flow_notes::text::{text_less, trim_text};
use rusqlite::Connection;

#[test]
fn automatic_backup_filename_is_recognized() {
    assert!(is_automatic_backup_file_name(
        "flow-notes-backup-2026-08-22-162500.json"
    ));
    assert!(!is_automatic_backup_file_name("flow-notes-backup-2026-08-22.json"));
    assert!(!is_automatic_backup_file_name("other-backup.json"));
}

#[test]
fn backup_name_recognition_edges() {
    assert!(is_automatic_backup_file_name("flow-notes-backup-aaaaaaaaaa-bbbbbb.json"));
    assert!(!is_automatic_backup_file_name("flow-notes-backup-2026-08-22x162500.json"));
    assert!(!is_automatic_backup_file_name("flow-notes-backup-2026-08-22-162500.json.part"));
    assert!(!is_automatic_backup_file_name("flow-notes-backup-.json"));
    // The middle part is measured in bytes: seventeen characters but eighteen
    // bytes is refused, sixteen characters but seventeen bytes is accepted.
    assert!(!is_automatic_backup_file_name("flow-notes-backup-2026-08-22-16250é.json"));
    assert!(is_automatic_backup_file_name("flow-notes-backup-2026-08-22-1625é.json"));
}

fn at(year: i32, month: u32, day: u32, hour: u32, minute: u32, second: u32) -> LocalDateTime {
    LocalDateTime { year, month, day, hour, minute, second }
}

#[test]
fn backup_names_follow_the_clock() {
    let t = at(2026, 8, 2, 7, 5, 9);
    assert_eq!(automatic_backup_file_name_at(&t), "flow-notes-backup-2026-08-02-070509.json");
    assert_eq!(export_file_name_at(&t), "flow-notes-backup-2026-08-02.json");
    assert!(is_automatic_backup_file_name(&automatic_backup_file_name_at(&t)));
    assert!(!is_automatic_backup_file_name(&export_file_name_at(&t)));
    assert_eq!(export_file_name_at(&at(12, 1, 1, 0, 0, 0)), "flow-notes-backup-0012-01-01.json");
    assert_eq!(export_file_name_at(&at(-3, 1, 1, 0, 0, 0)), "flow-notes-backup--0003-01-01.json");
    assert_eq!(export_file_name_at(&at(12345, 1, 1, 0, 0, 0)), "flow-notes-backup-+12345-01-01.json");
    assert!(is_automatic_backup_file_name(&automatic_backup_file_name().unwrap()));
    assert!(!is_automatic_backup_file_name(&default_backup_file_name().unwrap()));
}

#[test]
fn backup_folder_joins_like_a_path() {
    assert_eq!(automatic_backup_dir("/data/app"), "/data/app/backups");
    assert_eq!(automatic_backup_dir("/data/app/"), "/data/app/backups");
    assert_eq!(automatic_backup_dir(""), "backups");
}

#[test]
fn pruning_keeps_the_fourteen_newest_automatic_backups() {
    let mut names: Vec<String> = Vec::new();
    for day in 1..=20 {
        names.push(format!("flow-notes-backup-2026-01-{:02}-120000.json", day));
    }
    names.push("flow-notes-backup-2026-01-01.json".to_string());
    names.push("notes.db".to_string());
    names.reverse();
    let removed = automatic_backups_to_prune(&names);
    assert_eq!(removed.len(), 6);
    assert_eq!(removed[0], "flow-notes-backup-2026-01-06-120000.json");
    assert_eq!(removed[5], "flow-notes-backup-2026-01-01-120000.json");
    let few: Vec<String> = vec!["flow-notes-backup-2026-01-01-120000.json".to_string()];
    assert!(automatic_backups_to_prune(&few).is_empty());
}

#[test]
fn flags_round_trip_and_read_loosely() {
    assert_eq!(bool_to_setting(true), "1");
    assert_eq!(bool_to_setting(false), "0");
    assert!(setting_to_bool(bool_to_setting(true)));
    assert!(!setting_to_bool(bool_to_setting(false)));
    assert!(setting_to_bool(" True "));
    assert!(setting_to_bool("TRUE"));
    assert!(setting_to_bool("true"));
    assert!(!setting_to_bool("yes"));
    assert!(!setting_to_bool("tRue"));
}

#[test]
fn user_choices_are_checked() {
    assert_eq!(normalize_launch_behavior(" open\n").unwrap(), "open");
    assert_eq!(normalize_launch_behavior("background").unwrap(), "background");
    assert_eq!(
        normalize_launch_behavior("Open").unwrap_err(),
        "Launch behavior must be open or background"
    );
    assert_eq!(normalize_note_text_size("small").unwrap(), "small");
    assert_eq!(normalize_note_text_size(" default ").unwrap(), "default");
    assert_eq!(normalize_note_text_size("large").unwrap(), "large");
    assert!(normalize_note_text_size("medium").is_err());
    assert_eq!(validate_shortcut("  Alt+N ").unwrap(), "Alt+N");
    assert_eq!(validate_shortcut(" \t").unwrap_err(), "Shortcut cannot be empty");
}

#[test]
fn trimming_uses_unicode_whitespace() {
    assert_eq!(trim_text("\u{3000}\u{a0} note \u{2028}"), "note");
    assert_eq!(trim_text(""), "");
    assert_eq!(trim_text(" a b "), "a b");
    assert!(text_less("abc", "abd"));
    assert!(text_less("ab", "abc"));
    assert!(!text_less("b", "abc"));
    assert!(!text_less("abc", "abc"));
}

#[test]
fn reminder_times_are_normalized_to_utc_milliseconds() {
    assert_eq!(normalize_remind_at(None).unwrap(), None);
    assert_eq!(normalize_remind_at(Some("   ".to_string())).unwrap(), None);
    assert_eq!(
        normalize_remind_at(Some(" 2026-05-27T12:00:00+02:00 ".to_string())).unwrap(),
        Some("2026-05-27T10:00:00.000Z".to_string())
    );
    assert_eq!(
        normalize_remind_at(Some("2026-05-27T10:00:00.123456Z".to_string())).unwrap(),
        Some("2026-05-27T10:00:00.123Z".to_string())
    );
    assert_eq!(
        normalize_remind_at(Some("2026-05-27".to_string())).unwrap_err(),
        "Reminder must be a valid date"
    );
    let now = now_iso().unwrap();
    assert_eq!(now.len(), 24);
    assert!(now.ends_with('Z'));
}

#[test]
fn backups_fall_due_after_a_day() {
    let now = Timestamp { secs: 1_800_000_000, nanos: 0 };
    let last = |s: &str| Some(s.to_string());
    assert!(!backup_due(false, true, None, now));
    assert!(backup_due(true, true, last("2099-01-01T00:00:00Z"), now));
    assert!(backup_due(true, false, None, now));
    assert!(backup_due(true, false, last("garbage"), now));
    // 1_800_000_000 is 2027-01-15T08:00:00Z.
    assert!(backup_due(true, false, last("2027-01-14T08:00:00Z"), now));
    assert!(!backup_due(true, false, last("2027-01-14T08:00:00.001Z"), now));
    assert_eq!(
        elapsed_nanos_between(now, Timestamp { secs: 1_799_913_600, nanos: 500 }),
        86_400_000_000_000 - 500
    );
}

#[test]
fn windows_hide_unless_quitting() {
    assert_eq!(close_request_action(Some(true)), CloseAction::Close);
    assert_eq!(close_request_action(Some(false)), CloseAction::Hide);
    assert_eq!(close_request_action(None), CloseAction::Hide);
    assert_eq!(
        quick_capture_window_event(WindowEventKind::FocusLost, None, None),
        QuickCaptureAction::Hide
    );
    assert_eq!(
        quick_capture_window_event(WindowEventKind::FocusLost, Some(false), Some(false)),
        QuickCaptureAction::Nothing
    );
    assert_eq!(
        quick_capture_window_event(WindowEventKind::FocusLost, Some(true), Some(true)),
        QuickCaptureAction::Nothing
    );
    assert_eq!(
        quick_capture_window_event(WindowEventKind::CloseRequested, Some(true), None),
        QuickCaptureAction::Close
    );
    assert_eq!(
        quick_capture_window_event(WindowEventKind::Other, None, None),
        QuickCaptureAction::Nothing
    );
    assert!(exit_request_refused(None));
    assert!(!exit_request_refused(Some(true)));
    assert!(scheduler_should_stop(None));
    assert!(!scheduler_should_stop(Some(false)));
}

#[test]
fn menus_and_autostart() {
    assert_eq!(tray_menu_command("open"), MenuCommand::ShowMain);
    assert_eq!(tray_menu_command("settings"), MenuCommand::ShowSettings);
    assert_eq!(tray_menu_command("quit"), MenuCommand::Quit);
    assert_eq!(tray_menu_command("other"), MenuCommand::Ignore);
    assert_eq!(app_menu_command("open"), MenuCommand::Ignore);
    assert_eq!(app_menu_command("quit"), MenuCommand::Quit);
    assert_eq!(autostart_change(true, false), AutostartChange::Enable);
    assert_eq!(autostart_change(true, true), AutostartChange::Keep);
    assert_eq!(autostart_change(false, true), AutostartChange::Disable);
    assert_eq!(autostart_change(false, false), AutostartChange::Keep);
}

#[test]
fn folders_and_launch_agents() {
    let mac = open_path_in_file_manager(Platform::MacOs, "/tmp/b").unwrap();
    assert_eq!(mac.program, "open");
    assert_eq!(mac.argument, "/tmp/b");
    assert_eq!(open_path_in_file_manager(Platform::Linux, "/tmp/b").unwrap().program, "xdg-open");
    assert_eq!(
        open_path_in_file_manager(Platform::Other, "C:\\b").unwrap_err(),
        "Opening folders is not supported on this platform: C:\\b"
    );
    assert_eq!(prefer_installed_launch_agent_path(false, "/x"), None);
    assert_eq!(
        prefer_installed_launch_agent_path(true, "/Applications/Flow Notes.app/Contents/MacOS/flow-notes"),
        None
    );
    assert_eq!(
        prefer_installed_launch_agent_path(true, "/Applications/Flow Notes.app/Contents/MacOS/flow-notes/"),
        None
    );
    assert_eq!(
        prefer_installed_launch_agent_path(true, "//Applications/./Flow Notes.app//Contents/MacOS/flow-notes"),
        None
    );
    assert!(prefer_installed_launch_agent_path(true, "Applications/Flow Notes.app/Contents/MacOS/flow-notes").is_some());
    assert!(prefer_installed_launch_agent_path(true, "/Applications/Flow Notes.app/Contents/MacOS/flow-notes2").is_some());
    assert!(prefer_installed_launch_agent_path(true, "/Applications/Flow Notes.app/Contents/MacOS").is_some());
    let plist = prefer_installed_launch_agent_path(true, "/tmp/dev/flow-notes").unwrap();
    assert!(plist.contains("<string>/Applications/Flow Notes.app/Contents/MacOS/flow-notes</string>"));
    assert!(plist.contains("<string>--login-launch</string>"));
    assert!(plist.contains("<string>Flow Notes</string>"));
    assert!(legacy_login_item_script().contains("delete login item \"Flow Notes\""));
    assert_eq!(reminder_title(None), "Flow Notes Reminder");
    assert_eq!(reminder_title(Some("Hi".to_string())), "Hi");
}

#[test]
fn shortcut_changes_register_before_unregistering() {
    assert!(matches!(plan_shortcut_change("A", "A"), ShortcutStep::Unchanged(s) if s == "A"));
    assert!(matches!(plan_shortcut_change("A", "B"), ShortcutStep::Register(s) if s == "B"));
    assert!(matches!(after_shortcut_registered("A", Ok(())), ShortcutStep::Unregister(s) if s == "A"));
    assert!(matches!(after_shortcut_registered("A", Err("busy".to_string())),
        ShortcutStep::Fail(m) if m == "Could not register shortcut: busy"));
    assert!(matches!(after_shortcut_unregistered("B", Ok(())), ShortcutStep::Save(s) if s == "B"));
    assert!(matches!(after_shortcut_unregistered("B", Err("gone".to_string())),
        ShortcutStep::RollBack(s, m) if s == "B" && m == "Could not update shortcut: gone"));
    assert_eq!(after_shortcut_parsed("B".to_string(), Ok(())).unwrap(), "B");
    assert_eq!(
        after_shortcut_parsed("B".to_string(), Err("bad key".to_string())).unwrap_err(),
        "Invalid shortcut: bad key"
    );
}

#[test]
fn backup_notes_must_be_complete() {
    let note = |id: &str, text: &str| BackupNote {
        id: id.to_string(),
        text: text.to_string(),
        created_at: "c".to_string(),
        updated_at: "u".to_string(),
        favorite: 0,
        remind_at: None,
    };
    assert!(validate_backup_notes(&[note("a", "b")]).is_ok());
    assert!(validate_backup_notes(&[]).is_ok());
    assert_eq!(
        validate_backup_notes(&[note("a", "b"), note(" ", "b")]).unwrap_err(),
        "Backup JSON has invalid note data"
    );
}

#[test]
fn pending_reminders_are_not_notified_twice() {
    let mut db = Connection::open_in_memory().unwrap();
    create_schema(&mut db).unwrap();
    create_note_with(&mut db, "a", "t", "x", None, Some("2026-01-01T00:00:00Z".to_string())).unwrap();
    create_note_with(&mut db, "b", "t", "y", None, Some("2026-01-01T00:00:00Z".to_string())).unwrap();
    let mut state = ReminderState::new();
    // A note that vanished cannot be cleared: it becomes pending.
    assert!(after_notification(&mut state, &mut db, "gone").is_err());
    assert!(state.is_pending("gone"));
    let cleared = after_notification(&mut state, &mut db, "a").unwrap();
    assert_eq!(cleared.remind_at, None);
    assert!(!state.is_pending("a"));
    let due = select_due_reminder_notes_at(&db, "2026-06-01T00:00:00.000Z").unwrap();
    assert_eq!(due.len(), 1);
    assert_eq!(reminders_to_notify(&state, &due).len(), 1);
    assert!(after_notification(&mut state, &mut db, "b").is_ok());
    // Retrying keeps what still fails.
    let outcome = retry_pending_clears(&mut state, &mut db);
    assert!(outcome.cleared.is_empty());
    assert_eq!(outcome.failed.len(), 1);
    assert!(state.is_pending("gone"));
    assert_eq!(state.pending_list(), vec!["gone".to_string()]);
}

#[test]
fn retried_clears_clear_the_stored_reminder_and_nothing_else() {
    let mut db = Connection::open_in_memory().unwrap();
    create_schema(&mut db).unwrap();
    create_note_with(&mut db, "a", "t", "x", None, Some("2026-01-01T00:00:00Z".to_string())).unwrap();
    create_note_with(&mut db, "b", "t", "y", None, Some("2026-01-01T00:00:00Z".to_string())).unwrap();
    db.execute_batch(
        "CREATE TRIGGER refuse BEFORE UPDATE ON notes WHEN OLD.id = 'a' BEGIN SELECT RAISE(ABORT, 'refused'); END;",
    )
    .unwrap();
    let mut state = ReminderState::new();
    assert!(after_notification(&mut state, &mut db, "a").is_err());
    assert!(state.is_pending("a"));
    let a = flow_notes::store::select_note(&db, "a").unwrap().unwrap();
    assert_eq!(a.remind_at, Some("2026-01-01T00:00:00.000Z".to_string()));
    db.execute_batch("DROP TRIGGER refuse;").unwrap();
    let outcome = retry_pending_clears(&mut state, &mut db);
    assert_eq!(outcome.cleared.len(), 1);
    assert!(outcome.failed.is_empty());
    assert!(!state.is_pending("a"));
    let a = flow_notes::store::select_note(&db, "a").unwrap().unwrap();
    assert_eq!(a.remind_at, None);
    assert_eq!(a.updated_at, outcome.cleared[0].updated_at);
    assert_ne!(a.updated_at, "t");
    let b = flow_notes::store::select_note(&db, "b").unwrap().unwrap();
    assert_eq!(b.remind_at, Some("2026-01-01T00:00:00.000Z".to_string()));
    assert_eq!(b.updated_at, "t");
}

#[test]
fn clock_and_ids_are_read_without_panicking() {
    let now = flow_notes::clock::utc_now().unwrap();
    assert!(now.nanos < 1_000_000_000);
    assert!(now.secs > 1_600_000_000);
    let local = flow_notes::clock::local_now().unwrap();
    assert!((1..=12).contains(&local.month));
    assert!((1..=31).contains(&local.day));
    assert!(local.hour < 24 && local.minute < 60 && local.second < 60);
    let id = flow_notes::store::new_note_id().unwrap();
    assert_eq!(id.len(), 36);
    for (i, c) in id.chars().enumerate() {
        if i == 8 || i == 13 || i == 18 || i == 23 {
            assert_eq!(c, '-');
        } else {
            assert!(c.is_ascii_digit() || ('a'..='f').contains(&c));
        }
    }
    assert_eq!(id.chars().nth(14), Some('4'));
    assert!("89ab".contains(id.chars().nth(19).unwrap()));
    assert_ne!(id, flow_notes::store::new_note_id().unwrap());
}

#[test]
fn outcomes_of_changed_row_counts() {
    assert_eq!(delete_outcome(0).unwrap_err(), "Note not found");
    assert!(delete_outcome(1).is_ok());
    assert_eq!(
        reminder_clear_outcome(0).unwrap_err(),
        "Reminder already cleared or note not found"
    );
    assert!(reminder_clear_outcome(1).is_ok());
}

#[test]
fn update_plans_check_in_order() {
    let note = || Note {
        id: "n".to_string(),
        text: "Old".to_string(),
        created_at: "c".to_string(),
        updated_at: "u".to_string(),
        favorite: true,
        remind_at: Some("2026-01-01T00:00:00.000Z".to_string()),
    };
    assert_eq!(
        plan_update(None, Some("  ".to_string()), None, Some("bad".to_string()), None).err(),
        Some("Note not found".to_string())
    );
    assert_eq!(
        plan_update(Some(note()), Some("  ".to_string()), None, Some("bad".to_string()), None).err(),
        Some("Text is required".to_string())
    );
    assert_eq!(
        plan_update(Some(note()), None, None, Some("bad".to_string()), None).err(),
        Some("Reminder must be a valid date".to_string())
    );
    let kept = plan_update(Some(note()), Some(" New ".to_string()), None, None, None).unwrap();
    assert_eq!(kept.text, "New");
    assert!(kept.favorite);
    assert_eq!(kept.remind_at, Some("2026-01-01T00:00:00.000Z".to_string()));
    let cleared = plan_update(Some(note()), None, Some(false), Some("bad".to_string()), Some(true)).unwrap();
    assert_eq!(cleared.text, "Old");
    assert!(!cleared.favorite);
    assert_eq!(cleared.remind_at, None);
}
