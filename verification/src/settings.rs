//! Settings: their keys and defaults, how a stored text reads as a flag,
//! and the validation of the values a user may choose.
use vstd::prelude::*;
use rusqlite::Connection;
use crate::clock::opt_view;
use crate::db::{failed_statement, rolled_back, same_transaction, setting_lookup, stored_notes, stored_settings};
use crate::store::{get_setting, is_own_message, set_setting};
use crate::text::{is_space, owned, same_text, trim_end, trim_start, trim_text, trimmed};

verus! {

/// Key of the launch-at-login flag.
pub const SETTING_LAUNCH_AT_LOGIN: &'static str = "launch_at_login";
/// Key of the launch behavior (`open` or `background`).
pub const SETTING_LAUNCH_BEHAVIOR: &'static str = "launch_behavior";
/// Key of the note text size (`small`, `default` or `large`).
pub const SETTING_NOTE_TEXT_SIZE: &'static str = "note_text_size";
/// Key of the Quick Capture shortcut.
pub const SETTING_QUICK_CAPTURE_SHORTCUT: &'static str = "quick_capture_shortcut";
/// Key of the hide-Quick-Capture-on-blur flag.
pub const SETTING_HIDE_QUICK_CAPTURE_ON_BLUR: &'static str = "hide_quick_capture_on_blur";
/// Key of the automatic-backups flag.
pub const SETTING_AUTOMATIC_BACKUPS: &'static str = "automatic_backups";
/// Key of the time of the last automatic backup.
pub const SETTING_LAST_AUTOMATIC_BACKUP_AT: &'static str = "last_automatic_backup_at";
/// The Quick Capture shortcut used until the user picks another.
pub const DEFAULT_QUICK_CAPTURE_SHORTCUT: &'static str = "CommandOrControl+Shift+Space";
/// The launch behavior used until the user picks another.
pub const DEFAULT_LAUNCH_BEHAVIOR: &'static str = "background";
/// The note text size used until the user picks another.
pub const DEFAULT_NOTE_TEXT_SIZE: &'static str = "default";

/// The stored text of a flag.
pub open spec fn flag_text(value: bool) -> Seq<char> {
    if value {
        "1"@
    } else {
        "0"@
    }
}

/// Whether a stored text reads as a set flag: after trimming it is `1`,
/// `true`, `TRUE` or `True`.
pub open spec fn reads_as_set(value: Seq<char>) -> bool {
    let t = trimmed(value);
    t == "1"@ || t == "true"@ || t == "TRUE"@ || t == "True"@
}

/// The launch behaviors a user may choose.
pub open spec fn is_launch_behavior(value: Seq<char>) -> bool {
    value == "open"@ || value == "background"@
}

/// The note text sizes a user may choose.
pub open spec fn is_note_text_size(value: Seq<char>) -> bool {
    value == "small"@ || value == "default"@ || value == "large"@
}

/// The text a flag is stored as: `1` when set, `0` when not.
pub fn bool_to_setting(value: bool) -> (r: &'static str)
    ensures
        r@ == flag_text(value),
{
    if value {
        "1"
    } else {
        "0"
    }
}

/// Reads a stored text as a flag.
pub fn setting_to_bool(value: &str) -> (r: bool)
    ensures
        r == reads_as_set(value@),
{
    let t = trim_text(value);
    let t = t.as_str();
    same_text(t, "1") || same_text(t, "true") || same_text(t, "TRUE") || same_text(t, "True")
}

/// A flag stored with `bool_to_setting` reads back as the same flag.
pub proof fn lemma_flag_round_trip(value: bool)
    ensures
        reads_as_set(flag_text(value)) == value,
{
    reveal_strlit("1");
    reveal_strlit("0");
    reveal_strlit("true");
    reveal_strlit("TRUE");
    reveal_strlit("True");
    let s = flag_text(value);
    assert(!is_space(s[0]));
    assert(trim_start(s) == s);
    assert(s.last() == s[0]);
    assert(trim_end(s) == s);
}

/// Checks a launch behavior: the trimmed text when it is `open` or
/// `background`, an error otherwise.
pub fn normalize_launch_behavior(value: &str) -> (r: Result<String, String>)
    ensures
        is_launch_behavior(trimmed(value@)) ==> (r matches Ok(v) && v@ == trimmed(value@)),
        !is_launch_behavior(trimmed(value@)) ==> (r matches Err(e) && e@ == "Launch behavior must be open or background"@),
{
    let t = trim_text(value);
    if same_text(t.as_str(), "open") || same_text(t.as_str(), "background") {
        Ok(t)
    } else {
        Err(owned("Launch behavior must be open or background"))
    }
}

/// Checks a note text size: the trimmed text when it is `small`, `default`
/// or `large`, an error otherwise.
pub fn normalize_note_text_size(value: &str) -> (r: Result<String, String>)
    ensures
        is_note_text_size(trimmed(value@)) ==> (r matches Ok(v) && v@ == trimmed(value@)),
        !is_note_text_size(trimmed(value@)) ==> (r matches Err(e) && e@ == "Note text size must be small, default, or large"@),
{
    let t = trim_text(value);
    if same_text(t.as_str(), "small") || same_text(t.as_str(), "default") || same_text(
        t.as_str(),
        "large",
    ) {
        Ok(t)
    } else {
        Err(owned("Note text size must be small, default, or large"))
    }
}

/// The first check of a shortcut: the trimmed text, which must not be empty.
/// Whether the text names a key combination is decided by the shortcut
/// parser of the desktop shell, after this check.
pub fn validate_shortcut(accelerator: &str) -> (r: Result<String, String>)
    ensures
        trimmed(accelerator@).len() > 0 ==> (r matches Ok(v) && v@ == trimmed(accelerator@)),
        trimmed(accelerator@).len() == 0 ==> (r matches Err(e) && e@ == "Shortcut cannot be empty"@),
{
    let t = trim_text(accelerator);
    if t.as_str().unicode_len() == 0 {
        Err(owned("Shortcut cannot be empty"))
    } else {
        Ok(t)
    }
}

/// The settings as the settings window shows them.
#[derive(Clone, Debug)]
pub struct AppSettings {
    pub launch_at_login: bool,
    pub launch_behavior: String,
    pub note_text_size: String,
    pub quick_capture_shortcut: String,
    pub hide_quick_capture_on_blur: bool,
    pub automatic_backups: bool,
    pub last_automatic_backup_at: Option<String>,
}

/// The stored text of a setting, or the given default when it is missing.
pub open spec fn text_setting(m: Map<Seq<char>, Seq<char>>, key: Seq<char>, default: Seq<char>) -> Seq<char> {
    setting_lookup(m, key).unwrap_or(default)
}

/// A flag setting read from its stored text, or from the given default text
/// when it is missing.
pub open spec fn flag_setting(m: Map<Seq<char>, Seq<char>>, key: Seq<char>, default: Seq<char>) -> bool {
    reads_as_set(text_setting(m, key, default))
}

/// Whether the settings window shows what the settings table holds, with the
/// defaults for missing settings: launch at login off, launch in the
/// background, default text size, the default shortcut, hide on blur on,
/// automatic backups on, and no last backup.
pub open spec fn shows_settings(a: AppSettings, m: Map<Seq<char>, Seq<char>>) -> bool {
    &&& a.launch_at_login == flag_setting(m, SETTING_LAUNCH_AT_LOGIN@, "0"@)
    &&& a.launch_behavior@ == text_setting(m, SETTING_LAUNCH_BEHAVIOR@, DEFAULT_LAUNCH_BEHAVIOR@)
    &&& a.note_text_size@ == text_setting(m, SETTING_NOTE_TEXT_SIZE@, DEFAULT_NOTE_TEXT_SIZE@)
    &&& a.quick_capture_shortcut@ == text_setting(
        m,
        SETTING_QUICK_CAPTURE_SHORTCUT@,
        DEFAULT_QUICK_CAPTURE_SHORTCUT@,
    )
    &&& a.hide_quick_capture_on_blur == flag_setting(m, SETTING_HIDE_QUICK_CAPTURE_ON_BLUR@, "1"@)
    &&& a.automatic_backups == flag_setting(m, SETTING_AUTOMATIC_BACKUPS@, "1"@)
    &&& opt_view(a.last_automatic_backup_at) == setting_lookup(m, SETTING_LAST_AUTOMATIC_BACKUP_AT@)
}

/// What the settings window shows, field by field: each field is read from
/// its own key, with its own default when the key is missing.
pub proof fn law_settings_fields(a: AppSettings, m: Map<Seq<char>, Seq<char>>)
    requires
        shows_settings(a, m),
    ensures
        a.launch_at_login == reads_as_set(setting_lookup(m, "launch_at_login"@).unwrap_or("0"@)),
        a.launch_behavior@ == setting_lookup(m, "launch_behavior"@).unwrap_or("background"@),
        a.note_text_size@ == setting_lookup(m, "note_text_size"@).unwrap_or("default"@),
        a.quick_capture_shortcut@ == setting_lookup(m, "quick_capture_shortcut"@).unwrap_or(
            "CommandOrControl+Shift+Space"@,
        ),
        a.hide_quick_capture_on_blur == reads_as_set(
            setting_lookup(m, "hide_quick_capture_on_blur"@).unwrap_or("1"@),
        ),
        a.automatic_backups == reads_as_set(setting_lookup(m, "automatic_backups"@).unwrap_or("1"@)),
        opt_view(a.last_automatic_backup_at) == setting_lookup(m, "last_automatic_backup_at"@),
{
}

/// The hide-on-blur flag the settings window shows depends on its own key
/// only: storing another value under the automatic-backups key, or under the
/// launch-at-login key, leaves it as it was.
pub proof fn law_hide_flag_ignores_other_keys(
    a: AppSettings,
    b: AppSettings,
    m: Map<Seq<char>, Seq<char>>,
    key: Seq<char>,
    value: Seq<char>,
)
    requires
        shows_settings(a, m),
        shows_settings(b, m.insert(key, value)),
        key != "hide_quick_capture_on_blur"@,
    ensures
        a.hide_quick_capture_on_blur == b.hide_quick_capture_on_blur,
{
    law_settings_fields(a, m);
    law_settings_fields(b, m.insert(key, value));
    assert(setting_lookup(m.insert(key, value), "hide_quick_capture_on_blur"@) == setting_lookup(
        m,
        "hide_quick_capture_on_blur"@,
    ));
}

/// Filling in the defaults at startup changes nothing the settings window
/// shows, except that a missing launch-at-login flag is stored as what the
/// system reports: after it, every setting the window reads holds the stored
/// value, or else the very default the window assumes for that setting.
pub proof fn law_defaults_read_as_before(m: Map<Seq<char>, Seq<char>>, launch_at_login: bool)
    ensures
        setting_lookup(with_defaults(m, launch_at_login), "launch_at_login"@) == Some(
            setting_lookup(m, "launch_at_login"@).unwrap_or(
                if launch_at_login {
                    "1"@
                } else {
                    "0"@
                },
            ),
        ),
        setting_lookup(with_defaults(m, launch_at_login), "launch_behavior"@) == Some(
            setting_lookup(m, "launch_behavior"@).unwrap_or("background"@),
        ),
        setting_lookup(with_defaults(m, launch_at_login), "note_text_size"@) == Some(
            setting_lookup(m, "note_text_size"@).unwrap_or("default"@),
        ),
        setting_lookup(with_defaults(m, launch_at_login), "quick_capture_shortcut"@) == Some(
            setting_lookup(m, "quick_capture_shortcut"@).unwrap_or("CommandOrControl+Shift+Space"@),
        ),
        setting_lookup(with_defaults(m, launch_at_login), "hide_quick_capture_on_blur"@) == Some(
            setting_lookup(m, "hide_quick_capture_on_blur"@).unwrap_or("1"@),
        ),
        setting_lookup(with_defaults(m, launch_at_login), "automatic_backups"@) == Some(
            setting_lookup(m, "automatic_backups"@).unwrap_or("1"@),
        ),
        setting_lookup(with_defaults(m, launch_at_login), "last_automatic_backup_at"@) == setting_lookup(
            m,
            "last_automatic_backup_at"@,
        ),
{
    reveal_strlit("launch_at_login");
    reveal_strlit("quick_capture_shortcut");
    reveal_strlit("hide_quick_capture_on_blur");
    reveal_strlit("launch_behavior");
    reveal_strlit("note_text_size");
    reveal_strlit("automatic_backups");
    reveal_strlit("last_automatic_backup_at");
    assert("launch_at_login"@.len() == 15);
    assert("quick_capture_shortcut"@.len() == 22);
    assert("hide_quick_capture_on_blur"@.len() == 26);
    assert("launch_behavior"@.len() == 15);
    assert("note_text_size"@.len() == 14);
    assert("automatic_backups"@.len() == 17);
    assert("last_automatic_backup_at"@.len() == 24);
    assert("launch_at_login"@[7] != "launch_behavior"@[7]);
    let m1 = filled(m, "launch_at_login"@, if launch_at_login { "1"@ } else { "0"@ });
    let m2 = filled(m1, "quick_capture_shortcut"@, "CommandOrControl+Shift+Space"@);
    let m3 = filled(m2, "hide_quick_capture_on_blur"@, "1"@);
    let m4 = filled(m3, "launch_behavior"@, "background"@);
    let m5 = filled(m4, "note_text_size"@, "default"@);
    let m6 = filled(m5, "automatic_backups"@, "1"@);
    assert(with_defaults(m, launch_at_login) == m6);
    lemma_filled_same(m, "launch_at_login"@, if launch_at_login { "1"@ } else { "0"@ });
    lemma_filled_other(m1, "quick_capture_shortcut"@, "CommandOrControl+Shift+Space"@, "launch_at_login"@);
    lemma_filled_other(m2, "hide_quick_capture_on_blur"@, "1"@, "launch_at_login"@);
    lemma_filled_other(m3, "launch_behavior"@, "background"@, "launch_at_login"@);
    lemma_filled_other(m4, "note_text_size"@, "default"@, "launch_at_login"@);
    lemma_filled_other(m5, "automatic_backups"@, "1"@, "launch_at_login"@);
    lemma_filled_other(m, "launch_at_login"@, if launch_at_login { "1"@ } else { "0"@ }, "quick_capture_shortcut"@);
    lemma_filled_same(m1, "quick_capture_shortcut"@, "CommandOrControl+Shift+Space"@);
    lemma_filled_other(m2, "hide_quick_capture_on_blur"@, "1"@, "quick_capture_shortcut"@);
    lemma_filled_other(m3, "launch_behavior"@, "background"@, "quick_capture_shortcut"@);
    lemma_filled_other(m4, "note_text_size"@, "default"@, "quick_capture_shortcut"@);
    lemma_filled_other(m5, "automatic_backups"@, "1"@, "quick_capture_shortcut"@);
    lemma_filled_other(m, "launch_at_login"@, if launch_at_login { "1"@ } else { "0"@ }, "hide_quick_capture_on_blur"@);
    lemma_filled_other(m1, "quick_capture_shortcut"@, "CommandOrControl+Shift+Space"@, "hide_quick_capture_on_blur"@);
    lemma_filled_same(m2, "hide_quick_capture_on_blur"@, "1"@);
    lemma_filled_other(m3, "launch_behavior"@, "background"@, "hide_quick_capture_on_blur"@);
    lemma_filled_other(m4, "note_text_size"@, "default"@, "hide_quick_capture_on_blur"@);
    lemma_filled_other(m5, "automatic_backups"@, "1"@, "hide_quick_capture_on_blur"@);
    lemma_filled_other(m, "launch_at_login"@, if launch_at_login { "1"@ } else { "0"@ }, "launch_behavior"@);
    lemma_filled_other(m1, "quick_capture_shortcut"@, "CommandOrControl+Shift+Space"@, "launch_behavior"@);
    lemma_filled_other(m2, "hide_quick_capture_on_blur"@, "1"@, "launch_behavior"@);
    lemma_filled_same(m3, "launch_behavior"@, "background"@);
    lemma_filled_other(m4, "note_text_size"@, "default"@, "launch_behavior"@);
    lemma_filled_other(m5, "automatic_backups"@, "1"@, "launch_behavior"@);
    lemma_filled_other(m, "launch_at_login"@, if launch_at_login { "1"@ } else { "0"@ }, "note_text_size"@);
    lemma_filled_other(m1, "quick_capture_shortcut"@, "CommandOrControl+Shift+Space"@, "note_text_size"@);
    lemma_filled_other(m2, "hide_quick_capture_on_blur"@, "1"@, "note_text_size"@);
    lemma_filled_other(m3, "launch_behavior"@, "background"@, "note_text_size"@);
    lemma_filled_same(m4, "note_text_size"@, "default"@);
    lemma_filled_other(m5, "automatic_backups"@, "1"@, "note_text_size"@);
    lemma_filled_other(m, "launch_at_login"@, if launch_at_login { "1"@ } else { "0"@ }, "automatic_backups"@);
    lemma_filled_other(m1, "quick_capture_shortcut"@, "CommandOrControl+Shift+Space"@, "automatic_backups"@);
    lemma_filled_other(m2, "hide_quick_capture_on_blur"@, "1"@, "automatic_backups"@);
    lemma_filled_other(m3, "launch_behavior"@, "background"@, "automatic_backups"@);
    lemma_filled_other(m4, "note_text_size"@, "default"@, "automatic_backups"@);
    lemma_filled_same(m5, "automatic_backups"@, "1"@);
    lemma_filled_other(m, "launch_at_login"@, if launch_at_login { "1"@ } else { "0"@ }, "last_automatic_backup_at"@);
    lemma_filled_other(m1, "quick_capture_shortcut"@, "CommandOrControl+Shift+Space"@, "last_automatic_backup_at"@);
    lemma_filled_other(m2, "hide_quick_capture_on_blur"@, "1"@, "last_automatic_backup_at"@);
    lemma_filled_other(m3, "launch_behavior"@, "background"@, "last_automatic_backup_at"@);
    lemma_filled_other(m4, "note_text_size"@, "default"@, "last_automatic_backup_at"@);
    lemma_filled_other(m5, "automatic_backups"@, "1"@, "last_automatic_backup_at"@);
}

proof fn lemma_filled_same(m: Map<Seq<char>, Seq<char>>, key: Seq<char>, value: Seq<char>)
    ensures
        setting_lookup(filled(m, key, value), key) == Some(setting_lookup(m, key).unwrap_or(value)),
{
}

proof fn lemma_filled_other(m: Map<Seq<char>, Seq<char>>, key: Seq<char>, value: Seq<char>, other: Seq<char>)
    requires
        other != key,
    ensures
        setting_lookup(filled(m, key, value), other) == setting_lookup(m, other),
{
}

/// The stored text of a setting, or a default when it is missing.
fn text_or(db: &Connection, key: &str, default: &str) -> (r: Result<String, String>)
    ensures
        r matches Err(e) ==> !is_own_message(e@),
        r matches Ok(v) ==> v@ == text_setting(stored_settings(*db), key@, default@),
{
    match get_setting(db, key) {
        Ok(Some(v)) => Ok(v),
        Ok(None) => Ok(owned(default)),
        Err(e) => Err(e),
    }
}

/// A flag setting, read from its stored text or from a default text when it
/// is missing.
fn flag_or(db: &Connection, key: &str, default: &str) -> (r: Result<bool, String>)
    ensures
        r matches Err(e) ==> !is_own_message(e@),
        r matches Ok(v) ==> v == flag_setting(stored_settings(*db), key@, default@),
{
    match text_or(db, key, default) {
        Ok(v) => Ok(setting_to_bool(v.as_str())),
        Err(e) => Err(e),
    }
}

/// Reads the settings, with defaults for missing ones (see `shows_settings`).
pub fn read_settings(db: &Connection) -> (r: Result<AppSettings, String>)
    ensures
        r matches Err(e) ==> !is_own_message(e@),
        r matches Ok(a) ==> shows_settings(a, stored_settings(*db)),
{
    let launch_at_login = match flag_or(db, SETTING_LAUNCH_AT_LOGIN, "0") {
        Ok(v) => v,
        Err(e) => return Err(e),
    };
    let quick_capture_shortcut = match text_or(
        db,
        SETTING_QUICK_CAPTURE_SHORTCUT,
        DEFAULT_QUICK_CAPTURE_SHORTCUT,
    ) {
        Ok(v) => v,
        Err(e) => return Err(e),
    };
    let hide_quick_capture_on_blur = match flag_or(db, SETTING_HIDE_QUICK_CAPTURE_ON_BLUR, "1") {
        Ok(v) => v,
        Err(e) => return Err(e),
    };
    let launch_behavior = match text_or(db, SETTING_LAUNCH_BEHAVIOR, DEFAULT_LAUNCH_BEHAVIOR) {
        Ok(v) => v,
        Err(e) => return Err(e),
    };
    let note_text_size = match text_or(db, SETTING_NOTE_TEXT_SIZE, DEFAULT_NOTE_TEXT_SIZE) {
        Ok(v) => v,
        Err(e) => return Err(e),
    };
    let automatic_backups = match flag_or(db, SETTING_AUTOMATIC_BACKUPS, "1") {
        Ok(v) => v,
        Err(e) => return Err(e),
    };
    let last_automatic_backup_at = match get_setting(db, SETTING_LAST_AUTOMATIC_BACKUP_AT) {
        Ok(v) => v,
        Err(e) => return Err(e),
    };
    Ok(
        AppSettings {
            launch_at_login,
            launch_behavior,
            note_text_size,
            quick_capture_shortcut,
            hide_quick_capture_on_blur,
            automatic_backups,
            last_automatic_backup_at,
        },
    )
}

/// The settings with a value stored for a key that has none.
pub open spec fn filled(m: Map<Seq<char>, Seq<char>>, key: Seq<char>, value: Seq<char>) -> Map<
    Seq<char>,
    Seq<char>,
> {
    if m.contains_key(key) {
        m
    } else {
        m.insert(key, value)
    }
}

/// The settings after every missing setting gets its default; launch at
/// login gets what the system reports.
pub open spec fn with_defaults(m: Map<Seq<char>, Seq<char>>, launch_at_login: bool) -> Map<
    Seq<char>,
    Seq<char>,
> {
    let m1 = filled(m, SETTING_LAUNCH_AT_LOGIN@, flag_text(launch_at_login));
    let m2 = filled(m1, SETTING_QUICK_CAPTURE_SHORTCUT@, DEFAULT_QUICK_CAPTURE_SHORTCUT@);
    let m3 = filled(m2, SETTING_HIDE_QUICK_CAPTURE_ON_BLUR@, "1"@);
    let m4 = filled(m3, SETTING_LAUNCH_BEHAVIOR@, DEFAULT_LAUNCH_BEHAVIOR@);
    let m5 = filled(m4, SETTING_NOTE_TEXT_SIZE@, DEFAULT_NOTE_TEXT_SIZE@);
    filled(m5, SETTING_AUTOMATIC_BACKUPS@, "1"@)
}

/// Whether settings `b` lie between settings `a` and `a` with its defaults
/// filled in: every setting of `a` is kept, and each setting added carries
/// the value `with_defaults` gives it.
pub open spec fn partly_defaulted(a: Map<Seq<char>, Seq<char>>, b: Map<Seq<char>, Seq<char>>, launch_at_login: bool) -> bool {
    a.submap_of(b) && b.submap_of(with_defaults(a, launch_at_login))
}

/// Stores the default of a setting that has no value.
fn fill_default(db: &mut Connection, key: &str, value: &str) -> (r: Result<(), String>)
    ensures
        r is Err ==> failed_statement(*old(db), *final(db)),
        r is Ok ==> same_transaction(*old(db), *final(db)),
        r matches Err(e) ==> !is_own_message(e@),
        r is Ok ==> stored_settings(*final(db)) == filled(stored_settings(*old(db)), key@, value@),
        r is Ok ==> stored_notes(*final(db)) == stored_notes(*old(db)),
{
    match get_setting(db, key) {
        Ok(Some(_)) => Ok(()),
        Ok(None) => set_setting(db, key, value),
        Err(e) => Err(e),
    }
}

/// Gives every missing setting its default (see `with_defaults`); the
/// launch-at-login setting gets `launch_at_login`, which the caller reads from
/// the system when that setting is missing. Returns the Quick Capture
/// shortcut and the hide-on-blur flag as stored afterwards.
pub fn ensure_settings(db: &mut Connection, launch_at_login: bool) -> (r: Result<(String, bool), String>)
    ensures
        r is Err ==> (stored_notes(*final(db)) == stored_notes(*old(db)) && partly_defaulted(
            stored_settings(*old(db)),
            stored_settings(*final(db)),
            launch_at_login,
        )) || rolled_back(*old(db), *final(db)),
        r matches Err(e) ==> !is_own_message(e@),
        r is Ok ==> stored_settings(*final(db)) == with_defaults(stored_settings(*old(db)), launch_at_login),
        r is Ok ==> stored_notes(*final(db)) == stored_notes(*old(db)),
        r matches Ok((shortcut, hide)) ==> shortcut@ == text_setting(
            stored_settings(*final(db)),
            SETTING_QUICK_CAPTURE_SHORTCUT@,
            DEFAULT_QUICK_CAPTURE_SHORTCUT@,
        ) && hide == flag_setting(stored_settings(*final(db)), SETTING_HIDE_QUICK_CAPTURE_ON_BLUR@, "1"@),
{
    match fill_default(db, SETTING_LAUNCH_AT_LOGIN, bool_to_setting(launch_at_login)) {
        Ok(()) => {},
        Err(e) => return Err(e),
    }
    match fill_default(db, SETTING_QUICK_CAPTURE_SHORTCUT, DEFAULT_QUICK_CAPTURE_SHORTCUT) {
        Ok(()) => {},
        Err(e) => return Err(e),
    }
    match fill_default(db, SETTING_HIDE_QUICK_CAPTURE_ON_BLUR, "1") {
        Ok(()) => {},
        Err(e) => return Err(e),
    }
    match fill_default(db, SETTING_LAUNCH_BEHAVIOR, DEFAULT_LAUNCH_BEHAVIOR) {
        Ok(()) => {},
        Err(e) => return Err(e),
    }
    match fill_default(db, SETTING_NOTE_TEXT_SIZE, DEFAULT_NOTE_TEXT_SIZE) {
        Ok(()) => {},
        Err(e) => return Err(e),
    }
    match fill_default(db, SETTING_AUTOMATIC_BACKUPS, "1") {
        Ok(()) => {},
        Err(e) => return Err(e),
    }
    let shortcut = match text_or(db, SETTING_QUICK_CAPTURE_SHORTCUT, DEFAULT_QUICK_CAPTURE_SHORTCUT) {
        Ok(v) => v,
        Err(e) => return Err(e),
    };
    let hide = match flag_or(db, SETTING_HIDE_QUICK_CAPTURE_ON_BLUR, "1") {
        Ok(v) => v,
        Err(e) => return Err(e),
    };
    Ok((shortcut, hide))
}

/// Filling in defaults keeps every stored setting as it is and leaves a value
/// for each of the six settings that have defaults.
pub proof fn lemma_defaults_keep_and_complete(m: Map<Seq<char>, Seq<char>>, launch_at_login: bool)
    ensures
        forall|k: Seq<char>| #[trigger] m.contains_key(k) ==> with_defaults(m, launch_at_login).contains_key(k)
            && with_defaults(m, launch_at_login)[k] == m[k],
        with_defaults(m, launch_at_login).contains_key(SETTING_LAUNCH_AT_LOGIN@),
        with_defaults(m, launch_at_login).contains_key(SETTING_QUICK_CAPTURE_SHORTCUT@),
        with_defaults(m, launch_at_login).contains_key(SETTING_HIDE_QUICK_CAPTURE_ON_BLUR@),
        with_defaults(m, launch_at_login).contains_key(SETTING_LAUNCH_BEHAVIOR@),
        with_defaults(m, launch_at_login).contains_key(SETTING_NOTE_TEXT_SIZE@),
        with_defaults(m, launch_at_login).contains_key(SETTING_AUTOMATIC_BACKUPS@),
{
}

/// Stores a flag setting and gives the flag back.
fn store_flag(db: &mut Connection, key: &str, enabled: bool) -> (r: Result<bool, String>)
    ensures
        r is Err ==> failed_statement(*old(db), *final(db)),
        r is Ok ==> same_transaction(*old(db), *final(db)),
        r matches Err(e) ==> !is_own_message(e@),
        r matches Ok(b) ==> b == enabled,
        r is Ok ==> stored_settings(*final(db)) == stored_settings(*old(db)).insert(key@, flag_text(enabled)),
        r is Ok ==> stored_notes(*final(db)) == stored_notes(*old(db)),
{
    match set_setting(db, key, bool_to_setting(enabled)) {
        Ok(()) => Ok(enabled),
        Err(e) => Err(e),
    }
}

/// Stores the launch-at-login flag, once the system setting is changed.
pub fn set_launch_at_login(db: &mut Connection, enabled: bool) -> (r: Result<bool, String>)
    ensures
        r is Err ==> failed_statement(*old(db), *final(db)),
        r is Ok ==> same_transaction(*old(db), *final(db)),
        r matches Err(e) ==> !is_own_message(e@),
        r matches Ok(b) ==> b == enabled,
        r is Ok ==> stored_settings(*final(db)) == stored_settings(*old(db)).insert(
            SETTING_LAUNCH_AT_LOGIN@,
            flag_text(enabled),
        ),
        r is Ok ==> stored_notes(*final(db)) == stored_notes(*old(db)),
{
    store_flag(db, SETTING_LAUNCH_AT_LOGIN, enabled)
}

/// Stores whether Quick Capture hides when it loses focus.
pub fn set_hide_quick_capture_on_blur(db: &mut Connection, enabled: bool) -> (r: Result<bool, String>)
    ensures
        r is Err ==> failed_statement(*old(db), *final(db)),
        r is Ok ==> same_transaction(*old(db), *final(db)),
        r matches Err(e) ==> !is_own_message(e@),
        r matches Ok(b) ==> b == enabled,
        r is Ok ==> stored_settings(*final(db)) == stored_settings(*old(db)).insert(
            SETTING_HIDE_QUICK_CAPTURE_ON_BLUR@,
            flag_text(enabled),
        ),
        r is Ok ==> stored_notes(*final(db)) == stored_notes(*old(db)),
{
    store_flag(db, SETTING_HIDE_QUICK_CAPTURE_ON_BLUR, enabled)
}

/// Stores whether automatic backups run.
pub fn set_automatic_backups(db: &mut Connection, enabled: bool) -> (r: Result<bool, String>)
    ensures
        r is Err ==> failed_statement(*old(db), *final(db)),
        r is Ok ==> same_transaction(*old(db), *final(db)),
        r matches Err(e) ==> !is_own_message(e@),
        r matches Ok(b) ==> b == enabled,
        r is Ok ==> stored_settings(*final(db)) == stored_settings(*old(db)).insert(
            SETTING_AUTOMATIC_BACKUPS@,
            flag_text(enabled),
        ),
        r is Ok ==> stored_notes(*final(db)) == stored_notes(*old(db)),
{
    store_flag(db, SETTING_AUTOMATIC_BACKUPS, enabled)
}

/// Checks and stores the launch behavior; gives back the stored text.
pub fn set_launch_behavior(db: &mut Connection, behavior: &str) -> (r: Result<String, String>)
    ensures
        r is Err ==> failed_statement(*old(db), *final(db)),
        r is Ok ==> same_transaction(*old(db), *final(db)),
        is_launch_behavior(trimmed(behavior@)) ==> r is Ok || (r matches Err(e) && !is_own_message(e@)),
        !is_launch_behavior(trimmed(behavior@)) ==> (r matches Err(e) && e@
            == "Launch behavior must be open or background"@ && *final(db) == *old(db)),
        r matches Ok(v) ==> v@ == trimmed(behavior@) && stored_settings(*final(db)) == stored_settings(
            *old(db),
        ).insert(SETTING_LAUNCH_BEHAVIOR@, v@) && stored_notes(*final(db)) == stored_notes(*old(db)),
{
    let next = match normalize_launch_behavior(behavior) {
        Ok(v) => v,
        Err(e) => return Err(e),
    };
    match set_setting(db, SETTING_LAUNCH_BEHAVIOR, next.as_str()) {
        Ok(()) => Ok(next),
        Err(e) => Err(e),
    }
}

/// Checks and stores the note text size; gives back the stored text.
pub fn set_note_text_size(db: &mut Connection, size: &str) -> (r: Result<String, String>)
    ensures
        r is Err ==> failed_statement(*old(db), *final(db)),
        r is Ok ==> same_transaction(*old(db), *final(db)),
        is_note_text_size(trimmed(size@)) ==> r is Ok || (r matches Err(e) && !is_own_message(e@)),
        !is_note_text_size(trimmed(size@)) ==> (r matches Err(e) && e@
            == "Note text size must be small, default, or large"@ && *final(db) == *old(db)),
        r matches Ok(v) ==> v@ == trimmed(size@) && stored_settings(*final(db)) == stored_settings(
            *old(db),
        ).insert(SETTING_NOTE_TEXT_SIZE@, v@) && stored_notes(*final(db)) == stored_notes(*old(db)),
{
    let next = match normalize_note_text_size(size) {
        Ok(v) => v,
        Err(e) => return Err(e),
    };
    match set_setting(db, SETTING_NOTE_TEXT_SIZE, next.as_str()) {
        Ok(()) => Ok(next),
        Err(e) => Err(e),
    }
}

/// The stored launch-at-login flag (off when missing).
pub fn stored_launch_at_login(db: &Connection) -> (r: Result<bool, String>)
    ensures
        r matches Ok(b) ==> b == flag_setting(stored_settings(*db), SETTING_LAUNCH_AT_LOGIN@, "0"@),
{
    flag_or(db, SETTING_LAUNCH_AT_LOGIN, "0")
}

/// Whether the main window is hidden after launch: only for a launch at
/// login, when the stored launch behavior (default `background`) is exactly
/// `background`.
pub fn login_launch_hides_main_window(db: &Connection, login_launch: bool) -> (r: Result<bool, String>)
    ensures
        !login_launch ==> r == Ok::<bool, String>(false),
        login_launch ==> (r matches Ok(b) ==> b == (text_setting(
            stored_settings(*db),
            SETTING_LAUNCH_BEHAVIOR@,
            DEFAULT_LAUNCH_BEHAVIOR@,
        ) == "background"@)),
{
    if !login_launch {
        return Ok(false);
    }
    match text_or(db, SETTING_LAUNCH_BEHAVIOR, DEFAULT_LAUNCH_BEHAVIOR) {
        Ok(v) => Ok(same_text(v.as_str(), "background")),
        Err(e) => Err(e),
    }
}

/// Whether automatic backups are on (on when the setting is missing).
pub fn automatic_backups_enabled(db: &Connection) -> (r: Result<bool, String>)
    ensures
        r matches Ok(b) ==> b == flag_setting(stored_settings(*db), SETTING_AUTOMATIC_BACKUPS@, "1"@),
{
    flag_or(db, SETTING_AUTOMATIC_BACKUPS, "1")
}

/// Whether the app was started at login: one of its arguments is the
/// login-launch argument.
pub fn is_login_launch(args: &Vec<String>) -> (r: bool)
    ensures
        r == exists|i: int| 0 <= i < args@.len() && #[trigger] args@[i]@ == crate::desktop::LOGIN_LAUNCH_ARG@,
{
    let mut i: usize = 0;
    while i < args.len()
        invariant
            i <= args@.len(),
            forall|k: int| 0 <= k < i ==> #[trigger] args@[k]@ != crate::desktop::LOGIN_LAUNCH_ARG@,
        decreases args@.len() - i,
    {
        if same_text(args[i].as_str(), crate::desktop::LOGIN_LAUNCH_ARG) {
            return true;
        }
        i = i + 1;
    }
    false
}

/// Whether the environment forces an automatic backup: the variable is set
/// to exactly `1`.
pub fn forced_by_environment(value: Option<String>) -> (r: bool)
    ensures
        r == (opt_view(value) == Some("1"@)),
{
    match value {
        Some(v) => same_text(v.as_str(), "1"),
        None => false,
    }
}

} // verus!
