//! The decisions of the desktop shell: what a window does when it is closed or
//! loses focus, whether the app may exit, when background schedulers stop,
//! what menu entries do, how launch at login and the Quick Capture shortcut
//! are changed, and how a folder is opened.
use vstd::prelude::*;
use rusqlite::Connection;
use crate::db::{failed_statement, same_transaction, stored_notes, stored_settings};
use crate::settings::SETTING_QUICK_CAPTURE_SHORTCUT;
use crate::store::{is_own_message, set_setting};
use crate::text::{concat, owned, same_text, views};

verus! {

/// What a window does with a close request.
#[derive(Clone, Copy, Debug, PartialEq, Eq)]
pub enum CloseAction {
    /// Let the window close.
    Close,
    /// Keep the window and hide it.
    Hide,
}

/// A window event the shell reacts to.
#[derive(Clone, Copy, Debug, PartialEq, Eq)]
pub enum WindowEventKind {
    CloseRequested,
    FocusLost,
    Other,
}

/// What the Quick Capture window does with an event.
#[derive(Clone, Copy, Debug, PartialEq, Eq)]
pub enum QuickCaptureAction {
    Nothing,
    /// Hide the window (on a close request: instead of closing it).
    Hide,
    /// Let the window close.
    Close,
}

/// What a menu entry does.
#[derive(Clone, Copy, Debug, PartialEq, Eq)]
pub enum MenuCommand {
    ShowMain,
    ShowSettings,
    Quit,
    Ignore,
}

/// How the system launch-at-login entry is changed.
#[derive(Clone, Copy, Debug, PartialEq, Eq)]
pub enum AutostartChange {
    Enable,
    Disable,
    Keep,
}

/// The platforms the shell knows how to open a folder on.
#[derive(Clone, Copy, Debug, PartialEq, Eq)]
pub enum Platform {
    MacOs,
    Linux,
    Other,
}

/// A program to start with one argument.
#[derive(Clone, Debug)]
pub struct OpenCommand {
    pub program: String,
    pub argument: String,
}

/// Whether the app is quitting, where an unknown state counts as not quitting.
pub open spec fn quitting(is_quitting: Option<bool>) -> bool {
    is_quitting.unwrap_or(false)
}

/// A close request to the main or settings window: the window closes only
/// while the app is quitting; otherwise it is hidden.
pub fn close_request_action(is_quitting: Option<bool>) -> (r: CloseAction)
    ensures
        r == (if quitting(is_quitting) {
            CloseAction::Close
        } else {
            CloseAction::Hide
        }),
{
    let should_quit = match is_quitting {
        Some(q) => q,
        None => false,
    };
    if should_quit {
        CloseAction::Close
    } else {
        CloseAction::Hide
    }
}

/// An event of the Quick Capture window: a close request is handled as for
/// the other windows; losing focus hides the window unless the app is
/// quitting or hiding on blur is off (an unknown setting counts as on).
pub fn quick_capture_window_event(
    event: WindowEventKind,
    is_quitting: Option<bool>,
    hide_on_blur: Option<bool>,
) -> (r: QuickCaptureAction)
    ensures
        r == (match event {
            WindowEventKind::CloseRequested => if quitting(is_quitting) {
                QuickCaptureAction::Close
            } else {
                QuickCaptureAction::Hide
            },
            WindowEventKind::FocusLost => if !quitting(is_quitting) && hide_on_blur.unwrap_or(true) {
                QuickCaptureAction::Hide
            } else {
                QuickCaptureAction::Nothing
            },
            WindowEventKind::Other => QuickCaptureAction::Nothing,
        }),
{
    match event {
        WindowEventKind::CloseRequested => match close_request_action(is_quitting) {
            CloseAction::Close => QuickCaptureAction::Close,
            CloseAction::Hide => QuickCaptureAction::Hide,
        },
        WindowEventKind::FocusLost => {
            let should_quit = match is_quitting {
                Some(q) => q,
                None => false,
            };
            if should_quit {
                return QuickCaptureAction::Nothing;
            }
            let hide = match hide_on_blur {
                Some(h) => h,
                None => true,
            };
            if hide {
                QuickCaptureAction::Hide
            } else {
                QuickCaptureAction::Nothing
            }
        },
        WindowEventKind::Other => QuickCaptureAction::Nothing,
    }
}

/// Whether a request to exit the app is refused: always, unless the app is
/// quitting (an unknown state counts as not quitting).
pub fn exit_request_refused(is_quitting: Option<bool>) -> (r: bool)
    ensures
        r == !quitting(is_quitting),
{
    match is_quitting {
        Some(q) => !q,
        None => true,
    }
}

/// Whether a background scheduler stops: when the app is quitting, or when
/// its state is gone.
pub fn scheduler_should_stop(is_quitting: Option<bool>) -> (r: bool)
    ensures
        r == is_quitting.unwrap_or(true),
{
    match is_quitting {
        Some(q) => q,
        None => true,
    }
}

/// What an entry of the tray menu does: `open`, `settings` and `quit` are
/// known; other ids do nothing.
pub fn tray_menu_command(id: &str) -> (r: MenuCommand)
    ensures
        r == (if id@ == "open"@ {
            MenuCommand::ShowMain
        } else if id@ == "settings"@ {
            MenuCommand::ShowSettings
        } else if id@ == "quit"@ {
            MenuCommand::Quit
        } else {
            MenuCommand::Ignore
        }),
{
    if same_text(id, "open") {
        MenuCommand::ShowMain
    } else if same_text(id, "settings") {
        MenuCommand::ShowSettings
    } else if same_text(id, "quit") {
        MenuCommand::Quit
    } else {
        MenuCommand::Ignore
    }
}

/// What an entry of the application menu does: `settings` and `quit` are
/// known; other ids do nothing.
pub fn app_menu_command(id: &str) -> (r: MenuCommand)
    ensures
        r == (if id@ == "settings"@ {
            MenuCommand::ShowSettings
        } else if id@ == "quit"@ {
            MenuCommand::Quit
        } else {
            MenuCommand::Ignore
        }),
{
    if same_text(id, "settings") {
        MenuCommand::ShowSettings
    } else if same_text(id, "quit") {
        MenuCommand::Quit
    } else {
        MenuCommand::Ignore
    }
}

/// How the system launch-at-login entry changes: it is enabled when wanted
/// and not enabled yet, disabled when not wanted and enabled, and kept
/// otherwise.
pub fn autostart_change(wanted: bool, currently_enabled: bool) -> (r: AutostartChange)
    ensures
        r == (if wanted && !currently_enabled {
            AutostartChange::Enable
        } else if !wanted && currently_enabled {
            AutostartChange::Disable
        } else {
            AutostartChange::Keep
        }),
{
    if wanted {
        if !currently_enabled {
            AutostartChange::Enable
        } else {
            AutostartChange::Keep
        }
    } else {
        if currently_enabled {
            AutostartChange::Disable
        } else {
            AutostartChange::Keep
        }
    }
}

/// How a folder is opened: with `open` on macOS, with `xdg-open` on Linux,
/// and not at all elsewhere.
pub fn open_path_in_file_manager(platform: Platform, path: &str) -> (r: Result<OpenCommand, String>)
    ensures
        platform == Platform::MacOs ==> (r matches Ok(c) && c.program@ == "open"@ && c.argument@ == path@),
        platform == Platform::Linux ==> (r matches Ok(c) && c.program@ == "xdg-open"@ && c.argument@ == path@),
        platform == Platform::Other ==> (r matches Err(e) && e@
            == "Opening folders is not supported on this platform: "@ + path@),
{
    match platform {
        Platform::MacOs => Ok(OpenCommand { program: owned("open"), argument: owned(path) }),
        Platform::Linux => Ok(OpenCommand { program: owned("xdg-open"), argument: owned(path) }),
        Platform::Other => Err(concat("Opening folders is not supported on this platform: ", path)),
    }
}

/// The path of the app as installed in the Applications folder.
pub const INSTALLED_EXECUTABLE: &'static str = "/Applications/Flow Notes.app/Contents/MacOS/flow-notes";
/// The label of the launch agent.
pub const LAUNCH_AGENT_LABEL: &'static str = "Flow Notes";
/// The argument that marks a launch at login.
pub const LOGIN_LAUNCH_ARG: &'static str = "--login-launch";

/// The launch agent property list that starts `executable` with the
/// login-launch argument at login.
pub open spec fn launch_agent_plist(executable: Seq<char>) -> Seq<char> {
    "<?xml version=\"1.0\" encoding=\"UTF-8\"?>\n<!DOCTYPE plist PUBLIC \"-//Apple//DTD PLIST 1.0//EN\" \"http://www.apple.com/DTDs/PropertyList-1.0.dtd\">\n<plist version=\"1.0\">\n<dict>\n  <key>Label</key>\n  <string>"@
        + LAUNCH_AGENT_LABEL@ + "</string>\n  <key>ProgramArguments</key>\n  <array>\n    <string>"@
        + executable + "</string>\n    <string>"@ + LOGIN_LAUNCH_ARG@
        + "</string>\n  </array>\n  <key>RunAtLoad</key>\n  <true/>\n</dict>\n</plist>\n"@
}

/// The parts of a path text between `/` separators, empty ones included.
pub open spec fn raw_segments(p: Seq<char>) -> Seq<Seq<char>>
    decreases p.len(),
{
    if p.len() == 0 {
        seq![Seq::<char>::empty()]
    } else {
        let s = raw_segments(p.drop_last());
        if p.last() == '/' {
            s.push(Seq::<char>::empty())
        } else {
            s.update(s.len() - 1, s.last().push(p.last()))
        }
    }
}

/// Whether a part of a path is a component: neither empty nor `.`.
pub open spec fn is_component(seg: Seq<char>) -> bool {
    seg.len() > 0 && seg != seq!['.']
}

/// The components of a path after its root, as `Path::components` gives
/// them for an absolute Unix path: repeated and trailing separators and `.`
/// parts are left out.
pub open spec fn path_components(p: Seq<char>) -> Seq<Seq<char>> {
    raw_segments(p).filter(|seg: Seq<char>| is_component(seg))
}

/// Whether a path text is equal, as `Path` compares paths on Unix (component
/// by component), to an absolute path text: it has a root too and the same
/// components.
pub open spec fn same_path_as_absolute(p: Seq<char>, absolute: Seq<char>) -> bool {
    &&& p.len() > 0
    &&& p[0] == '/'
    &&& path_components(p) == path_components(absolute)
}

proof fn lemma_raw_segments_nonempty(p: Seq<char>)
    ensures
        raw_segments(p).len() >= 1,
    decreases p.len(),
{
    if p.len() > 0 {
        lemma_raw_segments_nonempty(p.drop_last());
    }
}

/// The components of a path text (see `path_components`).
pub fn components_of(p: &str) -> (r: Vec<String>)
    ensures
        views(r@) == path_components(p@),
{
    let ghost pred = |seg: Seq<char>| is_component(seg);
    let n = p.unicode_len();
    let mut done: Vec<String> = Vec::new();
    let mut cur = String::new();
    let mut i: usize = 0;
    proof {
        reveal_strlit(".");
        assert(p@.take(0) =~= Seq::<char>::empty());
        assert(raw_segments(p@.take(0)).drop_last() =~= Seq::<Seq<char>>::empty());
        assert(views(done@) =~= Seq::<Seq<char>>::empty());
    }
    while i < n
        invariant
            n == p@.len(),
            i <= n,
            pred == (|seg: Seq<char>| is_component(seg)),
            raw_segments(p@.take(i as int)).len() >= 1,
            cur@ == raw_segments(p@.take(i as int)).last(),
            views(done@) == raw_segments(p@.take(i as int)).drop_last().filter(pred),
        decreases n - i,
    {
        let c = p.get_char(i);
        let ghost before = raw_segments(p@.take(i as int));
        proof {
            assert(p@.take(i + 1).drop_last() =~= p@.take(i as int));
            assert(p@.take(i + 1).last() == c);
            lemma_raw_segments_nonempty(p@.take(i + 1));
        }
        if c == '/' {
            let keep = cur.as_str().unicode_len() > 0 && !same_text(cur.as_str(), ".");
            let ghost old_done = views(done@);
            if keep {
                done.push(cur);
                assert(views(done@) =~= old_done.push(before.last()));
            } else {
                assert(views(done@) =~= old_done);
            }
            cur = String::new();
            proof {
                reveal_with_fuel(Seq::filter, 1);
                let after = raw_segments(p@.take(i + 1));
                assert(after == before.push(Seq::<char>::empty()));
                assert(after.drop_last() =~= before);
                assert(before =~= before.drop_last().push(before.last()));
                reveal_strlit(".");
                assert("."@ =~= seq!['.']);
                assert(keep == is_component(before.last()));
            }
        } else {
            cur.push(c);
            proof {
                let after = raw_segments(p@.take(i + 1));
                assert(after.drop_last() =~= before.drop_last());
            }
        }
        i = i + 1;
    }
    let keep = cur.as_str().unicode_len() > 0 && !same_text(cur.as_str(), ".");
    let ghost all = raw_segments(p@);
    let ghost old_done = views(done@);
    proof {
        reveal_strlit(".");
        assert(p@.take(n as int) =~= p@);
        reveal_with_fuel(Seq::filter, 1);
        assert(all =~= all.drop_last().push(all.last()));
        assert("."@ =~= seq!['.']);
        assert(keep == is_component(all.last()));
    }
    if keep {
        done.push(cur);
        assert(views(done@) =~= old_done.push(all.last()));
    }
    done
}

/// Whether two lists of texts are equal.
fn same_texts(a: &Vec<String>, b: &Vec<String>) -> (r: bool)
    ensures
        r == (views(a@) == views(b@)),
{
    if a.len() != b.len() {
        assert(views(a@).len() != views(b@).len());
        return false;
    }
    let mut i: usize = 0;
    while i < a.len()
        invariant
            a.len() == b.len(),
            i <= a.len(),
            forall|k: int| 0 <= k < i ==> a@[k]@ == b@[k]@,
        decreases a.len() - i,
    {
        if !same_text(a[i].as_str(), b[i].as_str()) {
            assert(views(a@)[i as int] != views(b@)[i as int]);
            return false;
        }
        i = i + 1;
    }
    assert(views(a@) =~= views(b@));
    true
}

/// Whether a path text is, as a `Path`, the installed executable (see
/// `same_path_as_absolute`).
pub fn is_installed_executable(current_exe: &str) -> (r: bool)
    ensures
        r == same_path_as_absolute(current_exe@, INSTALLED_EXECUTABLE@),
{
    let n = current_exe.unicode_len();
    if n == 0 || current_exe.get_char(0) != '/' {
        return false;
    }
    let current = components_of(current_exe);
    let installed = components_of(INSTALLED_EXECUTABLE);
    same_texts(&current, &installed)
}

/// The launch agent to write so that login starts the installed app: none
/// when the app is not installed or is already the running executable
/// (compared as paths, see `same_path_as_absolute`); otherwise the property
/// list for the installed executable.
pub fn prefer_installed_launch_agent_path(installed_exists: bool, current_exe: &str) -> (r: Option<String>)
    ensures
        !installed_exists || same_path_as_absolute(current_exe@, INSTALLED_EXECUTABLE@) ==> r is None,
        installed_exists && !same_path_as_absolute(current_exe@, INSTALLED_EXECUTABLE@) ==> (r matches Some(
            p,
        ) && p@ == launch_agent_plist(INSTALLED_EXECUTABLE@)),
{
    if !installed_exists {
        return None;
    }
    if is_installed_executable(current_exe) {
        return None;
    }
    let mut p = owned(
        "<?xml version=\"1.0\" encoding=\"UTF-8\"?>\n<!DOCTYPE plist PUBLIC \"-//Apple//DTD PLIST 1.0//EN\" \"http://www.apple.com/DTDs/PropertyList-1.0.dtd\">\n<plist version=\"1.0\">\n<dict>\n  <key>Label</key>\n  <string>",
    );
    p.append(LAUNCH_AGENT_LABEL);
    p.append("</string>\n  <key>ProgramArguments</key>\n  <array>\n    <string>");
    p.append(INSTALLED_EXECUTABLE);
    p.append("</string>\n    <string>");
    p.append(LOGIN_LAUNCH_ARG);
    p.append("</string>\n  </array>\n  <key>RunAtLoad</key>\n  <true/>\n</dict>\n</plist>\n");
    Some(p)
}

/// The title of a reminder notification: the given one, or `Flow Notes
/// Reminder`.
pub fn reminder_title(title: Option<String>) -> (r: String)
    ensures
        r@ == (match title {
            Some(t) => t@,
            None => "Flow Notes Reminder"@,
        }),
{
    match title {
        Some(t) => t,
        None => owned("Flow Notes Reminder"),
    }
}

/// The next step of a change of the Quick Capture shortcut.
#[derive(Clone, Debug)]
pub enum ShortcutStep {
    /// Nothing to change: this shortcut is already in use.
    Unchanged(String),
    /// Register this shortcut with the system.
    Register(String),
    /// Unregister this shortcut from the system.
    Unregister(String),
    /// Unregister this newly registered shortcut, then fail with the message.
    RollBack(String, String),
    /// Store this shortcut as the setting and use it.
    Save(String),
    /// Stop with this error.
    Fail(String),
}

/// The shortcut check finished: the checked text when the shortcut parser
/// accepted it; otherwise an error that quotes the parser.
pub fn after_shortcut_parsed(shortcut: String, parsed: Result<(), String>) -> (r: Result<String, String>)
    ensures
        parsed is Ok ==> r == Ok::<String, String>(shortcut),
        parsed matches Err(e) ==> (r matches Err(m) && m@ == "Invalid shortcut: "@ + e@),
{
    match parsed {
        Ok(()) => Ok(shortcut),
        Err(e) => Err(concat("Invalid shortcut: ", e.as_str())),
    }
}

/// The first step of a shortcut change: nothing when the shortcut is the one
/// in use; otherwise register the new one first.
pub fn plan_shortcut_change(current: &str, next: &str) -> (r: ShortcutStep)
    ensures
        current@ == next@ ==> (r matches ShortcutStep::Unchanged(s) && s@ == current@),
        current@ != next@ ==> (r matches ShortcutStep::Register(s) && s@ == next@),
{
    if same_text(current, next) {
        ShortcutStep::Unchanged(owned(current))
    } else {
        ShortcutStep::Register(owned(next))
    }
}

/// After registering the new shortcut: unregister the old one; when
/// registering failed, fail without touching the old one.
pub fn after_shortcut_registered(current: &str, registered: Result<(), String>) -> (r: ShortcutStep)
    ensures
        registered is Ok ==> (r matches ShortcutStep::Unregister(s) && s@ == current@),
        registered matches Err(e) ==> (r matches ShortcutStep::Fail(m) && m@
            == "Could not register shortcut: "@ + e@),
{
    match registered {
        Ok(()) => ShortcutStep::Unregister(owned(current)),
        Err(e) => ShortcutStep::Fail(concat("Could not register shortcut: ", e.as_str())),
    }
}

/// After unregistering the old shortcut: save the new one; when
/// unregistering failed, unregister the new one again and fail.
pub fn after_shortcut_unregistered(next: &str, unregistered: Result<(), String>) -> (r: ShortcutStep)
    ensures
        unregistered is Ok ==> (r matches ShortcutStep::Save(s) && s@ == next@),
        unregistered matches Err(e) ==> (r matches ShortcutStep::RollBack(s, m) && s@ == next@ && m@
            == "Could not update shortcut: "@ + e@),
{
    match unregistered {
        Ok(()) => ShortcutStep::Save(owned(next)),
        Err(e) => ShortcutStep::RollBack(owned(next), concat("Could not update shortcut: ", e.as_str())),
    }
}

/// Stores the Quick Capture shortcut and gives it back.
pub fn save_quick_capture_shortcut(db: &mut Connection, shortcut: &str) -> (r: Result<String, String>)
    ensures
        r is Err ==> failed_statement(*old(db), *final(db)),
        r is Ok ==> same_transaction(*old(db), *final(db)),
        r matches Err(e) ==> !is_own_message(e@),
        r matches Ok(s) ==> s@ == shortcut@,
        r is Ok ==> stored_settings(*final(db)) == stored_settings(*old(db)).insert(
            SETTING_QUICK_CAPTURE_SHORTCUT@,
            shortcut@,
        ),
        r is Ok ==> stored_notes(*final(db)) == stored_notes(*old(db)),
{
    match set_setting(db, SETTING_QUICK_CAPTURE_SHORTCUT, shortcut) {
        Ok(()) => Ok(owned(shortcut)),
        Err(e) => Err(e),
    }
}

/// The AppleScript that deletes the legacy System Events login item named
/// after the launch agent, when it exists.
pub open spec fn legacy_login_item_script_text() -> Seq<char> {
    "tell application \"System Events\"\n  if exists login item \""@ + LAUNCH_AGENT_LABEL@
        + "\" then\n    delete login item \""@ + LAUNCH_AGENT_LABEL@ + "\"\n  end if\nend tell"@
}

/// The AppleScript that deletes the legacy login item (see
/// `legacy_login_item_script_text`).
pub fn legacy_login_item_script() -> (r: String)
    ensures
        r@ == legacy_login_item_script_text(),
{
    let mut s = owned("tell application \"System Events\"\n  if exists login item \"");
    s.append(LAUNCH_AGENT_LABEL);
    s.append("\" then\n    delete login item \"");
    s.append(LAUNCH_AGENT_LABEL);
    s.append("\"\n  end if\nend tell");
    s
}

} // verus!
