//! Plain values exchanged with the desktop shell: windows, permissions,
//! settings, tray entries, feedback and notifications, hotkey actions.

use vstd::prelude::*;

verus! {

/// The application's windows.
#[derive(Clone, Copy, Debug, PartialEq, Eq, Structural)]
pub enum AppWindowId {
    Notification,
    Settings,
    Dashboard,
    Onboarding,
    AudioRecording,
    AudioTranscribing,
}

impl AppWindowId {
    pub open spec fn spec_label(self) -> Seq<char> {
        match self {
            AppWindowId::Settings => "settings"@,
            AppWindowId::Notification => "notification"@,
            AppWindowId::Dashboard => "dashboard"@,
            AppWindowId::Onboarding => "onboarding"@,
            AppWindowId::AudioRecording => "recording"@,
            AppWindowId::AudioTranscribing => "transcribing"@,
        }
    }

    /// The window's label in the shell.
    pub fn label(&self) -> (r: String)
        ensures
            r@ == self.spec_label(),
    {
        match self {
            AppWindowId::Settings => "settings".to_owned(),
            AppWindowId::Notification => "notification".to_owned(),
            AppWindowId::Dashboard => "dashboard".to_owned(),
            AppWindowId::Onboarding => "onboarding".to_owned(),
            AppWindowId::AudioRecording => "recording".to_owned(),
            AppWindowId::AudioTranscribing => "transcribing".to_owned(),
        }
    }

    /// The window with the given label; any other text is refused, naming it.
    pub fn from_str(s: &str) -> (r: Result<AppWindowId, String>)
        ensures
            r matches Ok(w) ==> w.spec_label() == s@,
            r matches Err(m) ==> m@ == "unknown window label: "@ + s@,
            r is Err ==> forall|w: AppWindowId| w.spec_label() != s@,
    {
        if crate::history::str_equals(s, "settings") {
            Ok(AppWindowId::Settings)
        } else if crate::history::str_equals(s, "notification") {
            Ok(AppWindowId::Notification)
        } else if crate::history::str_equals(s, "dashboard") {
            Ok(AppWindowId::Dashboard)
        } else if crate::history::str_equals(s, "onboarding") {
            Ok(AppWindowId::Onboarding)
        } else if crate::history::str_equals(s, "recording") {
            Ok(AppWindowId::AudioRecording)
        } else if crate::history::str_equals(s, "transcribing") {
            Ok(AppWindowId::AudioTranscribing)
        } else {
            let mut m = "unknown window label: ".to_owned();
            m.append(s);
            Err(m)
        }
    }

    /// Whether showing the window brings the application into the dock.
    pub fn activates_dock(&self) -> (r: bool)
        ensures
            r == (*self == AppWindowId::Onboarding || *self == AppWindowId::Settings || *self
                == AppWindowId::Dashboard),
    {
        match self {
            AppWindowId::Onboarding | AppWindowId::Settings | AppWindowId::Dashboard => true,
            _ => false,
        }
    }
}

/// Each window's label parses back to that window.
pub proof fn lemma_label_round_trip(w: AppWindowId)
    ensures
        forall|v: AppWindowId| v.spec_label() == w.spec_label() ==> v == w,
{
    reveal_strlit("settings");
    reveal_strlit("notification");
    reveal_strlit("dashboard");
    reveal_strlit("onboarding");
    reveal_strlit("recording");
    reveal_strlit("transcribing");
    assert forall|v: AppWindowId| v.spec_label() == w.spec_label() implies v == w by {
        assert(v.spec_label().len() == w.spec_label().len());
        if v != w {
            let a = v.spec_label();
            let b = w.spec_label();
            if a.len() == b.len() {
                assert(a[0] != b[0] || a[1] != b[1]);
            }
        }
    }
}

/// A request to show a window.
#[derive(Clone, Copy, Debug, PartialEq, Eq, Structural)]
pub enum ShowAppWindow {
    Settings,
    Notification,
    Dashboard,
    Onboarding,
    AudioRecording,
    AudioTranscribing,
}

impl ShowAppWindow {
    /// The window the request shows.
    pub fn id(&self) -> (r: AppWindowId)
        ensures
            *self == ShowAppWindow::Settings ==> r == AppWindowId::Settings,
            *self == ShowAppWindow::Notification ==> r == AppWindowId::Notification,
            *self == ShowAppWindow::Dashboard ==> r == AppWindowId::Dashboard,
            *self == ShowAppWindow::Onboarding ==> r == AppWindowId::Onboarding,
            *self == ShowAppWindow::AudioRecording ==> r == AppWindowId::AudioRecording,
            *self == ShowAppWindow::AudioTranscribing ==> r == AppWindowId::AudioTranscribing,
    {
        match self {
            ShowAppWindow::Settings => AppWindowId::Settings,
            ShowAppWindow::Notification => AppWindowId::Notification,
            ShowAppWindow::Dashboard => AppWindowId::Dashboard,
            ShowAppWindow::Onboarding => AppWindowId::Onboarding,
            ShowAppWindow::AudioRecording => AppWindowId::AudioRecording,
            ShowAppWindow::AudioTranscribing => AppWindowId::AudioTranscribing,
        }
    }
}

/// Operating-system permissions the application needs.
#[derive(Clone, Copy, Debug, PartialEq, Eq, Structural)]
pub enum OSPermission {
    Microphone,
    Accessibility,
}

/// The state of one permission.
#[derive(Clone, Copy, Debug, PartialEq, Eq, Structural)]
pub enum OSPermissionStatus {
    /// This platform does not require the permission.
    NotNeeded,
    /// The user has neither granted nor denied it.
    Empty,
    /// The user granted it.
    Granted,
    /// The user denied it, or granted it without restarting yet.
    Denied,
}

impl OSPermissionStatus {
    /// Whether the application may proceed.
    pub fn permitted(&self) -> (r: bool)
        ensures
            r == (*self == OSPermissionStatus::NotNeeded || *self == OSPermissionStatus::Granted),
    {
        match self {
            OSPermissionStatus::NotNeeded | OSPermissionStatus::Granted => true,
            _ => false,
        }
    }
}

/// Both permissions at once.
#[derive(Clone, Copy, Debug, PartialEq, Eq, Structural)]
pub struct OSPermissionsCheck {
    pub microphone: OSPermissionStatus,
    pub accessibility: OSPermissionStatus,
}

/// Colour scheme of the interface.
#[derive(Clone, Copy, Debug, PartialEq, Eq, Structural)]
pub enum AppTheme {
    System,
    Light,
    Dark,
}

/// General user settings.
#[derive(Clone, Debug)]
pub struct SettingsStore {
    pub theme: AppTheme,
    pub llm_system_prompt: Option<String>,
    pub autostart_enabled: bool,
    pub onboarding_completed: bool,
}

/// Entries of the tray menu.
#[derive(Clone, Copy, Debug, PartialEq, Eq, Structural)]
pub enum TrayItem {
    Home,
    Models,
    Settings,
    Quit,
}

impl TrayItem {
    pub open spec fn spec_menu_id(self) -> Seq<char> {
        match self {
            TrayItem::Home => "home"@,
            TrayItem::Models => "models"@,
            TrayItem::Settings => "settings"@,
            TrayItem::Quit => "quit"@,
        }
    }

    /// The menu id of the entry.
    pub fn menu_id(&self) -> (r: &'static str)
        ensures
            r@ == self.spec_menu_id(),
    {
        match self {
            TrayItem::Home => "home",
            TrayItem::Models => "models",
            TrayItem::Settings => "settings",
            TrayItem::Quit => "quit",
        }
    }

    /// The entry with the given menu id, if any.
    pub fn from_menu_id(id: &str) -> (r: Option<TrayItem>)
        ensures
            r matches Some(t) ==> t.spec_menu_id() == id@,
            r is None ==> id@ != "home"@ && id@ != "models"@ && id@ != "settings"@ && id@ != "quit"@,
    {
        if crate::history::str_equals(id, "home") {
            Some(TrayItem::Home)
        } else if crate::history::str_equals(id, "models") {
            Some(TrayItem::Models)
        } else if crate::history::str_equals(id, "settings") {
            Some(TrayItem::Settings)
        } else if crate::history::str_equals(id, "quit") {
            Some(TrayItem::Quit)
        } else {
            None
        }
    }
}

/// Kinds of transient feedback.
#[derive(Clone, Copy, Debug, PartialEq, Eq, Structural)]
pub enum FeedbackType {
    Tooltip,
    Error,
    Toast,
}

/// A feedback message to show.
#[derive(Clone, Debug)]
pub struct ShowFeedback {
    pub message: String,
    pub feedback_type: FeedbackType,
}

/// Kinds of notification.
#[derive(Clone, Copy, Debug, PartialEq, Eq, Structural)]
pub enum NotificationType {
    Error,
    Info,
}

/// A notification to show.
#[derive(Clone, Debug)]
pub struct ShowNotification {
    pub message: String,
    pub notification_type: NotificationType,
}

/// Actions that can be bound to a global hotkey.
#[derive(Clone, Copy, Debug, PartialEq, Eq, Structural)]
pub enum HotkeyAction {
    StartDictating,
    StartVoiceDiary,
    Other,
}

/// The escape key was pressed while its shortcut was active.
#[derive(Clone, Copy, Debug, PartialEq, Eq, Structural)]
pub struct OnEscapePress;

/// Whether the escape shortcut is registered; it is, exactly while a
/// recording is in progress.
#[derive(Clone, Copy, Debug, PartialEq, Eq, Structural)]
pub struct EscapeShortcutState {
    pub enabled: bool,
}

impl EscapeShortcutState {
    /// Records a request to enable or disable the shortcut. Returns whether
    /// the registration has to change.
    pub fn set_enabled(&mut self, enabled: bool) -> (r: bool)
        ensures
            final(self).enabled == enabled,
            r == (old(self).enabled != enabled),
    {
        let changed = self.enabled != enabled;
        self.enabled = enabled;
        changed
    }
}

/// Plays the short audio cues.
pub struct AudioDictating;

/// The audio cues.
#[derive(Clone, Copy, Debug, PartialEq, Eq, Structural)]
pub enum CueKind {
    Start,
    Stop,
    Notify,
}

} // verus!
