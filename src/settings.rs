//! The settings document, how a stored copy is loaded, and the protected save protocol.
use vstd::prelude::*;
use crate::models::{default_export_path, DateFormat, ExportConfig, MetadataConfig};
use crate::text::push_str;

verus! {

broadcast use vstd::string::group_string_axioms;

/// Version tag written into every settings document.
pub const SETTINGS_VERSION: &'static str = "0.1.0";

/// The whole settings document.
#[derive(Debug, Clone, PartialEq)]
pub struct AppSettings {
    pub export_config: ExportConfig,
    pub ui_preferences: UiPreferences,
    pub last_import: Option<LastImportRecord>,
    pub version: String,
}

#[derive(Debug, Clone, Copy, PartialEq, Eq, Structural)]
pub struct UiPreferences {
    pub theme: ThemePreference,
    pub window_width: u32,
    pub window_height: u32,
    pub is_maximized: bool,
    pub show_onboarding: bool,
    pub library_view_mode: ViewMode,
    pub library_sort: SortPreference,
}

#[derive(Debug, Clone, Copy, PartialEq, Eq, Structural)]
pub enum ThemePreference {
    System,
    Light,
    Dark,
}

#[derive(Debug, Clone, Copy, PartialEq, Eq, Structural)]
pub enum ViewMode {
    Grid,
    List,
}

#[derive(Debug, Clone, Copy, PartialEq, Eq, Structural)]
pub enum SortPreference {
    Title,
    Author,
    DateLastRead,
    HighlightCount,
}

/// What the last import brought in.
#[derive(Debug, Clone, PartialEq)]
pub struct LastImportRecord {
    pub timestamp: String,
    pub device_id: Option<String>,
    pub books_count: usize,
    pub highlights_count: usize,
}

impl Default for ThemePreference {
    fn default() -> (r: ThemePreference)
        ensures
            r == ThemePreference::System,
    {
        ThemePreference::System
    }
}

impl Default for ViewMode {
    fn default() -> (r: ViewMode)
        ensures
            r == ViewMode::Grid,
    {
        ViewMode::Grid
    }
}

impl Default for SortPreference {
    fn default() -> (r: SortPreference)
        ensures
            r == SortPreference::Title,
    {
        SortPreference::Title
    }
}

impl UiPreferences {
    pub open spec fn default_spec() -> UiPreferences {
        UiPreferences {
            theme: ThemePreference::System,
            window_width: 1200,
            window_height: 800,
            is_maximized: false,
            show_onboarding: true,
            library_view_mode: ViewMode::Grid,
            library_sort: SortPreference::Title,
        }
    }
}

impl Default for UiPreferences {
    fn default() -> (r: UiPreferences)
        ensures
            r == UiPreferences::default_spec(),
    {
        UiPreferences {
            theme: ThemePreference::System,
            window_width: 1200,
            window_height: 800,
            is_maximized: false,
            show_onboarding: true,
            library_view_mode: ViewMode::Grid,
            library_sort: SortPreference::Title,
        }
    }
}

/// `s` is the default document for a user whose home directory is `home`.
pub open spec fn is_default_for(s: AppSettings, home: Seq<char>) -> bool {
    &&& s.export_config.export_path@ == default_export_path(home)
    &&& s.export_config.metadata == MetadataConfig::default_spec()
    &&& s.export_config.date_format == DateFormat::DdMonthYyyy
    &&& s.ui_preferences == UiPreferences::default_spec()
    &&& s.last_import is None
    &&& s.version@ == SETTINGS_VERSION@
}

impl AppSettings {
    /// Default document for a user whose home directory is `home`.
    pub fn for_home(home: &str) -> (r: AppSettings)
        ensures
            is_default_for(r, home@),
    {
        AppSettings {
            export_config: ExportConfig::for_home(home),
            ui_preferences: UiPreferences::default(),
            last_import: None,
            version: SETTINGS_VERSION.to_string(),
        }
    }
}

impl Default for AppSettings {
    /// Default document relative to the current directory.
    fn default() -> (r: AppSettings)
        ensures
            is_default_for(r, "."@),
    {
        AppSettings::for_home(".")
    }
}

/// Failure of a settings operation.
#[derive(Debug, Clone, PartialEq)]
pub enum SettingsError {
    HomeNotFound,
    IoError(String),
    ParseError(String),
    SerializeError(String),
}

/// What reading the settings file gave.
#[derive(Debug, Clone, PartialEq)]
pub enum StoredSettings {
    /// No settings file.
    Missing,
    /// The file exists but could not be read; the message says why.
    Unreadable(String),
    /// The file was read but is not a settings document.
    Unparsable,
    Parsed(AppSettings),
}

/// Settings document of one installation, bound to its file.
pub struct SettingsManager {
    pub settings: AppSettings,
    config_path: String,
    home: String,
}

/// Settings file location under a home directory.
pub open spec fn config_path_under(home: Seq<char>) -> Seq<char> {
    home + "/Library/Application Support/KoboHighlightsExporter/settings.json"@
}

impl SettingsManager {
    /// The settings document held.
    pub closed spec fn doc(&self) -> AppSettings {
        self.settings
    }

    pub closed spec fn path(&self) -> Seq<char> {
        self.config_path@
    }

    /// Home directory the defaults are computed for.
    pub closed spec fn home_dir(&self) -> Seq<char> {
        self.home@
    }

    /// Settings file location under the home directory `home`.
    pub fn config_path_for_home(home: &str) -> (r: String)
        ensures
            r@ == config_path_under(home@),
    {
        let mut p = home.to_string();
        push_str(&mut p, "/Library/Application Support/KoboHighlightsExporter/settings.json");
        p
    }

    /// A manager for the settings file under the user's home directory, from what reading
    /// that file (at `config_path_for_home`) gave.
    pub fn new(home: Option<String>, stored: StoredSettings) -> (r: Result<SettingsManager, SettingsError>)
        ensures
            home is None ==> r == Err::<SettingsManager, SettingsError>(SettingsError::HomeNotFound),
            home matches Some(h) ==> match stored {
                StoredSettings::Parsed(s) => r matches Ok(m) && m.doc() == s && m.path()
                    == config_path_under(h@) && m.home_dir() == h@,
                _ => r matches Ok(m) && is_default_for(m.doc(), h@) && m.path()
                    == config_path_under(h@) && m.home_dir() == h@,
            },
    {
        match home {
            None => Err(SettingsError::HomeNotFound),
            Some(h) => {
                let path = SettingsManager::config_path_for_home(h.as_str());
                SettingsManager::with_path(path, h, stored)
            },
        }
    }

    /// A manager for the settings file at `config_path`, from what reading it gave. Loading
    /// never fails: a missing, unreadable or unparsable file gives the defaults for `home`.
    pub fn with_path(config_path: String, home: String, stored: StoredSettings) -> (r: Result<
        SettingsManager,
        SettingsError,
    >)
        ensures
            r is Ok,
            match stored {
                StoredSettings::Parsed(s) => r matches Ok(m) && m.doc() == s && m.path()
                    == config_path@ && m.home_dir() == home@,
                _ => r matches Ok(m) && is_default_for(m.doc(), home@) && m.path()
                    == config_path@ && m.home_dir() == home@,
            },
    {
        let settings = match stored {
            StoredSettings::Parsed(s) => s,
            _ => AppSettings::for_home(home.as_str()),
        };
        Ok(SettingsManager { settings, config_path, home })
    }

    /// Where to keep a copy of the settings file before its defaults replace it: beside it
    /// with a `.corrupted` suffix when it held something that is not a settings document.
    pub fn corrupted_copy_path(&self, stored: &StoredSettings) -> (r: Option<String>)
        ensures
            *stored is Unparsable ==> (r matches Some(p) && p@ == self.path() + ".corrupted"@),
            !(*stored is Unparsable) ==> r is None,
    {
        match stored {
            StoredSettings::Unparsable => Some(self.sibling_path(".corrupted")),
            _ => None,
        }
    }

    pub fn get(&self) -> (r: &AppSettings)
        ensures
            *r == self.doc(),
    {
        &self.settings
    }

    pub fn get_mut(&mut self) -> (r: &mut AppSettings)
        ensures
            *r == old(self).doc(),
            final(self).doc() == *final(r),
            final(self).path() == old(self).path(),
            final(self).home_dir() == old(self).home_dir(),
    {
        &mut self.settings
    }

    /// Replaces the export configuration (the caller then saves).
    pub fn set_export_config(&mut self, config: ExportConfig)
        ensures
            final(self).doc() == (AppSettings { export_config: config, ..old(self).doc() }),
            final(self).path() == old(self).path(),
            final(self).home_dir() == old(self).home_dir(),
    {
        self.settings.export_config = config;
    }

    /// Replaces the UI preferences (the caller then saves).
    pub fn set_ui_preferences(&mut self, prefs: UiPreferences)
        ensures
            final(self).doc() == (AppSettings { ui_preferences: prefs, ..old(self).doc() }),
            final(self).path() == old(self).path(),
            final(self).home_dir() == old(self).home_dir(),
    {
        self.settings.ui_preferences = prefs;
    }

    /// Records the last import (the caller then saves).
    pub fn set_last_import(&mut self, record: LastImportRecord)
        ensures
            final(self).doc() == (AppSettings {
                last_import: Some(record),
                ..old(self).doc()
            }),
            final(self).path() == old(self).path(),
            final(self).home_dir() == old(self).home_dir(),
    {
        self.settings.last_import = Some(record);
    }

    /// Restores the default document (the caller then saves).
    pub fn reset_to_defaults(&mut self)
        ensures
            is_default_for(final(self).doc(), old(self).home_dir()),
            final(self).path() == old(self).path(),
            final(self).home_dir() == old(self).home_dir(),
    {
        self.settings = AppSettings::for_home(self.home.as_str());
    }

    pub fn config_path(&self) -> (r: &str)
        ensures
            r@ == self.path(),
    {
        self.config_path.as_str()
    }

    /// Sibling of the settings file with `suffix` appended to its name.
    pub fn sibling_path(&self, suffix: &str) -> (r: String)
        ensures
            r@ == self.path() + suffix@,
    {
        let mut p = self.config_path.clone();
        push_str(&mut p, suffix);
        p
    }
}


/// Number of write attempts a save makes.
pub const MAX_SAVE_ATTEMPTS: u32 = 3;

/// Delay before a retry, per attempt already made.
pub const RETRY_DELAY_MS: u64 = 100;

/// Steps of the save protocol. The caller does the work a step names and reports the event.
#[derive(Debug, Clone, Copy, PartialEq, Eq, Structural)]
pub enum SaveStep {
    /// Serialize the document and parse the text back in memory.
    Validate,
    /// Copy an existing settings file to its backup sibling; a failure there is only logged.
    Backup,
    /// Write the text to the temporary sibling, in the given attempt.
    WriteTemp(u32),
    /// Rename the temporary sibling over the settings file.
    Rename(u32),
    /// Read the settings file back and report the version tag it holds.
    Verify(u32),
    /// Wait `RETRY_DELAY_MS` times the attempt number before the next attempt.
    Sleep(u32),
    /// Copy the backup sibling, when there is one, over the settings file.
    RestoreBackup,
    /// The file holds the document.
    Saved,
    /// The document does not survive serialization; the disk was not touched.
    InvalidDocument,
    /// Every attempt failed; restoring the backup was attempted.
    GaveUp,
}

/// What the work of a step gave.
#[derive(Debug, Clone, PartialEq)]
pub enum SaveEvent {
    Done,
    Failed,
    /// The version tag read back from the settings file, if it could be read and parsed.
    ReadBack(Option<String>),
}

pub open spec fn is_terminal(step: SaveStep) -> bool {
    step is Saved || step is InvalidDocument || step is GaveUp
}

/// Attempt numbers stay within `1..=MAX_SAVE_ATTEMPTS`; a sleep leads to a further attempt.
pub open spec fn valid_step(step: SaveStep) -> bool {
    match step {
        SaveStep::WriteTemp(a) => 1 <= a <= MAX_SAVE_ATTEMPTS,
        SaveStep::Rename(a) => 1 <= a <= MAX_SAVE_ATTEMPTS,
        SaveStep::Verify(a) => 1 <= a <= MAX_SAVE_ATTEMPTS,
        SaveStep::Sleep(a) => 1 <= a < MAX_SAVE_ATTEMPTS,
        _ => true,
    }
}

/// After a failed write, rename or verification in attempt `a`: wait and retry, or restore.
pub open spec fn after_failed_attempt(a: u32) -> SaveStep {
    if a < MAX_SAVE_ATTEMPTS {
        SaveStep::Sleep(a)
    } else {
        SaveStep::RestoreBackup
    }
}

/// The step that follows `step` when its work gave `event`; `expected` is the version tag of
/// the document being saved.
pub open spec fn save_transition(step: SaveStep, event: SaveEvent, expected: Seq<char>) -> SaveStep {
    match step {
        SaveStep::Validate => if event is Done {
            SaveStep::Backup
        } else {
            SaveStep::InvalidDocument
        },
        SaveStep::Backup => SaveStep::WriteTemp(1),
        SaveStep::WriteTemp(a) => if event is Done {
            SaveStep::Rename(a)
        } else {
            after_failed_attempt(a)
        },
        SaveStep::Rename(a) => if event is Done {
            SaveStep::Verify(a)
        } else {
            after_failed_attempt(a)
        },
        SaveStep::Verify(a) => match event {
            SaveEvent::ReadBack(Some(v)) => if v@ == expected {
                SaveStep::Saved
            } else {
                after_failed_attempt(a)
            },
            _ => after_failed_attempt(a),
        },
        SaveStep::Sleep(a) => SaveStep::WriteTemp((a + 1) as u32),
        SaveStep::RestoreBackup => SaveStep::GaveUp,
        _ => step,
    }
}

/// Steps left at most before the protocol ends.
pub open spec fn save_measure(step: SaveStep) -> nat {
    match step {
        SaveStep::Validate => 42,
        SaveStep::Backup => 41,
        SaveStep::WriteTemp(a) => (10 * (4 - a) + 4) as nat,
        SaveStep::Rename(a) => (10 * (4 - a) + 3) as nat,
        SaveStep::Verify(a) => (10 * (4 - a) + 2) as nat,
        SaveStep::Sleep(a) => (10 * (4 - a) + 1) as nat,
        SaveStep::RestoreBackup => 1,
        _ => 0,
    }
}

impl SaveStep {
    /// How long to wait before performing this step's work.
    pub fn delay_ms(&self) -> (r: u64)
        requires
            valid_step(*self),
        ensures
            r == (match *self {
                SaveStep::Sleep(a) => RETRY_DELAY_MS * a,
                _ => 0,
            }),
    {
        match self {
            SaveStep::Sleep(a) => RETRY_DELAY_MS * (*a as u64),
            _ => 0,
        }
    }

    /// The result of the save once the protocol has ended.
    pub fn outcome(&self) -> (r: Option<Result<(), SettingsError>>)
        ensures
            r is None <==> !is_terminal(*self),
            *self is Saved ==> r == Some(Ok::<(), SettingsError>(())),
            *self is InvalidDocument ==> r matches Some(Err(SettingsError::SerializeError(_))),
            *self is GaveUp ==> r matches Some(Err(SettingsError::IoError(_))),
    {
        match self {
            SaveStep::Saved => Some(Ok(())),
            SaveStep::InvalidDocument => Some(
                Err(SettingsError::SerializeError("settings do not survive serialization".to_string())),
            ),
            SaveStep::GaveUp => Some(
                Err(SettingsError::IoError("failed to save settings after 3 attempts".to_string())),
            ),
            _ => None,
        }
    }
}

/// The step that follows `step` when its work gave `event`. A save ends `Saved` only after the
/// file was read back with the expected version, makes at most `MAX_SAVE_ATTEMPTS` attempts,
/// and gives up only after trying to restore the backup.
pub fn next_save_step(step: SaveStep, event: &SaveEvent, expected_version: &str) -> (r: SaveStep)
    requires
        valid_step(step),
    ensures
        r == save_transition(step, *event, expected_version@),
        valid_step(r),
        !is_terminal(step) ==> save_measure(r) < save_measure(step),
        r is Saved && !(step is Saved) ==> step is Verify && (*event matches SaveEvent::ReadBack(
            Some(v),
        ) && v@ == expected_version@),
        r is GaveUp && !(step is GaveUp) ==> step is RestoreBackup,
        r is InvalidDocument && !(step is InvalidDocument) ==> step is Validate,
{
    let failed = |a: u32| -> (s: SaveStep)
        ensures
            s == after_failed_attempt(a),
        {
            if a < MAX_SAVE_ATTEMPTS {
                SaveStep::Sleep(a)
            } else {
                SaveStep::RestoreBackup
            }
        };
    match step {
        SaveStep::Validate => match event {
            SaveEvent::Done => SaveStep::Backup,
            _ => SaveStep::InvalidDocument,
        },
        SaveStep::Backup => SaveStep::WriteTemp(1),
        SaveStep::WriteTemp(a) => match event {
            SaveEvent::Done => SaveStep::Rename(a),
            _ => failed(a),
        },
        SaveStep::Rename(a) => match event {
            SaveEvent::Done => SaveStep::Verify(a),
            _ => failed(a),
        },
        SaveStep::Verify(a) => match event {
            SaveEvent::ReadBack(Some(v)) => {
                if *v == expected_version.to_string() {
                    SaveStep::Saved
                } else {
                    failed(a)
                }
            },
            _ => failed(a),
        },
        SaveStep::Sleep(a) => SaveStep::WriteTemp(a + 1),
        SaveStep::RestoreBackup => SaveStep::GaveUp,
        _ => step,
    }
}

} // verus!
