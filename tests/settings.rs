use kobo_highlights::models::{DateFormat, ExportConfig, MetadataConfig};
use kobo_highlights::settings::{
    next_save_step, AppSettings, LastImportRecord, SaveEvent, SaveStep, SettingsError,
    SettingsManager, SortPreference, StoredSettings, ThemePreference, UiPreferences, ViewMode,
};

fn manager(path: &str) -> SettingsManager {
    SettingsManager::with_path(path.to_string(), "/home/reader".to_string(), StoredSettings::Missing)
        .unwrap()
}

#[test]
fn test_default_app_settings() {
    let settings = AppSettings::default();
    assert!(!settings.export_config.export_path.is_empty());
    assert!(settings.export_config.metadata.author);
    assert!(settings.ui_preferences.show_onboarding);
    assert_eq!(settings.ui_preferences.theme, ThemePreference::System);
    assert_eq!(settings.ui_preferences.library_view_mode, ViewMode::Grid);
    assert!(settings.last_import.is_none());
}

#[test]
fn test_update_last_import() {
    let _record = LastImportRecord {
        timestamp: "2025-01-29T14:00:00Z".to_string(),
        device_id: Some("Kobo123".to_string()),
        books_count: 5,
        highlights_count: 42,
    };
    assert!(true);
}

#[test]
fn test_metadata_config_default() {
    let config = MetadataConfig::default();
    assert!(config.author);
    assert!(config.isbn);
    assert!(config.publisher);
    assert!(config.date_last_read);
    assert!(config.language);
    assert!(!config.description);
}

#[test]
fn test_export_config_default() {
    let config = ExportConfig::default();
    assert!(config.export_path.contains("Documents"));
    assert!(config.export_path.contains("Kobo Highlights"));
    assert!(config.metadata.author);
    assert_eq!(config.date_format, DateFormat::DdMonthYyyy);
}

#[test]
fn test_settings_manager_with_custom_path() {
    let config_path = "/tmp/khi-test/settings.json";
    let manager = manager(config_path);
    assert_eq!(manager.config_path(), config_path);
    assert!(manager.get().export_config.metadata.author);
}

#[test]
fn test_set_export_config() {
    let mut manager = manager("/tmp/khi-test/settings.json");
    let new_config = ExportConfig {
        export_path: "/custom/path".to_string(),
        metadata: MetadataConfig {
            author: false,
            isbn: true,
            publisher: false,
            date_last_read: false,
            language: false,
            description: true,
        },
        date_format: DateFormat::Iso8601,
    };
    manager.set_export_config(new_config.clone());
    assert_eq!(manager.get().export_config.export_path, "/custom/path");
    assert!(!manager.get().export_config.metadata.author);
    assert!(manager.get().export_config.metadata.description);
}

#[test]
fn test_set_ui_preferences() {
    let mut manager = manager("/tmp/khi-test/settings.json");
    let new_prefs = UiPreferences {
        theme: ThemePreference::Light,
        window_width: 1920,
        window_height: 1080,
        is_maximized: true,
        show_onboarding: false,
        library_view_mode: ViewMode::List,
        library_sort: SortPreference::Author,
    };
    manager.set_ui_preferences(new_prefs);
    assert_eq!(manager.get().ui_preferences.theme, ThemePreference::Light);
    assert_eq!(manager.get().ui_preferences.window_width, 1920);
    assert!(manager.get().ui_preferences.is_maximized);
    assert!(!manager.get().ui_preferences.show_onboarding);
    assert_eq!(manager.get().ui_preferences.library_view_mode, ViewMode::List);
}

#[test]
fn test_set_last_import() {
    let mut manager = manager("/tmp/khi-test/settings.json");
    let record = LastImportRecord {
        timestamp: "2025-01-29T14:00:00Z".to_string(),
        device_id: Some("Kobo123".to_string()),
        books_count: 5,
        highlights_count: 42,
    };
    manager.set_last_import(record.clone());
    let saved_record = manager.get().last_import.as_ref().unwrap();
    assert_eq!(saved_record.timestamp, "2025-01-29T14:00:00Z");
    assert_eq!(saved_record.device_id, Some("Kobo123".to_string()));
    assert_eq!(saved_record.books_count, 5);
    assert_eq!(saved_record.highlights_count, 42);
}

#[test]
fn test_reset_to_defaults() {
    let mut manager = manager("/tmp/khi-test/settings.json");
    manager.settings.export_config.metadata.author = false;
    manager.settings.ui_preferences.theme = ThemePreference::Dark;
    manager.settings.last_import = Some(LastImportRecord {
        timestamp: "2025-01-29".to_string(),
        device_id: None,
        books_count: 1,
        highlights_count: 1,
    });
    manager.reset_to_defaults();
    assert!(manager.get().export_config.metadata.author);
    assert_eq!(manager.get().ui_preferences.theme, ThemePreference::System);
    assert!(manager.get().last_import.is_none());
    assert_eq!(manager.get().export_config.export_path, "/home/reader/Documents/Kobo Highlights");
}

#[test]
fn test_invalid_json_recovery() {
    let config_path = "/tmp/khi-test/settings.json";
    let result = SettingsManager::with_path(
        config_path.to_string(),
        "/home/reader".to_string(),
        StoredSettings::Unparsable,
    );
    assert!(result.is_ok());
    let settings_manager = result.unwrap();
    assert_eq!(settings_manager.settings.ui_preferences.theme, ThemePreference::System);
    assert!(settings_manager.settings.ui_preferences.show_onboarding);
    assert_eq!(settings_manager.sibling_path(".corrupted"), "/tmp/khi-test/settings.json.corrupted");
    assert_eq!(
        settings_manager.corrupted_copy_path(&StoredSettings::Unparsable),
        Some("/tmp/khi-test/settings.json.corrupted".to_string())
    );
}

#[test]
fn parsed_document_is_kept_as_loaded() {
    let mut doc = AppSettings::for_home("/u");
    doc.ui_preferences.theme = ThemePreference::Dark;
    doc.export_config.metadata.author = false;
    let m = SettingsManager::with_path("/u/s.json".to_string(), "/u".to_string(), StoredSettings::Parsed(doc.clone()))
        .unwrap();
    assert_eq!(*m.get(), doc);
}

#[test]
fn unreadable_file_gives_defaults_and_missing_home_is_an_error() {
    let m = SettingsManager::with_path(
        "p".to_string(),
        "h".to_string(),
        StoredSettings::Unreadable("denied".to_string()),
    )
    .unwrap();
    assert_eq!(*m.get(), AppSettings::for_home("h"));
    assert_eq!(m.corrupted_copy_path(&StoredSettings::Unreadable("denied".to_string())), None);
    let r = SettingsManager::new(None, StoredSettings::Missing);
    assert_eq!(r.err(), Some(SettingsError::HomeNotFound));
    let m = SettingsManager::new(Some("/home/a".to_string()), StoredSettings::Missing).unwrap();
    assert_eq!(
        m.config_path(),
        "/home/a/Library/Application Support/KoboHighlightsExporter/settings.json"
    );
    assert_eq!(m.get().export_config.export_path, "/home/a/Documents/Kobo Highlights");
}

#[test]
fn get_mut_edits_the_document() {
    let mut m = manager("/x/settings.json");
    m.get_mut().version = "9.9.9".to_string();
    assert_eq!(m.get().version, "9.9.9");
    assert_eq!(AppSettings::default().version, "0.1.0");
}

#[test]
fn save_succeeds_when_version_reads_back() {
    let v = "0.1.0";
    let mut s = SaveStep::Validate;
    s = next_save_step(s, &SaveEvent::Done, v);
    assert_eq!(s, SaveStep::Backup);
    s = next_save_step(s, &SaveEvent::Failed, v);
    assert_eq!(s, SaveStep::WriteTemp(1));
    s = next_save_step(s, &SaveEvent::Done, v);
    assert_eq!(s, SaveStep::Rename(1));
    s = next_save_step(s, &SaveEvent::Done, v);
    assert_eq!(s, SaveStep::Verify(1));
    s = next_save_step(s, &SaveEvent::ReadBack(Some("0.1.0".to_string())), v);
    assert_eq!(s, SaveStep::Saved);
    assert_eq!(s.outcome(), Some(Ok(())));
}

#[test]
fn save_retries_with_growing_delay_then_restores_backup() {
    let v = "0.1.0";
    let mut s = SaveStep::WriteTemp(1);
    s = next_save_step(s, &SaveEvent::Failed, v);
    assert_eq!(s, SaveStep::Sleep(1));
    assert_eq!(s.delay_ms(), 100);
    s = next_save_step(s, &SaveEvent::Done, v);
    assert_eq!(s, SaveStep::WriteTemp(2));
    s = next_save_step(s, &SaveEvent::Done, v);
    s = next_save_step(s, &SaveEvent::Failed, v);
    assert_eq!(s, SaveStep::Sleep(2));
    assert_eq!(s.delay_ms(), 200);
    s = next_save_step(s, &SaveEvent::Done, v);
    assert_eq!(s, SaveStep::WriteTemp(3));
    s = next_save_step(s, &SaveEvent::Done, v);
    s = next_save_step(s, &SaveEvent::Done, v);
    assert_eq!(s, SaveStep::Verify(3));
    s = next_save_step(s, &SaveEvent::ReadBack(Some("0.0.9".to_string())), v);
    assert_eq!(s, SaveStep::RestoreBackup);
    assert_eq!(s.outcome(), None);
    s = next_save_step(s, &SaveEvent::Done, v);
    assert_eq!(s, SaveStep::GaveUp);
    assert!(matches!(s.outcome(), Some(Err(SettingsError::IoError(_)))));
}

#[test]
fn unreadable_file_after_write_counts_as_failed_attempt() {
    let s = next_save_step(SaveStep::Verify(2), &SaveEvent::ReadBack(None), "0.1.0");
    assert_eq!(s, SaveStep::Sleep(2));
}

#[test]
fn invalid_document_is_rejected_before_touching_disk() {
    let s = next_save_step(SaveStep::Validate, &SaveEvent::Failed, "0.1.0");
    assert_eq!(s, SaveStep::InvalidDocument);
    assert!(matches!(s.outcome(), Some(Err(SettingsError::SerializeError(_)))));
    assert_eq!(SaveStep::Backup.delay_ms(), 0);
}
