use kobo_highlights::models::{Book, DateFormat, ExportConfig, Highlight, KoboDevice, MetadataConfig};

#[test]
fn test_book_creation() {
    let book = Book::new("content123".to_string(), "Test Book".to_string(), "Test Author".to_string());
    assert_eq!(book.content_id, "content123");
    assert_eq!(book.title, "Test Book");
    assert_eq!(book.author, "Test Author");
    assert!(book.highlights.is_empty());
    assert_eq!(book.highlight_count(), 0);
}

#[test]
fn test_book_add_highlight() {
    let mut book = Book::new("id1".to_string(), "Title".to_string(), "Author".to_string());
    let highlight = Highlight::new("hl1".to_string(), "Test highlight".to_string(), "2025-01-24".to_string());
    book.add_highlight(highlight);
    assert_eq!(book.highlight_count(), 1);
    assert_eq!(book.highlights[0].text, "Test highlight");
}

#[test]
fn test_highlight_creation() {
    let highlight = Highlight::new("hl123".to_string(), "Test highlight text".to_string(), "2025-01-24".to_string());
    assert_eq!(highlight.id, "hl123");
    assert_eq!(highlight.text, "Test highlight text");
    assert_eq!(highlight.date_created, "2025-01-24");
    assert!(highlight.annotation.is_none());
    assert!(!highlight.is_excluded);
}

#[test]
fn test_highlight_display_text() {
    let highlight = Highlight::new("hl1".to_string(), "Original text".to_string(), "2025-01-24".to_string());
    assert_eq!(highlight.display_text(), "Original text");
    let mut edited_highlight = highlight.clone();
    edited_highlight.edited_text = Some("Edited text".to_string());
    assert_eq!(edited_highlight.display_text(), "Edited text");
}

#[test]
fn mod_test_export_config_default() {
    let config = ExportConfig {
        export_path: "~/Documents/Kobo Highlights".to_string(),
        metadata: MetadataConfig {
            author: true,
            isbn: true,
            publisher: true,
            date_last_read: false,
            language: false,
            description: false,
        },
        date_format: DateFormat::DdMonthYyyy,
    };
    assert!(config.metadata.author);
    assert!(!config.metadata.description);
}

#[test]
fn device_record_fields() {
    let device = KoboDevice {
        name: "KOBOeReader".to_string(),
        path: "/Volumes/KOBOeReader".to_string(),
        is_valid: true,
        serial_number: Some("SN12345".to_string()),
    };
    assert_eq!(device.name, "KOBOeReader");
    assert!(device.is_valid);
}

#[test]
fn export_config_for_home() {
    let c = ExportConfig::for_home("/Users/ana");
    assert_eq!(c.export_path, "/Users/ana/Documents/Kobo Highlights");
    assert_eq!(c.date_format, DateFormat::DdMonthYyyy);
}
