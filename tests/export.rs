use kobo_highlights::export::{format_date, generate_filename, generate_highlight_markdown, sanitize_filename, MarkdownExporter};
use kobo_highlights::models::{Book, DateFormat, ExportConfig, Highlight, MetadataConfig};

fn highlight(id: &str, text: &str, chapter: Option<&str>, date: &str) -> Highlight {
    let mut h = Highlight::new(id.to_string(), text.to_string(), date.to_string());
    h.chapter_title = chapter.map(|c| c.to_string());
    h
}

fn create_test_book() -> Book {
    let mut book = Book::new("book1".to_string(), "Test Book".to_string(), "Test Author".to_string());
    book.isbn = Some("978-1234567890".to_string());
    book.publisher = Some("Test Publisher".to_string());
    book.language = Some("en".to_string());
    book.date_last_read = Some("2025-01-24".to_string());
    book.description = Some("A test book description".to_string());
    book.highlights = vec![
        highlight("hl1", "First highlight", Some("Chapter 1"), "2025-01-24"),
        highlight("hl2", "Second highlight", Some("Chapter 1"), "2025-01-25"),
    ];
    book
}

fn create_test_config() -> ExportConfig {
    ExportConfig {
        export_path: "/tmp/export".to_string(),
        metadata: MetadataConfig {
            author: true,
            isbn: true,
            publisher: true,
            date_last_read: true,
            language: true,
            description: true,
        },
        date_format: DateFormat::DdMonthYyyy,
    }
}

fn bare_book(title: &str, author: &str) -> Book {
    Book::new("id1".to_string(), title.to_string(), author.to_string())
}

#[test]
fn test_sanitize_filename_empty() {
    let result = sanitize_filename("");
    assert_eq!(result, "Untitled");
}

#[test]
fn test_sanitize_filename_whitespace() {
    let result = sanitize_filename("  Book Title  ");
    assert_eq!(result, "Book Title");
}

#[test]
fn test_filename_sanitization() {
    let book = bare_book("Book: With / Invalid? Characters", "Author");
    let filename = generate_filename(&book);
    assert!(!filename.contains(':'));
    assert!(!filename.contains('/'));
    assert!(!filename.contains('?'));
    assert!(filename.ends_with(".md"));
}

#[test]
fn test_generate_filename_format() {
    let book = bare_book("My Book", "John Doe");
    let filename = generate_filename(&book);
    assert_eq!(filename, "My Book - John Doe.md");
}

#[test]
fn sanitized_names_exactly() {
    assert_eq!(sanitize_filename("Book: With / Invalid? Characters"), "Book - With - Invalid- Characters");
    assert_eq!(sanitize_filename("\t a\u{1}b<c>|\"*\\ \u{3000}"), "ab-c-----");
    assert_eq!(sanitize_filename(" \u{a0}\n"), "Untitled");
}

#[test]
fn test_export_single_book() {
    let book = create_test_book();
    let config = create_test_config();
    let exporter = MarkdownExporter::new("/tmp/export".to_string());
    let content = exporter.generate_markdown(&book, &config, &vec![Some(25), Some(50)]);
    assert!(content.contains("# Test Book"));
    assert!(content.contains("Test Author"));
    assert!(content.contains("> First highlight"));
}

#[test]
fn markdown_is_exact() {
    let book = create_test_book();
    let config = create_test_config();
    let exporter = MarkdownExporter::new("/tmp/export".to_string());
    let content = exporter.generate_markdown(&book, &config, &vec![Some(25), None]);
    let expected = "# Test Book\n\n**Autor**: Test Author\n**ISBN**: 978-1234567890\n**Publisher**: Test Publisher\n**Data de Leitura**: 24 Janeiro 2025\n**Idioma**: en\n\nA test book description\n\n---\n\n> First highlight\n\nChapter 1 · 25%\n\n> Second highlight\n\nChapter 1\n";
    assert_eq!(content, expected);
    assert_eq!(exporter.export_dir(), "/tmp/export");
}

#[test]
fn markdown_without_highlights_or_metadata() {
    let mut config = create_test_config();
    config.metadata.author = false;
    let book = bare_book("Lonely", "Someone");
    let exporter = MarkdownExporter::new("d".to_string());
    assert_eq!(exporter.generate_markdown(&book, &config, &vec![]), "# Lonely\n");
}

#[test]
fn highlight_markdown_with_progress_only() {
    let h = highlight("h", "Quote", None, "d");
    assert_eq!(generate_highlight_markdown(&h, Some(7)), "> Quote\n\n7%\n");
    assert_eq!(generate_highlight_markdown(&h, None), "> Quote");
}

#[test]
fn dates_are_formatted() {
    assert_eq!(format_date("2025-01-24", &DateFormat::DdMonthYyyy), "24 Janeiro 2025");
    assert_eq!(format_date("2025-03-05", &DateFormat::DdMonthYyyy), "05 Março 2025");
    assert_eq!(format_date("2025-01-24", &DateFormat::DdMmYyyy), "24/01/2025");
    assert_eq!(format_date("2025-12-09", &DateFormat::Iso8601), "2025-12-09");
    assert_eq!(format_date("0987-02-03", &DateFormat::DdMmYyyy), "03/02/0987");
    assert_eq!(format_date("not a date", &DateFormat::Iso8601), "not a date");
    assert_eq!(format_date("2025-02-30", &DateFormat::Iso8601), "2025-02-30");
}

#[test]
fn structured_export_of_a_book() {
    let book = create_test_book();
    let config = create_test_config();
    let exporter = MarkdownExporter::new("d".to_string());
    let data = exporter.export_book_data(&book, &config, &vec![Some(25), None]);
    assert_eq!(data.title, "Test Book");
    assert_eq!(data.read_date, Some("24 Janeiro 2025".to_string()));
    assert_eq!(data.highlights.len(), 2);
    assert_eq!(data.highlights[0].location, "Chapter 1 · 25%");
    assert_eq!(data.highlights[1].location, "Chapter 1");
    assert_eq!(data.highlights[0].chapter, Some("Chapter 1".to_string()));
    assert!(!data.highlights[0].is_edited);
}
