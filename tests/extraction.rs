use kobo_highlights::extraction::{extract_books, resolve_chapter_title, BookmarkRow, ContentRow};

fn opt(x: Option<&str>) -> Option<String> {
    x.map(|v| v.to_string())
}

#[allow(clippy::too_many_arguments)]
fn content(
    id: &str,
    book_title: Option<&str>,
    title: Option<&str>,
    attribution: Option<&str>,
    isbn: Option<&str>,
    publisher: Option<&str>,
    language: Option<&str>,
    date_last_read: Option<&str>,
    content_type: i64,
) -> ContentRow {
    ContentRow {
        content_id: id.to_string(),
        book_title: opt(book_title),
        title: opt(title),
        attribution: opt(attribution),
        isbn: opt(isbn),
        publisher: opt(publisher),
        language: opt(language),
        date_last_read: opt(date_last_read),
        content_type: Some(content_type),
    }
}

#[allow(clippy::too_many_arguments)]
fn bookmark(
    id: &str,
    item: Option<&str>,
    volume: &str,
    text: Option<&str>,
    annotation: Option<&str>,
    container: Option<&str>,
    progress: Option<f64>,
    date: Option<&str>,
) -> BookmarkRow {
    BookmarkRow {
        bookmark_id: id.to_string(),
        content_id: opt(item),
        volume_id: volume.to_string(),
        text: opt(text),
        annotation: opt(annotation),
        container_path: opt(container),
        chapter_progress_bits: progress.map(f64::to_bits),
        date_created: opt(date),
    }
}

fn mock_contents() -> Vec<ContentRow> {
    vec![
        content(
            "vol1",
            None,
            None,
            Some("Test Author"),
            Some("123456789"),
            Some("Test Publisher"),
            Some("en"),
            Some("2025-01-24"),
            6,
        ),
        content(
            "vol1!section1",
            Some("Test Book"),
            Some("Chapter 1"),
            Some("Test Author"),
            Some("123456789"),
            Some("Test Publisher"),
            Some("en"),
            Some("2025-01-24"),
            6,
        ),
    ]
}

fn mock_bookmarks() -> Vec<BookmarkRow> {
    vec![bookmark(
        "hl1",
        Some("vol1!section1"),
        "vol1",
        Some("Test highlight text"),
        Some("My note"),
        Some("OEBPS/ch01.xhtml"),
        Some(0.25),
        Some("2025-01-24"),
    )]
}

fn toc_contents() -> Vec<ContentRow> {
    vec![
        content(
            "file:///mnt/onboard/book.epub",
            Some("My Book"),
            Some("My Book"),
            Some("Author Name"),
            Some("978-0000000000"),
            Some("Publisher"),
            Some("en"),
            Some("2025-01-24"),
            6,
        ),
        content(
            "file:///mnt/onboard/book.epub!xhtml/chapter3.xhtml",
            Some("My Book"),
            Some("xhtml/chapter3.xhtml"),
            Some("Author Name"),
            None,
            None,
            None,
            None,
            9,
        ),
        content(
            "file:///mnt/onboard/book.epub!xhtml/chapter3.xhtml-1",
            Some("My Book"),
            Some("Chapter 3: Connect Your Notes"),
            None,
            None,
            None,
            None,
            None,
            899,
        ),
    ]
}

#[test]
fn test_extract_highlights() {
    let books = extract_books(&mock_bookmarks(), &mock_contents());
    assert_eq!(books.len(), 1);
    assert_eq!(books[0].title, "Test Book");
    assert_eq!(books[0].author, "Test Author");
    assert_eq!(books[0].highlights.len(), 1);
    assert_eq!(books[0].highlights[0].text, "Test highlight text");
}

#[test]
fn test_file_path_normalization() {
    let kobo_path = "file:///mnt/onboard/Books/MyBook.epub";
    let contents = vec![content(kobo_path, Some("Title"), None, Some("Author"), None, None, None, None, 6)];
    let rows = vec![bookmark("hl1", Some("chapter1"), kobo_path, Some("text"), None, None, None, Some("date"))];
    let books = extract_books(&rows, &contents);
    assert_eq!(books.len(), 1);
    assert_eq!(books[0].file_path, Some("Books/MyBook.epub".to_string()));
}

#[test]
fn test_handle_null_annotation() {
    let mut rows = mock_bookmarks();
    rows.push(bookmark(
        "hl2",
        Some("vol1!section1"),
        "vol1",
        Some("Second highlight"),
        None,
        Some("OEBPS/ch01.xhtml"),
        Some(0.50),
        Some("2025-01-25"),
    ));
    let books = extract_books(&rows, &mock_contents());
    let second_highlight = books[0].highlights.iter().find(|h| h.id == "hl2").unwrap();
    assert!(second_highlight.annotation.is_none());
}

#[test]
fn test_empty_highlights_filtered() {
    let mut rows = mock_bookmarks();
    rows.push(bookmark("hl3", Some("vol1!section1"), "vol1", Some(""), None, Some("OEBPS/ch01.xhtml"), Some(0.75), Some("2025-01-26")));
    rows.push(bookmark("hl4", Some("vol1!section1"), "vol1", None, None, Some("OEBPS/ch01.xhtml"), Some(0.80), Some("2025-01-27")));
    let books = extract_books(&rows, &mock_contents());
    assert_eq!(books[0].highlights.len(), 1);
    assert_eq!(books[0].highlights[0].id, "hl1");
}

#[test]
fn test_chapter_title_from_toc() {
    let rows = vec![bookmark(
        "hl-toc",
        Some("file:///mnt/onboard/book.epub!xhtml/chapter3.xhtml"),
        "file:///mnt/onboard/book.epub",
        Some("A highlight text"),
        None,
        None,
        Some(0.30),
        Some("2025-01-24"),
    )];
    let books = extract_books(&rows, &toc_contents());
    assert_eq!(books.len(), 1);
    assert_eq!(books[0].highlights.len(), 1);
    assert_eq!(
        books[0].highlights[0].chapter_title,
        Some("Chapter 3: Connect Your Notes".to_string())
    );
}

#[test]
fn test_chapter_title_filename_filtered() {
    let contents = vec![
        content("vol2", Some("Filename Book"), Some("Filename Book"), Some("Author"), None, None, None, None, 6),
        content("vol2!Text/011.xhtml", Some("Filename Book"), Some("Text/011.xhtml"), Some("Author"), None, None, None, None, 9),
    ];
    let rows = vec![bookmark("hl-fn", Some("vol2!Text/011.xhtml"), "vol2", Some("Some highlight"), None, None, Some(0.10), Some("2025-01-25"))];
    let books = extract_books(&rows, &contents);
    assert_eq!(books.len(), 1);
    assert_eq!(books[0].highlights[0].chapter_title, None);
}

#[test]
fn test_chapter_title_fallback_to_ct9() {
    let contents = vec![
        content("vol3", Some("Good Book"), Some("Good Book"), Some("Good Author"), None, None, None, None, 6),
        content("vol3!ch1", Some("Good Book"), Some("Introduction"), Some("Good Author"), None, None, None, None, 9),
    ];
    let rows = vec![bookmark("hl-good", Some("vol3!ch1"), "vol3", Some("A good highlight"), None, None, Some(0.05), Some("2025-01-26"))];
    let books = extract_books(&rows, &contents);
    assert_eq!(books.len(), 1);
    assert_eq!(books[0].highlights[0].chapter_title, Some("Introduction".to_string()));
}

#[test]
fn one_book_root_row_and_one_bookmark() {
    let contents = vec![content("vol1", None, None, Some("Test Author"), None, None, None, None, 6)];
    let rows = vec![bookmark("b1", Some("vol1!ch1"), "vol1", Some("Hello"), None, None, None, None)];
    let books = extract_books(&rows, &contents);
    assert_eq!(books.len(), 1);
    assert_eq!(books[0].title, "Unknown Title");
    assert_eq!(books[0].author, "Test Author");
    assert_eq!(books[0].highlights.len(), 1);
    assert_eq!(books[0].highlights[0].text, "Hello");
    assert_eq!(books[0].highlights[0].date_created, "Unknown");
    assert_eq!(books[0].file_path, None);
}

#[test]
fn bookmarks_without_book_row_use_sentinels() {
    let rows = vec![bookmark("b1", None, "orphan", Some("x"), None, None, None, Some("2025-02-01"))];
    let books = extract_books(&rows, &Vec::new());
    assert_eq!(books.len(), 1);
    assert_eq!(books[0].title, "Unknown Title");
    assert_eq!(books[0].author, "Unknown Author");
    assert_eq!(books[0].highlights[0].chapter_title, None);
    assert_eq!(books[0].highlights[0].date_created, "2025-02-01");
}

#[test]
fn rows_without_text_give_no_highlight_and_no_book() {
    let rows = vec![
        bookmark("a", None, "v1", None, None, None, None, None),
        bookmark("b", None, "v2", Some(""), None, None, None, None),
    ];
    let books = extract_books(&rows, &Vec::new());
    assert!(books.is_empty());
}

#[test]
fn one_book_per_volume_in_table_order_sorted_by_title() {
    let contents = vec![
        content("vb", Some("Beta"), Some("Beta"), Some("B. Author"), Some("isbn-b"), None, Some("pt"), None, 6),
        content("va", Some("Alpha"), Some("Alpha"), None, None, Some("Pub A"), None, Some("2024-12-31"), 6),
    ];
    let rows = vec![
        bookmark("1", None, "vb", Some("b-one"), None, None, None, None),
        bookmark("2", None, "va", Some("a-one"), Some("note"), None, Some(0.5), None),
        bookmark("3", None, "vb", Some("b-two"), None, None, None, None),
        bookmark("4", None, "va", Some(""), None, None, None, None),
        bookmark("5", None, "va", Some("a-two"), None, Some("OPS/x.html"), None, None),
    ];
    let books = extract_books(&rows, &contents);
    assert_eq!(books.len(), 2);
    assert_eq!(books[0].content_id, "va");
    assert_eq!(books[0].title, "Alpha");
    assert_eq!(books[0].author, "Unknown Author");
    assert_eq!(books[0].publisher, Some("Pub A".to_string()));
    assert_eq!(books[0].date_last_read, Some("2024-12-31".to_string()));
    assert_eq!(books[0].isbn, None);
    let ids: Vec<&str> = books[0].highlights.iter().map(|h| h.id.as_str()).collect();
    assert_eq!(ids, vec!["2", "5"]);
    assert_eq!(books[0].highlights[0].annotation, Some("note".to_string()));
    assert_eq!(books[0].highlights[0].chapter_progress_bits, Some(0.5f64.to_bits()));
    assert_eq!(books[0].highlights[1].container_path, Some("OPS/x.html".to_string()));
    assert_eq!(books[1].content_id, "vb");
    assert_eq!(books[1].isbn, Some("isbn-b".to_string()));
    assert_eq!(books[1].language, Some("pt".to_string()));
    let ids: Vec<&str> = books[1].highlights.iter().map(|h| h.id.as_str()).collect();
    assert_eq!(ids, vec!["1", "3"]);
}

#[test]
fn titles_sort_by_code_point() {
    let contents = vec![
        content("v1", None, Some("b"), None, None, None, None, None, 6),
        content("v2", None, Some("B"), None, None, None, None, None, 6),
        content("v3", None, Some("Ábaco"), None, None, None, None, None, 6),
        content("v4", None, Some("Ba"), None, None, None, None, None, 6),
    ];
    let rows = vec![
        bookmark("1", None, "v1", Some("t"), None, None, None, None),
        bookmark("2", None, "v2", Some("t"), None, None, None, None),
        bookmark("3", None, "v3", Some("t"), None, None, None, None),
        bookmark("4", None, "v4", Some("t"), None, None, None, None),
    ];
    let books = extract_books(&rows, &contents);
    let titles: Vec<&str> = books.iter().map(|b| b.title.as_str()).collect();
    assert_eq!(titles, vec!["B", "Ba", "b", "Ábaco"]);
}

#[test]
fn toc_entry_wins_over_readable_page_title() {
    let contents = vec![
        content("v!p", None, Some("Page Title"), None, None, None, None, None, 9),
        content("v!p-12", None, Some("Real Chapter"), None, None, None, None, None, 899),
    ];
    let r = resolve_chapter_title(&contents, &Some("v!p".to_string()));
    assert_eq!(r, Some("Real Chapter".to_string()));
}

#[test]
fn toc_entry_needs_numeric_suffix_and_title() {
    let contents = vec![
        content("v!p-x", None, Some("Not positional"), None, None, None, None, None, 899),
        content("v!p0-1", None, Some("Other item"), None, None, None, None, None, 899),
        ContentRow { title: None, ..content("v!p-2", None, None, None, None, None, None, None, 899) },
        content("v!p", None, Some("Page Title"), None, None, None, None, None, 9),
    ];
    let r = resolve_chapter_title(&contents, &Some("v!p".to_string()));
    assert_eq!(r, Some("Page Title".to_string()));
}

#[test]
fn filename_shaped_titles_are_dropped_ignoring_case() {
    for title in ["Part/One", "chapter.XHTML", "c.html", "index.Htm"] {
        let contents = vec![content("v!p", None, Some(title), None, None, None, None, None, 9)];
        assert_eq!(resolve_chapter_title(&contents, &Some("v!p".to_string())), None, "{}", title);
    }
    let contents = vec![content("v!p", None, Some("On .htm files and more"), None, None, None, None, None, 9)];
    assert_eq!(
        resolve_chapter_title(&contents, &Some("v!p".to_string())),
        Some("On .htm files and more".to_string())
    );
    assert_eq!(resolve_chapter_title(&contents, &None), None);
}

#[test]
fn volume_outside_device_has_no_file_path() {
    let rows = vec![bookmark("1", None, "file:///mnt/sd/book.epub", Some("t"), None, None, None, None)];
    let books = extract_books(&rows, &Vec::new());
    assert_eq!(books[0].file_path, None);
}
