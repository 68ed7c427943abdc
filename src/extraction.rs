//! Reconstructs books and their ordered highlights from the device's bookmark and content tables.
use vstd::prelude::*;
use crate::models::{Book, Highlight};
use crate::text::{chars_of, contains_char, matches_at_exec, starts_with, string_of, sub_chars};

verus! {

broadcast use vstd::string::group_string_axioms;

/// Content type of a table-of-contents entry.
pub const TOC_CONTENT_TYPE: i64 = 899;

/// Volume identifiers of books stored on the device start with this prefix.
pub const DEVICE_FILE_PREFIX: &'static str = "file:///mnt/onboard/";

/// One row of the bookmark table.
#[derive(Debug, Clone)]
pub struct BookmarkRow {
    pub bookmark_id: String,
    /// Item (page) the bookmark lies in.
    pub content_id: Option<String>,
    /// Book the bookmark belongs to.
    pub volume_id: String,
    pub text: Option<String>,
    pub annotation: Option<String>,
    pub container_path: Option<String>,
    /// IEEE-754 bit pattern of the chapter progress.
    pub chapter_progress_bits: Option<u64>,
    pub date_created: Option<String>,
}

/// One row of the content table.
#[derive(Debug, Clone)]
pub struct ContentRow {
    pub content_id: String,
    pub book_title: Option<String>,
    pub title: Option<String>,
    pub attribution: Option<String>,
    pub isbn: Option<String>,
    pub publisher: Option<String>,
    pub language: Option<String>,
    pub date_last_read: Option<String>,
    pub content_type: Option<i64>,
}

pub open spec fn has_text(b: BookmarkRow) -> bool {
    b.text matches Some(t) && t@.len() > 0
}

pub open spec fn opt_view(o: Option<String>) -> Option<Seq<char>> {
    match o {
        Some(s) => Some(s@),
        None => None,
    }
}

/// The first content row whose identifier is `id`.
pub open spec fn lookup(contents: Seq<ContentRow>, id: Seq<char>) -> Option<ContentRow>
    decreases contents.len(),
{
    if contents.len() == 0 {
        None
    } else if contents[0].content_id@ == id {
        Some(contents[0])
    } else {
        lookup(contents.drop_first(), id)
    }
}

pub open spec fn is_ascii_digit(c: char) -> bool {
    '0' <= c && c <= '9'
}

/// `id` is `item` followed by a dash and a positional number.
pub open spec fn is_toc_id_for(id: Seq<char>, item: Seq<char>) -> bool {
    &&& id.len() > item.len() + 1
    &&& id.take(item.len() as int) == item
    &&& id[item.len() as int] == '-'
    &&& forall|k: int| item.len() + 1 <= k < id.len() ==> is_ascii_digit(id[k])
}

/// A titled table-of-contents entry of `item`.
pub open spec fn is_toc_entry_for(c: ContentRow, item: Seq<char>) -> bool {
    &&& c.content_type == Some(TOC_CONTENT_TYPE)
    &&& is_toc_id_for(c.content_id@, item)
    &&& c.title is Some
}

/// Title of the first titled table-of-contents entry of `item`.
pub open spec fn toc_title(contents: Seq<ContentRow>, item: Seq<char>) -> Option<String>
    decreases contents.len(),
{
    if contents.len() == 0 {
        None
    } else if is_toc_entry_for(contents[0], item) {
        contents[0].title
    } else {
        toc_title(contents.drop_first(), item)
    }
}

/// `c` equals the lower-case ASCII character `l`, ignoring ASCII case.
pub open spec fn ascii_ci_eq(c: char, l: char) -> bool {
    c == l || ('a' <= l && l <= 'z' && c as u32 + 32 == l as u32)
}

/// `t` ends with `suffix`, ignoring ASCII case (`suffix` written in lower case).
pub open spec fn ends_with_ci(t: Seq<char>, suffix: Seq<char>) -> bool {
    &&& suffix.len() <= t.len()
    &&& forall|k: int|
        0 <= k < suffix.len() ==> ascii_ci_eq(t[t.len() - suffix.len() + k], suffix[k])
}

/// A title that is a file path rather than a human-readable chapter name.
pub open spec fn looks_like_filename(t: Seq<char>) -> bool {
    ||| t.contains('/')
    ||| ends_with_ci(t, ".xhtml"@)
    ||| ends_with_ci(t, ".html"@)
    ||| ends_with_ci(t, ".htm"@)
}

/// Chapter title of a bookmark in item `item`: a table-of-contents entry wins; else the
/// item's own title unless it looks like a file name; else none.
pub open spec fn chapter_title(contents: Seq<ContentRow>, item: Option<String>) -> Option<String> {
    match item {
        None => None,
        Some(item) => match toc_title(contents, item@) {
            Some(t) => Some(t),
            None => match lookup(contents, item@) {
                Some(page) => match page.title {
                    Some(t) => if looks_like_filename(t@) {
                        None
                    } else {
                        Some(t)
                    },
                    None => None,
                },
                None => None,
            },
        },
    }
}

pub open spec fn or_else(a: Option<String>, b: Option<String>) -> Option<String> {
    if a is Some {
        a
    } else {
        b
    }
}

pub open spec fn book_row(contents: Seq<ContentRow>, b: BookmarkRow) -> Option<ContentRow> {
    lookup(contents, b.volume_id@)
}

pub open spec fn page_row(contents: Seq<ContentRow>, b: BookmarkRow) -> Option<ContentRow> {
    match b.content_id {
        Some(item) => lookup(contents, item@),
        None => None,
    }
}

pub open spec fn title_field(c: Option<ContentRow>) -> Option<String> {
    match c {
        Some(r) => r.title,
        None => None,
    }
}

pub open spec fn book_title_field(c: Option<ContentRow>) -> Option<String> {
    match c {
        Some(r) => r.book_title,
        None => None,
    }
}

/// Book title seen from one bookmark: the book row's title, its book title, then the page
/// row's book title, its title, then a sentinel.
pub open spec fn row_book_title(contents: Seq<ContentRow>, b: BookmarkRow) -> Seq<char> {
    let book = book_row(contents, b);
    let page = page_row(contents, b);
    match or_else(
        or_else(or_else(title_field(book), book_title_field(book)), book_title_field(page)),
        title_field(page),
    ) {
        Some(t) => t@,
        None => "Unknown Title"@,
    }
}

pub open spec fn row_author(contents: Seq<ContentRow>, b: BookmarkRow) -> Seq<char> {
    match book_row(contents, b) {
        Some(r) => match r.attribution {
            Some(a) => a@,
            None => "Unknown Author"@,
        },
        None => "Unknown Author"@,
    }
}


pub open spec fn isbn_of_row(contents: Seq<ContentRow>) -> spec_fn(BookmarkRow) -> Option<String> {
    |b: BookmarkRow|
        match book_row(contents, b) {
            Some(r) => r.isbn,
            None => None,
        }
}

pub open spec fn publisher_of_row(contents: Seq<ContentRow>) -> spec_fn(BookmarkRow) -> Option<
    String,
> {
    |b: BookmarkRow|
        match book_row(contents, b) {
            Some(r) => r.publisher,
            None => None,
        }
}

pub open spec fn language_of_row(contents: Seq<ContentRow>) -> spec_fn(BookmarkRow) -> Option<
    String,
> {
    |b: BookmarkRow|
        match book_row(contents, b) {
            Some(r) => r.language,
            None => None,
        }
}

pub open spec fn last_read_of_row(contents: Seq<ContentRow>) -> spec_fn(BookmarkRow) -> Option<
    String,
> {
    |b: BookmarkRow|
        match book_row(contents, b) {
            Some(r) => r.date_last_read,
            None => None,
        }
}

/// The first present value of `f` over `rows`, in row order.
pub open spec fn first_present(rows: Seq<BookmarkRow>, f: spec_fn(BookmarkRow) -> Option<String>) -> Option<String>
    decreases rows.len(),
{
    if rows.len() == 0 {
        None
    } else {
        or_else(first_present(rows.drop_last(), f), f(rows.last()))
    }
}

/// The rows with text that belong to volume `vol`, in table order.
pub open spec fn rows_of(rows: Seq<BookmarkRow>, vol: Seq<char>) -> Seq<BookmarkRow>
    decreases rows.len(),
{
    if rows.len() == 0 {
        Seq::empty()
    } else if has_text(rows.last()) && rows.last().volume_id@ == vol {
        rows_of(rows.drop_last(), vol).push(rows.last())
    } else {
        rows_of(rows.drop_last(), vol)
    }
}

/// `h` is the highlight extracted from bookmark `b`.
pub open spec fn highlight_of(h: Highlight, b: BookmarkRow, contents: Seq<ContentRow>) -> bool {
    &&& h.id == b.bookmark_id
    &&& b.text == Some(h.text)
    &&& h.annotation == b.annotation
    &&& h.chapter_title == chapter_title(contents, b.content_id)
    &&& h.chapter_progress_bits == b.chapter_progress_bits
    &&& h.container_path == b.container_path
    &&& h.date_created@ == (match b.date_created {
        Some(d) => d@,
        None => "Unknown"@,
    })
    &&& h.personal_note is None
    &&& h.color is None
    &&& !h.is_excluded
    &&& h.edited_text is None
}

/// Relative file path of an on-device volume.
pub open spec fn file_path_of(vol: Seq<char>) -> Option<Seq<char>> {
    if starts_with(vol, DEVICE_FILE_PREFIX@) {
        Some(vol.skip(DEVICE_FILE_PREFIX@.len() as int))
    } else {
        None
    }
}

/// `book` is the book built from the bookmarks of its volume.
#[verifier::opaque]
pub open spec fn describes_volume(
    book: Book,
    rows: Seq<BookmarkRow>,
    contents: Seq<ContentRow>,
) -> bool {
    let group = rows_of(rows, book.content_id@);
    &&& group.len() > 0
    &&& book.highlights@.len() == group.len()
    &&& forall|i: int|
        0 <= i < group.len() ==> highlight_of(#[trigger] book.highlights@[i], group[i], contents)
    &&& book.title@ == row_book_title(contents, group[0])
    &&& book.author@ == row_author(contents, group[0])
    &&& book.isbn == first_present(group, isbn_of_row(contents))
    &&& book.publisher == first_present(group, publisher_of_row(contents))
    &&& book.language == first_present(group, language_of_row(contents))
    &&& book.date_last_read == first_present(group, last_read_of_row(contents))
    &&& opt_view(book.file_path) == file_path_of(book.content_id@)
    &&& book.description is None
    &&& book.cover_path is None
}

/// Lexicographic order of titles by code point (the byte order of their UTF-8 text).
pub open spec fn title_le(a: Seq<char>, b: Seq<char>) -> bool
    decreases a.len(),
{
    if a.len() == 0 {
        true
    } else if b.len() == 0 {
        false
    } else if a[0] != b[0] {
        a[0] < b[0]
    } else {
        title_le(a.drop_first(), b.drop_first())
    }
}

pub open spec fn sorted_by_title(books: Seq<Book>) -> bool {
    forall|i: int| 0 <= i < books.len() - 1 ==> title_le(#[trigger] books[i].title@, books[i + 1].title@)
}

/// `books` is what extraction yields from `rows` and `contents`: one book per volume that has
/// a bookmark with text, each describing exactly that volume's bookmarks, sorted by title.
pub open spec fn is_extraction_of(
    books: Seq<Book>,
    rows: Seq<BookmarkRow>,
    contents: Seq<ContentRow>,
) -> bool {
    &&& forall|i: int| 0 <= i < books.len() ==> describes_volume(#[trigger] books[i], rows, contents)
    &&& forall|i: int, j: int|
        0 <= i < j < books.len() ==> books[i].content_id@ != books[j].content_id@
    &&& forall|k: int|
        0 <= k < rows.len() && has_text(#[trigger] rows[k]) ==> has_book_for(
            books,
            rows[k].volume_id@,
        )
    &&& sorted_by_title(books)
}


/// An owned copy of an optional string.
pub fn clone_opt(o: &Option<String>) -> (r: Option<String>)
    ensures
        r == *o,
{
    match o {
        Some(s) => Some(s.clone()),
        None => None,
    }
}

pub fn has_text_exec(b: &BookmarkRow) -> (r: bool)
    ensures
        r == has_text(*b),
{
    match &b.text {
        Some(t) => !t.as_str().is_empty(),
        None => false,
    }
}

/// Index of the first content row whose identifier is `id`.
pub fn find_content(contents: &Vec<ContentRow>, id: &String) -> (r: Option<usize>)
    ensures
        r matches Some(i) ==> i < contents@.len() && lookup(contents@, id@) == Some(
            contents@[i as int],
        ),
        r is None ==> lookup(contents@, id@) is None,
{
    let mut i: usize = 0;
    assert(contents@.subrange(0, contents@.len() as int) =~= contents@);
    while i < contents.len()
        invariant
            i <= contents@.len(),
            lookup(contents@, id@) == lookup(
                contents@.subrange(i as int, contents@.len() as int),
                id@,
            ),
        decreases contents.len() - i,
    {
        assert(contents@.subrange(i as int, contents@.len() as int).drop_first()
            =~= contents@.subrange(i + 1, contents@.len() as int));
        if contents[i].content_id == *id {
            return Some(i);
        }
        i += 1;
    }
    None
}

/// Whether `c` is a titled table-of-contents entry of the item whose identifier is `item`.
#[verifier::loop_isolation(false)]
pub fn is_toc_entry_exec(c: &ContentRow, item: &Vec<char>) -> (r: bool)
    ensures
        r == is_toc_entry_for(*c, item@),
{
    let is_toc = match c.content_type {
        Some(t) => t == TOC_CONTENT_TYPE,
        None => false,
    };
    if !is_toc || c.title.is_none() {
        return false;
    }
    let id = chars_of(c.content_id.as_str());
    if id.len() <= item.len() || id.len() - item.len() < 2 {
        return false;
    }
    if !matches_at_exec(&id, item, 0) {
        assert(!(id@.take(item@.len() as int) == item@)) by {
            assert(id@.subrange(0, item@.len() as int) == id@.take(item@.len() as int));
        }
        return false;
    }
    assert(id@.take(item@.len() as int) =~= id@.subrange(0, item@.len() as int));
    if id[item.len()] != '-' {
        return false;
    }
    let mut k: usize = item.len() + 1;
    while k < id.len()
        invariant
            item@.len() + 1 <= k <= id@.len(),
            forall|j: int| item@.len() + 1 <= j < k ==> is_ascii_digit(id@[j]),
        decreases id.len() - k,
    {
        if !('0' <= id[k] && id[k] <= '9') {
            assert(!is_ascii_digit(id@[k as int]));
            return false;
        }
        k += 1;
    }
    true
}

/// Title of the first titled table-of-contents entry of `item`.
pub fn find_toc_title(contents: &Vec<ContentRow>, item: &Vec<char>) -> (r: Option<String>)
    ensures
        r == toc_title(contents@, item@),
{
    let mut i: usize = 0;
    assert(contents@.subrange(0, contents@.len() as int) =~= contents@);
    while i < contents.len()
        invariant
            i <= contents@.len(),
            toc_title(contents@, item@) == toc_title(
                contents@.subrange(i as int, contents@.len() as int),
                item@,
            ),
        decreases contents.len() - i,
    {
        assert(contents@.subrange(i as int, contents@.len() as int).drop_first()
            =~= contents@.subrange(i + 1, contents@.len() as int));
        if is_toc_entry_exec(&contents[i], item) {
            return clone_opt(&contents[i].title);
        }
        i += 1;
    }
    None
}

/// Whether `t` ends with the lower-case `suffix`, ignoring ASCII case.
#[verifier::loop_isolation(false)]
pub fn ends_with_ci_exec(t: &Vec<char>, suffix: &Vec<char>) -> (r: bool)
    ensures
        r == ends_with_ci(t@, suffix@),
{
    if suffix.len() > t.len() {
        return false;
    }
    let base = t.len() - suffix.len();
    let mut k: usize = 0;
    while k < suffix.len()
        invariant
            base + suffix@.len() == t@.len(),
            k <= suffix@.len(),
            base + k <= t@.len(),
            forall|j: int| 0 <= j < k ==> ascii_ci_eq(t@[base + j], suffix@[j]),
        decreases suffix.len() - k,
    {
        let c = t[base + k];
        let l = suffix[k];
        let same = c == l || ('a' <= l && l <= 'z' && c as u32 == (l as u32) - 32);
        if !same {
            return false;
        }
        k += 1;
    }
    true
}

pub fn looks_like_filename_exec(t: &Vec<char>) -> (r: bool)
    ensures
        r == looks_like_filename(t@),
{
    contains_char(t, '/') || ends_with_ci_exec(t, &chars_of(".xhtml")) || ends_with_ci_exec(
        t,
        &chars_of(".html"),
    ) || ends_with_ci_exec(t, &chars_of(".htm"))
}

/// Chapter title of a bookmark lying in item `item`: the first titled table-of-contents
/// entry of the item; otherwise the item's own title when it does not look like a file name;
/// otherwise none.
pub fn resolve_chapter_title(contents: &Vec<ContentRow>, item: &Option<String>) -> (r: Option<
    String,
>)
    ensures
        r == chapter_title(contents@, *item),
{
    match item {
        None => None,
        Some(item) => {
            let item_chars = chars_of(item.as_str());
            match find_toc_title(contents, &item_chars) {
                Some(t) => Some(t),
                None => match find_content(contents, item) {
                    Some(i) => match &contents[i].title {
                        Some(t) => {
                            let tc = chars_of(t.as_str());
                            if looks_like_filename_exec(&tc) {
                                None
                            } else {
                                Some(t.clone())
                            }
                        },
                        None => None,
                    },
                    None => None,
                },
            }
        },
    }
}

/// Book title as seen from bookmark `b`.
pub fn resolve_book_title(contents: &Vec<ContentRow>, b: &BookmarkRow) -> (r: String)
    ensures
        r@ == row_book_title(contents@, *b),
{
    let book = find_content(contents, &b.volume_id);
    let page = match &b.content_id {
        Some(item) => find_content(contents, item),
        None => None,
    };
    match book {
        Some(i) => {
            match &contents[i].title {
                Some(t) => {
                    return t.clone();
                },
                None => {},
            }
            match &contents[i].book_title {
                Some(t) => {
                    return t.clone();
                },
                None => {},
            }
        },
        None => {},
    }
    match page {
        Some(i) => {
            match &contents[i].book_title {
                Some(t) => {
                    return t.clone();
                },
                None => {},
            }
            match &contents[i].title {
                Some(t) => {
                    return t.clone();
                },
                None => {},
            }
        },
        None => {},
    }
    "Unknown Title".to_string()
}

/// Author as seen from bookmark `b`.
pub fn resolve_author(contents: &Vec<ContentRow>, b: &BookmarkRow) -> (r: String)
    ensures
        r@ == row_author(contents@, *b),
{
    match find_content(contents, &b.volume_id) {
        Some(i) => match &contents[i].attribution {
            Some(a) => a.clone(),
            None => "Unknown Author".to_string(),
        },
        None => "Unknown Author".to_string(),
    }
}

/// The highlight extracted from bookmark `b`.
pub fn highlight_from_row(b: &BookmarkRow, contents: &Vec<ContentRow>) -> (h: Highlight)
    requires
        has_text(*b),
    ensures
        highlight_of(h, *b, contents@),
{
    let text = match &b.text {
        Some(t) => t.clone(),
        None => String::new(),
    };
    let date_created = match &b.date_created {
        Some(d) => d.clone(),
        None => "Unknown".to_string(),
    };
    Highlight {
        id: b.bookmark_id.clone(),
        text,
        annotation: clone_opt(&b.annotation),
        personal_note: None,
        chapter_title: resolve_chapter_title(contents, &b.content_id),
        chapter_progress_bits: b.chapter_progress_bits,
        container_path: clone_opt(&b.container_path),
        date_created,
        color: None,
        is_excluded: false,
        edited_text: None,
    }
}

/// The path of an on-device volume relative to the device root, if `vol` names one.
pub fn device_file_path(vol: &String) -> (r: Option<String>)
    ensures
        opt_view(r) == file_path_of(vol@),
{
    let v = chars_of(vol.as_str());
    let p = chars_of(DEVICE_FILE_PREFIX);
    if matches_at_exec(&v, &p, 0) {
        let rest = sub_chars(&v, p.len(), v.len());
        assert(rest@ =~= v@.skip(p@.len() as int));
        Some(string_of(&rest))
    } else {
        None
    }
}


/// The book of volume `vol`, built from its bookmarks in table order: title and author from
/// the first bookmark, each metadata field from the first bookmark that supplies it.
pub fn build_book(rows: &Vec<BookmarkRow>, contents: &Vec<ContentRow>, vol: &String) -> (book: Book)
    requires
        rows_of(rows@, vol@).len() > 0,
    ensures
        book.content_id == *vol,
        describes_volume(book, rows@, contents@),
{
    let file_path = device_file_path(vol);
    let mut book = Book::new(vol.clone(), String::new(), String::new());
    book.file_path = file_path;
    // The book-level content row is the same for every bookmark of this volume.
    let meta = find_content(contents, vol);
    let mut j: usize = 0;
    while j < rows.len()
        invariant
            j <= rows@.len(),
            book.content_id == *vol,
            opt_view(book.file_path) == file_path_of(vol@),
            book.description is None,
            book.cover_path is None,
            meta matches Some(m) ==> m < contents@.len() && lookup(contents@, vol@) == Some(
                contents@[m as int],
            ),
            meta is None ==> lookup(contents@, vol@) is None,
            book.highlights@.len() == rows_of(rows@.take(j as int), vol@).len(),
            forall|i: int|
                0 <= i < rows_of(rows@.take(j as int), vol@).len() ==> highlight_of(
                    #[trigger] book.highlights@[i],
                    rows_of(rows@.take(j as int), vol@)[i],
                    contents@,
                ),
            rows_of(rows@.take(j as int), vol@).len() > 0 ==> book.title@ == row_book_title(
                contents@,
                rows_of(rows@.take(j as int), vol@)[0],
            ) && book.author@ == row_author(contents@, rows_of(rows@.take(j as int), vol@)[0]),
            book.isbn == first_present(rows_of(rows@.take(j as int), vol@), isbn_of_row(contents@)),
            book.publisher == first_present(
                rows_of(rows@.take(j as int), vol@),
                publisher_of_row(contents@),
            ),
            book.language == first_present(
                rows_of(rows@.take(j as int), vol@),
                language_of_row(contents@),
            ),
            book.date_last_read == first_present(
                rows_of(rows@.take(j as int), vol@),
                last_read_of_row(contents@),
            ),
        decreases rows.len() - j,
    {
        let ghost g = rows_of(rows@.take(j as int), vol@);
        let row = &rows[j];
        assert(rows@.take(j + 1).drop_last() =~= rows@.take(j as int));
        assert(rows@.take(j + 1).last() == rows@[j as int]);
        if has_text_exec(row) && row.volume_id == *vol {
            let ghost g2 = g.push(rows@[j as int]);
            assert(rows_of(rows@.take(j + 1), vol@) == g2);
            assert(g2.drop_last() =~= g);
            if book.highlights.len() == 0 {
                book.title = resolve_book_title(contents, row);
                book.author = resolve_author(contents, row);
            }
            if book.isbn.is_none() {
                book.isbn = match meta {
                    Some(m) => clone_opt(&contents[m].isbn),
                    None => None,
                };
            }
            if book.publisher.is_none() {
                book.publisher = match meta {
                    Some(m) => clone_opt(&contents[m].publisher),
                    None => None,
                };
            }
            if book.language.is_none() {
                book.language = match meta {
                    Some(m) => clone_opt(&contents[m].language),
                    None => None,
                };
            }
            if book.date_last_read.is_none() {
                book.date_last_read = match meta {
                    Some(m) => clone_opt(&contents[m].date_last_read),
                    None => None,
                };
            }
            let h = highlight_from_row(row, contents);
            book.highlights.push(h);
            assert(first_present(g2, isbn_of_row(contents@)) == or_else(
                first_present(g, isbn_of_row(contents@)),
                isbn_of_row(contents@)(rows@[j as int]),
            ));
            assert(first_present(g2, publisher_of_row(contents@)) == or_else(
                first_present(g, publisher_of_row(contents@)),
                publisher_of_row(contents@)(rows@[j as int]),
            ));
            assert(first_present(g2, language_of_row(contents@)) == or_else(
                first_present(g, language_of_row(contents@)),
                language_of_row(contents@)(rows@[j as int]),
            ));
            assert(first_present(g2, last_read_of_row(contents@)) == or_else(
                first_present(g, last_read_of_row(contents@)),
                last_read_of_row(contents@)(rows@[j as int]),
            ));
        } else {
            assert(rows_of(rows@.take(j + 1), vol@) == g);
        }
        j += 1;
    }
    assert(rows@.take(rows@.len() as int) =~= rows@);
    proof {
        reveal(describes_volume);
    }
    book
}

/// Index of `v` in `vols`, if present.
pub fn position_of(vols: &Vec<String>, v: &String) -> (r: Option<usize>)
    ensures
        r matches Some(i) ==> i < vols@.len() && vols@[i as int]@ == v@,
        r is None ==> forall|i: int| 0 <= i < vols@.len() ==> vols@[i]@ != v@,
{
    let mut i: usize = 0;
    while i < vols.len()
        invariant
            i <= vols@.len(),
            forall|t: int| 0 <= t < i ==> vols@[t]@ != v@,
        decreases vols.len() - i,
    {
        if vols[i] == *v {
            return Some(i);
        }
        i += 1;
    }
    None
}

proof fn lemma_rows_of_grows(rows: Seq<BookmarkRow>, vol: Seq<char>, j: int)
    requires
        0 <= j < rows.len(),
    ensures
        rows_of(rows.take(j + 1), vol).len() >= rows_of(rows.take(j), vol).len(),
        has_text(rows[j]) && rows[j].volume_id@ == vol ==> rows_of(rows.take(j + 1), vol).len()
            > 0,
{
    assert(rows.take(j + 1).drop_last() =~= rows.take(j));
    assert(rows.take(j + 1).last() == rows[j]);
}

/// The volumes that have a bookmark with text, each once, in order of first appearance.
pub fn distinct_volumes(rows: &Vec<BookmarkRow>) -> (vols: Vec<String>)
    ensures
        forall|i: int, j: int| 0 <= i < j < vols@.len() ==> vols@[i]@ != vols@[j]@,
        forall|i: int| 0 <= i < vols@.len() ==> rows_of(rows@, #[trigger] vols@[i]@).len() > 0,
        forall|k: int|
            0 <= k < rows@.len() && has_text(#[trigger] rows@[k]) ==> exists|i: int|
                0 <= i < vols@.len() && vols@[i]@ == rows@[k].volume_id@,
{
    let mut vols: Vec<String> = Vec::new();
    let mut j: usize = 0;
    while j < rows.len()
        invariant
            j <= rows@.len(),
            forall|i: int, t: int| 0 <= i < t < vols@.len() ==> vols@[i]@ != vols@[t]@,
            forall|i: int|
                0 <= i < vols@.len() ==> rows_of(rows@.take(j as int), #[trigger] vols@[i]@).len()
                    > 0,
            forall|k: int|
                0 <= k < j && has_text(#[trigger] rows@[k]) ==> exists|i: int|
                    0 <= i < vols@.len() && vols@[i]@ == rows@[k].volume_id@,
        decreases rows.len() - j,
    {
        proof {
            assert forall|i: int| 0 <= i < vols@.len() implies rows_of(
                rows@.take(j + 1),
                #[trigger] vols@[i]@,
            ).len() > 0 by {
                lemma_rows_of_grows(rows@, vols@[i]@, j as int);
            }
        }
        if has_text_exec(&rows[j]) {
            match position_of(&vols, &rows[j].volume_id) {
                Some(p) => {
                    assert(vols@[p as int]@ == rows@[j as int].volume_id@);
                },
                None => {
                    let ghost old_vols = vols@;
                    proof {
                        lemma_rows_of_grows(rows@, rows@[j as int].volume_id@, j as int);
                    }
                    vols.push(rows[j].volume_id.clone());
                    assert(vols@[old_vols.len() as int] == rows@[j as int].volume_id);
                    assert forall|k: int|
                        0 <= k < j + 1 && has_text(#[trigger] rows@[k]) implies exists|i: int|
                        0 <= i < vols@.len() && vols@[i]@ == rows@[k].volume_id@ by {
                        if k < j {
                            let i = choose|i: int|
                                0 <= i < old_vols.len() && old_vols[i]@ == rows@[k].volume_id@;
                            assert(vols@[i] == old_vols[i]);
                        } else {
                            assert(vols@[old_vols.len() as int]@ == rows@[k].volume_id@);
                        }
                    }
                },
            }
        }
        j += 1;
    }
    assert(rows@.take(rows@.len() as int) =~= rows@);
    vols
}

/// Whether `a` sorts before or equal to `b` by code point.
pub fn title_le_exec(a: &Vec<char>, b: &Vec<char>) -> (r: bool)
    ensures
        r == title_le(a@, b@),
{
    let mut k: usize = 0;
    assert(a@.skip(0) =~= a@);
    assert(b@.skip(0) =~= b@);
    while k < a.len() && k < b.len()
        invariant
            k <= a@.len(),
            k <= b@.len(),
            title_le(a@, b@) == title_le(a@.skip(k as int), b@.skip(k as int)),
        decreases a.len() - k,
    {
        if a[k] != b[k] {
            return a[k] < b[k];
        }
        assert(a@.skip(k as int).drop_first() =~= a@.skip(k + 1));
        assert(b@.skip(k as int).drop_first() =~= b@.skip(k + 1));
        k += 1;
    }
    k == a.len()
}

proof fn lemma_title_le_total(a: Seq<char>, b: Seq<char>)
    ensures
        title_le(a, b) || title_le(b, a),
    decreases a.len(),
{
    if a.len() > 0 && b.len() > 0 && a[0] == b[0] {
        lemma_title_le_total(a.drop_first(), b.drop_first());
    }
}

/// Inserts `b` into the title-sorted `books` after every book whose title sorts before or
/// equal to its own.
pub fn insert_by_title(books: &mut Vec<Book>, b: Book) -> (pos: usize)
    requires
        sorted_by_title(old(books)@),
    ensures
        pos <= old(books)@.len(),
        final(books)@.len() == old(books)@.len() + 1,
        forall|q: int| 0 <= q < pos ==> final(books)@[q] == old(books)@[q],
        final(books)@[pos as int] == b,
        forall|q: int| pos < q < final(books)@.len() ==> final(books)@[q] == old(books)@[q - 1],
        sorted_by_title(final(books)@),
{
    let bt = chars_of(b.title.as_str());
    let mut pos: usize = 0;
    let mut done = false;
    while pos < books.len() && !done
        invariant
            pos <= books@.len(),
            bt@ == b.title@,
            forall|q: int| 0 <= q < pos ==> title_le(books@[q].title@, b.title@),
            done ==> pos < books@.len() && !title_le(books@[pos as int].title@, b.title@),
        decreases books.len() - pos + if done {
            0int
        } else {
            1int
        },
    {
        let t = chars_of(books[pos].title.as_str());
        if title_le_exec(&t, &bt) {
            pos += 1;
        } else {
            done = true;
        }
    }
    let ghost old_books = books@;
    books.insert(pos, b);
    proof {
        if pos < old_books.len() {
            lemma_title_le_total(old_books[pos as int].title@, b.title@);
        }
        assert forall|q: int| 0 <= q < books@.len() - 1 implies title_le(
            #[trigger] books@[q].title@,
            books@[q + 1].title@,
        ) by {
            if q + 1 < pos {
                assert(title_le(old_books[q].title@, old_books[q + 1].title@));
            } else if q + 1 == pos {
            } else if q == pos {
            } else {
                assert(title_le(old_books[q - 1].title@, old_books[q].title@));
            }
        }
    }
    pos
}

/// Some book of `books` has identifier `id`.
pub open spec fn has_book_for(books: Seq<Book>, id: Seq<char>) -> bool {
    exists|p: int| 0 <= p < books.len() && books[p].content_id@ == id
}

/// `id` is one of the first `n` volumes of `vols`.
pub open spec fn among_first(vols: Seq<String>, n: int, id: Seq<char>) -> bool {
    exists|t: int| 0 <= t < n && vols[t]@ == id
}

/// `books` is `old_books` with `b` inserted at `pos`.
pub open spec fn inserted_at(old_books: Seq<Book>, books: Seq<Book>, pos: int, b: Book) -> bool {
    &&& 0 <= pos <= old_books.len()
    &&& books.len() == old_books.len() + 1
    &&& forall|q: int| 0 <= q < pos ==> books[q] == old_books[q]
    &&& books[pos] == b
    &&& forall|q: int| pos < q < books.len() ==> books[q] == old_books[q - 1]
}

proof fn lemma_insert_describes(
    old_books: Seq<Book>,
    books: Seq<Book>,
    pos: int,
    rows: Seq<BookmarkRow>,
    contents: Seq<ContentRow>,
)
    requires
        inserted_at(old_books, books, pos, books[pos]),
        describes_volume(books[pos], rows, contents),
        forall|p: int|
            0 <= p < old_books.len() ==> describes_volume(#[trigger] old_books[p], rows, contents),
    ensures
        forall|p: int| 0 <= p < books.len() ==> describes_volume(#[trigger] books[p], rows, contents),
{
    assert forall|p: int| 0 <= p < books.len() implies describes_volume(
        #[trigger] books[p],
        rows,
        contents,
    ) by {
        if p < pos {
            assert(books[p] == old_books[p]);
        } else if p > pos {
            assert(books[p] == old_books[p - 1]);
        }
    }
}

proof fn lemma_insert_membership(
    old_books: Seq<Book>,
    books: Seq<Book>,
    pos: int,
    vols: Seq<String>,
    i: int,
)
    requires
        0 <= i < vols.len(),
        inserted_at(old_books, books, pos, books[pos]),
        books[pos].content_id@ == vols[i]@,
        forall|p: int|
            0 <= p < old_books.len() ==> among_first(vols, i, #[trigger] old_books[p].content_id@),
        forall|t: int| 0 <= t < i ==> has_book_for(old_books, #[trigger] vols[t]@),
    ensures
        forall|p: int|
            0 <= p < books.len() ==> among_first(vols, i + 1, #[trigger] books[p].content_id@),
        forall|t: int| 0 <= t < i + 1 ==> has_book_for(books, #[trigger] vols[t]@),
{
    assert forall|p: int| 0 <= p < books.len() implies among_first(
        vols,
        i + 1,
        #[trigger] books[p].content_id@,
    ) by {
        if p == pos {
            assert(vols[i]@ == books[p].content_id@);
        } else {
            let op = if p < pos {
                p
            } else {
                p - 1
            };
            assert(books[p] == old_books[op]);
            assert(among_first(vols, i, old_books[op].content_id@));
            let t = choose|t: int| 0 <= t < i && vols[t]@ == old_books[op].content_id@;
            assert(vols[t]@ == books[p].content_id@);
        }
    }
    assert forall|t: int| 0 <= t < i + 1 implies has_book_for(books, #[trigger] vols[t]@) by {
        if t == i {
            assert(books[pos].content_id@ == vols[t]@);
        } else {
            assert(has_book_for(old_books, vols[t]@));
            let p = choose|p: int| 0 <= p < old_books.len() && old_books[p].content_id@ == vols[t]@;
            if p < pos {
                assert(books[p] == old_books[p]);
            } else {
                assert(books[p + 1] == old_books[p]);
            }
        }
    }
}

proof fn lemma_insert_distinct(
    old_books: Seq<Book>,
    books: Seq<Book>,
    pos: int,
    vols: Seq<String>,
    i: int,
)
    requires
        0 <= i < vols.len(),
        inserted_at(old_books, books, pos, books[pos]),
        books[pos].content_id@ == vols[i]@,
        forall|a: int, c: int| 0 <= a < c < vols.len() ==> vols[a]@ != vols[c]@,
        forall|p: int, q: int|
            0 <= p < q < old_books.len() ==> old_books[p].content_id@ != old_books[q].content_id@,
        forall|p: int|
            0 <= p < old_books.len() ==> among_first(vols, i, #[trigger] old_books[p].content_id@),
    ensures
        forall|p: int, q: int|
            0 <= p < q < books.len() ==> books[p].content_id@ != books[q].content_id@,
{
    assert forall|p: int, q: int| 0 <= p < q < books.len() implies books[p].content_id@
        != books[q].content_id@ by {
        if p != pos && q != pos {
            let op = if p < pos {
                p
            } else {
                p - 1
            };
            let oq = if q < pos {
                q
            } else {
                q - 1
            };
            assert(books[p] == old_books[op]);
            assert(books[q] == old_books[oq]);
        } else {
            let other = if p == pos {
                q
            } else {
                p
            };
            let o = if other < pos {
                other
            } else {
                other - 1
            };
            assert(books[other] == old_books[o]);
            assert(among_first(vols, i, old_books[o].content_id@));
            let t = choose|t: int| 0 <= t < i && vols[t]@ == old_books[o].content_id@;
            assert(vols[t]@ != vols[i]@);
        }
    }
}

/// Books with their highlights, reconstructed from the bookmark and content tables and sorted
/// by title.
pub fn extract_books(rows: &Vec<BookmarkRow>, contents: &Vec<ContentRow>) -> (books: Vec<Book>)
    ensures
        is_extraction_of(books@, rows@, contents@),
{
    let vols = distinct_volumes(rows);
    let mut books: Vec<Book> = Vec::new();
    let mut i: usize = 0;
    while i < vols.len()
        invariant
            i <= vols@.len(),
            books@.len() == i,
            forall|a: int, c: int| 0 <= a < c < vols@.len() ==> vols@[a]@ != vols@[c]@,
            forall|a: int| 0 <= a < vols@.len() ==> rows_of(rows@, #[trigger] vols@[a]@).len() > 0,
            forall|p: int|
                0 <= p < books@.len() ==> describes_volume(#[trigger] books@[p], rows@, contents@),
            forall|p: int, q: int|
                0 <= p < q < books@.len() ==> books@[p].content_id@ != books@[q].content_id@,
            forall|p: int|
                0 <= p < books@.len() ==> among_first(
                    vols@,
                    i as int,
                    #[trigger] books@[p].content_id@,
                ),
            forall|t: int| 0 <= t < i ==> has_book_for(books@, #[trigger] vols@[t]@),
            sorted_by_title(books@),
        decreases vols.len() - i,
    {
        let b = build_book(rows, contents, &vols[i]);
        let ghost old_books = books@;
        let pos = insert_by_title(&mut books, b);
        proof {
            assert(inserted_at(old_books, books@, pos as int, books@[pos as int]));
            lemma_insert_describes(old_books, books@, pos as int, rows@, contents@);
            lemma_insert_membership(old_books, books@, pos as int, vols@, i as int);
            lemma_insert_distinct(old_books, books@, pos as int, vols@, i as int);
        }
        i += 1;
    }
    proof {
        assert forall|k: int|
            0 <= k < rows@.len() && has_text(#[trigger] rows@[k]) implies has_book_for(
            books@,
            rows@[k].volume_id@,
        ) by {
            let t = choose|t: int| 0 <= t < vols@.len() && vols@[t]@ == rows@[k].volume_id@;
            assert(has_book_for(books@, vols@[t]@));
        }
    }
    books
}


proof fn lemma_rows_of_members(rows: Seq<BookmarkRow>, vol: Seq<char>)
    ensures
        forall|i: int|
            0 <= i < rows_of(rows, vol).len() ==> has_text(#[trigger] rows_of(rows, vol)[i])
                && rows_of(rows, vol)[i].volume_id@ == vol && rows.contains(rows_of(rows, vol)[i]),
    decreases rows.len(),
{
    if rows.len() > 0 {
        lemma_rows_of_members(rows.drop_last(), vol);
        let g = rows_of(rows, vol);
        assert forall|i: int| 0 <= i < g.len() implies has_text(#[trigger] g[i])
            && g[i].volume_id@ == vol && rows.contains(g[i]) by {
            let prev = rows_of(rows.drop_last(), vol);
            if i < prev.len() {
                assert(g[i] == prev[i]);
                let k = choose|k: int| 0 <= k < rows.drop_last().len() && rows.drop_last()[k] == prev[i];
                assert(rows[k] == g[i]);
            } else {
                assert(g[i] == rows.last());
                assert(rows[rows.len() - 1] == g[i]);
            }
        }
    }
}

proof fn lemma_rows_of_complete(rows: Seq<BookmarkRow>, vol: Seq<char>, k: int)
    requires
        0 <= k < rows.len(),
        has_text(rows[k]),
        rows[k].volume_id@ == vol,
    ensures
        rows_of(rows, vol).contains(rows[k]),
    decreases rows.len(),
{
    let g = rows_of(rows, vol);
    if k == rows.len() - 1 {
        assert(g[g.len() - 1] == rows[k]);
    } else {
        lemma_rows_of_complete(rows.drop_last(), vol, k);
        let prev = rows_of(rows.drop_last(), vol);
        let i = choose|i: int| 0 <= i < prev.len() && prev[i] == rows.drop_last()[k];
        if has_text(rows.last()) && rows.last().volume_id@ == vol {
            assert(g[i] == prev[i]);
        }
    }
}

proof fn lemma_first_present_some(
    g: Seq<BookmarkRow>,
    f: spec_fn(BookmarkRow) -> Option<String>,
    i: int,
)
    requires
        0 <= i < g.len(),
        f(g[i]) is Some,
    ensures
        first_present(g, f) is Some,
    decreases g.len(),
{
    if i < g.len() - 1 {
        lemma_first_present_some(g.drop_last(), f, i);
    }
}

/// `h` is the highlight of some bookmark of `rows` that has non-empty text.
pub open spec fn from_row_with_text(
    h: Highlight,
    rows: Seq<BookmarkRow>,
    contents: Seq<ContentRow>,
) -> bool {
    exists|k: int| 0 <= k < rows.len() && has_text(rows[k]) && highlight_of(h, rows[k], contents)
}

/// No highlight comes from a bookmark without text: every extracted highlight is the one
/// extracted from some bookmark of the table that has non-empty text.
pub proof fn lemma_highlights_come_from_text(
    books: Seq<Book>,
    rows: Seq<BookmarkRow>,
    contents: Seq<ContentRow>,
)
    requires
        is_extraction_of(books, rows, contents),
    ensures
        forall|p: int, i: int|
            0 <= p < books.len() && 0 <= i < books[p].highlights@.len() ==> from_row_with_text(
                #[trigger] books[p].highlights@[i],
                rows,
                contents,
            ),
{
    assert forall|p: int, i: int|
        0 <= p < books.len() && 0 <= i < books[p].highlights@.len() implies from_row_with_text(
        #[trigger] books[p].highlights@[i],
        rows,
        contents,
    ) by {
        let b = books[p];
        assert(describes_volume(b, rows, contents));
        reveal(describes_volume);
        let g = rows_of(rows, b.content_id@);
        lemma_rows_of_members(rows, b.content_id@);
        assert(highlight_of(b.highlights@[i], g[i], contents));
        assert(rows.contains(g[i]));
        let k = choose|k: int| 0 <= k < rows.len() && rows[k] == g[i];
        assert(has_text(rows[k]));
    }
}

/// The bookmarks of one volume yield exactly one book, and a metadata field that a bookmark
/// of that volume supplies is never left empty on it.
pub proof fn lemma_one_book_per_volume(
    books: Seq<Book>,
    rows: Seq<BookmarkRow>,
    contents: Seq<ContentRow>,
    k: int,
)
    requires
        is_extraction_of(books, rows, contents),
        0 <= k < rows.len(),
        has_text(rows[k]),
    ensures
        exists|p: int| 0 <= p < books.len() && books[p].content_id@ == rows[k].volume_id@,
        forall|p: int, q: int|
            0 <= p < books.len() && 0 <= q < books.len() && books[p].content_id@
                == rows[k].volume_id@ && books[q].content_id@ == rows[k].volume_id@ ==> p == q,
        forall|p: int|
            0 <= p < books.len() && books[p].content_id@ == rows[k].volume_id@ ==> {
                &&& (isbn_of_row(contents)(rows[k]) is Some ==> books[p].isbn is Some)
                &&& (publisher_of_row(contents)(rows[k]) is Some ==> books[p].publisher is Some)
                &&& (language_of_row(contents)(rows[k]) is Some ==> books[p].language is Some)
                &&& (last_read_of_row(contents)(rows[k]) is Some ==> books[p].date_last_read is Some)
            },
{
    assert(has_book_for(books, rows[k].volume_id@));
    assert forall|p: int|
        0 <= p < books.len() && books[p].content_id@ == rows[k].volume_id@ implies {
        &&& (isbn_of_row(contents)(rows[k]) is Some ==> books[p].isbn is Some)
        &&& (publisher_of_row(contents)(rows[k]) is Some ==> books[p].publisher is Some)
        &&& (language_of_row(contents)(rows[k]) is Some ==> books[p].language is Some)
        &&& (last_read_of_row(contents)(rows[k]) is Some ==> books[p].date_last_read is Some)
    } by {
        let vol = rows[k].volume_id@;
        assert(describes_volume(books[p], rows, contents));
        reveal(describes_volume);
        lemma_rows_of_complete(rows, vol, k);
        let g = rows_of(rows, vol);
        let i = choose|i: int| 0 <= i < g.len() && g[i] == rows[k];
        if isbn_of_row(contents)(rows[k]) is Some {
            lemma_first_present_some(g, isbn_of_row(contents), i);
        }
        if publisher_of_row(contents)(rows[k]) is Some {
            lemma_first_present_some(g, publisher_of_row(contents), i);
        }
        if language_of_row(contents)(rows[k]) is Some {
            lemma_first_present_some(g, language_of_row(contents), i);
        }
        if last_read_of_row(contents)(rows[k]) is Some {
            lemma_first_present_some(g, last_read_of_row(contents), i);
        }
    }
}

proof fn lemma_toc_title_found(contents: Seq<ContentRow>, item: Seq<char>, j: int)
    requires
        0 <= j < contents.len(),
        is_toc_entry_for(contents[j], item),
    ensures
        toc_title(contents, item) is Some,
    decreases contents.len(),
{
    if j > 0 && !is_toc_entry_for(contents[0], item) {
        assert(contents.drop_first()[j - 1] == contents[j]);
        lemma_toc_title_found(contents.drop_first(), item, j - 1);
    }
}

proof fn lemma_toc_title_absent(contents: Seq<ContentRow>, item: Seq<char>)
    requires
        forall|j: int| 0 <= j < contents.len() ==> !is_toc_entry_for(#[trigger] contents[j], item),
    ensures
        toc_title(contents, item) is None,
    decreases contents.len(),
{
    if contents.len() > 0 {
        assert forall|j: int| 0 <= j < contents.drop_first().len() implies !is_toc_entry_for(
            #[trigger] contents.drop_first()[j],
            item,
        ) by {
            assert(contents.drop_first()[j] == contents[j + 1]);
        }
        lemma_toc_title_absent(contents.drop_first(), item);
    }
}

/// A titled table-of-contents entry of the item gives the chapter title, whatever the item's
/// own title is.
pub proof fn lemma_toc_entry_wins(contents: Seq<ContentRow>, item: String, j: int)
    requires
        0 <= j < contents.len(),
        is_toc_entry_for(contents[j], item@),
    ensures
        chapter_title(contents, Some(item)) is Some,
        chapter_title(contents, Some(item)) == toc_title(contents, item@),
{
    lemma_toc_title_found(contents, item@, j);
}

proof fn lemma_toc_title_first(contents: Seq<ContentRow>, item: Seq<char>, j: int)
    requires
        0 <= j < contents.len(),
        is_toc_entry_for(contents[j], item),
        forall|t: int| 0 <= t < j ==> !is_toc_entry_for(#[trigger] contents[t], item),
    ensures
        toc_title(contents, item) == contents[j].title,
    decreases j,
{
    if j > 0 {
        assert(!is_toc_entry_for(contents[0], item));
        assert forall|t: int| 0 <= t < j - 1 implies !is_toc_entry_for(
            #[trigger] contents.drop_first()[t],
            item,
        ) by {
            assert(contents.drop_first()[t] == contents[t + 1]);
        }
        assert(contents.drop_first()[j - 1] == contents[j]);
        lemma_toc_title_first(contents.drop_first(), item, j - 1);
    }
}

/// The title of the item's first titled table-of-contents entry (`item-N`) is its chapter
/// title, whatever its page row's title.
pub proof fn lemma_first_toc_entry_gives_title(contents: Seq<ContentRow>, item: String, j: int)
    requires
        0 <= j < contents.len(),
        is_toc_entry_for(contents[j], item@),
        forall|t: int| 0 <= t < j ==> !is_toc_entry_for(#[trigger] contents[t], item@),
    ensures
        chapter_title(contents, Some(item)) == contents[j].title,
{
    lemma_toc_title_first(contents, item@, j);
}

/// Without a table-of-contents entry, an item title that holds a `/` or ends in `.xhtml`
/// gives no chapter title.
pub proof fn lemma_filename_title_dropped(contents: Seq<ContentRow>, item: String)
    requires
        forall|j: int| 0 <= j < contents.len() ==> !is_toc_entry_for(#[trigger] contents[j], item@),
        lookup(contents, item@) matches Some(page) && page.title matches Some(t) && (t@.contains('/')
            || ends_with_ci(t@, ".xhtml"@)),
    ensures
        chapter_title(contents, Some(item)) is None,
{
    lemma_toc_title_absent(contents, item@);
}


/// The bookmarks that have non-empty text, in table order.
pub open spec fn rows_with_text(rows: Seq<BookmarkRow>) -> Seq<BookmarkRow> {
    rows.filter(text_pred())
}

pub open spec fn text_pred() -> spec_fn(BookmarkRow) -> bool {
    |r: BookmarkRow| has_text(r)
}

proof fn lemma_rows_of_ignores_textless(rows: Seq<BookmarkRow>, vol: Seq<char>)
    ensures
        rows_of(rows_with_text(rows), vol) == rows_of(rows, vol),
    decreases rows.len(),
{
    if rows.len() > 0 {
        lemma_rows_of_ignores_textless(rows.drop_last(), vol);
        let f = rows_with_text(rows.drop_last());
        reveal(Seq::filter);
        assert(rows.filter(text_pred()) == if text_pred()(rows.last()) {
            rows.drop_last().filter(text_pred()).push(rows.last())
        } else {
            rows.drop_last().filter(text_pred())
        });
        if has_text(rows.last()) {
            assert(rows_with_text(rows) == f.push(rows.last()));
            assert(f.push(rows.last()).drop_last() =~= f);
        } else {
            assert(rows_with_text(rows) == f);
        }
    }
}

/// Dropping the bookmarks without text before extraction changes nothing: extraction already
/// leaves them out, so filtering them again is idempotent.
pub proof fn lemma_text_filter_idempotent(
    books: Seq<Book>,
    rows: Seq<BookmarkRow>,
    contents: Seq<ContentRow>,
)
    ensures
        is_extraction_of(books, rows, contents) <==> is_extraction_of(
            books,
            rows_with_text(rows),
            contents,
        ),
{
    let f = rows_with_text(rows);
    let pred = text_pred();
    assert forall|b: Book| describes_volume(b, rows, contents) <==> describes_volume(
        b,
        f,
        contents,
    ) by {
        reveal(describes_volume);
        lemma_rows_of_ignores_textless(rows, b.content_id@);
    }
    assert((forall|i: int|
        0 <= i < books.len() ==> describes_volume(#[trigger] books[i], rows, contents)) <==> (
    forall|i: int| 0 <= i < books.len() ==> describes_volume(#[trigger] books[i], f, contents)));
    if forall|k: int|
        0 <= k < rows.len() && has_text(#[trigger] rows[k]) ==> has_book_for(
            books,
            rows[k].volume_id@,
        ) {
        assert forall|k: int| 0 <= k < f.len() && has_text(#[trigger] f[k]) implies has_book_for(
            books,
            f[k].volume_id@,
        ) by {
            assert(f.contains(f[k]));
            rows.lemma_filter_contains_rev(pred, f[k]);
            let j = choose|j: int| 0 <= j < rows.len() && rows[j] == f[k];
            assert(has_text(rows[j]));
        }
    }
    if forall|k: int|
        0 <= k < f.len() && has_text(#[trigger] f[k]) ==> has_book_for(books, f[k].volume_id@) {
        assert forall|k: int|
            0 <= k < rows.len() && has_text(#[trigger] rows[k]) implies has_book_for(
            books,
            rows[k].volume_id@,
        ) by {
            rows.lemma_filter_contains(pred, k);
            let j = choose|j: int| 0 <= j < f.len() && f[j] == rows[k];
            assert(has_text(f[j]));
        }
    }
}

} // verus!
