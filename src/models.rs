//! Books, highlights, devices and export configuration.
use vstd::prelude::*;
use crate::text::push_str;

verus! {

broadcast use vstd::string::group_string_axioms;

/// A book: keyed by the device's volume identifier.
#[derive(Debug, Clone, PartialEq)]
pub struct Book {
    pub content_id: String,
    pub title: String,
    pub author: String,
    pub isbn: Option<String>,
    pub publisher: Option<String>,
    pub language: Option<String>,
    pub date_last_read: Option<String>,
    pub description: Option<String>,
    /// Path of the ebook file relative to the device root, when the volume is an on-device file.
    pub file_path: Option<String>,
    pub cover_path: Option<String>,
    pub highlights: Vec<Highlight>,
}

impl Book {
    pub fn new(content_id: String, title: String, author: String) -> (r: Book)
        ensures
            r.content_id == content_id,
            r.title == title,
            r.author == author,
            r.isbn is None,
            r.publisher is None,
            r.language is None,
            r.date_last_read is None,
            r.description is None,
            r.file_path is None,
            r.cover_path is None,
            r.highlights@.len() == 0,
    {
        Book {
            content_id,
            title,
            author,
            isbn: None,
            publisher: None,
            language: None,
            date_last_read: None,
            description: None,
            file_path: None,
            cover_path: None,
            highlights: Vec::new(),
        }
    }

    pub fn highlight_count(&self) -> (r: usize)
        ensures
            r == self.highlights@.len(),
    {
        self.highlights.len()
    }

    pub fn add_highlight(&mut self, highlight: Highlight)
        ensures
            final(self).highlights@ == old(self).highlights@.push(highlight),
            final(self).content_id == old(self).content_id,
            final(self).title == old(self).title,
            final(self).author == old(self).author,
            final(self).isbn == old(self).isbn,
            final(self).publisher == old(self).publisher,
            final(self).language == old(self).language,
            final(self).date_last_read == old(self).date_last_read,
            final(self).description == old(self).description,
            final(self).file_path == old(self).file_path,
            final(self).cover_path == old(self).cover_path,
    {
        self.highlights.push(highlight);
    }
}

/// One highlighted passage.
#[derive(Debug, Clone, PartialEq)]
pub struct Highlight {
    pub id: String,
    pub text: String,
    pub annotation: Option<String>,
    pub personal_note: Option<String>,
    pub chapter_title: Option<String>,
    /// Progress through the chapter, as the IEEE-754 bit pattern of a value expected in 0.0..=1.0.
    pub chapter_progress_bits: Option<u64>,
    pub container_path: Option<String>,
    pub date_created: String,
    pub color: Option<String>,
    pub is_excluded: bool,
    pub edited_text: Option<String>,
}

impl Highlight {
    pub fn new(id: String, text: String, date_created: String) -> (r: Highlight)
        ensures
            r.id == id,
            r.text == text,
            r.date_created == date_created,
            r.annotation is None,
            r.personal_note is None,
            r.chapter_title is None,
            r.chapter_progress_bits is None,
            r.container_path is None,
            r.color is None,
            !r.is_excluded,
            r.edited_text is None,
    {
        Highlight {
            id,
            text,
            date_created,
            annotation: None,
            personal_note: None,
            chapter_title: None,
            chapter_progress_bits: None,
            container_path: None,
            color: None,
            is_excluded: false,
            edited_text: None,
        }
    }

    /// The edited text when there is one, else the original text.
    pub fn display_text(&self) -> (r: &str)
        ensures
            r@ == (match self.edited_text {
                Some(t) => t@,
                None => self.text@,
            }),
    {
        match &self.edited_text {
            Some(t) => t.as_str(),
            None => self.text.as_str(),
        }
    }
}

/// A mounted reading device.
#[derive(Debug, Clone, PartialEq)]
pub struct KoboDevice {
    pub name: String,
    pub path: String,
    pub is_valid: bool,
    pub serial_number: Option<String>,
}

/// Where and how books are exported.
#[derive(Debug, Clone, PartialEq)]
pub struct ExportConfig {
    pub export_path: String,
    pub metadata: MetadataConfig,
    pub date_format: DateFormat,
}

/// Which metadata fields an export shows.
#[derive(Debug, Clone, Copy, PartialEq, Eq, Structural)]
pub struct MetadataConfig {
    pub author: bool,
    pub isbn: bool,
    pub publisher: bool,
    pub date_last_read: bool,
    pub language: bool,
    pub description: bool,
}

#[derive(Debug, Clone, Copy, PartialEq, Eq, Structural)]
pub enum DateFormat {
    DdMmYyyy,
    DdMonthYyyy,
    Iso8601,
}

/// Default export directory under a home directory.
pub open spec fn default_export_path(home: Seq<char>) -> Seq<char> {
    home + "/Documents/Kobo Highlights"@
}

impl ExportConfig {
    /// Default configuration for a user whose home directory is `home`.
    pub fn for_home(home: &str) -> (r: ExportConfig)
        ensures
            r.export_path@ == default_export_path(home@),
            r.metadata == MetadataConfig::default_spec(),
            r.date_format == DateFormat::DdMonthYyyy,
    {
        let mut export_path = home.to_string();
        push_str(&mut export_path, "/Documents/Kobo Highlights");
        ExportConfig {
            export_path,
            metadata: MetadataConfig::default(),
            date_format: DateFormat::DdMonthYyyy,
        }
    }
}

impl Default for ExportConfig {
    /// Default configuration relative to the current directory.
    fn default() -> (r: ExportConfig)
        ensures
            r.export_path@ == default_export_path("."@),
            r.metadata == MetadataConfig::default_spec(),
            r.date_format == DateFormat::DdMonthYyyy,
    {
        ExportConfig::for_home(".")
    }
}

impl MetadataConfig {
    pub open spec fn default_spec() -> MetadataConfig {
        MetadataConfig {
            author: true,
            isbn: true,
            publisher: true,
            date_last_read: true,
            language: true,
            description: false,
        }
    }
}

impl Default for MetadataConfig {
    fn default() -> (r: MetadataConfig)
        ensures
            r == MetadataConfig::default_spec(),
    {
        MetadataConfig {
            author: true,
            isbn: true,
            publisher: true,
            date_last_read: true,
            language: true,
            description: false,
        }
    }
}

} // verus!
