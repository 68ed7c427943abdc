//! Markdown rendering of books, export file names and date formatting.
use vstd::prelude::*;
use chrono::Datelike;
use crate::models::{Book, DateFormat, ExportConfig, Highlight};
use crate::extraction::clone_opt;
use crate::covers::views;
use crate::text::{chars_of, decimal, decimal_chars, push_char, push_chars, push_str, string_of};

verus! {

broadcast use vstd::string::group_string_axioms;

/// Year, month and day of a date written `YYYY-MM-DD`, as the calendar parser reads it.
pub uninterp spec fn parsed_ymd(s: Seq<char>) -> Option<(int, int, int)>;

/// Relies on `chrono::NaiveDate::parse_from_str` with `%Y-%m-%d`: a valid calendar date
/// (month 1 to 12, day 1 to 31) or nothing.
#[verifier::external_body]
fn parse_iso_date(s: &str) -> (r: Option<(i32, u32, u32)>)
    ensures
        r matches Some((y, m, d)) ==> parsed_ymd(s@) == Some((y as int, m as int, d as int)) && 1
            <= m <= 12 && 1 <= d <= 31,
        r is None ==> parsed_ymd(s@) is None,
{
    chrono::NaiveDate::parse_from_str(s, "%Y-%m-%d").ok().map(|d| (d.year(), d.month(), d.day()))
}

/// `digits` preceded by zeros up to `width` characters.
pub open spec fn zero_pad(digits: Seq<char>, width: nat) -> Seq<char> {
    if digits.len() >= width {
        digits
    } else {
        Seq::new((width - digits.len()) as nat, |i: int| '0') + digits
    }
}

/// Decimal notation with a leading `-` for negative numbers.
pub open spec fn signed_decimal(n: int) -> Seq<char> {
    if n >= 0 {
        decimal(n as nat)
    } else {
        seq!['-'] + decimal((-n) as nat)
    }
}

/// A year as the calendar formatter writes `%Y`: four digits within 0 to 9999, else signed.
pub open spec fn year_text(y: int) -> Seq<char> {
    if 0 <= y <= 9999 {
        zero_pad(decimal(y as nat), 4)
    } else if y > 9999 {
        seq!['+'] + zero_pad(decimal(y as nat), 4)
    } else {
        seq!['-'] + zero_pad(decimal((-y) as nat), 4)
    }
}

pub open spec fn two_digits(n: int) -> Seq<char> {
    zero_pad(decimal(n as nat), 2)
}

/// Portuguese month names.
pub open spec fn month_name(m: int) -> Seq<char> {
    if m == 1 {
        "Janeiro"@
    } else if m == 2 {
        "Fevereiro"@
    } else if m == 3 {
        "Março"@
    } else if m == 4 {
        "Abril"@
    } else if m == 5 {
        "Maio"@
    } else if m == 6 {
        "Junho"@
    } else if m == 7 {
        "Julho"@
    } else if m == 8 {
        "Agosto"@
    } else if m == 9 {
        "Setembro"@
    } else if m == 10 {
        "Outubro"@
    } else if m == 11 {
        "Novembro"@
    } else {
        "Dezembro"@
    }
}

/// A `YYYY-MM-DD` date in the chosen format; any other text unchanged.
pub open spec fn formatted_date(s: Seq<char>, format: DateFormat) -> Seq<char> {
    match parsed_ymd(s) {
        None => s,
        Some((y, m, d)) => match format {
            DateFormat::DdMmYyyy => two_digits(d) + "/"@ + two_digits(m) + "/"@ + year_text(y),
            DateFormat::DdMonthYyyy => two_digits(d) + " "@ + month_name(m) + " "@
                + signed_decimal(y),
            DateFormat::Iso8601 => year_text(y) + "-"@ + two_digits(m) + "-"@ + two_digits(d),
        },
    }
}

fn zero_pad_exec(digits: Vec<char>, width: usize) -> (r: Vec<char>)
    ensures
        r@ == zero_pad(digits@, width as nat),
{
    if digits.len() >= width {
        return digits;
    }
    let mut r: Vec<char> = Vec::new();
    let n = width - digits.len();
    let mut i: usize = 0;
    while i < n
        invariant
            i <= n,
            r@ == Seq::new(i as nat, |k: int| '0'),
        decreases n - i,
    {
        r.push('0');
        assert(r@ =~= Seq::new((i + 1) as nat, |k: int| '0'));
        i += 1;
    }
    let mut k: usize = 0;
    let ghost zeros = r@;
    while k < digits.len()
        invariant
            k <= digits@.len(),
            r@ == zeros + digits@.take(k as int),
        decreases digits.len() - k,
    {
        r.push(digits[k]);
        assert(digits@.take(k + 1) =~= digits@.take(k as int).push(digits@[k as int]));
        k += 1;
    }
    assert(digits@.take(digits@.len() as int) =~= digits@);
    r
}

fn magnitude(n: i32) -> (r: u64)
    ensures
        r as int == if n >= 0 {
            n as int
        } else {
            -n
        },
{
    if n >= 0 {
        n as u64
    } else {
        (-(n as i64)) as u64
    }
}

fn year_text_exec(y: i32) -> (r: Vec<char>)
    ensures
        r@ == year_text(y as int),
{
    let digits = zero_pad_exec(decimal_chars(magnitude(y)), 4);
    if 0 <= y && y <= 9999 {
        digits
    } else {
        let mut r: Vec<char> = Vec::new();
        r.push(if y > 9999 {
            '+'
        } else {
            '-'
        });
        let mut k: usize = 0;
        while k < digits.len()
            invariant
                k <= digits@.len(),
                r@ == seq![if y > 9999 {
                    '+'
                } else {
                    '-'
                }] + digits@.take(k as int),
            decreases digits.len() - k,
        {
            r.push(digits[k]);
            assert(digits@.take(k + 1) =~= digits@.take(k as int).push(digits@[k as int]));
            k += 1;
        }
        assert(digits@.take(digits@.len() as int) =~= digits@);
        r
    }
}

fn signed_decimal_exec(n: i32) -> (r: Vec<char>)
    ensures
        r@ == signed_decimal(n as int),
{
    let digits = decimal_chars(magnitude(n));
    if n >= 0 {
        digits
    } else {
        let mut r: Vec<char> = vec!['-'];
        let mut k: usize = 0;
        while k < digits.len()
            invariant
                k <= digits@.len(),
                r@ == seq!['-'] + digits@.take(k as int),
            decreases digits.len() - k,
        {
            r.push(digits[k]);
            assert(digits@.take(k + 1) =~= digits@.take(k as int).push(digits@[k as int]));
            k += 1;
        }
        assert(digits@.take(digits@.len() as int) =~= digits@);
        r
    }
}

fn month_name_exec(m: u32) -> (r: String)
    ensures
        r@ == month_name(m as int),
{
    if m == 1 {
        "Janeiro".to_string()
    } else if m == 2 {
        "Fevereiro".to_string()
    } else if m == 3 {
        "Março".to_string()
    } else if m == 4 {
        "Abril".to_string()
    } else if m == 5 {
        "Maio".to_string()
    } else if m == 6 {
        "Junho".to_string()
    } else if m == 7 {
        "Julho".to_string()
    } else if m == 8 {
        "Agosto".to_string()
    } else if m == 9 {
        "Setembro".to_string()
    } else if m == 10 {
        "Outubro".to_string()
    } else if m == 11 {
        "Novembro".to_string()
    } else {
        "Dezembro".to_string()
    }
}

/// A `YYYY-MM-DD` date in the chosen format; any other text is returned unchanged.
pub fn format_date(date: &str, format: &DateFormat) -> (r: String)
    ensures
        r@ == formatted_date(date@, *format),
{
    match parse_iso_date(date) {
        None => date.to_string(),
        Some((y, m, d)) => {
            let dd = zero_pad_exec(decimal_chars(d as u64), 2);
            let mm = zero_pad_exec(decimal_chars(m as u64), 2);
            let mut r = String::new();
            match format {
                DateFormat::DdMmYyyy => {
                    push_chars(&mut r, &dd);
                    push_char(&mut r, '/');
                    push_chars(&mut r, &mm);
                    push_char(&mut r, '/');
                    push_chars(&mut r, &year_text_exec(y));
                    proof {
                        reveal_strlit("/");
                    }
                    assert(r@ =~= two_digits(d as int) + "/"@ + two_digits(m as int) + "/"@
                        + year_text(y as int));
                },
                DateFormat::DdMonthYyyy => {
                    push_chars(&mut r, &dd);
                    push_char(&mut r, ' ');
                    push_str(&mut r, month_name_exec(m).as_str());
                    push_char(&mut r, ' ');
                    push_chars(&mut r, &signed_decimal_exec(y));
                    proof {
                        reveal_strlit(" ");
                    }
                    assert(r@ =~= two_digits(d as int) + " "@ + month_name(m as int) + " "@
                        + signed_decimal(y as int));
                },
                DateFormat::Iso8601 => {
                    push_chars(&mut r, &year_text_exec(y));
                    push_char(&mut r, '-');
                    push_chars(&mut r, &mm);
                    push_char(&mut r, '-');
                    push_chars(&mut r, &dd);
                    proof {
                        reveal_strlit("-");
                    }
                    assert(r@ =~= year_text(y as int) + "-"@ + two_digits(m as int) + "-"@
                        + two_digits(d as int));
                },
            }
            r
        },
    }
}


/// Unicode `White_Space` characters.
pub open spec fn is_white_space(c: char) -> bool {
    ||| ('\u{9}' <= c && c <= '\u{d}')
    ||| c == ' '
    ||| c == '\u{85}'
    ||| c == '\u{a0}'
    ||| c == '\u{1680}'
    ||| ('\u{2000}' <= c && c <= '\u{200a}')
    ||| c == '\u{2028}'
    ||| c == '\u{2029}'
    ||| c == '\u{202f}'
    ||| c == '\u{205f}'
    ||| c == '\u{3000}'
}

pub open spec fn is_ascii_control(c: char) -> bool {
    c <= '\u{1f}' || c == '\u{7f}'
}

pub open spec fn trim_start(s: Seq<char>) -> Seq<char>
    decreases s.len(),
{
    if s.len() > 0 && is_white_space(s[0]) {
        trim_start(s.drop_first())
    } else {
        s
    }
}

pub open spec fn trim_end(s: Seq<char>) -> Seq<char>
    decreases s.len(),
{
    if s.len() > 0 && is_white_space(s.last()) {
        trim_end(s.drop_last())
    } else {
        s
    }
}

/// `s` without leading and trailing white space.
pub open spec fn trim(s: Seq<char>) -> Seq<char> {
    trim_end(trim_start(s))
}

/// What one character becomes in a file name.
pub open spec fn file_name_char(c: char) -> Seq<char> {
    if c == ':' {
        seq![' ', '-']
    } else if c == '/' || c == '\\' || c == '?' || c == '*' || c == '|' || c == '"' || c == '<'
        || c == '>' {
        seq!['-']
    } else if is_ascii_control(c) {
        Seq::empty()
    } else {
        seq![c]
    }
}

pub open spec fn file_name_chars(s: Seq<char>) -> Seq<char>
    decreases s.len(),
{
    if s.len() == 0 {
        Seq::empty()
    } else {
        file_name_chars(s.drop_last()) + file_name_char(s.last())
    }
}

/// A name made safe for a file: trimmed, `:` written ` -`, path and shell characters written
/// `-`, control characters dropped; `Untitled` when nothing but white space is left.
pub open spec fn sanitized(name: Seq<char>) -> Seq<char> {
    if trim(name).len() == 0 {
        "Untitled"@
    } else {
        file_name_chars(trim(name))
    }
}

fn is_white_space_exec(c: char) -> (r: bool)
    ensures
        r == is_white_space(c),
{
    ('\u{9}' <= c && c <= '\u{d}') || c == ' ' || c == '\u{85}' || c == '\u{a0}' || c
        == '\u{1680}' || ('\u{2000}' <= c && c <= '\u{200a}') || c == '\u{2028}' || c
        == '\u{2029}' || c == '\u{202f}' || c == '\u{205f}' || c == '\u{3000}'
}

/// `s` without leading and trailing white space.
pub fn trim_chars(s: &Vec<char>) -> (r: Vec<char>)
    ensures
        r@ == trim(s@),
{
    let mut i: usize = 0;
    assert(s@.skip(0) =~= s@);
    while i < s.len() && is_white_space_exec(s[i])
        invariant
            i <= s@.len(),
            trim_start(s@) == trim_start(s@.skip(i as int)),
        decreases s.len() - i,
    {
        assert(s@.skip(i as int).drop_first() =~= s@.skip(i + 1));
        i += 1;
    }
    let mut j: usize = s.len();
    assert(s@.subrange(i as int, s@.len() as int) =~= s@.skip(i as int));
    while j > i && is_white_space_exec(s[j - 1])
        invariant
            i <= j <= s@.len(),
            trim_start(s@) == s@.skip(i as int),
            trim_end(s@.skip(i as int)) == trim_end(s@.subrange(i as int, j as int)),
        decreases j,
    {
        assert(s@.subrange(i as int, j as int).drop_last() =~= s@.subrange(i as int, j - 1));
        j -= 1;
    }
    crate::text::sub_chars(s, i, j)
}

/// `name` made safe for use as a file name.
pub fn sanitize_filename(name: &str) -> (r: String)
    ensures
        r@ == sanitized(name@),
{
    let t = trim_chars(&chars_of(name));
    if t.len() == 0 {
        return "Untitled".to_string();
    }
    let mut out: Vec<char> = Vec::new();
    let mut k: usize = 0;
    while k < t.len()
        invariant
            k <= t@.len(),
            out@ == file_name_chars(t@.take(k as int)),
        decreases t.len() - k,
    {
        let c = t[k];
        assert(t@.take(k + 1).drop_last() =~= t@.take(k as int));
        if c == ':' {
            out.push(' ');
            out.push('-');
        } else if c == '/' || c == '\\' || c == '?' || c == '*' || c == '|' || c == '"' || c
            == '<' || c == '>' {
            out.push('-');
        } else if c <= '\u{1f}' || c == '\u{7f}' {
        } else {
            out.push(c);
        }
        assert(out@ =~= file_name_chars(t@.take(k + 1)));
        k += 1;
    }
    assert(t@.take(t@.len() as int) =~= t@);
    string_of(&out)
}

/// File name of a book's export: `{title} - {author}.md`, both sanitized.
pub fn generate_filename(book: &Book) -> (r: String)
    ensures
        r@ == sanitized(book.title@) + " - "@ + sanitized(book.author@) + ".md"@,
{
    let mut r = sanitize_filename(book.title.as_str());
    push_str(&mut r, " - ");
    push_str(&mut r, sanitize_filename(book.author.as_str()).as_str());
    push_str(&mut r, ".md");
    r
}

/// `lines` joined with line feeds.
pub open spec fn join_lines(lines: Seq<Seq<char>>) -> Seq<char>
    decreases lines.len(),
{
    if lines.len() == 0 {
        Seq::empty()
    } else if lines.len() == 1 {
        lines[0]
    } else {
        join_lines(lines.drop_last()) + seq!['\n'] + lines.last()
    }
}

/// `lines` joined with line feeds.
pub fn join_lines_exec(lines: &Vec<String>) -> (r: String)
    ensures
        r@ == join_lines(views(lines@)),
{
    let mut r = String::new();
    let mut k: usize = 0;
    while k < lines.len()
        invariant
            k <= lines@.len(),
            r@ == join_lines(views(lines@.take(k as int))),
        decreases lines.len() - k,
    {
        assert(views(lines@.take(k + 1)).drop_last() =~= views(lines@.take(k as int)));
        if k > 0 {
            push_char(&mut r, '\n');
        } else {
            assert(views(lines@.take(0)) =~= Seq::<Seq<char>>::empty());
        }
        push_str(&mut r, lines[k].as_str());
        k += 1;
    }
    assert(lines@.take(lines@.len() as int) =~= lines@);
    r
}

/// A progress percentage written `{n}%`.
pub open spec fn percent_text(p: int) -> Seq<char> {
    signed_decimal(p) + "%"@
}

/// Where a highlight lies: its chapter title and progress percentage, joined by ` · `.
pub open spec fn location_text(chapter: Option<String>, percent: Option<i32>) -> Seq<char> {
    match (chapter, percent) {
        (Some(c), Some(p)) => c@ + " · "@ + percent_text(p as int),
        (Some(c), None) => c@,
        (None, Some(p)) => percent_text(p as int),
        (None, None) => Seq::empty(),
    }
}

/// Markdown of one highlight: the text as a quote, then its location when it has one.
pub open spec fn highlight_markdown(h: Highlight, percent: Option<i32>) -> Seq<char> {
    if h.chapter_title is None && percent is None {
        "> "@ + h.text@
    } else {
        "> "@ + h.text@ + "\n\n"@ + location_text(h.chapter_title, percent) + "\n"@
    }
}

/// `label` and the value, as one line, when enabled and present.
pub open spec fn field_line(label: Seq<char>, value: Option<String>, enabled: bool) -> Seq<Seq<char>> {
    match value {
        Some(v) => if enabled {
            seq![label + v@]
        } else {
            Seq::empty()
        },
        None => Seq::empty(),
    }
}

/// Metadata lines of a book's export, in this order, each when enabled and present.
pub open spec fn metadata_lines(b: Book, c: ExportConfig) -> Seq<Seq<char>> {
    let author = if c.metadata.author && b.author@.len() > 0 {
        seq!["**Autor**: "@ + b.author@]
    } else {
        Seq::empty()
    };
    let read = match b.date_last_read {
        Some(v) => if c.metadata.date_last_read {
            seq!["**Data de Leitura**: "@ + formatted_date(v@, c.date_format)]
        } else {
            Seq::empty()
        },
        None => Seq::empty(),
    };
    let description = match b.description {
        Some(v) => if c.metadata.description {
            seq![Seq::empty(), v@]
        } else {
            Seq::empty()
        },
        None => Seq::empty(),
    };
    author + field_line("**ISBN**: "@, b.isbn, c.metadata.isbn) + field_line(
        "**Publisher**: "@,
        b.publisher,
        c.metadata.publisher,
    ) + read + field_line("**Idioma**: "@, b.language, c.metadata.language) + description
}

/// Lines of a book's export before its highlights.
pub open spec fn header_lines(b: Book, c: ExportConfig) -> Seq<Seq<char>> {
    let head = seq!["# "@ + b.title@, Seq::empty()];
    if metadata_lines(b, c).len() > 0 {
        head + metadata_lines(b, c) + seq![Seq::empty()]
    } else {
        head
    }
}

/// Markdown of a book: title, enabled metadata, then its highlights after a rule.
pub open spec fn book_markdown(b: Book, c: ExportConfig, percents: Seq<Option<i32>>) -> Seq<char> {
    if b.highlights@.len() == 0 {
        join_lines(header_lines(b, c))
    } else {
        join_lines(
            header_lines(b, c) + seq!["---"@, Seq::empty()] + Seq::new(
                b.highlights@.len(),
                |i: int| highlight_markdown(b.highlights@[i], percents[i]),
            ),
        )
    }
}


/// Where a highlight lies: its chapter title and progress percentage, joined by ` · `.
pub fn location_text_exec(chapter: &Option<String>, percent: Option<i32>) -> (r: String)
    ensures
        r@ == location_text(*chapter, percent),
{
    let mut r = String::new();
    match chapter {
        Some(c) => push_str(&mut r, c.as_str()),
        None => {},
    }
    match percent {
        Some(p) => {
            if chapter.is_some() {
                push_str(&mut r, " · ");
            }
            push_chars(&mut r, &signed_decimal_exec(p));
            push_str(&mut r, "%");
        },
        None => {},
    }
    proof {
        let ghost ch = *chapter;
        match (ch, percent) {
            (Some(c), Some(p)) => {
                assert(r@ =~= c@ + " · "@ + percent_text(p as int));
            },
            (None, Some(p)) => {
                assert(r@ =~= percent_text(p as int));
            },
            (Some(c), None) => {
                assert(r@ =~= c@);
            },
            (None, None) => {},
        }
    }
    r
}

/// Markdown of one highlight; `percent` is its chapter progress in whole percent, if known.
pub fn generate_highlight_markdown(h: &Highlight, percent: Option<i32>) -> (r: String)
    ensures
        r@ == highlight_markdown(*h, percent),
{
    let mut r = "> ".to_string();
    push_str(&mut r, h.text.as_str());
    if h.chapter_title.is_some() || percent.is_some() {
        push_str(&mut r, "\n\n");
        push_str(&mut r, location_text_exec(&h.chapter_title, percent).as_str());
        push_str(&mut r, "\n");
    }
    r
}

fn labelled(label: &str, value: &str) -> (r: String)
    ensures
        r@ == label@ + value@,
{
    let mut r = label.to_string();
    push_str(&mut r, value);
    r
}

proof fn lemma_views_push(s: Seq<String>, x: String)
    ensures
        views(s.push(x)) == views(s).push(x@),
{
    assert(views(s.push(x)) =~= views(s).push(x@));
}

/// Appends the lines of `src` to `dst`.
pub fn append_lines(dst: &mut Vec<String>, src: &Vec<String>)
    ensures
        views(final(dst)@) == views(old(dst)@) + views(src@),
{
    let mut k: usize = 0;
    while k < src.len()
        invariant
            k <= src@.len(),
            views(dst@) == views(old(dst)@) + views(src@).take(k as int),
        decreases src.len() - k,
    {
        proof {
            lemma_views_push(dst@, src@[k as int]);
        }
        dst.push(src[k].clone());
        assert(views(src@).take(k + 1) =~= views(src@).take(k as int).push(src@[k as int]@));
        k += 1;
    }
    assert(views(src@).take(src@.len() as int) =~= views(src@));
}

fn field_line_exec(label: &str, value: &Option<String>, enabled: bool) -> (r: Vec<String>)
    ensures
        views(r@) == field_line(label@, *value, enabled),
{
    let mut r: Vec<String> = Vec::new();
    match value {
        Some(v) => if enabled {
            r.push(labelled(label, v.as_str()));
        },
        None => {},
    }
    assert(views(r@) =~= field_line(label@, *value, enabled));
    r
}

/// Metadata lines of a book's export.
pub fn metadata_lines_exec(book: &Book, config: &ExportConfig) -> (r: Vec<String>)
    ensures
        views(r@) == metadata_lines(*book, *config),
{
    let mut r: Vec<String> = Vec::new();
    if config.metadata.author && !book.author.as_str().is_empty() {
        r.push(labelled("**Autor**: ", book.author.as_str()));
    }
    let ghost s1 = views(r@);
    append_lines(&mut r, &field_line_exec("**ISBN**: ", &book.isbn, config.metadata.isbn));
    append_lines(
        &mut r,
        &field_line_exec("**Publisher**: ", &book.publisher, config.metadata.publisher),
    );
    let ghost s3 = views(r@);
    let mut read: Vec<String> = Vec::new();
    match &book.date_last_read {
        Some(v) => if config.metadata.date_last_read {
            let d = format_date(v.as_str(), &config.date_format);
            read.push(labelled("**Data de Leitura**: ", d.as_str()));
        },
        None => {},
    }
    append_lines(&mut r, &read);
    let ghost s4 = views(r@);
    append_lines(&mut r, &field_line_exec("**Idioma**: ", &book.language, config.metadata.language));
    let ghost s5 = views(r@);
    let mut description: Vec<String> = Vec::new();
    match &book.description {
        Some(v) => if config.metadata.description {
            description.push(String::new());
            description.push(v.clone());
        },
        None => {},
    }
    append_lines(&mut r, &description);
    proof {
        let b = *book;
        let c = *config;
        assert(s1 =~= (if c.metadata.author && b.author@.len() > 0 {
            seq!["**Autor**: "@ + b.author@]
        } else {
            Seq::empty()
        }));
        assert(views(read@) =~= match b.date_last_read {
            Some(v) => if c.metadata.date_last_read {
                seq!["**Data de Leitura**: "@ + formatted_date(v@, c.date_format)]
            } else {
                Seq::empty()
            },
            None => Seq::empty(),
        });
        assert(views(description@) =~= match b.description {
            Some(v) => if c.metadata.description {
                seq![Seq::empty(), v@]
            } else {
                Seq::empty()
            },
            None => Seq::empty(),
        });
        assert(views(r@) =~= metadata_lines(b, c));
    }
    r
}

/// Writes books as markdown files into one directory.
pub struct MarkdownExporter {
    export_dir: String,
}

impl MarkdownExporter {
    pub closed spec fn dir(&self) -> Seq<char> {
        self.export_dir@
    }

    /// An exporter writing into `export_dir` (which the caller creates).
    pub fn new(export_dir: String) -> (r: MarkdownExporter)
        ensures
            r.dir() == export_dir@,
    {
        MarkdownExporter { export_dir }
    }

    pub fn export_dir(&self) -> (r: &str)
        ensures
            r@ == self.dir(),
    {
        self.export_dir.as_str()
    }

    /// Markdown of a book; `percents[i]` is the chapter progress of highlight `i` in whole
    /// percent, if known.
    pub fn generate_markdown(
        &self,
        book: &Book,
        config: &ExportConfig,
        percents: &Vec<Option<i32>>,
    ) -> (r: String)
        requires
            percents@.len() == book.highlights@.len(),
        ensures
            r@ == book_markdown(*book, *config, percents@),
    {
        let mut lines: Vec<String> = Vec::new();
        lines.push(labelled("# ", book.title.as_str()));
        lines.push(String::new());
        let meta = metadata_lines_exec(book, config);
        append_lines(&mut lines, &meta);
        if meta.len() > 0 {
            let blank = String::new();
            proof {
                lemma_views_push(lines@, blank);
            }
            lines.push(blank);
        }
        assert(views(lines@) =~= header_lines(*book, *config));
        if book.highlights.len() == 0 {
            return join_lines_exec(&lines);
        }
        let mut rest: Vec<String> = Vec::new();
        rest.push("---".to_string());
        rest.push(String::new());
        let ghost start = views(rest@);
        let mut i: usize = 0;
        while i < book.highlights.len()
            invariant
                i <= book.highlights@.len(),
                percents@.len() == book.highlights@.len(),
                views(rest@) == start + Seq::new(
                    i as nat,
                    |j: int| highlight_markdown(book.highlights@[j], percents@[j]),
                ),
            decreases book.highlights.len() - i,
        {
            let md = generate_highlight_markdown(&book.highlights[i], percents[i]);
            proof {
                lemma_views_push(rest@, md);
            }
            rest.push(md);
            assert(views(rest@) =~= start + Seq::new(
                (i + 1) as nat,
                |j: int| highlight_markdown(book.highlights@[j], percents@[j]),
            ));
            i += 1;
        }
        let ghost header = views(lines@);
        append_lines(&mut lines, &rest);
        assert(start =~= seq!["---"@, Seq::<char>::empty()]);
        assert(views(lines@) =~= header_lines(*book, *config) + seq!["---"@, Seq::empty()]
            + Seq::new(
            book.highlights@.len(),
            |j: int| highlight_markdown(book.highlights@[j], percents@[j]),
        ));
        join_lines_exec(&lines)
    }

    /// Structured export of a book; `percents` as for `generate_markdown`.
    pub fn export_book_data(
        &self,
        book: &Book,
        config: &ExportConfig,
        percents: &Vec<Option<i32>>,
    ) -> (r: ExportBookData)
        requires
            percents@.len() == book.highlights@.len(),
        ensures
            r.title == book.title,
            r.author == book.author,
            r.isbn == book.isbn,
            r.publisher == book.publisher,
            r.language == book.language,
            r.description == book.description,
            match book.date_last_read {
                Some(d) => r.read_date matches Some(t) && t@ == formatted_date(
                    d@,
                    config.date_format,
                ),
                None => r.read_date is None,
            },
            r.highlights@.len() == book.highlights@.len(),
            forall|i: int|
                0 <= i < r.highlights@.len() ==> exports_highlight(
                    #[trigger] r.highlights@[i],
                    book.highlights@[i],
                    percents@[i],
                ),
    {
        let mut highlights: Vec<ExportHighlightData> = Vec::new();
        let mut i: usize = 0;
        while i < book.highlights.len()
            invariant
                i <= book.highlights@.len(),
                percents@.len() == book.highlights@.len(),
                highlights@.len() == i,
                forall|j: int|
                    0 <= j < i ==> exports_highlight(
                        #[trigger] highlights@[j],
                        book.highlights@[j],
                        percents@[j],
                    ),
            decreases book.highlights.len() - i,
        {
            let h = &book.highlights[i];
            highlights.push(
                ExportHighlightData {
                    id: h.id.clone(),
                    text: h.text.clone(),
                    chapter: clone_opt(&h.chapter_title),
                    location: location_text_exec(&h.chapter_title, percents[i]),
                    date: h.date_created.clone(),
                    note: None,
                    is_edited: false,
                },
            );
            i += 1;
        }
        let read_date = match &book.date_last_read {
            Some(d) => Some(format_date(d.as_str(), &config.date_format)),
            None => None,
        };
        ExportBookData {
            title: book.title.clone(),
            author: book.author.clone(),
            isbn: clone_opt(&book.isbn),
            publisher: clone_opt(&book.publisher),
            language: clone_opt(&book.language),
            read_date,
            description: clone_opt(&book.description),
            highlights,
        }
    }
}

/// One highlight in structured export form.
#[derive(Debug, Clone, PartialEq)]
pub struct ExportHighlightData {
    pub id: String,
    pub text: String,
    pub chapter: Option<String>,
    pub location: String,
    pub date: String,
    pub note: Option<String>,
    pub is_edited: bool,
}

/// One book in structured export form.
#[derive(Debug, Clone, PartialEq)]
pub struct ExportBookData {
    pub title: String,
    pub author: String,
    pub isbn: Option<String>,
    pub publisher: Option<String>,
    pub language: Option<String>,
    pub read_date: Option<String>,
    pub description: Option<String>,
    pub highlights: Vec<ExportHighlightData>,
}

/// `e` is the structured export of highlight `h`.
pub open spec fn exports_highlight(e: ExportHighlightData, h: Highlight, percent: Option<i32>) -> bool {
    &&& e.id == h.id
    &&& e.text == h.text
    &&& e.chapter == h.chapter_title
    &&& e.location@ == location_text(h.chapter_title, percent)
    &&& e.date == h.date_created
    &&& e.note is None
    &&& !e.is_edited
}

/// Failure of an export.
#[derive(Debug, Clone, PartialEq)]
pub enum ExportError {
    Io(String),
}

} // verus!
