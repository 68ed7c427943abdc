//! Cover resolution: finds the cover image of a zipped ebook package, or a placeholder, and
//! names the cache entry it is stored under.
use vstd::prelude::*;
use vstd::utf8::{decode_utf8, encode_utf8, valid_utf8};
use sha2::Digest;
use std::io::Read;
use crate::text::{
    chars_of, contains_seq, decimal, decimal_chars, ends_with, find, find_from, find_spec, hex_chars,
    hex_of, matches_at_exec, push_char, push_chars, push_str, rfind, rfind_spec, string_of, sub_chars,
};

verus! {

broadcast use vstd::string::group_string_axioms;

#[verifier::external_type_specification]
#[verifier::external_body]
#[verifier::reject_recursive_types(R)]
pub struct ExZipArchive<R>(zip::ZipArchive<R>);

#[verifier::external_type_specification]
#[verifier::external_body]
#[verifier::reject_recursive_types(T)]
pub struct ExCursor<T>(std::io::Cursor<T>);

#[verifier::external_type_specification]
#[verifier::external_body]
pub struct ExZipError(zip::result::ZipError);

/// Names of the archive's entries, in the order of its central directory (each name once).
pub uninterp spec fn archive_names(a: zip::ZipArchive<std::io::Cursor<Vec<u8>>>) -> Seq<Seq<char>>;

/// Contents of the archive's entries that read back without error, by entry name.
pub uninterp spec fn archive_data(a: zip::ZipArchive<std::io::Cursor<Vec<u8>>>) -> Map<
    Seq<char>,
    Seq<u8>,
>;

/// Names of the archive's entries that can be opened (listed, not encrypted, with a local
/// header and a compression method that can be read).
pub uninterp spec fn archive_openable(a: zip::ZipArchive<std::io::Cursor<Vec<u8>>>) -> Set<
    Seq<char>,
>;

/// The bytes are a zip archive whose central directory can be read.
pub uninterp spec fn zip_opens(bytes: Seq<u8>) -> bool;

/// SHA-256 digest of a byte sequence.
pub uninterp spec fn sha256_of(data: Seq<u8>) -> Seq<u8>;

/// Unicode lower-case mapping of a string.
pub uninterp spec fn lower_of(s: Seq<char>) -> Seq<char>;

/// Relies on `zip::ZipArchive::new`: reads the central directory of an in-memory archive.
#[verifier::external_body]
fn open_archive(bytes: Vec<u8>) -> (r: Result<zip::ZipArchive<std::io::Cursor<Vec<u8>>>, zip::result::ZipError>)
    ensures
        r is Ok <==> zip_opens(bytes@),
{
    zip::ZipArchive::new(std::io::Cursor::new(bytes))
}

/// Relies on `zip::ZipArchive::len`: the number of entries.
#[verifier::external_body]
fn archive_len(a: &zip::ZipArchive<std::io::Cursor<Vec<u8>>>) -> (r: usize)
    ensures
        r == archive_names(*a).len(),
{
    a.len()
}

/// Relies on `zip::ZipArchive::by_index`: the entry at an index and its name; reading does
/// not change the archive's entries.
#[verifier::external_body]
fn entry_name_at(a: &mut zip::ZipArchive<std::io::Cursor<Vec<u8>>>, i: usize) -> (r: Result<String, zip::result::ZipError>)
    requires
        i < archive_names(*old(a)).len(),
    ensures
        archive_names(*final(a)) == archive_names(*old(a)),
        archive_data(*final(a)) == archive_data(*old(a)),
        archive_openable(*final(a)) == archive_openable(*old(a)),
        r matches Ok(n) ==> n@ == archive_names(*old(a))[i as int],
        r is Ok <==> archive_openable(*old(a)).contains(archive_names(*old(a))[i as int]),
{
    a.by_index(i).map(|f| f.name().to_string())
}

/// Relies on `zip::ZipArchive::by_name`: an entry is found exactly when it can be opened; an
/// entry that can be opened is listed, and one that reads back can be opened.
#[verifier::external_body]
fn has_entry(a: &mut zip::ZipArchive<std::io::Cursor<Vec<u8>>>, name: &str) -> (r: bool)
    ensures
        archive_names(*final(a)) == archive_names(*old(a)),
        archive_data(*final(a)) == archive_data(*old(a)),
        archive_openable(*final(a)) == archive_openable(*old(a)),
        r == archive_openable(*old(a)).contains(name@),
        r ==> archive_names(*old(a)).contains(name@),
        archive_data(*old(a)).contains_key(name@) ==> r,
{
    a.by_name(name).is_ok()
}

/// Relies on `zip::ZipArchive::index_for_name`: whether the archive lists an entry of that
/// name; an entry that reads back is listed.
#[verifier::external_body]
fn is_listed(a: &zip::ZipArchive<std::io::Cursor<Vec<u8>>>, name: &str) -> (r: bool)
    ensures
        r == archive_names(*a).contains(name@),
        archive_data(*a).contains_key(name@) ==> r,
{
    a.index_for_name(name).is_some()
}

/// Relies on `zip::ZipArchive::by_name` and `Read::read_to_end`: the decompressed bytes of
/// an entry.
#[verifier::external_body]
fn read_entry(a: &mut zip::ZipArchive<std::io::Cursor<Vec<u8>>>, name: &str) -> (r: Result<Vec<u8>, zip::result::ZipError>)
    ensures
        archive_names(*final(a)) == archive_names(*old(a)),
        archive_data(*final(a)) == archive_data(*old(a)),
        archive_openable(*final(a)) == archive_openable(*old(a)),
        r is Ok <==> archive_data(*old(a)).contains_key(name@),
        r matches Ok(v) ==> v@ == archive_data(*old(a))[name@],
{
    let mut f = a.by_name(name)?;
    let mut v: Vec<u8> = Vec::new();
    f.read_to_end(&mut v)?;
    Ok(v)
}

/// Relies on `zip::ZipArchive::by_name` and `Read::read_to_string`: `None` when the entry
/// cannot be opened, else its bytes decoded as UTF-8, or an error when they are not UTF-8.
#[verifier::external_body]
fn read_text_if_present(a: &mut zip::ZipArchive<std::io::Cursor<Vec<u8>>>, name: &str) -> (r: Result<Option<String>, zip::result::ZipError>)
    ensures
        archive_names(*final(a)) == archive_names(*old(a)),
        archive_data(*final(a)) == archive_data(*old(a)),
        archive_openable(*final(a)) == archive_openable(*old(a)),
        r matches Ok(None) <==> !archive_openable(*old(a)).contains(name@),
        !archive_names(*old(a)).contains(name@) ==> r matches Ok(None),
        r matches Ok(Some(s)) ==> archive_data(*old(a)).contains_key(name@) && valid_utf8(
            archive_data(*old(a))[name@],
        ) && s@ == decode_utf8(archive_data(*old(a))[name@]),
        archive_data(*old(a)).contains_key(name@) && valid_utf8(archive_data(*old(a))[name@])
            ==> r matches Ok(Some(_)),
        archive_data(*old(a)).contains_key(name@) && !valid_utf8(archive_data(*old(a))[name@])
            ==> r is Err,
{
    let mut f = match a.by_name(name) {
        Ok(f) => f,
        Err(_) => return Ok(None),
    };
    let mut s = String::new();
    f.read_to_string(&mut s)?;
    Ok(Some(s))
}

/// Relies on `sha2::Sha256`: the 32-byte SHA-256 digest.
#[verifier::external_body]
fn sha256(data: &[u8]) -> (r: Vec<u8>)
    ensures
        r@ == sha256_of(data@),
        r@.len() == 32,
{
    sha2::Sha256::digest(data).to_vec()
}

/// Relies on `str::to_lowercase`: the lower-case mapping depends on the characters alone.
#[verifier::external_body]
fn lowercase(s: &str) -> (r: String)
    ensures
        r@ == lower_of(s@),
{
    s.to_lowercase()
}


/// Text hashed into a cache key: the archive path, a colon and the modification time in
/// seconds since the Unix epoch.
pub open spec fn cache_key_input(path: Seq<char>, modified_secs: u64) -> Seq<char> {
    path + seq![':'] + decimal(modified_secs as nat)
}

/// Cache key: the first 16 hexadecimal digits of the SHA-256 digest of the UTF-8 input.
pub open spec fn cache_key_of(path: Seq<char>, modified_secs: u64) -> Seq<char> {
    hex_of(sha256_of(encode_utf8(cache_key_input(path, modified_secs))).take(8))
}

/// The cache key of the archive at `path`, last modified `modified_secs` after the epoch.
pub fn compute_cache_key(path: &str, modified_secs: u64) -> (r: String)
    ensures
        r@ == cache_key_of(path@, modified_secs),
        r@.len() == 16,
{
    let mut input = String::new();
    push_str(&mut input, path);
    push_char(&mut input, ':');
    push_chars(&mut input, &decimal_chars(modified_secs));
    assert(input@ =~= cache_key_input(path@, modified_secs));
    let digest = sha256(input.as_str().as_bytes());
    let mut first: Vec<u8> = Vec::new();
    let mut i: usize = 0;
    while i < 8
        invariant
            i <= 8,
            digest@.len() == 32,
            first@ == digest@.take(i as int),
        decreases 8 - i,
    {
        first.push(digest[i]);
        assert(digest@.take(i + 1) =~= digest@.take(i as int).push(digest@[i as int]));
        i += 1;
    }
    string_of(&hex_chars(&first))
}

/// Path of the entry that points to the package manifest.
pub const CONTAINER_PATH: &'static str = "META-INF/container.xml";

/// The `full-path` attribute of a container descriptor.
pub open spec fn rootfile_path(xml: Seq<char>) -> Option<Seq<char>> {
    match find_spec(xml, "full-path=\""@, 0) {
        Some(i) => {
            let start = i + "full-path=\""@.len();
            match find_spec(xml, "\""@, start) {
                Some(end) => Some(xml.subrange(start, end)),
                None => None,
            }
        },
        None => None,
    }
}

/// The `full-path` attribute of a container descriptor.
pub fn get_opf_path(xml: &str) -> (r: Option<String>)
    ensures
        opt_chars(r) == rootfile_path(xml@),
{
    let x = chars_of(xml);
    let marker = chars_of("full-path=\"");
    let quote = chars_of("\"");
    match find(&x, &marker, 0) {
        Some(i) => {
            if marker.len() > x.len() - i {
                return None;
            }
            let start = i + marker.len();
            match find(&x, &quote, start) {
                Some(end) => {
                    if end < start {
                        return None;
                    }
                    Some(string_of(&sub_chars(&x, start, end)))
                },
                None => None,
            }
        },
        None => None,
    }
}

pub open spec fn opt_chars(o: Option<String>) -> Option<Seq<char>> {
    match o {
        Some(s) => Some(s@),
        None => None,
    }
}

/// Value of the first `"`-terminated attribute that starts at `start` and ends before `end`.
pub open spec fn quoted_value(c: Seq<char>, start: int, end: int) -> Option<Seq<char>> {
    match find_spec(c.take(end), "\""@, start) {
        Some(e) => Some(c.subrange(start, e)),
        None => None,
    }
}

/// Newer schema: the `href` that precedes the first `properties="cover-image"`.
pub open spec fn cover_image_href(c: Seq<char>) -> Option<Seq<char>> {
    match find_spec(c, "properties=\"cover-image\""@, 0) {
        Some(pos) => match rfind_spec(c, "href=\""@, pos) {
            Some(h) => quoted_value(c, h + "href=\""@.len(), pos),
            None => None,
        },
        None => None,
    }
}

/// Older schema: the `href` of the item whose `id` the `<meta name="cover">` names.
pub open spec fn meta_cover_href(c: Seq<char>) -> Option<Seq<char>> {
    match find_spec(c, "name=\"cover\""@, 0) {
        Some(pos) => match find_spec(c, "content=\""@, pos) {
            Some(cs) => match quoted_value(c, cs + "content=\""@.len(), c.len() as int) {
                Some(id) => match find_spec(c, "id=\""@ + id + "\""@, 0) {
                    Some(ip) => match find_spec(c, "href=\""@, ip) {
                        Some(h) => quoted_value(c, h + "href=\""@.len(), c.len() as int),
                        None => None,
                    },
                    None => None,
                },
                None => None,
            },
            None => None,
        },
        None => None,
    }
}

/// The cover `href` a package manifest declares, newer schema first.
pub open spec fn opf_cover_href(c: Seq<char>) -> Option<Seq<char>> {
    match cover_image_href(c) {
        Some(h) => Some(h),
        None => meta_cover_href(c),
    }
}

/// The value of the `"`-terminated attribute starting at `start`, looking no further than `end`.
fn quoted_value_exec(c: &Vec<char>, start: usize, end: usize) -> (r: Option<Vec<char>>)
    requires
        end <= c@.len(),
    ensures
        match r {
            Some(v) => quoted_value(c@, start as int, end as int) == Some(v@),
            None => quoted_value(c@, start as int, end as int) is None,
        },
{
    let pre = sub_chars(c, 0, end);
    assert(pre@ =~= c@.take(end as int));
    let quote = chars_of("\"");
    match find(&pre, &quote, start) {
        Some(e) => {
            if e < start {
                return None;
            }
            let v = sub_chars(c, start, e);
            Some(v)
        },
        None => None,
    }
}

/// The first occurrence of `needle` at or after `from`, and the index just past it.
fn find_past(hay: &Vec<char>, needle: &Vec<char>, from: usize) -> (r: Option<(usize, usize)>)
    ensures
        match r {
            Some((i, past)) => find_spec(hay@, needle@, from as int) == Some(i as int) && past == i
                + needle@.len(),
            None => find_spec(hay@, needle@, from as int) is None,
        },
{
    match find(hay, needle, from) {
        Some(i) => {
            if needle.len() > hay.len() - i {
                return None;
            }
            Some((i, i + needle.len()))
        },
        None => None,
    }
}

/// The cover `href` a package manifest declares, newer schema first.
pub fn parse_opf_for_cover(opf: &str) -> (r: Option<String>)
    ensures
        opt_chars(r) == opf_cover_href(opf@),
{
    let c = chars_of(opf);
    let mut newer: Option<Vec<char>> = None;
    match find(&c, &chars_of("properties=\"cover-image\""), 0) {
        Some(pos) => match rfind(&c, &chars_of("href=\""), pos) {
            Some(h) => {
                let href_len = chars_of("href=\"").len();
                if href_len <= pos - h {
                    newer = quoted_value_exec(&c, h + href_len, pos);
                }
            },
            None => {},
        },
        None => {},
    }
    match newer {
        Some(v) => {
            return Some(string_of(&v));
        },
        None => {},
    }
    let id_value = match find(&c, &chars_of("name=\"cover\""), 0) {
        Some(pos) => match find_past(&c, &chars_of("content=\""), pos) {
            Some((_, start)) => quoted_value_exec(&c, start, c.len()),
            None => None,
        },
        None => None,
    };
    assert(c@.take(c@.len() as int) =~= c@);
    match id_value {
        Some(id) => {
            let mut pattern = chars_of("id=\"");
            let ghost p0 = pattern@;
            let mut k: usize = 0;
            while k < id.len()
                invariant
                    k <= id@.len(),
                    pattern@ == p0 + id@.take(k as int),
                decreases id.len() - k,
            {
                pattern.push(id[k]);
                assert(id@.take(k + 1) =~= id@.take(k as int).push(id@[k as int]));
                k += 1;
            }
            assert(id@.take(id@.len() as int) =~= id@);
            pattern.push('"');
            proof {
                reveal_strlit("\"");
                assert(pattern@ =~= "id=\""@ + id@ + "\""@);
            }
            match find(&c, &pattern, 0) {
                Some(ip) => match find_past(&c, &chars_of("href=\""), ip) {
                    Some((_, start)) => match quoted_value_exec(&c, start, c.len()) {
                        Some(v) => Some(string_of(&v)),
                        None => None,
                    },
                    None => None,
                },
                None => None,
            }
        },
        None => None,
    }
}

/// The directory part of an entry path: what precedes its last `/`, or nothing.
pub open spec fn parent_dir(p: Seq<char>) -> Seq<char> {
    match rfind_spec(p, "/"@, p.len() as int) {
        Some(i) => p.take(i),
        None => Seq::empty(),
    }
}

/// `name` resolved against directory `dir`.
pub open spec fn join_path(dir: Seq<char>, name: Seq<char>) -> Seq<char> {
    if dir.len() == 0 || (name.len() > 0 && name[0] == '/') {
        name
    } else if dir.last() == '/' {
        dir + name
    } else {
        dir + seq!['/'] + name
    }
}

/// `name` resolved against directory `dir`.
pub fn join_path_exec(dir: &str, name: &str) -> (r: String)
    ensures
        r@ == join_path(dir@, name@),
{
    let d = chars_of(dir);
    let n = chars_of(name);
    if d.len() == 0 || (n.len() > 0 && n[0] == '/') {
        return string_of(&n);
    }
    let mut r = string_of(&d);
    if d[d.len() - 1] != '/' {
        push_char(&mut r, '/');
    }
    push_chars(&mut r, &n);
    r
}

/// Directory part of an entry path.
pub fn parent_dir_exec(p: &str) -> (r: String)
    ensures
        r@ == parent_dir(p@),
{
    let c = chars_of(p);
    match rfind(&c, &chars_of("/"), c.len()) {
        Some(i) => {
            let d = sub_chars(&c, 0, i);
            assert(d@ =~= c@.take(i as int));
            string_of(&d)
        },
        None => String::new(),
    }
}


/// Conventional cover locations, tried in this order.
pub open spec fn common_cover_paths() -> Seq<Seq<char>> {
    seq![
        "OEBPS/cover.jpg"@,
        "OEBPS/cover.jpeg"@,
        "OEBPS/cover.png"@,
        "OEBPS/Images/cover.jpg"@,
        "OEBPS/images/cover.jpg"@,
        "OPS/cover.jpg"@,
        "OPS/cover.jpeg"@,
        "OPS/images/cover.jpg"@,
        "cover.jpg"@,
        "cover.jpeg"@,
        "cover.png"@,
    ]
}

fn common_cover_path(k: usize) -> (r: String)
    requires
        k < 11,
    ensures
        r@ == common_cover_paths()[k as int],
{
    if k == 0 {
        "OEBPS/cover.jpg".to_string()
    } else if k == 1 {
        "OEBPS/cover.jpeg".to_string()
    } else if k == 2 {
        "OEBPS/cover.png".to_string()
    } else if k == 3 {
        "OEBPS/Images/cover.jpg".to_string()
    } else if k == 4 {
        "OEBPS/images/cover.jpg".to_string()
    } else if k == 5 {
        "OPS/cover.jpg".to_string()
    } else if k == 6 {
        "OPS/cover.jpeg".to_string()
    } else if k == 7 {
        "OPS/images/cover.jpg".to_string()
    } else if k == 8 {
        "cover.jpg".to_string()
    } else if k == 9 {
        "cover.jpeg".to_string()
    } else {
        "cover.png".to_string()
    }
}

/// The first conventional cover location, from the `k`-th on, among the entries `opens`.
pub open spec fn first_common_from(opens: Set<Seq<char>>, k: int) -> Option<Seq<char>>
    decreases 11 - k,
{
    if k < 0 || k >= 11 {
        None
    } else if opens.contains(common_cover_paths()[k]) {
        Some(common_cover_paths()[k])
    } else {
        first_common_from(opens, k + 1)
    }
}

pub open spec fn slash_count(s: Seq<char>) -> nat
    decreases s.len(),
{
    if s.len() == 0 {
        0
    } else {
        slash_count(s.drop_last()) + if s.last() == '/' {
            1nat
        } else {
            0nat
        }
    }
}

/// Number of segments of a `/`-separated path.
pub open spec fn path_depth(s: Seq<char>) -> nat {
    slash_count(s) + 1
}

/// A lower-cased entry name that looks like a cover image.
pub open spec fn is_cover_candidate(folded: Seq<char>) -> bool {
    &&& (ends_with(folded, ".jpg"@) || ends_with(folded, ".jpeg"@) || ends_with(folded, ".png"@))
    &&& contains_seq(folded, "cover"@)
}

pub open spec fn views(v: Seq<String>) -> Seq<Seq<char>> {
    v.map_values(|s: String| s@)
}

/// Entry `i` is a cover candidate of least depth, the first such.
pub open spec fn is_best_candidate(names: Seq<Seq<char>>, folded: Seq<Seq<char>>, i: int) -> bool {
    &&& 0 <= i < names.len()
    &&& is_cover_candidate(folded[i])
    &&& forall|j: int|
        0 <= j < i && is_cover_candidate(#[trigger] folded[j]) ==> path_depth(names[j])
            > path_depth(names[i])
    &&& forall|j: int|
        i < j < names.len() && is_cover_candidate(#[trigger] folded[j]) ==> path_depth(names[j])
            >= path_depth(names[i])
}

pub open spec fn folded_names(names: Seq<Seq<char>>) -> Seq<Seq<char>> {
    names.map_values(|n: Seq<char>| lower_of(n))
}

/// The shallowest entry whose lower-cased name looks like a cover image, the first on ties.
pub open spec fn best_cover_name(names: Seq<Seq<char>>) -> Option<Seq<char>> {
    if exists|i: int| is_best_candidate(names, folded_names(names), i) {
        Some(names[choose|i: int| is_best_candidate(names, folded_names(names), i)])
    } else {
        None
    }
}

/// Cover entry found without the manifest: the first conventional location that opens, else
/// the best candidate among the listed names.
pub open spec fn fallback_cover(names: Seq<Seq<char>>, opens: Set<Seq<char>>) -> Option<Seq<char>> {
    match first_common_from(opens, 0) {
        Some(p) => Some(p),
        None => best_cover_name(names),
    }
}

fn slash_count_exec(s: &Vec<char>) -> (r: usize)
    ensures
        r == slash_count(s@),
{
    let mut n: usize = 0;
    let mut i: usize = 0;
    while i < s.len()
        invariant
            i <= s@.len(),
            n == slash_count(s@.take(i as int)),
            n <= i,
        decreases s.len() - i,
    {
        assert(s@.take(i + 1).drop_last() =~= s@.take(i as int));
        if s[i] == '/' {
            n += 1;
        }
        i += 1;
    }
    assert(s@.take(s@.len() as int) =~= s@);
    n
}

fn ends_with_exec(h: &Vec<char>, suffix: &Vec<char>) -> (r: bool)
    ensures
        r == ends_with(h@, suffix@),
{
    suffix.len() <= h.len() && matches_at_exec(h, suffix, h.len() - suffix.len())
}

fn is_cover_candidate_exec(folded: &Vec<char>) -> (r: bool)
    ensures
        r == is_cover_candidate(folded@),
{
    let image = ends_with_exec(folded, &chars_of(".jpg")) || ends_with_exec(
        folded,
        &chars_of(".jpeg"),
    ) || ends_with_exec(folded, &chars_of(".png"));
    image && find_from(folded, &chars_of("cover"), 0).is_some()
}

/// Index of the shallowest entry whose lower-cased name (`folded`) looks like a cover image;
/// the first such on equal depth.
pub fn best_cover_candidate(names: &Vec<String>, folded: &Vec<String>) -> (r: Option<usize>)
    requires
        names@.len() == folded@.len(),
    ensures
        r matches Some(i) ==> is_best_candidate(views(names@), views(folded@), i as int),
        r is None ==> forall|j: int|
            0 <= j < folded@.len() ==> !is_cover_candidate(#[trigger] views(folded@)[j]),
{
    let ghost nv = views(names@);
    let ghost fv = views(folded@);
    let mut best: Option<(usize, usize)> = None;
    let mut k: usize = 0;
    while k < names.len()
        invariant
            k <= names@.len(),
            names@.len() == folded@.len(),
            nv == views(names@),
            fv == views(folded@),
            best is None ==> forall|j: int| 0 <= j < k ==> !is_cover_candidate(#[trigger] fv[j]),
            best matches Some((b, d)) ==> {
                &&& b < k
                &&& d == slash_count(nv[b as int])
                &&& is_cover_candidate(fv[b as int])
                &&& forall|j: int|
                    0 <= j < b && is_cover_candidate(#[trigger] fv[j]) ==> slash_count(nv[j]) > d
                &&& forall|j: int|
                    b < j < k && is_cover_candidate(#[trigger] fv[j]) ==> slash_count(nv[j]) >= d
            },
        decreases names.len() - k,
    {
        let f = chars_of(folded[k].as_str());
        if is_cover_candidate_exec(&f) {
            let depth = slash_count_exec(&chars_of(names[k].as_str())) as usize;
            match best {
                None => {
                    best = Some((k, depth));
                },
                Some((b, d)) => {
                    if depth < d {
                        best = Some((k, depth));
                    }
                },
            }
        }
        k += 1;
    }
    match best {
        Some((b, _)) => Some(b),
        None => None,
    }
}

proof fn lemma_best_unique(names: Seq<Seq<char>>, folded: Seq<Seq<char>>, i: int, j: int)
    requires
        is_best_candidate(names, folded, i),
        is_best_candidate(names, folded, j),
    ensures
        i == j,
{
    if i < j {
        assert(path_depth(names[i]) > path_depth(names[j]));
    } else if j < i {
        assert(path_depth(names[j]) > path_depth(names[i]));
    }
}

proof fn lemma_first_common_at(opens: Set<Seq<char>>, j: int, k: int)
    requires
        0 <= j <= k < 11,
        forall|t: int| j <= t < k ==> !opens.contains(#[trigger] common_cover_paths()[t]),
        opens.contains(common_cover_paths()[k]),
    ensures
        first_common_from(opens, j) == Some(common_cover_paths()[k]),
    decreases k - j,
{
    if j < k {
        lemma_first_common_at(opens, j + 1, k);
    }
}

proof fn lemma_first_common_none(opens: Set<Seq<char>>, j: int)
    requires
        0 <= j <= 11,
        forall|t: int| j <= t < 11 ==> !opens.contains(#[trigger] common_cover_paths()[t]),
    ensures
        first_common_from(opens, j) is None,
    decreases 11 - j,
{
    if j < 11 {
        lemma_first_common_none(opens, j + 1);
    }
}

/// Every listed entry of the archive opens.
pub open spec fn all_open(a: zip::ZipArchive<std::io::Cursor<Vec<u8>>>) -> bool {
    forall|i: int|
        0 <= i < archive_names(a).len() ==> archive_openable(a).contains(
            #[trigger] archive_names(a)[i],
        )
}

/// Every listed entry of the archive opens and reads back without error.
pub open spec fn fully_readable(a: zip::ZipArchive<std::io::Cursor<Vec<u8>>>) -> bool {
    &&& all_open(a)
    &&& forall|i: int|
        0 <= i < archive_names(a).len() ==> archive_data(a).contains_key(
            #[trigger] archive_names(a)[i],
        )
}

/// Cover entry found without the manifest: the first conventional location that can be
/// opened, else the shallowest entry whose lower-cased name looks like a cover image.
fn fallback_find_cover_path(a: &mut zip::ZipArchive<std::io::Cursor<Vec<u8>>>) -> (r: Result<
    Option<String>,
    zip::result::ZipError,
>)
    ensures
        archive_names(*final(a)) == archive_names(*old(a)),
        archive_data(*final(a)) == archive_data(*old(a)),
        archive_openable(*final(a)) == archive_openable(*old(a)),
        r matches Ok(Some(p)) ==> archive_names(*old(a)).contains(p@),
        first_common_from(archive_openable(*old(a)), 0) matches Some(p) ==> (r matches Ok(Some(q))
            && q@ == p),
        all_open(*old(a)) ==> (r matches Ok(o) && opt_chars(o) == fallback_cover(
            archive_names(*old(a)),
            archive_openable(*old(a)),
        )),
{
    let ghost names0 = archive_names(*a);
    let ghost data0 = archive_data(*a);
    let ghost opens0 = archive_openable(*a);
    let mut k: usize = 0;
    while k < 11
        invariant
            k <= 11,
            archive_names(*a) == names0,
            archive_data(*a) == data0,
            archive_openable(*a) == opens0,
            names0 == archive_names(*old(a)),
            data0 == archive_data(*old(a)),
            opens0 == archive_openable(*old(a)),
            forall|t: int| 0 <= t < k ==> !opens0.contains(#[trigger] common_cover_paths()[t]),
        decreases 11 - k,
    {
        let p = common_cover_path(k);
        if has_entry(a, p.as_str()) {
            proof {
                lemma_first_common_at(opens0, 0, k as int);
            }
            return Ok(Some(p));
        }
        k += 1;
    }
    proof {
        lemma_first_common_none(opens0, 0);
    }
    let n = archive_len(a);
    let mut names: Vec<String> = Vec::new();
    let mut folded: Vec<String> = Vec::new();
    let mut i: usize = 0;
    while i < n
        invariant
            i <= n,
            n == names0.len(),
            archive_names(*a) == names0,
            archive_data(*a) == data0,
            archive_openable(*a) == opens0,
            names0 == archive_names(*old(a)),
            data0 == archive_data(*old(a)),
            opens0 == archive_openable(*old(a)),
            first_common_from(opens0, 0) is None,
            names@.len() == i,
            folded@.len() == i,
            forall|t: int| 0 <= t < i ==> (#[trigger] names@[t])@ == names0[t],
            forall|t: int| 0 <= t < i ==> (#[trigger] folded@[t])@ == lower_of(names0[t]),
        decreases n - i,
    {
        let name = match entry_name_at(a, i) {
            Ok(name) => name,
            Err(e) => {
                return Err(e);
            },
        };
        folded.push(lowercase(name.as_str()));
        names.push(name);
        i += 1;
    }
    let best = best_cover_candidate(&names, &folded);
    proof {
        assert(views(names@) =~= names0);
        assert(views(folded@) =~= folded_names(names0));
        match best {
            Some(b) => {
                let c = choose|c: int| is_best_candidate(names0, folded_names(names0), c);
                lemma_best_unique(names0, folded_names(names0), b as int, c);
            },
            None => {
                assert(!exists|c: int| is_best_candidate(names0, folded_names(names0), c));
            },
        }
    }
    match best {
        Some(b) => Ok(Some(names[b].clone())),
        None => Ok(None),
    }
}


/// The cover entry the package manifest declares, resolved against the manifest's directory,
/// when the container descriptor and the manifest both read back as UTF-8 text.
pub open spec fn manifest_cover(data: Map<Seq<char>, Seq<u8>>) -> Option<Seq<char>> {
    let c = CONTAINER_PATH@;
    if data.contains_key(c) && valid_utf8(data[c]) {
        match rootfile_path(decode_utf8(data[c])) {
            Some(opf) => if data.contains_key(opf) && valid_utf8(data[opf]) {
                match opf_cover_href(decode_utf8(data[opf])) {
                    Some(h) => Some(join_path(parent_dir(opf), h)),
                    None => None,
                }
            } else {
                None
            },
            None => None,
        }
    } else {
        None
    }
}

/// The container descriptor exists but is not UTF-8 text.
pub open spec fn container_unreadable(data: Map<Seq<char>, Seq<u8>>) -> bool {
    data.contains_key(CONTAINER_PATH@) && !valid_utf8(data[CONTAINER_PATH@])
}

/// The cover entry of an archive: the manifest's declaration, else the fallback search.
pub open spec fn cover_entry(
    names: Seq<Seq<char>>,
    opens: Set<Seq<char>>,
    data: Map<Seq<char>, Seq<u8>>,
) -> Option<Seq<char>> {
    match manifest_cover(data) {
        Some(m) => if names.contains(m) {
            Some(m)
        } else {
            fallback_cover(names, opens)
        },
        None => fallback_cover(names, opens),
    }
}

/// The container descriptor does not open, or it reads back as UTF-8 text.
pub open spec fn container_ok(a: zip::ZipArchive<std::io::Cursor<Vec<u8>>>) -> bool {
    let c = CONTAINER_PATH@;
    !archive_openable(a).contains(c) || (archive_data(a).contains_key(c) && valid_utf8(
        archive_data(a)[c],
    ))
}

/// The manifest declares a cover entry that the archive lists.
pub open spec fn manifest_listed(names: Seq<Seq<char>>, data: Map<Seq<char>, Seq<u8>>) -> bool {
    match manifest_cover(data) {
        Some(m) => names.contains(m),
        None => false,
    }
}

/// The entry holding the cover image: the manifest's declaration when the archive lists it,
/// else a conventional location that opens, else the shallowest image named like a cover.
pub fn find_cover_path(a: &mut zip::ZipArchive<std::io::Cursor<Vec<u8>>>) -> (r: Result<
    Option<String>,
    zip::result::ZipError,
>)
    ensures
        archive_names(*final(a)) == archive_names(*old(a)),
        archive_data(*final(a)) == archive_data(*old(a)),
        archive_openable(*final(a)) == archive_openable(*old(a)),
        manifest_cover(archive_data(*old(a))) matches Some(m) ==> (archive_names(*old(a)).contains(
            m,
        ) ==> (r matches Ok(Some(p)) && p@ == m)),
        manifest_cover(archive_data(*old(a))) matches Some(m) ==> (archive_data(
            *old(a),
        ).contains_key(m) ==> (r matches Ok(Some(p)) && p@ == m)),
        r matches Ok(Some(p)) ==> archive_names(*old(a)).contains(p@),
        container_ok(*old(a)) && !manifest_listed(archive_names(*old(a)), archive_data(*old(a)))
            ==> (first_common_from(archive_openable(*old(a)), 0) matches Some(p) ==> (r matches Ok(
            Some(q),
        ) && q@ == p)),
        container_unreadable(archive_data(*old(a))) ==> r is Err,
        fully_readable(*old(a)) && !container_unreadable(archive_data(*old(a))) ==> (r matches Ok(
            o,
        ) && opt_chars(o) == cover_entry(
            archive_names(*old(a)),
            archive_openable(*old(a)),
            archive_data(*old(a)),
        )),
{
    let container = read_text_if_present(a, CONTAINER_PATH);
    match container {
        Err(e) => {
            return Err(e);
        },
        Ok(None) => {},
        Ok(Some(xml)) => {
            match get_opf_path(xml.as_str()) {
                Some(opf_path) => {
                    match read_text_if_present(a, opf_path.as_str()) {
                        Ok(Some(opf)) => {
                            match parse_opf_for_cover(opf.as_str()) {
                                Some(href) => {
                                    let dir = parent_dir_exec(opf_path.as_str());
                                    let path = join_path_exec(dir.as_str(), href.as_str());
                                    if is_listed(a, path.as_str()) {
                                        return Ok(Some(path));
                                    }
                                },
                                None => {},
                            }
                        },
                        _ => {},
                    }
                },
                None => {},
            }
        },
    }
    fallback_find_cover_path(a)
}

/// Failure of a cover resolution.
#[derive(Debug)]
pub enum CoverError {
    /// Reading or writing a file failed.
    Io(String),
    /// The archive is malformed, or an entry could not be read.
    Zip(zip::result::ZipError),
    NoCoverFound,
}

/// Opens an ebook package held in memory.
pub fn open_ebook(bytes: Vec<u8>) -> (r: Result<zip::ZipArchive<std::io::Cursor<Vec<u8>>>, CoverError>)
    ensures
        r is Ok <==> zip_opens(bytes@),
        r matches Err(e) ==> e is Zip,
{
    match open_archive(bytes) {
        Ok(a) => Ok(a),
        Err(e) => Err(CoverError::Zip(e)),
    }
}

/// What a resolution stores in the cache: a file path and the bytes to write there.
#[derive(Debug)]
pub struct CoverArtifact {
    pub path: String,
    pub contents: Vec<u8>,
    pub is_placeholder: bool,
}

/// Vector image stored when a package has no cover.
pub const PLACEHOLDER_SVG: &'static str = r##"<svg xmlns="http://www.w3.org/2000/svg" width="200" height="300" viewBox="0 0 200 300">
            <rect width="200" height="300" fill="#f0f0f0"/>
            <rect x="20" y="40" width="160" height="200" fill="#e0e0e0" stroke="#ccc" stroke-width="2"/>
            <text x="100" y="150" text-anchor="middle" font-family="sans-serif" font-size="14" fill="#999">
                Sem Capa
            </text>
        </svg>"##;

/// Resolves covers into a flat cache directory.
pub struct CoverExtractor {
    cache_dir: String,
}

impl CoverExtractor {
    /// The cache directory.
    pub closed spec fn dir(&self) -> Seq<char> {
        self.cache_dir@
    }

    /// Path of the cached cover image for `key`.
    pub open spec fn image_path(&self, key: Seq<char>) -> Seq<char> {
        join_path(self.dir(), key + ".jpg"@)
    }

    /// Path of the cached placeholder for `key`.
    pub open spec fn placeholder_path_of(&self, key: Seq<char>) -> Seq<char> {
        join_path(self.dir(), key + "_placeholder.svg"@)
    }

    /// An extractor caching into `cache_dir` (which the caller creates).
    pub fn new(cache_dir: String) -> (r: CoverExtractor)
        ensures
            r.dir() == cache_dir@,
    {
        CoverExtractor { cache_dir }
    }

    pub fn cache_dir(&self) -> (r: &str)
        ensures
            r@ == self.dir(),
    {
        self.cache_dir.as_str()
    }

    /// Path of the cached cover image for `key`.
    pub fn cached_cover_path(&self, key: &str) -> (r: String)
        ensures
            r@ == self.image_path(key@),
    {
        let mut name = key.to_string();
        push_str(&mut name, ".jpg");
        join_path_exec(self.cache_dir.as_str(), name.as_str())
    }

    /// Path of the cached placeholder for `key`.
    pub fn placeholder_path(&self, key: &str) -> (r: String)
        ensures
            r@ == self.placeholder_path_of(key@),
    {
        let mut name = key.to_string();
        push_str(&mut name, "_placeholder.svg");
        join_path_exec(self.cache_dir.as_str(), name.as_str())
    }

    /// What the cache answers for `key`, given which of its two files exist: the image when
    /// it is cached, else the placeholder when that is cached, else nothing.
    pub open spec fn cache_lookup(
        &self,
        key: Seq<char>,
        image_cached: bool,
        placeholder_cached: bool,
    ) -> Option<Seq<char>> {
        if image_cached {
            Some(self.image_path(key))
        } else if placeholder_cached {
            Some(self.placeholder_path_of(key))
        } else {
            None
        }
    }

    /// The cached cover to return without reading the archive, when the image or the
    /// placeholder for `key` is already in the cache.
    pub fn cached_cover(&self, key: &str, image_cached: bool, placeholder_cached: bool) -> (r:
        Option<String>)
        ensures
            opt_chars(r) == self.cache_lookup(key@, image_cached, placeholder_cached),
    {
        if image_cached {
            Some(self.cached_cover_path(key))
        } else if placeholder_cached {
            Some(self.placeholder_path(key))
        } else {
            None
        }
    }

    /// Resolves the cover of an opened package into what to store under `key`: the cover
    /// entry's bytes as `{key}.jpg`, or the placeholder as `{key}_placeholder.svg` when no
    /// cover entry is found.
    pub fn extract_cover(
        &self,
        key: &str,
        archive: &mut zip::ZipArchive<std::io::Cursor<Vec<u8>>>,
    ) -> (r: Result<CoverArtifact, CoverError>)
        ensures
            ({
                let names = archive_names(*old(archive));
                let data = archive_data(*old(archive));
                &&& manifest_cover(data) matches Some(m) ==> (data.contains_key(m) ==> (r matches Ok(
                    art,
                ) && !art.is_placeholder && art.path@ == self.image_path(key@) && art.contents@
                    == data[m]))
                &&& r matches Ok(art) ==> (!art.is_placeholder ==> art.path@ == self.image_path(
                    key@,
                ) && exists|p: Seq<char>| data.contains_key(p) && art.contents@ == data[p])
                &&& r matches Ok(art) ==> (art.is_placeholder ==> art.path@
                    == self.placeholder_path_of(key@) && art.contents@ == encode_utf8(
                    PLACEHOLDER_SVG@,
                ))
                &&& r matches Err(e) ==> e is Zip
                &&& container_ok(*old(archive)) && !manifest_listed(names, data) ==> (first_common_from(
                    archive_openable(*old(archive)),
                    0,
                ) matches Some(p) ==> (data.contains_key(p) ==> (r matches Ok(art)
                    && !art.is_placeholder && art.path@ == self.image_path(key@) && art.contents@
                    == data[p])))
                &&& fully_readable(*old(archive)) && !container_unreadable(data) ==> match cover_entry(
                    names,
                    archive_openable(*old(archive)),
                    data,
                ) {
                    Some(p) => r matches Ok(art) && !art.is_placeholder && art.contents@ == data[p],
                    None => r matches Ok(art) && art.is_placeholder,
                }
            }),
    {
        let ghost data = archive_data(*archive);
        match find_cover_path(archive) {
            Err(e) => Err(CoverError::Zip(e)),
            Ok(Some(p)) => match read_entry(archive, p.as_str()) {
                Ok(bytes) => Ok(
                    CoverArtifact {
                        path: self.cached_cover_path(key),
                        contents: bytes,
                        is_placeholder: false,
                    },
                ),
                Err(e) => Err(CoverError::Zip(e)),
            },
            Ok(None) => Ok(
                CoverArtifact {
                    path: self.placeholder_path(key),
                    contents: vstd::slice::slice_to_vec(PLACEHOLDER_SVG.as_bytes()),
                    is_placeholder: true,
                },
            ),
        }
    }
}


/// Resolving an unmodified archive twice: the cache key depends only on the archive's path
/// and modification time, so a second resolution of the same archive, finding the file that
/// the first one stored (cover image or placeholder), answers from the cache with exactly that
/// file's path and does not read the archive.
pub proof fn lemma_second_resolution_hits_cache(
    ex: CoverExtractor,
    path: Seq<char>,
    modified_secs: u64,
    first: CoverArtifact,
)
    requires
        first.is_placeholder ==> first.path@ == ex.placeholder_path_of(
            cache_key_of(path, modified_secs),
        ),
        !first.is_placeholder ==> first.path@ == ex.image_path(cache_key_of(path, modified_secs)),
    ensures
        ex.cache_lookup(cache_key_of(path, modified_secs), !first.is_placeholder, first.is_placeholder)
            == Some(first.path@),
{
}

} // verus!
