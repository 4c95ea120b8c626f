//! Bulk import of dated entries: from an uploaded zip archive, and from the
//! markdown files of a repository checkout.

use vstd::prelude::*;
use crate::matcher::{extract, extract_date_from_path, failure_report, views};
use crate::placeholders::{
    DatePlaceholders, first_unnamed, pattern_error_text, pattern_names_date, validate_pattern,
};
use crate::text::{
    ascii_lower, ends_with, is_blank, replace_all, replace_str, split_any, split_any_str,
    str_eq, to_ascii_lower, trim, trim_str,
};

verus! {

/// `zip::ZipArchive`, an archive being read; opaque here.
#[verifier::external_type_specification]
#[verifier::external_body]
#[verifier::reject_recursive_types(R)]
pub struct ExZipArchive<R>(zip::ZipArchive<R>);

/// `zip::result::ZipError`, why the zip crate could not read something.
#[verifier::external_type_specification]
#[verifier::external_body]
pub struct ExZipError(zip::result::ZipError);

/// `std::io::Cursor`, the in-memory reader an archive is read from.
#[verifier::external_type_specification]
#[verifier::external_body]
#[verifier::reject_recursive_types(T)]
pub struct ExCursor<T>(std::io::Cursor<T>);

/// An archive read from bytes held in memory.
pub type Archive = zip::ZipArchive<std::io::Cursor<Vec<u8>>>;

/// One entry of an archive: whether its header can be read, its stored
/// name, whether it is a regular file, and its decompressed bytes when they
/// can be read.
pub type EntryView = (bool, Seq<char>, bool, Option<Seq<u8>>);

/// What an archive holds, entry by entry.
pub uninterp spec fn archive_entries(a: zip::ZipArchive<std::io::Cursor<Vec<u8>>>) -> Seq<
    EntryView,
>;

/// Whether the zip crate can read the central directory of some bytes.
pub uninterp spec fn zip_opens(b: Seq<u8>) -> bool;

/// What the zip format makes of some bytes, entry by entry.
pub uninterp spec fn zip_contents(b: Seq<u8>) -> Seq<EntryView>;

/// Relies on `zip::ZipArchive::new`: reads the archive's central directory;
/// the entries are those that the bytes encode.
#[verifier::external_body]
fn open_archive(bytes: Vec<u8>) -> (r: Result<Archive, zip::result::ZipError>)
    ensures
        r is Ok <==> zip_opens(bytes@),
        r matches Ok(a) ==> archive_entries(a) == zip_contents(bytes@),
{
    zip::ZipArchive::new(std::io::Cursor::new(bytes))
}

/// Relies on `zip::ZipArchive::len`: the number of entries.
#[verifier::external_body]
fn archive_len(a: &Archive) -> (r: usize)
    ensures
        r == archive_entries(*a).len(),
{
    a.len()
}

/// Relies on `zip::ZipArchive::by_index` with `ZipFile::name` and
/// `ZipFile::is_file`: the name and kind of entry `i`.
#[verifier::external_body]
fn entry_meta(a: &mut Archive, i: usize) -> (r: Result<(String, bool), zip::result::ZipError>)
    requires
        i < archive_entries(*old(a)).len(),
    ensures
        archive_entries(*final(a)) == archive_entries(*old(a)),
        r is Ok <==> archive_entries(*old(a))[i as int].0,
        r matches Ok(m) ==> m.0@ == archive_entries(*old(a))[i as int].1 && m.1 == archive_entries(
            *old(a),
        )[i as int].2,
{
    let f = a.by_index(i)?;
    Ok((f.name().to_string(), f.is_file()))
}

/// Relies on `zip::ZipArchive::by_index` and `std::io::Read::read_to_end`:
/// the decompressed bytes of entry `i`.
#[verifier::external_body]
fn entry_bytes(a: &mut Archive, i: usize) -> (r: Result<Vec<u8>, zip::result::ZipError>)
    requires
        i < archive_entries(*old(a)).len(),
    ensures
        archive_entries(*final(a)) == archive_entries(*old(a)),
        r is Ok <==> archive_entries(*old(a))[i as int].0 && archive_entries(*old(a))[i as int].3 is Some,
        r matches Ok(b) ==> archive_entries(*old(a))[i as int].3 == Some(b@),
{
    let mut f = a.by_index(i)?;
    let mut buf = Vec::new();
    std::io::Read::read_to_end(&mut f, &mut buf)?;
    Ok(buf)
}

/// The text that `String::from_utf8_lossy` makes of some bytes.
pub uninterp spec fn utf8_lossy(b: Seq<u8>) -> Seq<char>;

/// Relies on `String::from_utf8_lossy`: invalid sequences become U+FFFD.
#[verifier::external_body]
fn decode_lossy(b: &[u8]) -> (r: String)
    ensures
        r@ == utf8_lossy(b@),
{
    String::from_utf8_lossy(b).to_string()
}

/// A path that could not be imported, and why.
#[derive(Debug, Clone)]
pub struct SkipDetail {
    pub path: String,
    pub reason: String,
}

/// An entry read from an archive, with the date its path gave.
#[derive(Debug, Clone)]
pub struct ParsedEntry {
    pub path: String,
    pub date: String,
    pub content: String,
}

impl ParsedEntry {
    pub open spec fn view3(&self) -> (Seq<char>, Seq<char>, Seq<char>) {
        (self.path@, self.date@, self.content@)
    }
}

/// The outcome of reading an archive.
#[derive(Debug)]
pub struct ParseZipResult {
    pub total_markdown_files: usize,
    pub matched_files: usize,
    pub entries: Vec<ParsedEntry>,
    pub skipped_details: Vec<SkipDetail>,
}

/// Entry names use `/` between directories.
pub open spec fn entry_path(name: Seq<char>) -> Seq<char> {
    replace_all(name, seq!['\\'], "/"@)
}

/// A regular file whose name ends in `.md`, in any case.
pub open spec fn is_candidate(e: EntryView) -> bool {
    e.2 && ends_with(ascii_lower(entry_path(e.1)), ".md"@)
}

/// The text of an entry's bytes.
pub open spec fn entry_text(e: EntryView) -> Seq<char> {
    match e.3 {
        Some(b) => utf8_lossy(b),
        None => Seq::empty(),
    }
}

/// An entry can be imported: its header reads, and so do its bytes when it
/// is a candidate whose path gives a date.
pub open spec fn entry_readable(e: EntryView, patterns: Seq<Seq<char>>, ph: DatePlaceholders) -> bool {
    e.0 && (is_candidate(e) && extract(entry_path(e.1), patterns, ph) is Some ==> e.3 is Some)
}

pub open spec fn archive_readable(es: Seq<EntryView>, patterns: Seq<Seq<char>>, ph: DatePlaceholders) -> bool {
    forall|k: int| 0 <= k < es.len() ==> entry_readable(#[trigger] es[k], patterns, ph)
}

pub open spec fn candidate_count(es: Seq<EntryView>) -> nat
    decreases es.len(),
{
    if es.len() == 0 {
        0
    } else {
        candidate_count(es.drop_last()) + if is_candidate(es.last()) {
            1nat
        } else {
            0nat
        }
    }
}

/// The candidates whose path gives a date: path, date and text, in order.
pub open spec fn matched_entries(
    es: Seq<EntryView>,
    patterns: Seq<Seq<char>>,
    ph: DatePlaceholders,
) -> Seq<(Seq<char>, Seq<char>, Seq<char>)>
    decreases es.len(),
{
    if es.len() == 0 {
        Seq::empty()
    } else {
        let prev = matched_entries(es.drop_last(), patterns, ph);
        let e = es.last();
        if is_candidate(e) {
            match extract(entry_path(e.1), patterns, ph) {
                Some(d) => prev.push((entry_path(e.1), d, entry_text(e))),
                None => prev,
            }
        } else {
            prev
        }
    }
}

/// The candidates whose path gives no date, in order, each with the reason
/// that lists every pattern's failure.
pub open spec fn unmatched_paths(
    es: Seq<EntryView>,
    patterns: Seq<Seq<char>>,
    ph: DatePlaceholders,
) -> Seq<(Seq<char>, Seq<char>)>
    decreases es.len(),
{
    if es.len() == 0 {
        Seq::empty()
    } else {
        let prev = unmatched_paths(es.drop_last(), patterns, ph);
        let e = es.last();
        if is_candidate(e) && extract(entry_path(e.1), patterns, ph) is None {
            prev.push((entry_path(e.1), failure_report(entry_path(e.1), patterns, ph)))
        } else {
            prev
        }
    }
}

fn is_markdown_name(path: &str) -> (r: bool)
    ensures
        r == ends_with(ascii_lower(path@), ".md"@),
{
    proof {
        reveal_strlit(".md");
    }
    let lower = to_ascii_lower(path);
    let v = crate::text::chars_of(lower.as_str());
    let n = v.len();
    if n < 3 {
        return false;
    }
    let ext = crate::text::string_of_range(&v, n - 3, n);
    str_eq(ext.as_str(), ".md")
}

/// The result of importing the entries `es` by `patterns`.
pub open spec fn archive_import_is(
    res: ParseZipResult,
    es: Seq<EntryView>,
    pats: Seq<Seq<char>>,
    ph: DatePlaceholders,
) -> bool {
    &&& res.total_markdown_files == candidate_count(es)
    &&& res.entries@.map_values(|p: ParsedEntry| p.view3()) == matched_entries(es, pats, ph)
    &&& res.matched_files == res.entries@.len()
    &&& res.skipped_details@.map_values(|d: SkipDetail| detail_view(d)) == unmatched_paths(es, pats, ph)
}

/// Reads every entry of a zip archive: regular files named `*.md` (in any
/// case) are candidates; each candidate whose path gives a date by
/// `patterns` becomes an entry with its text, the others are skipped with
/// the reason. Fails when the archive or one of those entries cannot be read.
pub fn parse_zip(zip_file: Vec<u8>, patterns: &[String], placeholders: &DatePlaceholders) -> (r:
    Result<ParseZipResult, String>)
    requires
        placeholders.wf(),
    ensures
        !zip_opens(zip_file@) ==> (r matches Err(e) && e@ == "invalid zip file"@),
        zip_opens(zip_file@) ==> (r is Ok <==> archive_readable(
            zip_contents(zip_file@),
            views(patterns@),
            *placeholders,
        )),
        r matches Ok(res) ==> archive_import_is(res, zip_contents(zip_file@), views(patterns@), *placeholders),
{
    let mut archive = match open_archive(zip_file) {
        Ok(a) => a,
        Err(_) => {
            proof {
                reveal_strlit("invalid zip file");
            }
            return Err(String::from_str("invalid zip file"));
        },
    };
    match read_archive(&mut archive, patterns, placeholders) {
        Ok(res) => Ok(res),
        Err(e) => Err(e),
    }
}

/// Imports the entries of an opened archive (see `parse_zip`).
pub fn read_archive(archive: &mut Archive, patterns: &[String], placeholders: &DatePlaceholders) -> (r:
    Result<ParseZipResult, String>)
    requires
        placeholders.wf(),
    ensures
        r is Ok <==> archive_readable(archive_entries(*old(archive)), views(patterns@), *placeholders),
        r matches Ok(res) ==> archive_import_is(res, archive_entries(*old(archive)), views(patterns@), *placeholders),
{
    let ghost es = archive_entries(*archive);
    let ghost pats = views(patterns@);
    let n = archive_len(archive);
    let mut entries: Vec<ParsedEntry> = Vec::new();
    let mut skipped: Vec<SkipDetail> = Vec::new();
    let mut total: usize = 0;
    let mut idx: usize = 0;
    while idx < n
        invariant
            placeholders.wf(),
            pats == views(patterns@),
            archive_entries(*archive) == es,
            es == archive_entries(*old(archive)),
            n == es.len(),
            idx <= n,
            forall|k: int| 0 <= k < idx ==> entry_readable(#[trigger] es[k], pats, *placeholders),
            total == candidate_count(es.subrange(0, idx as int)),
            total <= idx,
            entries@.map_values(|p: ParsedEntry| p.view3()) == matched_entries(
                es.subrange(0, idx as int),
                pats,
                *placeholders,
            ),
            skipped@.map_values(|d: SkipDetail| detail_view(d)) == unmatched_paths(
                es.subrange(0, idx as int),
                pats,
                *placeholders,
            ),
        decreases n - idx,
    {
        let ghost pre = es.subrange(0, idx as int);
        let ghost cur = es.subrange(0, idx + 1);
        assert(cur.drop_last() =~= pre);
        assert(cur.last() == es[idx as int]);
        let (name, is_file) = match entry_meta(archive, idx) {
            Ok(m) => m,
            Err(_) => {
                assert(!entry_readable(es[idx as int], pats, *placeholders));
                return Err(String::from_str("read zip entry failed"));
            },
        };
        if !is_file {
            idx += 1;
            continue;
        }
        let path = replace_str(name.as_str(), "\\", "/");
        proof {
            reveal_strlit("\\");
            assert("\\"@ =~= seq!['\\']);
        }
        if !is_markdown_name(path.as_str()) {
            idx += 1;
            continue;
        }
        total += 1;
        match extract_date_from_path(path.as_str(), patterns, placeholders) {
            Err(reason) => {
                let ghost prev = skipped@;
                skipped.push(SkipDetail { path, reason });
                proof {
                    assert(skipped@.map_values(|d: SkipDetail| detail_view(d)) =~= prev.map_values(
                        |d: SkipDetail| detail_view(d),
                    ).push((entry_path(es[idx as int].1), failure_report(entry_path(es[idx as int].1), pats, *placeholders))));
                }
            },
            Ok(date) => {
                let bytes = match entry_bytes(archive, idx) {
                    Ok(b) => b,
                    Err(_) => {
                        assert(!entry_readable(es[idx as int], pats, *placeholders));
                        return Err(String::from_str("read markdown content failed"));
                    },
                };
                let content = decode_lossy(&bytes);
                let ghost prev = entries@;
                let e = ParsedEntry { path, date, content };
                entries.push(e);
                proof {
                    assert(entries@.map_values(|p: ParsedEntry| p.view3()) =~= prev.map_values(
                        |p: ParsedEntry| p.view3(),
                    ).push(e.view3()));
                }
            },
        }
        idx += 1;
    }
    assert(es.subrange(0, n as int) =~= es);
    let matched = entries.len();
    Ok(
        ParseZipResult {
            total_markdown_files: total,
            matched_files: matched,
            entries,
            skipped_details: skipped,
        },
    )
}

/// What `serde_json` reads from a text as a JSON array of strings.
pub uninterp spec fn json_string_list(s: Seq<char>) -> Option<Seq<Seq<char>>>;

/// Relies on `serde_json::from_str::<Vec<String>>`: the strings of a JSON
/// array, or nothing when the text is not one.
#[verifier::external_body]
fn parse_string_list(s: &str) -> (r: Option<Vec<String>>)
    ensures
        match json_string_list(s@) {
            Some(v) => r matches Some(x) && views(x@) == v,
            None => r is None,
        },
{
    serde_json::from_str::<Vec<String>>(s).ok()
}

pub open spec fn list_separators() -> Seq<char> {
    seq!['\n', ',', ';']
}

/// The patterns a request supplies: none or a blank text gives the
/// defaults; else a JSON array of strings, or a list split on newlines,
/// commas and semicolons with each item trimmed.
pub open spec fn requested_patterns(input: Option<Seq<char>>, defaults: Seq<Seq<char>>) -> Seq<
    Seq<char>,
> {
    match input {
        None => defaults,
        Some(raw) => {
            let t = trim(raw);
            if t.len() == 0 {
                defaults
            } else {
                match json_string_list(t) {
                    Some(v) => v,
                    None => split_any(t, list_separators()).map_values(|p: Seq<char>| trim(p)),
                }
            }
        },
    }
}

/// Blank items dropped, then repeated items, the first occurrence kept.
pub open spec fn clean_patterns(ps: Seq<Seq<char>>) -> Seq<Seq<char>>
    decreases ps.len(),
{
    if ps.len() == 0 {
        Seq::empty()
    } else {
        let d = clean_patterns(ps.drop_last());
        let x = ps.last();
        if trim(x).len() == 0 || d.contains(x) {
            d
        } else {
            d.push(x)
        }
    }
}

/// The patterns to use, when there is at least one and each names a whole date.
pub open spec fn usable_patterns(ps: Seq<Seq<char>>, ph: DatePlaceholders) -> Option<Seq<Seq<char>>> {
    if ps.len() > 0 && forall|k: int| 0 <= k < ps.len() ==> pattern_names_date(#[trigger] ps[k], ph) {
        Some(ps)
    } else {
        None
    }
}

fn copy_str(s: &String) -> (r: String)
    ensures
        r@ == s@,
{
    String::from_str(s.as_str())
}

fn contains_string(v: &Vec<String>, x: &String) -> (r: bool)
    ensures
        r == views(v@).contains(x@),
{
    let mut k: usize = 0;
    while k < v.len()
        invariant
            k <= v@.len(),
            forall|q: int| 0 <= q < k ==> v@[q]@ != x@,
        decreases v@.len() - k,
    {
        if str_eq(v[k].as_str(), x.as_str()) {
            assert(views(v@)[k as int] == x@);
            return true;
        }
        k += 1;
    }
    proof {
        if views(v@).contains(x@) {
            let q = choose|q: int| 0 <= q < views(v@).len() && views(v@)[q] == x@;
            assert(v@[q]@ == x@);
        }
    }
    false
}

/// The error for a list of patterns: none given, or the first that names no
/// whole date; `None` when the list is usable.
pub open spec fn request_failure(ps: Seq<Seq<char>>, ph: DatePlaceholders, prefix: Seq<char>) -> Option<
    Seq<char>,
> {
    if ps.len() == 0 {
        Some("patterns required"@)
    } else {
        match first_unnamed(ps, ph, 0) {
            Some(k) => Some(pattern_error_text(prefix, ps[k], ph)),
            None => None,
        }
    }
}

/// Every pattern names a whole date; the first that does not is reported.
fn check_patterns(ps: &Vec<String>, placeholders: &DatePlaceholders) -> (r: Result<(), String>)
    ensures
        r is Ok <==> forall|k: int| 0 <= k < ps@.len() ==> pattern_names_date(
            #[trigger] views(ps@)[k],
            *placeholders,
        ),
        match first_unnamed(views(ps@), *placeholders, 0) {
            Some(k) => r matches Err(e) && e@ == pattern_error_text(
                "invalid pattern"@,
                views(ps@)[k],
                *placeholders,
            ),
            None => r is Ok,
        },
{
    let mut k: usize = 0;
    while k < ps.len()
        invariant
            k <= ps@.len(),
            first_unnamed(views(ps@), *placeholders, 0) == first_unnamed(
                views(ps@),
                *placeholders,
                k as int,
            ),
            forall|q: int| 0 <= q < k ==> pattern_names_date(
                #[trigger] views(ps@)[q],
                *placeholders,
            ),
        decreases ps@.len() - k,
    {
        assert(views(ps@)[k as int] == ps@[k as int]@);
        match validate_pattern(ps[k].as_str(), placeholders) {
            Ok(()) => {},
            Err(e) => {
                assert(!pattern_names_date(views(ps@)[k as int], *placeholders));
                return Err(e);
            },
        }
        k += 1;
    }
    Ok(())
}

/// The import patterns of a request (see `requested_patterns`), cleaned (see
/// `clean_patterns`) and checked (see `usable_patterns`).
pub fn normalize_patterns(
    input: Option<&str>,
    default_patterns: Vec<String>,
    placeholders: &DatePlaceholders,
) -> (r: Result<Vec<String>, String>)
    ensures
        match usable_patterns(
            clean_patterns(
                requested_patterns(
                    match input {
                        Some(s) => Some(s@),
                        None => None,
                    },
                    views(default_patterns@),
                ),
            ),
            *placeholders,
        ) {
            Some(ps) => r matches Ok(v) && views(v@) == ps,
            None => r is Err,
        },
        request_failure(
            clean_patterns(
                requested_patterns(
                    match input {
                        Some(s) => Some(s@),
                        None => None,
                    },
                    views(default_patterns@),
                ),
            ),
            *placeholders,
            "invalid pattern"@,
        ) matches Some(m) ==> (r matches Err(e) && e@ == m),
{
    let ghost inp = match input {
        Some(s) => Some(s@),
        None => None::<Seq<char>>,
    };
    let ghost defaults = views(default_patterns@);
    let patterns: Vec<String> = match input {
        None => default_patterns,
        Some(raw) => {
            let t = trim_str(raw);
            if t.unicode_len() == 0 {
                default_patterns
            } else {
                match parse_string_list(t.as_str()) {
                    Some(v) => v,
                    None => {
                        let seps = vec!['\n', ',', ';'];
                        assert(seps@ == list_separators());
                        let parts = split_any_str(t.as_str(), seps.as_slice());
                        let mut out: Vec<String> = Vec::new();
                        let mut k: usize = 0;
                        while k < parts.len()
                            invariant
                                k <= parts@.len(),
                                out@.len() == k,
                                forall|q: int| 0 <= q < k ==> #[trigger] out@[q]@ == trim(parts@[q]@),
                            decreases parts@.len() - k,
                        {
                            let tp = trim_str(parts[k].as_str());
                            out.push(tp);
                            k += 1;
                        }
                        assert(views(parts@) =~= split_any(t@, list_separators()));
                        assert(views(out@) =~= views(parts@).map_values(|p: Seq<char>| trim(p)));
                        out
                    },
                }
            }
        },
    };
    assert(views(patterns@) == requested_patterns(inp, defaults));
    let mut cleaned: Vec<String> = Vec::new();
    let mut k: usize = 0;
    while k < patterns.len()
        invariant
            k <= patterns@.len(),
            views(cleaned@) == clean_patterns(views(patterns@).subrange(0, k as int)),
        decreases patterns@.len() - k,
    {
        let ghost pre = views(patterns@).subrange(0, k as int);
        assert(views(patterns@).subrange(0, k + 1).drop_last() =~= pre);
        let x = &patterns[k];
        if !is_blank(x.as_str()) && !contains_string(&cleaned, x) {
            let ghost prev = cleaned@;
            cleaned.push(copy_str(x));
            assert(views(cleaned@) =~= views(prev).push(x@));
        }
        k += 1;
    }
    assert(views(patterns@).subrange(0, patterns@.len() as int) =~= views(patterns@));
    if cleaned.len() == 0 {
        return Err(String::from_str("patterns required"));
    }
    match check_patterns(&cleaned, placeholders) {
        Ok(()) => Ok(cleaned),
        Err(e) => Err(e),
    }
}

/// A file of a repository scan and the date its path gave.
#[derive(Debug, Clone)]
pub struct ScanEntry {
    pub path: String,
    pub date: String,
}

/// The outcome of a repository scan.
#[derive(Debug)]
pub struct ScanSelection {
    pub accepted: Vec<ScanEntry>,
    pub skipped_count: usize,
}

pub open spec fn scan_views(v: Seq<ScanEntry>) -> Seq<(Seq<char>, Seq<char>)> {
    v.map_values(|e: ScanEntry| (e.path@, e.date@))
}

pub open spec fn dates_of(v: Seq<(Seq<char>, Seq<char>)>) -> Seq<Seq<char>> {
    v.map_values(|e: (Seq<char>, Seq<char>)| e.1)
}

/// The files of a scan that are imported, in order, and how many are
/// skipped: a path that gives no date is skipped, and so is one whose date
/// an earlier file already gave.
pub open spec fn scan_select(
    paths: Seq<Seq<char>>,
    pats: Seq<Seq<char>>,
    ph: DatePlaceholders,
) -> (Seq<(Seq<char>, Seq<char>)>, nat)
    decreases paths.len(),
{
    if paths.len() == 0 {
        (Seq::empty(), 0)
    } else {
        let prev = scan_select(paths.drop_last(), pats, ph);
        let p = entry_path(paths.last());
        match extract(p, pats, ph) {
            None => (prev.0, prev.1 + 1),
            Some(d) => if dates_of(prev.0).contains(d) {
                (prev.0, prev.1 + 1)
            } else {
                (prev.0.push((p, d)), prev.1)
            },
        }
    }
}

fn has_date(v: &Vec<ScanEntry>, d: &String) -> (r: bool)
    ensures
        r == dates_of(scan_views(v@)).contains(d@),
{
    let ghost ds = dates_of(scan_views(v@));
    let mut k: usize = 0;
    while k < v.len()
        invariant
            ds == dates_of(scan_views(v@)),
            k <= v@.len(),
            forall|q: int| 0 <= q < k ==> v@[q].date@ != d@,
        decreases v@.len() - k,
    {
        if str_eq(v[k].date.as_str(), d.as_str()) {
            assert(ds[k as int] == d@);
            return true;
        }
        k += 1;
    }
    proof {
        if ds.contains(d@) {
            let q = choose|q: int| 0 <= q < ds.len() && ds[q] == d@;
            assert(v@[q].date@ == d@);
        }
    }
    false
}

/// Selects the files of a repository scan (relative paths, any separator):
/// each path is matched by `patterns`; the first file of each date is
/// imported, and unmatched or repeated ones are counted as skipped.
pub fn select_scan_entries(
    rel_paths: &[String],
    patterns: &[String],
    placeholders: &DatePlaceholders,
) -> (r: ScanSelection)
    requires
        placeholders.wf(),
    ensures
        scan_views(r.accepted@) == scan_select(views(rel_paths@), views(patterns@), *placeholders).0,
        r.skipped_count == scan_select(views(rel_paths@), views(patterns@), *placeholders).1,
{
    let ghost all = views(rel_paths@);
    let ghost pats = views(patterns@);
    let mut accepted: Vec<ScanEntry> = Vec::new();
    let mut skipped: usize = 0;
    let mut k: usize = 0;
    while k < rel_paths.len()
        invariant
            placeholders.wf(),
            all == views(rel_paths@),
            pats == views(patterns@),
            k <= rel_paths@.len(),
            skipped <= k,
            scan_views(accepted@) == scan_select(all.subrange(0, k as int), pats, *placeholders).0,
            skipped == scan_select(all.subrange(0, k as int), pats, *placeholders).1,
        decreases rel_paths@.len() - k,
    {
        assert(all.subrange(0, k + 1).drop_last() =~= all.subrange(0, k as int));
        assert(all.subrange(0, k + 1).last() == rel_paths@[k as int]@);
        let rel = replace_str(rel_paths[k].as_str(), "\\", "/");
        proof {
            reveal_strlit("\\");
            assert("\\"@ =~= seq!['\\']);
        }
        match extract_date_from_path(rel.as_str(), patterns, placeholders) {
            Err(_) => {
                skipped += 1;
            },
            Ok(date) => {
                if has_date(&accepted, &date) {
                    skipped += 1;
                } else {
                    let ghost prev = accepted@;
                    let e = ScanEntry { path: rel, date };
                    accepted.push(e);
                    assert(scan_views(accepted@) =~= scan_views(prev).push((e.path@, e.date@)));
                }
            },
        }
        k += 1;
    }
    assert(all.subrange(0, rel_paths@.len() as int) =~= all);
    ScanSelection { accepted, skipped_count: skipped }
}

/// Two files of a scan whose paths give the same date: the first is
/// imported and the second is counted as skipped.
pub proof fn lemma_scan_duplicate_date(
    p1: Seq<char>,
    p2: Seq<char>,
    pats: Seq<Seq<char>>,
    ph: DatePlaceholders,
    d: Seq<char>,
)
    requires
        extract(entry_path(p1), pats, ph) == Some(d),
        extract(entry_path(p2), pats, ph) == Some(d),
    ensures
        scan_select(seq![p1, p2], pats, ph) == (seq![(entry_path(p1), d)], 1nat),
{
    let s = seq![p1, p2];
    assert(s.drop_last() =~= seq![p1]);
    assert(s.last() == p2);
    assert(seq![p1].drop_last() =~= Seq::<Seq<char>>::empty());
    assert(seq![p1].last() == p1);
    let none = scan_select(Seq::<Seq<char>>::empty(), pats, ph);
    assert(none == (Seq::<(Seq<char>, Seq<char>)>::empty(), 0nat));
    assert(!dates_of(none.0).contains(d));
    let first = scan_select(seq![p1], pats, ph);
    assert(first == (none.0.push((entry_path(p1), d)), 0nat));
    assert(first.0 =~= seq![(entry_path(p1), d)]);
    assert(dates_of(first.0)[0] == d);
    assert(dates_of(first.0).contains(d));
}

/// No two files imported by a scan have the same date.
pub proof fn lemma_scan_dates_distinct(paths: Seq<Seq<char>>, pats: Seq<Seq<char>>, ph: DatePlaceholders)
    ensures
        forall|i: int, j: int|
            0 <= i < j < scan_select(paths, pats, ph).0.len() ==> #[trigger] scan_select(
                paths,
                pats,
                ph,
            ).0[i].1 != #[trigger] scan_select(paths, pats, ph).0[j].1,
    decreases paths.len(),
{
    if paths.len() > 0 {
        lemma_scan_dates_distinct(paths.drop_last(), pats, ph);
        let prev = scan_select(paths.drop_last(), pats, ph);
        let cur = scan_select(paths, pats, ph);
        assert forall|i: int, j: int| 0 <= i < j < cur.0.len() implies #[trigger] cur.0[i].1
            != #[trigger] cur.0[j].1 by {
            if j == prev.0.len() && cur.0.len() > prev.0.len() {
                assert(dates_of(prev.0)[i] == prev.0[i].1);
            } else {
                assert(cur.0[i] == prev.0[i] && cur.0[j] == prev.0[j]);
            }
        }
    }
}

/// The patterns of a startup import: the configured ones, trimmed, blank
/// ones dropped; the output path when none is left.
pub open spec fn startup_patterns(configured: Seq<Seq<char>>, output_path: Seq<char>) -> Seq<Seq<char>> {
    let ps = nonblank_trimmed(configured);
    if ps.len() == 0 {
        seq![output_path]
    } else {
        ps
    }
}

pub open spec fn nonblank_trimmed(ps: Seq<Seq<char>>) -> Seq<Seq<char>>
    decreases ps.len(),
{
    if ps.len() == 0 {
        Seq::empty()
    } else {
        let d = nonblank_trimmed(ps.drop_last());
        if trim(ps.last()).len() == 0 {
            d
        } else {
            d.push(trim(ps.last()))
        }
    }
}

/// The checked patterns of a startup import (see `startup_patterns`).
pub fn startup_import_patterns(
    configured: &[String],
    output_path: &str,
    placeholders: &DatePlaceholders,
) -> (r: Result<Vec<String>, String>)
    ensures
        match usable_patterns(startup_patterns(views(configured@), output_path@), *placeholders) {
            Some(ps) => r matches Ok(v) && views(v@) == ps,
            None => r is Err,
        },
        request_failure(
            startup_patterns(views(configured@), output_path@),
            *placeholders,
            "invalid import pattern"@,
        ) matches Some(m) ==> (r matches Err(e) && e@ == m),
{
    let ghost all = views(configured@);
    let mut ps: Vec<String> = Vec::new();
    let mut k: usize = 0;
    while k < configured.len()
        invariant
            all == views(configured@),
            k <= configured@.len(),
            views(ps@) == nonblank_trimmed(all.subrange(0, k as int)),
        decreases configured@.len() - k,
    {
        assert(all.subrange(0, k + 1).drop_last() =~= all.subrange(0, k as int));
        let t = trim_str(configured[k].as_str());
        if t.unicode_len() != 0 {
            let ghost prev = ps@;
            ps.push(t);
            assert(views(ps@) =~= views(prev).push(t@));
        }
        k += 1;
    }
    assert(all.subrange(0, configured@.len() as int) =~= all);
    if ps.len() == 0 {
        ps.push(String::from_str(output_path));
        assert(views(ps@) =~= seq![output_path@]);
    }
    assert(views(ps@) == startup_patterns(views(configured@), output_path@));
    let mut i: usize = 0;
    while i < ps.len()
        invariant
            i <= ps@.len(),
            views(ps@) == startup_patterns(views(configured@), output_path@),
            forall|q: int| 0 <= q < i ==> pattern_names_date(#[trigger] views(ps@)[q], *placeholders),
            first_unnamed(views(ps@), *placeholders, 0) == first_unnamed(
                views(ps@),
                *placeholders,
                i as int,
            ),
            views(ps@).len() > 0,
        decreases ps@.len() - i,
    {
        assert(views(ps@)[i as int] == ps@[i as int]@);
        match crate::placeholders::validate_startup_import_pattern(ps[i].as_str(), placeholders) {
            Ok(()) => {},
            Err(e) => {
                assert(!pattern_names_date(views(ps@)[i as int], *placeholders));
                return Err(e);
            },
        }
        i += 1;
    }
    Ok(ps)
}

/// The answer to an archive import.
#[derive(Debug)]
pub struct ImportJournalResp {
    pub total_markdown_files: usize,
    pub matched_files: usize,
    pub imported_count: usize,
    pub skipped_count: usize,
    pub skipped_paths: Vec<String>,
    pub skipped_details: Vec<SkipDetail>,
    pub patterns: Vec<String>,
}

pub open spec fn count_true(v: Seq<bool>) -> nat
    decreases v.len(),
{
    if v.len() == 0 {
        0
    } else {
        count_true(v.drop_last()) + if v.last() {
            1nat
        } else {
            0nat
        }
    }
}

/// `path (reason)`.
pub open spec fn skip_line(d: SkipDetail) -> Seq<char> {
    d.path@ + " ("@ + d.reason@ + ")"@
}

pub open spec fn detail_view(d: SkipDetail) -> (Seq<char>, Seq<char>) {
    (d.path@, d.reason@)
}

/// A skip for each entry whose store write failed, in order.
pub open spec fn store_failures(es: Seq<ParsedEntry>, stored: Seq<bool>) -> Seq<(Seq<char>, Seq<char>)>
    decreases stored.len(),
{
    if stored.len() == 0 {
        Seq::empty()
    } else {
        let prev = store_failures(es, stored.drop_last());
        if stored.last() {
            prev
        } else {
            prev.push((es[stored.len() - 1].path@, "store write failed"@))
        }
    }
}

/// Summarises an archive import once each entry has been written to the
/// store: `stored[k]` tells whether entry `k` was written. An entry that
/// was not is reported as skipped with the reason `store write failed`.
pub fn import_response(
    parsed: ParseZipResult,
    stored: &[bool],
    patterns: Vec<String>,
) -> (r: ImportJournalResp)
    requires
        stored@.len() == parsed.entries@.len(),
    ensures
        r.total_markdown_files == parsed.total_markdown_files,
        r.matched_files == parsed.matched_files,
        r.imported_count == count_true(stored@),
        r.skipped_count == r.skipped_details@.len(),
        r.skipped_details@.map_values(|d: SkipDetail| detail_view(d)) == parsed.skipped_details@.map_values(
            |d: SkipDetail| detail_view(d),
        ) + store_failures(parsed.entries@, stored@),
        r.skipped_paths@.len() == r.skipped_details@.len(),
        forall|k: int| 0 <= k < r.skipped_paths@.len() ==> #[trigger] r.skipped_paths@[k]@ == skip_line(
            r.skipped_details@[k],
        ),
        views(r.patterns@) == views(patterns@),
{
    let ghost base = parsed.skipped_details@.map_values(|d: SkipDetail| detail_view(d));
    let mut details = parsed.skipped_details;
    let mut imported: usize = 0;
    let mut k: usize = 0;
    while k < stored.len()
        invariant
            stored@.len() == parsed.entries@.len(),
            k <= stored@.len(),
            imported == count_true(stored@.subrange(0, k as int)),
            imported <= k,
            details@.map_values(|d: SkipDetail| detail_view(d)) == base + store_failures(
                parsed.entries@,
                stored@.subrange(0, k as int),
            ),
        decreases stored@.len() - k,
    {
        assert(stored@.subrange(0, k + 1).drop_last() =~= stored@.subrange(0, k as int));
        if stored[k] {
            imported += 1;
        } else {
            let e = &parsed.entries[k];
            let ghost prev = details@;
            let d = SkipDetail {
                path: String::from_str(e.path.as_str()),
                reason: String::from_str("store write failed"),
            };
            details.push(d);
            assert(details@.map_values(|d: SkipDetail| detail_view(d)) =~= prev.map_values(
                |d: SkipDetail| detail_view(d),
            ).push(detail_view(d)));
        }
        k += 1;
    }
    assert(stored@.subrange(0, stored@.len() as int) =~= stored@);
    let mut lines: Vec<String> = Vec::new();
    let mut i: usize = 0;
    while i < details.len()
        invariant
            i <= details@.len(),
            lines@.len() == i,
            forall|q: int| 0 <= q < i ==> #[trigger] lines@[q]@ == skip_line(details@[q]),
        decreases details@.len() - i,
    {
        let mut line = String::from_str(details[i].path.as_str());
        line.append(" (");
        line.append(details[i].reason.as_str());
        line.append(")");
        lines.push(line);
        i += 1;
    }
    let n = details.len();
    ImportJournalResp {
        total_markdown_files: parsed.total_markdown_files,
        matched_files: parsed.matched_files,
        imported_count: imported,
        skipped_count: n,
        skipped_paths: lines,
        skipped_details: details,
        patterns,
    }
}

/// What a repository scan does with one directory entry.
#[derive(Debug, Clone, Copy, PartialEq, Eq, Structural)]
pub enum ScanStep {
    /// Walk into the directory.
    Descend,
    /// Match the file's path.
    Collect,
    /// Leave it aside.
    Ignore,
}

/// The version-control metadata directory is not walked; other directories
/// are; regular files ending in `.md` (any case, non-empty stem) are matched.
pub open spec fn scan_step_for(name: Seq<char>, is_dir: bool, is_file: bool) -> ScanStep {
    if is_dir {
        if name == ".git"@ {
            ScanStep::Ignore
        } else {
            ScanStep::Descend
        }
    } else if is_file && crate::sync_plan::md_file(name) {
        ScanStep::Collect
    } else {
        ScanStep::Ignore
    }
}

/// Decides what a repository scan does with an entry named `name`.
pub fn scan_step(name: &str, is_dir: bool, is_file: bool) -> (r: ScanStep)
    ensures
        r == scan_step_for(name@, is_dir, is_file),
{
    if is_dir {
        if str_eq(name, ".git") {
            ScanStep::Ignore
        } else {
            ScanStep::Descend
        }
    } else if is_file && crate::sync_plan::ensure_md_path(name).is_ok() {
        ScanStep::Collect
    } else {
        ScanStep::Ignore
    }
}

} // verus!
