//! The files a sync attempt writes into the working tree: one per entry when
//! the output path holds a date token, else one file with every entry.

use vstd::prelude::*;
use crate::journal::{Journal, entries};
use crate::placeholders::DatePlaceholders;
use crate::render::{
    contains_date_placeholder, has_date_token, render_path, resolve_output_path_template,
};
use crate::text::{
    ascii_lower, chars_of, split_on, split_str, str_eq, to_ascii_lower, trim, trim_str,
};

verus! {

/// A file of the working tree: a relative path and its text.
#[derive(Debug, Clone)]
pub struct SyncOutputFile {
    pub rel_path: String,
    pub content: String,
}

impl SyncOutputFile {
    pub open spec fn file(&self) -> (Seq<char>, Seq<char>) {
        (self.rel_path@, self.content@)
    }
}

pub open spec fn files(fs: Seq<SyncOutputFile>) -> Seq<(Seq<char>, Seq<char>)> {
    fs.map_values(|f: SyncOutputFile| f.file())
}

pub open spec fn has_parent_segment(p: Seq<char>) -> bool {
    exists|k: int| 0 <= k < split_on(p, '/').len() && #[trigger] split_on(p, '/')[k] == ".."@
}

/// A safe relative path: the trimmed input, when it is non-empty, not
/// absolute, and has no `..` segment.
pub open spec fn safe_rel_path(input: Seq<char>) -> Option<Seq<char>> {
    let t = trim(input);
    if t.len() == 0 || t[0] == '/' || has_parent_segment(t) {
        None
    } else {
        Some(t)
    }
}

/// The last segment of the path ends in `.md` (any case) after a non-empty stem.
pub open spec fn md_file(p: Seq<char>) -> bool {
    let name = split_on(p, '/').last();
    name.len() >= 4 && name[name.len() - 3] == '.' && ascii_lower(
        name.subrange(name.len() - 2, name.len() as int),
    ) == "md"@
}

pub fn validate_rel_path(input: &str) -> (r: Result<String, String>)
    ensures
        match safe_rel_path(input@) {
            Some(p) => r matches Ok(x) && x@ == p,
            None => r is Err,
        },
{
    let t = trim_str(input);
    let v = chars_of(t.as_str());
    if v.len() == 0 {
        return Err(String::from_str("path is empty"));
    }
    if v[0] == '/' {
        return Err(String::from_str("absolute path is not allowed"));
    }
    let segs = split_str(t.as_str(), '/');
    let mut k: usize = 0;
    while k < segs.len()
        invariant
            t@ == trim(input@),
            segs@.len() == split_on(t@, '/').len(),
            forall|q: int| 0 <= q < segs@.len() ==> #[trigger] segs@[q]@ == split_on(t@, '/')[q],
            forall|q: int| 0 <= q < k ==> #[trigger] split_on(t@, '/')[q] != ".."@,
            k <= segs@.len(),
        decreases segs@.len() - k,
    {
        if str_eq(segs[k].as_str(), "..") {
            assert(split_on(t@, '/')[k as int] == ".."@);
            assert(has_parent_segment(t@));
            return Err(String::from_str("parent dir is not allowed"));
        }
        k += 1;
    }
    Ok(t)
}

pub fn ensure_md_path(path: &str) -> (r: Result<(), String>)
    ensures
        r is Ok <==> md_file(path@),
{
    let segs = split_str(path, '/');
    proof {
        crate::text::lemma_split_nonempty(path@, '/');
    }
    let name = chars_of(segs[segs.len() - 1].as_str());
    let n = name.len();
    if n >= 4 && name[n - 3] == '.' {
        let ext = crate::text::string_of_range(&name, n - 2, n);
        let lower = to_ascii_lower(ext.as_str());
        if str_eq(lower.as_str(), "md") {
            return Ok(());
        }
    }
    let mut msg = String::from_str("output path must end with .md: ");
    msg.append(path);
    Err(msg)
}

/// `markdown` for `md` or `markdown` in any case and with surrounding blanks.
pub open spec fn format_name(s: Seq<char>) -> Option<Seq<char>> {
    let w = ascii_lower(trim(s));
    if w == "md"@ || w == "markdown"@ {
        Some("markdown"@)
    } else {
        None
    }
}

pub fn normalize_format(s: &str) -> (r: Result<String, String>)
    ensures
        match format_name(s@) {
            Some(f) => r matches Ok(x) && x@ == f,
            None => r is Err,
        },
{
    let v = to_ascii_lower(trim_str(s).as_str());
    if str_eq(v.as_str(), "md") || str_eq(v.as_str(), "markdown") {
        Ok(String::from_str("markdown"))
    } else {
        Err(String::from_str("supported: markdown only"))
    }
}

/// `## date`, a blank line, the content, and a rule, for each entry in order.
pub open spec fn entry_sections(es: Seq<(Seq<char>, Seq<char>)>) -> Seq<char>
    decreases es.len(),
{
    if es.len() == 0 {
        Seq::empty()
    } else {
        entry_sections(es.drop_last()) + "## "@ + es.last().0 + "\n\n"@ + es.last().1
            + "\n\n---\n\n"@
    }
}

/// One document holding every entry.
pub open spec fn aggregate_document(es: Seq<(Seq<char>, Seq<char>)>) -> Seq<char> {
    "# DayLog Journals\n\n"@ + entry_sections(es)
}

/// The document of one entry.
pub open spec fn entry_document(e: (Seq<char>, Seq<char>)) -> Seq<char> {
    "# "@ + e.0 + "\n\n"@ + e.1 + "\n"@
}

pub fn render_journals(format: &str, journals: &[Journal]) -> (r: Result<String, String>)
    ensures
        format@ == "markdown"@ ==> (r matches Ok(x) && x@ == aggregate_document(entries(journals@))),
        format@ != "markdown"@ ==> (r matches Err(e) && e@ == "unsupported format"@),
{
    if !str_eq(format, "markdown") {
        return Err(String::from_str("unsupported format"));
    }
    let mut out = String::from_str("# DayLog Journals\n\n");
    let mut k: usize = 0;
    while k < journals.len()
        invariant
            k <= journals@.len(),
            out@ == "# DayLog Journals\n\n"@ + entry_sections(
                entries(journals@.subrange(0, k as int)),
            ),
        decreases journals@.len() - k,
    {
        let j = &journals[k];
        out.append("## ");
        out.append(j.date.as_str());
        out.append("\n\n");
        out.append(j.content.as_str());
        out.append("\n\n---\n\n");
        proof {
            let es = entries(journals@.subrange(0, k + 1));
            assert(es.drop_last() =~= entries(journals@.subrange(0, k as int)));
            assert(es.last() == j.entry());
        }
        k += 1;
    }
    assert(journals@.subrange(0, journals@.len() as int) =~= journals@);
    Ok(out)
}

pub fn render_single_markdown(j: &Journal) -> (r: String)
    ensures
        r@ == entry_document(j.entry()),
{
    let mut out = String::from_str("# ");
    out.append(j.date.as_str());
    out.append("\n\n");
    out.append(j.content.as_str());
    out.append("\n");
    out
}

/// The file written for one entry: its rendered path, when that is a safe
/// relative `.md` path.
pub open spec fn entry_file(
    template: Seq<char>,
    e: (Seq<char>, Seq<char>),
    ph: DatePlaceholders,
) -> Option<(Seq<char>, Seq<char>)> {
    match render_path(template, e.0, ph) {
        None => None,
        Some(p) => match safe_rel_path(p) {
            None => None,
            Some(rp) => if md_file(rp) {
                Some((rp, entry_document(e)))
            } else {
                None
            },
        },
    }
}

/// One file per entry, in order; `None` when any entry's path is unusable.
pub open spec fn entry_files(
    template: Seq<char>,
    es: Seq<(Seq<char>, Seq<char>)>,
    ph: DatePlaceholders,
) -> Option<Seq<(Seq<char>, Seq<char>)>>
    decreases es.len(),
{
    if es.len() == 0 {
        Some(Seq::empty())
    } else {
        match (entry_files(template, es.drop_last(), ph), entry_file(template, es.last(), ph)) {
            (Some(fs), Some(f)) => Some(fs.push(f)),
            _ => None,
        }
    }
}

/// The files of a sync attempt, or `None` when they cannot be built.
pub open spec fn output_files(
    output_path: Seq<char>,
    format: Seq<char>,
    es: Seq<(Seq<char>, Seq<char>)>,
    ph: DatePlaceholders,
) -> Option<Seq<(Seq<char>, Seq<char>)>> {
    if format == "markdown"@ && has_date_token(output_path, ph) {
        match entry_files(output_path, es, ph) {
            Some(fs) => if fs.len() == 0 {
                None
            } else {
                Some(fs)
            },
            None => None,
        }
    } else {
        match safe_rel_path(output_path) {
            None => None,
            Some(rp) => if md_file(rp) && format == "markdown"@ {
                Some(seq![(rp, aggregate_document(es))])
            } else {
                None
            },
        }
    }
}

proof fn lemma_entry_files_none_extends(
    t: Seq<char>,
    es: Seq<(Seq<char>, Seq<char>)>,
    ph: DatePlaceholders,
    n: int,
)
    requires
        0 <= n <= es.len(),
        entry_files(t, es.subrange(0, n), ph) is None,
    ensures
        entry_files(t, es, ph) is None,
    decreases es.len() - n,
{
    if n == es.len() {
        assert(es.subrange(0, n) =~= es);
    } else {
        assert(es.drop_last().subrange(0, n) =~= es.subrange(0, n));
        lemma_entry_files_none_extends(t, es.drop_last(), ph, n);
    }
}

/// When entry `k` has no usable file, neither has the whole list.
proof fn entry_files_fail_at(t: Seq<char>, js: Seq<Journal>, ph: DatePlaceholders, k: int)
    requires
        0 <= k < js.len(),
        entry_file(t, js[k].entry(), ph) is None,
    ensures
        entry_files(t, entries(js), ph) is None,
{
    let es = entries(js.subrange(0, k + 1));
    assert(es.last() == js[k].entry());
    assert(entry_files(t, es, ph) is None);
    assert(entries(js).subrange(0, k + 1) =~= es);
    lemma_entry_files_none_extends(t, entries(js), ph, k + 1);
}

pub fn build_output_files(
    output_path: &str,
    format: &str,
    journals: &[Journal],
    placeholders: &DatePlaceholders,
) -> (r: Result<Vec<SyncOutputFile>, String>)
    ensures
        match output_files(output_path@, format@, entries(journals@), *placeholders) {
            Some(fs) => r matches Ok(v) && files(v@) == fs,
            None => r is Err,
        },
        format@ == "markdown"@ && has_date_token(output_path@, *placeholders) && journals@.len()
            == 0 ==> (r matches Err(e) && e@ == "no journals to sync for markdown template output"@),
{
    if str_eq(format, "markdown") && contains_date_placeholder(output_path, placeholders) {
        let mut out: Vec<SyncOutputFile> = Vec::new();
        let mut k: usize = 0;
        while k < journals.len()
            invariant
                format@ == "markdown"@,
                has_date_token(output_path@, *placeholders),
                k <= journals@.len(),
                entry_files(
                    output_path@,
                    entries(journals@.subrange(0, k as int)),
                    *placeholders,
                ) == Some(files(out@)),
            decreases journals@.len() - k,
        {
            let j = &journals[k];
            let ghost es = entries(journals@.subrange(0, k + 1));
            proof {
                assert(es.drop_last() =~= entries(journals@.subrange(0, k as int)));
                assert(es.last() == j.entry());
            }
            let path = match resolve_output_path_template(output_path, j.date.as_str(), placeholders) {
                Ok(p) => p,
                Err(e) => {
                    proof {
                        assert(entry_file(output_path@, journals@[k as int].entry(), *placeholders) is None);
                        entry_files_fail_at(output_path@, journals@, *placeholders, k as int);
                        assert(output_files(output_path@, format@, entries(journals@), *placeholders) is None);
                    }
                    return Err(e);
                },
            };
            let rel = match validate_rel_path(path.as_str()) {
                Ok(p) => p,
                Err(e) => {
                    proof {
                        assert(entry_file(output_path@, journals@[k as int].entry(), *placeholders) is None);
                        entry_files_fail_at(output_path@, journals@, *placeholders, k as int);
                        assert(output_files(output_path@, format@, entries(journals@), *placeholders) is None);
                    }
                    let mut msg = String::from_str("invalid output_path: ");
                    msg.append(e.as_str());
                    return Err(msg);
                },
            };
            match ensure_md_path(rel.as_str()) {
                Ok(()) => {},
                Err(e) => {
                    proof {
                        assert(entry_file(output_path@, journals@[k as int].entry(), *placeholders) is None);
                        entry_files_fail_at(output_path@, journals@, *placeholders, k as int);
                        assert(output_files(output_path@, format@, entries(journals@), *placeholders) is None);
                    }
                    return Err(e);
                },
            }
            let f = SyncOutputFile { rel_path: rel, content: render_single_markdown(j) };
            let ghost prev = out@;
            out.push(f);
            proof {
                assert(out@ =~= prev.push(f));
                assert(files(out@) =~= files(prev).push(f.file()));
            }
            k += 1;
        }
        assert(journals@.subrange(0, journals@.len() as int) =~= journals@);
        if out.len() == 0 {
            return Err(String::from_str("no journals to sync for markdown template output"));
        }
        return Ok(out);
    }
    let rel = match validate_rel_path(output_path) {
        Ok(p) => p,
        Err(e) => {
            let mut msg = String::from_str("invalid output_path: ");
            msg.append(e.as_str());
            return Err(msg);
        },
    };
    match ensure_md_path(rel.as_str()) {
        Ok(()) => {},
        Err(e) => {
            return Err(e);
        },
    }
    let content = match render_journals(format, journals) {
        Ok(c) => c,
        Err(e) => {
            return Err(e);
        },
    };
    let mut v: Vec<SyncOutputFile> = Vec::new();
    v.push(SyncOutputFile { rel_path: rel, content });
    assert(files(v@) =~= seq![(rel@, aggregate_document(entries(journals@)))]);
    Ok(v)
}

} // verus!
