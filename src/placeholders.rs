//! The placeholder schema: eight brace-delimited tokens shared by date
//! extraction and rendering, and the import patterns built from them.

use vstd::prelude::*;
use crate::text::{chars_of, contains, str_contains, trim, trim_str};

verus! {

/// The tokens that stand for date parts, the time stamp and the entry count.
#[derive(Debug, Clone)]
pub struct DatePlaceholders {
    pub yyyy: String,
    pub mm: String,
    pub m: String,
    pub dd: String,
    pub d: String,
    pub date: String,
    pub timestamp: String,
    pub count: String,
}

/// `{identifier}`: an opening brace, at least one character, a closing brace.
pub open spec fn brace_form(t: Seq<char>) -> bool {
    t.len() >= 3 && t[0] == '{' && t.last() == '}'
}

/// The identifier between the braces of a token.
pub open spec fn key_of(t: Seq<char>) -> Seq<char> {
    t.subrange(1, t.len() - 1)
}

pub open spec fn tokens_wf(ts: Seq<Seq<char>>) -> bool {
    &&& forall|i: int| 0 <= i < ts.len() ==> brace_form(#[trigger] ts[i])
    &&& forall|i: int, j: int| 0 <= i < j < ts.len() ==> #[trigger] ts[i] != #[trigger] ts[j]
}

pub open spec fn trim_all(ts: Seq<Seq<char>>) -> Seq<Seq<char>> {
    ts.map_values(|t: Seq<char>| trim(t))
}

impl DatePlaceholders {
    /// The eight tokens, in the order yyyy, MM, M, dd, d, date, timestamp, count.
    pub open spec fn tokens(&self) -> Seq<Seq<char>> {
        seq![
            self.yyyy@,
            self.mm@,
            self.m@,
            self.dd@,
            self.d@,
            self.date@,
            self.timestamp@,
            self.count@,
        ]
    }

    /// A validated schema: every token in brace form, all eight distinct.
    pub open spec fn wf(&self) -> bool {
        tokens_wf(self.tokens())
    }
}

pub proof fn lemma_wf_keys_distinct(ph: DatePlaceholders)
    requires
        ph.wf(),
    ensures
        forall|i: int, j: int|
            0 <= i < j < 8 ==> key_of(#[trigger] ph.tokens()[i]) != key_of(
                #[trigger] ph.tokens()[j],
            ),
{
    assert forall|i: int, j: int| 0 <= i < j < 8 implies key_of(
        #[trigger] ph.tokens()[i],
    ) != key_of(#[trigger] ph.tokens()[j]) by {
        let a = ph.tokens()[i];
        let b = ph.tokens()[j];
        assert(brace_form(a) && brace_form(b));
        if key_of(a) == key_of(b) {
            assert(a =~= seq!['{'] + key_of(a) + seq!['}']);
            assert(b =~= seq!['{'] + key_of(b) + seq!['}']);
        }
    }
}

fn brace_form_exec(t: &str) -> (r: bool)
    ensures
        r == brace_form(t@),
{
    let v = chars_of(t);
    v.len() >= 3 && v[0] == '{' && v[v.len() - 1] == '}'
}

fn literal(s: &str) -> (r: String)
    ensures
        r@ == s@,
{
    String::from_str(s)
}

/// The schema used when nothing else is configured.
pub fn default_date_placeholders() -> (r: DatePlaceholders)
    ensures
        r.yyyy@ == "{yyyy}"@,
        r.mm@ == "{MM}"@,
        r.m@ == "{M}"@,
        r.dd@ == "{dd}"@,
        r.d@ == "{d}"@,
        r.date@ == "{date}"@,
        r.timestamp@ == "{timestamp}"@,
        r.count@ == "{count}"@,
        r.wf(),
{
    let r = DatePlaceholders {
        yyyy: literal("{yyyy}"),
        mm: literal("{MM}"),
        m: literal("{M}"),
        dd: literal("{dd}"),
        d: literal("{d}"),
        date: literal("{date}"),
        timestamp: literal("{timestamp}"),
        count: literal("{count}"),
    };
    proof {
        reveal_strlit("{yyyy}");
        reveal_strlit("{MM}");
        reveal_strlit("{M}");
        reveal_strlit("{dd}");
        reveal_strlit("{d}");
        reveal_strlit("{date}");
        reveal_strlit("{timestamp}");
        reveal_strlit("{count}");
        let ts = r.tokens();
        assert forall|i: int, j: int| 0 <= i < j < ts.len() implies #[trigger] ts[i]
            != #[trigger] ts[j] by {
            if ts[i].len() == ts[j].len() {
                assert(ts[i][1] != ts[j][1] || ts[i][2] != ts[j][2]);
            }
        }
    }
    r
}

/// The configuration name of the token at position `k` of `tokens()`.
pub open spec fn field_name(k: int) -> Seq<char> {
    if k == 0 {
        "yyyy"@
    } else if k == 1 {
        "MM"@
    } else if k == 2 {
        "M"@
    } else if k == 3 {
        "dd"@
    } else if k == 4 {
        "d"@
    } else if k == 5 {
        "date"@
    } else if k == 6 {
        "timestamp"@
    } else {
        "count"@
    }
}

/// The first position from `k` on whose token is not in brace form.
pub open spec fn first_unbraced(ts: Seq<Seq<char>>, k: int) -> Option<int>
    decreases ts.len() - k,
{
    if k < 0 || k >= ts.len() {
        None
    } else if !brace_form(ts[k]) {
        Some(k)
    } else {
        first_unbraced(ts, k + 1)
    }
}

/// The first position from `j` on whose token repeats an earlier one.
pub open spec fn first_repeat(ts: Seq<Seq<char>>, j: int) -> Option<int>
    decreases ts.len() - j,
{
    if j < 0 || j >= ts.len() {
        None
    } else if ts.subrange(0, j).contains(ts[j]) {
        Some(j)
    } else {
        first_repeat(ts, j + 1)
    }
}

/// The error for a token that is not in brace form.
pub open spec fn form_error(k: int, t: Seq<char>) -> Seq<char> {
    if t.len() == 0 {
        "datePlaceholders."@ + field_name(k) + " cannot be empty"@
    } else {
        "datePlaceholders."@ + field_name(k) + " must use brace format like {xxx}"@
    }
}

/// The error for a token that repeats an earlier one.
pub open spec fn duplicate_error(t: Seq<char>) -> Seq<char> {
    "duplicate placeholder token '"@ + t + "'"@
}

/// The outcome of checking trimmed tokens: the first token not in brace
/// form is reported, else the first that repeats an earlier one.
pub open spec fn schema_check(ts: Seq<Seq<char>>) -> Result<(), Seq<char>> {
    match first_unbraced(ts, 0) {
        Some(k) => Err(form_error(k, ts[k])),
        None => match first_repeat(ts, 0) {
            Some(j) => Err(duplicate_error(ts[j])),
            None => Ok(()),
        },
    }
}

/// Trims every token and checks that each is in brace form and that no two are
/// equal; the error names the first offending token.
pub fn normalize_date_placeholders(input: DatePlaceholders) -> (r: Result<
    DatePlaceholders,
    String,
>)
    ensures
        match schema_check(trim_all(input.tokens())) {
            Ok(()) => r matches Ok(p) && p.tokens() == trim_all(input.tokens()) && p.wf(),
            Err(m) => r matches Err(e) && e@ == m,
        },
        r is Ok <==> tokens_wf(trim_all(input.tokens())),
{
    let normalized = DatePlaceholders {
        yyyy: trim_str(input.yyyy.as_str()),
        mm: trim_str(input.mm.as_str()),
        m: trim_str(input.m.as_str()),
        dd: trim_str(input.dd.as_str()),
        d: trim_str(input.d.as_str()),
        date: trim_str(input.date.as_str()),
        timestamp: trim_str(input.timestamp.as_str()),
        count: trim_str(input.count.as_str()),
    };
    assert(normalized.tokens() =~= trim_all(input.tokens()));
    let mut fields: Vec<&str> = Vec::new();
    fields.push(normalized.yyyy.as_str());
    fields.push(normalized.mm.as_str());
    fields.push(normalized.m.as_str());
    fields.push(normalized.dd.as_str());
    fields.push(normalized.d.as_str());
    fields.push(normalized.date.as_str());
    fields.push(normalized.timestamp.as_str());
    fields.push(normalized.count.as_str());
    let mut names: Vec<&str> = Vec::new();
    names.push("yyyy");
    names.push("MM");
    names.push("M");
    names.push("dd");
    names.push("d");
    names.push("date");
    names.push("timestamp");
    names.push("count");
    let ghost ts = normalized.tokens();
    assert(fields@.len() == 8);
    assert(forall|k: int| 0 <= k < 8 ==> (#[trigger] fields@[k])@ == ts[k]);
    assert(forall|k: int| 0 <= k < 8 ==> (#[trigger] names@[k])@ == field_name(k));
    let mut k: usize = 0;
    while k < 8
        invariant
            fields@.len() == 8,
            names@.len() == 8,
            ts == trim_all(input.tokens()),
            ts.len() == 8,
            forall|q: int| 0 <= q < 8 ==> (#[trigger] fields@[q])@ == ts[q],
            forall|q: int| 0 <= q < 8 ==> (#[trigger] names@[q])@ == field_name(q),
            forall|q: int| 0 <= q < k ==> brace_form(#[trigger] ts[q]),
            first_unbraced(ts, 0) == first_unbraced(ts, k as int),
            k <= 8,
        decreases 8 - k,
    {
        if !brace_form_exec(fields[k]) {
            assert(!brace_form(ts[k as int]));
            let mut msg = String::from_str("datePlaceholders.");
            msg.append(names[k]);
            if fields[k].unicode_len() == 0 {
                msg.append(" cannot be empty");
            } else {
                msg.append(" must use brace format like {xxx}");
            }
            assert(msg@ =~= form_error(k as int, ts[k as int]));
            return Err(msg);
        }
        k += 1;
    }
    let mut j: usize = 0;
    while j < 8
        invariant
            fields@.len() == 8,
            ts == trim_all(input.tokens()),
            ts.len() == 8,
            first_unbraced(ts, 0) is None,
            forall|q: int| 0 <= q < 8 ==> (#[trigger] fields@[q])@ == ts[q],
            forall|q: int| 0 <= q < 8 ==> brace_form(#[trigger] ts[q]),
            forall|p: int, q: int| 0 <= p < q < j ==> #[trigger] ts[p] != #[trigger] ts[q],
            first_repeat(ts, 0) == first_repeat(ts, j as int),
            j <= 8,
        decreases 8 - j,
    {
        let mut i: usize = 0;
        while i < j
            invariant
                fields@.len() == 8,
                ts == trim_all(input.tokens()),
                ts.len() == 8,
                first_unbraced(ts, 0) is None,
                first_repeat(ts, 0) == first_repeat(ts, j as int),
                forall|q: int| 0 <= q < 8 ==> (#[trigger] fields@[q])@ == ts[q],
                forall|q: int| 0 <= q < i ==> #[trigger] ts[q] != ts[j as int],
                i <= j < 8,
            decreases j - i,
        {
            if crate::text::seq_eq(&chars_of(fields[i]), &chars_of(fields[j])) {
                assert(ts.subrange(0, j as int)[i as int] == ts[j as int]);
                assert(ts.subrange(0, j as int).contains(ts[j as int]));
                assert(ts[i as int] == ts[j as int]);
                assert(!tokens_wf(ts));
                let mut msg = String::from_str("duplicate placeholder token '");
                msg.append(fields[j]);
                msg.append("'");
                assert(msg@ =~= duplicate_error(ts[j as int]));
                return Err(msg);
            }
            i += 1;
        }
        assert(!ts.subrange(0, j as int).contains(ts[j as int])) by {
            if ts.subrange(0, j as int).contains(ts[j as int]) {
                let q = choose|q: int| 0 <= q < j && ts.subrange(0, j as int)[q] == ts[j as int];
                assert(ts[q] == ts[j as int]);
            }
        }
        j += 1;
    }
    Ok(normalized)
}

/// `a + b + c + d + e + f` as one string.
fn join6(a: &str, b: &str, c: &str, d: &str, e: &str, f: &str) -> (r: String)
    ensures
        r@ == a@ + b@ + c@ + d@ + e@ + f@,
{
    let mut r = String::from_str(a);
    r.append(b);
    r.append(c);
    r.append(d);
    r.append(e);
    r.append(f);
    r
}

/// The four import patterns tried when none are configured.
pub open spec fn default_patterns(ph: DatePlaceholders) -> Seq<Seq<char>> {
    seq![
        ph.yyyy@ + "/"@ + ph.mm@ + "/"@ + ph.dd@ + ".md"@,
        ph.yyyy@ + "/"@ + ph.mm@ + "-"@ + ph.dd@ + ".md"@,
        ph.yyyy@ + "-"@ + ph.mm@ + "-"@ + ph.dd@ + ".md"@,
        ph.yyyy@ + "_"@ + ph.mm@ + "_"@ + ph.dd@ + ".md"@,
    ]
}

/// `{yyyy}/{MM}/{dd}.md`, `{yyyy}/{MM}-{dd}.md`, `{yyyy}-{MM}-{dd}.md` and
/// `{yyyy}_{MM}_{dd}.md`, written with the schema's tokens.
pub fn default_import_patterns_by(placeholders: &DatePlaceholders) -> (r: Vec<String>)
    ensures
        r@.len() == 4,
        forall|k: int| 0 <= k < 4 ==> #[trigger] r@[k]@ == default_patterns(*placeholders)[k],
{
    let p = placeholders;
    let mut r: Vec<String> = Vec::new();
    r.push(join6(p.yyyy.as_str(), "/", p.mm.as_str(), "/", p.dd.as_str(), ".md"));
    r.push(join6(p.yyyy.as_str(), "/", p.mm.as_str(), "-", p.dd.as_str(), ".md"));
    r.push(join6(p.yyyy.as_str(), "-", p.mm.as_str(), "-", p.dd.as_str(), ".md"));
    r.push(join6(p.yyyy.as_str(), "_", p.mm.as_str(), "_", p.dd.as_str(), ".md"));
    r
}

/// A pattern names a whole date: the year, a month and a day token, or the
/// composite date token.
pub open spec fn pattern_names_date(p: Seq<char>, ph: DatePlaceholders) -> bool {
    (contains(p, ph.yyyy@) && (contains(p, ph.mm@) || contains(p, ph.m@)) && (contains(
        p,
        ph.dd@,
    ) || contains(p, ph.d@))) || contains(p, ph.date@)
}

/// The error for a pattern that names no whole date.
pub open spec fn pattern_error_text(prefix: Seq<char>, p: Seq<char>, ph: DatePlaceholders) -> Seq<char> {
    prefix + " '"@ + p + "' , required placeholders: "@ + ph.yyyy@ + "+"@ + ph.mm@ + "|"@ + ph.m@
        + "+"@ + ph.dd@ + "|"@ + ph.d@ + " or "@ + ph.date@
}

/// The first position from `k` on whose pattern names no whole date.
pub open spec fn first_unnamed(ps: Seq<Seq<char>>, ph: DatePlaceholders, k: int) -> Option<int>
    decreases ps.len() - k,
{
    if k < 0 || k >= ps.len() {
        None
    } else if !pattern_names_date(ps[k], ph) {
        Some(k)
    } else {
        first_unnamed(ps, ph, k + 1)
    }
}

fn pattern_error(prefix: &str, pattern: &str, ph: &DatePlaceholders) -> (r: String)
    ensures
        r@ == pattern_error_text(prefix@, pattern@, *ph),
{
    let mut msg = String::from_str(prefix);
    msg.append(" '");
    msg.append(pattern);
    msg.append("' , required placeholders: ");
    msg.append(ph.yyyy.as_str());
    msg.append("+");
    msg.append(ph.mm.as_str());
    msg.append("|");
    msg.append(ph.m.as_str());
    msg.append("+");
    msg.append(ph.dd.as_str());
    msg.append("|");
    msg.append(ph.d.as_str());
    msg.append(" or ");
    msg.append(ph.date.as_str());
    assert(msg@ =~= pattern_error_text(prefix@, pattern@, *ph));
    msg
}

fn names_date_exec(pattern: &str, ph: &DatePlaceholders) -> (r: bool)
    ensures
        r == pattern_names_date(pattern@, *ph),
{
    let has_year = str_contains(pattern, ph.yyyy.as_str());
    let has_month = str_contains(pattern, ph.mm.as_str()) || str_contains(pattern, ph.m.as_str());
    let has_day = str_contains(pattern, ph.dd.as_str()) || str_contains(pattern, ph.d.as_str());
    let has_date = str_contains(pattern, ph.date.as_str());
    (has_year && has_month && has_day) || has_date
}

/// Checks an import pattern before any path is matched against it.
pub fn validate_pattern(pattern: &str, placeholders: &DatePlaceholders) -> (r: Result<(), String>)
    ensures
        r is Ok <==> pattern_names_date(pattern@, *placeholders),
        r matches Err(e) ==> e@ == pattern_error_text("invalid pattern"@, pattern@, *placeholders),
{
    if names_date_exec(pattern, placeholders) {
        Ok(())
    } else {
        Err(pattern_error("invalid pattern", pattern, placeholders))
    }
}

/// The same check for the patterns of the startup import.
pub fn validate_startup_import_pattern(pattern: &str, placeholders: &DatePlaceholders) -> (r:
    Result<(), String>)
    ensures
        r is Ok <==> pattern_names_date(pattern@, *placeholders),
        r matches Err(e) ==> e@ == pattern_error_text("invalid import pattern"@, pattern@, *placeholders),
{
    if names_date_exec(pattern, placeholders) {
        Ok(())
    } else {
        Err(pattern_error("invalid import pattern", pattern, placeholders))
    }
}

} // verus!
