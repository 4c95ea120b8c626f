//! Extraction of a calendar date from a file path by a pattern of
//! placeholder tokens, such as `{yyyy}/{MM}-{dd}.md`.

use vstd::prelude::*;
use crate::placeholders::{DatePlaceholders, key_of};
use crate::text::{
    all_digits, all_digits_exec, chars_of, copy_range, decimal, decimal_str, digit_char, digit_str,
    digits_value, find_char, find_from, lemma_find_from_bounds, push_char, seq_eq, small_value,
    split_chars, split_on, split_str, string_of,
};

verus! {

/// One of the three parts of a date.
#[derive(Debug, Clone, Copy, PartialEq, Eq, Structural)]
pub enum DateField {
    Year,
    Month,
    Day,
}

/// Why a path does not match a pattern.
#[derive(Debug, Clone, Copy, PartialEq, Eq, Structural)]
pub enum MatchFailure {
    /// The path has fewer segments than the pattern.
    TooShort,
    /// A `{` in the pattern has no matching `}`.
    UnclosedPlaceholder,
    /// The literal character after a placeholder is not found in the path.
    MissingLiteral,
    /// A literal character of the pattern differs from the path.
    LiteralMismatch,
    /// The path segment is longer than what the pattern consumed.
    LengthMismatch,
    /// A captured value holds a character that is not an ASCII digit.
    NonDigit,
    /// The year is not four digits.
    YearLength,
    MonthRange,
    DayRange,
    /// The composite date value is in none of the accepted forms.
    UnsupportedDate,
    /// Two placeholders gave different values for the same part.
    Conflict(DateField),
    /// The composite date disagrees with a part captured elsewhere.
    DateConflict,
    /// The placeholder is not a date token of the schema.
    UnsupportedPlaceholder,
    /// No placeholder of the pattern gave this part.
    Missing(DateField),
    InvalidDateParts,
}

/// A failure with a human-readable reason.
#[derive(Debug)]
pub struct MatchError {
    pub kind: MatchFailure,
    pub reason: String,
}

/// Year, month and day captured so far.
pub type Slots = (Option<Seq<char>>, Option<Seq<char>>, Option<Seq<char>>);

pub open spec fn opt_view(o: Option<String>) -> Option<Seq<char>> {
    match o {
        Some(s) => Some(s@),
        None => None,
    }
}

/// The year, month and day slots filled while a path is matched.
#[derive(Debug)]
pub struct DateSlots {
    pub year: Option<String>,
    pub month: Option<String>,
    pub day: Option<String>,
}

impl DateSlots {
    pub open spec fn slots(&self) -> Slots {
        (opt_view(self.year), opt_view(self.month), opt_view(self.day))
    }
}

pub open spec fn two_digits(n: nat) -> Seq<char> {
    seq![digit_char(n / 10), digit_char(n % 10)]
}

/// One or two digits with a value in `lo..=hi`, written with two digits.
pub open spec fn norm_md(v: Seq<char>, lo: nat, hi: nat) -> Option<Seq<char>> {
    if v.len() == 0 || v.len() > 2 || !all_digits(v) {
        None
    } else if digits_value(v) < lo || digits_value(v) > hi {
        None
    } else {
        Some(two_digits(digits_value(v)))
    }
}

/// A four-digit year, a month in 1..=12 and a day in 1..=31, each part one
/// or two digits.
pub open spec fn parts_ok(y: Seq<char>, m: Seq<char>, d: Seq<char>) -> bool {
    &&& y.len() == 4 && all_digits(y)
    &&& 1 <= m.len() <= 2 && all_digits(m) && 1 <= digits_value(m) <= 12
    &&& 1 <= d.len() <= 2 && all_digits(d) && 1 <= digits_value(d) <= 31
}

pub type DateParts = (Seq<char>, Seq<char>, Seq<char>);

/// `Y<sep>M<sep>D`, with month and day normalised to two digits.
pub open spec fn sep_date(v: Seq<char>, sep: char) -> Option<DateParts> {
    let parts = split_on(v, sep);
    if parts.len() != 3 {
        None
    } else {
        let y = parts[0];
        match (norm_md(parts[1], 1, 12), norm_md(parts[2], 1, 31)) {
            (Some(m), Some(d)) => if y.len() == 4 && all_digits(y) && parts_ok(y, m, d) {
                Some((y, m, d))
            } else {
                None
            },
            _ => None,
        }
    }
}

/// The composite date value: `yyyymmdd`, or `Y-M-D` with `-`, `_` or `.`.
pub open spec fn parse_date(v: Seq<char>) -> Option<DateParts> {
    if v.len() == 8 && all_digits(v) {
        let y = v.subrange(0, 4);
        let m = v.subrange(4, 6);
        let d = v.subrange(6, 8);
        if parts_ok(y, m, d) {
            Some((y, m, d))
        } else {
            None
        }
    } else if sep_date(v, '-') is Some {
        sep_date(v, '-')
    } else if sep_date(v, '_') is Some {
        sep_date(v, '_')
    } else {
        sep_date(v, '.')
    }
}

/// Fills an empty slot, or checks a filled one; `None` on disagreement.
pub open spec fn merge(slot: Option<Seq<char>>, v: Seq<char>) -> Option<Option<Seq<char>>> {
    match slot {
        Some(e) => if e == v {
            Some(Some(e))
        } else {
            None
        },
        None => Some(Some(v)),
    }
}

/// The effect of one captured value `val` for the placeholder named `key`.
#[verifier::opaque]
pub open spec fn assign(key: Seq<char>, val: Seq<char>, ph: DatePlaceholders, s: Slots) -> Result<
    Slots,
    MatchFailure,
> {
    if !all_digits(val) {
        Err(MatchFailure::NonDigit)
    } else if key == key_of(ph.yyyy@) {
        if val.len() != 4 {
            Err(MatchFailure::YearLength)
        } else {
            match merge(s.0, val) {
                Some(y) => Ok((y, s.1, s.2)),
                None => Err(MatchFailure::Conflict(DateField::Year)),
            }
        }
    } else if key == key_of(ph.mm@) || key == key_of(ph.m@) {
        match norm_md(val, 1, 12) {
            None => Err(MatchFailure::MonthRange),
            Some(v) => match merge(s.1, v) {
                Some(m) => Ok((s.0, m, s.2)),
                None => Err(MatchFailure::Conflict(DateField::Month)),
            },
        }
    } else if key == key_of(ph.dd@) || key == key_of(ph.d@) {
        match norm_md(val, 1, 31) {
            None => Err(MatchFailure::DayRange),
            Some(v) => match merge(s.2, v) {
                Some(d) => Ok((s.0, s.1, d)),
                None => Err(MatchFailure::Conflict(DateField::Day)),
            },
        }
    } else if key == key_of(ph.date@) {
        match parse_date(val) {
            None => Err(MatchFailure::UnsupportedDate),
            Some(p) => match (merge(s.0, p.0), merge(s.1, p.1), merge(s.2, p.2)) {
                (Some(y), Some(m), Some(d)) => Ok((y, m, d)),
                _ => Err(MatchFailure::DateConflict),
            },
        }
    } else {
        Err(MatchFailure::UnsupportedPlaceholder)
    }
}

/// Matches the segment `a` from position `j` against the template segment
/// `t` from position `i`. Literal characters must be equal; a placeholder
/// takes the characters up to the first occurrence of the literal that
/// follows it in the template, or the rest of the segment.
pub open spec fn capture(
    t: Seq<char>,
    a: Seq<char>,
    i: int,
    j: int,
    ph: DatePlaceholders,
    s: Slots,
) -> Result<Slots, MatchFailure>
    decreases t.len() - i,
{
    if i >= t.len() {
        if j == a.len() {
            Ok(s)
        } else {
            Err(MatchFailure::LengthMismatch)
        }
    } else if t[i] == '{' {
        match find_from(t, '}', i) {
            None => Err(MatchFailure::UnclosedPlaceholder),
            Some(end) => if end < i || end >= t.len() {
                Err(MatchFailure::UnclosedPlaceholder)
            } else {
                let ve = if end + 1 < t.len() {
                    find_from(a, t[end + 1], j)
                } else {
                    Some(a.len() as int)
                };
                match ve {
                    None => Err(MatchFailure::MissingLiteral),
                    Some(ve) => match assign(t.subrange(i + 1, end), a.subrange(j, ve), ph, s) {
                        Err(e) => Err(e),
                        Ok(s2) => capture(t, a, end + 1, ve, ph, s2),
                    },
                }
            },
        }
    } else if 0 <= j < a.len() && t[i] == a[j] {
        capture(t, a, i + 1, j + 1, ph, s)
    } else {
        Err(MatchFailure::LiteralMismatch)
    }
}

/// Captures pattern segments `k..` against the path segments aligned from `start`.
pub open spec fn capture_segments(
    ps: Seq<Seq<char>>,
    ts: Seq<Seq<char>>,
    start: int,
    k: int,
    ph: DatePlaceholders,
    s: Slots,
) -> Result<Slots, MatchFailure>
    decreases ts.len() - k,
{
    if k >= ts.len() {
        Ok(s)
    } else {
        match capture(ts[k], ps[start + k], 0, 0, ph, s) {
            Err(e) => Err(e),
            Ok(s2) => capture_segments(ps, ts, start, k + 1, ph, s2),
        }
    }
}

pub open spec fn empty_slots() -> Slots {
    (None, None, None)
}

/// `yyyy-mm-dd`.
pub open spec fn date_text(y: Seq<char>, m: Seq<char>, d: Seq<char>) -> Seq<char> {
    y + seq!['-'] + m + seq!['-'] + d
}

/// The outcome of matching `path` against one pattern: the trailing segments
/// of the path are aligned with the pattern's segments.
pub open spec fn match_pattern(path: Seq<char>, pattern: Seq<char>, ph: DatePlaceholders) -> Result<
    Seq<char>,
    MatchFailure,
> {
    let ps = split_on(path, '/');
    let ts = split_on(pattern, '/');
    if ps.len() < ts.len() {
        Err(MatchFailure::TooShort)
    } else {
        match capture_segments(ps, ts, ps.len() - ts.len(), 0, ph, empty_slots()) {
            Err(e) => Err(e),
            Ok(s) => match s {
                (Some(y), Some(m), Some(d)) => if parts_ok(y, m, d) {
                    Ok(date_text(y, m, d))
                } else {
                    Err(MatchFailure::InvalidDateParts)
                },
                (None, _, _) => Err(MatchFailure::Missing(DateField::Year)),
                (Some(_), None, _) => Err(MatchFailure::Missing(DateField::Month)),
                (Some(_), Some(_), None) => Err(MatchFailure::Missing(DateField::Day)),
            },
        }
    }
}

pub open spec fn views(v: Seq<String>) -> Seq<Seq<char>> {
    v.map_values(|s: String| s@)
}

/// The date given by the first pattern that matches, in the order given.
pub open spec fn extract(path: Seq<char>, patterns: Seq<Seq<char>>, ph: DatePlaceholders) -> Option<
    Seq<char>,
>
    decreases patterns.len(),
{
    if patterns.len() == 0 {
        None
    } else {
        match match_pattern(path, patterns[0], ph) {
            Ok(d) => Some(d),
            Err(_) => extract(path, patterns.drop_first(), ph),
        }
    }
}

fn fail(kind: MatchFailure, reason: String) -> (r: MatchError)
    ensures
        r.kind == kind,
{
    MatchError { kind, reason }
}

fn two_digit_str(n: u32) -> (r: String)
    requires
        n < 100,
    ensures
        r@ == two_digits(n as nat),
{
    let mut r = digit_str((n / 10) as u64);
    let d = digit_str((n % 10) as u64);
    r.append(d.as_str());
    assert(r@ =~= two_digits(n as nat));
    r
}

/// A month (1..=12) or day (1..=31) of one or two digits, padded to two.
pub fn normalize_month_or_day(v: &str, min: u32, max: u32) -> (r: Option<String>)
    ensures
        opt_view(r) == norm_md(v@, min as nat, max as nat),
{
    let s = chars_of(v);
    if s.len() == 0 || s.len() > 2 || !all_digits_exec(&s) {
        return None;
    }
    let n = small_value(&s);
    assert(n < 100) by {
        reveal_with_fuel(crate::text::pow10, 3);
    }
    if n < min || n > max {
        return None;
    }
    Some(two_digit_str(n))
}

fn parts_ok_exec(y: &[char], m: &[char], d: &[char]) -> (r: bool)
    ensures
        r == parts_ok(y@, m@, d@),
{
    if !(y.len() == 4 && all_digits_exec(y)) {
        return false;
    }
    if !(1 <= m.len() && m.len() <= 2 && all_digits_exec(m)) {
        return false;
    }
    if !(1 <= d.len() && d.len() <= 2 && all_digits_exec(d)) {
        return false;
    }
    let mv = small_value(m);
    let dv = small_value(d);
    1 <= mv && mv <= 12 && 1 <= dv && dv <= 31
}

/// Whether the three strings form a year, month and day (see `parts_ok`).
pub fn valid_date_parts(yyyy: &str, mm: &str, dd: &str) -> (r: bool)
    ensures
        r == parts_ok(yyyy@, mm@, dd@),
{
    parts_ok_exec(&chars_of(yyyy), &chars_of(mm), &chars_of(dd))
}

fn sep_date_exec(s: &[char], sep: char) -> (r: Option<(String, String, String)>)
    ensures
        match sep_date(s@, sep) {
            Some(p) => r matches Some(x) && x.0@ == p.0 && x.1@ == p.1 && x.2@ == p.2,
            None => r is None,
        },
{
    let parts = split_chars(s, sep);
    if parts.len() != 3 {
        return None;
    }
    let y = chars_of(parts[0].as_str());
    let nm = normalize_month_or_day(parts[1].as_str(), 1, 12);
    let nd = normalize_month_or_day(parts[2].as_str(), 1, 31);
    match (nm, nd) {
        (Some(mm), Some(dd)) => {
            if y.len() == 4 && all_digits_exec(&y) && parts_ok_exec(
                &y,
                &chars_of(mm.as_str()),
                &chars_of(dd.as_str()),
            ) {
                Some((string_of(&y), mm, dd))
            } else {
                None
            }
        },
        _ => None,
    }
}

/// Reads a composite date value: `yyyymmdd`, or year, month and day joined by
/// `-`, `_` or `.`; month and day come back with two digits.
pub fn parse_date_value(v: &str) -> (r: Option<(String, String, String)>)
    ensures
        match parse_date(v@) {
            Some(p) => r matches Some(x) && x.0@ == p.0 && x.1@ == p.1 && x.2@ == p.2,
            None => r is None,
        },
{
    let s = chars_of(v);
    if s.len() == 8 && all_digits_exec(&s) {
        let y = copy_range(&s, 0, 4);
        let m = copy_range(&s, 4, 6);
        let d = copy_range(&s, 6, 8);
        if parts_ok_exec(&y, &m, &d) {
            return Some((string_of(&y), string_of(&m), string_of(&d)));
        }
        return None;
    }
    let a = sep_date_exec(&s, '-');
    if a.is_some() {
        return a;
    }
    let b = sep_date_exec(&s, '_');
    if b.is_some() {
        return b;
    }
    sep_date_exec(&s, '.')
}

/// Fills an empty slot with `value`, or reports whether a filled one agrees.
pub fn merge_or_check(slot: &mut Option<String>, value: String) -> (r: bool)
    ensures
        match merge(opt_view(*old(slot)), value@) {
            Some(n) => r && opt_view(*final(slot)) == n,
            None => !r && *final(slot) == *old(slot),
        },
{
    match slot {
        Some(existing) => *existing == value,
        None => {
            *slot = Some(value);
            true
        },
    }
}

/// Whether a value fits a slot: the slot is empty or holds the same value.
fn agrees(slot: &Option<String>, value: &String) -> (r: bool)
    ensures
        r == (merge(opt_view(*slot), value@) is Some),
{
    match slot {
        Some(existing) => *existing == *value,
        None => true,
    }
}

/// A copy of the slots.
fn copy_slots(s: &DateSlots) -> (r: DateSlots)
    ensures
        r.slots() == s.slots(),
{
    let year = match &s.year {
        Some(v) => Some(String::from_str(v.as_str())),
        None => None,
    };
    let month = match &s.month {
        Some(v) => Some(String::from_str(v.as_str())),
        None => None,
    };
    let day = match &s.day {
        Some(v) => Some(String::from_str(v.as_str())),
        None => None,
    };
    DateSlots { year, month, day }
}

fn is_key(key: &[char], token: &str) -> (r: bool)
    requires
        token@.len() >= 2,
    ensures
        r == (key@ == key_of(token@)),
{
    let t = chars_of(token);
    let k = copy_range(&t, 1, t.len() - 1);
    seq_eq(key, &k)
}

fn simple_reason(s: &str) -> (r: String) {
    String::from_str(s)
}

/// Records the value captured for the placeholder named `key`.
pub fn assign_placeholder(
    key: &[char],
    val: &[char],
    placeholders: &DatePlaceholders,
    slots: &mut DateSlots,
) -> (r: Result<(), MatchError>)
    requires
        placeholders.wf(),
    ensures
        match assign(key@, val@, *placeholders, old(slots).slots()) {
            Ok(s) => r is Ok && final(slots).slots() == s,
            Err(e) => r matches Err(x) && x.kind == e && final(slots).slots() == old(slots).slots(),
        },
{
    let ph = placeholders;
    proof {
        reveal(assign);
        assert(ph.tokens()[0] == ph.yyyy@);
        assert(ph.tokens()[1] == ph.mm@);
        assert(ph.tokens()[2] == ph.m@);
        assert(ph.tokens()[3] == ph.dd@);
        assert(ph.tokens()[4] == ph.d@);
        assert(ph.tokens()[5] == ph.date@);
    }
    if !all_digits_exec(val) {
        let mut msg = simple_reason("value '");
        msg.append(string_of(val).as_str());
        msg.append("' contains non-digit");
        return Err(fail(MatchFailure::NonDigit, msg));
    }
    let value = string_of(val);
    if is_key(key, ph.yyyy.as_str()) {
        if val.len() != 4 {
            return Err(fail(MatchFailure::YearLength, simple_reason("yyyy must be 4 digits")));
        }
        if merge_or_check(&mut slots.year, value) {
            return Ok(());
        }
        return Err(
            fail(
                MatchFailure::Conflict(DateField::Year),
                simple_reason("year conflict with another placeholder"),
            ),
        );
    }
    if is_key(key, ph.mm.as_str()) || is_key(key, ph.m.as_str()) {
        match normalize_month_or_day(value.as_str(), 1, 12) {
            None => {
                return Err(
                    fail(MatchFailure::MonthRange, simple_reason("month out of range (1..12)")),
                );
            },
            Some(v) => {
                if merge_or_check(&mut slots.month, v) {
                    return Ok(());
                }
                return Err(
                    fail(
                        MatchFailure::Conflict(DateField::Month),
                        simple_reason("month conflict with another placeholder"),
                    ),
                );
            },
        }
    }
    if is_key(key, ph.dd.as_str()) || is_key(key, ph.d.as_str()) {
        match normalize_month_or_day(value.as_str(), 1, 31) {
            None => {
                return Err(fail(MatchFailure::DayRange, simple_reason("day out of range (1..31)")));
            },
            Some(v) => {
                if merge_or_check(&mut slots.day, v) {
                    return Ok(());
                }
                return Err(
                    fail(
                        MatchFailure::Conflict(DateField::Day),
                        simple_reason("day conflict with another placeholder"),
                    ),
                );
            },
        }
    }
    if is_key(key, ph.date.as_str()) {
        match parse_date_value(value.as_str()) {
            None => {
                return Err(
                    fail(MatchFailure::UnsupportedDate, simple_reason("unsupported date format")),
                );
            },
            Some(p) => {
                let (py, pm, pd) = p;
                if !(agrees(&slots.year, &py) && agrees(&slots.month, &pm) && agrees(
                    &slots.day,
                    &pd,
                )) {
                    return Err(
                        fail(
                            MatchFailure::DateConflict,
                            simple_reason("date conflicts with yyyy/MM/dd placeholders"),
                        ),
                    );
                }
                merge_or_check(&mut slots.year, py);
                merge_or_check(&mut slots.month, pm);
                merge_or_check(&mut slots.day, pd);
                return Ok(());
            },
        }
    }
    let mut msg = simple_reason("unsupported placeholder: ");
    msg.append(string_of(key).as_str());
    Err(fail(MatchFailure::UnsupportedPlaceholder, msg))
}

fn with_prefix(prefix: &str, key: &[char], e: MatchError) -> (r: MatchError)
    ensures
        r.kind == e.kind,
{
    let mut msg = String::from_str(prefix);
    msg.append(string_of(key).as_str());
    msg.append("} parse failed: ");
    msg.append(e.reason.as_str());
    MatchError { kind: e.kind, reason: msg }
}

/// One placeholder of a template segment: `t[i]` is `{`. Gives the positions
/// after the placeholder in the template and in the segment.
fn capture_placeholder(
    t: &Vec<char>,
    a: &Vec<char>,
    i: usize,
    j: usize,
    placeholders: &DatePlaceholders,
    slots: &mut DateSlots,
) -> (r: Result<(usize, usize), MatchError>)
    requires
        placeholders.wf(),
        i < t@.len(),
        j <= a@.len(),
        t@[i as int] == '{',
    ensures
        match r {
            Ok((ni, nj)) => i < ni <= t@.len() && nj <= a@.len() && capture(
                t@,
                a@,
                i as int,
                j as int,
                *placeholders,
                old(slots).slots(),
            ) == capture(t@, a@, ni as int, nj as int, *placeholders, final(slots).slots()),
            Err(e) => capture(t@, a@, i as int, j as int, *placeholders, old(slots).slots())
                == Err::<Slots, MatchFailure>(e.kind),
        },
{
    let tl = t.len();
    proof {
        lemma_find_from_bounds(t@, '}', i as int);
    }
    let end = match find_char(t, '}', i) {
        Some(v) => {
            assert(find_from(t@, '}', i as int) == Some(v as int));
            v
        },
        None => {
            let mut msg = String::from_str("invalid template component: ");
            msg.append(string_of(t).as_str());
            return Err(fail(MatchFailure::UnclosedPlaceholder, msg));
        },
    };
    let key = copy_range(t, i + 1, end);
    let next = end + 1;
    let ve: usize;
    if next < t.len() {
        let ch = t[next];
        proof {
            lemma_find_from_bounds(a@, ch, j as int);
        }
        match find_char(a, ch, j) {
            Some(p) => {
                assert(find_from(a@, ch, j as int) == Some(p as int));
                ve = p;
            },
            None => {
                let mut msg = String::from_str("missing literal '");
                push_char(&mut msg, ch);
                msg.append("' after placeholder {");
                msg.append(string_of(&key).as_str());
                msg.append("} in '");
                msg.append(string_of(a).as_str());
                msg.append("'");
                return Err(fail(MatchFailure::MissingLiteral, msg));
            },
        }
    } else {
        ve = a.len();
    }
    let val = copy_range(a, j, ve);
    match assign_placeholder(&key, &val, placeholders, slots) {
        Ok(()) => Ok((next, ve)),
        Err(e) => Err(with_prefix("placeholder {", &key, e)),
    }
}

/// Matches one path segment against one template segment, filling `slots`.
pub fn capture_component(
    actual: &str,
    template: &str,
    placeholders: &DatePlaceholders,
    slots: &mut DateSlots,
) -> (r: Result<(), MatchError>)
    requires
        placeholders.wf(),
    ensures
        match capture(template@, actual@, 0, 0, *placeholders, old(slots).slots()) {
            Ok(s) => r is Ok && final(slots).slots() == s,
            Err(e) => r matches Err(x) && x.kind == e && final(slots).slots() == old(slots).slots(),
        },
{
    let mut work = copy_slots(slots);
    let t = chars_of(template);
    let a = chars_of(actual);
    let mut i: usize = 0;
    let mut j: usize = 0;
    while i < t.len()
        invariant
            placeholders.wf(),
            t@ == template@,
            a@ == actual@,
            i <= t@.len(),
            j <= a@.len(),
            slots.slots() == old(slots).slots(),
            capture(t@, a@, 0, 0, *placeholders, old(slots).slots()) == capture(
                t@,
                a@,
                i as int,
                j as int,
                *placeholders,
                work.slots(),
            ),
        decreases t@.len() - i,
    {
        if t[i] == '{' {
            match capture_placeholder(&t, &a, i, j, placeholders, &mut work) {
                Ok((ni, nj)) => {
                    i = ni;
                    j = nj;
                },
                Err(e) => {
                    return Err(e);
                },
            }
        } else {
            if j >= a.len() || t[i] != a[j] {
                let mut msg = String::from_str("literal mismatch at '");
                msg.append(actual);
                msg.append("' expect '");
                push_char(&mut msg, t[i]);
                msg.append("'");
                return Err(fail(MatchFailure::LiteralMismatch, msg));
            }
            i += 1;
            j += 1;
        }
    }
    if j == a.len() {
        *slots = work;
        Ok(())
    } else {
        let mut msg = String::from_str("component length mismatch: '");
        msg.append(actual);
        msg.append("'");
        Err(fail(MatchFailure::LengthMismatch, msg))
    }
}

proof fn lemma_match_pattern_err(
    path: Seq<char>,
    pattern: Seq<char>,
    ph: DatePlaceholders,
    e: MatchFailure,
)
    requires
        split_on(path, '/').len() >= split_on(pattern, '/').len(),
        capture_segments(
            split_on(path, '/'),
            split_on(pattern, '/'),
            split_on(path, '/').len() - split_on(pattern, '/').len(),
            0,
            ph,
            empty_slots(),
        ) == Err::<Slots, MatchFailure>(e),
    ensures
        match_pattern(path, pattern, ph) == Err::<Seq<char>, MatchFailure>(e),
{
}

/// The reason given for a failure to match a path of `np` segments against
/// a pattern of `nt` segments.
pub open spec fn describe(kind: MatchFailure, np: nat, nt: nat) -> Seq<char> {
    match kind {
        MatchFailure::TooShort => "path segment count too short (path="@ + decimal(np) + ", pattern="@
            + decimal(nt) + ")"@,
        MatchFailure::UnclosedPlaceholder => "invalid template component: unclosed placeholder"@,
        MatchFailure::MissingLiteral => "missing literal after placeholder"@,
        MatchFailure::LiteralMismatch => "literal mismatch"@,
        MatchFailure::LengthMismatch => "component length mismatch"@,
        MatchFailure::NonDigit => "value contains non-digit"@,
        MatchFailure::YearLength => "yyyy must be 4 digits"@,
        MatchFailure::MonthRange => "month out of range (1..12)"@,
        MatchFailure::DayRange => "day out of range (1..31)"@,
        MatchFailure::UnsupportedDate => "unsupported date format"@,
        MatchFailure::Conflict(DateField::Year) => "year conflict with another placeholder"@,
        MatchFailure::Conflict(DateField::Month) => "month conflict with another placeholder"@,
        MatchFailure::Conflict(DateField::Day) => "day conflict with another placeholder"@,
        MatchFailure::DateConflict => "date conflicts with yyyy/MM/dd placeholders"@,
        MatchFailure::UnsupportedPlaceholder => "unsupported placeholder"@,
        MatchFailure::Missing(DateField::Year) => "missing yyyy from path"@,
        MatchFailure::Missing(DateField::Month) => "missing month from path"@,
        MatchFailure::Missing(DateField::Day) => "missing day from path"@,
        MatchFailure::InvalidDateParts => "invalid date parts"@,
    }
}

/// A failure with its reason (see `describe`).
fn failure(kind: MatchFailure, np: usize, nt: usize) -> (r: MatchError)
    ensures
        r.kind == kind,
        r.reason@ == describe(kind, np as nat, nt as nat),
{
    let reason = match kind {
        MatchFailure::TooShort => {
            let mut m = String::from_str("path segment count too short (path=");
            m.append(decimal_str(np as u64).as_str());
            m.append(", pattern=");
            m.append(decimal_str(nt as u64).as_str());
            m.append(")");
            m
        },
        MatchFailure::UnclosedPlaceholder => String::from_str(
            "invalid template component: unclosed placeholder",
        ),
        MatchFailure::MissingLiteral => String::from_str("missing literal after placeholder"),
        MatchFailure::LiteralMismatch => String::from_str("literal mismatch"),
        MatchFailure::LengthMismatch => String::from_str("component length mismatch"),
        MatchFailure::NonDigit => String::from_str("value contains non-digit"),
        MatchFailure::YearLength => String::from_str("yyyy must be 4 digits"),
        MatchFailure::MonthRange => String::from_str("month out of range (1..12)"),
        MatchFailure::DayRange => String::from_str("day out of range (1..31)"),
        MatchFailure::UnsupportedDate => String::from_str("unsupported date format"),
        MatchFailure::Conflict(DateField::Year) => String::from_str(
            "year conflict with another placeholder",
        ),
        MatchFailure::Conflict(DateField::Month) => String::from_str(
            "month conflict with another placeholder",
        ),
        MatchFailure::Conflict(DateField::Day) => String::from_str(
            "day conflict with another placeholder",
        ),
        MatchFailure::DateConflict => String::from_str("date conflicts with yyyy/MM/dd placeholders"),
        MatchFailure::UnsupportedPlaceholder => String::from_str("unsupported placeholder"),
        MatchFailure::Missing(DateField::Year) => String::from_str("missing yyyy from path"),
        MatchFailure::Missing(DateField::Month) => String::from_str("missing month from path"),
        MatchFailure::Missing(DateField::Day) => String::from_str("missing day from path"),
        MatchFailure::InvalidDateParts => String::from_str("invalid date parts"),
    };
    MatchError { kind, reason }
}

/// Matches `path` against one pattern, aligned on the path's trailing segments,
/// and gives the date as `yyyy-mm-dd`.
pub fn match_path_with_pattern(path: &str, pattern: &str, placeholders: &DatePlaceholders) -> (r:
    Result<String, MatchError>)
    requires
        placeholders.wf(),
    ensures
        match match_pattern(path@, pattern@, *placeholders) {
            Ok(d) => r matches Ok(x) && x@ == d,
            Err(e) => r matches Err(x) && x.kind == e && x.reason@ == describe(
                e,
                split_on(path@, '/').len(),
                split_on(pattern@, '/').len(),
            ),
        },
{
    let pv = split_str(path, '/');
    let tv = split_str(pattern, '/');
    let ghost ps = split_on(path@, '/');
    let ghost ts = split_on(pattern@, '/');
    if pv.len() < tv.len() {
        return Err(failure(MatchFailure::TooShort, pv.len(), tv.len()));
    }
    let n = pv.len();
    let start = pv.len() - tv.len();
    let mut slots = DateSlots { year: None, month: None, day: None };
    let mut k: usize = 0;
    while k < tv.len()
        invariant
            placeholders.wf(),
            ps == split_on(path@, '/'),
            ts == split_on(pattern@, '/'),
            pv@.len() == ps.len(),
            n == pv@.len(),
            tv@.len() == ts.len(),
            forall|q: int| 0 <= q < pv@.len() ==> #[trigger] pv@[q]@ == ps[q],
            forall|q: int| 0 <= q < tv@.len() ==> #[trigger] tv@[q]@ == ts[q],
            start == pv@.len() - tv@.len(),
            k <= tv@.len(),
            capture_segments(ps, ts, start as int, 0, *placeholders, empty_slots())
                == capture_segments(ps, ts, start as int, k as int, *placeholders, slots.slots()),
        decreases tv@.len() - k,
    {
        assert(start + k < pv@.len());
        let idx = start + k;
        assert(pv@[idx as int]@ == ps[idx as int]);
        assert(tv@[k as int]@ == ts[k as int]);
        let ghost before = slots.slots();
        match capture_component(pv[idx].as_str(), tv[k].as_str(), placeholders, &mut slots) {
            Ok(()) => {},
            Err(e) => {
                assert(capture_segments(ps, ts, start as int, k as int, *placeholders, before)
                    == Err::<Slots, MatchFailure>(e.kind));
                assert(capture_segments(ps, ts, start as int, 0, *placeholders, empty_slots())
                    == Err::<Slots, MatchFailure>(e.kind));
                proof {
                    assert(start as int == ps.len() - ts.len());
                    lemma_match_pattern_err(path@, pattern@, *placeholders, e.kind);
                }
                return Err(failure(e.kind, pv.len(), tv.len()));
            },
        }
        k += 1;
    }
    let y = match slots.year {
        Some(v) => v,
        None => {
            return Err(failure(MatchFailure::Missing(DateField::Year), n, tv.len()));
        },
    };
    let m = match slots.month {
        Some(v) => v,
        None => {
            return Err(failure(MatchFailure::Missing(DateField::Month), n, tv.len()));
        },
    };
    let d = match slots.day {
        Some(v) => v,
        None => {
            return Err(failure(MatchFailure::Missing(DateField::Day), n, tv.len()));
        },
    };
    if !valid_date_parts(y.as_str(), m.as_str(), d.as_str()) {
        return Err(failure(MatchFailure::InvalidDateParts, n, tv.len()));
    }
    Ok(date_string(&y, &m, &d))
}

fn date_string(y: &String, m: &String, d: &String) -> (r: String)
    ensures
        r@ == date_text(y@, m@, d@),
{
    let mut out = String::from_str(y.as_str());
    out.append("-");
    out.append(m.as_str());
    out.append("-");
    out.append(d.as_str());
    proof {
        reveal_strlit("-");
    }
    assert(out@ =~= date_text(y@, m@, d@));
    out
}

/// `[pattern] reason` for each of the first `n` patterns, joined by ` | `.
pub open spec fn reasons_joined(path: Seq<char>, pats: Seq<Seq<char>>, ph: DatePlaceholders, n: int) -> Seq<
    char,
>
    decreases n,
{
    if n <= 0 {
        Seq::empty()
    } else {
        let p = pats[n - 1];
        let item = "["@ + p + "] "@ + match match_pattern(path, p, ph) {
            Err(e) => describe(e, split_on(path, '/').len(), split_on(p, '/').len()),
            Ok(_) => Seq::empty(),
        };
        if n == 1 {
            item
        } else {
            reasons_joined(path, pats, ph, n - 1) + " | "@ + item
        }
    }
}

/// The error when no pattern matches: every pattern's reason, in order.
pub open spec fn failure_report(path: Seq<char>, pats: Seq<Seq<char>>, ph: DatePlaceholders) -> Seq<char> {
    "path not match patterns: "@ + reasons_joined(path, pats, ph, pats.len() as int)
}

/// The date given by the first of `patterns` that matches `path`; otherwise
/// every pattern's reason, in order.
pub fn extract_date_from_path(path: &str, patterns: &[String], placeholders: &DatePlaceholders) -> (r:
    Result<String, String>)
    requires
        placeholders.wf(),
    ensures
        match extract(path@, views(patterns@), *placeholders) {
            Some(d) => r matches Ok(x) && x@ == d,
            None => r matches Err(e) && e@ == failure_report(path@, views(patterns@), *placeholders),
        },
{
    let ghost all = views(patterns@);
    assert(all.subrange(0, all.len() as int) =~= all);
    let mut reasons = String::new();
    let mut k: usize = 0;
    while k < patterns.len()
        invariant
            placeholders.wf(),
            all == views(patterns@),
            k <= patterns@.len(),
            extract(path@, all, *placeholders) == extract(
                path@,
                all.subrange(k as int, all.len() as int),
                *placeholders,
            ),
            reasons@ == reasons_joined(path@, all, *placeholders, k as int),
        decreases patterns@.len() - k,
    {
        let ghost rest = all.subrange(k as int, all.len() as int);
        assert(rest[0] == patterns@[k as int]@);
        assert(rest.drop_first() =~= all.subrange(k + 1, all.len() as int));
        match match_path_with_pattern(path, patterns[k].as_str(), placeholders) {
            Ok(d) => {
                return Ok(d);
            },
            Err(e) => {
                let ghost prev = reasons@;
                if k > 0 {
                    reasons.append(" | ");
                }
                reasons.append("[");
                reasons.append(patterns[k].as_str());
                reasons.append("] ");
                reasons.append(e.reason.as_str());
                proof {
                    let item = "["@ + all[k as int] + "] "@ + e.reason@;
                    if k > 0 {
                        assert(reasons@ =~= prev + " | "@ + item);
                    } else {
                        assert(reasons@ =~= item);
                    }
                }
            },
        }
        k += 1;
    }
    let mut msg = String::from_str("path not match patterns: ");
    msg.append(reasons.as_str());
    assert(all.subrange(patterns@.len() as int, all.len() as int) =~= Seq::<Seq<char>>::empty());
    Err(msg)
}

/// A month token (`MM` or `M`) whose value disagrees with a month already
/// captured fails with a month conflict; it never overrides the first value.
pub proof fn lemma_month_conflict(
    key: Seq<char>,
    val: Seq<char>,
    ph: DatePlaceholders,
    s: Slots,
    earlier: Seq<char>,
)
    requires
        ph.wf(),
        key == key_of(ph.mm@) || key == key_of(ph.m@),
        all_digits(val),
        norm_md(val, 1, 12) is Some,
        s.1 == Some(earlier),
        norm_md(val, 1, 12) != Some(earlier),
    ensures
        assign(key, val, ph, s) == Err::<Slots, MatchFailure>(MatchFailure::Conflict(DateField::Month)),
{
    reveal(assign);
    crate::placeholders::lemma_wf_keys_distinct(ph);
    assert(ph.tokens()[0] == ph.yyyy@ && ph.tokens()[1] == ph.mm@ && ph.tokens()[2] == ph.m@);
}

/// A day token (`dd` or `d`) whose value disagrees with a day already
/// captured fails with a day conflict.
pub proof fn lemma_day_conflict(
    key: Seq<char>,
    val: Seq<char>,
    ph: DatePlaceholders,
    s: Slots,
    earlier: Seq<char>,
)
    requires
        ph.wf(),
        key == key_of(ph.dd@) || key == key_of(ph.d@),
        all_digits(val),
        norm_md(val, 1, 31) is Some,
        s.2 == Some(earlier),
        norm_md(val, 1, 31) != Some(earlier),
    ensures
        assign(key, val, ph, s) == Err::<Slots, MatchFailure>(MatchFailure::Conflict(DateField::Day)),
{
    reveal(assign);
    crate::placeholders::lemma_wf_keys_distinct(ph);
    assert(ph.tokens()[0] == ph.yyyy@ && ph.tokens()[1] == ph.mm@ && ph.tokens()[2] == ph.m@);
    assert(ph.tokens()[3] == ph.dd@ && ph.tokens()[4] == ph.d@);
}

} // verus!
