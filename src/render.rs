//! Rendering of output paths and commit messages from a date, with the same
//! placeholder tokens that extraction reads.

use vstd::prelude::*;
use crate::placeholders::DatePlaceholders;
use crate::text::{
    all_digits, all_digits_exec, chars_of, contains, decimal, decimal_str, digits_value,
    replace_all, replace_str, small_value, split_on, split_str, str_contains,
};

verus! {

/// `template` with the six date tokens replaced, in the order yyyy, MM, M,
/// dd, d, date.
pub open spec fn substitute_date(
    template: Seq<char>,
    ph: DatePlaceholders,
    yyyy: Seq<char>,
    mm: Seq<char>,
    m: Seq<char>,
    dd: Seq<char>,
    d: Seq<char>,
    date: Seq<char>,
) -> Seq<char> {
    let s1 = replace_all(template, ph.yyyy@, yyyy);
    let s2 = replace_all(s1, ph.mm@, mm);
    let s3 = replace_all(s2, ph.m@, m);
    let s4 = replace_all(s3, ph.dd@, dd);
    let s5 = replace_all(s4, ph.d@, d);
    replace_all(s5, ph.date@, date)
}

/// `yyyy-MM-dd`: four digits, two digits, two digits.
pub open spec fn date_shape(parts: Seq<Seq<char>>) -> bool {
    &&& parts.len() == 3
    &&& parts[0].len() == 4 && all_digits(parts[0])
    &&& parts[1].len() == 2 && all_digits(parts[1])
    &&& parts[2].len() == 2 && all_digits(parts[2])
}

/// The path rendered for an entry dated `date`, or `None` when the date is
/// not of the form `yyyy-MM-dd`.
pub open spec fn render_path(template: Seq<char>, date: Seq<char>, ph: DatePlaceholders) -> Option<
    Seq<char>,
> {
    let p = split_on(date, '-');
    if !date_shape(p) {
        None
    } else {
        Some(
            substitute_date(
                template,
                ph,
                p[0],
                p[1],
                decimal(digits_value(p[1])),
                p[2],
                decimal(digits_value(p[2])),
                date,
            ),
        )
    }
}

fn replace_token(s: String, token: &String, value: &str) -> (r: String)
    ensures
        r@ == replace_all(s@, token@, value@),
{
    replace_str(s.as_str(), token.as_str(), value)
}

fn substitute_date_exec(
    template: &str,
    ph: &DatePlaceholders,
    yyyy: &str,
    mm: &str,
    m: &str,
    dd: &str,
    d: &str,
    date: &str,
) -> (r: String)
    ensures
        r@ == substitute_date(template@, *ph, yyyy@, mm@, m@, dd@, d@, date@),
{
    let s = replace_str(template, ph.yyyy.as_str(), yyyy);
    let s = replace_token(s, &ph.mm, mm);
    let s = replace_token(s, &ph.m, m);
    let s = replace_token(s, &ph.dd, dd);
    let s = replace_token(s, &ph.d, d);
    replace_token(s, &ph.date, date)
}

/// Renders an output path for an entry dated `yyyy-MM-dd`: the date tokens
/// of `template` are replaced by the date's parts (`M` and `d` without a
/// leading zero).
pub fn resolve_output_path_template(
    template: &str,
    date: &str,
    placeholders: &DatePlaceholders,
) -> (r: Result<String, String>)
    ensures
        match render_path(template@, date@, *placeholders) {
            Some(p) => r matches Ok(x) && x@ == p,
            None => r matches Err(e) && e@ == "invalid journal date: "@ + date@,
        },
{
    let parts = split_str(date, '-');
    let mut bad = String::from_str("invalid journal date: ");
    bad.append(date);
    if parts.len() != 3 {
        return Err(bad);
    }
    let y = chars_of(parts[0].as_str());
    let mm = chars_of(parts[1].as_str());
    let dd = chars_of(parts[2].as_str());
    if !(y.len() == 4 && mm.len() == 2 && dd.len() == 2 && all_digits_exec(&y) && all_digits_exec(
        &mm,
    ) && all_digits_exec(&dd)) {
        return Err(bad);
    }
    let m = decimal_str(small_value(&mm) as u64);
    let d = decimal_str(small_value(&dd) as u64);
    Ok(
        substitute_date_exec(
            template,
            placeholders,
            parts[0].as_str(),
            parts[1].as_str(),
            m.as_str(),
            parts[2].as_str(),
            d.as_str(),
            date,
        ),
    )
}

/// Whether `path` holds any of the six date tokens.
pub open spec fn has_date_token(path: Seq<char>, ph: DatePlaceholders) -> bool {
    exists|k: int| 0 <= k < 6 && contains(path, #[trigger] ph.tokens()[k])
}

pub fn contains_date_placeholder(path: &str, placeholders: &DatePlaceholders) -> (r: bool)
    ensures
        r == has_date_token(path@, *placeholders),
{
    let ph = placeholders;
    let r = str_contains(path, ph.yyyy.as_str()) || str_contains(path, ph.mm.as_str())
        || str_contains(path, ph.m.as_str()) || str_contains(path, ph.dd.as_str())
        || str_contains(path, ph.d.as_str()) || str_contains(path, ph.date.as_str());
    proof {
        let ts = ph.tokens();
        if r {
            if contains(path@, ts[0]) {
            } else if contains(path@, ts[1]) {
            } else if contains(path@, ts[2]) {
            } else if contains(path@, ts[3]) {
            } else if contains(path@, ts[4]) {
            } else {
                assert(contains(path@, ts[5]));
            }
        } else {
            assert forall|k: int| 0 <= k < 6 implies !contains(path@, #[trigger] ts[k]) by {
                if k == 0 {
                } else if k == 1 {
                } else if k == 2 {
                } else if k == 3 {
                } else if k == 4 {
                } else {
                }
            }
        }
    }
    r
}

pub open spec fn sat_sub(a: int, b: int) -> int {
    if a >= b {
        a - b
    } else {
        0
    }
}

/// Year, month and day of the proleptic Gregorian calendar for a count of
/// days since 1970-01-01 (the civil-from-days algorithm).
pub open spec fn civil_from_days(days: nat) -> (int, int, int) {
    let z: int = days as int + 719468;
    let era: int = z / 146097;
    let doe: int = z % 146097;
    let yoe: int = (doe - doe / 1460 + doe / 36524 - doe / 146096) / 365;
    let y: int = yoe + era * 400;
    let doy: int = sat_sub(doe, 365 * yoe + yoe / 4 - yoe / 100);
    let mp: int = (5 * doy + 2) / 153;
    let d = sat_sub(doy + 1, (153 * mp + 2) / 5);
    let m = if mp < 10 {
        mp + 3
    } else {
        mp - 9
    };
    let year = if m <= 2 {
        y + 1
    } else {
        y
    };
    (year, m, d)
}

/// At least two digits, as `{:02}` writes a number.
pub open spec fn pad2(n: nat) -> Seq<char> {
    if n < 10 {
        seq!['0'] + decimal(n)
    } else {
        decimal(n)
    }
}

/// The six date values for the day that holds the instant `secs` (seconds
/// since 1970-01-01 UTC): yyyy, MM, dd, M, d and yyyy-MM-dd.
pub open spec fn date_tokens_at(secs: nat) -> Seq<Seq<char>> {
    let c = civil_from_days(secs / 86400);
    let yyyy = decimal(c.0 as nat);
    let mm = pad2(c.1 as nat);
    let dd = pad2(c.2 as nat);
    seq![yyyy, mm, dd, decimal(c.1 as nat), decimal(c.2 as nat), yyyy + seq!['-'] + mm + seq!['-'] + dd]
}

fn pad2_str(n: u64) -> (r: String)
    ensures
        r@ == pad2(n as nat),
{
    if n < 10 {
        let mut r = String::from_str("0");
        r.append(decimal_str(n).as_str());
        proof {
            reveal_strlit("0");
        }
        assert(r@ =~= pad2(n as nat));
        r
    } else {
        decimal_str(n)
    }
}

fn civil_exec(days: u64) -> (r: (u64, u64, u64))
    requires
        days <= 0xFFFF_FFFF_FFFF,
    ensures
        r.0 as int == civil_from_days(days as nat).0,
        r.1 as int == civil_from_days(days as nat).1,
        r.2 as int == civil_from_days(days as nat).2,
{
    let z = days + 719468;
    let era = z / 146097;
    let doe = z % 146097;
    assert(doe / 1460 <= doe) by (nonlinear_arith)
        requires
            doe >= 0,
    ;
    assert(doe / 146096 <= doe / 36524) by (nonlinear_arith)
        requires
            doe >= 0,
    ;
    let t = doe - doe / 1460 + doe / 36524 - doe / 146096;
    assert(t <= 146100);
    let yoe = t / 365;
    assert(yoe <= 401);
    assert(era <= z);
    assert(era * 400 <= 0xFFFF_FFFF_FFFF * 400 + 719468 * 400) by (nonlinear_arith)
        requires
            era <= z,
            z <= 0xFFFF_FFFF_FFFF + 719468,
    ;
    let y = yoe + era * 400;
    let sub = 365 * yoe + yoe / 4 - yoe / 100;
    let doy = if doe >= sub {
        doe - sub
    } else {
        0
    };
    let mp = (5 * doy + 2) / 153;
    let dsub = (153 * mp + 2) / 5;
    let d = if doy + 1 >= dsub {
        doy + 1 - dsub
    } else {
        0
    };
    let m = if mp < 10 {
        mp + 3
    } else {
        mp - 9
    };
    let year = if m <= 2 {
        y + 1
    } else {
        y
    };
    (year, m, d)
}

/// The six date values for the instant `secs`: yyyy, MM, dd, M, d, yyyy-MM-dd.
pub fn now_date_tokens(secs: u64) -> (r: (String, String, String, String, String, String))
    ensures
        seq![r.0@, r.1@, r.2@, r.3@, r.4@, r.5@] == date_tokens_at(secs as nat),
{
    let days = secs / 86400;
    assert(days <= 0xFFFF_FFFF_FFFF);
    let (year, m, d) = civil_exec(days);
    let yyyy = decimal_str(year);
    let mm = pad2_str(m);
    let dd = pad2_str(d);
    let m_plain = decimal_str(m);
    let d_plain = decimal_str(d);
    let mut date = String::from_str(yyyy.as_str());
    date.append("-");
    date.append(mm.as_str());
    date.append("-");
    date.append(dd.as_str());
    proof {
        reveal_strlit("-");
    }
    assert(date@ =~= yyyy@ + seq!['-'] + mm@ + seq!['-'] + dd@);
    assert(days as nat == (secs as nat) / 86400);
    let r = (yyyy, mm, dd, m_plain, d_plain, date);
    assert(seq![r.0@, r.1@, r.2@, r.3@, r.4@, r.5@] =~= date_tokens_at(secs as nat));
    r
}

/// The commit message: the time stamp and count tokens, then the date tokens
/// of the day that holds `now_secs`.
pub open spec fn commit_message(
    template: Seq<char>,
    count: nat,
    now_secs: nat,
    ph: DatePlaceholders,
) -> Seq<char> {
    let t = date_tokens_at(now_secs);
    let s1 = replace_all(template, ph.timestamp@, decimal(now_secs));
    let s2 = replace_all(s1, ph.count@, decimal(count));
    substitute_date(s2, ph, t[0], t[1], t[3], t[2], t[4], t[5])
}

/// Renders a commit message for `count` entries at the instant `now_secs`
/// (seconds since 1970-01-01 UTC).
pub fn resolve_commit_message(
    template: &str,
    count: usize,
    placeholders: &DatePlaceholders,
    now_secs: u64,
) -> (r: String)
    ensures
        r@ == commit_message(template@, count as nat, now_secs as nat, *placeholders),
{
    let (yyyy, mm, dd, m, d, date) = now_date_tokens(now_secs);
    let ts = decimal_str(now_secs);
    let c = decimal_str(count as u64);
    let s = replace_str(template, placeholders.timestamp.as_str(), ts.as_str());
    let s = replace_token(s, &placeholders.count, c.as_str());
    substitute_date_exec(
        s.as_str(),
        placeholders,
        yyyy.as_str(),
        mm.as_str(),
        m.as_str(),
        dd.as_str(),
        d.as_str(),
        date.as_str(),
    )
}

} // verus!
