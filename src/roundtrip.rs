//! Laws that tie extraction to the paths it is meant to read: a pattern made
//! of literal characters and the year, month and day tokens, filled with a
//! date, gives that date back.

use vstd::prelude::*;
use crate::matcher::{
    MatchFailure, Slots, assign, capture, capture_segments, date_text, empty_slots, extract, match_pattern,
    norm_md, parts_ok,
};
use crate::placeholders::{DatePlaceholders, key_of, lemma_wf_keys_distinct};
use crate::text::{all_digits, find_from, is_digit, replace_all, split_on};

verus! {

/// One piece of a pattern segment: a literal character or a date token.
pub enum Piece {
    Lit(char),
    Year,
    Month,
    Day,
}

/// The pattern text of the pieces, written with the schema's tokens.
pub open spec fn pattern_text(ps: Seq<Piece>, ph: DatePlaceholders) -> Seq<char>
    decreases ps.len(),
{
    if ps.len() == 0 {
        Seq::empty()
    } else {
        let head = match ps[0] {
            Piece::Lit(c) => seq![c],
            Piece::Year => ph.yyyy@,
            Piece::Month => ph.mm@,
            Piece::Day => ph.dd@,
        };
        head + pattern_text(ps.drop_first(), ph)
    }
}

/// The text of the pieces with the tokens replaced by a date's parts.
pub open spec fn filled_text(ps: Seq<Piece>, y: Seq<char>, m: Seq<char>, d: Seq<char>) -> Seq<char>
    decreases ps.len(),
{
    if ps.len() == 0 {
        Seq::empty()
    } else {
        let head = match ps[0] {
            Piece::Lit(c) => seq![c],
            Piece::Year => y,
            Piece::Month => m,
            Piece::Day => d,
        };
        head + filled_text(ps.drop_first(), y, m, d)
    }
}

/// Literal characters are neither digits, nor braces, nor `/`; a token is
/// followed by a literal character or ends the pattern.
pub open spec fn pieces_ok(ps: Seq<Piece>) -> bool {
    &&& forall|k: int|
        0 <= k < ps.len() ==> match #[trigger] ps[k] {
            Piece::Lit(c) => !is_digit(c) && c != '{' && c != '}' && c != '/',
            _ => true,
        }
    &&& forall|k: int|
        0 <= k < ps.len() - 1 ==> (!(#[trigger] ps[k] is Lit) ==> ps[k + 1] is Lit)
}

/// The key of a token holds no brace and no `/`.
pub open spec fn plain_key(t: Seq<char>) -> bool {
    forall|q: int|
        0 <= q < key_of(t).len() ==> #[trigger] key_of(t)[q] != '{' && key_of(t)[q] != '}'
            && key_of(t)[q] != '/'
}

pub open spec fn has_piece(ps: Seq<Piece>, want: Piece) -> bool {
    exists|k: int| 0 <= k < ps.len() && #[trigger] ps[k] == want
}

/// A date written as `yyyy`, `MM`, `dd`: four digits and two two-digit
/// numbers, a month in 1..=12 and a day in 1..=31.
pub open spec fn padded_date(y: Seq<char>, m: Seq<char>, d: Seq<char>) -> bool {
    &&& y.len() == 4 && all_digits(y)
    &&& m.len() == 2 && norm_md(m, 1, 12) == Some(m)
    &&& d.len() == 2 && norm_md(d, 1, 31) == Some(d)
}

/// The slots after the pieces' tokens have been captured.
pub open spec fn slots_after(ps: Seq<Piece>, s: Slots, y: Seq<char>, m: Seq<char>, d: Seq<char>) -> Slots
    decreases ps.len(),
{
    if ps.len() == 0 {
        s
    } else {
        let s2 = match ps[0] {
            Piece::Lit(_) => s,
            Piece::Year => (Some(y), s.1, s.2),
            Piece::Month => (s.0, Some(m), s.2),
            Piece::Day => (s.0, s.1, Some(d)),
        };
        slots_after(ps.drop_first(), s2, y, m, d)
    }
}

proof fn lemma_find_shift(s: Seq<char>, c: char, i: int, i0: int)
    requires
        0 <= i0 <= i,
        i0 <= s.len(),
    ensures
        find_from(s, c, i) == match find_from(s.subrange(i0, s.len() as int), c, i - i0) {
            Some(k) => Some(k + i0),
            None => None::<int>,
        },
    decreases s.len() - i,
{
    if i < s.len() {
        assert(s.subrange(i0, s.len() as int)[i - i0] == s[i]);
        if s[i] != c {
            lemma_find_shift(s, c, i + 1, i0);
        }
    }
}

/// Matching depends only on what is left of the template and the segment.
proof fn lemma_capture_shift(
    t: Seq<char>,
    a: Seq<char>,
    i: int,
    j: int,
    i0: int,
    j0: int,
    ph: DatePlaceholders,
    s: Slots,
)
    requires
        0 <= i0 <= i,
        i0 <= t.len(),
        0 <= j0 <= j <= a.len(),
    ensures
        capture(t, a, i, j, ph, s) == capture(
            t.subrange(i0, t.len() as int),
            a.subrange(j0, a.len() as int),
            i - i0,
            j - j0,
            ph,
            s,
        ),
    decreases t.len() - i,
{
    let t2 = t.subrange(i0, t.len() as int);
    let a2 = a.subrange(j0, a.len() as int);
    if i >= t.len() {
    } else if t[i] == '{' {
        assert(t2[i - i0] == '{');
        lemma_find_shift(t, '}', i, i0);
        crate::text::lemma_find_from_bounds(t, '}', i);
        match find_from(t, '}', i) {
            None => {},
            Some(end) => {
                if end < i || end >= t.len() {
                } else {
                    assert(t.subrange(i + 1, end) =~= t2.subrange(i + 1 - i0, end - i0));
                    if end + 1 < t.len() {
                        lemma_find_shift(a, t[end + 1], j, j0);
                        crate::text::lemma_find_from_bounds(a, t[end + 1], j);
                        assert(t2[end + 1 - i0] == t[end + 1]);
                    }
                    let ve = if end + 1 < t.len() {
                        find_from(a, t[end + 1], j)
                    } else {
                        Some(a.len() as int)
                    };
                    match ve {
                        None => {},
                        Some(v) => {
                            assert(a.subrange(j, v) =~= a2.subrange(j - j0, v - j0));
                            match assign(t.subrange(i + 1, end), a.subrange(j, v), ph, s) {
                                Err(_) => {},
                                Ok(s2) => {
                                    lemma_capture_shift(t, a, end + 1, v, i0, j0, ph, s2);
                                },
                            }
                        },
                    }
                }
            },
        }
    } else {
        assert(t2[i - i0] == t[i]);
        if j < a.len() {
            assert(a2[j - j0] == a[j]);
        }
        if 0 <= j < a.len() && t[i] == a[j] {
            lemma_capture_shift(t, a, i + 1, j + 1, i0, j0, ph, s);
        }
    }
}

proof fn lemma_find_first(s: Seq<char>, c: char, i: int, k: int)
    requires
        0 <= i <= k < s.len(),
        s[k] == c,
        forall|q: int| i <= q < k ==> s[q] != c,
    ensures
        find_from(s, c, i) == Some(k),
    decreases k - i,
{
    if i < k {
        lemma_find_first(s, c, i + 1, k);
    }
}

proof fn lemma_text_head(ps: Seq<Piece>, ph: DatePlaceholders, y: Seq<char>, m: Seq<char>, d: Seq<char>)
    requires
        ps.len() > 0,
        ps[0] is Lit,
    ensures
        pattern_text(ps, ph).len() > 0,
        filled_text(ps, y, m, d).len() > 0,
        pattern_text(ps, ph)[0] == filled_text(ps, y, m, d)[0],
        pattern_text(ps, ph)[0] == ps[0]->Lit_0,
{
}

proof fn lemma_filled_no_slash(ps: Seq<Piece>, y: Seq<char>, m: Seq<char>, d: Seq<char>)
    requires
        pieces_ok(ps),
        all_digits(y),
        all_digits(m),
        all_digits(d),
    ensures
        forall|q: int|
            0 <= q < filled_text(ps, y, m, d).len() ==> #[trigger] filled_text(ps, y, m, d)[q]
                != '/',
    decreases ps.len(),
{
    if ps.len() > 0 {
        let rest = ps.drop_first();
        assert forall|k: int| 0 <= k < rest.len() implies match #[trigger] rest[k] {
            Piece::Lit(c) => !is_digit(c) && c != '{' && c != '}' && c != '/',
            _ => true,
        } by {
            assert(rest[k] == ps[k + 1]);
        }
        assert forall|k: int| 0 <= k < rest.len() - 1 implies (!(#[trigger] rest[k] is Lit)
            ==> rest[k + 1] is Lit) by {
            assert(rest[k] == ps[k + 1] && rest[k + 1] == ps[k + 2]);
        }
        lemma_filled_no_slash(rest, y, m, d);
        let head = match ps[0] {
            Piece::Lit(c) => seq![c],
            Piece::Year => y,
            Piece::Month => m,
            Piece::Day => d,
        };
        let f = filled_text(ps, y, m, d);
        assert(f == head + filled_text(rest, y, m, d));
        assert forall|q: int| 0 <= q < f.len() implies #[trigger] f[q] != '/' by {
            if q < head.len() {
                match ps[0] {
                    Piece::Lit(c) => {},
                    Piece::Year => { assert(all_digits(y)); assert(crate::text::is_digit(y[q])); },
                    Piece::Month => { assert(crate::text::is_digit(m[q])); },
                    Piece::Day => { assert(crate::text::is_digit(d[q])); },
                }
            } else {
                assert(f[q] == filled_text(rest, y, m, d)[q - head.len()]);
            }
        }
    }
}

pub open spec fn slots_fit(s: Slots, y: Seq<char>, m: Seq<char>, d: Seq<char>) -> bool {
    &&& (s.0 is None || s.0 == Some(y))
    &&& (s.1 is None || s.1 == Some(m))
    &&& (s.2 is None || s.2 == Some(d))
}

proof fn lemma_pieces_ok_rest(ps: Seq<Piece>)
    requires
        ps.len() > 0,
        pieces_ok(ps),
    ensures
        pieces_ok(ps.drop_first()),
        ps.len() > 1 && !(ps[0] is Lit) ==> ps[1] is Lit,
{
    let rest = ps.drop_first();
    assert forall|k: int| 0 <= k < rest.len() implies match #[trigger] rest[k] {
        Piece::Lit(c) => !is_digit(c) && c != '{' && c != '}' && c != '/',
        _ => true,
    } by {
        assert(rest[k] == ps[k + 1]);
    }
    assert forall|k: int| 0 <= k < rest.len() - 1 implies (!(#[trigger] rest[k] is Lit)
        ==> rest[k + 1] is Lit) by {
        assert(rest[k] == ps[k + 1] && rest[k + 1] == ps[k + 2]);
    }
    if ps.len() > 1 {
        assert(0 <= 0 < ps.len() - 1);
        assert(!(ps[0] is Lit) ==> ps[1] is Lit);
    }
}

/// A token followed by the rest of the pattern: its value is captured, and
/// matching goes on with the rest.
proof fn lemma_token_step(
    tok: Seq<char>,
    val: Seq<char>,
    tr: Seq<char>,
    ar: Seq<char>,
    ph: DatePlaceholders,
    s: Slots,
    s2: Slots,
)
    requires
        tok.len() >= 3 && tok[0] == '{' && tok.last() == '}',
        plain_key(tok),
        all_digits(val),
        tr.len() > 0 ==> ar.len() > 0 && tr[0] == ar[0] && !is_digit(tr[0]),
        tr.len() == 0 ==> ar.len() == 0,
        assign(key_of(tok), val, ph, s) == Ok::<Slots, MatchFailure>(s2),
    ensures
        capture(tok + tr, val + ar, 0, 0, ph, s) == capture(tr, ar, 0, 0, ph, s2),
{
    let t = tok + tr;
    let a = val + ar;
    let end = tok.len() - 1;
    assert forall|q: int| 0 <= q < end implies t[q] != '}' by {
        if q > 0 {
            assert(t[q] == key_of(tok)[q - 1]);
        }
    }
    lemma_find_first(t, '}', 0, end);
    assert(t.subrange(1, end) =~= key_of(tok));
    if end + 1 < t.len() {
        let c = t[end + 1];
        assert(c == tr[0]);
        assert forall|q: int| 0 <= q < val.len() implies a[q] != c by {
            assert(is_digit(val[q]));
        }
        assert(a[val.len() as int] == c);
        lemma_find_first(a, c, 0, val.len() as int);
    }
    assert(a.subrange(0, val.len() as int) =~= val);
    lemma_capture_shift(t, a, end + 1, val.len() as int, end + 1, val.len() as int, ph, s2);
    assert(t.subrange(end + 1, t.len() as int) =~= tr);
    assert(a.subrange(val.len() as int, a.len() as int) =~= ar);
}

/// The schema's six date tokens have plain keys.
pub open spec fn plain_date_tokens(ph: DatePlaceholders) -> bool {
    &&& plain_key(ph.yyyy@) && plain_key(ph.mm@) && plain_key(ph.m@)
    &&& plain_key(ph.dd@) && plain_key(ph.d@) && plain_key(ph.date@)
}

proof fn lemma_capture_pieces(
    ps: Seq<Piece>,
    ph: DatePlaceholders,
    y: Seq<char>,
    m: Seq<char>,
    d: Seq<char>,
    s: Slots,
)
    requires
        ph.wf(),
        plain_date_tokens(ph),
        pieces_ok(ps),
        padded_date(y, m, d),
        slots_fit(s, y, m, d),
    ensures
        capture(pattern_text(ps, ph), filled_text(ps, y, m, d), 0, 0, ph, s) == Ok::<
            Slots,
            MatchFailure,
        >(slots_after(ps, s, y, m, d)),
    decreases ps.len(),
{
    if ps.len() > 0 {
        let rest = ps.drop_first();
        lemma_pieces_ok_rest(ps);
        let t = pattern_text(ps, ph);
        let a = filled_text(ps, y, m, d);
        let tr = pattern_text(rest, ph);
        let ar = filled_text(rest, y, m, d);
        if rest.len() > 0 && rest[0] is Lit {
            lemma_text_head(rest, ph, y, m, d);
            assert(!is_digit(tr[0])) by {
                assert(0 <= 0 < ps.len() && ps[1] == rest[0]);
            }
        }
        if rest.len() == 0 {
            assert(tr.len() == 0 && ar.len() == 0);
        }
        lemma_wf_keys_distinct(ph);
        assert(ph.tokens()[0] == ph.yyyy@ && ph.tokens()[1] == ph.mm@ && ph.tokens()[2] == ph.m@);
        assert(ph.tokens()[3] == ph.dd@ && ph.tokens()[4] == ph.d@ && ph.tokens()[5] == ph.date@);
        assert(crate::placeholders::brace_form(ph.tokens()[0]));
        assert(crate::placeholders::brace_form(ph.tokens()[1]));
        assert(crate::placeholders::brace_form(ph.tokens()[3]));
        reveal(assign);
        match ps[0] {
            Piece::Lit(c) => {
                assert(t == seq![c] + tr);
                assert(a == seq![c] + ar);
                lemma_capture_shift(t, a, 1, 1, 1, 1, ph, s);
                assert(t.subrange(1, t.len() as int) =~= tr);
                assert(a.subrange(1, a.len() as int) =~= ar);
                lemma_capture_pieces(rest, ph, y, m, d, s);
            },
            Piece::Year => {
                let s2 = (Some(y), s.1, s.2);
                assert(assign(key_of(ph.yyyy@), y, ph, s) == Ok::<Slots, MatchFailure>(s2));
                lemma_token_step(ph.yyyy@, y, tr, ar, ph, s, s2);
                lemma_capture_pieces(rest, ph, y, m, d, s2);
            },
            Piece::Month => {
                let s2 = (s.0, Some(m), s.2);
                assert(key_of(ph.mm@) != key_of(ph.yyyy@));
                assert(all_digits(m));
                assert(assign(key_of(ph.mm@), m, ph, s) == Ok::<Slots, MatchFailure>(s2));
                lemma_token_step(ph.mm@, m, tr, ar, ph, s, s2);
                lemma_capture_pieces(rest, ph, y, m, d, s2);
            },
            Piece::Day => {
                let s2 = (s.0, s.1, Some(d));
                assert(key_of(ph.dd@) != key_of(ph.yyyy@));
                assert(key_of(ph.dd@) != key_of(ph.mm@));
                assert(key_of(ph.dd@) != key_of(ph.m@));
                assert(all_digits(d));
                assert(assign(key_of(ph.dd@), d, ph, s) == Ok::<Slots, MatchFailure>(s2));
                lemma_token_step(ph.dd@, d, tr, ar, ph, s, s2);
                lemma_capture_pieces(rest, ph, y, m, d, s2);
            },
        }
    }
}

proof fn lemma_pattern_no_slash(ps: Seq<Piece>, ph: DatePlaceholders)
    requires
        ph.wf(),
        plain_date_tokens(ph),
        pieces_ok(ps),
    ensures
        forall|q: int|
            0 <= q < pattern_text(ps, ph).len() ==> #[trigger] pattern_text(ps, ph)[q] != '/',
    decreases ps.len(),
{
    if ps.len() > 0 {
        let rest = ps.drop_first();
        lemma_pieces_ok_rest(ps);
        lemma_pattern_no_slash(rest, ph);
        assert(ph.tokens()[0] == ph.yyyy@ && ph.tokens()[1] == ph.mm@ && ph.tokens()[3] == ph.dd@);
        let head = match ps[0] {
            Piece::Lit(c) => seq![c],
            Piece::Year => ph.yyyy@,
            Piece::Month => ph.mm@,
            Piece::Day => ph.dd@,
        };
        let t = pattern_text(ps, ph);
        assert(t == head + pattern_text(rest, ph));
        assert forall|q: int| 0 <= q < t.len() implies #[trigger] t[q] != '/' by {
            if q < head.len() {
                match ps[0] {
                    Piece::Lit(c) => {},
                    _ => {
                        assert(crate::placeholders::brace_form(head));
                        if 0 < q < head.len() - 1 {
                            assert(head[q] == key_of(head)[q - 1]);
                        }
                    },
                }
            } else {
                assert(t[q] == pattern_text(rest, ph)[q - head.len()]);
            }
        }
    }
}

proof fn lemma_split_without_sep(s: Seq<char>, c: char)
    requires
        forall|q: int| 0 <= q < s.len() ==> s[q] != c,
    ensures
        split_on(s, c) == seq![s],
    decreases s.len(),
{
    if s.len() > 0 {
        lemma_split_without_sep(s.drop_last(), c);
        assert(s.drop_last().push(s.last()) =~= s);
        assert(seq![s.drop_last()].update(0, s.drop_last().push(s.last())) =~= seq![s]);
    } else {
        assert(s =~= Seq::<char>::empty());
    }
}

proof fn lemma_slots_after(ps: Seq<Piece>, s: Slots, y: Seq<char>, m: Seq<char>, d: Seq<char>)
    ensures
        slots_after(ps, s, y, m, d).0 == if has_piece(ps, Piece::Year) {
            Some(y)
        } else {
            s.0
        },
        slots_after(ps, s, y, m, d).1 == if has_piece(ps, Piece::Month) {
            Some(m)
        } else {
            s.1
        },
        slots_after(ps, s, y, m, d).2 == if has_piece(ps, Piece::Day) {
            Some(d)
        } else {
            s.2
        },
    decreases ps.len(),
{
    if ps.len() > 0 {
        let rest = ps.drop_first();
        let s2 = match ps[0] {
            Piece::Lit(_) => s,
            Piece::Year => (Some(y), s.1, s.2),
            Piece::Month => (s.0, Some(m), s.2),
            Piece::Day => (s.0, s.1, Some(d)),
        };
        lemma_slots_after(rest, s2, y, m, d);
        assert forall|w: Piece| has_piece(ps, w) <==> (ps[0] == w || has_piece(rest, w)) by {
            if has_piece(ps, w) {
                let k = choose|k: int| 0 <= k < ps.len() && ps[k] == w;
                if k > 0 {
                    assert(rest[k - 1] == w);
                }
            }
            if has_piece(rest, w) {
                let k = choose|k: int| 0 <= k < rest.len() && rest[k] == w;
                assert(ps[k + 1] == w);
            }
            if ps[0] == w {
                assert(has_piece(ps, w));
            }
        }
    }
}

/// Literal characters are no braces.
pub open spec fn lits_brace_free(ps: Seq<Piece>) -> bool {
    forall|k: int|
        0 <= k < ps.len() ==> match #[trigger] ps[k] {
            Piece::Lit(c) => c != '{' && c != '}',
            _ => true,
        }
}

pub open spec fn flatten(cs: Seq<Seq<char>>) -> Seq<char>
    decreases cs.len(),
{
    if cs.len() == 0 {
        Seq::empty()
    } else {
        cs[0] + flatten(cs.drop_first())
    }
}

pub open spec fn brace_free(s: Seq<char>) -> bool {
    forall|q: int| 0 <= q < s.len() ==> #[trigger] s[q] != '{' && s[q] != '}'
}

/// `{key}` with a key holding no brace and no `/`.
pub open spec fn plain_token(t: Seq<char>) -> bool {
    t.len() >= 3 && t[0] == '{' && t.last() == '}' && plain_key(t)
}

pub open spec fn chunks_ok(cs: Seq<Seq<char>>) -> bool {
    forall|k: int| 0 <= k < cs.len() ==> brace_free(#[trigger] cs[k]) || plain_token(cs[k])
}

pub open spec fn swap(cs: Seq<Seq<char>>, tok: Seq<char>, v: Seq<char>) -> Seq<Seq<char>> {
    cs.map_values(|c: Seq<char>| if c == tok { v } else { c })
}

proof fn lemma_replace_skip(run: Seq<char>, rest: Seq<char>, tok: Seq<char>, v: Seq<char>)
    requires
        tok.len() > 0,
        tok[0] == '{',
        forall|q: int| 0 <= q < run.len() ==> run[q] != '{',
    ensures
        replace_all(run + rest, tok, v) == run + replace_all(rest, tok, v),
    decreases run.len(),
{
    if run.len() > 0 {
        let s = run + rest;
        assert(s[0] == run[0]);
        assert(!crate::text::occurs_at(s, tok, 0)) by {
            if crate::text::occurs_at(s, tok, 0) {
                assert(s.subrange(0, tok.len() as int)[0] == s[0]);
            }
        }
        assert(s.drop_first() =~= run.drop_first() + rest);
        lemma_replace_skip(run.drop_first(), rest, tok, v);
        assert(seq![run[0]] + (run.drop_first() + replace_all(rest, tok, v)) =~= run + replace_all(
            rest,
            tok,
            v,
        ));
    } else {
        assert(run + rest =~= rest);
        assert(run + replace_all(rest, tok, v) =~= replace_all(rest, tok, v));
    }
}

proof fn lemma_other_token_not_at_start(t: Seq<char>, rest: Seq<char>, tok: Seq<char>)
    requires
        plain_token(t),
        plain_token(tok),
        t != tok,
    ensures
        !crate::text::occurs_at(t + rest, tok, 0),
{
    let s = t + rest;
    if crate::text::occurs_at(s, tok, 0) {
        let w = s.subrange(0, tok.len() as int);
        assert(w == tok);
        if tok.len() <= t.len() {
            let q = tok.len() - 1;
            assert(w[q] == s[q] && s[q] == t[q]);
            if q < t.len() - 1 {
                assert(t[q] == key_of(t)[q - 1]);
            } else {
                assert(t =~= tok);
            }
        } else {
            let q = t.len() - 1;
            assert(w[q] == t[q]);
            assert(tok[q] == key_of(tok)[q - 1]);
        }
    }
}

proof fn lemma_replace_chunks(cs: Seq<Seq<char>>, tok: Seq<char>, v: Seq<char>)
    requires
        chunks_ok(cs),
        plain_token(tok),
    ensures
        replace_all(flatten(cs), tok, v) == flatten(swap(cs, tok, v)),
    decreases cs.len(),
{
    if cs.len() == 0 {
        assert(swap(cs, tok, v) =~= Seq::<Seq<char>>::empty());
    } else {
        let c0 = cs[0];
        let rest = cs.drop_first();
        assert(chunks_ok(rest)) by {
            assert forall|k: int| 0 <= k < rest.len() implies brace_free(#[trigger] rest[k])
                || plain_token(rest[k]) by {
                assert(rest[k] == cs[k + 1]);
            }
        }
        lemma_replace_chunks(rest, tok, v);
        assert(swap(cs, tok, v).drop_first() =~= swap(rest, tok, v));
        let fr = flatten(rest);
        assert(flatten(cs) == c0 + fr);
        if c0 == tok {
            let s = c0 + fr;
            assert(s.subrange(0, tok.len() as int) =~= tok);
            assert(s.subrange(tok.len() as int, s.len() as int) =~= fr);
        } else if brace_free(c0) {
            lemma_replace_skip(c0, fr, tok, v);
        } else {
            lemma_other_token_not_at_start(c0, fr, tok);
            let s = c0 + fr;
            let tail = c0.drop_first();
            assert forall|q: int| 0 <= q < tail.len() implies tail[q] != '{' by {
                if q < tail.len() - 1 {
                    assert(tail[q] == key_of(c0)[q]);
                }
            }
            assert(s.drop_first() =~= tail + fr);
            lemma_replace_skip(tail, fr, tok, v);
            assert(seq![c0[0]] + (tail + replace_all(fr, tok, v)) =~= c0 + replace_all(fr, tok, v));
        }
    }
}

pub open spec fn piece_chunk(p: Piece, ph: DatePlaceholders) -> Seq<char> {
    match p {
        Piece::Lit(c) => seq![c],
        Piece::Year => ph.yyyy@,
        Piece::Month => ph.mm@,
        Piece::Day => ph.dd@,
    }
}

pub open spec fn fill_chunk(p: Piece, y: Seq<char>, m: Seq<char>, d: Seq<char>) -> Seq<char> {
    match p {
        Piece::Lit(c) => seq![c],
        Piece::Year => y,
        Piece::Month => m,
        Piece::Day => d,
    }
}

proof fn lemma_texts_flatten(ps: Seq<Piece>, ph: DatePlaceholders, y: Seq<char>, m: Seq<char>, d: Seq<char>)
    ensures
        pattern_text(ps, ph) == flatten(ps.map_values(|p: Piece| piece_chunk(p, ph))),
        filled_text(ps, y, m, d) == flatten(ps.map_values(|p: Piece| fill_chunk(p, y, m, d))),
    decreases ps.len(),
{
    if ps.len() > 0 {
        lemma_texts_flatten(ps.drop_first(), ph, y, m, d);
        assert(ps.map_values(|p: Piece| piece_chunk(p, ph)).drop_first() =~= ps.drop_first().map_values(
            |p: Piece| piece_chunk(p, ph),
        ));
        assert(ps.map_values(|p: Piece| fill_chunk(p, y, m, d)).drop_first()
            =~= ps.drop_first().map_values(|p: Piece| fill_chunk(p, y, m, d)));
    }
}

proof fn lemma_swap_absent(cs: Seq<Seq<char>>, tok: Seq<char>, v: Seq<char>)
    requires
        forall|k: int| 0 <= k < cs.len() ==> cs[k] != tok,
    ensures
        swap(cs, tok, v) == cs,
{
    assert(swap(cs, tok, v) =~= cs);
}

proof fn lemma_swap_ok(cs: Seq<Seq<char>>, tok: Seq<char>, v: Seq<char>)
    requires
        chunks_ok(cs),
        brace_free(v),
    ensures
        chunks_ok(swap(cs, tok, v)),
{
    let r = swap(cs, tok, v);
    assert forall|k: int| 0 <= k < r.len() implies brace_free(#[trigger] r[k]) || plain_token(r[k]) by {
        assert(r[k] == if cs[k] == tok { v } else { cs[k] });
    }
}

proof fn lemma_digits_brace_free(v: Seq<char>)
    requires
        all_digits(v),
    ensures
        brace_free(v),
        forall|q: int| 0 <= q < v.len() ==> #[trigger] v[q] != '-',
{
    assert forall|q: int| 0 <= q < v.len() implies #[trigger] v[q] != '{' && v[q] != '}' by {
        assert(is_digit(v[q]));
    }
    assert forall|q: int| 0 <= q < v.len() implies #[trigger] v[q] != '-' by {
        assert(is_digit(v[q]));
    }
}

/// Replacing the six date tokens of a pattern's text by a date's parts
/// gives the pattern filled with that date.
proof fn lemma_substitute_pieces(
    ps: Seq<Piece>,
    ph: DatePlaceholders,
    y: Seq<char>,
    m: Seq<char>,
    d: Seq<char>,
    m2: Seq<char>,
    d2: Seq<char>,
    dt: Seq<char>,
)
    requires
        ph.wf(),
        plain_date_tokens(ph),
        lits_brace_free(ps),
        padded_date(y, m, d),
    ensures
        crate::render::substitute_date(pattern_text(ps, ph), ph, y, m, m2, d, d2, dt)
            == filled_text(ps, y, m, d),
{
    lemma_wf_keys_distinct(ph);
    let ts = ph.tokens();
    assert(ts[0] == ph.yyyy@ && ts[1] == ph.mm@ && ts[2] == ph.m@);
    assert(ts[3] == ph.dd@ && ts[4] == ph.d@ && ts[5] == ph.date@);
    assert(crate::placeholders::brace_form(ts[0]) && crate::placeholders::brace_form(ts[1]));
    assert(crate::placeholders::brace_form(ts[2]) && crate::placeholders::brace_form(ts[3]));
    assert(crate::placeholders::brace_form(ts[4]) && crate::placeholders::brace_form(ts[5]));
    assert(ts[0] != ts[1] && ts[0] != ts[3] && ts[1] != ts[3] && ts[2] != ts[3]);
    assert(all_digits(m) && all_digits(d));
    lemma_digits_brace_free(y);
    lemma_digits_brace_free(m);
    lemma_digits_brace_free(d);
    lemma_texts_flatten(ps, ph, y, m, d);
    let cs0 = ps.map_values(|p: Piece| piece_chunk(p, ph));
    assert(chunks_ok(cs0)) by {
        assert forall|k: int| 0 <= k < cs0.len() implies brace_free(#[trigger] cs0[k]) || plain_token(
            cs0[k],
        ) by {
            assert(cs0[k] == piece_chunk(ps[k], ph));
            match ps[k] {
                Piece::Lit(c) => {
                    assert(brace_free(seq![c]));
                },
                _ => {},
            }
        }
    }
    let cs1 = swap(cs0, ph.yyyy@, y);
    lemma_replace_chunks(cs0, ph.yyyy@, y);
    lemma_swap_ok(cs0, ph.yyyy@, y);
    let cs2 = swap(cs1, ph.mm@, m);
    lemma_replace_chunks(cs1, ph.mm@, m);
    lemma_swap_ok(cs1, ph.mm@, m);
    let want = ps.map_values(|p: Piece| fill_chunk(p, y, m, d));
    assert forall|k: int| 0 <= k < cs2.len() implies cs2[k] != ph.m@ && (cs2[k] == want[k] || (
    ps[k] is Day && cs2[k] == ph.dd@)) by {
        assert(cs1[k] == if cs0[k] == ph.yyyy@ { y } else { cs0[k] });
        assert(cs2[k] == if cs1[k] == ph.mm@ { m } else { cs1[k] });
        match ps[k] {
            Piece::Lit(c) => {
                assert(cs0[k] == seq![c]);
                assert(seq![c].len() != ph.yyyy@.len() && seq![c].len() != ph.mm@.len());
            },
            Piece::Year => {
                assert(y[0] != ph.mm@[0]);
            },
            Piece::Month => {},
            Piece::Day => {},
        }
        if cs2[k] == ph.m@ {
            assert(cs2[k][0] == '{');
            if ps[k] is Year {
                assert(y[0] != '{');
            } else if ps[k] is Month {
                assert(m[0] != '{');
            }
        }
    }
    lemma_replace_chunks(cs2, ph.m@, m2);
    lemma_swap_absent(cs2, ph.m@, m2);
    let cs4 = swap(cs2, ph.dd@, d);
    lemma_replace_chunks(cs2, ph.dd@, d);
    lemma_swap_ok(cs2, ph.dd@, d);
    assert forall|k: int| 0 <= k < cs4.len() implies cs4[k] == want[k] && cs4[k] != ph.d@
        && cs4[k] != ph.date@ by {
        assert(cs4[k] == if cs2[k] == ph.dd@ { d } else { cs2[k] });
        match ps[k] {
            Piece::Lit(c) => {
                assert(seq![c].len() != ph.dd@.len());
            },
            Piece::Year => {
                assert(y[0] != ph.dd@[0]);
            },
            Piece::Month => {
                assert(m[0] != ph.dd@[0]);
            },
            Piece::Day => {},
        }
        assert(want[k] == fill_chunk(ps[k], y, m, d));
        if cs4[k] == ph.d@ || cs4[k] == ph.date@ {
            assert(cs4[k][0] == '{');
            match ps[k] {
                Piece::Year => assert(y[0] != '{'),
                Piece::Month => assert(m[0] != '{'),
                Piece::Day => assert(d[0] != '{'),
                Piece::Lit(c) => {},
            }
        }
    }
    assert(cs4 =~= want);
    lemma_replace_chunks(cs4, ph.d@, d2);
    lemma_swap_absent(cs4, ph.d@, d2);
    lemma_replace_chunks(cs4, ph.date@, dt);
    lemma_swap_absent(cs4, ph.date@, dt);
}

proof fn lemma_split_concat(a: Seq<char>, b: Seq<char>, c: char)
    ensures
        split_on(a + seq![c] + b, c) == split_on(a, c) + split_on(b, c),
    decreases b.len(),
{
    let s = a + seq![c] + b;
    if b.len() == 0 {
        assert(s =~= a + seq![c]);
        assert(s.drop_last() =~= a);
        assert(split_on(a, c).push(Seq::<char>::empty()) =~= split_on(a, c) + seq![Seq::<char>::empty()]);
    } else {
        let b2 = b.drop_last();
        lemma_split_concat(a, b2, c);
        assert(s.drop_last() =~= a + seq![c] + b2);
        assert(s.last() == b.last());
        crate::text::lemma_split_nonempty(b2, c);
        let sa = split_on(a, c);
        let sb = split_on(b2, c);
        if b.last() == c {
            assert((sa + sb).push(Seq::<char>::empty()) =~= sa + sb.push(Seq::<char>::empty()));
        } else {
            assert((sa + sb).update((sa + sb).len() - 1, (sa + sb).last().push(b.last())) =~= sa
                + sb.update(sb.len() - 1, sb.last().push(b.last())));
        }
    }
}

proof fn lemma_split_date(y: Seq<char>, m: Seq<char>, d: Seq<char>)
    requires
        all_digits(y),
        all_digits(m),
        all_digits(d),
    ensures
        split_on(date_text(y, m, d), '-') == seq![y, m, d],
{
    lemma_digits_brace_free(y);
    lemma_digits_brace_free(m);
    lemma_digits_brace_free(d);
    lemma_split_without_sep(y, '-');
    lemma_split_without_sep(m, '-');
    lemma_split_without_sep(d, '-');
    lemma_split_concat(y, m, '-');
    lemma_split_concat(y + seq!['-'] + m, d, '-');
    assert(split_on(date_text(y, m, d), '-') =~= seq![y, m, d]);
}

proof fn lemma_render_unfold(t: Seq<char>, ph: DatePlaceholders, y: Seq<char>, m: Seq<char>, d: Seq<char>)
    requires
        y.len() == 4 && all_digits(y),
        m.len() == 2 && all_digits(m),
        d.len() == 2 && all_digits(d),
    ensures
        crate::render::render_path(t, date_text(y, m, d), ph) == Some(
            crate::render::substitute_date(
                t,
                ph,
                y,
                m,
                crate::text::decimal(crate::text::digits_value(m)),
                d,
                crate::text::decimal(crate::text::digits_value(d)),
                date_text(y, m, d),
            ),
        ),
{
    lemma_split_date(y, m, d);
    let parts = split_on(date_text(y, m, d), '-');
    assert(parts[0] == y && parts[1] == m && parts[2] == d);
    assert(crate::render::date_shape(parts));
}

/// Segments joined by `/`.
pub open spec fn join_slash(xs: Seq<Seq<char>>) -> Seq<char>
    decreases xs.len(),
{
    if xs.len() == 0 {
        Seq::empty()
    } else if xs.len() == 1 {
        xs[0]
    } else {
        join_slash(xs.drop_last()) + seq!['/'] + xs.last()
    }
}

pub open spec fn seg_texts(segs: Seq<Seq<Piece>>, ph: DatePlaceholders) -> Seq<Seq<char>> {
    segs.map_values(|p: Seq<Piece>| pattern_text(p, ph))
}

pub open spec fn seg_fills(segs: Seq<Seq<Piece>>, y: Seq<char>, m: Seq<char>, d: Seq<char>) -> Seq<
    Seq<char>,
> {
    segs.map_values(|p: Seq<Piece>| filled_text(p, y, m, d))
}

pub open spec fn segments_ok(segs: Seq<Seq<Piece>>) -> bool {
    forall|k: int| 0 <= k < segs.len() ==> pieces_ok(#[trigger] segs[k])
}

pub open spec fn has_piece_in(segs: Seq<Seq<Piece>>, want: Piece) -> bool {
    exists|k: int| 0 <= k < segs.len() && has_piece(#[trigger] segs[k], want)
}

pub open spec fn slots_after_segs(
    segs: Seq<Seq<Piece>>,
    s: Slots,
    y: Seq<char>,
    m: Seq<char>,
    d: Seq<char>,
) -> Slots
    decreases segs.len(),
{
    if segs.len() == 0 {
        s
    } else {
        slots_after_segs(segs.drop_first(), slots_after(segs[0], s, y, m, d), y, m, d)
    }
}

proof fn lemma_split_join(xs: Seq<Seq<char>>)
    requires
        xs.len() >= 1,
        forall|k: int, q: int| 0 <= k < xs.len() && 0 <= q < xs[k].len() ==> #[trigger] xs[k][q] != '/',
    ensures
        split_on(join_slash(xs), '/') == xs,
    decreases xs.len(),
{
    if xs.len() == 1 {
        lemma_split_without_sep(xs[0], '/');
        assert(seq![xs[0]] =~= xs);
    } else {
        let init = xs.drop_last();
        assert forall|k: int, q: int| 0 <= k < init.len() && 0 <= q < init[k].len() implies #[trigger] init[k][q] != '/' by {
            assert(init[k] == xs[k]);
        }
        lemma_split_join(init);
        assert forall|q: int| 0 <= q < xs.last().len() implies xs.last()[q] != '/' by {
            assert(xs[xs.len() - 1][q] != '/');
        }
        lemma_split_without_sep(xs.last(), '/');
        lemma_split_concat(join_slash(init), xs.last(), '/');
        assert(init + seq![xs.last()] =~= xs);
    }
}

proof fn lemma_slots_after_segs(segs: Seq<Seq<Piece>>, s: Slots, y: Seq<char>, m: Seq<char>, d: Seq<char>)
    ensures
        slots_after_segs(segs, s, y, m, d).0 == if has_piece_in(segs, Piece::Year) {
            Some(y)
        } else {
            s.0
        },
        slots_after_segs(segs, s, y, m, d).1 == if has_piece_in(segs, Piece::Month) {
            Some(m)
        } else {
            s.1
        },
        slots_after_segs(segs, s, y, m, d).2 == if has_piece_in(segs, Piece::Day) {
            Some(d)
        } else {
            s.2
        },
    decreases segs.len(),
{
    if segs.len() > 0 {
        let rest = segs.drop_first();
        lemma_slots_after(segs[0], s, y, m, d);
        lemma_slots_after_segs(rest, slots_after(segs[0], s, y, m, d), y, m, d);
        assert forall|w: Piece| has_piece_in(segs, w) <==> (has_piece(segs[0], w) || has_piece_in(rest, w)) by {
            if has_piece_in(segs, w) {
                let k = choose|k: int| 0 <= k < segs.len() && has_piece(segs[k], w);
                if k > 0 {
                    assert(rest[k - 1] == segs[k]);
                }
            }
            if has_piece_in(rest, w) {
                let k = choose|k: int| 0 <= k < rest.len() && has_piece(rest[k], w);
                assert(segs[k + 1] == rest[k]);
            }
        }
    }
}

proof fn lemma_capture_segs(
    pss: Seq<Seq<char>>,
    segs: Seq<Seq<Piece>>,
    ph: DatePlaceholders,
    y: Seq<char>,
    m: Seq<char>,
    d: Seq<char>,
    start: int,
    k: int,
    s: Slots,
)
    requires
        ph.wf(),
        plain_date_tokens(ph),
        segments_ok(segs),
        padded_date(y, m, d),
        slots_fit(s, y, m, d),
        0 <= k <= segs.len(),
        0 <= start,
        start + segs.len() <= pss.len(),
        forall|q: int| 0 <= q < segs.len() ==> pss[start + q] == filled_text(#[trigger] segs[q], y, m, d),
    ensures
        capture_segments(pss, seg_texts(segs, ph), start, k, ph, s) == Ok::<Slots, MatchFailure>(
            slots_after_segs(segs.subrange(k, segs.len() as int), s, y, m, d),
        ),
    decreases segs.len() - k,
{
    let n = segs.len() as int;
    if k == n {
        assert(segs.subrange(k, n) =~= Seq::<Seq<Piece>>::empty());
    } else {
        let sk = segs[k];
        assert(pieces_ok(sk));
        assert(seg_texts(segs, ph)[k] == pattern_text(sk, ph));
        assert(pss[start + k] == filled_text(sk, y, m, d));
        lemma_capture_pieces(sk, ph, y, m, d, s);
        let s2 = slots_after(sk, s, y, m, d);
        lemma_slots_after(sk, s, y, m, d);
        lemma_capture_segs(pss, segs, ph, y, m, d, start, k + 1, s2);
        assert(segs.subrange(k, n)[0] == sk);
        assert(segs.subrange(k, n).drop_first() =~= segs.subrange(k + 1, n));
    }
}

proof fn lemma_texts_no_slash(segs: Seq<Seq<Piece>>, ph: DatePlaceholders, y: Seq<char>, m: Seq<char>, d: Seq<char>)
    requires
        ph.wf(),
        plain_date_tokens(ph),
        segments_ok(segs),
        all_digits(y),
        all_digits(m),
        all_digits(d),
    ensures
        forall|k: int, q: int|
            0 <= k < seg_texts(segs, ph).len() && 0 <= q < seg_texts(segs, ph)[k].len()
                ==> #[trigger] seg_texts(segs, ph)[k][q] != '/',
        forall|k: int, q: int|
            0 <= k < seg_fills(segs, y, m, d).len() && 0 <= q < seg_fills(segs, y, m, d)[k].len()
                ==> #[trigger] seg_fills(segs, y, m, d)[k][q] != '/',
{
    assert forall|k: int, q: int|
        0 <= k < seg_texts(segs, ph).len() && 0 <= q < seg_texts(segs, ph)[k].len()
            implies #[trigger] seg_texts(segs, ph)[k][q] != '/' by {
        assert(pieces_ok(segs[k]));
        lemma_pattern_no_slash(segs[k], ph);
        assert(seg_texts(segs, ph)[k] == pattern_text(segs[k], ph));
    }
    assert forall|k: int, q: int|
        0 <= k < seg_fills(segs, y, m, d).len() && 0 <= q < seg_fills(segs, y, m, d)[k].len()
            implies #[trigger] seg_fills(segs, y, m, d)[k][q] != '/' by {
        assert(pieces_ok(segs[k]));
        lemma_filled_no_slash(segs[k], y, m, d);
        assert(seg_fills(segs, y, m, d)[k] == filled_text(segs[k], y, m, d));
    }
}

/// A pattern of `/`-separated segments, each made of literal characters (no
/// digit, brace or `/`) and the year, month and day tokens (a token never
/// directly followed by another; each of the three somewhere), read against
/// a path whose trailing segments are that pattern filled with a
/// zero-padded date: the pattern matches, and extraction gives exactly that
/// date as `yyyy-mm-dd`.
pub proof fn lemma_filled_path_gives_date(
    segs: Seq<Seq<Piece>>,
    ph: DatePlaceholders,
    y: Seq<char>,
    m: Seq<char>,
    d: Seq<char>,
    prefix: Seq<char>,
)
    requires
        ph.wf(),
        plain_date_tokens(ph),
        segs.len() >= 1,
        segments_ok(segs),
        has_piece_in(segs, Piece::Year),
        has_piece_in(segs, Piece::Month),
        has_piece_in(segs, Piece::Day),
        padded_date(y, m, d),
        prefix.len() == 0 || prefix.last() == '/',
    ensures
        match_pattern(
            prefix + join_slash(seg_fills(segs, y, m, d)),
            join_slash(seg_texts(segs, ph)),
            ph,
        ) == Ok::<Seq<char>, MatchFailure>(date_text(y, m, d)),
        extract(
            prefix + join_slash(seg_fills(segs, y, m, d)),
            seq![join_slash(seg_texts(segs, ph))],
            ph,
        ) == Some(date_text(y, m, d)),
{
    let texts = seg_texts(segs, ph);
    let fills = seg_fills(segs, y, m, d);
    let pattern = join_slash(texts);
    let path = prefix + join_slash(fills);
    assert(all_digits(m) && all_digits(d));
    lemma_texts_no_slash(segs, ph, y, m, d);
    lemma_split_join(texts);
    lemma_split_join(fills);
    let pss = split_on(path, '/');
    let start: int = if prefix.len() == 0 {
        assert(path =~= join_slash(fills));
        0
    } else {
        let dir = prefix.drop_last();
        assert(prefix =~= dir + seq!['/']);
        assert(path =~= dir + seq!['/'] + join_slash(fills));
        lemma_split_concat(dir, join_slash(fills), '/');
        split_on(dir, '/').len() as int
    };
    assert(pss.len() == start + segs.len());
    assert forall|q: int| 0 <= q < segs.len() implies pss[start + q] == filled_text(#[trigger] segs[q], y, m, d) by {
        assert(fills[q] == filled_text(segs[q], y, m, d));
    }
    lemma_capture_segs(pss, segs, ph, y, m, d, start, 0, empty_slots());
    assert(segs.subrange(0, segs.len() as int) =~= segs);
    lemma_slots_after_segs(segs, empty_slots(), y, m, d);
    let fin = slots_after_segs(segs, empty_slots(), y, m, d);
    assert(fin == (Some(y), Some(m), Some(d)));
    assert(parts_ok(y, m, d));
    assert(split_on(pattern, '/') == texts);
    assert(pss.len() - texts.len() == start);
    let pats = seq![pattern];
    assert(pats[0] == pattern);
}

pub open spec fn flat_pieces(segs: Seq<Seq<Piece>>) -> Seq<Piece>
    decreases segs.len(),
{
    if segs.len() == 0 {
        Seq::empty()
    } else if segs.len() == 1 {
        segs[0]
    } else {
        flat_pieces(segs.drop_last()) + seq![Piece::Lit('/')] + segs.last()
    }
}

proof fn lemma_text_concat(a: Seq<Piece>, b: Seq<Piece>, ph: DatePlaceholders, y: Seq<char>, m: Seq<char>, d: Seq<char>)
    ensures
        pattern_text(a + b, ph) == pattern_text(a, ph) + pattern_text(b, ph),
        filled_text(a + b, y, m, d) == filled_text(a, y, m, d) + filled_text(b, y, m, d),
    decreases a.len(),
{
    if a.len() == 0 {
        assert(a + b =~= b);
    } else {
        lemma_text_concat(a.drop_first(), b, ph, y, m, d);
        assert((a + b).drop_first() =~= a.drop_first() + b);
        assert((a + b)[0] == a[0]);
    }
}

proof fn lemma_flat_text(segs: Seq<Seq<Piece>>, ph: DatePlaceholders, y: Seq<char>, m: Seq<char>, d: Seq<char>)
    requires
        segs.len() >= 1,
        segments_ok(segs),
    ensures
        pattern_text(flat_pieces(segs), ph) == join_slash(seg_texts(segs, ph)),
        filled_text(flat_pieces(segs), y, m, d) == join_slash(seg_fills(segs, y, m, d)),
        lits_brace_free(flat_pieces(segs)),
    decreases segs.len(),
{
    let f = flat_pieces(segs);
    if segs.len() == 1 {
        assert(pieces_ok(segs[0]));
        assert(seg_texts(segs, ph)[0] == pattern_text(segs[0], ph));
        assert(seg_fills(segs, y, m, d)[0] == filled_text(segs[0], y, m, d));
        assert forall|k: int| 0 <= k < f.len() implies match #[trigger] f[k] {
            Piece::Lit(c) => c != '{' && c != '}',
            _ => true,
        } by {
            assert(match segs[0][k] {
                Piece::Lit(c) => !is_digit(c) && c != '{' && c != '}' && c != '/',
                _ => true,
            });
        }
    } else {
        let init = segs.drop_last();
        assert(segments_ok(init)) by {
            assert forall|k: int| 0 <= k < init.len() implies pieces_ok(#[trigger] init[k]) by {
                assert(init[k] == segs[k]);
            }
        }
        lemma_flat_text(init, ph, y, m, d);
        let fi = flat_pieces(init);
        let last = segs.last();
        assert(pieces_ok(segs[segs.len() - 1]));
        lemma_text_concat(fi + seq![Piece::Lit('/')], last, ph, y, m, d);
        lemma_text_concat(fi, seq![Piece::Lit('/')], ph, y, m, d);
        let sl = seq![Piece::Lit('/')];
        assert(pattern_text(sl.drop_first(), ph) =~= Seq::<char>::empty());
        assert(filled_text(sl.drop_first(), y, m, d) =~= Seq::<char>::empty());
        assert(pattern_text(sl, ph) =~= seq!['/']);
        assert(filled_text(sl, y, m, d) =~= seq!['/']);
        assert(seg_texts(segs, ph).drop_last() =~= seg_texts(init, ph));
        assert(seg_fills(segs, y, m, d).drop_last() =~= seg_fills(init, y, m, d));
        assert(seg_texts(segs, ph).last() == pattern_text(last, ph));
        assert(seg_fills(segs, y, m, d).last() == filled_text(last, y, m, d));
        assert forall|k: int| 0 <= k < f.len() implies match #[trigger] f[k] {
            Piece::Lit(c) => c != '{' && c != '}',
            _ => true,
        } by {
            if k < fi.len() {
                assert(f[k] == fi[k]);
            } else if k == fi.len() {
                assert(f[k] == Piece::Lit('/'));
            } else {
                assert(f[k] == last[k - fi.len() - 1]);
                assert(match last[k - fi.len() - 1] {
                    Piece::Lit(c) => !is_digit(c) && c != '{' && c != '}' && c != '/',
                    _ => true,
                });
            }
        }
    }
}

/// Rendering a zero-padded date with a pattern as in
/// `lemma_filled_path_gives_date` gives the pattern filled with the date, and
/// extracting with the same pattern from the rendered path gives the date
/// back.
pub proof fn lemma_render_then_extract(
    segs: Seq<Seq<Piece>>,
    ph: DatePlaceholders,
    y: Seq<char>,
    m: Seq<char>,
    d: Seq<char>,
)
    requires
        ph.wf(),
        plain_date_tokens(ph),
        segs.len() >= 1,
        segments_ok(segs),
        has_piece_in(segs, Piece::Year),
        has_piece_in(segs, Piece::Month),
        has_piece_in(segs, Piece::Day),
        padded_date(y, m, d),
    ensures
        crate::render::render_path(join_slash(seg_texts(segs, ph)), date_text(y, m, d), ph) == Some(
            join_slash(seg_fills(segs, y, m, d)),
        ),
        extract(join_slash(seg_fills(segs, y, m, d)), seq![join_slash(seg_texts(segs, ph))], ph)
            == Some(date_text(y, m, d)),
{
    assert(all_digits(m) && all_digits(d));
    lemma_flat_text(segs, ph, y, m, d);
    let t = join_slash(seg_texts(segs, ph));
    lemma_render_unfold(t, ph, y, m, d);
    lemma_substitute_pieces(
        flat_pieces(segs),
        ph,
        y,
        m,
        d,
        crate::text::decimal(crate::text::digits_value(m)),
        crate::text::decimal(crate::text::digits_value(d)),
        date_text(y, m, d),
    );
    lemma_filled_path_gives_date(segs, ph, y, m, d, Seq::empty());
    assert(Seq::<char>::empty() + join_slash(seg_fills(segs, y, m, d)) =~= join_slash(
        seg_fills(segs, y, m, d),
    ));
}

} // verus!
