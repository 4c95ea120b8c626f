//! Character-level string helpers with exact specifications over `Seq<char>`.

use vstd::prelude::*;

verus! {

pub open spec fn is_digit(c: char) -> bool {
    '0' <= c && c <= '9'
}

pub open spec fn all_digits(s: Seq<char>) -> bool {
    forall|k: int| 0 <= k < s.len() ==> is_digit(#[trigger] s[k])
}

/// Value of a run of decimal digits.
pub open spec fn digits_value(s: Seq<char>) -> nat
    decreases s.len(),
{
    if s.len() == 0 {
        0
    } else {
        digits_value(s.drop_last()) * 10 + ((s.last() as u32) - ('0' as u32)) as nat
    }
}

pub open spec fn digit_char(d: nat) -> char {
    ((d + ('0' as u32)) as u32) as char
}

/// Decimal notation of a natural number, without leading zeros.
pub open spec fn decimal(n: nat) -> Seq<char>
    decreases n,
{
    if n < 10 {
        seq![digit_char(n)]
    } else {
        decimal(n / 10).push(digit_char(n % 10))
    }
}

/// First index at or after `from` holding `c`.
pub open spec fn find_from(s: Seq<char>, c: char, from: int) -> Option<int>
    decreases s.len() - from,
{
    if from < 0 || from >= s.len() {
        None
    } else if s[from] == c {
        Some(from)
    } else {
        find_from(s, c, from + 1)
    }
}

/// The pieces of `s` between occurrences of `c` (always at least one piece).
pub open spec fn split_on(s: Seq<char>, c: char) -> Seq<Seq<char>>
    decreases s.len(),
{
    if s.len() == 0 {
        seq![Seq::<char>::empty()]
    } else {
        let p = split_on(s.drop_last(), c);
        if s.last() == c {
            p.push(Seq::<char>::empty())
        } else {
            p.update(p.len() - 1, p.last().push(s.last()))
        }
    }
}

/// The pieces of `s` between occurrences of any character of `seps`.
pub open spec fn split_any(s: Seq<char>, seps: Seq<char>) -> Seq<Seq<char>>
    decreases s.len(),
{
    if s.len() == 0 {
        seq![Seq::<char>::empty()]
    } else {
        let p = split_any(s.drop_last(), seps);
        if seps.contains(s.last()) {
            p.push(Seq::<char>::empty())
        } else {
            p.update(p.len() - 1, p.last().push(s.last()))
        }
    }
}

pub proof fn lemma_split_any_nonempty(s: Seq<char>, seps: Seq<char>)
    ensures
        split_any(s, seps).len() >= 1,
    decreases s.len(),
{
    if s.len() > 0 {
        lemma_split_any_nonempty(s.drop_last(), seps);
    }
}

pub open spec fn occurs_at(s: Seq<char>, sub: Seq<char>, k: int) -> bool {
    0 <= k && k + sub.len() <= s.len() && s.subrange(k, k + sub.len()) == sub
}

pub open spec fn contains(s: Seq<char>, sub: Seq<char>) -> bool {
    exists|k: int| occurs_at(s, sub, k)
}

pub open spec fn starts_with(s: Seq<char>, pre: Seq<char>) -> bool {
    occurs_at(s, pre, 0)
}

pub open spec fn ends_with(s: Seq<char>, suf: Seq<char>) -> bool {
    suf.len() <= s.len() && occurs_at(s, suf, s.len() - suf.len())
}

/// Left-to-right replacement of every non-overlapping occurrence of `from`
/// (non-empty) in `s`, the way `str::replace` does it.
pub open spec fn replace_all(s: Seq<char>, from: Seq<char>, to: Seq<char>) -> Seq<char>
    decreases s.len(),
{
    if s.len() == 0 || from.len() == 0 {
        s
    } else if occurs_at(s, from, 0) {
        to + replace_all(s.subrange(from.len() as int, s.len() as int), from, to)
    } else {
        seq![s[0]] + replace_all(s.drop_first(), from, to)
    }
}

pub open spec fn lower_char(c: char) -> char {
    if 'A' <= c && c <= 'Z' {
        ((c as u32) + 32) as char
    } else {
        c
    }
}

pub open spec fn ascii_lower(s: Seq<char>) -> Seq<char> {
    s.map_values(|c: char| lower_char(c))
}

/// The Unicode White_Space property (the characters `char::is_whitespace`
/// accepts): tab to carriage return, space, U+0085, U+00A0, U+1680,
/// U+2000 to U+200A, U+2028, U+2029, U+202F, U+205F and U+3000.
pub open spec fn whitespace(c: char) -> bool {
    let n = c as u32;
    (0x09 <= n && n <= 0x0d) || n == 0x20 || n == 0x85 || n == 0xa0 || n == 0x1680 || (0x2000 <= n
        && n <= 0x200a) || n == 0x2028 || n == 0x2029 || n == 0x202f || n == 0x205f || n == 0x3000
}

/// Number of leading characters of `s` that are whitespace.
pub open spec fn lead_ws(s: Seq<char>) -> nat
    decreases s.len(),
{
    if s.len() > 0 && whitespace(s[0]) {
        1 + lead_ws(s.drop_first())
    } else {
        0
    }
}

/// Number of trailing characters of `s` that are whitespace.
pub open spec fn trail_ws(s: Seq<char>) -> nat
    decreases s.len(),
{
    if s.len() > 0 && whitespace(s.last()) {
        1 + trail_ws(s.drop_last())
    } else {
        0
    }
}

/// `s` without its leading and trailing whitespace.
pub open spec fn trim(s: Seq<char>) -> Seq<char> {
    let t = s.subrange(lead_ws(s) as int, s.len() as int);
    t.subrange(0, t.len() - trail_ws(t))
}

/// Whether `c` is Unicode white space.
pub fn is_whitespace(c: char) -> (r: bool)
    ensures
        r == whitespace(c),
{
    let n = c as u32;
    (0x09 <= n && n <= 0x0d) || n == 0x20 || n == 0x85 || n == 0xa0 || n == 0x1680 || (0x2000 <= n
        && n <= 0x200a) || n == 0x2028 || n == 0x2029 || n == 0x202f || n == 0x205f || n == 0x3000
}

/// Relies on `String::push`: appends one character.
#[verifier::external_body]
pub(crate) fn push_char(s: &mut String, c: char)
    ensures
        final(s)@ == old(s)@.push(c),
{
    s.push(c)
}

pub proof fn lemma_find_from_bounds(s: Seq<char>, c: char, from: int)
    requires
        0 <= from,
    ensures
        match find_from(s, c, from) {
            Some(k) => from <= k < s.len() && s[k] == c && forall|q: int|
                from <= q < k ==> s[q] != c,
            None => forall|q: int| from <= q < s.len() ==> s[q] != c,
        },
    decreases s.len() - from,
{
    if 0 <= from < s.len() && s[from] != c {
        lemma_find_from_bounds(s, c, from + 1);
    }
}

pub proof fn lemma_split_nonempty(s: Seq<char>, c: char)
    ensures
        split_on(s, c).len() >= 1,
    decreases s.len(),
{
    if s.len() > 0 {
        lemma_split_nonempty(s.drop_last(), c);
    }
}

/// The characters of `s`, one per element.
pub fn chars_of(s: &str) -> (r: Vec<char>)
    ensures
        r@ == s@,
{
    let n = s.unicode_len();
    let mut r: Vec<char> = Vec::new();
    let mut i: usize = 0;
    while i < n
        invariant
            n == s@.len(),
            i <= n,
            r@ == s@.subrange(0, i as int),
        decreases n - i,
    {
        r.push(s.get_char(i));
        i += 1;
    }
    assert(r@ =~= s@);
    r
}

/// A string holding exactly the characters of `v`.
pub fn string_of(v: &[char]) -> (r: String)
    ensures
        r@ == v@,
{
    let mut r = String::new();
    let mut i: usize = 0;
    while i < v.len()
        invariant
            i <= v@.len(),
            r@ == v@.subrange(0, i as int),
        decreases v@.len() - i,
    {
        push_char(&mut r, v[i]);
        i += 1;
        assert(r@ =~= v@.subrange(0, i as int));
    }
    assert(r@ =~= v@);
    r
}

/// The characters of `v` from `lo` up to `hi`, as a string.
pub fn string_of_range(v: &[char], lo: usize, hi: usize) -> (r: String)
    requires
        lo <= hi <= v@.len(),
    ensures
        r@ == v@.subrange(lo as int, hi as int),
{
    let mut r = String::new();
    let mut i: usize = lo;
    while i < hi
        invariant
            lo <= i <= hi <= v@.len(),
            r@ == v@.subrange(lo as int, i as int),
        decreases hi - i,
    {
        push_char(&mut r, v[i]);
        i += 1;
        assert(r@ =~= v@.subrange(lo as int, i as int));
    }
    r
}

pub fn find_char(s: &[char], c: char, from: usize) -> (r: Option<usize>)
    ensures
        r matches Some(k) ==> find_from(s@, c, from as int) == Some(k as int) && from <= k < s@.len(),
        r is None ==> find_from(s@, c, from as int) is None,
{
    let mut k: usize = from;
    while k < s.len()
        invariant
            from <= k,
            find_from(s@, c, from as int) == find_from(s@, c, k as int),
        decreases s@.len() - k,
    {
        if s[k] == c {
            return Some(k);
        }
        k += 1;
    }
    None
}

/// A copy of `v` from `lo` up to `hi`.
pub fn copy_range(v: &[char], lo: usize, hi: usize) -> (r: Vec<char>)
    requires
        lo <= hi <= v@.len(),
    ensures
        r@ == v@.subrange(lo as int, hi as int),
{
    let mut r: Vec<char> = Vec::new();
    let mut i: usize = lo;
    while i < hi
        invariant
            lo <= i <= hi <= v@.len(),
            r@ == v@.subrange(lo as int, i as int),
        decreases hi - i,
    {
        r.push(v[i]);
        i += 1;
        assert(r@ =~= v@.subrange(lo as int, i as int));
    }
    r
}

pub fn all_digits_exec(v: &[char]) -> (r: bool)
    ensures
        r == all_digits(v@),
{
    let mut k: usize = 0;
    while k < v.len()
        invariant
            k <= v@.len(),
            forall|q: int| 0 <= q < k ==> is_digit(#[trigger] v@[q]),
        decreases v@.len() - k,
    {
        if !('0' <= v[k] && v[k] <= '9') {
            return false;
        }
        k += 1;
    }
    true
}

pub open spec fn pow10(i: nat) -> nat
    decreases i,
{
    if i == 0 {
        1
    } else {
        10 * pow10((i - 1) as nat)
    }
}

/// Value of a short run of digits.
pub fn small_value(v: &[char]) -> (n: u32)
    requires
        v@.len() <= 4,
        all_digits(v@),
    ensures
        n == digits_value(v@),
        n < pow10(v@.len()),
{
    let mut n: u32 = 0;
    let mut i: usize = 0;
    while i < v.len()
        invariant
            i <= v@.len() <= 4,
            all_digits(v@),
            n == digits_value(v@.subrange(0, i as int)),
            n < pow10(i as nat),
            pow10(i as nat) <= 10000,
        decreases v@.len() - i,
    {
        assert(is_digit(v@[i as int]));
        let d = (v[i] as u32) - ('0' as u32);
        assert(v@.subrange(0, i + 1).drop_last() =~= v@.subrange(0, i as int));
        assert(pow10((i + 1) as nat) == 10 * pow10(i as nat));
        proof {
            let p = pow10(i as nat);
            assert(n * 10 + d < 10 * p) by (nonlinear_arith)
                requires
                    n < p,
                    d < 10,
            ;
        }
        n = n * 10 + d;
        i += 1;
        assert(pow10(i as nat) <= 10000) by {
            reveal_with_fuel(pow10, 5);
        }
    }
    assert(v@.subrange(0, v@.len() as int) =~= v@);
    n
}

pub fn seq_eq(a: &[char], b: &[char]) -> (r: bool)
    ensures
        r == (a@ == b@),
{
    if a.len() != b.len() {
        return false;
    }
    let mut k: usize = 0;
    while k < a.len()
        invariant
            a@.len() == b@.len(),
            k <= a@.len(),
            forall|q: int| 0 <= q < k ==> a@[q] == b@[q],
        decreases a@.len() - k,
    {
        if a[k] != b[k] {
            return false;
        }
        k += 1;
    }
    assert(a@ =~= b@);
    true
}

pub fn occurs_at_exec(s: &[char], sub: &[char], k: usize) -> (r: bool)
    ensures
        r == occurs_at(s@, sub@, k as int),
{
    if sub.len() > s.len() || k > s.len() - sub.len() {
        return false;
    }
    let n = s.len();
    let mut q: usize = 0;
    while q < sub.len()
        invariant
            n == s@.len(),
            k + sub@.len() <= s@.len(),
            q <= sub@.len(),
            forall|p: int| 0 <= p < q ==> s@[k + p] == sub@[p],
        decreases sub@.len() - q,
    {
        if s[k + q] != sub[q] {
            assert(s@.subrange(k as int, k + sub@.len())[q as int] != sub@[q as int]);
            return false;
        }
        q += 1;
    }
    assert(s@.subrange(k as int, k + sub@.len()) =~= sub@);
    true
}

pub fn contains_exec(s: &[char], sub: &[char]) -> (r: bool)
    ensures
        r == contains(s@, sub@),
{
    if sub.len() > s.len() {
        return false;
    }
    let last = s.len() - sub.len();
    let mut k: usize = 0;
    loop
        invariant
            last == s@.len() - sub@.len(),
            k <= last,
            forall|p: int| 0 <= p < k ==> !occurs_at(s@, sub@, p),
        decreases last - k,
    {
        if occurs_at_exec(s, sub, k) {
            return true;
        }
        if k == last {
            proof {
                assert forall|p: int| !occurs_at(s@, sub@, p) by {
                    if 0 <= p < k {
                    }
                }
            }
            return false;
        }
        k += 1;
    }
}

/// Whether the two strings hold the same characters.
pub fn str_eq(a: &str, b: &str) -> (r: bool)
    ensures
        r == (a@ == b@),
{
    seq_eq(&chars_of(a), &chars_of(b))
}

/// Whether `s` begins with `pre`.
pub fn str_starts_with(s: &str, pre: &str) -> (r: bool)
    ensures
        r == starts_with(s@, pre@),
{
    occurs_at_exec(&chars_of(s), &chars_of(pre), 0)
}

/// Whether `sub` occurs in `s`.
pub fn str_contains(s: &str, sub: &str) -> (r: bool)
    ensures
        r == contains(s@, sub@),
{
    let sv = chars_of(s);
    let subv = chars_of(sub);
    contains_exec(&sv, &subv)
}

pub fn split_chars(s: &[char], c: char) -> (r: Vec<String>)
    ensures
        r@.len() == split_on(s@, c).len(),
        forall|k: int| 0 <= k < r@.len() ==> #[trigger] r@[k]@ == split_on(s@, c)[k],
{
    let mut parts: Vec<String> = Vec::new();
    let mut cur = String::new();
    let mut i: usize = 0;
    while i < s.len()
        invariant
            i <= s@.len(),
            parts@.len() + 1 == split_on(s@.subrange(0, i as int), c).len(),
            forall|k: int| 0 <= k < parts@.len() ==> #[trigger] parts@[k]@ == split_on(
                s@.subrange(0, i as int),
                c,
            )[k],
            cur@ == split_on(s@.subrange(0, i as int), c).last(),
        decreases s@.len() - i,
    {
        proof {
            lemma_split_nonempty(s@.subrange(0, i as int), c);
            assert(s@.subrange(0, i + 1).drop_last() =~= s@.subrange(0, i as int));
        }
        if s[i] == c {
            let done = cur;
            parts.push(done);
            cur = String::new();
        } else {
            push_char(&mut cur, s[i]);
        }
        i += 1;
    }
    assert(s@.subrange(0, s@.len() as int) =~= s@);
    proof {
        lemma_split_nonempty(s@, c);
    }
    parts.push(cur);
    parts
}

/// The pieces of `s` between occurrences of any of `seps`.
pub fn split_any_str(s: &str, seps: &[char]) -> (r: Vec<String>)
    ensures
        r@.len() == split_any(s@, seps@).len(),
        forall|k: int| 0 <= k < r@.len() ==> #[trigger] r@[k]@ == split_any(s@, seps@)[k],
{
    let v = chars_of(s);
    let mut parts: Vec<String> = Vec::new();
    let mut cur = String::new();
    let mut i: usize = 0;
    while i < v.len()
        invariant
            v@ == s@,
            i <= v@.len(),
            parts@.len() + 1 == split_any(v@.subrange(0, i as int), seps@).len(),
            forall|k: int| 0 <= k < parts@.len() ==> #[trigger] parts@[k]@ == split_any(
                v@.subrange(0, i as int),
                seps@,
            )[k],
            cur@ == split_any(v@.subrange(0, i as int), seps@).last(),
        decreases v@.len() - i,
    {
        proof {
            lemma_split_any_nonempty(v@.subrange(0, i as int), seps@);
            assert(v@.subrange(0, i + 1).drop_last() =~= v@.subrange(0, i as int));
        }
        let mut is_sep = false;
        let mut q: usize = 0;
        while q < seps.len()
            invariant
                i < v@.len(),
                q <= seps@.len(),
                is_sep == (exists|p: int| 0 <= p < q && seps@[p] == v@[i as int]),
            decreases seps@.len() - q,
        {
            if seps[q] == v[i] {
                is_sep = true;
            }
            q += 1;
        }
        if is_sep {
            let done = cur;
            parts.push(done);
            cur = String::new();
        } else {
            push_char(&mut cur, v[i]);
        }
        i += 1;
    }
    assert(v@.subrange(0, v@.len() as int) =~= v@);
    proof {
        lemma_split_any_nonempty(v@, seps@);
    }
    parts.push(cur);
    parts
}

/// The pieces of `s` between occurrences of `c`, as `str::split` gives them.
pub fn split_str(s: &str, c: char) -> (r: Vec<String>)
    ensures
        r@.len() == split_on(s@, c).len(),
        forall|k: int| 0 <= k < r@.len() ==> #[trigger] r@[k]@ == split_on(s@, c)[k],
{
    let v = chars_of(s);
    split_chars(&v, c)
}

/// `s` with every occurrence of `from` replaced by `to`.
pub fn replace_str(s: &str, from: &str, to: &str) -> (r: String)
    ensures
        r@ == replace_all(s@, from@, to@),
{
    let sv = chars_of(s);
    let fv = chars_of(from);
    let tv = chars_of(to);
    let mut out = String::new();
    if fv.len() == 0 {
        return string_of(&sv);
    }
    let mut i: usize = 0;
    assert(sv@.subrange(0, sv@.len() as int) =~= sv@);
    assert(out@ + replace_all(sv@, fv@, tv@) =~= replace_all(sv@, fv@, tv@));
    while i < sv.len()
        invariant
            fv@.len() > 0,
            tv@ == to@,
            i <= sv@.len(),
            out@ + replace_all(sv@.subrange(i as int, sv@.len() as int), fv@, tv@)
                == replace_all(sv@, fv@, tv@),
        decreases sv@.len() - i,
    {
        let ghost rest = sv@.subrange(i as int, sv@.len() as int);
        if occurs_at_exec(&sv, &fv, i) {
            proof {
                assert(rest.subrange(0, fv@.len() as int) =~= sv@.subrange(
                    i as int,
                    i + fv@.len(),
                ));
                assert(occurs_at(rest, fv@, 0));
                assert(replace_all(rest, fv@, tv@) == tv@ + replace_all(
                    rest.subrange(fv@.len() as int, rest.len() as int),
                    fv@,
                    tv@,
                ));
                assert(rest.subrange(0, fv@.len() as int) =~= sv@.subrange(
                    i as int,
                    i + fv@.len(),
                ));
                assert(rest.subrange(fv@.len() as int, rest.len() as int) =~= sv@.subrange(
                    i + fv@.len(),
                    sv@.len() as int,
                ));
                assert(out@ + tv@ + replace_all(
                    sv@.subrange(i + fv@.len(), sv@.len() as int),
                    fv@,
                    tv@,
                ) =~= out@ + replace_all(rest, fv@, tv@));
            }
            out.append(to);
            i += fv.len();
        } else {
            proof {
                assert(!occurs_at(rest, fv@, 0)) by {
                    if occurs_at(rest, fv@, 0) {
                        assert(rest.subrange(0, fv@.len() as int) =~= sv@.subrange(
                            i as int,
                            i + fv@.len(),
                        ));
                    }
                }
                assert(rest.drop_first() =~= sv@.subrange(i + 1, sv@.len() as int));
                assert(replace_all(rest, fv@, tv@) == seq![rest[0]] + replace_all(
                    rest.drop_first(),
                    fv@,
                    tv@,
                ));
                assert(out@.push(sv@[i as int]) + replace_all(
                    sv@.subrange(i + 1, sv@.len() as int),
                    fv@,
                    tv@,
                ) =~= out@ + replace_all(rest, fv@, tv@));
            }
            push_char(&mut out, sv[i]);
            i += 1;
        }
    }
    assert(sv@.subrange(i as int, sv@.len() as int) =~= Seq::<char>::empty());
    assert(out@ + Seq::<char>::empty() =~= out@);
    out
}

/// `s` with ASCII upper-case letters turned to lower case.
pub fn to_ascii_lower(s: &str) -> (r: String)
    ensures
        r@ == ascii_lower(s@),
{
    let v = chars_of(s);
    let mut out = String::new();
    let mut i: usize = 0;
    while i < v.len()
        invariant
            i <= v@.len(),
            out@ == ascii_lower(v@.subrange(0, i as int)),
        decreases v@.len() - i,
    {
        let c = v[i];
        let l = if 'A' <= c && c <= 'Z' {
            ((c as u32) + 32) as u8 as char
        } else {
            c
        };
        push_char(&mut out, l);
        i += 1;
        assert(out@ =~= ascii_lower(v@.subrange(0, i as int)));
    }
    assert(v@.subrange(0, v@.len() as int) =~= v@);
    out
}

/// `s` without leading and trailing whitespace, as `str::trim` gives it.
pub fn trim_str(s: &str) -> (r: String)
    ensures
        r@ == trim(s@),
{
    let v = chars_of(s);
    let mut lo: usize = 0;
    assert(v@.subrange(0, v@.len() as int) =~= v@);
    while lo < v.len() && is_whitespace(v[lo])
        invariant
            lo <= v@.len(),
            lead_ws(v@) == lo + lead_ws(v@.subrange(lo as int, v@.len() as int)),
        decreases v@.len() - lo,
    {
        assert(v@.subrange(lo as int, v@.len() as int).drop_first() =~= v@.subrange(
            lo + 1,
            v@.len() as int,
        ));
        lo += 1;
    }
    assert(lead_ws(v@) == lo);
    let ghost t = v@.subrange(lo as int, v@.len() as int);
    let mut hi: usize = v.len();
    while hi > lo && is_whitespace(v[hi - 1])
        invariant
            lo <= hi <= v@.len(),
            t == v@.subrange(lo as int, v@.len() as int),
            trail_ws(t) == (v@.len() - hi) + trail_ws(v@.subrange(lo as int, hi as int)),
        decreases hi,
    {
        assert(v@.subrange(lo as int, hi as int).drop_last() =~= v@.subrange(
            lo as int,
            hi - 1,
        ));
        hi -= 1;
    }
    assert(t.subrange(0, t.len() - trail_ws(t)) =~= v@.subrange(lo as int, hi as int));
    string_of_range(&v, lo, hi)
}

/// Relies on `str::is_empty` only through the view; a trimmed string is blank
/// exactly when its view is empty.
pub fn is_blank(s: &str) -> (r: bool)
    ensures
        r == (trim(s@).len() == 0),
{
    let t = trim_str(s);
    t.unicode_len() == 0
}

pub fn digit_str(d: u64) -> (r: String)
    requires
        d < 10,
    ensures
        r@ == seq![digit_char(d as nat)],
{
    let c = ((d as u32) + ('0' as u32)) as u8 as char;
    let mut r = String::new();
    push_char(&mut r, c);
    assert(r@ =~= seq![digit_char(d as nat)]);
    r
}

/// Decimal notation of `n`.
pub fn decimal_str(n: u64) -> (r: String)
    ensures
        r@ == decimal(n as nat),
    decreases n,
{
    if n < 10 {
        digit_str(n)
    } else {
        let mut r = decimal_str(n / 10);
        let d = digit_str(n % 10);
        r.append(d.as_str());
        assert(r@ =~= decimal(n as nat));
        r
    }
}

} // verus!
