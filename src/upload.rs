//! Names, places and content hashes of uploaded files.

use vstd::prelude::*;
use crate::config::AppConfig;
use crate::text::{
    chars_of, decimal, decimal_str, push_char, replace_all, replace_str, split_on, split_str,
    starts_with, str_starts_with, trim, trim_str,
};

verus! {

pub open spec fn file_name_char(c: char) -> char {
    if ('a' <= c && c <= 'z') || ('A' <= c && c <= 'Z') || ('0' <= c && c <= '9') || c == '.'
        || c == '-' || c == '_' {
        c
    } else {
        '_'
    }
}

/// The last segment of the name (either separator), without `..`, trimmed,
/// with every character but ASCII letters, digits, `.`, `-` and `_` made `_`.
pub open spec fn sanitized(name: Seq<char>) -> Seq<char> {
    let base = split_on(replace_all(name, seq!['\\'], "/"@), '/').last();
    trim(replace_all(base, ".."@, Seq::empty())).map_values(|c: char| file_name_char(c))
}

pub fn sanitize_file_name(name: &str) -> (r: String)
    ensures
        r@ == sanitized(name@),
{
    proof {
        reveal_strlit("\\");
        assert("\\"@ =~= seq!['\\']);
        reveal_strlit("");
        assert(""@ =~= Seq::<char>::empty());
    }
    let normalized = replace_str(name, "\\", "/");
    let parts = split_str(normalized.as_str(), '/');
    proof {
        crate::text::lemma_split_nonempty(normalized@, '/');
    }
    let base = replace_str(parts[parts.len() - 1].as_str(), "..", "");
    let t = chars_of(trim_str(base.as_str()).as_str());
    let mut out = String::new();
    let mut i: usize = 0;
    while i < t.len()
        invariant
            i <= t@.len(),
            out@ == t@.subrange(0, i as int).map_values(|c: char| file_name_char(c)),
        decreases t@.len() - i,
    {
        let c = t[i];
        let keep = ('a' <= c && c <= 'z') || ('A' <= c && c <= 'Z') || ('0' <= c && c <= '9')
            || c == '.' || c == '-' || c == '_';
        push_char(&mut out, if keep { c } else { '_' });
        i += 1;
        assert(out@ =~= t@.subrange(0, i as int).map_values(|c: char| file_name_char(c)));
    }
    assert(t@.subrange(0, t@.len() as int) =~= t@);
    out
}

/// Index of the last `.` of `s`, if any.
pub open spec fn last_dot(s: Seq<char>) -> Option<int>
    decreases s.len(),
{
    if s.len() == 0 {
        None
    } else if s.last() == '.' {
        Some(s.len() - 1)
    } else {
        last_dot(s.drop_last())
    }
}

proof fn lemma_last_dot_bounds(s: Seq<char>)
    ensures
        last_dot(s) matches Some(k) ==> 0 <= k < s.len() && s[k] == '.',
    decreases s.len(),
{
    if s.len() > 0 && s.last() != '.' {
        lemma_last_dot_bounds(s.drop_last());
    }
}

/// `base_<millis>_<seq>.ext`, splitting at the last dot when both sides
/// are non-empty; empty for an empty name.
pub open spec fn unique_name(name: Seq<char>, millis: nat, seq_no: nat) -> Seq<char> {
    if name.len() == 0 {
        Seq::empty()
    } else {
        let stamp = "_"@ + decimal(millis) + "_"@ + decimal(seq_no);
        match last_dot(name) {
            Some(k) => if 0 < k && k + 1 < name.len() {
                name.subrange(0, k) + stamp + name.subrange(k, name.len() as int)
            } else {
                name + stamp
            },
            None => name + stamp,
        }
    }
}

/// A file name made unique by the upload time (milliseconds) and a sequence
/// number that the caller draws from its own counter.
pub fn unique_file_name(name: &str, millis: u64, seq_no: u64) -> (r: String)
    ensures
        r@ == unique_name(name@, millis as nat, seq_no as nat),
{
    let v = chars_of(name);
    if v.len() == 0 {
        return String::new();
    }
    let mut stamp = String::from_str("_");
    stamp.append(decimal_str(millis).as_str());
    stamp.append("_");
    stamp.append(decimal_str(seq_no).as_str());
    proof {
        reveal_strlit("_");
        lemma_last_dot_bounds(v@);
    }
    let mut k: usize = v.len();
    assert(v@.subrange(0, v@.len() as int) =~= v@);
    while k > 0 && v[k - 1] != '.'
        invariant
            k <= v@.len(),
            last_dot(v@) == last_dot(v@.subrange(0, k as int)),
        decreases k,
    {
        assert(v@.subrange(0, k as int).drop_last() =~= v@.subrange(0, k - 1));
        k -= 1;
    }
    assert(v@.subrange(0, v@.len() as int) =~= v@);
    if k > 0 {
        assert(v@.subrange(0, k as int).drop_last() =~= v@.subrange(0, k - 1));
        assert(last_dot(v@) == Some(k - 1));
    }
    if k > 1 && k < v.len() {
        let dot = k - 1;
        let mut out = crate::text::string_of_range(&v, 0, dot);
        out.append(stamp.as_str());
        out.append(crate::text::string_of_range(&v, dot, v.len()).as_str());
        return out;
    }
    let mut out = String::from_str(name);
    out.append(stamp.as_str());
    out
}

/// Where an upload of some media type is stored.
#[derive(Debug)]
pub struct SaveTarget {
    pub kind: String,
    pub path: String,
    pub uri_prefix: String,
}

/// Images go to the picture directory, videos to the media directory, the
/// rest to the file directory.
pub fn resolve_target(config: &AppConfig, content_type: Option<&str>) -> (r: SaveTarget)
    ensures
        (match content_type {
            Some(v) => starts_with(v@, "image/"@),
            None => false,
        }) ==> r.kind@ == "picture"@ && r.path@ == crate::config::dir_under_base(
            config.base_path@,
            config.picture_path@,
        ) && r.uri_prefix@ == "/files/picture"@,
        (match content_type {
            Some(v) => !starts_with(v@, "image/"@) && starts_with(v@, "video/"@),
            None => false,
        }) ==> r.kind@ == "media"@ && r.path@ == crate::config::dir_under_base(
            config.base_path@,
            config.media_path@,
        ) && r.uri_prefix@ == "/files/media"@,
        (match content_type {
            Some(v) => !starts_with(v@, "image/"@) && !starts_with(v@, "video/"@),
            None => true,
        }) ==> r.kind@ == "file"@ && r.path@ == crate::config::dir_under_base(
            config.base_path@,
            config.file_path@,
        ) && r.uri_prefix@ == "/files/file"@,
{
    let (image, video) = match content_type {
        Some(v) => (str_starts_with(v, "image/"), str_starts_with(v, "video/")),
        None => (false, false),
    };
    if image {
        SaveTarget {
            kind: String::from_str("picture"),
            path: config.get_picture_path(),
            uri_prefix: String::from_str("/files/picture"),
        }
    } else if video {
        SaveTarget {
            kind: String::from_str("media"),
            path: config.get_media_path(),
            uri_prefix: String::from_str("/files/media"),
        }
    } else {
        SaveTarget {
            kind: String::from_str("file"),
            path: config.get_file_path(),
            uri_prefix: String::from_str("/files/file"),
        }
    }
}

/// The SHA-256 digest of some bytes.
pub uninterp spec fn sha256_of(b: Seq<u8>) -> Seq<u8>;

/// Relies on `sha2::Sha256::digest`: the 32-byte SHA-256 digest.
#[verifier::external_body]
fn sha256_digest(bytes: &[u8]) -> (r: Vec<u8>)
    ensures
        r@ == sha256_of(bytes@),
        r@.len() == 32,
{
    <sha2::Sha256 as sha2::Digest>::digest(bytes).to_vec()
}

pub open spec fn hex_digit(n: nat) -> char {
    if n < 10 {
        ((n + 48) as u32) as char
    } else {
        ((n + 87) as u32) as char
    }
}

/// Two lower-case hexadecimal digits per byte.
pub open spec fn hex_lower(b: Seq<u8>) -> Seq<char>
    decreases b.len(),
{
    if b.len() == 0 {
        Seq::empty()
    } else {
        hex_lower(b.drop_last()).push(hex_digit((b.last() / 16) as nat)).push(
            hex_digit((b.last() % 16) as nat),
        )
    }
}

fn hex_char(n: u8) -> (r: char)
    requires
        n < 16,
    ensures
        r == hex_digit(n as nat),
{
    if n < 10 {
        (n + 48) as char
    } else {
        (n + 87) as char
    }
}

/// The bytes in lower-case hexadecimal.
pub fn to_hex_lower(b: &[u8]) -> (r: String)
    ensures
        r@ == hex_lower(b@),
{
    let mut out = String::new();
    let mut i: usize = 0;
    while i < b.len()
        invariant
            i <= b@.len(),
            out@ == hex_lower(b@.subrange(0, i as int)),
        decreases b@.len() - i,
    {
        assert(b@.subrange(0, i + 1).drop_last() =~= b@.subrange(0, i as int));
        push_char(&mut out, hex_char(b[i] / 16));
        push_char(&mut out, hex_char(b[i] % 16));
        i += 1;
    }
    assert(b@.subrange(0, b@.len() as int) =~= b@);
    out
}

/// The content hash of an upload: SHA-256 in lower-case hexadecimal.
pub fn file_hash(bytes: &[u8]) -> (r: String)
    ensures
        r@ == hex_lower(sha256_of(bytes@)),
        r@.len() == 64,
{
    let d = sha256_digest(bytes);
    let r = to_hex_lower(&d);
    proof {
        lemma_hex_len(d@);
    }
    r
}

proof fn lemma_hex_len(b: Seq<u8>)
    ensures
        hex_lower(b).len() == 2 * b.len(),
    decreases b.len(),
{
    if b.len() > 0 {
        lemma_hex_len(b.drop_last());
    }
}

} // verus!
