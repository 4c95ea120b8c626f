//! The settings that override the static configuration.

use vstd::prelude::*;
use crate::placeholders::DatePlaceholders;
use crate::import::nonblank_trimmed;
use crate::matcher::views;
use crate::text::trim_str;

verus! {

/// The current settings.
#[derive(Debug)]
pub struct AppSettingsResp {
    pub import_patterns: Vec<String>,
    pub sync_output_path: String,
    pub sync_commit_message: String,
    pub date_placeholders: DatePlaceholders,
}

/// A change of some of the settings.
#[derive(Debug)]
pub struct UpdateSettingsReq {
    pub import_patterns: Option<Vec<String>>,
    pub sync_output_path: Option<String>,
    pub sync_commit_message: Option<String>,
    pub date_placeholders: Option<DatePlaceholders>,
}

/// The stored import patterns, trimmed, blank ones dropped; `None` when none
/// is left, so that the defaults apply.
pub fn stored_import_patterns(stored: &[String]) -> (r: Option<Vec<String>>)
    ensures
        nonblank_trimmed(views(stored@)).len() == 0 ==> r is None,
        nonblank_trimmed(views(stored@)).len() > 0 ==> (r matches Some(v) && views(v@)
            == nonblank_trimmed(views(stored@))),
{
    let ghost all = views(stored@);
    let mut ps: Vec<String> = Vec::new();
    let mut k: usize = 0;
    while k < stored.len()
        invariant
            all == views(stored@),
            k <= stored@.len(),
            views(ps@) == nonblank_trimmed(all.subrange(0, k as int)),
        decreases stored@.len() - k,
    {
        assert(all.subrange(0, k + 1).drop_last() =~= all.subrange(0, k as int));
        let t = trim_str(stored[k].as_str());
        if t.unicode_len() != 0 {
            let ghost prev = ps@;
            ps.push(t);
            assert(views(ps@) =~= views(prev).push(t@));
        }
        k += 1;
    }
    assert(all.subrange(0, stored@.len() as int) =~= all);
    if ps.len() == 0 {
        None
    } else {
        Some(ps)
    }
}

} // verus!
