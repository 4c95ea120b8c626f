//! One sync attempt: the checks before it starts, the files and the message
//! it writes, and the sequence of repository steps as a state machine whose
//! actions are carried out by the caller.

use vstd::prelude::*;
use crate::auth::{AuthMode, auth_mode_for, resolve_auth_mode};
use crate::config::SyncConfig;
use crate::journal::{Journal, entries};
use crate::placeholders::DatePlaceholders;
use crate::render::{commit_message, resolve_commit_message};
use crate::sync_plan::{
    SyncOutputFile, build_output_files, files, format_name, normalize_format, output_files,
};
use crate::text::{is_blank, trim, trim_str};

verus! {

/// The answer to a sync request.
#[derive(Debug)]
pub struct SyncResp {
    pub pushed: bool,
    pub commit_id: String,
    pub file_path: String,
    pub format: String,
    pub message: String,
}

/// Whether a sync may be attempted, and with which credential scheme.
pub fn sync_precheck(cfg: &SyncConfig) -> (r: Result<AuthMode, String>)
    ensures
        !cfg.enabled ==> (r matches Err(e) && e@ == "sync disabled in config"@),
        cfg.enabled && trim(cfg.repo_url@).len() == 0 ==> (r matches Err(e) && e@
            == "sync.repo_url is required"@),
        cfg.enabled && trim(cfg.repo_url@).len() > 0 ==> match auth_mode_for(*cfg) {
            Some(m) => r == Ok::<AuthMode, String>(m),
            None => r matches Err(e) && e@ == "sync.auth_method must be one of: auto, password, ssh"@,
        },
{
    if !cfg.enabled {
        return Err(String::from_str("sync disabled in config"));
    }
    if is_blank(cfg.repo_url.as_str()) {
        return Err(String::from_str("sync.repo_url is required"));
    }
    resolve_auth_mode(cfg)
}

/// Whether the startup import runs: `None` when sync is disabled or has no
/// remote, else the credential scheme.
pub fn startup_precheck(cfg: &SyncConfig) -> (r: Result<Option<AuthMode>, String>)
    ensures
        !cfg.enabled || trim(cfg.repo_url@).len() == 0 ==> r == Ok::<Option<AuthMode>, String>(None),
        cfg.enabled && trim(cfg.repo_url@).len() > 0 ==> match auth_mode_for(*cfg) {
            Some(m) => r == Ok::<Option<AuthMode>, String>(Some(m)),
            None => r is Err,
        },
{
    if !cfg.enabled || is_blank(cfg.repo_url.as_str()) {
        return Ok(None);
    }
    match resolve_auth_mode(cfg) {
        Ok(m) => Ok(Some(m)),
        Err(e) => Err(e),
    }
}

/// What a sync attempt writes and commits.
#[derive(Debug)]
pub struct SyncPlan {
    pub files: Vec<SyncOutputFile>,
    pub commit_message: String,
    pub format: String,
}

/// Builds the files and the commit message of a sync attempt over
/// `journals` (in store order) at the instant `now_secs`.
pub fn plan_sync(
    output_path: &str,
    commit_template: &str,
    output_format: &str,
    journals: &[Journal],
    placeholders: &DatePlaceholders,
    now_secs: u64,
) -> (r: Result<SyncPlan, String>)
    ensures
        match format_name(output_format@) {
            None => r is Err,
            Some(f) => match output_files(output_path@, f, entries(journals@), *placeholders) {
                None => r is Err,
                Some(fs) => r matches Ok(p) && files(p.files@) == fs && p.format@ == f
                    && p.commit_message@ == commit_message(
                    commit_template@,
                    journals@.len() as nat,
                    now_secs as nat,
                    *placeholders,
                ),
            },
        },
{
    let format = match normalize_format(output_format) {
        Ok(f) => f,
        Err(e) => {
            let mut msg = String::from_str("invalid output_format: ");
            msg.append(e.as_str());
            return Err(msg);
        },
    };
    let files = match build_output_files(output_path, format.as_str(), journals, placeholders) {
        Ok(fs) => fs,
        Err(e) => {
            return Err(e);
        },
    };
    let message = resolve_commit_message(commit_template, journals.len(), placeholders, now_secs);
    Ok(SyncPlan { files, commit_message: message, format })
}

/// The answer once the attempt has finished.
pub fn sync_response(pushed: bool, commit_id: String, file_path: String, format: String) -> (r:
    SyncResp)
    ensures
        r.pushed == pushed,
        r.commit_id@ == commit_id@,
        r.file_path@ == file_path@,
        r.format@ == format@,
        pushed ==> r.message@ == "sync success"@,
        !pushed ==> r.message@ == "no changes to push"@,
{
    let message = if pushed {
        String::from_str("sync success")
    } else {
        String::from_str("no changes to push")
    };
    SyncResp { pushed, commit_id, file_path, format, message }
}

/// `refs/remotes/origin/<branch>`.
pub fn remote_branch_ref(branch: &str) -> (r: String)
    ensures
        r@ == "refs/remotes/origin/"@ + trim(branch@),
{
    let mut r = String::from_str("refs/remotes/origin/");
    r.append(trim_str(branch).as_str());
    r
}

/// `refs/heads/<branch>`.
pub fn local_branch_ref(branch: &str) -> (r: String)
    ensures
        r@ == "refs/heads/"@ + trim(branch@),
{
    let mut r = String::from_str("refs/heads/");
    r.append(trim_str(branch).as_str());
    r
}

/// The local branch pushed to the remote branch of the same name.
pub fn push_refspec(branch: &str) -> (r: String)
    ensures
        r@ == "refs/heads/"@ + trim(branch@) + ":refs/heads/"@ + trim(branch@),
{
    let b = trim_str(branch);
    let mut r = String::from_str("refs/heads/");
    r.append(b.as_str());
    r.append(":refs/heads/");
    r.append(b.as_str());
    r
}

/// Where a sync attempt stands. The stages follow each other in this order,
/// and an attempt stops at `Done` or `Failed`.
#[derive(Debug, Clone, Copy, PartialEq, Eq, Structural)]
pub enum SyncStage {
    EnsureLocalCopy,
    Fetch,
    FastForward,
    WriteFiles,
    StageFiles,
    Commit,
    Push,
    Done,
    Failed,
}

/// The repository work the caller carries out next.
#[derive(Debug, Clone, Copy, PartialEq, Eq, Structural)]
pub enum SyncAction {
    /// Open the working copy that is already there.
    OpenRepository,
    /// Clone the remote branch into the working copy.
    CloneRepository,
    /// Fetch the branch from `origin`.
    FetchBranch,
    /// Move the local branch to the fetched tip, point HEAD at it and force
    /// a checkout.
    FastForwardAndCheckout,
    /// Write every output file.
    WriteFiles,
    /// Add the written files to the index and compute its tree.
    StageFiles,
    /// Commit the tree, on top of HEAD when there is one.
    CommitTree { with_parent: bool },
    /// Push the local branch to `origin`.
    PushBranch,
    /// Nothing more: the attempt has ended.
    Stop,
}

/// What the caller reports after an action.
#[derive(Debug)]
pub enum SyncEvent {
    /// The action succeeded.
    StepDone,
    /// The index tree was computed: HEAD's tree, if HEAD exists, and the new one.
    TreeComputed { head_tree: Option<String>, new_tree: String },
    /// The commit was created with this id.
    CommitCreated(String),
    /// The action failed with this message.
    StepFailed(String),
}

/// One sync attempt in progress.
#[derive(Debug)]
pub struct SyncRun {
    pub stage: SyncStage,
    pub pushed: bool,
    pub commit_id: String,
    pub error: String,
}

pub open spec fn opt_seq(o: Option<String>) -> Option<Seq<char>> {
    match o {
        Some(s) => Some(s@),
        None => None,
    }
}

/// The stage after `stage` on an event that is not a failure; `Failed` for
/// an event that does not fit the stage.
pub open spec fn next_stage(stage: SyncStage, ev: SyncEvent) -> SyncStage {
    match (stage, ev) {
        (SyncStage::EnsureLocalCopy, SyncEvent::StepDone) => SyncStage::Fetch,
        (SyncStage::Fetch, SyncEvent::StepDone) => SyncStage::FastForward,
        (SyncStage::FastForward, SyncEvent::StepDone) => SyncStage::WriteFiles,
        (SyncStage::WriteFiles, SyncEvent::StepDone) => SyncStage::StageFiles,
        (SyncStage::StageFiles, SyncEvent::TreeComputed { head_tree, new_tree }) => if opt_seq(
            head_tree,
        ) == Some(new_tree@) {
            SyncStage::Done
        } else {
            SyncStage::Commit
        },
        (SyncStage::Commit, SyncEvent::CommitCreated(_)) => SyncStage::Push,
        (SyncStage::Push, SyncEvent::StepDone) => SyncStage::Done,
        _ => SyncStage::Failed,
    }
}

/// The action that starts a stage.
pub open spec fn stage_action(stage: SyncStage, ev: SyncEvent) -> SyncAction {
    match stage {
        SyncStage::Fetch => SyncAction::FetchBranch,
        SyncStage::FastForward => SyncAction::FastForwardAndCheckout,
        SyncStage::WriteFiles => SyncAction::WriteFiles,
        SyncStage::StageFiles => SyncAction::StageFiles,
        SyncStage::Commit => SyncAction::CommitTree {
            with_parent: match ev {
                SyncEvent::TreeComputed { head_tree, new_tree: _ } => head_tree is Some,
                _ => false,
            },
        },
        SyncStage::Push => SyncAction::PushBranch,
        _ => SyncAction::Stop,
    }
}

/// An attempt has pushed once the push step has succeeded.
pub open spec fn pushed_after(from: SyncStage, to: SyncStage) -> bool {
    to == SyncStage::Done && from == SyncStage::Push
}

/// The commit id is the one reported after the commit step, else unchanged.
pub open spec fn commit_id_after(from: SyncStage, ev: SyncEvent, id: Seq<char>) -> Seq<char> {
    match (from, ev) {
        (SyncStage::Commit, SyncEvent::CommitCreated(c)) => c@,
        _ => id,
    }
}

impl SyncRun {
    pub open spec fn finished(&self) -> bool {
        self.stage == SyncStage::Done || self.stage == SyncStage::Failed
    }

    /// Starts an attempt: the working copy is opened when its repository
    /// metadata is there, else cloned.
    pub fn begin(repo_present: bool) -> (r: (SyncRun, SyncAction))
        ensures
            r.0.stage == SyncStage::EnsureLocalCopy,
            !r.0.pushed,
            r.0.commit_id@.len() == 0,
            repo_present ==> r.1 == SyncAction::OpenRepository,
            !repo_present ==> r.1 == SyncAction::CloneRepository,
    {
        let run = SyncRun {
            stage: SyncStage::EnsureLocalCopy,
            pushed: false,
            commit_id: String::new(),
            error: String::new(),
        };
        let action = if repo_present {
            SyncAction::OpenRepository
        } else {
            SyncAction::CloneRepository
        };
        (run, action)
    }

    /// Takes the outcome of the last action and gives the next one. A
    /// failure, or an event that does not fit the stage, ends the attempt;
    /// when the new tree equals HEAD's the attempt ends without a commit.
    pub fn advance(&mut self, event: SyncEvent) -> (r: SyncAction)
        requires
            !old(self).finished(),
        ensures
            event is StepFailed ==> final(self).stage == SyncStage::Failed && r == SyncAction::Stop
                && final(self).error@ == match event {
                SyncEvent::StepFailed(m) => m@,
                _ => Seq::empty(),
            },
            !(event is StepFailed) ==> final(self).stage == next_stage(old(self).stage, event)
                && r == stage_action(final(self).stage, event),
            final(self).pushed == pushed_after(old(self).stage, final(self).stage),
            final(self).commit_id@ == commit_id_after(old(self).stage, event, old(self).commit_id@),
    {
        let ghost ev = event;
        let old_stage = self.stage;
        let next = match event {
            SyncEvent::StepFailed(m) => {
                self.stage = SyncStage::Failed;
                self.error = m;
                self.pushed = false;
                return SyncAction::Stop;
            },
            SyncEvent::StepDone => match old_stage {
                SyncStage::EnsureLocalCopy => (SyncStage::Fetch, SyncAction::FetchBranch),
                SyncStage::Fetch => (SyncStage::FastForward, SyncAction::FastForwardAndCheckout),
                SyncStage::FastForward => (SyncStage::WriteFiles, SyncAction::WriteFiles),
                SyncStage::WriteFiles => (SyncStage::StageFiles, SyncAction::StageFiles),
                SyncStage::Push => (SyncStage::Done, SyncAction::Stop),
                _ => (SyncStage::Failed, SyncAction::Stop),
            },
            SyncEvent::TreeComputed { head_tree, new_tree } => match old_stage {
                SyncStage::StageFiles => {
                    let unchanged = match &head_tree {
                        Some(h) => crate::text::str_eq(h.as_str(), new_tree.as_str()),
                        None => false,
                    };
                    if unchanged {
                        (SyncStage::Done, SyncAction::Stop)
                    } else {
                        (SyncStage::Commit, SyncAction::CommitTree { with_parent: head_tree.is_some() })
                    }
                },
                _ => (SyncStage::Failed, SyncAction::Stop),
            },
            SyncEvent::CommitCreated(id) => match old_stage {
                SyncStage::Commit => {
                    self.commit_id = id;
                    (SyncStage::Push, SyncAction::PushBranch)
                },
                _ => (SyncStage::Failed, SyncAction::Stop),
            },
        };
        self.stage = next.0;
        self.pushed = next.0 == SyncStage::Done && old_stage == SyncStage::Push;
        next.1
    }
}

/// A repeated attempt over unchanged files: when the tree computed from the
/// index equals the tree of HEAD, the attempt ends there, having pushed
/// nothing, with an empty commit id, and asks for no commit.
pub proof fn lemma_unchanged_tree_ends_without_commit(
    run: SyncRun,
    tree: String,
    head: String,
)
    requires
        run.stage == SyncStage::StageFiles,
        run.commit_id@.len() == 0,
        head@ == tree@,
    ensures
        ({
            let ev = SyncEvent::TreeComputed { head_tree: Some(head), new_tree: tree };
            &&& next_stage(run.stage, ev) == SyncStage::Done
            &&& stage_action(next_stage(run.stage, ev), ev) == SyncAction::Stop
            &&& !pushed_after(run.stage, next_stage(run.stage, ev))
            &&& commit_id_after(run.stage, ev, run.commit_id@).len() == 0
        }),
{
}

} // verus!
