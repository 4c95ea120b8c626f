//! Static configuration: the application's paths and the repository sync
//! settings, with their defaults.

use vstd::prelude::*;
use crate::text::{replace_all, replace_str, starts_with, str_starts_with};

verus! {

pub fn default_base_path() -> (r: String)
    ensures
        r@ == ".daylog"@,
{
    String::from_str(".daylog")
}

pub fn default_port() -> (r: u16)
    ensures
        r == 9999,
{
    9999
}

pub fn default_db_path() -> (r: String)
    ensures
        r@ == "db/daylog.sqlite"@,
{
    String::from_str("db/daylog.sqlite")
}

pub fn default_picture_path() -> (r: String)
    ensures
        r@ == "picture"@,
{
    String::from_str("picture")
}

pub fn default_media_path() -> (r: String)
    ensures
        r@ == "media"@,
{
    String::from_str("media")
}

pub fn default_file_path() -> (r: String)
    ensures
        r@ == "file"@,
{
    String::from_str("file")
}

pub fn default_index_path() -> (r: String)
    ensures
        r@ == "dist/index.html"@,
{
    String::from_str("dist/index.html")
}

pub fn default_static_path() -> (r: String)
    ensures
        r@ == "dist/static"@,
{
    String::from_str("dist/static")
}

/// 100 MiB.
pub fn default_upload_file_limit() -> (r: usize)
    ensures
        r == 104857600,
{
    1024 * 1024 * 100
}

pub fn default_auto_switch_port_time() -> (r: i16)
    ensures
        r == 100,
{
    100
}

pub fn default_sync_enabled() -> (r: bool)
    ensures
        !r,
{
    false
}

pub fn default_sync_repo_url() -> (r: String)
    ensures
        r@.len() == 0,
{
    String::new()
}

pub fn default_sync_branch() -> (r: String)
    ensures
        r@ == "main"@,
{
    String::from_str("main")
}

pub fn default_sync_username() -> (r: String)
    ensures
        r@.len() == 0,
{
    String::new()
}

pub fn default_sync_password() -> (r: String)
    ensures
        r@.len() == 0,
{
    String::new()
}

pub fn default_sync_auth_method() -> (r: String)
    ensures
        r@ == "auto"@,
{
    String::from_str("auto")
}

pub fn default_sync_ssh_username() -> (r: String)
    ensures
        r@ == "git"@,
{
    String::from_str("git")
}

pub fn default_sync_ssh_private_key_path() -> (r: String)
    ensures
        r@.len() == 0,
{
    String::new()
}

pub fn default_sync_ssh_public_key_path() -> (r: String)
    ensures
        r@.len() == 0,
{
    String::new()
}

pub fn default_sync_ssh_passphrase() -> (r: String)
    ensures
        r@.len() == 0,
{
    String::new()
}

pub fn default_sync_author_name() -> (r: String)
    ensures
        r@ == "day-log-bot"@,
{
    String::from_str("day-log-bot")
}

pub fn default_sync_author_email() -> (r: String)
    ensures
        r@ == "day-log-bot@example.com"@,
{
    String::from_str("day-log-bot@example.com")
}

pub fn default_sync_commit_message() -> (r: String)
    ensures
        r@ == "sync journals {timestamp} count={count}"@,
{
    String::from_str("sync journals {timestamp} count={count}")
}

pub fn default_sync_output_format() -> (r: String)
    ensures
        r@ == "markdown"@,
{
    String::from_str("markdown")
}

pub fn default_sync_output_path() -> (r: String)
    ensures
        r@ == "journals/{yyyy}/{MM}-{dd}/{d}.md"@,
{
    String::from_str("journals/{yyyy}/{MM}-{dd}/{d}.md")
}

pub fn default_sync_repo_local_path() -> (r: String)
    ensures
        r@ == "sync-repo"@,
{
    String::from_str("sync-repo")
}

pub fn default_sync_import_patterns() -> (r: Vec<String>)
    ensures
        r@.len() == 0,
{
    Vec::new()
}

/// Settings of the mirror repository and of the files written into it.
#[derive(Debug, Clone)]
pub struct SyncConfig {
    pub enabled: bool,
    pub repo_url: String,
    pub branch: String,
    pub username: String,
    pub password: String,
    pub auth_method: String,
    pub ssh_username: String,
    pub ssh_private_key_path: String,
    pub ssh_public_key_path: String,
    pub ssh_passphrase: String,
    pub author_name: String,
    pub author_email: String,
    pub commit_message: String,
    pub output_format: String,
    pub output_path: String,
    pub repo_local_path: String,
    pub import_patterns: Vec<String>,
}

impl Default for SyncConfig {
    fn default() -> (r: SyncConfig)
        ensures
            !r.enabled,
            r.repo_url@.len() == 0,
            r.branch@ == "main"@,
            r.username@.len() == 0,
            r.password@.len() == 0,
            r.auth_method@ == "auto"@,
            r.ssh_username@ == "git"@,
            r.ssh_private_key_path@.len() == 0,
            r.ssh_public_key_path@.len() == 0,
            r.ssh_passphrase@.len() == 0,
            r.author_name@ == "day-log-bot"@,
            r.author_email@ == "day-log-bot@example.com"@,
            r.commit_message@ == "sync journals {timestamp} count={count}"@,
            r.output_format@ == "markdown"@,
            r.output_path@ == "journals/{yyyy}/{MM}-{dd}/{d}.md"@,
            r.repo_local_path@ == "sync-repo"@,
            r.import_patterns@.len() == 0,
    {
        SyncConfig {
            enabled: default_sync_enabled(),
            repo_url: default_sync_repo_url(),
            branch: default_sync_branch(),
            username: default_sync_username(),
            password: default_sync_password(),
            auth_method: default_sync_auth_method(),
            ssh_username: default_sync_ssh_username(),
            ssh_private_key_path: default_sync_ssh_private_key_path(),
            ssh_public_key_path: default_sync_ssh_public_key_path(),
            ssh_passphrase: default_sync_ssh_passphrase(),
            author_name: default_sync_author_name(),
            author_email: default_sync_author_email(),
            commit_message: default_sync_commit_message(),
            output_format: default_sync_output_format(),
            output_path: default_sync_output_path(),
            repo_local_path: default_sync_repo_local_path(),
            import_patterns: default_sync_import_patterns(),
        }
    }
}

/// The application's configuration.
#[derive(Debug, Clone)]
pub struct AppConfig {
    pub base_path: String,
    pub port: u16,
    pub db_path: String,
    pub picture_path: String,
    pub media_path: String,
    pub file_path: String,
    pub index_path: String,
    pub static_path: String,
    pub upload_file_limit: usize,
    pub auto_switch_port_time: i16,
    pub sync: SyncConfig,
}

/// `base/rel`, with doubled slashes collapsed.
pub open spec fn under_base(base: Seq<char>, rel: Seq<char>) -> Seq<char> {
    replace_all(base + "/"@ + rel, "//"@, "/"@)
}

/// `base/rel/`, with doubled slashes collapsed.
pub open spec fn dir_under_base(base: Seq<char>, rel: Seq<char>) -> Seq<char> {
    replace_all(base + "/"@ + rel + "/"@, "//"@, "/"@)
}

fn join_under(base: &str, rel: &str, trailing: bool) -> (r: String)
    ensures
        trailing ==> r@ == dir_under_base(base@, rel@),
        !trailing ==> r@ == under_base(base@, rel@),
{
    let mut p = String::from_str(base);
    p.append("/");
    p.append(rel);
    if trailing {
        p.append("/");
    }
    replace_str(p.as_str(), "//", "/")
}

impl AppConfig {
    pub fn get_db_path(&self) -> (r: String)
        ensures
            r@ == under_base(self.base_path@, self.db_path@),
    {
        join_under(self.base_path.as_str(), self.db_path.as_str(), false)
    }

    pub fn get_index_path(&self) -> (r: String)
        ensures
            r@ == self.index_path@,
    {
        String::from_str(self.index_path.as_str())
    }

    pub fn get_static_path(&self) -> (r: String)
        ensures
            r@ == self.static_path@,
    {
        String::from_str(self.static_path.as_str())
    }

    pub fn get_media_path(&self) -> (r: String)
        ensures
            r@ == dir_under_base(self.base_path@, self.media_path@),
    {
        join_under(self.base_path.as_str(), self.media_path.as_str(), true)
    }

    pub fn get_picture_path(&self) -> (r: String)
        ensures
            r@ == dir_under_base(self.base_path@, self.picture_path@),
    {
        join_under(self.base_path.as_str(), self.picture_path.as_str(), true)
    }

    pub fn get_file_path(&self) -> (r: String)
        ensures
            r@ == dir_under_base(self.base_path@, self.file_path@),
    {
        join_under(self.base_path.as_str(), self.file_path.as_str(), true)
    }

    /// The working tree of the mirror repository: the configured path when it
    /// is absolute (begins with `/`), else that path under the base path.
    pub fn get_sync_repo_path(&self) -> (r: String)
        ensures
            starts_with(self.sync.repo_local_path@, "/"@) ==> r@ == self.sync.repo_local_path@,
            !starts_with(self.sync.repo_local_path@, "/"@) ==> r@ == under_base(
                self.base_path@,
                self.sync.repo_local_path@,
            ),
    {
        if str_starts_with(self.sync.repo_local_path.as_str(), "/") {
            return String::from_str(self.sync.repo_local_path.as_str());
        }
        join_under(self.base_path.as_str(), self.sync.repo_local_path.as_str(), false)
    }
}

} // verus!
