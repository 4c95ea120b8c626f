//! Which credential scheme a sync attempt uses, whether the configuration
//! supplies what that scheme needs, and the credential handed to the remote.

use vstd::prelude::*;
use crate::config::SyncConfig;
use crate::text::{
    ascii_lower, chars_of, contains, is_blank, str_contains, str_eq, to_ascii_lower, trim,
    trim_str,
};

verus! {

/// The two credential schemes.
#[derive(Debug, Clone, Copy, PartialEq, Eq, Structural)]
pub enum AuthMode {
    Password,
    Ssh,
}

/// The configured method, trimmed and in lower case.
pub open spec fn method_word(cfg: SyncConfig) -> Seq<char> {
    ascii_lower(trim(cfg.auth_method@))
}

/// The remote is on a host known to prefer SSH.
pub open spec fn prefers_ssh(repo_url: Seq<char>) -> bool {
    contains(ascii_lower(trim(repo_url)), "github.com"@)
}

pub open spec fn filled(s: Seq<char>) -> bool {
    trim(s).len() > 0
}

/// The scheme for a configuration, or `None` for an unknown method.
pub open spec fn auth_mode_for(cfg: SyncConfig) -> Option<AuthMode> {
    let w = method_word(cfg);
    if w == "password"@ || w == "userpass"@ || w == "https"@ {
        Some(AuthMode::Password)
    } else if w == "ssh"@ {
        Some(AuthMode::Ssh)
    } else if w == "auto"@ || w.len() == 0 {
        if prefers_ssh(cfg.repo_url@) {
            Some(AuthMode::Ssh)
        } else if filled(cfg.username@) && filled(cfg.password@) {
            Some(AuthMode::Password)
        } else if filled(cfg.ssh_private_key_path@) {
            Some(AuthMode::Ssh)
        } else {
            Some(AuthMode::Password)
        }
    } else {
        None
    }
}

/// Whether the remote URL names a host known to prefer SSH.
pub fn looks_like_github_repo(repo_url: &str) -> (r: bool)
    ensures
        r == prefers_ssh(repo_url@),
{
    let lower = to_ascii_lower(trim_str(repo_url).as_str());
    str_contains(lower.as_str(), "github.com")
}

/// Picks the credential scheme: an explicit method is honoured; `auto` (or
/// nothing) prefers SSH for a known SSH host, then a username and password,
/// then a private key, then a password.
pub fn resolve_auth_mode(cfg: &SyncConfig) -> (r: Result<AuthMode, String>)
    ensures
        match auth_mode_for(*cfg) {
            Some(m) => r == Ok::<AuthMode, String>(m),
            None => r matches Err(e) && e@ == "sync.auth_method must be one of: auto, password, ssh"@,
        },
{
    let method = to_ascii_lower(trim_str(cfg.auth_method.as_str()).as_str());
    let w = method.as_str();
    if str_eq(w, "password") || str_eq(w, "userpass") || str_eq(w, "https") {
        return Ok(AuthMode::Password);
    }
    if str_eq(w, "ssh") {
        return Ok(AuthMode::Ssh);
    }
    if str_eq(w, "auto") || w.unicode_len() == 0 {
        if looks_like_github_repo(cfg.repo_url.as_str()) {
            return Ok(AuthMode::Ssh);
        }
        if !is_blank(cfg.username.as_str()) && !is_blank(cfg.password.as_str()) {
            return Ok(AuthMode::Password);
        }
        if !is_blank(cfg.ssh_private_key_path.as_str()) {
            return Ok(AuthMode::Ssh);
        }
        return Ok(AuthMode::Password);
    }
    Err(String::from_str("sync.auth_method must be one of: auto, password, ssh"))
}

/// Unix path joining: an absolute `rest` replaces `base`; otherwise one `/`
/// separates them.
pub open spec fn join_path(base: Seq<char>, rest: Seq<char>) -> Seq<char> {
    if rest.len() > 0 && rest[0] == '/' {
        rest
    } else if base.len() == 0 {
        rest
    } else if base.last() == '/' {
        base + rest
    } else {
        base + "/"@ + rest
    }
}

/// `~` and `~/rest` are taken relative to the home directory; other paths are
/// kept. `None` when a `~` path has no home directory, or is of another form.
pub open spec fn expand_tilde(input: Seq<char>, home: Option<Seq<char>>) -> Option<Seq<char>> {
    if input.len() == 0 || input[0] != '~' {
        Some(input)
    } else {
        match home {
            None => None,
            Some(h) => if input.len() == 1 {
                Some(h)
            } else if input[1] == '/' {
                Some(join_path(h, input.subrange(2, input.len() as int)))
            } else {
                None
            },
        }
    }
}

fn join_path_exec(base: &str, rest: &[char]) -> (r: String)
    ensures
        r@ == join_path(base@, rest@),
{
    let b = chars_of(base);
    let rest_s = crate::text::string_of(rest);
    if rest.len() > 0 && rest[0] == '/' {
        return rest_s;
    }
    if b.len() == 0 {
        return rest_s;
    }
    let mut out = String::from_str(base);
    if b[b.len() - 1] != '/' {
        out.append("/");
    }
    out.append(rest_s.as_str());
    out
}

/// Expands a leading `~` to `home` (the user's home directory, if known).
pub fn expand_tilde_path(input: &str, home: Option<&str>) -> (r: Result<String, String>)
    ensures
        match expand_tilde(input@, match home {
            Some(h) => Some(h@),
            None => None,
        }) {
            Some(p) => r matches Ok(x) && x@ == p,
            None => r is Err,
        },
{
    let v = chars_of(input);
    if v.len() == 0 || v[0] != '~' {
        return Ok(String::from_str(input));
    }
    let h = match home {
        Some(h) => h,
        None => {
            return Err(String::from_str("HOME env is required when using ~ in ssh key path"));
        },
    };
    if v.len() == 1 {
        return Ok(String::from_str(h));
    }
    if v[1] == '/' {
        let rest = crate::text::copy_range(&v, 2, v.len());
        return Ok(join_path_exec(h, &rest));
    }
    Err(String::from_str("unsupported ~ path form, use ~/xxx for ssh key path"))
}

pub open spec fn opt_seq(o: Option<&str>) -> Option<Seq<char>> {
    match o {
        Some(h) => Some(h@),
        None => None,
    }
}

/// What must still hold before a sync attempt may start.
#[derive(Debug)]
pub enum AuthReady {
    /// Username and password are present.
    Password,
    /// The private key file at this path must exist.
    KeyFile(String),
}

/// Checks that the configuration supplies what `mode` needs. For SSH the
/// private key path is expanded; the caller checks that the file exists.
pub fn validate_auth_config(cfg: &SyncConfig, mode: AuthMode, home: Option<&str>) -> (r: Result<
    AuthReady,
    String,
>)
    ensures
        mode == AuthMode::Password ==> (r is Ok <==> filled(cfg.username@) && filled(
            cfg.password@,
        )),
        mode == AuthMode::Password ==> (r is Ok ==> r matches Ok(AuthReady::Password)),
        mode == AuthMode::Ssh ==> match (filled(cfg.ssh_private_key_path@), expand_tilde(
            trim(cfg.ssh_private_key_path@),
            opt_seq(home),
        )) {
            (true, Some(p)) => r matches Ok(AuthReady::KeyFile(k)) && k@ == p,
            _ => r is Err,
        },
{
    match mode {
        AuthMode::Password => {
            if is_blank(cfg.username.as_str()) || is_blank(cfg.password.as_str()) {
                if looks_like_github_repo(cfg.repo_url.as_str()) {
                    return Err(
                        String::from_str(
                            "GitHub repo should use ssh auth. set sync.auth_method='ssh' and sync.ssh_private_key_path",
                        ),
                    );
                }
                return Err(
                    String::from_str(
                        "sync.username and sync.password are required for password auth",
                    ),
                );
            }
            Ok(AuthReady::Password)
        },
        AuthMode::Ssh => {
            if is_blank(cfg.ssh_private_key_path.as_str()) {
                return Err(String::from_str("sync.ssh_private_key_path is required for ssh auth"));
            }
            let key = trim_str(cfg.ssh_private_key_path.as_str());
            match expand_tilde_path(key.as_str(), home) {
                Ok(p) => Ok(AuthReady::KeyFile(p)),
                Err(e) => Err(e),
            }
        },
    }
}

/// The message for a private key file that does not exist.
pub fn missing_key_error(key_path: &str) -> (r: String)
    ensures
        r@ == "ssh private key not found: "@ + key_path@,
{
    let mut msg = String::from_str("ssh private key not found: ");
    msg.append(key_path);
    msg
}

/// The credential offered to the remote.
#[derive(Debug)]
pub enum Credential {
    UserPass { username: String, password: String },
    SshKey {
        username: String,
        public_key: Option<String>,
        private_key: String,
        passphrase: Option<String>,
    },
}

pub open spec fn is_userpass_of(c: Credential, cfg: SyncConfig) -> bool {
    match c {
        Credential::UserPass { username, password } => username@ == cfg.username@ && password@
            == cfg.password@,
        _ => false,
    }
}

/// The SSH user: the configured one, else the one the remote asked for, else `git`.
pub open spec fn ssh_user(cfg: SyncConfig, requested: Option<&str>) -> Seq<char> {
    if filled(cfg.ssh_username@) {
        cfg.ssh_username@
    } else {
        match requested {
            Some(u) => u@,
            None => "git"@,
        }
    }
}

/// The public key path: none when not configured, `None` when it cannot be expanded.
pub open spec fn ssh_public(cfg: SyncConfig, home: Option<&str>) -> Option<Option<Seq<char>>> {
    if !filled(cfg.ssh_public_key_path@) {
        Some(None)
    } else {
        match expand_tilde(trim(cfg.ssh_public_key_path@), opt_seq(home)) {
            Some(p) => Some(Some(p)),
            None => None,
        }
    }
}

pub open spec fn is_ssh_key_of(
    c: Credential,
    cfg: SyncConfig,
    requested: Option<&str>,
    private_key_path: Seq<char>,
    public_key_path: Option<Seq<char>>,
) -> bool {
    match c {
        Credential::SshKey { username, public_key, private_key, passphrase } => {
            &&& username@ == ssh_user(cfg, requested)
            &&& private_key@ == private_key_path
            &&& opt_str(public_key) == public_key_path
            &&& opt_str(passphrase) == if filled(cfg.ssh_passphrase@) {
                Some(cfg.ssh_passphrase@)
            } else {
                None
            }
        },
        _ => false,
    }
}

pub open spec fn opt_str(o: Option<String>) -> Option<Seq<char>> {
    match o {
        Some(s) => Some(s@),
        None => None,
    }
}

/// The credential for a request from the remote, from the configuration
/// alone: `requested_username` is the name the remote asked for, if any, and
/// `home` the user's home directory, if known.
pub fn resolve_credential(
    cfg: &SyncConfig,
    mode: AuthMode,
    requested_username: Option<&str>,
    home: Option<&str>,
) -> (r: Result<Credential, String>)
    ensures
        mode == AuthMode::Password ==> (r matches Ok(c) && is_userpass_of(c, *cfg)),
        mode == AuthMode::Ssh ==> match (
            expand_tilde(trim(cfg.ssh_private_key_path@), opt_seq(home)),
            ssh_public(*cfg, home),
        ) {
            (Some(k), Some(pk)) => r matches Ok(c) && is_ssh_key_of(
                c,
                *cfg,
                requested_username,
                k,
                pk,
            ),
            _ => r is Err,
        },
{
    match mode {
        AuthMode::Password => Ok(
            Credential::UserPass {
                username: String::from_str(cfg.username.as_str()),
                password: String::from_str(cfg.password.as_str()),
            },
        ),
        AuthMode::Ssh => {
            let username = if !is_blank(cfg.ssh_username.as_str()) {
                String::from_str(cfg.ssh_username.as_str())
            } else {
                match requested_username {
                    Some(u) => String::from_str(u),
                    None => String::from_str("git"),
                }
            };
            let key = trim_str(cfg.ssh_private_key_path.as_str());
            let private_key = match expand_tilde_path(key.as_str(), home) {
                Ok(p) => p,
                Err(e) => {
                    return Err(e);
                },
            };
            let public_key = if is_blank(cfg.ssh_public_key_path.as_str()) {
                None
            } else {
                let pk = trim_str(cfg.ssh_public_key_path.as_str());
                match expand_tilde_path(pk.as_str(), home) {
                    Ok(p) => Some(p),
                    Err(e) => {
                        return Err(e);
                    },
                }
            };
            let passphrase = if is_blank(cfg.ssh_passphrase.as_str()) {
                None
            } else {
                Some(String::from_str(cfg.ssh_passphrase.as_str()))
            };
            Ok(Credential::SshKey { username, public_key, private_key, passphrase })
        },
    }
}

/// With the `auto` method (or none), a remote on a host known to prefer SSH
/// is reached over SSH, whatever username and password are configured.
pub proof fn lemma_auto_mode_prefers_ssh_host(cfg: SyncConfig)
    requires
        method_word(cfg) == "auto"@ || method_word(cfg).len() == 0,
        prefers_ssh(cfg.repo_url@),
    ensures
        auth_mode_for(cfg) == Some(AuthMode::Ssh),
{
    reveal_strlit("auto");
    reveal_strlit("password");
    reveal_strlit("userpass");
    reveal_strlit("https");
    reveal_strlit("ssh");
    let w = method_word(cfg);
    if w == "auto"@ {
        assert(w != "password"@ && w != "userpass"@ && w != "https"@ && w != "ssh"@) by {
            assert(w[0] == 'a');
        }
    }
}

} // verus!
