use std::io::Write;

use daylog::auth::{
    expand_tilde_path, looks_like_github_repo, resolve_auth_mode, resolve_credential,
    validate_auth_config, AuthMode, AuthReady, Credential,
};
use daylog::config::{AppConfig, SyncConfig};
use daylog::import::{
    import_response, normalize_patterns, parse_zip, select_scan_entries, startup_import_patterns,
};
use daylog::import::{scan_step, ScanStep};
use daylog::journal::Journal;
use daylog::placeholders::{default_date_placeholders, default_import_patterns_by};
use daylog::resp::{ApiCode, ApiResponse};
use daylog::settings::stored_import_patterns;
use daylog::sync::{
    plan_sync, push_refspec, remote_branch_ref, sync_precheck, sync_response, SyncAction,
    SyncEvent, SyncRun, SyncStage,
};
use daylog::sync_plan::{build_output_files, ensure_md_path, normalize_format, validate_rel_path};
use daylog::upload::{file_hash, resolve_target, sanitize_file_name, unique_file_name};

fn zip_of(entries: &[(&str, &str)]) -> Vec<u8> {
    let mut w = zip::ZipWriter::new(std::io::Cursor::new(Vec::new()));
    let opts = zip::write::SimpleFileOptions::default()
        .compression_method(zip::CompressionMethod::Stored);
    for (name, body) in entries {
        w.start_file(*name, opts).unwrap();
        w.write_all(body.as_bytes()).unwrap();
    }
    w.finish().unwrap().into_inner()
}

fn journal(id: i64, date: &str, content: &str) -> Journal {
    Journal {
        id,
        content: content.to_string(),
        date: date.to_string(),
        create_time: 0,
        update_time: 0,
    }
}

fn strings(v: &[&str]) -> Vec<String> {
    v.iter().map(|s| s.to_string()).collect()
}

#[test]
fn archive_import_counts_markdown_candidates() {
    let ph = default_date_placeholders();
    let bytes = zip_of(&[
        ("2024/03/05.md", "first"),
        ("2024-03-06.md", "second"),
        ("notes.txt", "ignored"),
    ]);
    let res = parse_zip(bytes, &default_import_patterns_by(&ph), &ph).unwrap();
    assert_eq!(res.total_markdown_files, 2);
    assert_eq!(res.matched_files, 2);
    assert_eq!(res.entries[0].date, "2024-03-05");
    assert_eq!(res.entries[0].content, "first");
    assert_eq!(res.entries[1].date, "2024-03-06");
    assert!(res.skipped_details.is_empty());
}

#[test]
fn archive_import_skips_unmatched_and_normalises_names() {
    let ph = default_date_placeholders();
    let bytes = zip_of(&[("dir\\2024\\01\\02.md", "a"), ("diary/readme.MD", "b")]);
    let res = parse_zip(bytes, &default_import_patterns_by(&ph), &ph).unwrap();
    assert_eq!(res.total_markdown_files, 2);
    assert_eq!(res.matched_files, 1);
    assert_eq!(res.entries[0].path, "dir/2024/01/02.md");
    assert_eq!(res.entries[0].date, "2024-01-02");
    assert_eq!(res.skipped_details.len(), 1);
    assert_eq!(res.skipped_details[0].path, "diary/readme.MD");
}

#[test]
fn archive_that_is_not_a_zip_fails() {
    let ph = default_date_placeholders();
    let r = parse_zip(b"not a zip".to_vec(), &default_import_patterns_by(&ph), &ph);
    assert_eq!(r.unwrap_err(), "invalid zip file");
}

#[test]
fn import_response_reports_store_failures() {
    let ph = default_date_placeholders();
    let bytes = zip_of(&[("2024/03/05.md", "x"), ("2024/03/06.md", "y"), ("bad.md", "z")]);
    let res = parse_zip(bytes, &default_import_patterns_by(&ph), &ph).unwrap();
    let resp = import_response(res, &[true, false], strings(&["p"]));
    assert_eq!(resp.imported_count, 1);
    assert_eq!(resp.skipped_count, 2);
    assert_eq!(resp.skipped_details[1].path, "2024/03/06.md");
    assert_eq!(resp.skipped_details[1].reason, "store write failed");
    assert_eq!(resp.skipped_paths[1], "2024/03/06.md (store write failed)");
    assert!(resp.skipped_paths[0].starts_with("bad.md (path not match patterns: "));
}

#[test]
fn scan_keeps_first_file_of_a_date() {
    let ph = default_date_placeholders();
    let sel = select_scan_entries(
        &strings(&["2024/03/05.md", "2024-03-05.md", "todo.md"]),
        &default_import_patterns_by(&ph),
        &ph,
    );
    assert_eq!(sel.accepted.len(), 1);
    assert_eq!(sel.accepted[0].path, "2024/03/05.md");
    assert_eq!(sel.accepted[0].date, "2024-03-05");
    assert_eq!(sel.skipped_count, 2);
}

#[test]
fn scan_of_two_files_with_one_date() {
    let ph = default_date_placeholders();
    let sel = select_scan_entries(
        &strings(&["a\\2024\\03\\05.md", "2024_03_05.md"]),
        &default_import_patterns_by(&ph),
        &ph,
    );
    assert_eq!(sel.accepted.len(), 1);
    assert_eq!(sel.accepted[0].path, "a/2024/03/05.md");
    assert_eq!(sel.skipped_count, 1);
}

#[test]
fn request_patterns_are_parsed_cleaned_and_checked() {
    let ph = default_date_placeholders();
    let defaults = default_import_patterns_by(&ph);
    assert_eq!(normalize_patterns(None, defaults.clone(), &ph).unwrap(), defaults);
    assert_eq!(normalize_patterns(Some("   "), defaults.clone(), &ph).unwrap(), defaults);
    let json = normalize_patterns(Some(r#"["{date}.md", "{date}.md", " "]"#), defaults.clone(), &ph);
    assert_eq!(json.unwrap(), strings(&["{date}.md"]));
    let listed = normalize_patterns(
        Some("{yyyy}/{MM}/{dd}.md;\n{date}.md , {yyyy}/{MM}/{dd}.md"),
        defaults.clone(),
        &ph,
    );
    assert_eq!(listed.unwrap(), strings(&["{yyyy}/{MM}/{dd}.md", "{date}.md"]));
    assert!(normalize_patterns(Some("{yyyy}.md"), defaults.clone(), &ph).is_err());
    assert_eq!(
        normalize_patterns(Some("[]"), defaults, &ph).unwrap_err(),
        "patterns required"
    );
}

#[test]
fn startup_patterns_fall_back_to_output_path() {
    let ph = default_date_placeholders();
    let r = startup_import_patterns(&strings(&[" ", ""]), "journals/{yyyy}/{MM}-{dd}/{d}.md", &ph);
    assert_eq!(r.unwrap(), strings(&["journals/{yyyy}/{MM}-{dd}/{d}.md"]));
    let r = startup_import_patterns(&strings(&[" {date}.md "]), "x.md", &ph);
    assert_eq!(r.unwrap(), strings(&["{date}.md"]));
    assert!(startup_import_patterns(&strings(&["{MM}.md"]), "x.md", &ph).is_err());
}

#[test]
fn stored_patterns_without_content_give_none() {
    assert!(stored_import_patterns(&strings(&[" ", ""])).is_none());
    assert_eq!(stored_import_patterns(&strings(&[" a ", ""])).unwrap(), strings(&["a"]));
}

fn sync_cfg() -> SyncConfig {
    let mut c = SyncConfig::default();
    c.enabled = true;
    c.repo_url = "https://git.example.com/me/journal.git".to_string();
    c
}

#[test]
fn sync_config_defaults() {
    let c = SyncConfig::default();
    assert!(!c.enabled);
    assert_eq!(c.branch, "main");
    assert_eq!(c.auth_method, "auto");
    assert_eq!(c.ssh_username, "git");
    assert_eq!(c.output_path, "journals/{yyyy}/{MM}-{dd}/{d}.md");
    assert_eq!(c.commit_message, "sync journals {timestamp} count={count}");
}

#[test]
fn ssh_host_in_auto_mode_uses_ssh() {
    let mut c = sync_cfg();
    c.repo_url = " git@GitHub.com:me/journal.git".to_string();
    c.username = "me".to_string();
    c.password = "secret".to_string();
    assert_eq!(resolve_auth_mode(&c).unwrap(), AuthMode::Ssh);
    c.auth_method = "".to_string();
    assert_eq!(resolve_auth_mode(&c).unwrap(), AuthMode::Ssh);
}

#[test]
fn auth_mode_resolution_order() {
    let mut c = sync_cfg();
    assert_eq!(resolve_auth_mode(&c).unwrap(), AuthMode::Password);
    c.ssh_private_key_path = "~/.ssh/id".to_string();
    assert_eq!(resolve_auth_mode(&c).unwrap(), AuthMode::Ssh);
    c.username = "me".to_string();
    c.password = "pw".to_string();
    assert_eq!(resolve_auth_mode(&c).unwrap(), AuthMode::Password);
    c.auth_method = " SSH ".to_string();
    assert_eq!(resolve_auth_mode(&c).unwrap(), AuthMode::Ssh);
    c.auth_method = "https".to_string();
    assert_eq!(resolve_auth_mode(&c).unwrap(), AuthMode::Password);
    c.auth_method = "token".to_string();
    assert!(resolve_auth_mode(&c).is_err());
    assert!(looks_like_github_repo("https://github.com/a/b"));
    assert!(!looks_like_github_repo("https://gitlab.com/a/b"));
}

#[test]
fn auth_config_checks() {
    let mut c = sync_cfg();
    assert!(validate_auth_config(&c, AuthMode::Password, None).is_err());
    c.username = "me".to_string();
    c.password = "pw".to_string();
    assert!(matches!(validate_auth_config(&c, AuthMode::Password, None), Ok(AuthReady::Password)));
    assert!(validate_auth_config(&c, AuthMode::Ssh, None).is_err());
    c.ssh_private_key_path = " ~/.ssh/id_ed25519 ".to_string();
    match validate_auth_config(&c, AuthMode::Ssh, Some("/home/me")) {
        Ok(AuthReady::KeyFile(p)) => assert_eq!(p, "/home/me/.ssh/id_ed25519"),
        other => panic!("unexpected {:?}", other),
    }
    assert!(validate_auth_config(&c, AuthMode::Ssh, None).is_err());
}

#[test]
fn tilde_expansion() {
    assert_eq!(expand_tilde_path("~/k", Some("/home/u")).unwrap(), "/home/u/k");
    assert_eq!(expand_tilde_path("~/k", Some("/home/u/")).unwrap(), "/home/u/k");
    assert_eq!(expand_tilde_path("~", Some("/home/u")).unwrap(), "/home/u");
    assert_eq!(expand_tilde_path("/etc/k", None).unwrap(), "/etc/k");
    assert!(expand_tilde_path("~bob/k", Some("/home/u")).is_err());
    assert!(expand_tilde_path("~/k", None).is_err());
}

#[test]
fn credentials_from_configuration() {
    let mut c = sync_cfg();
    c.username = "me".to_string();
    c.password = "pw".to_string();
    match resolve_credential(&c, AuthMode::Password, Some("x"), None).unwrap() {
        Credential::UserPass { username, password } => {
            assert_eq!(username, "me");
            assert_eq!(password, "pw");
        }
        other => panic!("unexpected {:?}", other),
    }
    c.ssh_username = " ".to_string();
    c.ssh_private_key_path = "~/id".to_string();
    c.ssh_passphrase = "phrase".to_string();
    match resolve_credential(&c, AuthMode::Ssh, Some("deploy"), Some("/h")).unwrap() {
        Credential::SshKey { username, public_key, private_key, passphrase } => {
            assert_eq!(username, "deploy");
            assert_eq!(private_key, "/h/id");
            assert!(public_key.is_none());
            assert_eq!(passphrase.unwrap(), "phrase");
        }
        other => panic!("unexpected {:?}", other),
    }
    match resolve_credential(&c, AuthMode::Ssh, None, Some("/h")).unwrap() {
        Credential::SshKey { username, .. } => assert_eq!(username, "git"),
        other => panic!("unexpected {:?}", other),
    }
}

#[test]
fn precheck_of_sync() {
    let mut c = SyncConfig::default();
    assert_eq!(sync_precheck(&c).unwrap_err(), "sync disabled in config");
    c.enabled = true;
    assert_eq!(sync_precheck(&c).unwrap_err(), "sync.repo_url is required");
    c.repo_url = "https://example.com/r.git".to_string();
    assert_eq!(sync_precheck(&c).unwrap(), AuthMode::Password);
}

#[test]
fn relative_output_paths() {
    assert_eq!(validate_rel_path(" a/b.md ").unwrap(), "a/b.md");
    assert_eq!(validate_rel_path("  ").unwrap_err(), "path is empty");
    assert_eq!(validate_rel_path("/a.md").unwrap_err(), "absolute path is not allowed");
    assert_eq!(validate_rel_path("a/../b.md").unwrap_err(), "parent dir is not allowed");
    assert!(ensure_md_path("a/b.MD").is_ok());
    assert!(ensure_md_path("a/.md").is_err());
    assert!(ensure_md_path("a/b.txt").is_err());
    assert_eq!(normalize_format(" MD ").unwrap(), "markdown");
    assert!(normalize_format("html").is_err());
}

#[test]
fn one_file_per_entry_with_date_template() {
    let ph = default_date_placeholders();
    let js = vec![journal(1, "2024-03-05", "hello"), journal(2, "2024-12-25", "xmas")];
    let fs = build_output_files("journals/{yyyy}/{MM}-{dd}/{d}.md", "markdown", &js, &ph).unwrap();
    assert_eq!(fs.len(), 2);
    assert_eq!(fs[0].rel_path, "journals/2024/03-05/5.md");
    assert_eq!(fs[0].content, "# 2024-03-05\n\nhello\n");
    assert_eq!(fs[1].rel_path, "journals/2024/12-25/25.md");
    let none = build_output_files("journals/{yyyy}/{MM}-{dd}.md", "markdown", &[], &ph);
    assert_eq!(none.unwrap_err(), "no journals to sync for markdown template output");
    let bad = build_output_files("{yyyy}/{MM}.md", "markdown", &[journal(1, "2024-3-5", "x")], &ph);
    assert!(bad.is_err());
}

#[test]
fn one_aggregate_file_without_date_template() {
    let ph = default_date_placeholders();
    let js = vec![journal(1, "2024-03-05", "a"), journal(2, "2024-03-06", "b")];
    let fs = build_output_files("all.md", "markdown", &js, &ph).unwrap();
    assert_eq!(fs.len(), 1);
    assert_eq!(fs[0].rel_path, "all.md");
    assert_eq!(
        fs[0].content,
        "# DayLog Journals\n\n## 2024-03-05\n\na\n\n---\n\n## 2024-03-06\n\nb\n\n---\n\n"
    );
    assert!(build_output_files("../all.md", "markdown", &js, &ph).is_err());
    assert!(build_output_files("all.txt", "markdown", &js, &ph).is_err());
}

#[test]
fn sync_plan_and_response() {
    let ph = default_date_placeholders();
    let js = vec![journal(1, "2024-03-05", "a")];
    let plan = plan_sync("notes.md", "sync {count} {date}", "Markdown", &js, &ph, 1709646300).unwrap();
    assert_eq!(plan.format, "markdown");
    assert_eq!(plan.commit_message, "sync 1 2024-03-05");
    assert_eq!(plan.files.len(), 1);
    assert!(plan_sync("notes.md", "m", "html", &js, &ph, 0).unwrap_err().starts_with("invalid output_format: "));
    let r = sync_response(false, String::new(), "notes.md".to_string(), "markdown".to_string());
    assert_eq!(r.message, "no changes to push");
    let r = sync_response(true, "abc".to_string(), "notes.md".to_string(), "markdown".to_string());
    assert_eq!(r.message, "sync success");
}

#[test]
fn branch_references() {
    assert_eq!(remote_branch_ref(" main "), "refs/remotes/origin/main");
    assert_eq!(push_refspec("dev"), "refs/heads/dev:refs/heads/dev");
}

fn run_to_tree(present: bool) -> SyncRun {
    let (mut run, first) = SyncRun::begin(present);
    assert_eq!(first, if present { SyncAction::OpenRepository } else { SyncAction::CloneRepository });
    assert_eq!(run.advance(SyncEvent::StepDone), SyncAction::FetchBranch);
    assert_eq!(run.advance(SyncEvent::StepDone), SyncAction::FastForwardAndCheckout);
    assert_eq!(run.advance(SyncEvent::StepDone), SyncAction::WriteFiles);
    assert_eq!(run.advance(SyncEvent::StepDone), SyncAction::StageFiles);
    run
}

#[test]
fn changed_tree_is_committed_and_pushed() {
    let mut run = run_to_tree(false);
    let a = run.advance(SyncEvent::TreeComputed { head_tree: Some("t1".to_string()), new_tree: "t2".to_string() });
    assert_eq!(a, SyncAction::CommitTree { with_parent: true });
    assert_eq!(run.advance(SyncEvent::CommitCreated("c9".to_string())), SyncAction::PushBranch);
    assert_eq!(run.advance(SyncEvent::StepDone), SyncAction::Stop);
    assert_eq!(run.stage, SyncStage::Done);
    assert!(run.pushed);
    assert_eq!(run.commit_id, "c9");
}

#[test]
fn repeated_sync_with_same_tree_pushes_nothing() {
    let mut first = run_to_tree(true);
    first.advance(SyncEvent::TreeComputed { head_tree: None, new_tree: "t1".to_string() });
    first.advance(SyncEvent::CommitCreated("c1".to_string()));
    first.advance(SyncEvent::StepDone);
    assert!(first.pushed);
    let mut second = run_to_tree(true);
    let a = second.advance(SyncEvent::TreeComputed { head_tree: Some("t1".to_string()), new_tree: "t1".to_string() });
    assert_eq!(a, SyncAction::Stop);
    assert_eq!(second.stage, SyncStage::Done);
    assert!(!second.pushed);
    assert_eq!(second.commit_id, "");
}

#[test]
fn failure_ends_the_attempt() {
    let (mut run, _) = SyncRun::begin(true);
    assert_eq!(run.advance(SyncEvent::StepFailed("auth rejected".to_string())), SyncAction::Stop);
    assert_eq!(run.stage, SyncStage::Failed);
    assert_eq!(run.error, "auth rejected");
    assert!(!run.pushed);
}

#[test]
fn api_codes_and_envelopes() {
    assert_eq!(ApiCode::Success.code(), 200);
    assert_eq!(ApiCode::FileMissing.code(), 2001);
    assert_eq!(ApiCode::SyncFailed.code(), 3001);
    let ok = ApiResponse::ok(5u8);
    assert_eq!((ok.code, ok.msg.as_str(), ok.data), (200, "ok", Some(5u8)));
    let err: ApiResponse<u8> = ApiResponse::err(ApiCode::BadRequest, "bad");
    assert_eq!((err.code, err.msg.as_str(), err.data), (400, "bad", None));
}

#[test]
fn config_paths() {
    let cfg = AppConfig {
        base_path: "/data/".to_string(),
        port: 9999,
        db_path: "db/daylog.sqlite".to_string(),
        picture_path: "picture".to_string(),
        media_path: "media".to_string(),
        file_path: "file".to_string(),
        index_path: "dist/index.html".to_string(),
        static_path: "dist/static".to_string(),
        upload_file_limit: 1,
        auto_switch_port_time: 1,
        sync: SyncConfig::default(),
    };
    assert_eq!(cfg.get_db_path(), "/data/db/daylog.sqlite");
    assert_eq!(cfg.get_picture_path(), "/data/picture/");
    assert_eq!(cfg.get_index_path(), "dist/index.html");
    assert_eq!(cfg.get_sync_repo_path(), "/data/sync-repo");
    let mut abs = cfg.clone();
    abs.sync.repo_local_path = "/srv/repo".to_string();
    assert_eq!(abs.get_sync_repo_path(), "/srv/repo");
    let t = resolve_target(&cfg, Some("image/png"));
    assert_eq!((t.kind.as_str(), t.path.as_str(), t.uri_prefix.as_str()), ("picture", "/data/picture/", "/files/picture"));
    let t = resolve_target(&cfg, Some("video/mp4"));
    assert_eq!(t.kind, "media");
    let t = resolve_target(&cfg, None);
    assert_eq!((t.kind.as_str(), t.path.as_str()), ("file", "/data/file/"));
}

#[test]
fn upload_names_and_hash() {
    assert_eq!(sanitize_file_name("..\\dir/my file?.png"), "my_file_.png");
    assert_eq!(sanitize_file_name(" ../../a..b.txt "), "ab.txt");
    assert_eq!(unique_file_name("a.png", 123, 7), "a_123_7.png");
    assert_eq!(unique_file_name(".bashrc", 1, 2), ".bashrc_1_2");
    assert_eq!(unique_file_name("noext", 1, 2), "noext_1_2");
    assert_eq!(unique_file_name("", 1, 2), "");
    assert_eq!(
        file_hash(b"abc"),
        "ba7816bf8f01cfea414140de5dae2223b00361a396177a9cb410ff61f20015ad"
    );
}

#[test]
fn scan_steps() {
    assert_eq!(scan_step(".git", true, false), ScanStep::Ignore);
    assert_eq!(scan_step("2024", true, false), ScanStep::Descend);
    assert_eq!(scan_step("05.MD", false, true), ScanStep::Collect);
    assert_eq!(scan_step(".md", false, true), ScanStep::Ignore);
    assert_eq!(scan_step("notes.txt", false, true), ScanStep::Ignore);
}

#[test]
fn fixed_error_texts() {
    let mut c = sync_cfg();
    c.auth_method = "token".to_string();
    assert_eq!(resolve_auth_mode(&c).unwrap_err(), "sync.auth_method must be one of: auto, password, ssh");
    assert_eq!(daylog::sync_plan::render_journals("html", &[]).unwrap_err(), "unsupported format");
}

#[test]
fn first_invalid_pattern_is_named() {
    let ph = default_date_placeholders();
    let defaults = default_import_patterns_by(&ph);
    let e = normalize_patterns(Some("{date}.md, {yyyy}.md, {MM}.md"), defaults, &ph).unwrap_err();
    assert_eq!(
        e,
        "invalid pattern '{yyyy}.md' , required placeholders: {yyyy}+{MM}|{M}+{dd}|{d} or {date}"
    );
    let e = startup_import_patterns(&strings(&["{MM}.md"]), "x.md", &ph).unwrap_err();
    assert_eq!(
        e,
        "invalid import pattern '{MM}.md' , required placeholders: {yyyy}+{MM}|{M}+{dd}|{d} or {date}"
    );
    let e = startup_import_patterns(&strings(&[]), "notes.md", &ph).unwrap_err();
    assert!(e.starts_with("invalid import pattern 'notes.md'"));
}

#[test]
fn archive_skip_reason_lists_patterns() {
    let ph = default_date_placeholders();
    let bytes = zip_of(&[("readme.md", "x")]);
    let pats = strings(&["{date}.md"]);
    let res = parse_zip(bytes, &pats, &ph).unwrap();
    assert_eq!(res.skipped_details[0].reason, "path not match patterns: [{date}.md] value contains non-digit");
}
