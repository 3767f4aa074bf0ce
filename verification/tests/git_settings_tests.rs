use clidesk::git_service::{GitCommand, GitRun, GitService, GitStatusFlow, GitStatusStep};
use clidesk::models::AppError;
use clidesk::settings_service::{SettingLookup, SettingsDbAction, SettingsService};

fn err(code: &str, message: &str) -> AppError {
    AppError::new(code, message)
}

#[test]
fn git_command_arguments() {
    assert_eq!(GitCommand::IsInsideWorkTree.args(), vec!["rev-parse", "--is-inside-work-tree"]);
    assert_eq!(GitCommand::CurrentBranch.args(), vec!["rev-parse", "--abbrev-ref", "HEAD"]);
    assert_eq!(
        GitCommand::Status { untracked: true }.args(),
        vec!["status", "--porcelain=v1", "-b", "--untracked-files=normal"]
    );
    assert_eq!(GitCommand::Status { untracked: false }.label(), "git status (retry without untracked)");
    let d = GitService::diff_command("src/a.rs", true);
    assert_eq!(d.args(), vec!["diff", "--cached", "--", "src/a.rs"]);
    assert_eq!(d.label(), "git diff --cached");
    assert_eq!(GitService::diff_command("b", false).args(), vec!["diff", "--", "b"]);
}

#[test]
fn parse_porcelain_status() {
    let out = "## main...origin/main [ahead 2, behind 1]\n M src/a.rs\nA  new.txt\n?? tmp/\nD  gone.rs\nR  old -> new\nUU both.rs\n!! ignored\n";
    assert!(GitService::is_parsable_status(out));
    let st = GitService::parse_status_output(out, Some("main".to_string()), false);
    assert!(st.is_repo);
    assert_eq!(st.branch.as_deref(), Some("main"));
    assert_eq!(st.ahead, Some(2));
    assert_eq!(st.behind, Some(1));
    let files: Vec<(&str, &str, &str, &str)> = st
        .files
        .iter()
        .map(|f| (f.path.as_str(), f.index_status.as_str(), f.working_tree_status.as_str(), f.display_status.as_str()))
        .collect();
    assert_eq!(
        files,
        vec![
            ("src/a.rs", " ", "M", "modified"),
            ("new.txt", "A", " ", "added"),
            ("tmp/", "?", "?", "untracked"),
            ("gone.rs", "D", " ", "deleted"),
            ("old -> new", "R", " ", "renamed"),
            ("both.rs", "U", "U", "conflicted"),
            ("ignored", "!", "!", "unknown"),
        ]
    );
    assert!(!st.slow_mode && !st.skipped_untracked);
}

#[test]
fn parse_branch_line_variants() {
    let st = GitService::parse_status_output("## dev [behind 7]\n", None, true);
    assert_eq!(st.ahead, None);
    assert_eq!(st.behind, Some(7));
    assert!(st.slow_mode && st.skipped_untracked);
    let st2 = GitService::parse_status_output("## dev\nab\n", None, false);
    assert_eq!(st2.ahead, None);
    assert!(st2.files.is_empty());
}

#[test]
fn unsafe_status_output_is_refused() {
    assert!(!GitService::is_parsable_status("é  x\n"));
    assert!(!GitService::is_parsable_status("## x ]a[\n"));
    assert!(GitService::is_parsable_status("é\n"));
}

#[test]
fn status_flow_not_a_repo() {
    let (cmd, flow) = GitService::begin_status();
    assert!(matches!(cmd, GitCommand::IsInsideWorkTree));
    match GitService::get_status(flow, Ok((false, String::new()))) {
        GitStatusStep::Finished(Ok(st)) => {
            assert!(!st.is_repo);
            assert!(st.files.is_empty());
            assert_eq!(st.branch, None);
        }
        _ => panic!("expected an empty status"),
    }
}

#[test]
fn status_flow_full_run() {
    let step = GitService::get_status(GitStatusFlow::AwaitRepoCheck, Ok((true, "true\n".to_string())));
    let flow = match step {
        GitStatusStep::Run(GitCommand::CurrentBranch, f) => f,
        _ => panic!("expected the branch query"),
    };
    let step = GitService::get_status(flow, Ok((true, " feature/x \n".to_string())));
    let flow = match step {
        GitStatusStep::Run(GitCommand::Status { untracked: true }, f) => f,
        _ => panic!("expected the status query"),
    };
    match GitService::get_status(flow, Ok((true, "## feature/x\n M a\n".to_string()))) {
        GitStatusStep::Finished(Ok(st)) => {
            assert_eq!(st.branch.as_deref(), Some("feature/x"));
            assert_eq!(st.files.len(), 1);
            assert!(!st.slow_mode);
        }
        _ => panic!("expected a status"),
    }
}

#[test]
fn status_flow_timeout_retry() {
    let flow = GitStatusFlow::AwaitStatus { branch: None };
    let step = GitService::get_status(flow, Err(err("GIT_TIMEOUT", "git status took too long (>5s)")));
    let flow = match step {
        GitStatusStep::Run(GitCommand::Status { untracked: false }, f) => f,
        _ => panic!("expected a retry"),
    };
    match GitService::get_status(flow, Ok((true, "## main\n".to_string()))) {
        GitStatusStep::Finished(Ok(st)) => assert!(st.slow_mode && st.skipped_untracked),
        _ => panic!("expected a slow status"),
    }
    let flow2 = GitStatusFlow::AwaitRetry { branch: None, first_error: err("GIT_TIMEOUT", "first") };
    match GitService::get_status(flow2, Err(err("GIT_TIMEOUT", "second"))) {
        GitStatusStep::Finished(Err(e)) => assert_eq!(e.message, "first"),
        _ => panic!("expected the first error"),
    }
    match GitService::get_status(GitStatusFlow::AwaitStatus { branch: None }, Err(err("GIT_COMMAND_ERROR", "x"))) {
        GitStatusStep::Finished(Err(e)) => assert_eq!(e.code, "GIT_COMMAND_ERROR"),
        _ => panic!("expected the error"),
    }
    match GitService::get_status(GitStatusFlow::AwaitRepoCheck, Err(err("GIT_TIMEOUT", "slow"))) {
        GitStatusStep::Finished(Err(e)) => assert_eq!(e.message, "slow"),
        _ => panic!("expected the error"),
    }
}

#[test]
fn git_run_outcomes() {
    let c = GitCommand::Status { untracked: true };
    let (ok, out) = GitService::git_reply(&c, GitRun::Output { success: false, stdout: b"x\xffy".to_vec() }).unwrap();
    assert!(!ok);
    assert_eq!(out, "x\u{FFFD}y");
    let e = GitService::git_reply(&c, GitRun::TimedOut).err().unwrap();
    assert_eq!((e.code.as_str(), e.message.as_str()), ("GIT_TIMEOUT", "git status took too long (>5s)"));
    let e = GitService::git_reply(&GitCommand::IsInsideWorkTree, GitRun::SpawnFailed("No such file".to_string())).err().unwrap();
    assert_eq!(e.code, "GIT_COMMAND_ERROR");
    assert_eq!(e.message, "Failed to run git rev-parse. Is Git installed and in PATH? No such file");
    let e = GitService::git_reply(&GitCommand::CurrentBranch, GitRun::Disconnected).err().unwrap();
    assert_eq!(e.message, "git rev-parse (branch) process panicked");
}

#[test]
fn diff_results() {
    let d = GitService::get_diff("a.rs", Ok((false, "diff --git".to_string()))).unwrap();
    assert_eq!(d.path, "a.rs");
    assert_eq!(d.diff, "diff --git");
    let e = GitService::get_diff("a.rs", Err(err("GIT_TIMEOUT", "t"))).err().unwrap();
    assert_eq!(e.code, "GIT_TIMEOUT");
}

#[test]
fn settings_validation() {
    assert!(SettingsService::validate("ui.theme", "dark").is_ok());
    assert!(SettingsService::validate("terminal.defaultShell.linux", "anything").is_ok());
    assert!(SettingsService::validate("editor.fontSize", "8").is_ok());
    assert!(SettingsService::validate("editor.fontSize", "+72").is_ok());
    let e = SettingsService::validate("nope", "x").err().unwrap();
    assert_eq!((e.code.as_str(), e.message.as_str()), ("INVALID_SETTING_KEY", "Unknown setting key: nope"));
    let e = SettingsService::validate("security.mode", "lax").err().unwrap();
    assert_eq!(e.message, "Security mode must be: relaxed, standard, or strict");
    let e = SettingsService::validate("ui.theme", "blue").err().unwrap();
    assert_eq!(e.message, "Theme must be: light or dark");
    let e = SettingsService::validate("ui.language", "fr").err().unwrap();
    assert_eq!(e.message, "Language must be: vi or en");
    let e = SettingsService::validate("terminal.fontSize", "73").err().unwrap();
    assert_eq!(e.message, "Font size must be between 8 and 72");
    let e = SettingsService::validate("terminal.fontSize", "7").err().unwrap();
    assert_eq!(e.code, "INVALID_SETTING_VALUE");
    let e = SettingsService::validate("terminal.fontSize", "big").err().unwrap();
    assert_eq!(e.message, "Font size must be a number");
    let e = SettingsService::validate("tray.close_to_tray", "yes").err().unwrap();
    assert_eq!(e.message, "Tray setting must be 'true' or 'false'");
}

#[test]
fn settings_rows_and_lookups() {
    let row = SettingsService::set("ui.language", "en", "2024-05-01T12:00:00+00:00".to_string()).unwrap();
    assert_eq!(row.key, "ui.language");
    assert_eq!(row.value, "en");
    assert_eq!(row.updated_at, "2024-05-01T12:00:00+00:00");
    assert!(SettingsService::set("ui.language", "de", "2024-05-01T12:00:00+00:00".to_string()).is_err());
    assert_eq!(SettingsService::get(SettingLookup::Found("dark".to_string())).unwrap(), Some("dark".to_string()));
    assert_eq!(SettingsService::get(SettingLookup::NoRows).unwrap(), None);
    let e = SettingsService::get(SettingLookup::Failed("locked".to_string())).err().unwrap();
    assert_eq!((e.code.as_str(), e.message.as_str()), ("DB_QUERY_ERROR", "Failed to get setting: locked"));
    let all = SettingsService::get_all(vec![Ok(("a".to_string(), "1".to_string())), Err("bad".to_string())]);
    assert_eq!(all, vec![("a".to_string(), "1".to_string())]);
    assert_eq!(SettingsService::db_error(SettingsDbAction::Save, "x").code, "DB_UPDATE_ERROR");
    assert_eq!(SettingsService::db_error(SettingsDbAction::Read, "x").message, "Failed to map settings: x");
}

#[test]
fn default_settings_validate() {
    let d = SettingsService::defaults();
    assert_eq!(d.len(), 4);
    assert_eq!(d[0], ("security.mode".to_string(), "standard".to_string()));
    for (k, v) in &d {
        assert!(SettingsService::validate(k, v).is_ok());
    }
}
