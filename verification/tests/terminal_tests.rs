use clidesk::models::{ShellConfig, TerminalStatus};
use clidesk::terminal_service::{
    pick_shell, pty_error, reader_step, restart_failed, shell_command, Platform, PtyFailure,
    PtyRead, ReaderAction, TerminalService,
};

const NOW: &str = "2024-05-01T12:00:00+00:00";

fn shell(id: &str) -> ShellConfig {
    ShellConfig { id: id.to_string(), label: id.to_uppercase(), executable: format!("/bin/{}", id), args: vec!["-l".to_string()] }
}

fn is_v4(id: &str) -> bool {
    let b: Vec<char> = id.chars().collect();
    b.len() == 36
        && b[8] == '-' && b[13] == '-' && b[18] == '-' && b[23] == '-'
        && b[14] == '4'
        && "89ab".contains(b[19])
        && b.iter().enumerate().all(|(i, c)| [8, 13, 18, 23].contains(&i) || c.is_ascii_hexdigit() && !c.is_ascii_uppercase())
}

#[test]
fn windows_shells() {
    let v = TerminalService::<u8>::get_default_shell(Platform::Windows, Some("/bin/zsh".to_string()));
    let ids: Vec<&str> = v.iter().map(|s| s.id.as_str()).collect();
    assert_eq!(ids, vec!["powershell", "pwsh", "cmd"]);
    assert_eq!(v[0].label, "PowerShell");
    assert_eq!(v[0].executable, "powershell.exe");
    assert_eq!(v[0].args, vec!["-NoLogo".to_string()]);
    assert_eq!(v[1].label, "PowerShell Core");
    assert_eq!(v[1].executable, "pwsh.exe");
    assert_eq!(v[2].label, "Command Prompt");
    assert_eq!(v[2].executable, "cmd.exe");
    assert!(v[2].args.is_empty());
}

#[test]
fn unix_shells_use_login_shell() {
    let v = TerminalService::<u8>::get_default_shell(Platform::Linux, Some("/bin/zsh".to_string()));
    assert_eq!(v.len(), 3);
    assert_eq!(v[0].id, "default");
    assert_eq!(v[0].label, "Default (/bin/zsh)");
    assert_eq!(v[0].executable, "/bin/zsh");
    assert_eq!(v[1].id, "bash");
    assert_eq!(v[1].label, "Bash");
    assert_eq!(v[1].executable, "/bin/bash");
    assert_eq!(v[2].id, "sh");
    assert_eq!(v[2].label, "SH");
    assert_eq!(v[2].executable, "/bin/sh");
    let w = TerminalService::<u8>::detect_shells(Platform::Other, None);
    assert_eq!(w[0].label, "Default (/bin/bash)");
    assert_eq!(w[0].executable, "/bin/bash");
}

#[test]
fn shell_choice_by_id_or_first() {
    let shells = vec![shell("zsh"), shell("fish")];
    assert_eq!(pick_shell(&shells, "fish").id, "fish");
    assert_eq!(pick_shell(&shells, "nope").id, "zsh");
}

#[test]
fn elevated_linux_shell_runs_under_sudo() {
    let s = shell("bash");
    let c = shell_command(&s, "/work", true, Platform::Linux);
    assert_eq!(c.program, "sudo");
    assert_eq!(c.args, vec!["-H", "-u", "root", "/bin/bash", "-l"]);
    assert_eq!(c.cwd, Some("/work".to_string()));
    let d = shell_command(&s, "", true, Platform::Windows);
    assert_eq!(d.program, "/bin/bash");
    assert_eq!(d.args, vec!["-l"]);
    assert_eq!(d.cwd, None);
    let e = shell_command(&s, "/w", false, Platform::Linux);
    assert_eq!(e.program, "/bin/bash");
    assert_eq!(e.args, vec!["-l"]);
}

#[test]
fn elevation_by_platform() {
    assert!(TerminalService::<u8>::is_elevated(Platform::Windows, 1000, true));
    assert!(!TerminalService::<u8>::is_elevated(Platform::Windows, 0, false));
    assert!(TerminalService::<u8>::is_elevated(Platform::Linux, 0, false));
    assert!(!TerminalService::<u8>::is_elevated(Platform::Linux, 1000, true));
    assert!(!TerminalService::<u8>::is_elevated(Platform::Other, 0, true));
}

#[test]
fn restart_only_on_windows() {
    let e = TerminalService::<u8>::restart_as_admin(Platform::Linux, Ok("/usr/bin/clidesk".to_string())).err().unwrap();
    assert_eq!(e.code, "RESTART_ERROR");
    assert_eq!(e.message, "Restart as admin is only supported on Windows");
    let e2 = TerminalService::<u8>::restart_as_admin(Platform::Windows, Err("gone".to_string())).err().unwrap();
    assert_eq!(e2.code, "RESTART_ERROR");
    assert_eq!(e2.message, "Cannot get executable path: gone");
    let c = TerminalService::<u8>::restart_as_admin(Platform::Windows, Ok("C:\\App\\clidesk.exe".to_string())).ok().unwrap();
    assert_eq!(c.program, "powershell");
    assert_eq!(c.args, vec!["-Command", "Start-Process -FilePath 'C:\\App\\clidesk.exe' -Verb RunAs"]);
    let f = restart_failed("denied");
    assert_eq!(f.code, "RESTART_ERROR");
    assert_eq!(f.message, "Failed to restart as admin: denied");
}

#[test]
fn spawn_then_get_and_list() {
    let mut t: TerminalService<u32> = TerminalService::new();
    let a = t.spawn_terminal("p1", "/w", shell("bash"), false, NOW.to_string(), 7);
    assert!(is_v4(&a.id));
    assert_eq!(a.title, "Terminal");
    assert_eq!(a.status, TerminalStatus::Running);
    assert_eq!(a.exit_code, None);
    assert!(!a.elevated);
    assert_eq!(a.created_at, NOW);
    let b = t.spawn_terminal("p2", "/x", shell("sh"), true, NOW.to_string(), 8);
    let c = t.spawn_terminal("p1", "/y", shell("sh"), false, NOW.to_string(), 9);
    let got = t.get_session(&a.id).unwrap();
    assert_eq!(got.id, a.id);
    assert_eq!(got.cwd, "/w");
    assert_eq!(*t.pty_for(&b.id).ok().unwrap(), 8);
    let listed: Vec<String> = t.list_sessions("p1").into_iter().map(|s| s.id).collect();
    assert_eq!(listed, vec![a.id.clone(), c.id.clone()]);
    assert!(t.list_sessions("p3").is_empty());
}

#[test]
fn stop_keeps_session_killed() {
    let mut t: TerminalService<u32> = TerminalService::new();
    let a = t.spawn_terminal("p", "/w", shell("bash"), false, NOW.to_string(), 1);
    assert!(t.stop_terminal(&a.id).is_ok());
    let s = t.get_session(&a.id).unwrap();
    assert_eq!(s.status, TerminalStatus::Killed);
    assert_eq!(s.project_id, "p");
    assert!(t.pty_for(&a.id).is_err());
    assert!(t.kill_terminal(&a.id).is_ok());
}

#[test]
fn close_forgets_session() {
    let mut t: TerminalService<u32> = TerminalService::new();
    let a = t.spawn_terminal("p", "/w", shell("bash"), false, NOW.to_string(), 1);
    let b = t.spawn_terminal("p", "/w", shell("bash"), false, NOW.to_string(), 2);
    assert!(t.close_terminal(&a.id).is_ok());
    assert!(t.get_session(&a.id).is_none());
    assert!(t.get_session(&b.id).is_some());
    let e = t.close_terminal(&a.id).err().unwrap();
    assert_eq!(e.code, "TERMINAL_NOT_FOUND");
    assert_eq!(e.message, format!("Terminal '{}' not found", a.id));
}

#[test]
fn unknown_terminal_errors() {
    let mut t: TerminalService<u32> = TerminalService::new();
    let e = t.stop_terminal("zz").err().unwrap();
    assert_eq!(e.code, "TERMINAL_NOT_FOUND");
    assert_eq!(e.message, "Terminal 'zz' not found");
    let e2 = t.pty_for("zz").err().unwrap();
    assert_eq!(e2.message, "Terminal 'zz' not found");
}

#[test]
fn kill_all_counts_and_clears() {
    let mut t: TerminalService<u32> = TerminalService::new();
    let a = t.spawn_terminal("p", "/w", shell("bash"), false, NOW.to_string(), 1);
    let _b = t.spawn_terminal("p", "/w", shell("bash"), false, NOW.to_string(), 2);
    t.stop_terminal(&a.id).unwrap();
    assert_eq!(t.kill_all(), 2);
    assert!(t.list_sessions("p").is_empty());
    assert!(t.get_session(&a.id).is_none());
    assert_eq!(t.kill_all(), 0);
}

#[test]
fn reader_output_and_exit_events() {
    match reader_step("t1", PtyRead::Bytes(b"hi \xff".to_vec())) {
        ReaderAction::Output { event, data } => {
            assert_eq!(event, "terminal://output/t1");
            assert_eq!(data, "hi \u{FFFD}");
        }
        _ => panic!("expected output"),
    }
    match reader_step("t1", PtyRead::Bytes(b"ls -la\r\n".to_vec())) {
        ReaderAction::Output { data, .. } => assert_eq!(data, "ls -la\r\n"),
        _ => panic!("expected output"),
    }
    match reader_step("t1", PtyRead::Eof { exit_code: Some(3) }) {
        ReaderAction::Exit { event, payload } => {
            assert_eq!(event, "terminal://exit/t1");
            assert_eq!(payload.terminal_id, "t1");
            assert_eq!(payload.exit_code, Some(3));
            assert_eq!(payload.reason, "exited");
            assert_eq!(payload.message, None);
        }
        _ => panic!("expected exit"),
    }
    match reader_step("t1", PtyRead::Eof { exit_code: Some(4294967295) }) {
        ReaderAction::Exit { payload, .. } => assert_eq!(payload.exit_code, Some(-1)),
        _ => panic!("expected exit"),
    }
    match reader_step("t2", PtyRead::Failed("broken pipe".to_string())) {
        ReaderAction::Exit { event, payload } => {
            assert_eq!(event, "terminal://exit/t2");
            assert_eq!(payload.exit_code, None);
            assert_eq!(payload.reason, "error");
            assert_eq!(payload.message, Some("broken pipe".to_string()));
        }
        _ => panic!("expected exit"),
    }
}

#[test]
fn pty_errors() {
    let e = pty_error(PtyFailure::Open, "no pty");
    assert_eq!(e.code, "PTY_OPEN_ERROR");
    assert_eq!(e.message, "Cannot create pseudo-terminal: no pty");
    let e = pty_error(PtyFailure::Spawn("/bin/zsh".to_string()), "not found");
    assert_eq!(e.code, "PTY_SPAWN_ERROR");
    assert_eq!(e.message, "Cannot spawn shell '/bin/zsh': not found");
    let e = pty_error(PtyFailure::Writer, "x");
    assert_eq!((e.code.as_str(), e.message.as_str()), ("PTY_WRITER_ERROR", "Cannot get PTY writer: x"));
    let e = pty_error(PtyFailure::Reader, "y");
    assert_eq!((e.code.as_str(), e.message.as_str()), ("PTY_READER_ERROR", "Cannot get PTY reader: y"));
    let e = pty_error(PtyFailure::Write, "z");
    assert_eq!((e.code.as_str(), e.message.as_str()), ("PTY_WRITE_ERROR", "z"));
    let e = pty_error(PtyFailure::Flush, "z");
    assert_eq!(e.code, "PTY_FLUSH_ERROR");
    let e = pty_error(PtyFailure::Resize, "z");
    assert_eq!(e.code, "PTY_RESIZE_ERROR");
}

#[test]
fn reader_passes_ansi_output_through() {
    let raw = b"\x1b[31mred\x1b[0m\r\n$ ".to_vec();
    match reader_step("t", PtyRead::Bytes(raw.clone())) {
        ReaderAction::Output { data, .. } => assert_eq!(data.as_bytes(), raw.as_slice()),
        _ => panic!("expected output"),
    }
}

#[test]
fn stopped_and_closed_terminals_have_no_pty() {
    let mut t: TerminalService<u32> = TerminalService::new();
    let a = t.spawn_terminal("p", "/w", shell("bash"), false, NOW.to_string(), 1);
    let b = t.spawn_terminal("p", "/w", shell("bash"), false, NOW.to_string(), 2);
    let c = t.spawn_terminal("p", "/w", shell("bash"), false, NOW.to_string(), 3);
    t.stop_terminal(&a.id).unwrap();
    t.close_terminal(&b.id).unwrap();
    t.kill_terminal(&c.id).unwrap();
    assert!(t.pty_for(&a.id).is_err());
    assert!(t.pty_for(&b.id).is_err());
    assert!(t.pty_for(&c.id).is_err());
}
