use clidesk::launcher::{
    app_not_found_message, decimal_text, from_wide, is_console_host, is_terminal_host,
    job_failure_message, job_object_name, language_choice, language_from_args, launch_language,
    launch_mode, launcher_dir_message, launcher_path_message, mode_choice, terminal_host_label,
    to_wide, version_status_lines, JobFailure, Language, Mode, VersionInfo,
};

fn args(v: &[&str]) -> Vec<String> {
    v.iter().map(|s| s.to_string()).collect()
}

#[test]
fn language_codes_are_short_names() {
    assert_eq!(Language::Vi.code(), "vi");
    assert_eq!(Language::En.code(), "en");
}

#[test]
fn language_from_code_ignores_case_and_spaces() {
    assert_eq!(Language::from_code(" VI "), Some(Language::Vi));
    assert_eq!(Language::from_code("Vietnamese"), Some(Language::Vi));
    assert_eq!(Language::from_code("en"), Some(Language::En));
    assert_eq!(Language::from_code("\tENGLISH\n"), Some(Language::En));
    assert_eq!(Language::from_code("fr"), None);
    assert_eq!(Language::from_code(""), None);
}

#[test]
fn language_code_round_trip() {
    for l in [Language::Vi, Language::En] {
        assert_eq!(Language::from_code(l.code()), Some(l));
    }
}

#[test]
fn language_flags_first_one_decides() {
    assert_eq!(language_from_args(&args(&["app", "--en", "--vi"])), Some(Language::En));
    assert_eq!(language_from_args(&args(&["app", "--vi"])), Some(Language::Vi));
    assert_eq!(language_from_args(&args(&["app", "--lang=english"])), Some(Language::En));
    assert_eq!(language_from_args(&args(&["app", "--lang=xx", "--vi"])), None);
}

#[test]
fn language_separate_lang_argument() {
    assert_eq!(language_from_args(&args(&["app", "--lang", "en"])), Some(Language::En));
    assert_eq!(language_from_args(&args(&["app", "--lang"])), None);
    assert_eq!(language_from_args(&args(&["app"])), None);
    assert_eq!(language_from_args(&args(&["app", "--lang", "de"])), None);
}

#[test]
fn launch_language_falls_back() {
    assert_eq!(launch_language(&args(&["app"]), None), Some(Language::Vi));
    assert_eq!(launch_language(&args(&["app"]), Some("EN".to_string())), Some(Language::En));
    assert_eq!(launch_language(&args(&["app", "--interactive"]), None), None);
    assert_eq!(
        launch_language(&args(&["app", "--interactive", "--vi"]), Some("en".to_string())),
        Some(Language::Vi)
    );
}

#[test]
fn launch_mode_precedence() {
    assert_eq!(launch_mode(&args(&["app", "--hidden", "--detached"])), Some(Mode::Detached));
    assert_eq!(launch_mode(&args(&["app", "--visible", "--hidden"])), Some(Mode::Hidden));
    assert_eq!(launch_mode(&args(&["app", "--no-menu", "--interactive"])), Some(Mode::Visible));
    assert_eq!(launch_mode(&args(&["app", "--interactive"])), None);
    assert_eq!(launch_mode(&args(&["app"])), Some(Mode::Visible));
}

#[test]
fn menu_answers() {
    assert_eq!(language_choice(" 1\n"), Some(Language::Vi));
    assert_eq!(language_choice("2"), Some(Language::En));
    assert_eq!(language_choice("3"), None);
    assert_eq!(mode_choice("1\r\n"), Some(Mode::Hidden));
    assert_eq!(mode_choice("2"), Some(Mode::Visible));
    assert_eq!(mode_choice(""), None);
}

#[test]
fn version_info_defaults() {
    let v = VersionInfo::from_env(None, None, None, None);
    assert_eq!(v.current, "dev");
    assert_eq!(v.latest, None);
    assert!(!v.update_available);
    assert_eq!(v.update_command, "npm i -g clidesk");
}

#[test]
fn version_info_from_values() {
    let v = VersionInfo::from_env(
        Some("1.2.3".to_string()),
        Some("  1.3.0 ".to_string()),
        Some("TRUE".to_string()),
        Some("   ".to_string()),
    );
    assert_eq!(v.current, "1.2.3");
    assert_eq!(v.latest, Some("1.3.0".to_string()));
    assert!(v.update_available);
    assert_eq!(v.update_command, "npm i -g clidesk");
    let w = VersionInfo::from_env(Some("  ".to_string()), Some(" ".to_string()), Some("yes".to_string()), Some("pnpm up".to_string()));
    assert_eq!(w.current, "dev");
    assert_eq!(w.latest, None);
    assert!(!w.update_available);
    assert_eq!(w.update_command, "pnpm up");
}

#[test]
fn version_banner_lines() {
    let v = VersionInfo::from_env(Some("1.0.0".to_string()), None, Some("1".to_string()), None);
    assert_eq!(
        version_status_lines(Language::En, &v),
        vec![
            "[CliDesk] Current version: 1.0.0".to_string(),
            "[CliDesk] Update available: latest".to_string(),
            "[CliDesk] Update: npm i -g clidesk".to_string(),
        ]
    );
    let w = VersionInfo::from_env(Some("2.0".to_string()), None, None, None);
    assert_eq!(version_status_lines(Language::Vi, &w), vec!["[CliDesk] Phiên bản hiện tại: 2.0".to_string()]);
}

#[test]
fn wide_strings_end_with_nul() {
    assert_eq!(to_wide("ab"), vec![0x61, 0x62, 0]);
    assert_eq!(to_wide(""), vec![0]);
    assert_eq!(to_wide("é😀"), vec![0xE9, 0xD83D, 0xDE00, 0]);
    let expected: Vec<u16> = "Tiếng Việt 😀".encode_utf16().chain(std::iter::once(0)).collect();
    assert_eq!(to_wide("Tiếng Việt 😀"), expected);
}

#[test]
fn wide_strings_read_back() {
    assert_eq!(from_wide(&[0x61, 0x62, 0, 0x63]), "ab");
    assert_eq!(from_wide(&[0x61, 0x62]), "ab");
    assert_eq!(from_wide(&[0xD83D, 0xDE00]), "😀");
    assert_eq!(from_wide(&[0xD800, 0x61]), "\u{FFFD}a");
    assert_eq!(from_wide(&[0xDC00]), "\u{FFFD}");
    let odd = [0x41, 0xDC00, 0xD83D, 0xDE00, 0xD83D];
    assert_eq!(from_wide(&odd), String::from_utf16_lossy(&odd));
}

#[test]
fn wide_round_trip() {
    for s in ["", "CliDesk", "C:\\Program Files\\CliDesk\\clidesk.exe", "Tiếng Việt 😀 ∑"] {
        assert_eq!(from_wide(&to_wide(s)), s);
    }
}

#[test]
fn console_hosts() {
    assert!(is_terminal_host("windowsterminal.exe"));
    assert!(is_terminal_host("wt.exe"));
    assert!(!is_terminal_host("conhost.exe"));
    assert!(is_console_host("conhost.exe"));
    assert!(is_console_host("openconsole.exe"));
    assert!(!is_console_host("explorer.exe"));
    assert_eq!(terminal_host_label(true, true), "Windows Terminal");
    assert_eq!(terminal_host_label(false, true), "conhost/CMD/powershell (classic)");
    assert_eq!(terminal_host_label(false, false), "unknown (no console)");
}

#[test]
fn job_names_use_decimal_pid() {
    assert_eq!(decimal_text(0), "0");
    assert_eq!(decimal_text(4294967295), "4294967295");
    assert_eq!(job_object_name(1234), "Local\\CliDeskJob_1234");
}

#[test]
fn launcher_messages() {
    assert_eq!(
        app_not_found_message(Language::En, "C:\\x\\clidesk.exe"),
        "[CliDesk] App binary not found.\n[CliDesk] Path: C:\\x\\clidesk.exe"
    );
    assert_eq!(
        launcher_path_message(Language::Vi, "denied"),
        "[CliDesk] Không thể lấy đường dẫn launcher: denied"
    );
    assert_eq!(launcher_dir_message(Language::En), "[CliDesk] Failed to resolve launcher directory.");
    assert_eq!(
        job_failure_message(Language::En, &JobFailure::Open { path: "a.exe".to_string(), detail: "boom".to_string() }),
        "[CliDesk] Failed to open CliDesk.\n[CliDesk] Path: a.exe\n[CliDesk] Error: boom"
    );
    assert_eq!(job_failure_message(Language::Vi, &JobFailure::Create), "[CliDesk] Không thể tạo Windows Job Object.");
    assert_eq!(job_failure_message(Language::En, &JobFailure::Assign), "[CliDesk] Failed to assign CliDesk to Windows Job Object.");
}
