use clidesk::clock::format_instant;
use clidesk::app_info::{
    app_runtime_info, first_non_empty_lines, is_version_newer, npm_update_command, npm_update_result,
    parse_version_parts, update_join_error, update_spawn_error,
};
use clidesk::models::AppError;
use clidesk::paths::{join_paths, path_begins_with, path_components, path_extension, path_file_name};
use clidesk::window::{
    close_request_response, close_requested_event, main_window_label, tray_icon_action, tray_menu, tray_menu_action, MenuEntry,
    WindowAction,
};

#[test]
fn version_parts() {
    assert_eq!(parse_version_parts("1.2.3"), [1, 2, 3]);
    assert_eq!(parse_version_parts("1.2.3-beta.4"), [1, 2, 3]);
    assert_eq!(parse_version_parts("2.x.7"), [2, 0, 7]);
    assert_eq!(parse_version_parts("10"), [10, 0, 0]);
    assert_eq!(parse_version_parts(""), [0, 0, 0]);
    assert_eq!(parse_version_parts("1+2-3"), [1, 2, 3]);
    assert_eq!(parse_version_parts("99999999999999999999.1.1"), [0, 1, 1]);
}

#[test]
fn version_comparison() {
    assert!(is_version_newer("1.2.4", "1.2.3"));
    assert!(is_version_newer("2.0.0", "1.9.9"));
    assert!(!is_version_newer("1.2.3", "1.2.3"));
    assert!(!is_version_newer("1.2.3", "1.10.0"));
    assert!(!is_version_newer("1.2.3-rc.1", "1.2.3"));
}

#[test]
fn version_order_laws_on_samples() {
    let vs = ["0.9.1", "1.0.0", "1.0.0-rc", "1.2", "2.0.0+b", "10.0.0"];
    for a in vs {
        assert!(!is_version_newer(a, a));
        for b in vs {
            assert!(!(is_version_newer(a, b) && is_version_newer(b, a)));
            for c in vs {
                if is_version_newer(a, b) && is_version_newer(b, c) {
                    assert!(is_version_newer(a, c));
                }
            }
        }
    }
}

#[test]
fn update_detail_lines() {
    assert_eq!(first_non_empty_lines("\n  err one \n\nerr two\n", "out"), "err one err two");
    assert_eq!(first_non_empty_lines("  \n", " out a\nout b"), "out a out b");
    assert_eq!(first_non_empty_lines("", "   "), "npm exited without an error message.");
    assert_eq!(first_non_empty_lines("1\n2\n3\n4\n5\n6\n7\n8", ""), "1 2 3 4 5 6");
}

#[test]
fn runtime_info_values() {
    let info = app_runtime_info(None, Some(" 1.5.0 ".to_string()), None, Some("en".to_string()), "1.4.0");
    assert_eq!(info.current_version, "1.4.0");
    assert_eq!(info.latest_version.as_deref(), Some("1.5.0"));
    assert!(info.update_available);
    assert_eq!(info.launch_language.as_deref(), Some("en"));
    assert_eq!(info.update_command, "npm i -g clidesk");
    let info2 = app_runtime_info(Some("2.0.0".to_string()), Some("1.5.0".to_string()), Some("false".to_string()), Some("EN".to_string()), "1.4.0");
    assert_eq!(info2.current_version, "2.0.0");
    assert!(!info2.update_available);
    assert_eq!(info2.launch_language, None);
    let info3 = app_runtime_info(Some(" ".to_string()), None, Some("True".to_string()), None, "0.1.0");
    assert_eq!(info3.current_version, "0.1.0");
    assert!(info3.update_available);
}

#[test]
fn npm_update_outcomes() {
    let ok = npm_update_result(true, b"", b"").unwrap();
    assert!(ok.ok);
    assert_eq!(ok.message, "CliDesk update completed. Restart CliDesk to use the updated version.");
    let e: AppError = npm_update_result(false, b"npm ERR! code E404\nnpm ERR! 404 Not Found", b"").err().unwrap();
    assert_eq!(e.code, "UPDATE_FAILED");
    assert_eq!(e.message, "npm i -g clidesk failed. npm ERR! code E404 npm ERR! 404 Not Found");
    let lossy = npm_update_result(false, b"", b"bad \xff byte").err().unwrap();
    assert_eq!(lossy.message, "npm i -g clidesk failed. bad \u{fffd} byte");
    let e2 = update_spawn_error("not found");
    assert_eq!((e2.code.as_str(), e2.message.as_str()), ("UPDATE_SPAWN_ERROR", "Failed to start npm: not found"));
    let e3 = update_join_error("cancelled");
    assert_eq!((e3.code.as_str(), e3.message.as_str()), ("UPDATE_JOIN_ERROR", "Failed to run update task: cancelled"));
}

#[test]
fn npm_update_commands() {
    let w = npm_update_command(true);
    assert_eq!(w.program, "cmd");
    assert_eq!(w.args, vec!["/d", "/c", "npm", "i", "-g", "clidesk", "--no-audit", "--no-fund"]);
    assert_eq!(w.creation_flags, Some(0x08000000));
    let u = npm_update_command(false);
    assert_eq!(u.program, "npm");
    assert_eq!(u.args, vec!["i", "-g", "clidesk", "--no-audit", "--no-fund"]);
    assert_eq!(u.creation_flags, None);
    assert_eq!(
        u.env,
        vec![
            ("npm_config_loglevel".to_string(), "error".to_string()),
            ("npm_config_logs_max".to_string(), "0".to_string()),
            ("npm_config_update_notifier".to_string(), "false".to_string()),
            ("NO_UPDATE_NOTIFIER".to_string(), "1".to_string()),
        ]
    );
}

#[test]
fn app_error_text() {
    let e = AppError::new("CODE", "message here");
    assert_eq!(e.display_text(), "[CODE] message here");
    let c = e.clone();
    assert_eq!(c.code, "CODE");
    assert_eq!(c.message, "message here");
}

#[test]
fn path_pieces() {
    assert_eq!(path_file_name("/a/b/c.txt").as_deref(), Some("c.txt"));
    assert_eq!(path_file_name("/a/b/").as_deref(), Some("b"));
    assert_eq!(path_file_name("/"), None);
    assert_eq!(path_file_name("a/.."), None);
    assert_eq!(path_extension("x/archive.tar.gz").as_deref(), Some("gz"));
    assert_eq!(path_extension("x/.bashrc"), None);
    assert_eq!(path_extension("x/name."), Some(String::new()));
    assert_eq!(join_paths("/a", "b"), "/a/b");
    assert_eq!(join_paths("/a/", "b"), "/a/b");
    assert_eq!(join_paths("", "b"), "b");
    assert_eq!(path_components("/a//b/./c/"), vec!["/", "a", "b", "c"]);
    assert_eq!(path_components("./x/../y"), vec![".", "x", "..", "y"]);
    assert_eq!(path_components("a/./b"), vec!["a", "b"]);
}

#[test]
fn path_prefixes_by_component() {
    assert!(path_begins_with("/srv/app/src", "/srv/app"));
    assert!(path_begins_with("/srv/app/", "/srv/app"));
    assert!(path_begins_with("/srv//app/./x", "/srv/app"));
    assert!(!path_begins_with("/srv/application", "/srv/app"));
    assert!(!path_begins_with("srv/app", "/srv/app"));
    assert!(path_begins_with("/x", "/"));
    let std_check = |a: &str, b: &str| std::path::Path::new(a).starts_with(b);
    for (a, b) in [("/a/b/c", "/a/b"), ("/a/bc", "/a/b"), ("a/b", "a"), ("./a", "a"), ("/a", "/a/")] {
        assert_eq!(path_begins_with(a, b), std_check(a, b), "{} {}", a, b);
    }
}

#[test]
fn tray_and_window_actions() {
    let menu = tray_menu();
    assert_eq!(menu.len(), 4);
    match &menu[0] {
        MenuEntry::Item { id, label } => assert_eq!((id.as_str(), label.as_str()), ("show", "Show CliDesk")),
        MenuEntry::Separator => panic!("expected an item"),
    }
    assert!(matches!(menu[2], MenuEntry::Separator));
    match &menu[3] {
        MenuEntry::Item { id, label } => assert_eq!((id.as_str(), label.as_str()), ("quit", "Quit")),
        MenuEntry::Separator => panic!("expected an item"),
    }
    assert_eq!(tray_menu_action("show"), WindowAction::ShowAndFocus);
    assert_eq!(tray_menu_action("hide"), WindowAction::Hide);
    assert_eq!(tray_menu_action("quit"), WindowAction::Quit);
    assert_eq!(tray_menu_action("other"), WindowAction::Nothing);
    assert_eq!(tray_icon_action(true), WindowAction::ShowAndFocus);
    assert_eq!(tray_icon_action(false), WindowAction::Nothing);
    assert_eq!(main_window_label(), "main");
    assert_eq!(close_requested_event(), "app://close-requested");
    let response = close_request_response();
    assert!(response.prevent_close);
    assert_eq!(response.event, "app://close-requested");
}

#[test]
fn instants_format_as_rfc3339() {
    assert_eq!(format_instant(86_400, 0).as_deref(), Some("1970-01-02T00:00:00+00:00"));
    assert_eq!(format_instant(1_700_000_000, 500_000_000).as_deref(), Some("2023-11-14T22:13:20.500+00:00"));
    assert_eq!(format_instant(-1, 0).as_deref(), Some("1969-12-31T23:59:59+00:00"));
    assert_eq!(format_instant(i64::MAX, 0), None);
    assert_eq!(format_instant(0, 2_000_000_000), None);
}
