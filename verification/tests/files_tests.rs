use clidesk::file_service::{DirEntryInfo, EntryMetadata, EntryType, FileService, IoStage};
use clidesk::paths::Platform;
use clidesk::security::{normalize_relative, SecurityService};

const NOW: &str = "2024-05-01T12:00:00+00:00";

fn entry(name: &str, dir: bool) -> DirEntryInfo {
    DirEntryInfo {
        name: name.to_string(),
        file_type: Ok(EntryType { is_dir: dir, is_symlink: false }),
        metadata: Some(EntryMetadata { len: 10, modified: Some((0, 0)) }),
    }
}

#[test]
fn normalization_drops_dots_and_climbs() {
    assert_eq!(normalize_relative("a/./b//c"), "a/b/c");
    assert_eq!(normalize_relative("a\\b\\..\\c"), "a/c");
    assert_eq!(normalize_relative("../../etc/passwd"), "etc/passwd");
    assert_eq!(normalize_relative(""), "");
    assert_eq!(normalize_relative("."), "");
}

#[test]
fn normalization_is_idempotent() {
    for p in ["a/../../b/./c", "x\\y\\..", "..", "a//b/"] {
        let once = normalize_relative(p);
        assert_eq!(normalize_relative(&once), once);
    }
}

#[test]
fn resolved_paths_stay_under_root() {
    assert_eq!(SecurityService::resolve_project_path_no_fs("/home/u/p", "src/main.rs", Platform::Linux).unwrap(), "/home/u/p/src/main.rs");
    assert_eq!(SecurityService::resolve_project_path_no_fs("/home/u/p", "../../etc/passwd", Platform::Linux).unwrap(), "/home/u/p/etc/passwd");
    assert_eq!(SecurityService::resolve_project_path_no_fs("/home/u/p", "", Platform::Linux).unwrap(), "/home/u/p/");
    assert_eq!(SecurityService::resolve_project_path_no_fs("/home/u/p/", "a", Platform::Linux).unwrap(), "/home/u/p/a");
    assert_eq!(SecurityService::resolve_project_path_no_fs("C:\\Proj", "a\\b", Platform::Linux).unwrap(), "C:\\Proj/a/b");
}

#[test]
fn binary_files_by_extension() {
    assert!(SecurityService::is_binary_file("a/b/logo.PNG", Platform::Linux));
    assert!(SecurityService::is_binary_file("x.tar.gz", Platform::Linux));
    assert!(SecurityService::is_binary_file("lib.so", Platform::Linux));
    assert!(!SecurityService::is_binary_file("main.rs", Platform::Linux));
    assert!(!SecurityService::is_binary_file("Makefile", Platform::Linux));
    assert!(!SecurityService::is_binary_file(".png", Platform::Linux));
}

#[test]
fn languages_by_extension() {
    assert_eq!(FileService::detect_language("src/App.TSX", Platform::Linux).as_deref(), Some("typescript"));
    assert_eq!(FileService::detect_language("a.rs", Platform::Linux).as_deref(), Some("rust"));
    assert_eq!(FileService::detect_language("x.yml", Platform::Linux).as_deref(), Some("yaml"));
    assert_eq!(FileService::detect_language("run.ps1", Platform::Linux).as_deref(), Some("powershell"));
    assert_eq!(FileService::detect_language("setup.cfg", Platform::Linux).as_deref(), Some("ini"));
    assert_eq!(FileService::detect_language("analysis.R", Platform::Linux).as_deref(), Some("r"));
    assert_eq!(FileService::detect_language("README", Platform::Linux), None);
    assert_eq!(FileService::detect_language("a.unknown", Platform::Linux), None);
}

#[test]
fn listing_checks() {
    assert!(FileService::check_listable(true, true).is_ok());
    let e = FileService::check_listable(false, false).err().unwrap();
    assert_eq!((e.code.as_str(), e.message.as_str()), ("DIR_NOT_FOUND", "Directory does not exist"));
    let e = FileService::check_listable(true, false).err().unwrap();
    assert_eq!((e.code.as_str(), e.message.as_str()), ("NOT_DIRECTORY", "Path is not a directory"));
}

#[test]
fn listing_sorted_dirs_first_and_filtered() {
    let entries = vec![
        entry("b.txt", false),
        entry("node_modules", true),
        entry("src", true),
        entry("a.txt", false),
        entry("Zeta", true),
        entry(".git", true),
    ];
    let items = FileService::build_listing("", entries).unwrap();
    let names: Vec<&str> = items.iter().map(|i| i.name.as_str()).collect();
    assert_eq!(names, vec!["Zeta", "src", "a.txt", "b.txt"]);
    assert_eq!(items[0].kind, "directory");
    assert_eq!(items[2].kind, "file");
    assert_eq!(items[2].relative_path, "a.txt");
    assert_eq!(items[2].size, Some(10));
    assert_eq!(items[2].modified_at.as_deref(), Some("1970-01-01T00:00:00+00:00"));
}

#[test]
fn listing_paths_and_kinds() {
    let link = DirEntryInfo {
        name: "l".to_string(),
        file_type: Ok(EntryType { is_dir: false, is_symlink: true }),
        metadata: None,
    };
    let items = FileService::build_listing("docs", vec![link]).unwrap();
    assert_eq!(items[0].relative_path, "docs/l");
    assert_eq!(items[0].kind, "symlink");
    assert_eq!(items[0].size, None);
    assert_eq!(items[0].modified_at, None);
    let dot = FileService::build_listing(".", vec![entry("x", false)]).unwrap();
    assert_eq!(dot[0].relative_path, "x");
}

#[test]
fn listing_fails_on_unreadable_type() {
    let bad = DirEntryInfo { name: "q".to_string(), file_type: Err("denied".to_string()), metadata: None };
    let e = FileService::build_listing("", vec![entry("a", false), bad]).err().unwrap();
    assert_eq!(e.code, "IO_ERROR");
    assert_eq!(e.message, "Failed to get file type: denied");
    let ignored_bad = DirEntryInfo { name: "target".to_string(), file_type: Err("denied".to_string()), metadata: None };
    assert!(FileService::build_listing("", vec![ignored_bad]).unwrap().is_empty());
}

#[test]
fn read_checks() {
    assert!(FileService::check_readable("/p/a.rs", true, true, Platform::Linux).is_ok());
    let e = FileService::check_readable("/p/a.rs", false, false, Platform::Linux).err().unwrap();
    assert_eq!((e.code.as_str(), e.message.as_str()), ("FILE_NOT_FOUND", "File does not exist"));
    let e = FileService::check_readable("/p/a", true, false, Platform::Linux).err().unwrap();
    assert_eq!((e.code.as_str(), e.message.as_str()), ("NOT_FILE", "Path is not a file"));
    let e = FileService::check_readable("/p/a.exe", true, true, Platform::Linux).err().unwrap();
    assert_eq!((e.code.as_str(), e.message.as_str()), ("BINARY_FILE", "Cannot open binary file as text"));
}

#[test]
fn read_size_limits() {
    assert_eq!(FileService::check_read_size(2_097_152).unwrap(), false);
    assert_eq!(FileService::check_read_size(2_097_153).unwrap(), true);
    assert_eq!(FileService::check_read_size(10_485_760).unwrap(), true);
    let e = FileService::check_read_size(10_485_761).err().unwrap();
    assert_eq!(e.code, "FILE_TOO_LARGE");
    assert_eq!(e.message, "File exceeds maximum size limit of 10MB");
}

#[test]
fn read_result_fields() {
    let r = FileService::build_read_result(
        "/p",
        "",
        "/p/src/lib.rs",
        "fn x() {}".to_string(),
        9,
        Some((86400, 0)),
        NOW.to_string(),
        false,
        Platform::Linux,
    );
    assert_eq!(r.project_id, "/p");
    assert_eq!(r.relative_path, "lib.rs");
    assert_eq!(r.language_id.as_deref(), Some("rust"));
    assert_eq!(r.modified_at, "1970-01-02T00:00:00+00:00");
    assert_eq!(r.size, 9);
    assert!(!r.read_only);
    let s = FileService::build_read_result(
        "/p",
        "src/lib.rs",
        "/p/src/lib.rs",
        String::new(),
        0,
        None,
        NOW.to_string(),
        true,
        Platform::Linux,
    );
    assert_eq!(s.relative_path, "src/lib.rs");
    assert!(s.read_only);
    assert_eq!(s.modified_at, NOW);
    let w = FileService::build_read_result(
        "C:\\p",
        "",
        "C:\\p\\src\\Main.JAVA",
        String::new(),
        0,
        None,
        NOW.to_string(),
        false,
        Platform::Windows,
    );
    assert_eq!(w.relative_path, "Main.JAVA");
    assert_eq!(w.language_id.as_deref(), Some("java"));
}

#[test]
fn write_result_time() {
    let w = FileService::write_result(Some((1_700_000_000, 500_000_000)), NOW.to_string());
    assert!(w.ok);
    assert_eq!(w.modified_at, "2023-11-14T22:13:20.500+00:00");
    let n = FileService::write_result(None, NOW.to_string());
    assert!(n.ok);
    assert_eq!(n.modified_at, NOW);
}

#[test]
fn io_errors() {
    let e = FileService::io_error(IoStage::ReadDir, "x");
    assert_eq!((e.code.as_str(), e.message.as_str()), ("IO_ERROR", "Failed to read directory: x"));
    assert_eq!(FileService::io_error(IoStage::Finalize, "y").message, "Failed to finalize file write: y");
    assert_eq!(FileService::io_error(IoStage::CreateParent, "y").message, "Failed to create parent directory: y");
}

#[test]
fn temp_paths_for_atomic_writes() {
    assert_eq!(FileService::temp_write_path("/p/src/main.rs", Platform::Linux, &vec![]), "/p/src/main.tmp");
    assert_eq!(FileService::temp_write_path("/p/Makefile", Platform::Linux, &vec![]), "/p/Makefile.tmp");
    assert_eq!(FileService::temp_write_path("/p/.env", Platform::Linux, &vec![]), "/p/.env.tmp");
    assert_eq!(FileService::temp_write_path("/p/a.tar.gz", Platform::Linux, &vec![]), "/p/a.tar.tmp");
}

#[test]
fn windows_paths_resolve_by_windows_rules() {
    let r = |root: &str, rel: &str| SecurityService::resolve_project_path_no_fs(root, rel, Platform::Windows);
    assert_eq!(r("C:\\Proj", "a\\b").unwrap(), "C:\\Proj\\a/b");
    assert_eq!(r("c:\\proj", "src").unwrap(), "c:\\proj\\src");
    assert_eq!(r("\\\\?\\C:\\proj", "s").unwrap(), "\\\\?\\C:\\proj\\s");
    assert_eq!(r("\\\\?\\C:\\proj", "a/b/../c").unwrap(), "\\\\?\\C:\\proj\\a\\c");
    assert_eq!(r("\\\\?\\C:\\proj", "").unwrap(), "\\\\?\\C:\\proj\\");
    assert_eq!(r("\\\\?\\C:\\proj", "..\\..\\x").unwrap(), "\\\\?\\C:\\proj\\x");
    for rel in ["D:\\x", "D:x", "C:other"] {
        let e = r("C:\\Proj", rel).err().unwrap();
        assert_eq!((e.code.as_str(), e.message.as_str()), ("PATH_TRAVERSAL", "Path escapes project root"));
    }
    assert_eq!(r("C:\\Proj", "\\\\srv\\share\\x").unwrap(), "C:\\Proj\\srv/share/x");
}

#[test]
fn windows_binary_files_and_languages() {
    assert!(SecurityService::is_binary_file("C:\\a\\logo.PNG", Platform::Windows));
    assert!(!SecurityService::is_binary_file("x\\.png", Platform::Windows));
    assert!(SecurityService::is_binary_file("x\\.png", Platform::Linux));
    assert_eq!(FileService::detect_language("src\\App.TSX", Platform::Windows).as_deref(), Some("typescript"));
    assert_eq!(FileService::detect_language("a.b\\README", Platform::Windows), None);
    assert_eq!(FileService::detect_language("a.b\\README", Platform::Linux), None);
}

#[test]
fn temp_paths_follow_platform_rules() {
    let lin = |p: &str| FileService::temp_write_path(p, Platform::Linux, &vec![]);
    let win = |p: &str| FileService::temp_write_path(p, Platform::Windows, &vec![]);
    assert_eq!(lin("/p/dir/"), "/p/dir.tmp");
    assert_eq!(lin("/p/a.rs/."), "/p/a.tmp");
    assert_eq!(lin("/"), "/");
    assert_eq!(lin("a/.."), "a/..");
    assert_eq!(lin("name."), "name.tmp");
    assert_eq!(lin("x\\.env"), "x\\.tmp");
    assert_eq!(win("x\\.env"), "x\\.env.tmp");
    assert_eq!(win("C:\\p\\main.rs"), "C:\\p\\main.tmp");
    assert_eq!(win("C:\\p\\src\\"), "C:\\p\\src.tmp");
    assert_eq!(win("C:"), "C:");
    assert_eq!(win("C:\\"), "C:\\");
    assert_eq!(win("C:a.txt"), "C:a.tmp");
    assert_eq!(win("\\\\?\\C:\\p\\a/b.txt"), "\\\\?\\C:\\p\\a/b.tmp");
    assert_eq!(win("\\\\server\\share"), "\\\\server\\share");
}

#[test]
fn temp_paths_never_replace_existing_files() {
    let names = |v: &[&str]| v.iter().map(|s| s.to_string()).collect::<Vec<String>>();
    assert_eq!(FileService::temp_write_path("/p/notes.txt", Platform::Linux, &names(&["notes.txt"])), "/p/notes.tmp");
    assert_eq!(
        FileService::temp_write_path("/p/notes.txt", Platform::Linux, &names(&["notes.txt", "notes.tmp"])),
        "/p/notes.tmp~"
    );
    assert_eq!(
        FileService::temp_write_path("/p/notes.txt", Platform::Linux, &names(&["notes.tmp~", "notes.tmp"])),
        "/p/notes.tmp~~"
    );
    assert_eq!(FileService::temp_write_path("/p/a.tmp", Platform::Linux, &names(&["a.tmp"])), "/p/a.tmp~");
    assert_eq!(FileService::temp_write_path("/p/notes.txt", Platform::Linux, &names(&["NOTES.TMP"])), "/p/notes.tmp");
    assert_eq!(
        FileService::temp_write_path("C:\\p\\notes.txt", Platform::Windows, &names(&["NOTES.TMP"])),
        "C:\\p\\notes.tmp~"
    );
    assert_eq!(FileService::temp_write_path("/", Platform::Linux, &names(&["x"])), "/");
}

#[test]
fn resolving_a_resolved_path_again() {
    for (root, rel) in [("/home/u/p", "a/./b/../c"), ("/home/u/p", "..\\x\\y"), ("/r", "")] {
        let t = SecurityService::resolve_project_path_no_fs(root, rel, Platform::Linux).unwrap();
        let c = t.strip_prefix(root).unwrap().trim_start_matches('/').to_string();
        assert_eq!(c, normalize_relative(rel));
        assert_eq!(SecurityService::resolve_project_path_no_fs(root, &c, Platform::Linux).unwrap(), t);
    }
    let w = SecurityService::resolve_project_path_no_fs("\\\\?\\C:\\p", "a/../b", Platform::Windows).unwrap();
    assert_eq!(SecurityService::resolve_project_path_no_fs("\\\\?\\C:\\p", "b", Platform::Windows).unwrap(), w);
}
