use clidesk::database::{lock_error, not_initialized, setup_error, DbSetupStage};
use clidesk::models::Project;
use clidesk::project_service::{AddProjectStep, DbAction, DbFailure, ProjectService};
use clidesk::paths::Platform;
use clidesk::terminal_cwd::{begin_terminal_cwd, resolve_terminal_cwd, CwdFlow, CwdStep, PathReport};

const NOW: &str = "2024-05-01T12:00:00+00:00";

fn report(exists: bool, is_dir: bool, canonical: Result<&str, &str>) -> PathReport {
    PathReport {
        exists,
        is_dir,
        canonical: canonical.map(|s| s.to_string()).map_err(|s| s.to_string()),
    }
}

fn project(id: &str, path: &str) -> Project {
    Project {
        id: id.to_string(),
        name: "n".to_string(),
        path: path.to_string(),
        created_at: "t".to_string(),
        updated_at: "t".to_string(),
        last_opened_at: None,
    }
}

fn done_err(step: CwdStep) -> (String, String) {
    match step {
        CwdStep::Done(Err(e)) => (e.code, e.message),
        _ => panic!("expected an error"),
    }
}

fn inspect(step: CwdStep) -> (String, CwdFlow) {
    match step {
        CwdStep::Inspect { path, flow } => (path, flow),
        _ => panic!("expected an inspection"),
    }
}

#[test]
fn cwd_defaults_to_project_root() {
    let (p, flow) = inspect(begin_terminal_cwd("/home/u/proj", None, Platform::Linux));
    assert_eq!(p, "/home/u/proj");
    let (p2, flow2) = inspect(resolve_terminal_cwd(flow, report(true, true, Ok("/real/proj"))));
    assert_eq!(p2, "/real/proj");
    match resolve_terminal_cwd(flow2, report(true, true, Ok("/real/proj"))) {
        CwdStep::Done(Ok(c)) => assert_eq!(c, "/real/proj"),
        _ => panic!("expected the root"),
    }
}

#[test]
fn cwd_relative_is_trimmed_and_joined() {
    let (_, flow) = inspect(begin_terminal_cwd("/p", Some("  src/app ".to_string()), Platform::Linux));
    let (p2, flow2) = inspect(resolve_terminal_cwd(flow, report(true, true, Ok("/real/p"))));
    assert_eq!(p2, "/real/p/src/app");
    match resolve_terminal_cwd(flow2, report(true, true, Ok("/real/p/src/app"))) {
        CwdStep::Done(Ok(c)) => assert_eq!(c, "/real/p/src/app"),
        _ => panic!("expected the directory"),
    }
}

#[test]
fn cwd_errors_for_project_root() {
    let (_, f) = inspect(begin_terminal_cwd("/p", None, Platform::Linux));
    assert_eq!(
        done_err(resolve_terminal_cwd(f, report(false, false, Err("x")))),
        ("TERMINAL_CWD_NOT_FOUND".to_string(), "Project path does not exist: /p".to_string())
    );
    let (_, f) = inspect(begin_terminal_cwd("/p", None, Platform::Linux));
    assert_eq!(
        done_err(resolve_terminal_cwd(f, report(true, false, Err("x")))),
        ("TERMINAL_CWD_NOT_DIRECTORY".to_string(), "Project path is not a directory: /p".to_string())
    );
    let (_, f) = inspect(begin_terminal_cwd("/p", None, Platform::Linux));
    assert_eq!(
        done_err(resolve_terminal_cwd(f, report(true, true, Err("denied")))),
        ("TERMINAL_CWD_NOT_FOUND".to_string(), "Cannot resolve project path '/p': denied".to_string())
    );
    let (_, f) = inspect(begin_terminal_cwd("/p", Some(" /etc ".to_string()), Platform::Linux));
    assert_eq!(
        done_err(resolve_terminal_cwd(f, report(true, true, Ok("/p")))),
        (
            "TERMINAL_CWD_OUTSIDE_PROJECT".to_string(),
            "Terminal cwd must be relative to the selected project".to_string()
        )
    );
}

#[test]
fn cwd_errors_for_requested_directory() {
    let flow = || CwdFlow::AwaitCandidate { root: "/r".to_string(), candidate: "/r/a".to_string(), platform: Platform::Linux };
    assert_eq!(
        done_err(resolve_terminal_cwd(flow(), report(false, false, Err("x")))),
        ("TERMINAL_CWD_NOT_FOUND".to_string(), "Terminal cwd does not exist: /r/a".to_string())
    );
    assert_eq!(
        done_err(resolve_terminal_cwd(flow(), report(true, false, Err("x")))),
        ("TERMINAL_CWD_NOT_DIRECTORY".to_string(), "Terminal cwd is not a directory: /r/a".to_string())
    );
    assert_eq!(
        done_err(resolve_terminal_cwd(flow(), report(true, true, Err("loop")))),
        ("TERMINAL_CWD_NOT_FOUND".to_string(), "Cannot resolve terminal cwd '/r/a': loop".to_string())
    );
    assert_eq!(
        done_err(resolve_terminal_cwd(flow(), report(true, true, Ok("/other")))),
        (
            "TERMINAL_CWD_OUTSIDE_PROJECT".to_string(),
            "Terminal cwd '/other' is outside project '/r',".to_string()
        )
    );
    assert_eq!(
        done_err(resolve_terminal_cwd(flow(), report(true, true, Ok("/rx")))).0,
        "TERMINAL_CWD_OUTSIDE_PROJECT"
    );
}

#[test]
fn add_project_path_checks() {
    let e = |step: AddProjectStep| match step {
        AddProjectStep::Done(Err(e)) => (e.code, e.message),
        _ => panic!("expected an error"),
    };
    assert_eq!(
        e(ProjectService::add_project("/x", report(false, false, Err("a")))),
        ("PATH_NOT_FOUND".to_string(), "Path does not exist".to_string())
    );
    assert_eq!(
        e(ProjectService::add_project("/x", report(true, false, Err("a")))),
        ("NOT_DIRECTORY".to_string(), "Path is not a directory".to_string())
    );
    assert_eq!(
        e(ProjectService::add_project("/x", report(true, true, Err("bad")))),
        ("PATH_ERROR".to_string(), "Cannot canonicalize path: bad".to_string())
    );
    match ProjectService::add_project("/x", report(true, true, Ok("/real/x"))) {
        AddProjectStep::Lookup { canonical } => assert_eq!(canonical, "/real/x"),
        _ => panic!("expected a lookup"),
    }
}

#[test]
fn add_project_existing_is_fetched_not_inserted() {
    match ProjectService::add_project_lookup("/x", "/real/x".to_string(), true, NOW.to_string(), Platform::Linux) {
        AddProjectStep::Fetch { canonical } => assert_eq!(canonical, "/real/x"),
        _ => panic!("expected a fetch"),
    }
    let p = ProjectService::add_project_fetched(Ok(project("id1", "/real/x"))).unwrap();
    assert_eq!(p.id, "id1");
    let e = ProjectService::add_project_fetched(Err(DbFailure::Query("no rows".to_string()))).err().unwrap();
    assert_eq!(e.code, "DB_QUERY_ERROR");
    assert_eq!(e.message, "Failed to get project: no rows");
    let e = ProjectService::add_project_fetched(Err(DbFailure::Prepare("bad sql".to_string()))).err().unwrap();
    assert_eq!(e.message, "Failed to query project: bad sql");
}

#[test]
fn add_project_new_record() {
    match ProjectService::add_project_lookup("/home/u/My App/", "/real/My App".to_string(), false, NOW.to_string(), Platform::Linux) {
        AddProjectStep::Insert { project } => {
            assert_eq!(project.id.len(), 36);
            assert_eq!(project.name, "My App");
            assert_eq!(project.path, "/real/My App");
            assert_eq!(project.created_at, NOW);
            assert_eq!(project.updated_at, NOW);
            assert_eq!(project.last_opened_at.as_deref(), Some(project.created_at.as_str()));
            let ok = ProjectService::add_project_inserted(project, Ok(())).unwrap();
            assert_eq!(ok.name, "My App");
        }
        _ => panic!("expected an insert"),
    }
    let p = ProjectService::new_project("/", "/".to_string(), NOW.to_string(), Platform::Linux);
    assert_eq!(p.name, "Unnamed");
    let q = ProjectService::new_project("/a/..", "/".to_string(), NOW.to_string(), Platform::Linux);
    assert_eq!(q.name, "Unnamed");
    let e = ProjectService::add_project_inserted(p, Err("UNIQUE".to_string())).err().unwrap();
    assert_eq!(e.code, "DB_INSERT_ERROR");
    assert_eq!(e.message, "Failed to insert project: UNIQUE");
}

#[test]
fn project_ids_differ() {
    let a = ProjectService::new_project("/a", "/a".to_string(), NOW.to_string(), Platform::Linux);
    let b = ProjectService::new_project("/a", "/a".to_string(), NOW.to_string(), Platform::Linux);
    assert_ne!(a.id, b.id);
}

#[test]
fn list_skips_unreadable_rows() {
    let rows = vec![Ok(project("a", "/a")), Err("bad row".to_string()), Ok(project("c", "/c"))];
    let ids: Vec<String> = ProjectService::list_projects(rows).into_iter().map(|p| p.id).collect();
    assert_eq!(ids, vec!["a".to_string(), "c".to_string()]);
}

#[test]
fn lookups_and_updates() {
    let e = ProjectService::get_project_by_id(Err(DbFailure::Query("Query returned no rows".to_string()))).err().unwrap();
    assert_eq!(e.code, "PROJECT_NOT_FOUND");
    assert_eq!(e.message, "Project not found: Query returned no rows");
    assert_eq!(ProjectService::get_project_by_id(Ok(project("z", "/z"))).unwrap().id, "z");
    let e = ProjectService::select_project(Err("locked".to_string())).err().unwrap();
    assert_eq!(e.code, "DB_UPDATE_ERROR");
    assert_eq!(e.message, "Failed to update project: locked");
    assert!(ProjectService::select_project(Ok(())).is_ok());
    assert!(ProjectService::remove_project(Ok(())).is_ok());
    let e = ProjectService::remove_project(Err("x".to_string())).err().unwrap();
    assert_eq!(e.code, "DB_DELETE_ERROR");
    assert_eq!(e.message, "Failed to delete project: x");
    let e = ProjectService::db_error(DbAction::ListPrepare, "q");
    assert_eq!((e.code.as_str(), e.message.as_str()), ("DB_QUERY_ERROR", "Failed to list projects: q"));
    let e = ProjectService::db_error(DbAction::ListMap, "q");
    assert_eq!(e.message, "Failed to map projects: q");
}

#[test]
fn project_root_checks() {
    let p = project("a", "/srv/a");
    assert_eq!(ProjectService::resolve_project_root(&p, true, true).unwrap(), "/srv/a");
    let e = ProjectService::resolve_project_root(&p, false, false).err().unwrap();
    assert_eq!(e.code, "PROJECT_PATH_NOT_FOUND");
    assert_eq!(e.message, "Project path does not exist: /srv/a");
    let e = ProjectService::resolve_project_root(&p, true, false).err().unwrap();
    assert_eq!(e.message, "Project path is not a directory: /srv/a");
}

#[test]
fn database_errors() {
    let e = setup_error(DbSetupStage::Open, "unable to open");
    assert_eq!((e.code.as_str(), e.message.as_str()), ("DB_OPEN_ERROR", "Failed to open database: unable to open"));
    assert_eq!(setup_error(DbSetupStage::Pragma, "x").message, "Failed to set pragmas: x");
    assert_eq!(setup_error(DbSetupStage::Init, "y").code, "DB_INIT_ERROR");
    assert_eq!(lock_error().message, "Failed to lock database");
    assert_eq!(not_initialized().code, "DB_NOT_INIT");
}

#[test]
fn windows_cwd_absolute_request_is_refused() {
    let (_, f) = inspect(begin_terminal_cwd("C:\\p", Some("C:\\x".to_string()), Platform::Windows));
    assert_eq!(
        done_err(resolve_terminal_cwd(f, report(true, true, Ok("\\\\?\\C:\\p")))),
        (
            "TERMINAL_CWD_OUTSIDE_PROJECT".to_string(),
            "Terminal cwd must be relative to the selected project".to_string()
        )
    );
    let (_, f) = inspect(begin_terminal_cwd("C:\\p", Some("\\\\srv\\share\\x".to_string()), Platform::Windows));
    assert_eq!(done_err(resolve_terminal_cwd(f, report(true, true, Ok("C:\\p")))).0, "TERMINAL_CWD_OUTSIDE_PROJECT");
    let (_, f) = inspect(begin_terminal_cwd("/p", Some("C:\\x".to_string()), Platform::Linux));
    let (p2, _) = inspect(resolve_terminal_cwd(f, report(true, true, Ok("/p"))));
    assert_eq!(p2, "/p/C:\\x");
}

#[test]
fn windows_cwd_subdirectory_is_accepted() {
    let (_, f) = inspect(begin_terminal_cwd("C:\\p", Some(" src ".to_string()), Platform::Windows));
    let (p2, f2) = inspect(resolve_terminal_cwd(f, report(true, true, Ok("\\\\?\\C:\\p"))));
    assert_eq!(p2, "\\\\?\\C:\\p\\src");
    match resolve_terminal_cwd(f2, report(true, true, Ok("\\\\?\\C:\\p\\src"))) {
        CwdStep::Done(Ok(c)) => assert_eq!(c, "\\\\?\\C:\\p\\src"),
        _ => panic!("expected the subdirectory"),
    }
    let flow = || CwdFlow::AwaitCandidate {
        root: "\\\\?\\C:\\p".to_string(),
        candidate: "\\\\?\\C:\\p\\src".to_string(),
        platform: Platform::Windows,
    };
    assert_eq!(
        done_err(resolve_terminal_cwd(flow(), report(true, true, Ok("\\\\?\\C:\\pq")))).0,
        "TERMINAL_CWD_OUTSIDE_PROJECT"
    );
    match resolve_terminal_cwd(flow(), report(true, true, Ok("\\\\?\\c:\\p\\src"))) {
        CwdStep::Done(Ok(c)) => assert_eq!(c, "\\\\?\\c:\\p\\src"),
        _ => panic!("drive letters compare without case"),
    }
}

#[test]
fn windows_project_names() {
    let p = ProjectService::new_project("C:\\Users\\me\\My App\\", "\\\\?\\C:\\Users\\me\\My App".to_string(), NOW.to_string(), Platform::Windows);
    assert_eq!(p.name, "My App");
    let q = ProjectService::new_project("C:\\", "\\\\?\\C:\\".to_string(), NOW.to_string(), Platform::Windows);
    assert_eq!(q.name, "Unnamed");
    let l = ProjectService::new_project("C:\\Users\\me", "/x".to_string(), NOW.to_string(), Platform::Linux);
    assert_eq!(l.name, "C:\\Users\\me");
}
