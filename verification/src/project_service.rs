//! Registered project folders: the checks made before a folder is added,
//! the record created for it, and the errors that database failures become.
//!
//! The database itself is reached by the caller; each function here takes
//! what a query gave and decides what follows.

use vstd::prelude::*;
use crate::clock::{is_v4_uuid_text, new_uuid_v4};
use crate::models::{AppError, Project};
use crate::paths::{file_name_in, file_name_on, Platform};
use crate::terminal_cwd::PathReport;
use crate::text::{concat, owned};

verus! {

/// The database operations whose failures are reported.
pub enum DbAction {
    /// Preparing the query that lists projects.
    ListPrepare,
    /// Running the query that lists projects.
    ListMap,
    /// Preparing a query for one project.
    QueryProject,
    /// Reading back a project that already existed.
    GetProject,
    /// Looking a project up by its identifier.
    FindProject,
    /// Inserting a project.
    Insert,
    /// Deleting a project.
    Delete,
    /// Recording that a project was opened.
    Update,
}

/// The code of each failure.
pub open spec fn db_code(a: DbAction) -> Seq<char> {
    match a {
        DbAction::ListPrepare | DbAction::ListMap | DbAction::QueryProject
        | DbAction::GetProject => "DB_QUERY_ERROR"@,
        DbAction::FindProject => "PROJECT_NOT_FOUND"@,
        DbAction::Insert => "DB_INSERT_ERROR"@,
        DbAction::Delete => "DB_DELETE_ERROR"@,
        DbAction::Update => "DB_UPDATE_ERROR"@,
    }
}

/// The words before the database's own message.
pub open spec fn db_prefix(a: DbAction) -> Seq<char> {
    match a {
        DbAction::ListPrepare => "Failed to list projects: "@,
        DbAction::ListMap => "Failed to map projects: "@,
        DbAction::QueryProject => "Failed to query project: "@,
        DbAction::GetProject => "Failed to get project: "@,
        DbAction::FindProject => "Project not found: "@,
        DbAction::Insert => "Failed to insert project: "@,
        DbAction::Delete => "Failed to delete project: "@,
        DbAction::Update => "Failed to update project: "@,
    }
}

/// Why reading one project failed: preparing the query, or running it
/// (which includes finding no row).
pub enum DbFailure {
    Prepare(String),
    Query(String),
}

/// What follows the checks on a folder being added.
pub enum AddProjectStep {
    /// Look for a project with this canonical path; pass whether one was
    /// found to `add_project_lookup`.
    Lookup { canonical: String },
    /// A project with this canonical path exists: read it and pass the
    /// result to `add_project_fetched`.
    Fetch { canonical: String },
    /// Insert this new project and pass the result to `add_project_inserted`.
    Insert { project: Project },
    /// The request is over.
    Done(Result<Project, AppError>),
}

/// The name a project gets: the last component of the path it was added
/// with under the platform's path rules, or `Unnamed` when there is none.
pub open spec fn project_name_of(pl: Platform, path: Seq<char>) -> Seq<char> {
    match file_name_on(pl, path) {
        Some(n) => n,
        None => "Unnamed"@,
    }
}

/// A fresh record for a folder added with `path` whose canonical form is
/// `canonical`, stamped `now`.
pub open spec fn is_new_project(
    pl: Platform,
    p: Project,
    path: Seq<char>,
    canonical: Seq<char>,
    now: Seq<char>,
) -> bool {
    &&& is_v4_uuid_text(p.id@)
    &&& p.name@ == project_name_of(pl, path)
    &&& p.path@ == canonical
    &&& p.created_at@ == now
    &&& p.updated_at@ == now
    &&& p.last_opened_at matches Some(t) && t@ == now
}

/// The service for registered projects.
pub struct ProjectService;

impl ProjectService {
    /// The error for a failed database operation, around its message `detail`.
    pub fn db_error(action: DbAction, detail: &str) -> (e: AppError)
        ensures
            e.code@ == db_code(action),
            e.message@ == db_prefix(action) + detail@,
    {
        let (code, prefix) = match action {
            DbAction::ListPrepare => ("DB_QUERY_ERROR", "Failed to list projects: "),
            DbAction::ListMap => ("DB_QUERY_ERROR", "Failed to map projects: "),
            DbAction::QueryProject => ("DB_QUERY_ERROR", "Failed to query project: "),
            DbAction::GetProject => ("DB_QUERY_ERROR", "Failed to get project: "),
            DbAction::FindProject => ("PROJECT_NOT_FOUND", "Project not found: "),
            DbAction::Insert => ("DB_INSERT_ERROR", "Failed to insert project: "),
            DbAction::Delete => ("DB_DELETE_ERROR", "Failed to delete project: "),
            DbAction::Update => ("DB_UPDATE_ERROR", "Failed to update project: "),
        };
        AppError::new(code, concat(prefix, detail).as_str())
    }

    /// The projects among the rows read, in order; rows that could not be
    /// read are left out.
    pub fn list_projects(rows: Vec<Result<Project, String>>) -> (r: Vec<Project>)
        ensures
            r@ == ok_rows(rows@),
    {
        let ghost all = rows@;
        let mut rest = rows;
        let mut r: Vec<Project> = Vec::new();
        let ghost mut k: int = 0;
        assert(all.skip(0) =~= all);
        while rest.len() > 0
            invariant
                0 <= k <= all.len(),
                rest@ == all.skip(k),
                r@ == ok_rows(all.take(k)),
            decreases rest@.len(),
        {
            let row = rest.remove(0);
            assert(row == all[k]);
            assert(rest@ =~= all.skip(k + 1));
            assert(all.take(k + 1).drop_last() =~= all.take(k));
            assert(all.take(k + 1).last() == all[k]);
            match row {
                Ok(p) => {
                    r.push(p);
                },
                Err(_) => {},
            }
            proof {
                k = k + 1;
            }
        }
        assert(all.take(k) =~= all);
        r
    }

    /// The checks on a folder being added, given what the filesystem says of
    /// `path_str`: it must exist, be a directory and have a canonical form,
    /// after which projects are searched for that form.
    pub fn add_project(path_str: &str, report: PathReport) -> (r: AddProjectStep)
        ensures
            if !report.exists {
                r matches AddProjectStep::Done(Err(e)) && e.code@ == "PATH_NOT_FOUND"@ && e.message@
                    == "Path does not exist"@
            } else if !report.is_dir {
                r matches AddProjectStep::Done(Err(e)) && e.code@ == "NOT_DIRECTORY"@ && e.message@
                    == "Path is not a directory"@
            } else {
                match report.canonical {
                    Err(d) => r matches AddProjectStep::Done(Err(e)) && e.code@ == "PATH_ERROR"@
                        && e.message@ == "Cannot canonicalize path: "@ + d@,
                    Ok(c) => r matches AddProjectStep::Lookup { canonical } && canonical@ == c@,
                }
            },
    {
        if !report.exists {
            return AddProjectStep::Done(Err(AppError::new("PATH_NOT_FOUND", "Path does not exist")));
        }
        if !report.is_dir {
            return AddProjectStep::Done(Err(AppError::new("NOT_DIRECTORY", "Path is not a directory")));
        }
        match report.canonical {
            Err(d) => AddProjectStep::Done(
                Err(AppError::new("PATH_ERROR", concat("Cannot canonicalize path: ", d.as_str()).as_str())),
            ),
            Ok(c) => AddProjectStep::Lookup { canonical: c },
        }
    }

    /// After the search by canonical path: an existing project is read back
    /// rather than added twice; otherwise a new record, stamped `now`, is
    /// made for insertion.
    pub fn add_project_lookup(
        path_str: &str,
        canonical: String,
        found: bool,
        now: String,
        platform: Platform,
    ) -> (r: AddProjectStep)
        ensures
            if found {
                r matches AddProjectStep::Fetch { canonical: c } && c@ == canonical@
            } else {
                r matches AddProjectStep::Insert { project } && is_new_project(
                    platform,
                    project,
                    path_str@,
                    canonical@,
                    now@,
                )
            },
    {
        if found {
            AddProjectStep::Fetch { canonical }
        } else {
            AddProjectStep::Insert { project: Self::new_project(path_str, canonical, now, platform) }
        }
    }

    /// The answer once an existing project was read back.
    pub fn add_project_fetched(fetched: Result<Project, DbFailure>) -> (r: Result<Project, AppError>)
        ensures
            match fetched {
                Ok(p) => r == Ok::<Project, AppError>(p),
                Err(DbFailure::Prepare(d)) => r matches Err(e) && e.code@ == db_code(
                    DbAction::QueryProject,
                ) && e.message@ == db_prefix(DbAction::QueryProject) + d@,
                Err(DbFailure::Query(d)) => r matches Err(e) && e.code@ == db_code(
                    DbAction::GetProject,
                ) && e.message@ == db_prefix(DbAction::GetProject) + d@,
            },
    {
        match fetched {
            Ok(p) => Ok(p),
            Err(DbFailure::Prepare(d)) => Err(Self::db_error(DbAction::QueryProject, d.as_str())),
            Err(DbFailure::Query(d)) => Err(Self::db_error(DbAction::GetProject, d.as_str())),
        }
    }

    /// The answer once a new project was inserted (or not).
    pub fn add_project_inserted(project: Project, inserted: Result<(), String>) -> (r: Result<
        Project,
        AppError,
    >)
        ensures
            match inserted {
                Ok(()) => r == Ok::<Project, AppError>(project),
                Err(d) => r matches Err(e) && e.code@ == db_code(DbAction::Insert) && e.message@
                    == db_prefix(DbAction::Insert) + d@,
            },
    {
        match inserted {
            Ok(()) => Ok(project),
            Err(d) => Err(Self::db_error(DbAction::Insert, d.as_str())),
        }
    }

    /// A fresh record for a folder added as `path_str`, found at `canonical`:
    /// a random identifier, the folder's name, and `now` (the caller's clock
    /// reading) as its creation, update and last-opened time.
    pub fn new_project(path_str: &str, canonical: String, now: String, platform: Platform) -> (p:
        Project)
        ensures
            is_new_project(platform, p, path_str@, canonical@, now@),
    {
        let id = new_uuid_v4();
        let name = match file_name_in(platform, path_str) {
            Some(n) => n,
            None => owned("Unnamed"),
        };
        Project {
            id,
            name,
            path: canonical,
            created_at: now.clone(),
            updated_at: now.clone(),
            last_opened_at: Some(now),
        }
    }

    /// The answer to a lookup by identifier: a failure to prepare the query
    /// is a query error, a failure to run it (no such row included) means
    /// the project is not found.
    pub fn get_project_by_id(fetched: Result<Project, DbFailure>) -> (r: Result<Project, AppError>)
        ensures
            match fetched {
                Ok(p) => r == Ok::<Project, AppError>(p),
                Err(DbFailure::Prepare(d)) => r matches Err(e) && e.code@ == db_code(
                    DbAction::QueryProject,
                ) && e.message@ == db_prefix(DbAction::QueryProject) + d@,
                Err(DbFailure::Query(d)) => r matches Err(e) && e.code@ == db_code(
                    DbAction::FindProject,
                ) && e.message@ == db_prefix(DbAction::FindProject) + d@,
            },
    {
        match fetched {
            Ok(p) => Ok(p),
            Err(DbFailure::Prepare(d)) => Err(Self::db_error(DbAction::QueryProject, d.as_str())),
            Err(DbFailure::Query(d)) => Err(Self::db_error(DbAction::FindProject, d.as_str())),
        }
    }

    /// The answer to a deletion.
    pub fn remove_project(deleted: Result<(), String>) -> (r: Result<(), AppError>)
        ensures
            match deleted {
                Ok(()) => r is Ok,
                Err(d) => r matches Err(e) && e.code@ == db_code(DbAction::Delete) && e.message@
                    == db_prefix(DbAction::Delete) + d@,
            },
    {
        match deleted {
            Ok(()) => Ok(()),
            Err(d) => Err(Self::db_error(DbAction::Delete, d.as_str())),
        }
    }

    /// Selecting a project first stamps it as opened; a failed update is
    /// reported as such, and otherwise the project is read back with
    /// `get_project_by_id`.
    pub fn select_project(updated: Result<(), String>) -> (r: Result<(), AppError>)
        ensures
            match updated {
                Ok(()) => r is Ok,
                Err(d) => r matches Err(e) && e.code@ == db_code(DbAction::Update) && e.message@
                    == db_prefix(DbAction::Update) + d@,
            },
    {
        match updated {
            Ok(()) => Ok(()),
            Err(d) => Err(Self::db_error(DbAction::Update, d.as_str())),
        }
    }

    /// A project's folder, checked before Git runs in it: it must exist and
    /// be a directory.
    pub fn resolve_project_root(project: &Project, present: bool, is_dir: bool) -> (r: Result<
        String,
        AppError,
    >)
        ensures
            if !present {
                r matches Err(e) && e.code@ == "PROJECT_PATH_NOT_FOUND"@ && (e.message@
                    == "Project path does not exist: "@ + project.path@)
            } else if !is_dir {
                r matches Err(e) && e.code@ == "PROJECT_PATH_NOT_FOUND"@ && (e.message@
                    == "Project path is not a directory: "@ + project.path@)
            } else {
                r matches Ok(p) && (p@ == project.path@)
            },
    {
        if !present {
            return Err(AppError::new(
                "PROJECT_PATH_NOT_FOUND",
                concat("Project path does not exist: ", project.path.as_str()).as_str(),
            ));
        }
        if !is_dir {
            return Err(AppError::new(
                "PROJECT_PATH_NOT_FOUND",
                concat("Project path is not a directory: ", project.path.as_str()).as_str(),
            ));
        }
        Ok(project.path.clone())
    }
}

/// The readable rows, in order.
pub open spec fn ok_rows(rows: Seq<Result<Project, String>>) -> Seq<Project>
    decreases rows.len(),
{
    if rows.len() == 0 {
        seq![]
    } else {
        let r = ok_rows(rows.drop_last());
        match rows.last() {
            Ok(p) => r.push(p),
            Err(_) => r,
        }
    }
}

} // verus!
