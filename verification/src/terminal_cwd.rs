//! Where a new terminal starts: a directory inside the selected project,
//! given relative to it, checked against what the filesystem reports.
//!
//! The checks alternate with filesystem queries, so they are a small state
//! machine: each step names the path to inspect next, and the caller answers
//! with a `PathReport` for it.

use vstd::prelude::*;
use crate::models::AppError;
use crate::paths::{begins_with_in, is_absolute_in, is_absolute_on, join_in, join_on, starts_with_on, Platform};
use crate::text::{chars_of, concat, owned, string_from, trim, trim_chars};

verus! {

/// What the filesystem says of one path: whether it exists, whether it is
/// a directory, and its canonical form (or why there is none).
pub struct PathReport {
    pub exists: bool,
    pub is_dir: bool,
    pub canonical: Result<String, String>,
}

/// How far the resolution of a terminal directory has come.
pub enum CwdFlow {
    /// Waiting for the report on the project folder.
    AwaitRoot { project_path: String, relative: Option<String>, platform: Platform },
    /// Waiting for the report on the requested directory, built on the
    /// canonical project folder `root`.
    AwaitCandidate { root: String, candidate: String, platform: Platform },
}

/// The next thing to do.
pub enum CwdStep {
    /// Inspect `path` and hand the report to `resolve_terminal_cwd` with `flow`.
    Inspect { path: String, flow: CwdFlow },
    /// The resolution is over.
    Done(Result<String, AppError>),
}

/// The requested directory, trimmed: empty means the project folder itself;
/// a path that is absolute by the platform's rules is refused (`None`);
/// any other is joined to the folder by those rules.
pub open spec fn cwd_candidate(pl: Platform, root: Seq<char>, relative: Seq<char>) -> Option<
    Seq<char>,
> {
    let t = trim(relative);
    if t.len() == 0 {
        Some(root)
    } else if is_absolute_on(pl, t) {
        None
    } else {
        Some(join_on(pl, root, t))
    }
}

/// An error as its code and message.
pub open spec fn err_is(e: AppError, code: Seq<char>, message: Seq<char>) -> bool {
    e.code@ == code && e.message@ == message
}

/// The first step: inspect the project folder.
pub fn begin_terminal_cwd(
    project_path: &str,
    cwd_relative_path: Option<String>,
    platform: Platform,
) -> (r: CwdStep)
    ensures
        r matches CwdStep::Inspect { path, flow } && path@ == project_path@ && (match flow {
            CwdFlow::AwaitRoot { project_path: pp, relative, platform: pl } => pp@ == project_path@
                && relative == cwd_relative_path && pl == platform,
            _ => false,
        }),
{
    CwdStep::Inspect {
        path: owned(project_path),
        flow: CwdFlow::AwaitRoot {
            project_path: owned(project_path),
            relative: cwd_relative_path,
            platform,
        },
    }
}

/// Takes the report on the path that the last step named and decides.
///
/// The project folder must exist, be a directory and have a canonical form.
/// The requested directory, trimmed, is the project folder when empty,
/// refused when absolute, and otherwise joined to the canonical folder; it
/// too must exist, be a directory and have a canonical form, whose
/// components must begin with those of the canonical project folder.  That
/// canonical form is the answer.  Paths follow the platform's rules.
pub fn resolve_terminal_cwd(flow: CwdFlow, report: PathReport) -> (r: CwdStep)
    ensures
        match flow {
            CwdFlow::AwaitRoot { project_path, relative, platform } => if !report.exists {
                r matches CwdStep::Done(Err(e)) && err_is(
                    e,
                    "TERMINAL_CWD_NOT_FOUND"@,
                    "Project path does not exist: "@ + project_path@,
                )
            } else if !report.is_dir {
                r matches CwdStep::Done(Err(e)) && err_is(
                    e,
                    "TERMINAL_CWD_NOT_DIRECTORY"@,
                    "Project path is not a directory: "@ + project_path@,
                )
            } else {
                match report.canonical {
                    Err(d) => r matches CwdStep::Done(Err(e)) && err_is(
                        e,
                        "TERMINAL_CWD_NOT_FOUND"@,
                        "Cannot resolve project path '"@ + project_path@ + "': "@ + d@,
                    ),
                    Ok(root) => match cwd_candidate(
                        platform,
                        root@,
                        match relative {
                            Some(x) => x@,
                            None => Seq::<char>::empty(),
                        },
                    ) {
                        None => r matches CwdStep::Done(Err(e)) && err_is(
                            e,
                            "TERMINAL_CWD_OUTSIDE_PROJECT"@,
                            "Terminal cwd must be relative to the selected project"@,
                        ),
                        Some(c) => r matches CwdStep::Inspect { path, flow: f } && path@ == c
                            && (match f {
                            CwdFlow::AwaitCandidate { root: r2, candidate, platform: pl } => r2@
                                == root@ && candidate@ == c && pl == platform,
                            _ => false,
                        }),
                    },
                }
            },
            CwdFlow::AwaitCandidate { root, candidate, platform } => if !report.exists {
                r matches CwdStep::Done(Err(e)) && err_is(
                    e,
                    "TERMINAL_CWD_NOT_FOUND"@,
                    "Terminal cwd does not exist: "@ + candidate@,
                )
            } else if !report.is_dir {
                r matches CwdStep::Done(Err(e)) && err_is(
                    e,
                    "TERMINAL_CWD_NOT_DIRECTORY"@,
                    "Terminal cwd is not a directory: "@ + candidate@,
                )
            } else {
                match report.canonical {
                    Err(d) => r matches CwdStep::Done(Err(e)) && err_is(
                        e,
                        "TERMINAL_CWD_NOT_FOUND"@,
                        "Cannot resolve terminal cwd '"@ + candidate@ + "': "@ + d@,
                    ),
                    Ok(c) => if starts_with_on(platform, c@, root@) {
                        r matches CwdStep::Done(Ok(p)) && p@ == c@
                    } else {
                        r matches CwdStep::Done(Err(e)) && err_is(
                            e,
                            "TERMINAL_CWD_OUTSIDE_PROJECT"@,
                            "Terminal cwd '"@ + c@ + "' is outside project '"@ + root@ + "',"@,
                        )
                    },
                }
            },
        },
{
    match flow {
        CwdFlow::AwaitRoot { project_path, relative, platform } => {
            if !report.exists {
                return CwdStep::Done(
                    Err(
                        AppError::new(
                            "TERMINAL_CWD_NOT_FOUND",
                            concat("Project path does not exist: ", project_path.as_str()).as_str(),
                        ),
                    ),
                );
            }
            if !report.is_dir {
                return CwdStep::Done(
                    Err(
                        AppError::new(
                            "TERMINAL_CWD_NOT_DIRECTORY",
                            concat(
                                "Project path is not a directory: ",
                                project_path.as_str(),
                            ).as_str(),
                        ),
                    ),
                );
            }
            match report.canonical {
                Err(d) => {
                    let a = concat("Cannot resolve project path '", project_path.as_str());
                    let b = concat(a.as_str(), "': ");
                    let m = concat(b.as_str(), d.as_str());
                    assert(m@ =~= "Cannot resolve project path '"@ + project_path@ + "': "@ + d@);
                    CwdStep::Done(Err(AppError { code: owned("TERMINAL_CWD_NOT_FOUND"), message: m }))
                },
                Ok(root) => {
                    let rel = match relative {
                        Some(x) => x,
                        None => String::new(),
                    };
                    let t = trim_chars(chars_of(rel.as_str()).as_slice());
                    if t.len() == 0 {
                        let candidate = root.clone();
                        CwdStep::Inspect {
                            path: root.clone(),
                            flow: CwdFlow::AwaitCandidate { root, candidate, platform },
                        }
                    } else if is_absolute_in(platform, string_from(t.as_slice()).as_str()) {
                        CwdStep::Done(
                            Err(
                                AppError::new(
                                    "TERMINAL_CWD_OUTSIDE_PROJECT",
                                    "Terminal cwd must be relative to the selected project",
                                ),
                            ),
                        )
                    } else {
                        let ts = string_from(t.as_slice());
                        let candidate = join_in(platform, root.as_str(), ts.as_str());
                        CwdStep::Inspect {
                            path: candidate.clone(),
                            flow: CwdFlow::AwaitCandidate { root, candidate, platform },
                        }
                    }
                },
            }
        },
        CwdFlow::AwaitCandidate { root, candidate, platform } => {
            if !report.exists {
                return CwdStep::Done(
                    Err(
                        AppError::new(
                            "TERMINAL_CWD_NOT_FOUND",
                            concat("Terminal cwd does not exist: ", candidate.as_str()).as_str(),
                        ),
                    ),
                );
            }
            if !report.is_dir {
                return CwdStep::Done(
                    Err(
                        AppError::new(
                            "TERMINAL_CWD_NOT_DIRECTORY",
                            concat("Terminal cwd is not a directory: ", candidate.as_str()).as_str(),
                        ),
                    ),
                );
            }
            match report.canonical {
                Err(d) => {
                    let a = concat("Cannot resolve terminal cwd '", candidate.as_str());
                    let b = concat(a.as_str(), "': ");
                    let m = concat(b.as_str(), d.as_str());
                    assert(m@ =~= "Cannot resolve terminal cwd '"@ + candidate@ + "': "@ + d@);
                    CwdStep::Done(Err(AppError { code: owned("TERMINAL_CWD_NOT_FOUND"), message: m }))
                },
                Ok(c) => {
                    if begins_with_in(platform, c.as_str(), root.as_str()) {
                        CwdStep::Done(Ok(c))
                    } else {
                        let a = concat("Terminal cwd '", c.as_str());
                        let b = concat(a.as_str(), "' is outside project '");
                        let d = concat(b.as_str(), root.as_str());
                        let m = concat(d.as_str(), "',");
                        assert(m@ =~= "Terminal cwd '"@ + c@ + "' is outside project '"@ + root@
                            + "',"@);
                        CwdStep::Done(
                            Err(AppError { code: owned("TERMINAL_CWD_OUTSIDE_PROJECT"), message: m }),
                        )
                    }
                },
            }
        },
    }
}

} // verus!
