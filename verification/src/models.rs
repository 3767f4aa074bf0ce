//! The records that the services hand to the user interface.

use vstd::prelude::*;
use crate::text::{concat, owned};

verus! {

/// A project folder that the user registered.
#[derive(Debug)]
pub struct Project {
    pub id: String,
    pub name: String,
    pub path: String,
    pub created_at: String,
    pub updated_at: String,
    pub last_opened_at: Option<String>,
}

/// A shell that a terminal can run.
#[derive(Debug)]
pub struct ShellConfig {
    pub id: String,
    pub label: String,
    pub executable: String,
    pub args: Vec<String>,
}

/// The life stage of a terminal.
#[derive(Debug, PartialEq, Eq, Structural, Clone, Copy)]
pub enum TerminalStatus {
    Starting,
    Running,
    Exited,
    Killed,
    Error,
}

/// What the interface knows of one terminal.
#[derive(Debug)]
pub struct TerminalSession {
    pub id: String,
    pub project_id: String,
    pub title: String,
    pub cwd: String,
    pub shell: ShellConfig,
    pub status: TerminalStatus,
    pub exit_code: Option<i32>,
    pub created_at: String,
    pub elevated: bool,
}

/// One entry of a directory listing.
#[derive(Debug)]
pub struct FileTreeItem {
    pub name: String,
    pub relative_path: String,
    pub kind: String,
    pub size: Option<i64>,
    pub modified_at: Option<String>,
}

/// A text file opened in the editor.
#[derive(Debug)]
pub struct FileReadResult {
    pub project_id: String,
    pub relative_path: String,
    pub content: String,
    pub language_id: Option<String>,
    pub size: i64,
    pub modified_at: String,
    pub read_only: bool,
}

/// The answer to a saved file.
#[derive(Debug)]
pub struct FileWriteResult {
    pub ok: bool,
    pub modified_at: String,
}

/// The Git state of a project folder.
#[derive(Debug)]
pub struct GitStatus {
    pub is_repo: bool,
    pub branch: Option<String>,
    pub ahead: Option<i32>,
    pub behind: Option<i32>,
    pub files: Vec<GitFileStatus>,
    pub slow_mode: bool,
    pub skipped_untracked: bool,
}

/// One changed path in `git status`.
#[derive(Debug)]
pub struct GitFileStatus {
    pub path: String,
    pub index_status: String,
    pub working_tree_status: String,
    pub display_status: String,
}

/// The diff of one path.
#[derive(Debug)]
pub struct GitDiffResult {
    pub path: String,
    pub diff: String,
}

/// An error the interface shows: a stable code and a readable message.
#[derive(Debug)]
pub struct AppError {
    pub code: String,
    pub message: String,
}

/// Sent when the process of a terminal ends.
#[derive(Debug)]
pub struct TerminalExitEvent {
    pub terminal_id: String,
    pub exit_code: Option<i32>,
    pub reason: String,
    pub message: Option<String>,
}

/// Version information shown in the interface.
#[derive(Debug)]
pub struct AppRuntimeInfo {
    pub current_version: String,
    pub latest_version: Option<String>,
    pub update_available: bool,
    pub launch_language: Option<String>,
    pub update_command: String,
}

/// The answer to a self-update request.
#[derive(Debug)]
pub struct UpdateResult {
    pub ok: bool,
    pub message: String,
}

impl AppError {
    pub fn new(code: &str, message: &str) -> (r: Self)
        ensures
            r.code@ == code@,
            r.message@ == message@,
    {
        AppError { code: owned(code), message: owned(message) }
    }

    /// The text `[code] message`, as the error is displayed.
    pub fn display_text(&self) -> (r: String)
        ensures
            r@ == seq!['['] + self.code@ + seq![']', ' '] + self.message@,
    {
        let mut s = String::new();
        s.push('[');
        let s = concat(s.as_str(), self.code.as_str());
        let mut s = s;
        s.push(']');
        s.push(' ');
        let r = concat(s.as_str(), self.message.as_str());
        assert(r@ =~= seq!['['] + self.code@ + seq![']', ' '] + self.message@);
        r
    }
}

impl Clone for AppError {
    fn clone(&self) -> (r: Self)
        ensures
            r == *self,
    {
        AppError { code: self.code.clone(), message: self.message.clone() }
    }
}

/// A copy of a list of strings, element for element.
pub fn clone_strings(v: &Vec<String>) -> (r: Vec<String>)
    ensures
        r@ == v@,
{
    let mut r: Vec<String> = Vec::new();
    let mut i: usize = 0;
    while i < v.len()
        invariant
            i <= v@.len(),
            r@ == v@.take(i as int),
        decreases v@.len() - i,
    {
        r.push(v[i].clone());
        i = i + 1;
        assert(r@ =~= v@.take(i as int));
    }
    assert(v@.take(v@.len() as int) =~= v@);
    r
}

/// The contents of a `ShellConfig` as plain values.
pub struct ShellConfigView {
    pub id: Seq<char>,
    pub label: Seq<char>,
    pub executable: Seq<char>,
    pub args: Seq<Seq<char>>,
}

impl View for ShellConfig {
    type V = ShellConfigView;

    open spec fn view(&self) -> ShellConfigView {
        ShellConfigView {
            id: self.id@,
            label: self.label@,
            executable: self.executable@,
            args: self.args.deep_view(),
        }
    }
}

/// The contents of a `TerminalSession` as plain values.
pub struct TerminalSessionView {
    pub id: Seq<char>,
    pub project_id: Seq<char>,
    pub title: Seq<char>,
    pub cwd: Seq<char>,
    pub shell: ShellConfigView,
    pub status: TerminalStatus,
    pub exit_code: Option<i32>,
    pub created_at: Seq<char>,
    pub elevated: bool,
}

impl View for TerminalSession {
    type V = TerminalSessionView;

    open spec fn view(&self) -> TerminalSessionView {
        TerminalSessionView {
            id: self.id@,
            project_id: self.project_id@,
            title: self.title@,
            cwd: self.cwd@,
            shell: self.shell@,
            status: self.status,
            exit_code: self.exit_code,
            created_at: self.created_at@,
            elevated: self.elevated,
        }
    }
}

impl Clone for ShellConfig {
    fn clone(&self) -> (r: Self)
        ensures
            r@ == self@,
    {
        ShellConfig {
            id: self.id.clone(),
            label: self.label.clone(),
            executable: self.executable.clone(),
            args: clone_strings(&self.args),
        }
    }
}

impl Clone for TerminalSession {
    fn clone(&self) -> (r: Self)
        ensures
            r@ == self@,
    {
        TerminalSession {
            id: self.id.clone(),
            project_id: self.project_id.clone(),
            title: self.title.clone(),
            cwd: self.cwd.clone(),
            shell: self.shell.clone(),
            status: self.status,
            exit_code: self.exit_code,
            created_at: self.created_at.clone(),
            elevated: self.elevated,
        }
    }
}

} // verus!
