//! Terminal sessions: the shells offered, the command that starts one, and
//! the bookkeeping of running and stopped terminals with their PTY handles.

use vstd::prelude::*;
use crate::clock::{is_v4_uuid_text, new_uuid_v4};
use crate::models::{
    AppError, ShellConfig, ShellConfigView, TerminalExitEvent, TerminalSession,
    TerminalSessionView, TerminalStatus,
};
use crate::text::{concat, lossy_text, owned, str_eq, utf8_lossy};
use crate::file_service::opt_view;
pub use crate::paths::Platform;

verus! {

/// The index of the first occurrence of `id` in `ids`.
pub open spec fn id_index(ids: Seq<Seq<char>>, id: Seq<char>) -> Option<int>
    decreases ids.len(),
{
    if ids.len() == 0 {
        None
    } else if ids[0] == id {
        Some(0)
    } else {
        match id_index(ids.drop_first(), id) {
            Some(i) => Some(i + 1),
            None => None,
        }
    }
}

/// No identifier occurs twice.
pub open spec fn distinct(ids: Seq<Seq<char>>) -> bool {
    forall|i: int, j: int| 0 <= i < j < ids.len() ==> ids[i] != ids[j]
}

/// The identifiers of the sessions, in order.
pub open spec fn session_ids(ss: Seq<TerminalSessionView>) -> Seq<Seq<char>> {
    ss.map_values(|s: TerminalSessionView| s.id)
}

/// The identifiers of the PTY entries, in order.
pub open spec fn entry_ids<P>(es: Seq<(Seq<char>, P)>) -> Seq<Seq<char>> {
    es.map_values(|e: (Seq<char>, P)| e.0)
}

/// The sessions with `s` recorded: it replaces the session with the same
/// identifier, or is added at the end.
pub open spec fn with_session(ss: Seq<TerminalSessionView>, s: TerminalSessionView) -> Seq<
    TerminalSessionView,
> {
    match id_index(session_ids(ss), s.id) {
        Some(k) => ss.update(k, s),
        None => ss.push(s),
    }
}

/// The sessions with the one named `id`, if any, marked as killed.
pub open spec fn stopped(ss: Seq<TerminalSessionView>, id: Seq<char>) -> Seq<TerminalSessionView> {
    match id_index(session_ids(ss), id) {
        Some(k) => ss.update(k, TerminalSessionView { status: TerminalStatus::Killed, ..ss[k] }),
        None => ss,
    }
}

/// The sessions without the one named `id`.
pub open spec fn without_session(ss: Seq<TerminalSessionView>, id: Seq<char>) -> Seq<
    TerminalSessionView,
> {
    match id_index(session_ids(ss), id) {
        Some(k) => ss.remove(k),
        None => ss,
    }
}

/// The PTY entries with `h` recorded under `id`.
pub open spec fn with_entry<P>(es: Seq<(Seq<char>, P)>, id: Seq<char>, h: P) -> Seq<
    (Seq<char>, P),
> {
    match id_index(entry_ids(es), id) {
        Some(k) => es.update(k, (id, h)),
        None => es.push((id, h)),
    }
}

/// The PTY entries without the one under `id`.
pub open spec fn without_entry<P>(es: Seq<(Seq<char>, P)>, id: Seq<char>) -> Seq<(Seq<char>, P)> {
    match id_index(entry_ids(es), id) {
        Some(k) => es.remove(k),
        None => es,
    }
}

/// Every PTY entry's identifier is the identifier of a session.
pub open spec fn ptys_have_sessions<P>(ss: Seq<TerminalSessionView>, es: Seq<(Seq<char>, P)>) -> bool {
    forall|j: int| 0 <= j < es.len() ==> session_ids(ss).contains(#[trigger] es[j].0)
}

/// The sessions of one project, in order.
pub open spec fn sessions_of(ss: Seq<TerminalSessionView>, project: Seq<char>) -> Seq<
    TerminalSessionView,
>
    decreases ss.len(),
{
    if ss.len() == 0 {
        seq![]
    } else {
        let r = sessions_of(ss.drop_last(), project);
        if ss.last().project_id == project {
            r.push(ss.last())
        } else {
            r
        }
    }
}

pub proof fn lemma_id_index(ids: Seq<Seq<char>>, id: Seq<char>)
    ensures
        match id_index(ids, id) {
            Some(k) => 0 <= k < ids.len() && ids[k] == id && forall|j: int| 0 <= j < k ==> ids[j] != id,
            None => forall|j: int| 0 <= j < ids.len() ==> ids[j] != id,
        },
    decreases ids.len(),
{
    if ids.len() > 0 && ids[0] != id {
        lemma_id_index(ids.drop_first(), id);
        match id_index(ids.drop_first(), id) {
            Some(k) => {
                assert forall|j: int| 0 <= j < k + 1 implies ids[j] != id by {
                    if j > 0 {
                        assert(ids[j] == ids.drop_first()[j - 1]);
                    }
                }
            },
            None => {
                assert forall|j: int| 0 <= j < ids.len() implies ids[j] != id by {
                    if j > 0 {
                        assert(ids[j] == ids.drop_first()[j - 1]);
                    }
                }
            },
        }
    }
}

pub proof fn lemma_id_index_from(ids: Seq<Seq<char>>, id: Seq<char>, i: int)
    requires
        0 <= i <= ids.len(),
        i < ids.len() ==> ids[i] == id,
        forall|j: int| 0 <= j < i ==> ids[j] != id,
    ensures
        id_index(ids, id) == (if i < ids.len() { Some(i) } else { None::<int> }),
{
    lemma_id_index(ids, id);
    match id_index(ids, id) {
        Some(k) => {
            if k < i {
            } else if k > i {
                assert(i < ids.len());
            }
        },
        None => {},
    }
}

/// A session just recorded is found again under its identifier, unchanged.
pub proof fn lemma_recorded_session_found(ss: Seq<TerminalSessionView>, s: TerminalSessionView)
    ensures
        id_index(session_ids(with_session(ss, s)), s.id) matches Some(k) && with_session(ss, s)[k]
            == s,
{
    let ids = session_ids(ss);
    lemma_id_index(ids, s.id);
    let after = with_session(ss, s);
    match id_index(ids, s.id) {
        Some(k) => {
            assert(session_ids(after) =~= ids.update(k, s.id));
            lemma_id_index_from(session_ids(after), s.id, k);
        },
        None => {
            assert(session_ids(after) =~= ids.push(s.id));
            lemma_id_index_from(session_ids(after), s.id, ids.len() as int);
        },
    }
}

/// Stopping a known terminal keeps its session where it was, with every
/// field unchanged but the status, which becomes `Killed`.
pub proof fn lemma_stopped_session_kept(ss: Seq<TerminalSessionView>, id: Seq<char>)
    requires
        id_index(session_ids(ss), id) is Some,
    ensures
        stopped(ss, id).len() == ss.len(),
        id_index(session_ids(stopped(ss, id)), id) == id_index(session_ids(ss), id),
        ({
            let k = id_index(session_ids(ss), id)->0;
            stopped(ss, id)[k] == TerminalSessionView { status: TerminalStatus::Killed, ..ss[k] }
        }),
        forall|j: int|
            0 <= j < ss.len() && Some(j) != id_index(session_ids(ss), id) ==> #[trigger] stopped(
                ss,
                id,
            )[j] == ss[j],
{
    let k = id_index(session_ids(ss), id)->0;
    lemma_id_index(session_ids(ss), id);
    assert(session_ids(stopped(ss, id)) =~= session_ids(ss));
}

/// Once a terminal is closed no session answers to its identifier, and the
/// other sessions stay, in order.
pub proof fn lemma_closed_session_gone(ss: Seq<TerminalSessionView>, id: Seq<char>)
    requires
        distinct(session_ids(ss)),
    ensures
        id_index(session_ids(without_session(ss, id)), id) is None,
        forall|x: TerminalSessionView| #[trigger]
            ss.contains(x) && x.id != id ==> without_session(ss, id).contains(x),
{
    let ids = session_ids(ss);
    lemma_id_index(ids, id);
    let after = without_session(ss, id);
    lemma_id_index(session_ids(after), id);
    match id_index(ids, id) {
        Some(k) => {
            assert(session_ids(after) =~= ids.remove(k));
            assert forall|j: int| 0 <= j < session_ids(after).len() implies session_ids(after)[j]
                != id by {
                if j >= k {
                    assert(session_ids(after)[j] == ids[j + 1]);
                }
            }
            assert forall|x: TerminalSessionView| #[trigger]
                ss.contains(x) && x.id != id implies after.contains(x) by {
                let j = choose|j: int| 0 <= j < ss.len() && ss[j] == x;
                if j < k {
                    assert(after[j] == x);
                } else {
                    assert(j != k);
                    assert(after[j - 1] == x);
                }
            }
        },
        None => {},
    }
}

/// Every session listed for a project belongs to it, and every session of
/// the project is listed.
pub proof fn lemma_listed_sessions(ss: Seq<TerminalSessionView>, project: Seq<char>)
    ensures
        forall|i: int|
            0 <= i < sessions_of(ss, project).len() ==> (#[trigger] sessions_of(ss, project)[i]).project_id
                == project,
        forall|x: TerminalSessionView| #[trigger]
            ss.contains(x) && x.project_id == project ==> sessions_of(ss, project).contains(x),
        sessions_of(ss, project).len() <= ss.len(),
    decreases ss.len(),
{
    if ss.len() > 0 {
        let init = ss.drop_last();
        lemma_listed_sessions(init, project);
        let r = sessions_of(init, project);
        assert forall|x: TerminalSessionView| #[trigger]
            ss.contains(x) && x.project_id == project implies sessions_of(ss, project).contains(x) by {
            let j = choose|j: int| 0 <= j < ss.len() && ss[j] == x;
            if j < ss.len() - 1 {
                assert(init[j] == x);
                assert(init.contains(x));
                let m = choose|m: int| 0 <= m < r.len() && r[m] == x;
                if ss.last().project_id == project {
                    assert(r.push(ss.last())[m] == x);
                }
            } else {
                assert(r.push(ss.last())[r.len() as int] == x);
            }
        }
    }
}

/// After every terminal is killed, no project lists a session and no
/// identifier finds one.
pub proof fn lemma_nothing_after_kill_all(project: Seq<char>, id: Seq<char>)
    ensures
        sessions_of(Seq::<TerminalSessionView>::empty(), project) == Seq::<
            TerminalSessionView,
        >::empty(),
        id_index(session_ids(Seq::<TerminalSessionView>::empty()), id) is None,
{
    assert(session_ids(Seq::<TerminalSessionView>::empty()) =~= Seq::<Seq<char>>::empty());
}

/// A shell asked for by an identifier that is offered is the one chosen; any
/// other request gets the first shell.
pub proof fn lemma_chosen_shell(shells: Seq<ShellConfigView>, id: Seq<char>)
    requires
        shells.len() > 0,
    ensures
        (exists|j: int| 0 <= j < shells.len() && (#[trigger] shells[j]).id == id) ==> chosen_shell(
            shells,
            id,
        ).id == id,
        (forall|j: int| 0 <= j < shells.len() ==> (#[trigger] shells[j]).id != id) ==> chosen_shell(
            shells,
            id,
        ) == shells[0],
        shells.contains(chosen_shell(shells, id)),
{
    let ids = shells.map_values(|s: ShellConfigView| s.id);
    lemma_id_index(ids, id);
    match id_index(ids, id) {
        Some(k) => {
            assert(shells[k].id == ids[k]);
        },
        None => {
            assert forall|j: int| 0 <= j < shells.len() implies (#[trigger] shells[j]).id != id by {
                assert(ids[j] == shells[j].id);
            }
            assert(shells[0] == shells[0]);
        },
    }
}

proof fn lemma_record_keeps_ptys<P>(
    ss: Seq<TerminalSessionView>,
    es: Seq<(Seq<char>, P)>,
    s: TerminalSessionView,
    h: P,
)
    requires
        ptys_have_sessions(ss, es),
    ensures
        ptys_have_sessions(with_session(ss, s), with_entry(es, s.id, h)),
{
    let ids = session_ids(ss);
    let ss2 = with_session(ss, s);
    let es2 = with_entry(es, s.id, h);
    lemma_id_index(ids, s.id);
    lemma_id_index(entry_ids(es), s.id);
    lemma_recorded_session_found(ss, s);
    lemma_id_index(session_ids(ss2), s.id);
    assert forall|j: int| 0 <= j < es2.len() implies session_ids(ss2).contains(#[trigger] es2[j].0) by {
        let k2 = id_index(session_ids(ss2), s.id)->0;
        if es2[j].0 == s.id {
            assert(session_ids(ss2)[k2] == s.id);
        } else {
            match id_index(entry_ids(es), s.id) {
                Some(ke) => {
                    assert(es2[j] == es[j]);
                },
                None => {
                    assert(j < es.len());
                    assert(es2[j] == es[j]);
                },
            }
            let x = es[j].0;
            assert(ids.contains(x));
            let m = choose|m: int| 0 <= m < ids.len() && ids[m] == x;
            match id_index(ids, s.id) {
                Some(k) => {
                    assert(m != k);
                    assert(session_ids(ss2)[m] == ids[m]);
                },
                None => {
                    assert(session_ids(ss2)[m] == ids[m]);
                },
            }
        }
    }
}

/// Once the entry under `id` is taken out of entries with distinct
/// identifiers, none is left under `id`.
pub proof fn lemma_without_entry_gone<P>(es: Seq<(Seq<char>, P)>, id: Seq<char>)
    requires
        distinct(entry_ids(es)),
    ensures
        id_index(entry_ids(without_entry(es, id)), id) is None,
{
    let es2 = without_entry(es, id);
    lemma_id_index(entry_ids(es), id);
    lemma_id_index(entry_ids(es2), id);
    match id_index(entry_ids(es2), id) {
        Some(j) => {
            assert(entry_ids(es2)[j] == es2[j].0);
            match id_index(entry_ids(es), id) {
                Some(k) => {
                    let jj = if j < k { j } else { j + 1 };
                    assert(es2[j] == es[jj]);
                    assert(entry_ids(es)[jj] == es[jj].0);
                    assert(entry_ids(es)[k] == id);
                },
                None => {
                    assert(es2[j] == es[j]);
                    assert(entry_ids(es)[j] == es[j].0);
                },
            }
        },
        None => {},
    }
}

proof fn lemma_close_keeps_ptys<P>(ss: Seq<TerminalSessionView>, es: Seq<(Seq<char>, P)>, id: Seq<char>)
    requires
        ptys_have_sessions(ss, es),
        distinct(entry_ids(es)),
    ensures
        ptys_have_sessions(without_session(ss, id), without_entry(es, id)),
{
    let ids = session_ids(ss);
    let ss2 = without_session(ss, id);
    let es2 = without_entry(es, id);
    lemma_id_index(ids, id);
    lemma_id_index(entry_ids(es), id);
    assert forall|j: int| 0 <= j < es2.len() implies session_ids(ss2).contains(#[trigger] es2[j].0) by {
        let jj = match id_index(entry_ids(es), id) {
            Some(ke) => if j < ke { j } else { j + 1 },
            None => j,
        };
        assert(es2[j] == es[jj]);
        assert(es[jj].0 != id) by {
            match id_index(entry_ids(es), id) {
                Some(ke) => {
                    assert(entry_ids(es)[ke] == id);
                    assert(entry_ids(es)[jj] == es[jj].0);
                },
                None => {
                    assert(entry_ids(es)[jj] == es[jj].0);
                },
            }
        }
        let x = es[jj].0;
        assert(ids.contains(x));
        let m = choose|m: int| 0 <= m < ids.len() && ids[m] == x;
        match id_index(ids, id) {
            Some(k) => {
                assert(m != k);
                if m < k {
                    assert(session_ids(ss2)[m] == ids[m]);
                } else {
                    assert(session_ids(ss2)[m - 1] == ids[m]);
                }
            },
            None => {
                assert(session_ids(ss2)[m] == ids[m]);
            },
        }
    }
}

/// The service that keeps track of terminals.  `P` is the handle of a
/// running pseudo-terminal, owned here and used by the caller for input,
/// resizing and teardown.
pub struct TerminalService<P> {
    sessions: Vec<TerminalSession>,
    ptys: Vec<(String, P)>,
}

impl<P> TerminalService<P> {
    /// The sessions the interface knows of, in the order they were added.
    pub closed spec fn sessions(&self) -> Seq<TerminalSessionView> {
        self.sessions@.map_values(|s: TerminalSession| s@)
    }

    /// The PTY handles by terminal identifier, in the order they were added.
    pub closed spec fn pty_entries(&self) -> Seq<(Seq<char>, P)> {
        self.ptys@.map_values(|p: (String, P)| (p.0@, p.1))
    }

    /// Well-formedness: no session identifier repeats, nor does a PTY one,
    /// and every PTY handle belongs to a known session.
    pub closed spec fn wf(&self) -> bool {
        &&& distinct(session_ids(self.sessions()))
        &&& distinct(entry_ids(self.pty_entries()))
        &&& ptys_have_sessions(self.sessions(), self.pty_entries())
    }

    /// Whether the application runs with administrator rights: on Windows
    /// the elevation flag of the process token, on Linux an effective user
    /// id of 0, elsewhere never.
    pub fn is_elevated(platform: Platform, euid: u32, token_elevated: bool) -> (r: bool)
        ensures
            r == match platform {
                Platform::Windows => token_elevated,
                Platform::Linux => euid == 0,
                Platform::Other => false,
            },
    {
        match platform {
            Platform::Windows => token_elevated,
            Platform::Linux => euid == 0,
            Platform::Other => false,
        }
    }

    /// The command that restarts the application elevated, given the path of
    /// its executable (or why that path is unknown): PowerShell's
    /// `Start-Process -Verb RunAs`, available on Windows only.
    pub fn restart_as_admin(platform: Platform, exe_path: Result<String, String>) -> (r: Result<
        ShellCommand,
        AppError,
    >)
        ensures
            match restart_refusal(
                platform,
                match exe_path {
                    Ok(p) => Ok(p@),
                    Err(e) => Err(e@),
                },
            ) {
                Some(m) => r matches Err(e) && e.code@ == "RESTART_ERROR"@ && e.message@ == m,
                None => r matches Ok(c) && exe_path matches Ok(p) && c.program@ == "powershell"@
                    && c.args.deep_view() == seq!["-Command"@, run_as_argument(p@)]
                    && c.cwd is None,
            },
    {
        match exe_path {
            Err(e) => Err(AppError::new(
                "RESTART_ERROR",
                concat("Cannot get executable path: ", e.as_str()).as_str(),
            )),
            Ok(p) => {
                if platform == Platform::Windows {
                    let a = concat("Start-Process -FilePath '", p.as_str());
                    let arg = concat(a.as_str(), "' -Verb RunAs");
                    let mut args: Vec<String> = Vec::new();
                    args.push(owned("-Command"));
                    args.push(arg);
                    assert(args.deep_view() =~= seq!["-Command"@, run_as_argument(p@)]);
                    Ok(ShellCommand { program: owned("powershell"), args, cwd: None })
                } else {
                    Err(AppError::new("RESTART_ERROR", "Restart as admin is only supported on Windows"))
                }
            },
        }
    }

    /// The shells offered on `platform`; `shell_env` is the value of `$SHELL`.
    pub fn get_default_shell(platform: Platform, shell_env: Option<String>) -> (r: Vec<ShellConfig>)
        ensures
            shell_views(r@) == default_shells(platform, opt_view(shell_env)),
    {
        let mut v: Vec<ShellConfig> = Vec::new();
        if platform == Platform::Windows {
            v.push(make_shell("powershell", owned("PowerShell"), owned("powershell.exe"), no_logo()));
            v.push(make_shell("pwsh", owned("PowerShell Core"), owned("pwsh.exe"), no_logo()));
            v.push(make_shell("cmd", owned("Command Prompt"), owned("cmd.exe"), no_args()));
        } else {
            let login = match shell_env {
                Some(s) => s,
                None => owned("/bin/bash"),
            };
            let a = concat("Default (", login.as_str());
            let label = concat(a.as_str(), ")");
            v.push(make_shell("default", label, login, no_args()));
            v.push(make_shell("bash", owned("Bash"), owned("/bin/bash"), no_args()));
            v.push(make_shell("sh", owned("SH"), owned("/bin/sh"), no_args()));
        }
        assert(shell_views(v@) =~= default_shells(platform, opt_view(shell_env)));
        v
    }

    /// The shells that can be started; the same list as `get_default_shell`.
    pub fn detect_shells(platform: Platform, shell_env: Option<String>) -> (r: Vec<ShellConfig>)
        ensures
            shell_views(r@) == default_shells(platform, opt_view(shell_env)),
    {
        Self::get_default_shell(platform, shell_env)
    }

    /// In a well-formed service every identifier with a PTY handle is the
    /// identifier of a session, so input and resizing reach only terminals
    /// that `get_session` knows.
    pub proof fn lemma_pty_has_session(&self, id: Seq<char>)
        requires
            self.wf(),
        ensures
            id_index(entry_ids(self.pty_entries()), id) is Some ==> id_index(
                session_ids(self.sessions()),
                id,
            ) is Some,
    {
        lemma_id_index(entry_ids(self.pty_entries()), id);
        lemma_id_index(session_ids(self.sessions()), id);
        if let Some(k) = id_index(entry_ids(self.pty_entries()), id) {
            assert(entry_ids(self.pty_entries())[k] == self.pty_entries()[k].0);
            assert(session_ids(self.sessions()).contains(self.pty_entries()[k].0));
        }
    }

    pub fn new() -> (r: Self)
        ensures
            r.wf(),
            r.sessions() == Seq::<TerminalSessionView>::empty(),
            r.pty_entries() == Seq::<(Seq<char>, P)>::empty(),
    {
        let r = TerminalService { sessions: Vec::new(), ptys: Vec::new() };
        assert(r.sessions() =~= Seq::<TerminalSessionView>::empty());
        assert(r.pty_entries() =~= Seq::<(Seq<char>, P)>::empty());
        r
    }

    fn find_session(&self, id: &str) -> (r: Option<usize>)
        ensures
            match r {
                Some(k) => id_index(session_ids(self.sessions()), id@) == Some(k as int) && k
                    < self.sessions@.len(),
                None => id_index(session_ids(self.sessions()), id@) is None,
            },
    {
        let mut i: usize = 0;
        while i < self.sessions.len()
            invariant
                i <= self.sessions@.len(),
                forall|j: int| 0 <= j < i ==> session_ids(self.sessions())[j] != id@,
            decreases self.sessions@.len() - i,
        {
            if str_eq(self.sessions[i].id.as_str(), id) {
                proof {
                    lemma_id_index_from(session_ids(self.sessions()), id@, i as int);
                }
                return Some(i);
            }
            i = i + 1;
        }
        proof {
            lemma_id_index_from(session_ids(self.sessions()), id@, i as int);
        }
        None
    }

    fn find_pty(&self, id: &str) -> (r: Option<usize>)
        ensures
            match r {
                Some(k) => id_index(entry_ids(self.pty_entries()), id@) == Some(k as int) && k
                    < self.ptys@.len(),
                None => id_index(entry_ids(self.pty_entries()), id@) is None,
            },
    {
        let mut i: usize = 0;
        while i < self.ptys.len()
            invariant
                i <= self.ptys@.len(),
                forall|j: int| 0 <= j < i ==> entry_ids(self.pty_entries())[j] != id@,
            decreases self.ptys@.len() - i,
        {
            if str_eq(self.ptys[i].0.as_str(), id) {
                proof {
                    lemma_id_index_from(entry_ids(self.pty_entries()), id@, i as int);
                }
                return Some(i);
            }
            i = i + 1;
        }
        proof {
            lemma_id_index_from(entry_ids(self.pty_entries()), id@, i as int);
        }
        None
    }

    /// Drops the PTY handle under `id`, if there is one.
    fn drop_pty(&mut self, id: &str)
        requires
            old(self).wf(),
        ensures
            final(self).wf(),
            final(self).pty_entries() == without_entry(old(self).pty_entries(), id@),
            final(self).sessions() == old(self).sessions(),
    {
        match self.find_pty(id) {
            Some(k) => {
                let ghost before = self.pty_entries();
                let _removed = self.ptys.remove(k);
                assert(self.pty_entries() =~= before.remove(k as int));
                assert(entry_ids(self.pty_entries()) =~= entry_ids(before).remove(k as int));
            },
            None => {},
        }
    }

    /// Records a terminal whose shell was started in `pty`: the session gets
    /// a fresh random identifier, the creation time `created_at` (the
    /// caller's clock reading), the title `Terminal` and the status `Running`.
    pub fn spawn_terminal(
        &mut self,
        project_id: &str,
        cwd: &str,
        shell: ShellConfig,
        elevated: bool,
        created_at: String,
        pty: P,
    ) -> (r: TerminalSession)
        requires
            old(self).wf(),
        ensures
            final(self).wf(),
            is_v4_uuid_text(r@.id),
            r@.project_id == project_id@,
            r@.title == "Terminal"@,
            r@.cwd == cwd@,
            r@.shell == shell@,
            r@.status == TerminalStatus::Running,
            r@.exit_code is None,
            r@.elevated == elevated,
            r@.created_at == created_at@,
            final(self).sessions() == with_session(old(self).sessions(), r@),
            final(self).pty_entries() == with_entry(old(self).pty_entries(), r@.id, pty),
    {
        let id = new_uuid_v4();
        let session = TerminalSession {
            id: id.clone(),
            project_id: owned(project_id),
            title: owned("Terminal"),
            cwd: owned(cwd),
            shell,
            status: TerminalStatus::Running,
            exit_code: None,
            created_at,
            elevated,
        };
        let result = session.clone();
        let ghost ss = self.sessions();
        let ghost es = self.pty_entries();
        match self.find_session(id.as_str()) {
            Some(k) => {
                self.sessions.set(k, session);
                assert(self.sessions() =~= ss.update(k as int, result@));
                proof {
                    lemma_id_index(session_ids(ss), id@);
                }
                assert(session_ids(self.sessions()) =~= session_ids(ss).update(k as int, id@));
            },
            None => {
                self.sessions.push(session);
                assert(self.sessions() =~= ss.push(result@));
                proof {
                    lemma_id_index(session_ids(ss), id@);
                }
                assert(session_ids(self.sessions()) =~= session_ids(ss).push(id@));
            },
        }
        match self.find_pty(id.as_str()) {
            Some(k) => {
                self.ptys.set(k, (id, pty));
                assert(self.pty_entries() =~= es.update(k as int, (result@.id, pty)));
                proof {
                    lemma_id_index(entry_ids(es), result@.id);
                }
                assert(entry_ids(self.pty_entries()) =~= entry_ids(es).update(k as int, result@.id));
            },
            None => {
                self.ptys.push((id, pty));
                assert(self.pty_entries() =~= es.push((result@.id, pty)));
                proof {
                    lemma_id_index(entry_ids(es), result@.id);
                }
                assert(entry_ids(self.pty_entries()) =~= entry_ids(es).push(result@.id));
            },
        }
        proof {
            lemma_record_keeps_ptys(ss, es, result@, pty);
        }
        result
    }

    /// The PTY handle of a terminal, for writing input or resizing.
    pub fn pty_for(&self, terminal_id: &str) -> (r: Result<&P, AppError>)
        ensures
            match id_index(entry_ids(self.pty_entries()), terminal_id@) {
                Some(k) => r matches Ok(h) && *h == self.pty_entries()[k].1,
                None => r matches Err(e) && e.code@ == "TERMINAL_NOT_FOUND"@ && e.message@
                    == not_found_message(terminal_id@),
            },
    {
        match self.find_pty(terminal_id) {
            Some(k) => Ok(&self.ptys[k].1),
            None => Err(terminal_not_found(terminal_id)),
        }
    }

    /// Stops a terminal: its PTY handle is dropped (which ends the process)
    /// and its session stays, marked as killed.  An unknown identifier is an
    /// error, after any PTY handle under it has been dropped.
    pub fn stop_terminal(&mut self, terminal_id: &str) -> (r: Result<(), AppError>)
        requires
            old(self).wf(),
        ensures
            final(self).wf(),
            final(self).pty_entries() == without_entry(old(self).pty_entries(), terminal_id@),
            id_index(entry_ids(final(self).pty_entries()), terminal_id@) is None,
            final(self).sessions() == stopped(old(self).sessions(), terminal_id@),
            match r {
                Ok(()) => id_index(session_ids(old(self).sessions()), terminal_id@) is Some,
                Err(e) => id_index(session_ids(old(self).sessions()), terminal_id@) is None
                    && e.code@ == "TERMINAL_NOT_FOUND"@ && e.message@ == not_found_message(
                    terminal_id@,
                ),
            },
    {
        proof {
            lemma_without_entry_gone(self.pty_entries(), terminal_id@);
        }
        self.drop_pty(terminal_id);
        let ghost ss = self.sessions();
        match self.find_session(terminal_id) {
            Some(k) => {
                let mut s = self.sessions.remove(k);
                s.status = TerminalStatus::Killed;
                let ghost v = s@;
                self.sessions.insert(k, s);
                assert(self.sessions() =~= ss.update(
                    k as int,
                    TerminalSessionView { status: TerminalStatus::Killed, ..ss[k as int] },
                ));
                assert(session_ids(self.sessions()) =~= session_ids(ss));
                Ok(())
            },
            None => Err(terminal_not_found(terminal_id)),
        }
    }

    /// Closes a terminal for good: its PTY handle and its session both go.
    pub fn close_terminal(&mut self, terminal_id: &str) -> (r: Result<(), AppError>)
        requires
            old(self).wf(),
        ensures
            final(self).wf(),
            final(self).pty_entries() == without_entry(old(self).pty_entries(), terminal_id@),
            id_index(entry_ids(final(self).pty_entries()), terminal_id@) is None,
            final(self).sessions() == without_session(old(self).sessions(), terminal_id@),
            match r {
                Ok(()) => id_index(session_ids(old(self).sessions()), terminal_id@) is Some,
                Err(e) => id_index(session_ids(old(self).sessions()), terminal_id@) is None
                    && e.code@ == "TERMINAL_NOT_FOUND"@ && e.message@ == not_found_message(
                    terminal_id@,
                ),
            },
    {
        let ghost es0 = self.pty_entries();
        let ghost ss0 = self.sessions();
        proof {
            lemma_close_keeps_ptys(ss0, es0, terminal_id@);
            lemma_without_entry_gone(es0, terminal_id@);
        }
        self.drop_pty(terminal_id);
        let ghost ss = self.sessions();
        match self.find_session(terminal_id) {
            Some(k) => {
                let _removed = self.sessions.remove(k);
                assert(self.sessions() =~= ss.remove(k as int));
                assert(session_ids(self.sessions()) =~= session_ids(ss).remove(k as int));
                Ok(())
            },
            None => Err(terminal_not_found(terminal_id)),
        }
    }

    /// The older name of `stop_terminal`.
    pub fn kill_terminal(&mut self, terminal_id: &str) -> (r: Result<(), AppError>)
        requires
            old(self).wf(),
        ensures
            final(self).wf(),
            final(self).pty_entries() == without_entry(old(self).pty_entries(), terminal_id@),
            id_index(entry_ids(final(self).pty_entries()), terminal_id@) is None,
            final(self).sessions() == stopped(old(self).sessions(), terminal_id@),
            match r {
                Ok(()) => id_index(session_ids(old(self).sessions()), terminal_id@) is Some,
                Err(e) => id_index(session_ids(old(self).sessions()), terminal_id@) is None
                    && e.code@ == "TERMINAL_NOT_FOUND"@ && e.message@ == not_found_message(
                    terminal_id@,
                ),
            },
    {
        self.stop_terminal(terminal_id)
    }

    /// Drops every PTY handle and forgets every session; the answer is the
    /// larger of the two counts (as a `u32`).
    pub fn kill_all(&mut self) -> (r: u32)
        requires
            old(self).wf(),
        ensures
            final(self).wf(),
            final(self).sessions() == Seq::<TerminalSessionView>::empty(),
            final(self).pty_entries() == Seq::<(Seq<char>, P)>::empty(),
            r == (if old(self).pty_entries().len() >= old(self).sessions().len() {
                old(self).pty_entries().len()
            } else {
                old(self).sessions().len()
            }) as u32,
    {
        let pty_count = self.ptys.len();
        let session_count = self.sessions.len();
        self.ptys.clear();
        self.sessions.clear();
        assert(self.sessions() =~= Seq::<TerminalSessionView>::empty());
        assert(self.pty_entries() =~= Seq::<(Seq<char>, P)>::empty());
        let count = if pty_count >= session_count {
            pty_count
        } else {
            session_count
        };
        count as u32
    }

    /// The session with the given identifier.
    pub fn get_session(&self, terminal_id: &str) -> (r: Option<TerminalSession>)
        ensures
            match id_index(session_ids(self.sessions()), terminal_id@) {
                Some(k) => r matches Some(s) && s@ == self.sessions()[k],
                None => r is None,
            },
    {
        match self.find_session(terminal_id) {
            Some(k) => Some(self.sessions[k].clone()),
            None => None,
        }
    }

    /// The sessions of one project, in the order they were added.
    pub fn list_sessions(&self, project_id: &str) -> (r: Vec<TerminalSession>)
        ensures
            r@.map_values(|s: TerminalSession| s@) == sessions_of(self.sessions(), project_id@),
    {
        let ghost ss = self.sessions();
        let mut r: Vec<TerminalSession> = Vec::new();
        let mut i: usize = 0;
        assert(ss.take(0) =~= Seq::<TerminalSessionView>::empty());
        assert(r@.map_values(|s: TerminalSession| s@) =~= Seq::<TerminalSessionView>::empty());
        while i < self.sessions.len()
            invariant
                i <= self.sessions@.len(),
                ss == self.sessions(),
                r@.map_values(|s: TerminalSession| s@) == sessions_of(ss.take(i as int), project_id@),
            decreases self.sessions@.len() - i,
        {
            let ghost before = r@.map_values(|s: TerminalSession| s@);
            proof {
                assert(ss.take(i + 1).drop_last() =~= ss.take(i as int));
                assert(ss.take(i + 1).last() == ss[i as int]);
                assert(ss[i as int] == self.sessions@[i as int]@);
            }
            if str_eq(self.sessions[i].project_id.as_str(), project_id) {
                let c = self.sessions[i].clone();
                r.push(c);
                assert(r@.map_values(|s: TerminalSession| s@) =~= before.push(ss[i as int]));
            }
            i = i + 1;
        }
        assert(ss.take(self.sessions@.len() as int) =~= ss);
        r
    }
}

/// A shell as plain values.
pub open spec fn shell_of(
    id: Seq<char>,
    label: Seq<char>,
    executable: Seq<char>,
    args: Seq<Seq<char>>,
) -> ShellConfigView {
    ShellConfigView { id, label, executable, args }
}

/// The shells offered on a platform.  Elsewhere than on Windows the first is
/// the user's login shell (`$SHELL`, or `/bin/bash` when it is unset).
pub open spec fn default_shells(platform: Platform, shell_env: Option<Seq<char>>) -> Seq<
    ShellConfigView,
> {
    if platform == Platform::Windows {
        seq![
            shell_of("powershell"@, "PowerShell"@, "powershell.exe"@, seq!["-NoLogo"@]),
            shell_of("pwsh"@, "PowerShell Core"@, "pwsh.exe"@, seq!["-NoLogo"@]),
            shell_of("cmd"@, "Command Prompt"@, "cmd.exe"@, seq![]),
        ]
    } else {
        let login = match shell_env {
            Some(s) => s,
            None => "/bin/bash"@,
        };
        seq![
            shell_of("default"@, "Default ("@ + login + ")"@, login, seq![]),
            shell_of("bash"@, "Bash"@, "/bin/bash"@, seq![]),
            shell_of("sh"@, "SH"@, "/bin/sh"@, seq![]),
        ]
    }
}

/// The views of a list of shells.
pub open spec fn shell_views(v: Seq<ShellConfig>) -> Seq<ShellConfigView> {
    v.map_values(|s: ShellConfig| s@)
}

/// The shell with the requested identifier, or the first one offered.
pub open spec fn chosen_shell(shells: Seq<ShellConfigView>, id: Seq<char>) -> ShellConfigView {
    match id_index(shells.map_values(|s: ShellConfigView| s.id), id) {
        Some(k) => shells[k],
        None => shells[0],
    }
}

/// The program, arguments and working directory that start a shell.
pub struct ShellCommand {
    pub program: String,
    pub args: Vec<String>,
    pub cwd: Option<String>,
}

/// The program that starts `shell`: on Linux an elevated shell runs under
/// `sudo`; elsewhere an elevated application passes its rights on.
pub open spec fn launch_program(shell: ShellConfigView, elevated: bool, platform: Platform) -> Seq<
    char,
> {
    if elevated && platform == Platform::Linux {
        "sudo"@
    } else {
        shell.executable
    }
}

/// The arguments that go with `launch_program`.
pub open spec fn launch_args(shell: ShellConfigView, elevated: bool, platform: Platform) -> Seq<
    Seq<char>,
> {
    if elevated && platform == Platform::Linux {
        seq!["-H"@, "-u"@, "root"@, shell.executable] + shell.args
    } else {
        shell.args
    }
}

/// What one read from a pseudo-terminal gave.
pub enum PtyRead {
    /// End of file: the process ended, with its exit code when known.
    Eof { exit_code: Option<u32> },
    /// Some bytes of output.
    Bytes(Vec<u8>),
    /// The read failed with this message.
    Failed(String),
}

/// What the reader of a terminal does with a read.
pub enum ReaderAction {
    /// Send `data` as the event `event` and read on.
    Output { event: String, data: String },
    /// Send `payload` as the event `event` and stop reading.
    Exit { event: String, payload: TerminalExitEvent },
}

/// The name of the event that carries a terminal's output.
pub open spec fn output_event(id: Seq<char>) -> Seq<char> {
    "terminal://output/"@ + id
}

/// The name of the event sent when a terminal's process ends.
pub open spec fn exit_event(id: Seq<char>) -> Seq<char> {
    "terminal://exit/"@ + id
}

/// A failure while starting or using a pseudo-terminal.
pub enum PtyFailure {
    Open,
    /// Starting the shell at this path failed.
    Spawn(String),
    Writer,
    Reader,
    Write,
    Flush,
    Resize,
}

/// The code of each failure.
pub open spec fn pty_failure_code(f: PtyFailure) -> Seq<char> {
    match f {
        PtyFailure::Open => "PTY_OPEN_ERROR"@,
        PtyFailure::Spawn(_) => "PTY_SPAWN_ERROR"@,
        PtyFailure::Writer => "PTY_WRITER_ERROR"@,
        PtyFailure::Reader => "PTY_READER_ERROR"@,
        PtyFailure::Write => "PTY_WRITE_ERROR"@,
        PtyFailure::Flush => "PTY_FLUSH_ERROR"@,
        PtyFailure::Resize => "PTY_RESIZE_ERROR"@,
    }
}

/// The message of each failure, around the system's own words `detail`.
pub open spec fn pty_failure_message(f: PtyFailure, detail: Seq<char>) -> Seq<char> {
    match f {
        PtyFailure::Open => "Cannot create pseudo-terminal: "@ + detail,
        PtyFailure::Spawn(path) => "Cannot spawn shell '"@ + path@ + "': "@ + detail,
        PtyFailure::Writer => "Cannot get PTY writer: "@ + detail,
        PtyFailure::Reader => "Cannot get PTY reader: "@ + detail,
        _ => detail,
    }
}

fn make_shell(id: &str, label: String, executable: String, args: Vec<String>) -> (r: ShellConfig)
    ensures
        r@ == shell_of(id@, label@, executable@, args.deep_view()),
{
    ShellConfig { id: owned(id), label, executable, args }
}

fn no_logo() -> (r: Vec<String>)
    ensures
        r.deep_view() == seq!["-NoLogo"@],
{
    let mut v: Vec<String> = Vec::new();
    v.push(owned("-NoLogo"));
    assert(v.deep_view() =~= seq!["-NoLogo"@]);
    v
}

fn no_args() -> (r: Vec<String>)
    ensures
        r.deep_view() == Seq::<Seq<char>>::empty(),
{
    let v: Vec<String> = Vec::new();
    assert(v.deep_view() =~= Seq::<Seq<char>>::empty());
    v
}

/// The shell with the requested identifier, or the first one offered.
pub fn pick_shell(shells: &Vec<ShellConfig>, shell_id: &str) -> (r: ShellConfig)
    requires
        shells@.len() > 0,
    ensures
        r@ == chosen_shell(shell_views(shells@), shell_id@),
{
    let ghost views = shell_views(shells@);
    let ghost ids = views.map_values(|s: ShellConfigView| s.id);
    let mut i: usize = 0;
    while i < shells.len()
        invariant
            i <= shells@.len(),
            views == shell_views(shells@),
            ids == views.map_values(|s: ShellConfigView| s.id),
            forall|j: int| 0 <= j < i ==> ids[j] != shell_id@,
        decreases shells@.len() - i,
    {
        if str_eq(shells[i].id.as_str(), shell_id) {
            proof {
                lemma_id_index_from(ids, shell_id@, i as int);
            }
            return shells[i].clone();
        }
        i = i + 1;
    }
    proof {
        lemma_id_index_from(ids, shell_id@, i as int);
    }
    shells[0].clone()
}

/// The command that starts `shell` in the directory `cwd` (none when it is
/// empty), elevated or not, on `platform`.
pub fn shell_command(shell: &ShellConfig, cwd: &str, elevated: bool, platform: Platform) -> (r:
    ShellCommand)
    ensures
        r.program@ == launch_program(shell@, elevated, platform),
        r.args.deep_view() == launch_args(shell@, elevated, platform),
        opt_view(r.cwd) == (if cwd@.len() == 0 { None } else { Some(cwd@) }),
{
    let mut args: Vec<String> = Vec::new();
    let program = if elevated && platform == Platform::Linux {
        args.push(owned("-H"));
        args.push(owned("-u"));
        args.push(owned("root"));
        args.push(shell.executable.clone());
        owned("sudo")
    } else {
        shell.executable.clone()
    };
    let ghost start = args.deep_view();
    let ghost n = start.len();
    let mut i: usize = 0;
    while i < shell.args.len()
        invariant
            i <= shell.args@.len(),
            n == start.len(),
            args@.len() == n + i,
            forall|j: int| 0 <= j < n ==> (#[trigger] args@[j])@ == start[j],
            forall|j: int| 0 <= j < i ==> (#[trigger] args@[n + j])@ == shell.args@[j]@,
        decreases shell.args@.len() - i,
    {
        let ghost before = args@;
        args.push(shell.args[i].clone());
        assert(args@ == before.push(shell.args@[i as int]));
        assert forall|j: int| 0 <= j < i + 1 implies (#[trigger] args@[n + j])@ == shell.args@[j]@ by {
            if j < i {
                assert(args@[n + j] == before[n + j]);
            }
        }
        i = i + 1;
    }
    assert(args.deep_view() =~= start + shell.args.deep_view()) by {
        assert forall|j: int| 0 <= j < args@.len() implies #[trigger] args.deep_view()[j] == (start
            + shell.args.deep_view())[j] by {
            if j >= n {
                assert(args@[n + (j - n)]@ == shell.args@[j - n]@);
            }
        }
    }
    assert(args.deep_view() =~= launch_args(shell@, elevated, platform));
    let dir = if cwd.is_empty() {
        None
    } else {
        Some(owned(cwd))
    };
    ShellCommand { program, args, cwd: dir }
}

/// What the reader of terminal `terminal_id` does with one read: output is
/// passed on, decoded leniently from UTF-8; the end of the output, or a
/// failed read, ends the terminal with an exit event.
pub fn reader_step(terminal_id: &str, read: PtyRead) -> (r: ReaderAction)
    ensures
        match read {
            PtyRead::Bytes(b) => r matches ReaderAction::Output { event, data } && event@
                == output_event(terminal_id@) && data@ == utf8_lossy(b@) && ((forall|i: int|
                0 <= i < b@.len() ==> b@[i] < 128) ==> data@ == b@.map_values(|x: u8| x as char)),
            PtyRead::Eof { exit_code } => r matches ReaderAction::Exit { event, payload }
                && event@ == exit_event(terminal_id@) && payload.terminal_id@ == terminal_id@
                && payload.exit_code == (match exit_code {
                Some(c) => Some(c as i32),
                None => None,
            }) && payload.reason@ == "exited"@ && payload.message is None,
            PtyRead::Failed(m) => r matches ReaderAction::Exit { event, payload } && event@
                == exit_event(terminal_id@) && payload.terminal_id@ == terminal_id@
                && payload.exit_code is None && payload.reason@ == "error"@ && (
                match payload.message {
                    Some(pm) => pm@ == m@,
                    None => false,
                }),
        },
{
    match read {
        PtyRead::Bytes(b) => ReaderAction::Output {
            event: concat("terminal://output/", terminal_id),
            data: lossy_text(b.as_slice()),
        },
        PtyRead::Eof { exit_code } => {
            let code: Option<i32> = match exit_code {
                Some(c) => Some(c as i32),
                None => None,
            };
            ReaderAction::Exit {
                event: concat("terminal://exit/", terminal_id),
                payload: TerminalExitEvent {
                    terminal_id: owned(terminal_id),
                    exit_code: code,
                    reason: owned("exited"),
                    message: None,
                },
            }
        },
        PtyRead::Failed(m) => ReaderAction::Exit {
            event: concat("terminal://exit/", terminal_id),
            payload: TerminalExitEvent {
                terminal_id: owned(terminal_id),
                exit_code: None,
                reason: owned("error"),
                message: Some(m),
            },
        },
    }
}

/// The error for a failure while starting or using a pseudo-terminal.
pub fn pty_error(failure: PtyFailure, detail: &str) -> (e: AppError)
    ensures
        e.code@ == pty_failure_code(failure),
        e.message@ == pty_failure_message(failure, detail@),
{
    match failure {
        PtyFailure::Open => AppError::new("PTY_OPEN_ERROR", concat(
            "Cannot create pseudo-terminal: ",
            detail,
        ).as_str()),
        PtyFailure::Spawn(path) => {
            let a = concat("Cannot spawn shell '", path.as_str());
            let b = concat(a.as_str(), "': ");
            let m = concat(b.as_str(), detail);
            assert(m@ =~= "Cannot spawn shell '"@ + path@ + "': "@ + detail@);
            AppError { code: owned("PTY_SPAWN_ERROR"), message: m }
        },
        PtyFailure::Writer => AppError::new("PTY_WRITER_ERROR", concat(
            "Cannot get PTY writer: ",
            detail,
        ).as_str()),
        PtyFailure::Reader => AppError::new("PTY_READER_ERROR", concat(
            "Cannot get PTY reader: ",
            detail,
        ).as_str()),
        PtyFailure::Write => AppError::new("PTY_WRITE_ERROR", detail),
        PtyFailure::Flush => AppError::new("PTY_FLUSH_ERROR", detail),
        PtyFailure::Resize => AppError::new("PTY_RESIZE_ERROR", detail),
    }
}

/// The message given when the application cannot restart itself elevated.
pub open spec fn restart_refusal(platform: Platform, exe_path: Result<Seq<char>, Seq<char>>) -> Option<
    Seq<char>,
> {
    match exe_path {
        Err(e) => Some("Cannot get executable path: "@ + e),
        Ok(_) => if platform == Platform::Windows {
            None
        } else {
            Some("Restart as admin is only supported on Windows"@)
        },
    }
}

/// The PowerShell argument that starts `exe` elevated.
pub open spec fn run_as_argument(exe: Seq<char>) -> Seq<char> {
    "Start-Process -FilePath '"@ + exe + "' -Verb RunAs"@
}

/// The error when the elevated process could not be started.
pub fn restart_failed(detail: &str) -> (e: AppError)
    ensures
        e.code@ == "RESTART_ERROR"@,
        e.message@ == "Failed to restart as admin: "@ + detail@,
{
    AppError::new("RESTART_ERROR", concat("Failed to restart as admin: ", detail).as_str())
}

/// The error for an unknown terminal identifier.
pub open spec fn not_found_message(id: Seq<char>) -> Seq<char> {
    "Terminal '"@ + id + "' not found"@
}

fn terminal_not_found(id: &str) -> (e: AppError)
    ensures
        e.code@ == "TERMINAL_NOT_FOUND"@,
        e.message@ == not_found_message(id@),
{
    let a = concat("Terminal '", id);
    let m = concat(a.as_str(), "' not found");
    AppError { code: owned("TERMINAL_NOT_FOUND"), message: m }
}

} // verus!
