//! Git status and diff: the commands to run, the order in which their
//! replies are used, and the parsing of `git status --porcelain=v1 -b`.

use vstd::prelude::*;
use crate::models::{AppError, GitDiffResult, GitFileStatus, GitStatus};
use crate::file_service::opt_view;
use crate::number::{parse_i32, parse_i32_at};
use crate::text::{
    bounds_within, chars_of, concat, contains_at, contains_seq, find_char, has_prefix_at, index_of,
    line_bounds, lines, lossy_text, owned, pieces_at, slice_to_vec, split_bounds, split_on,
    starts_with, string_from, trim, trim_bounds, utf8_lossy, word_bounds, words,
};

verus! {

/// The service behind the Git panel.
pub struct GitService;

/// The contents of a `GitFileStatus` as plain values.
pub struct GitFileView {
    pub path: Seq<char>,
    pub index_status: Seq<char>,
    pub working_tree_status: Seq<char>,
    pub display_status: Seq<char>,
}

impl View for GitFileStatus {
    type V = GitFileView;

    open spec fn view(&self) -> GitFileView {
        GitFileView {
            path: self.path@,
            index_status: self.index_status@,
            working_tree_status: self.working_tree_status@,
            display_status: self.display_status@,
        }
    }
}

/// The contents of a `GitStatus` as plain values.
pub struct GitStatusView {
    pub is_repo: bool,
    pub branch: Option<Seq<char>>,
    pub ahead: Option<i32>,
    pub behind: Option<i32>,
    pub files: Seq<GitFileView>,
    pub slow_mode: bool,
    pub skipped_untracked: bool,
}

impl View for GitStatus {
    type V = GitStatusView;

    open spec fn view(&self) -> GitStatusView {
        GitStatusView {
            is_repo: self.is_repo,
            branch: opt_view(self.branch),
            ahead: self.ahead,
            behind: self.behind,
            files: self.files@.map_values(|f: GitFileStatus| f@),
            slow_mode: self.slow_mode,
            skipped_untracked: self.skipped_untracked,
        }
    }
}

/// What the lines of porcelain output gather: the changed paths and the
/// ahead/behind counts of the branch line.
pub struct PorcelainState {
    pub files: Seq<GitFileView>,
    pub ahead: Option<i32>,
    pub behind: Option<i32>,
}

/// The word a status code pair is shown as.
pub open spec fn display_status(x: char, y: char) -> Seq<char> {
    if x == 'M' || y == 'M' {
        "modified"@
    } else if x == 'A' {
        "added"@
    } else if x == 'D' || y == 'D' {
        "deleted"@
    } else if x == 'R' {
        "renamed"@
    } else if x == '?' && y == '?' {
        "untracked"@
    } else if x == 'U' || y == 'U' {
        "conflicted"@
    } else {
        "unknown"@
    }
}

/// The count after `word` in one comma-separated piece such as `ahead 3`:
/// the piece, trimmed, must start with the word, and its second
/// whitespace-separated word must parse as an `i32`.
pub open spec fn count_in(piece: Seq<char>, word: Seq<char>) -> Option<i32> {
    let t = trim(piece);
    if starts_with(t, word) {
        let w = words(t);
        if w.len() > 1 {
            parse_i32(w[1])
        } else {
            None
        }
    } else {
        None
    }
}

/// The first piece that yields a count.
pub open spec fn first_count(pieces: Seq<Seq<char>>, word: Seq<char>) -> Option<i32>
    decreases pieces.len(),
{
    if pieces.len() == 0 {
        None
    } else {
        match count_in(pieces[0], word) {
            Some(v) => Some(v),
            None => first_count(pieces.drop_first(), word),
        }
    }
}

/// The count for `word` in the bracketed tracking part, such as
/// `ahead 2, behind 1`.
pub open spec fn tracking_count(part: Seq<char>, word: Seq<char>) -> Option<i32> {
    first_count(split_on(part, ','), word)
}

/// The effect of a branch line (what follows `## `): the counts are taken
/// from between the first `[` and the first `]`, each only when its word
/// occurs there.
pub open spec fn branch_line_update(st: PorcelainState, info: Seq<char>) -> PorcelainState {
    match (index_of(info, '['), index_of(info, ']')) {
        (Some(a), Some(b)) => {
            let part = info.subrange(a + 1, b);
            PorcelainState {
                files: st.files,
                ahead: if contains_seq(part, "ahead"@) {
                    tracking_count(part, "ahead"@)
                } else {
                    st.ahead
                },
                behind: if contains_seq(part, "behind"@) {
                    tracking_count(part, "behind"@)
                } else {
                    st.behind
                },
            }
        },
        _ => st,
    }
}

/// The entry of a path line `XY path`.
pub open spec fn file_entry(line: Seq<char>) -> GitFileView {
    GitFileView {
        path: if line.len() > 3 {
            trim(line.skip(3))
        } else {
            Seq::empty()
        },
        index_status: seq![line[0]],
        working_tree_status: seq![line[1]],
        display_status: display_status(line[0], line[1]),
    }
}

/// The effect of one line of porcelain output; lines shorter than three
/// characters are skipped.
pub open spec fn porcelain_line(st: PorcelainState, line: Seq<char>) -> PorcelainState {
    if starts_with(line, "## "@) {
        branch_line_update(st, line.skip(3))
    } else if line.len() >= 3 {
        PorcelainState { files: st.files.push(file_entry(line)), ahead: st.ahead, behind: st.behind }
    } else {
        st
    }
}

/// The lines folded from the first to the last.
pub open spec fn porcelain_fold(ls: Seq<Seq<char>>) -> PorcelainState
    decreases ls.len(),
{
    if ls.len() == 0 {
        PorcelainState { files: seq![], ahead: None, behind: None }
    } else {
        porcelain_line(porcelain_fold(ls.drop_last()), ls.last())
    }
}

/// The number of bytes of a character in UTF-8.
pub open spec fn char_width(c: char) -> nat {
    let u = c as u32;
    if u < 0x80 {
        1
    } else if u < 0x800 {
        2
    } else if u < 0x10000 {
        3
    } else {
        4
    }
}

/// The number of bytes of a character sequence in UTF-8.
pub open spec fn utf8_len(s: Seq<char>) -> nat
    decreases s.len(),
{
    if s.len() == 0 {
        0
    } else {
        char_width(s[0]) + utf8_len(s.drop_first())
    }
}

/// An ASCII character.
pub open spec fn is_ascii_char(c: char) -> bool {
    (c as u32) < 0x80
}

/// A line that the porcelain reader can take apart with byte slicing: on a
/// branch line a `]` may not come before the first `[`; on another line of
/// three or more bytes the first three characters are ASCII.
pub open spec fn safe_status_line(l: Seq<char>) -> bool {
    if starts_with(l, "## "@) {
        let info = l.skip(3);
        match (index_of(info, '['), index_of(info, ']')) {
            (Some(a), Some(b)) => a < b,
            _ => true,
        }
    } else {
        utf8_len(l) < 3 || (l.len() >= 3 && is_ascii_char(l[0]) && is_ascii_char(l[1])
            && is_ascii_char(l[2]))
    }
}

/// Output whose every line is safe to read.
pub open spec fn parsable_status(out: Seq<char>) -> bool {
    forall|i: int| 0 <= i < lines(out).len() ==> safe_status_line(#[trigger] lines(out)[i])
}

/// The status of a repository given the porcelain output and the branch.
pub open spec fn repo_status(out: Seq<char>, branch: Option<Seq<char>>, slow: bool) -> GitStatusView {
    let st = porcelain_fold(lines(out));
    GitStatusView {
        is_repo: true,
        branch: branch,
        ahead: st.ahead,
        behind: st.behind,
        files: st.files,
        slow_mode: slow,
        skipped_untracked: slow,
    }
}

/// The status of a folder that is not a repository.
pub open spec fn no_repo_status() -> GitStatusView {
    GitStatusView {
        is_repo: false,
        branch: None,
        ahead: None,
        behind: None,
        files: seq![],
        slow_mode: false,
        skipped_untracked: false,
    }
}


proof fn lemma_utf8_len_at_least(s: Seq<char>)
    ensures
        utf8_len(s) >= s.len(),
    decreases s.len(),
{
    if s.len() > 0 {
        lemma_utf8_len_at_least(s.drop_first());
    }
}

/// On a safe line that is not a branch line, the byte-length tests of the
/// porcelain reader agree with the character-length tests that
/// `porcelain_line` states.
pub proof fn lemma_safe_line_lengths(l: Seq<char>)
    requires
        safe_status_line(l),
        !starts_with(l, "## "@),
    ensures
        (utf8_len(l) >= 3) == (l.len() >= 3),
        l.len() >= 3 ==> ((utf8_len(l) > 3) == (l.len() > 3)),
{
    lemma_utf8_len_at_least(l);
    if l.len() >= 3 && is_ascii_char(l[0]) && is_ascii_char(l[1]) && is_ascii_char(l[2]) {
        let r = l.skip(3);
        lemma_utf8_len_at_least(r);
        let l1 = l.drop_first();
        let l2 = l1.drop_first();
        assert(l2.drop_first() =~= r);
        assert(l1[0] == l[1]);
        assert(l2[0] == l[2]);
        assert(utf8_len(l2) == 1 + utf8_len(r));
        assert(utf8_len(l1) == 1 + utf8_len(l2));
        assert(utf8_len(l) == 1 + utf8_len(l1));
    }
}

/// The count after `word` in the piece `s[lo..hi]`.
fn count_in_piece(s: &[char], lo: usize, hi: usize, word: &[char]) -> (r: Option<i32>)
    requires
        lo <= hi <= s@.len(),
    ensures
        r == count_in(s@.subrange(lo as int, hi as int), word@),
{
    let (a, b) = trim_bounds(s, lo, hi);
    if !has_prefix_at(s, a, b, word) {
        return None;
    }
    let w = word_bounds(s, a, b);
    if w.len() > 1 {
        let (x, y) = w[1];
        assert(w@[1].0 <= w@[1].1 <= b);
        parse_i32_at(s, x, y)
    } else {
        None
    }
}

/// The count after `word` in the tracking part `s[lo..hi]`.
fn tracking_count_at(s: &[char], lo: usize, hi: usize, word: &[char]) -> (r: Option<i32>)
    requires
        lo <= hi <= s@.len(),
    ensures
        r == tracking_count(s@.subrange(lo as int, hi as int), word@),
{
    let ghost pieces = split_on(s@.subrange(lo as int, hi as int), ',');
    let b = split_bounds(s, lo, hi, ',');
    let mut k: usize = 0;
    assert(pieces.skip(0) =~= pieces);
    while k < b.len()
        invariant
            k <= b@.len(),
            pieces == split_on(s@.subrange(lo as int, hi as int), ','),
            pieces_at(s@, b@) == pieces,
            bounds_within(b@, lo as int, hi as int),
            hi <= s@.len(),
            first_count(pieces, word@) == first_count(pieces.skip(k as int), word@),
        decreases b@.len() - k,
    {
        let (x, y) = b[k];
        assert(lo <= b@[k as int].0 <= b@[k as int].1 <= hi);
        let c = count_in_piece(s, x, y, word);
        proof {
            let rest = pieces.skip(k as int);
            assert(pieces[k as int] == pieces_at(s@, b@)[k as int]);
            assert(rest[0] == pieces[k as int]);
            assert(pieces[k as int] == s@.subrange(x as int, y as int));
            assert(rest.drop_first() =~= pieces.skip(k + 1));
            assert(first_count(rest, word@) == match count_in(rest[0], word@) {
                Some(v) => Some(v),
                None => first_count(rest.drop_first(), word@),
            });
        }
        if c.is_some() {
            return c;
        }
        k = k + 1;
    }
    assert(pieces.skip(b@.len() as int) =~= Seq::<Seq<char>>::empty());
    None
}

/// The counts after a branch line whose text after `## ` is `s[lo..hi]`.
fn branch_counts(
    s: &[char],
    lo: usize,
    hi: usize,
    ahead: Option<i32>,
    behind: Option<i32>,
) -> (r: (Option<i32>, Option<i32>))
    requires
        lo <= hi <= s@.len(),
        match (
            index_of(s@.subrange(lo as int, hi as int), '['),
            index_of(s@.subrange(lo as int, hi as int), ']'),
        ) {
            (Some(a), Some(b)) => a < b,
            _ => true,
        },
    ensures
        ({
            let st = branch_line_update(
                PorcelainState { files: seq![], ahead: ahead, behind: behind },
                s@.subrange(lo as int, hi as int),
            );
            r.0 == st.ahead && r.1 == st.behind
        }),
{
    let a = find_char(s, lo, hi, '[');
    let b = find_char(s, lo, hi, ']');
    if a == hi || b == hi {
        return (ahead, behind);
    }
    let ghost info = s@.subrange(lo as int, hi as int);
    assert(info.subrange(a - lo + 1, b - lo) =~= s@.subrange(a + 1, b as int));
    let ahead_word = chars_of("ahead");
    let behind_word = chars_of("behind");
    let new_ahead = if contains_at(s, a + 1, b, ahead_word.as_slice()) {
        tracking_count_at(s, a + 1, b, ahead_word.as_slice())
    } else {
        ahead
    };
    let new_behind = if contains_at(s, a + 1, b, behind_word.as_slice()) {
        tracking_count_at(s, a + 1, b, behind_word.as_slice())
    } else {
        behind
    };
    (new_ahead, new_behind)
}

/// The word a status code pair is shown as.
fn display_word(x: char, y: char) -> (r: String)
    ensures
        r@ == display_status(x, y),
{
    if x == 'M' || y == 'M' {
        owned("modified")
    } else if x == 'A' {
        owned("added")
    } else if x == 'D' || y == 'D' {
        owned("deleted")
    } else if x == 'R' {
        owned("renamed")
    } else if x == '?' && y == '?' {
        owned("untracked")
    } else if x == 'U' || y == 'U' {
        owned("conflicted")
    } else {
        owned("unknown")
    }
}

fn one_char(c: char) -> (r: String)
    ensures
        r@ == seq![c],
{
    let mut r = String::new();
    r.push(c);
    assert(r@ =~= seq![c]);
    r
}

/// The entry of the path line `s[lo..hi]`.
fn file_status_at(s: &[char], lo: usize, hi: usize) -> (r: GitFileStatus)
    requires
        lo <= hi <= s@.len(),
        hi - lo >= 3,
    ensures
        r@ == file_entry(s@.subrange(lo as int, hi as int)),
{
    let ghost line = s@.subrange(lo as int, hi as int);
    let x = s[lo];
    let y = s[lo + 1];
    let path = if hi - lo > 3 {
        let (a, b) = trim_bounds(s, lo + 3, hi);
        assert(line.skip(3) =~= s@.subrange(lo + 3, hi as int));
        string_from(slice_to_vec(s, a, b).as_slice())
    } else {
        String::new()
    };
    assert(line[0] == x && line[1] == y);
    GitFileStatus {
        path,
        index_status: one_char(x),
        working_tree_status: one_char(y),
        display_status: display_word(x, y),
    }
}

/// How long a Git command may run, in seconds.
pub const GIT_TIMEOUT_SECS: u64 = 5;

/// How a Git run ended.
pub enum GitRun {
    /// Git ran to the end, successfully or not, with this standard output.
    Output { success: bool, stdout: Vec<u8> },
    /// Git could not be started.
    SpawnFailed(String),
    /// Git did not finish within `GIT_TIMEOUT_SECS`.
    TimedOut,
    /// The thread that ran Git ended without an answer.
    Disconnected,
}

impl GitService {
    pub fn new() -> (r: Self) {
        GitService
    }

    /// Reads `git status --porcelain=v1 -b` output into a status: the
    /// branch line gives the ahead/behind counts and every other line of
    /// three or more characters gives a changed path.
    pub fn parse_status_output(output: &str, branch: Option<String>, slow: bool) -> (r: GitStatus)
        requires
            parsable_status(output@),
        ensures
            r@ == repo_status(output@, opt_view(branch), slow),
    {
        let (files, ahead, behind) = read_porcelain(output);
        GitStatus { is_repo: true, branch, ahead, behind, files, slow_mode: slow, skipped_untracked: slow }
    }
}

/// The changed paths and the counts that porcelain output gives.
fn read_porcelain(output: &str) -> (r: (Vec<GitFileStatus>, Option<i32>, Option<i32>))
    requires
        parsable_status(output@),
    ensures
        ({
            let st = porcelain_fold(lines(output@));
            &&& r.0@.map_values(|f: GitFileStatus| f@) == st.files
            &&& r.1 == st.ahead
            &&& r.2 == st.behind
        }),
{
    let s = chars_of(output);
    assert(s@.subrange(0, s@.len() as int) =~= s@);
    let lb = line_bounds(s.as_slice(), 0, s.len());
    let ghost ls = lines(s@);
    let hdr = chars_of("## ");
    let mut files: Vec<GitFileStatus> = Vec::new();
    let mut ahead: Option<i32> = None;
    let mut behind: Option<i32> = None;
    let mut k: usize = 0;
    assert(ls.take(0) =~= Seq::<Seq<char>>::empty());
    assert(files@.map_values(|f: GitFileStatus| f@) =~= Seq::<GitFileView>::empty());
    while k < lb.len()
        invariant
            k <= lb@.len(),
            s@ == output@,
            hdr@ == "## "@,
            ls == lines(s@),
            pieces_at(s@, lb@) == ls,
            bounds_within(lb@, 0, s@.len() as int),
            parsable_status(output@),
            ({
                let st = porcelain_fold(ls.take(k as int));
                &&& files@.map_values(|f: GitFileStatus| f@) == st.files
                &&& ahead == st.ahead
                &&& behind == st.behind
            }),
        decreases lb@.len() - k,
    {
        let (lo, hi) = lb[k];
        proof {
            assert(0 <= lb@[k as int].0 <= lb@[k as int].1 <= s@.len());
            assert(ls[k as int] == pieces_at(s@, lb@)[k as int]);
            assert(safe_status_line(lines(output@)[k as int]));
            assert(ls.take(k + 1).drop_last() =~= ls.take(k as int));
            assert(ls.take(k + 1).last() == ls[k as int]);
        }
        apply_status_line(s.as_slice(), lo, hi, hdr.as_slice(), &mut files, &mut ahead, &mut behind);
        k = k + 1;
    }
    assert(ls.take(lb@.len() as int) =~= ls);
    (files, ahead, behind)
}

/// Applies the porcelain line `s[lo..hi]` to the gathered state.
fn apply_status_line(
    s: &[char],
    lo: usize,
    hi: usize,
    hdr: &[char],
    files: &mut Vec<GitFileStatus>,
    ahead: &mut Option<i32>,
    behind: &mut Option<i32>,
)
    requires
        lo <= hi <= s@.len(),
        hdr@ == "## "@,
        safe_status_line(s@.subrange(lo as int, hi as int)),
    ensures
        ({
            let st = porcelain_line(
                PorcelainState {
                    files: old(files)@.map_values(|f: GitFileStatus| f@),
                    ahead: *old(ahead),
                    behind: *old(behind),
                },
                s@.subrange(lo as int, hi as int),
            );
            &&& final(files)@.map_values(|f: GitFileStatus| f@) == st.files
            &&& *final(ahead) == st.ahead
            &&& *final(behind) == st.behind
        }),
{
    let ghost line = s@.subrange(lo as int, hi as int);
    if has_prefix_at(s, lo, hi, hdr) {
        proof {
            reveal_strlit("## ");
        }
        assert(line.skip(3) =~= s@.subrange(lo + 3, hi as int));
        let (a, b) = branch_counts(s, lo + 3, hi, *ahead, *behind);
        *ahead = a;
        *behind = b;
    } else if hi - lo >= 3 {
        let f = file_status_at(s, lo, hi);
        let ghost before = files@;
        files.push(f);
        assert(files@.map_values(|f: GitFileStatus| f@) =~= before.map_values(
            |f: GitFileStatus| f@,
        ).push(file_entry(line)));
    }
}


/// The width of a character in UTF-8.
fn width_of(c: char) -> (w: usize)
    ensures
        w == char_width(c),
{
    let u = c as u32;
    if u < 0x80 {
        1
    } else if u < 0x800 {
        2
    } else if u < 0x10000 {
        3
    } else {
        4
    }
}

/// Whether the line `s[lo..hi]` is safe to read.
fn safe_line_at(s: &[char], lo: usize, hi: usize, hdr: &[char]) -> (r: bool)
    requires
        lo <= hi <= s@.len(),
        hdr@ == "## "@,
    ensures
        r == safe_status_line(s@.subrange(lo as int, hi as int)),
{
    let ghost line = s@.subrange(lo as int, hi as int);
    if has_prefix_at(s, lo, hi, hdr) {
        proof {
            reveal_strlit("## ");
        }
        assert(line.skip(3) =~= s@.subrange(lo + 3, hi as int));
        let a = find_char(s, lo + 3, hi, '[');
        let b = find_char(s, lo + 3, hi, ']');
        if a < hi && b < hi {
            return a < b;
        }
        return true;
    }
    let n = hi - lo;
    if n >= 3 && (s[lo] as u32) < 0x80 && (s[lo + 1] as u32) < 0x80 && (s[lo + 2] as u32) < 0x80 {
        assert(line[0] == s@[lo as int] && line[1] == s@[lo + 1] && line[2] == s@[lo + 2]);
        return true;
    }
    if n >= 3 {
        proof {
            lemma_utf8_len_at_least(line);
            assert(line[0] == s@[lo as int] && line[1] == s@[lo + 1] && line[2] == s@[lo + 2]);
        }
        return false;
    }
    let mut total: usize = 0;
    if n >= 1 {
        total = total + width_of(s[lo]);
    }
    if n >= 2 {
        total = total + width_of(s[lo + 1]);
    }
    proof {
        if n == 0 {
            assert(utf8_len(line) == 0);
        } else if n == 1 {
            assert(line.drop_first().len() == 0);
            assert(utf8_len(line.drop_first()) == 0);
            assert(line[0] == s@[lo as int]);
            assert(utf8_len(line) == char_width(line[0]) + utf8_len(line.drop_first()));
        } else {
            assert(line[0] == s@[lo as int]);
            assert(line.drop_first()[0] == s@[lo + 1]);
            assert(line.drop_first().drop_first().len() == 0);
            assert(utf8_len(line.drop_first().drop_first()) == 0);
            assert(utf8_len(line.drop_first()) == char_width(s@[lo + 1]) + utf8_len(
                line.drop_first().drop_first(),
            ));
            assert(utf8_len(line) == char_width(line[0]) + utf8_len(line.drop_first()));
        }
    }
    total < 3
}

/// A Git command that the panel runs.
#[derive(Debug)]
pub enum GitCommand {
    /// `git rev-parse --is-inside-work-tree`
    IsInsideWorkTree,
    /// `git rev-parse --abbrev-ref HEAD`
    CurrentBranch,
    /// `git status --porcelain=v1 -b` with or without untracked files
    Status { untracked: bool },
    /// `git diff [--cached] -- path`
    Diff { path: String, staged: bool },
}

/// The arguments given to `git` for a command.
pub open spec fn command_args(c: GitCommand) -> Seq<Seq<char>> {
    match c {
        GitCommand::IsInsideWorkTree => seq!["rev-parse"@, "--is-inside-work-tree"@],
        GitCommand::CurrentBranch => seq!["rev-parse"@, "--abbrev-ref"@, "HEAD"@],
        GitCommand::Status { untracked } => seq![
            "status"@,
            "--porcelain=v1"@,
            "-b"@,
            if untracked {
                "--untracked-files=normal"@
            } else {
                "--untracked-files=no"@
            },
        ],
        GitCommand::Diff { path, staged } => if staged {
            seq!["diff"@, "--cached"@, "--"@, path@]
        } else {
            seq!["diff"@, "--"@, path@]
        },
    }
}

/// The name a command goes by in error messages.
pub open spec fn command_label(c: GitCommand) -> Seq<char> {
    match c {
        GitCommand::IsInsideWorkTree => "git rev-parse"@,
        GitCommand::CurrentBranch => "git rev-parse (branch)"@,
        GitCommand::Status { untracked } => if untracked {
            "git status"@
        } else {
            "git status (retry without untracked)"@
        },
        GitCommand::Diff { path, staged } => if staged {
            "git diff --cached"@
        } else {
            "git diff"@
        },
    }
}

impl GitCommand {
    /// The arguments to pass to `git`.
    pub fn args(&self) -> (r: Vec<String>)
        ensures
            r.deep_view() == command_args(*self),
    {
        let mut v: Vec<String> = Vec::new();
        match self {
            GitCommand::IsInsideWorkTree => {
                v.push(owned("rev-parse"));
                v.push(owned("--is-inside-work-tree"));
            },
            GitCommand::CurrentBranch => {
                v.push(owned("rev-parse"));
                v.push(owned("--abbrev-ref"));
                v.push(owned("HEAD"));
            },
            GitCommand::Status { untracked } => {
                v.push(owned("status"));
                v.push(owned("--porcelain=v1"));
                v.push(owned("-b"));
                if *untracked {
                    v.push(owned("--untracked-files=normal"));
                } else {
                    v.push(owned("--untracked-files=no"));
                }
            },
            GitCommand::Diff { path, staged } => {
                v.push(owned("diff"));
                if *staged {
                    v.push(owned("--cached"));
                }
                v.push(owned("--"));
                v.push(path.clone());
            },
        }
        assert(v.deep_view() =~= command_args(*self));
        v
    }

    /// The name the command goes by in error messages.
    pub fn label(&self) -> (r: String)
        ensures
            r@ == command_label(*self),
    {
        match self {
            GitCommand::IsInsideWorkTree => owned("git rev-parse"),
            GitCommand::CurrentBranch => owned("git rev-parse (branch)"),
            GitCommand::Status { untracked } => if *untracked {
                owned("git status")
            } else {
                owned("git status (retry without untracked)")
            },
            GitCommand::Diff { staged, .. } => if *staged {
                owned("git diff --cached")
            } else {
                owned("git diff")
            },
        }
    }
}

/// Where a status request stands: which reply it waits for, and what it
/// has gathered so far.
#[derive(Debug)]
pub enum GitStatusFlow {
    AwaitRepoCheck,
    AwaitBranch,
    AwaitStatus { branch: Option<String> },
    AwaitRetry { branch: Option<String>, first_error: AppError },
}

/// What a status request needs next: another command, or nothing more.
#[derive(Debug)]
pub enum GitStatusStep {
    Run(GitCommand, GitStatusFlow),
    Finished(Result<GitStatus, AppError>),
}

/// The branch that a reply to `git rev-parse --abbrev-ref HEAD` names: the
/// trimmed output of a successful run, nothing otherwise.
pub open spec fn branch_of(reply: Result<(bool, String), AppError>) -> Option<Seq<char>> {
    match reply {
        Ok((ok, out)) => if ok {
            Some(trim(out@))
        } else {
            None
        },
        Err(_) => None,
    }
}

/// The outputs that the status request will read must be safe to read.
pub open spec fn reply_readable(flow: GitStatusFlow, reply: Result<(bool, String), AppError>) -> bool {
    match flow {
        GitStatusFlow::AwaitStatus { .. } | GitStatusFlow::AwaitRetry { .. } => match reply {
            Ok((_, out)) => parsable_status(out@),
            Err(_) => true,
        },
        _ => true,
    }
}

impl GitService {
    /// Whether every line of porcelain output can be read.
    pub fn is_parsable_status(output: &str) -> (r: bool)
        ensures
            r == parsable_status(output@),
    {
        let s = chars_of(output);
        assert(s@.subrange(0, s@.len() as int) =~= s@);
        let lb = line_bounds(s.as_slice(), 0, s.len());
        let hdr = chars_of("## ");
        let mut k: usize = 0;
        while k < lb.len()
            invariant
                k <= lb@.len(),
                s@ == output@,
                hdr@ == "## "@,
                pieces_at(s@, lb@) == lines(s@),
                bounds_within(lb@, 0, s@.len() as int),
                forall|i: int| 0 <= i < k ==> safe_status_line(#[trigger] lines(output@)[i]),
            decreases lb@.len() - k,
        {
            let (lo, hi) = lb[k];
            assert(0 <= lb@[k as int].0 <= lb@[k as int].1 <= s@.len());
            assert(lines(s@)[k as int] == pieces_at(s@, lb@)[k as int]);
            if !safe_line_at(s.as_slice(), lo, hi, hdr.as_slice()) {
                return false;
            }
            k = k + 1;
        }
        true
    }

    /// Starts a status request: the first command checks that the folder
    /// is inside a work tree.
    /// The reply of a Git run for `command`: whether Git succeeded and its
    /// output (decoded leniently from UTF-8), or the error that the way it
    /// ended stands for.
    pub fn git_reply(command: &GitCommand, run: GitRun) -> (r: Result<(bool, String), AppError>)
        ensures
            match run {
                GitRun::Output { success, stdout } => r matches Ok((ok, out)) && ok == success
                    && out@ == utf8_lossy(stdout@),
                GitRun::SpawnFailed(d) => r matches Err(e) && e.code@ == "GIT_COMMAND_ERROR"@
                    && e.message@ == "Failed to run "@ + command_label(*command)
                    + ". Is Git installed and in PATH? "@ + d@,
                GitRun::TimedOut => r matches Err(e) && e.code@ == "GIT_TIMEOUT"@ && e.message@
                    == command_label(*command) + " took too long (>5s)"@,
                GitRun::Disconnected => r matches Err(e) && e.code@ == "GIT_COMMAND_ERROR"@
                    && e.message@ == command_label(*command) + " process panicked"@,
            },
    {
        let label = command.label();
        match run {
            GitRun::Output { success, stdout } => Ok((success, lossy_text(stdout.as_slice()))),
            GitRun::SpawnFailed(d) => {
                let a = concat("Failed to run ", label.as_str());
                let b = concat(a.as_str(), ". Is Git installed and in PATH? ");
                let m = concat(b.as_str(), d.as_str());
                assert(m@ =~= "Failed to run "@ + command_label(*command)
                    + ". Is Git installed and in PATH? "@ + d@);
                Err(AppError { code: owned("GIT_COMMAND_ERROR"), message: m })
            },
            GitRun::TimedOut => Err(
                AppError {
                    code: owned("GIT_TIMEOUT"),
                    message: concat(label.as_str(), " took too long (>5s)"),
                },
            ),
            GitRun::Disconnected => Err(
                AppError {
                    code: owned("GIT_COMMAND_ERROR"),
                    message: concat(label.as_str(), " process panicked"),
                },
            ),
        }
    }

    pub fn begin_status() -> (r: (GitCommand, GitStatusFlow))
        ensures
            r.0 matches GitCommand::IsInsideWorkTree,
            r.1 matches GitStatusFlow::AwaitRepoCheck,
    {
        (GitCommand::IsInsideWorkTree, GitStatusFlow::AwaitRepoCheck)
    }

    /// Takes the reply to the command that the request waited for and says
    /// what comes next.  A failed work-tree check fails the request; a
    /// folder outside a work tree gets an empty status; the branch is the
    /// trimmed output of a successful branch query; a status run that timed
    /// out is retried without untracked files (slow mode), and if the retry
    /// fails too the first error is reported.
    pub fn get_status(flow: GitStatusFlow, reply: Result<(bool, String), AppError>) -> (r:
        GitStatusStep)
        requires
            reply_readable(flow, reply),
        ensures
            match flow {
                GitStatusFlow::AwaitRepoCheck => match reply {
                    Err(e) => r == GitStatusStep::Finished(Err(e)),
                    Ok((ok, _)) => if ok {
                        r matches GitStatusStep::Run(
                            GitCommand::CurrentBranch,
                            GitStatusFlow::AwaitBranch,
                        )
                    } else {
                        r matches GitStatusStep::Finished(Ok(st)) && st@ == no_repo_status()
                    },
                },
                GitStatusFlow::AwaitBranch => r matches GitStatusStep::Run(
                    GitCommand::Status { untracked: true },
                    GitStatusFlow::AwaitStatus { branch },
                ) && opt_view(branch) == branch_of(reply),
                GitStatusFlow::AwaitStatus { branch } => match reply {
                    Ok((_, out)) => r matches GitStatusStep::Finished(Ok(st)) && st@ == repo_status(
                        out@,
                        opt_view(branch),
                        false,
                    ),
                    Err(e) => if e.code@ == "GIT_TIMEOUT"@ {
                        r matches GitStatusStep::Run(
                            GitCommand::Status { untracked: false },
                            GitStatusFlow::AwaitRetry { branch: b2, first_error: e2 },
                        ) && b2 == branch && e2 == e
                    } else {
                        r == GitStatusStep::Finished(Err(e))
                    },
                },
                GitStatusFlow::AwaitRetry { branch, first_error } => match reply {
                    Ok((_, out)) => r matches GitStatusStep::Finished(Ok(st)) && st@ == repo_status(
                        out@,
                        opt_view(branch),
                        true,
                    ),
                    Err(_) => r == GitStatusStep::Finished(Err(first_error)),
                },
            },
    {
        match flow {
            GitStatusFlow::AwaitRepoCheck => match reply {
                Err(e) => GitStatusStep::Finished(Err(e)),
                Ok((ok, _)) => if ok {
                    GitStatusStep::Run(GitCommand::CurrentBranch, GitStatusFlow::AwaitBranch)
                } else {
                    let st = GitStatus {
                        is_repo: false,
                        branch: None,
                        ahead: None,
                        behind: None,
                        files: Vec::new(),
                        slow_mode: false,
                        skipped_untracked: false,
                    };
                    assert(st@.files =~= Seq::<GitFileView>::empty());
                    GitStatusStep::Finished(Ok(st))
                },
            },
            GitStatusFlow::AwaitBranch => {
                let branch = match reply {
                    Ok((ok, out)) => if ok {
                        let c = chars_of(out.as_str());
                        let t = crate::text::trim_chars(c.as_slice());
                        Some(string_from(t.as_slice()))
                    } else {
                        None
                    },
                    Err(_) => None,
                };
                GitStatusStep::Run(
                    GitCommand::Status { untracked: true },
                    GitStatusFlow::AwaitStatus { branch },
                )
            },
            GitStatusFlow::AwaitStatus { branch } => match reply {
                Ok((_, out)) => GitStatusStep::Finished(
                    Ok(GitService::parse_status_output(out.as_str(), branch, false)),
                ),
                Err(e) => {
                    if crate::text::str_eq(e.code.as_str(), "GIT_TIMEOUT") {
                        GitStatusStep::Run(
                            GitCommand::Status { untracked: false },
                            GitStatusFlow::AwaitRetry { branch, first_error: e },
                        )
                    } else {
                        GitStatusStep::Finished(Err(e))
                    }
                },
            },
            GitStatusFlow::AwaitRetry { branch, first_error } => match reply {
                Ok((_, out)) => GitStatusStep::Finished(
                    Ok(GitService::parse_status_output(out.as_str(), branch, true)),
                ),
                Err(_) => GitStatusStep::Finished(Err(first_error)),
            },
        }
    }

    /// The command that shows the diff of one path, staged or not.
    pub fn diff_command(relative_path: &str, staged: bool) -> (r: GitCommand)
        ensures
            r matches GitCommand::Diff { path, staged: s } && path@ == relative_path@ && s == staged,
    {
        GitCommand::Diff { path: owned(relative_path), staged }
    }

    /// The diff of one path from the reply to its diff command: the
    /// output whatever the exit status, or the error of the run.
    pub fn get_diff(relative_path: &str, reply: Result<(bool, String), AppError>) -> (r: Result<
        GitDiffResult,
        AppError,
    >)
        ensures
            match reply {
                Ok((_, out)) => r matches Ok(d) && d.path@ == relative_path@ && d.diff == out,
                Err(e) => r == Err::<GitDiffResult, AppError>(e),
            },
    {
        match reply {
            Ok((_, out)) => Ok(GitDiffResult { path: owned(relative_path), diff: out }),
            Err(e) => Err(e),
        }
    }
}

/// How a changed file is described from its two status codes (index, then
/// working tree): `M` in either column makes it "modified"; otherwise `A`
/// in the index makes it "added"; otherwise `D` in either column makes it
/// "deleted", a deletion in the working tree counting like one in the
/// index; otherwise `R` in the index makes it "renamed"; `??` is
/// "untracked"; otherwise `U` in either column is "conflicted"; any other
/// pair is "unknown".  The entry keeps both codes as they were.
pub proof fn lemma_file_entry_words(line: Seq<char>)
    requires
        line.len() >= 3,
    ensures
        ({
            let f = file_entry(line);
            let x = line[0];
            let y = line[1];
            &&& f.index_status == seq![x]
            &&& f.working_tree_status == seq![y]
            &&& (x == 'M' || y == 'M') ==> f.display_status == "modified"@
            &&& (x != 'M' && y != 'M' && x == 'A') ==> f.display_status == "added"@
            &&& (x != 'M' && y != 'M' && x != 'A' && (x == 'D' || y == 'D')) ==> f.display_status
                == "deleted"@
            &&& (x != 'M' && y != 'M' && x != 'A' && x != 'D' && y != 'D' && x == 'R')
                ==> f.display_status == "renamed"@
            &&& (x == '?' && y == '?') ==> f.display_status == "untracked"@
            &&& (x != 'M' && y != 'M' && x != 'A' && x != 'D' && y != 'D' && x != 'R' && !(x == '?'
                && y == '?') && (x == 'U' || y == 'U')) ==> f.display_status == "conflicted"@
            &&& (x != 'M' && y != 'M' && x != 'A' && x != 'D' && y != 'D' && x != 'R' && !(x == '?'
                && y == '?') && x != 'U' && y != 'U') ==> f.display_status == "unknown"@
        }),
{
}

/// The two columns are read alike for `M` and `D`: a code in the working
/// tree column describes the file as the same code in the index column
/// would, whatever the other column holds (short of `M`, and of `A` in the
/// index).
pub proof fn lemma_display_status_columns(c: char)
    ensures
        display_status(c, 'M') == "modified"@,
        display_status('M', c) == "modified"@,
        c != 'M' && c != 'A' ==> display_status(c, 'D') == "deleted"@,
        c != 'M' ==> display_status('D', c) == "deleted"@,
        c != 'M' && c != 'A' ==> display_status(c, 'D') == display_status('D', c),
{
}

} // verus!
