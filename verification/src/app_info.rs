//! Version comparison, update-message condensing and the runtime
//! information shown in the about panel.

use vstd::prelude::*;
use crate::models::AppRuntimeInfo;
use crate::number::{parse_u64, parse_u64_at};
use crate::text::{
    chars_of, line_bounds, lines, owned, pieces_at, bounds_within, str_eq,
    string_from, trim, trim_bounds, trim_chars,
};

verus! {

/// A separator between version numbers.
pub open spec fn is_version_sep(c: char) -> bool {
    c == '.' || c == '-' || c == '+'
}

/// The index of the first separator in `s`.
pub open spec fn first_sep(s: Seq<char>) -> Option<int>
    decreases s.len(),
{
    if s.len() == 0 {
        None
    } else if is_version_sep(s[0]) {
        Some(0)
    } else {
        match first_sep(s.drop_first()) {
            Some(i) => Some(i + 1),
            None => None,
        }
    }
}

/// The pieces of a version string split at `.`, `-` and `+`.
pub open spec fn version_pieces(s: Seq<char>) -> Seq<Seq<char>>
    decreases s.len(),
{
    match first_sep(s) {
        None => seq![s],
        Some(k) => if 0 <= k < s.len() {
            seq![s.take(k)] + version_pieces(s.skip(k + 1))
        } else {
            seq![s]
        },
    }
}

/// The `i`-th number of a version: the `i`-th piece parsed as a `u64`, or
/// 0 when it is missing or does not parse.
pub open spec fn version_part(s: Seq<char>, i: int) -> u64 {
    let p = version_pieces(s);
    if i < p.len() {
        match parse_u64(p[i]) {
            Some(v) => v,
            None => 0,
        }
    } else {
        0
    }
}

/// The first three numbers of a version.
pub open spec fn version_triple(s: Seq<char>) -> Seq<u64> {
    seq![version_part(s, 0), version_part(s, 1), version_part(s, 2)]
}

/// Whether version `a` is newer than version `b`: the first of the three
/// numbers in which they differ is larger in `a`.
pub open spec fn newer(a: Seq<u64>, b: Seq<u64>) -> bool {
    ||| a[0] > b[0]
    ||| (a[0] == b[0] && a[1] > b[1])
    ||| (a[0] == b[0] && a[1] == b[1] && a[2] > b[2])
}

proof fn lemma_first_sep(s: Seq<char>)
    ensures
        match first_sep(s) {
            Some(k) => 0 <= k < s.len() && is_version_sep(s[k]) && forall|j: int|
                0 <= j < k ==> !is_version_sep(s[j]),
            None => forall|j: int| 0 <= j < s.len() ==> !is_version_sep(s[j]),
        },
    decreases s.len(),
{
    if s.len() > 0 && !is_version_sep(s[0]) {
        lemma_first_sep(s.drop_first());
        match first_sep(s.drop_first()) {
            Some(k) => {
                assert forall|j: int| 0 <= j < k + 1 implies !is_version_sep(s[j]) by {
                    if j > 0 {
                        assert(s[j] == s.drop_first()[j - 1]);
                    }
                }
            },
            None => {
                assert forall|j: int| 0 <= j < s.len() implies !is_version_sep(s[j]) by {
                    if j > 0 {
                        assert(s[j] == s.drop_first()[j - 1]);
                    }
                }
            },
        }
    }
}

proof fn lemma_first_sep_from(s: Seq<char>, i: int)
    requires
        0 <= i <= s.len(),
        i < s.len() ==> is_version_sep(s[i]),
        forall|j: int| 0 <= j < i ==> !is_version_sep(s[j]),
    ensures
        first_sep(s) == (if i < s.len() { Some(i) } else { None::<int> }),
{
    lemma_first_sep(s);
    match first_sep(s) {
        Some(k) => {
            if k < i {
            } else if k > i {
                assert(i < s.len());
            }
        },
        None => {},
    }
}

/// The first three numbers of a version string.
pub fn parse_version_parts(version: &str) -> (r: [u64; 3])
    ensures
        r@ == version_triple(version@),
{
    let s = chars_of(version);
    let mut parts: [u64; 3] = [0, 0, 0];
    let mut p: usize = 0;
    let mut idx: usize = 0;
    let mut done = false;
    let ghost mut rest_pieces = version_pieces(s@);
    assert(s@.skip(0) =~= s@);
    while idx < 3 && !done
        invariant
            s@ == version@,
            idx <= 3,
            p <= s@.len(),
            !done ==> rest_pieces == version_pieces(s@.skip(p as int)),
            !done ==> version_pieces(s@).len() == idx + rest_pieces.len(),
            !done ==> forall|j: int|
                0 <= j < rest_pieces.len() ==> rest_pieces[j] == version_pieces(s@)[idx + j],
            done ==> version_pieces(s@).len() == idx,
            forall|j: int| 0 <= j < idx ==> parts@[j] == version_part(version@, j),
            forall|j: int| idx <= j < 3 ==> parts@[j] == 0,
        decreases 3 - idx,
    {
        let mut k = p;
        while k < s.len() && !(s[k] == '.' || s[k] == '-' || s[k] == '+')
            invariant
                p <= k <= s@.len(),
                forall|j: int| p <= j < k ==> !is_version_sep(s@[j]),
            decreases s@.len() - k,
        {
            k = k + 1;
        }
        let ghost tail = s@.skip(p as int);
        proof {
            assert forall|j: int| 0 <= j < k - p implies !is_version_sep(tail[j]) by {
                assert(tail[j] == s@[p + j]);
            }
            if k < s@.len() {
                assert(tail[k - p] == s@[k as int]);
            }
            lemma_first_sep_from(tail, k - p);
            assert(tail.take(k - p) =~= s@.subrange(p as int, k as int));
            assert(version_pieces(tail)[0] == s@.subrange(p as int, k as int)) by {
                if k < s@.len() {
                } else {
                    assert(tail =~= s@.subrange(p as int, k as int));
                }
            }
        }
        let v = parse_u64_at(s.as_slice(), p, k);
        let value: u64 = match v {
            Some(x) => x,
            None => 0,
        };
        parts[idx] = value;
        proof {
            assert(rest_pieces[0] == version_pieces(s@)[idx as int]);
        }
        if k < s.len() {
            proof {
                assert(tail.skip(k - p + 1) =~= s@.skip(k + 1));
                let old_rest = rest_pieces;
                assert(old_rest == seq![tail.take(k - p)] + version_pieces(tail.skip(k - p + 1)));
                rest_pieces = version_pieces(s@.skip(k + 1));
                assert forall|j: int| 0 <= j < rest_pieces.len() implies rest_pieces[j]
                    == version_pieces(s@)[idx + 1 + j] by {
                    assert(rest_pieces[j] == old_rest[j + 1]);
                }
            }
            p = k + 1;
        } else {
            proof {
                assert(version_pieces(tail) == seq![tail]);
            }
            done = true;
        }
        idx = idx + 1;
    }
    proof {
        assert forall|j: int| idx <= j < 3 implies parts@[j] == version_part(version@, j) by {
            if !done {
                assert(idx == 3);
            }
        }
        assert(parts@ =~= version_triple(version@));
    }
    parts
}

/// Whether `latest` is a newer version than `current`.
pub fn is_version_newer(latest: &str, current: &str) -> (r: bool)
    ensures
        r == newer(version_triple(latest@), version_triple(current@)),
{
    let a = parse_version_parts(latest);
    let b = parse_version_parts(current);
    let mut i: usize = 0;
    while i < 3
        invariant
            i <= 3,
            a@ == version_triple(latest@),
            b@ == version_triple(current@),
            forall|j: int| 0 <= j < i ==> a@[j] == b@[j],
        decreases 3 - i,
    {
        if a[i] > b[i] {
            return true;
        }
        if a[i] < b[i] {
            return false;
        }
        i = i + 1;
    }
    false
}


/// A version is never newer than itself.
pub proof fn lemma_newer_irreflexive(v: Seq<char>)
    ensures
        !newer(version_triple(v), version_triple(v)),
{
}

/// Of two versions at most one is newer than the other.
pub proof fn lemma_newer_asymmetric(a: Seq<char>, b: Seq<char>)
    ensures
        newer(version_triple(a), version_triple(b)) ==> !newer(version_triple(b), version_triple(a)),
{
}

/// Newer is transitive.
pub proof fn lemma_newer_transitive(a: Seq<char>, b: Seq<char>, c: Seq<char>)
    ensures
        newer(version_triple(a), version_triple(b)) && newer(version_triple(b), version_triple(c))
            ==> newer(version_triple(a), version_triple(c)),
{
}

/// The trimmed lines that are not empty, in order.
pub open spec fn trimmed_nonempty(ls: Seq<Seq<char>>) -> Seq<Seq<char>>
    decreases ls.len(),
{
    if ls.len() == 0 {
        seq![]
    } else {
        let r = trimmed_nonempty(ls.drop_last());
        if trim(ls.last()).len() > 0 {
            r.push(trim(ls.last()))
        } else {
            r
        }
    }
}

/// The first six non-empty trimmed lines of a text.
pub open spec fn leading_lines(s: Seq<char>) -> Seq<Seq<char>> {
    let t = trimmed_nonempty(lines(s));
    if t.len() <= 6 {
        t
    } else {
        t.take(6)
    }
}

/// Lines joined with single spaces.
pub open spec fn join_spaced(ls: Seq<Seq<char>>) -> Seq<char>
    decreases ls.len(),
{
    if ls.len() == 0 {
        seq![]
    } else if ls.len() == 1 {
        ls[0]
    } else {
        join_spaced(ls.drop_last()) + seq![' '] + ls.last()
    }
}

/// The detail of a failed update: the first six non-empty lines of the
/// error output, else of the standard output, joined by spaces; a fixed
/// sentence when both are blank.
pub open spec fn update_detail(primary: Seq<char>, fallback: Seq<char>) -> Seq<char> {
    let p = leading_lines(primary);
    let f = leading_lines(fallback);
    if p.len() > 0 {
        join_spaced(p)
    } else if f.len() > 0 {
        join_spaced(f)
    } else {
        "npm exited without an error message."@
    }
}

proof fn lemma_trimmed_step(ls: Seq<Seq<char>>, i: int)
    requires
        0 <= i < ls.len(),
    ensures
        trimmed_nonempty(ls.take(i + 1)) == (if trim(ls[i]).len() > 0 {
            trimmed_nonempty(ls.take(i)).push(trim(ls[i]))
        } else {
            trimmed_nonempty(ls.take(i))
        }),
{
    assert(ls.take(i + 1).drop_last() =~= ls.take(i));
    assert(ls.take(i + 1).last() == ls[i]);
}

/// Bounds of the non-empty trimmed lines of `s`.
#[verifier::rlimit(100)]
#[verifier::spinoff_prover]
fn trimmed_line_bounds(s: &[char]) -> (r: Vec<(usize, usize)>)
    ensures
        pieces_at(s@, r@) == trimmed_nonempty(lines(s@)),
        bounds_within(r@, 0, s@.len() as int),
{
    assert(s@.subrange(0, s@.len() as int) =~= s@);
    let lb = line_bounds(s, 0, s.len());
    let ghost ls = lines(s@);
    let mut r: Vec<(usize, usize)> = Vec::new();
    let mut i: usize = 0;
    assert(pieces_at(s@, r@) =~= trimmed_nonempty(ls.take(0)));
    while i < lb.len()
        invariant
            i <= lb@.len(),
            ls == lines(s@),
            pieces_at(s@, lb@) == ls,
            bounds_within(lb@, 0, s@.len() as int),
            bounds_within(r@, 0, s@.len() as int),
            pieces_at(s@, r@) == trimmed_nonempty(ls.take(i as int)),
        decreases lb@.len() - i,
    {
        let (lo, hi) = lb[i];
        assert(0 <= lb@[i as int].0 <= lb@[i as int].1 <= s@.len());
        let (a, b) = trim_bounds(s, lo, hi);
        let ghost before = pieces_at(s@, r@);
        proof {
            assert(ls[i as int] == pieces_at(s@, lb@)[i as int]);
            assert(trim(ls[i as int]) == s@.subrange(a as int, b as int));
            lemma_trimmed_step(ls, i as int);
        }
        if b > a {
            r.push((a, b));
            assert(pieces_at(s@, r@) =~= before.push(s@.subrange(a as int, b as int)));
        }
        i = i + 1;
    }
    assert(ls.take(lb@.len() as int) =~= ls);
    r
}

/// The pieces named by the first `n` bounds joined by spaces.
fn join_bounds_spaced(s: &[char], b: &Vec<(usize, usize)>, n: usize) -> (r: Vec<char>)
    requires
        n <= b@.len(),
        bounds_within(b@, 0, s@.len() as int),
    ensures
        r@ == join_spaced(pieces_at(s@, b@).take(n as int)),
{
    let ghost ps = pieces_at(s@, b@);
    let mut out: Vec<char> = Vec::new();
    let mut k: usize = 0;
    while k < n
        invariant
            k <= n <= b@.len(),
            ps == pieces_at(s@, b@),
            bounds_within(b@, 0, s@.len() as int),
            out@ == join_spaced(ps.take(k as int)),
        decreases n - k,
    {
        let (x, y) = b[k];
        assert(0 <= b@[k as int].0 <= b@[k as int].1 <= s@.len());
        proof {
            assert(ps.take(k + 1).drop_last() =~= ps.take(k as int));
            assert(ps.take(k + 1).last() == ps[k as int]);
        }
        if k > 0 {
            out.push(' ');
        }
        let ghost start = out@;
        let mut m = x;
        while m < y
            invariant
                x <= m <= y <= s@.len(),
                out@ == start + s@.subrange(x as int, m as int),
            decreases y - m,
        {
            out.push(s[m]);
            m = m + 1;
            assert(out@ =~= start + s@.subrange(x as int, m as int));
        }
        proof {
            if k == 0 {
                assert(ps.take(1) =~= seq![ps[0]]);
            }
            assert(out@ =~= join_spaced(ps.take(k + 1)));
        }
        k = k + 1;
    }
    out
}

/// The leading lines of a text joined by spaces, or `None` when it has
/// no non-empty line.
fn joined_leading_lines(text: &str) -> (r: Option<Vec<char>>)
    ensures
        match r {
            Some(v) => leading_lines(text@).len() > 0 && v@ == join_spaced(leading_lines(text@)),
            None => leading_lines(text@).len() == 0,
        },
{
    let s = chars_of(text);
    let b = trimmed_line_bounds(s.as_slice());
    if b.len() == 0 {
        return None;
    }
    let n = if b.len() <= 6 {
        b.len()
    } else {
        6
    };
    let v = join_bounds_spaced(s.as_slice(), &b, n);
    proof {
        let t = pieces_at(s@, b@);
        if b@.len() <= 6 {
            assert(t.take(n as int) =~= t);
        }
    }
    Some(v)
}

/// The detail of a failed update message.
pub fn first_non_empty_lines(primary: &str, fallback: &str) -> (r: String)
    ensures
        r@ == update_detail(primary@, fallback@),
{
    match joined_leading_lines(primary) {
        Some(v) => string_from(v.as_slice()),
        None => match joined_leading_lines(fallback) {
            Some(v) => string_from(v.as_slice()),
            None => owned("npm exited without an error message."),
        },
    }
}

/// The code of a character with ASCII capitals mapped to small letters.
pub open spec fn ascii_lower_code(c: char) -> int {
    if 'A' <= c && c <= 'Z' {
        (c as u32) + 32
    } else {
        c as u32 as int
    }
}

/// Whether two strings are equal up to ASCII case, as
/// `str::eq_ignore_ascii_case` decides.
pub open spec fn eq_ignore_ascii_case(a: Seq<char>, b: Seq<char>) -> bool {
    a.len() == b.len() && forall|i: int|
        0 <= i < a.len() ==> ascii_lower_code(a[i]) == ascii_lower_code(b[i])
}

/// Whether a flag value switches something on: `1` or any casing of `true`.
pub open spec fn flag_on(v: Seq<char>) -> bool {
    v == "1"@ || eq_ignore_ascii_case(v, "true"@)
}

fn lower_code(c: char) -> (r: u32)
    ensures
        r as int == ascii_lower_code(c),
{
    if 'A' <= c && c <= 'Z' {
        (c as u32) + 32
    } else {
        c as u32
    }
}

pub(crate) fn flag_value_on(v: &str) -> (r: bool)
    ensures
        r == flag_on(v@),
{
    if str_eq(v, "1") {
        return true;
    }
    let a = chars_of(v);
    let b = chars_of("true");
    if a.len() != b.len() {
        return false;
    }
    let mut i: usize = 0;
    while i < a.len()
        invariant
            a@ == v@,
            b@ == "true"@,
            a@.len() == b@.len(),
            v@ != "1"@,
            i <= a@.len(),
            forall|j: int| 0 <= j < i ==> ascii_lower_code(a@[j]) == ascii_lower_code(b@[j]),
        decreases a@.len() - i,
    {
        if lower_code(a[i]) != lower_code(b[i]) {
            return false;
        }
        i = i + 1;
    }
    true
}

/// A non-blank optional value.
pub open spec fn non_blank(v: Option<Seq<char>>) -> Option<Seq<char>> {
    match v {
        Some(s) => if trim(s).len() > 0 {
            Some(s)
        } else {
            None
        },
        None => None,
    }
}

/// An optional value trimmed, kept only when something is left.
pub open spec fn trimmed_non_empty(v: Option<Seq<char>>) -> Option<Seq<char>> {
    match v {
        Some(s) => if trim(s).len() > 0 {
            Some(trim(s))
        } else {
            None
        },
        None => None,
    }
}


/// A launch language that the interface knows: `vi` or `en`.
pub open spec fn known_language(v: Option<Seq<char>>) -> Option<Seq<char>> {
    match v {
        Some(s) => if s == "vi"@ || s == "en"@ {
            Some(s)
        } else {
            None
        },
        None => None,
    }
}

/// Whether the text of `s` is blank.
pub(crate) fn blank(s: &str) -> (r: bool)
    ensures
        r == (trim(s@).len() == 0),
{
    let c = chars_of(s);
    let t = trim_chars(c.as_slice());
    t.len() == 0
}

/// The runtime information from the values of the environment variables
/// `CLIDESK_VERSION`, `CLIDESK_LATEST_VERSION`, `CLIDESK_UPDATE_AVAILABLE`
/// and `CLIDESK_LAUNCH_LANG`, and the package version.  The current version
/// is the first unless it is blank; the latest is the second, trimmed,
/// unless blank; an update is available when the third says so (`1` or
/// `true` in any case) or, when it is unset, when the latest version is
/// newer than the current one.
pub fn app_runtime_info(
    version_env: Option<String>,
    latest_env: Option<String>,
    update_env: Option<String>,
    lang_env: Option<String>,
    package_version: &str,
) -> (r: AppRuntimeInfo)
    ensures
        ({
            let current = match non_blank(crate::file_service::opt_view(version_env)) {
                Some(v) => v,
                None => package_version@,
            };
            let latest = trimmed_non_empty(crate::file_service::opt_view(latest_env));
            &&& r.current_version@ == current
            &&& crate::file_service::opt_view(r.latest_version) == latest
            &&& r.update_available == match update_env {
                Some(u) => flag_on(u@),
                None => match latest {
                    Some(l) => newer(version_triple(l), version_triple(current)),
                    None => false,
                },
            }
            &&& crate::file_service::opt_view(r.launch_language) == known_language(
                crate::file_service::opt_view(lang_env),
            )
            &&& r.update_command@ == "npm i -g clidesk"@
        }),
{
    let current_version = match version_env {
        Some(v) => if blank(v.as_str()) {
            owned(package_version)
        } else {
            v
        },
        None => owned(package_version),
    };
    let latest_version = match latest_env {
        Some(v) => {
            let c = chars_of(v.as_str());
            let t = trim_chars(c.as_slice());
            if t.len() > 0 {
                Some(string_from(t.as_slice()))
            } else {
                None
            }
        },
        None => None,
    };
    let update_available = match update_env {
        Some(u) => flag_value_on(u.as_str()),
        None => match &latest_version {
            Some(l) => is_version_newer(l.as_str(), current_version.as_str()),
            None => false,
        },
    };
    let launch_language = match lang_env {
        Some(v) => if str_eq(v.as_str(), "vi") || str_eq(v.as_str(), "en") {
            Some(v)
        } else {
            None
        },
        None => None,
    };
    AppRuntimeInfo {
        current_version,
        latest_version,
        update_available,
        launch_language,
        update_command: owned("npm i -g clidesk"),
    }
}


/// The answer to a finished `npm i -g clidesk` run: success when npm
/// succeeded, otherwise an error quoting the first lines of its error
/// output (or of its standard output), each decoded leniently from UTF-8.
pub fn npm_update_result(success: bool, stderr: &[u8], stdout: &[u8]) -> (r: Result<
    crate::models::UpdateResult,
    crate::models::AppError,
>)
    ensures
        match r {
            Ok(u) => success && u.ok && u.message@
                == "CliDesk update completed. Restart CliDesk to use the updated version."@,
            Err(e) => !success && e.code@ == "UPDATE_FAILED"@ && e.message@ == "npm i -g clidesk failed. "@
                + update_detail(crate::text::utf8_lossy(stderr@), crate::text::utf8_lossy(stdout@)),
        },
{
    if success {
        return Ok(
            crate::models::UpdateResult {
                ok: true,
                message: owned("CliDesk update completed. Restart CliDesk to use the updated version."),
            },
        );
    }
    let err_text = crate::text::lossy_text(stderr);
    let out_text = crate::text::lossy_text(stdout);
    let detail = first_non_empty_lines(err_text.as_str(), out_text.as_str());
    Err(
        crate::models::AppError {
            code: owned("UPDATE_FAILED"),
            message: crate::text::concat("npm i -g clidesk failed. ", detail.as_str()),
        },
    )
}


/// The command that updates CliDesk from npm.
pub struct UpdateCommand {
    pub program: String,
    pub args: Vec<String>,
    /// Variables set for the run, quieting npm.
    pub env: Vec<(String, String)>,
    /// Process creation flags (on Windows, no console window).
    pub creation_flags: Option<u32>,
}

/// The program and arguments of the update: through `cmd /d /c` on Windows.
pub open spec fn update_argv(windows: bool) -> Seq<Seq<char>> {
    let npm = seq!["i"@, "-g"@, "clidesk"@, "--no-audit"@, "--no-fund"@];
    if windows {
        seq!["cmd"@, "/d"@, "/c"@, "npm"@] + npm
    } else {
        seq!["npm"@] + npm
    }
}

/// The environment of the update run.
pub open spec fn update_env() -> Seq<(Seq<char>, Seq<char>)> {
    seq![
        ("npm_config_loglevel"@, "error"@),
        ("npm_config_logs_max"@, "0"@),
        ("npm_config_update_notifier"@, "false"@),
        ("NO_UPDATE_NOTIFIER"@, "1"@),
    ]
}

/// The update command for the platform (`windows` or not).
pub fn npm_update_command(windows: bool) -> (r: UpdateCommand)
    ensures
        seq![r.program@] + r.args.deep_view() == update_argv(windows),
        r.env@.map_values(|p: (String, String)| (p.0@, p.1@)) == update_env(),
        r.creation_flags == (if windows { Some(0x08000000u32) } else { None::<u32> }),
{
    let mut args: Vec<String> = Vec::new();
    let program = if windows {
        args.push(owned("/d"));
        args.push(owned("/c"));
        args.push(owned("npm"));
        owned("cmd")
    } else {
        owned("npm")
    };
    args.push(owned("i"));
    args.push(owned("-g"));
    args.push(owned("clidesk"));
    args.push(owned("--no-audit"));
    args.push(owned("--no-fund"));
    let mut env: Vec<(String, String)> = Vec::new();
    env.push((owned("npm_config_loglevel"), owned("error")));
    env.push((owned("npm_config_logs_max"), owned("0")));
    env.push((owned("npm_config_update_notifier"), owned("false")));
    env.push((owned("NO_UPDATE_NOTIFIER"), owned("1")));
    assert(seq![program@] + args.deep_view() =~= update_argv(windows));
    assert(env@.map_values(|p: (String, String)| (p.0@, p.1@)) =~= update_env());
    let creation_flags = if windows {
        Some(0x08000000u32)
    } else {
        None
    };
    UpdateCommand { program, args, env, creation_flags }
}

/// The error when npm could not be started.
pub fn update_spawn_error(detail: &str) -> (e: crate::models::AppError)
    ensures
        e.code@ == "UPDATE_SPAWN_ERROR"@,
        e.message@ == "Failed to start npm: "@ + detail@,
{
    crate::models::AppError::new(
        "UPDATE_SPAWN_ERROR",
        crate::text::concat("Failed to start npm: ", detail).as_str(),
    )
}

/// The error when the background update task could not be joined.
pub fn update_join_error(detail: &str) -> (e: crate::models::AppError)
    ensures
        e.code@ == "UPDATE_JOIN_ERROR"@,
        e.message@ == "Failed to run update task: "@ + detail@,
{
    crate::models::AppError::new(
        "UPDATE_JOIN_ERROR",
        crate::text::concat("Failed to run update task: ", detail).as_str(),
    )
}

/// Versions compare lexicographically on (major, minor, patch): a larger
/// major decides; with equal majors a larger minor decides, whatever the
/// patches; with equal majors and minors the patch decides.
pub proof fn lemma_newer_lexicographic(a: Seq<u64>, b: Seq<u64>)
    requires
        a.len() == 3,
        b.len() == 3,
    ensures
        a[0] > b[0] ==> newer(a, b),
        a[0] < b[0] ==> !newer(a, b),
        a[0] == b[0] && a[1] > b[1] ==> newer(a, b),
        a[0] == b[0] && a[1] < b[1] ==> !newer(a, b),
        a[0] == b[0] && a[1] == b[1] ==> (newer(a, b) <==> a[2] > b[2]),
{
}

/// Being newer is a strict total order on versions: no version is newer
/// than itself, of two different versions exactly one is newer than the
/// other, and newer than newer is newer.
pub proof fn lemma_newer_order(a: Seq<u64>, b: Seq<u64>, c: Seq<u64>)
    requires
        a.len() == 3,
        b.len() == 3,
        c.len() == 3,
    ensures
        !newer(a, a),
        newer(a, b) ==> !newer(b, a),
        a != b ==> newer(a, b) || newer(b, a),
        newer(a, b) && newer(b, c) ==> newer(a, c),
{
    if a != b {
        if a[0] == b[0] && a[1] == b[1] && a[2] == b[2] {
            assert(a =~= b);
        }
    }
}

} // verus!
