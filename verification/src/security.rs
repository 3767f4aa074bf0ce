//! Confinement of user-supplied relative paths to a project folder.

use vstd::prelude::*;
use crate::models::AppError;
use crate::paths::{
    extension_in, extension_on, inside_on, is_absolute, join_in, join_on, join_path, lies_inside,
    Platform,
};
use crate::text::{
    index_of, pieces_at, chars_of, has_prefix_at, lowercase_of, split_bounds, split_on, starts_with, str_eq,
    string_from, to_lowercase,
};

verus! {

/// The service that keeps file access inside a project.
pub struct SecurityService;

/// `s` with every `\` turned into `/`.
pub open spec fn backslash_to_slash(s: Seq<char>) -> Seq<char> {
    Seq::new(s.len(), |i: int| if s[i] == '\\' { '/' } else { s[i] })
}

/// The parent-directory piece `..`.
pub open spec fn dot_dot() -> Seq<char> {
    seq!['.', '.']
}

/// One step of the normalisation: `..` drops the last kept name (if any),
/// empty pieces and `.` are skipped, any other piece is kept.
pub open spec fn clean_step(kept: Seq<Seq<char>>, part: Seq<char>) -> Seq<Seq<char>> {
    if part == dot_dot() {
        if kept.len() > 0 {
            kept.drop_last()
        } else {
            kept
        }
    } else if part.len() == 0 || part == seq!['.'] {
        kept
    } else {
        kept.push(part)
    }
}

/// The names kept after normalising the pieces from left to right.
pub open spec fn clean_names(parts: Seq<Seq<char>>) -> Seq<Seq<char>>
    decreases parts.len(),
{
    if parts.len() == 0 {
        seq![]
    } else {
        clean_step(clean_names(parts.drop_last()), parts.last())
    }
}

/// The names joined with `/`.
pub open spec fn join_names(names: Seq<Seq<char>>) -> Seq<char>
    decreases names.len(),
{
    if names.len() == 0 {
        seq![]
    } else if names.len() == 1 {
        names[0]
    } else {
        join_names(names.drop_last()) + seq!['/'] + names.last()
    }
}

/// The names that a relative path keeps once `\` is read as `/` and the
/// `.`, `..` and empty pieces are resolved.
pub open spec fn relative_names(rel: Seq<char>) -> Seq<Seq<char>> {
    clean_names(split_on(backslash_to_slash(rel), '/'))
}

/// The normalised relative path.
pub open spec fn clean_relative(rel: Seq<char>) -> Seq<char> {
    join_names(relative_names(rel))
}

/// The path that a relative path resolves to under a project root, joined
/// by the platform's rules.
pub open spec fn resolved_path(pl: Platform, root: Seq<char>, rel: Seq<char>) -> Seq<char> {
    join_on(pl, root, clean_relative(rel))
}

/// Whether the resolved path stays under the root: its text begins with the
/// root's, compared case-insensitively, and by the platform's rules it lies
/// inside the root (the root's components, then names only).
pub open spec fn stays_under_root(pl: Platform, root: Seq<char>, rel: Seq<char>) -> bool {
    &&& starts_with(lowercase_of(resolved_path(pl, root, rel)), lowercase_of(root))
    &&& inside_on(pl, resolved_path(pl, root, rel), root)
}

/// The file extensions treated as binary content.
pub open spec fn is_binary_extension(e: Seq<char>) -> bool {
    ||| e == "png"@ ||| e == "jpg"@ ||| e == "jpeg"@ ||| e == "gif"@ ||| e == "bmp"@
    ||| e == "ico"@ ||| e == "webp"@ ||| e == "exe"@ ||| e == "dll"@ ||| e == "so"@
    ||| e == "dylib"@ ||| e == "zip"@ ||| e == "tar"@ ||| e == "gz"@ ||| e == "rar"@
    ||| e == "7z"@ ||| e == "pdf"@ ||| e == "doc"@ ||| e == "docx"@ ||| e == "xls"@
    ||| e == "xlsx"@ ||| e == "mp3"@ ||| e == "mp4"@ ||| e == "avi"@ ||| e == "mov"@
    ||| e == "wav"@ ||| e == "ttf"@ ||| e == "otf"@ ||| e == "woff"@ ||| e == "woff2"@
    ||| e == "o"@ ||| e == "obj"@ ||| e == "class"@ ||| e == "pyc"@
}

/// Whether a path names a binary file by its lowercased extension.
pub open spec fn binary_path(pl: Platform, p: Seq<char>) -> bool {
    match extension_on(pl, p) {
        Some(e) => is_binary_extension(lowercase_of(e)),
        None => false,
    }
}

/// Whether the characters `s[lo..hi]` are exactly `..`.
fn is_dot_dot(s: &[char], lo: usize, hi: usize) -> (r: bool)
    requires
        lo <= hi <= s@.len(),
    ensures
        r == (s@.subrange(lo as int, hi as int) == dot_dot()),
{
    let r = hi - lo == 2 && s[lo] == '.' && s[lo + 1] == '.';
    proof {
        let t = s@.subrange(lo as int, hi as int);
        if r {
            assert(t =~= dot_dot());
        } else if t == dot_dot() {
            assert(t.len() == 2);
            assert(t[0] == s@[lo as int]);
            assert(t[1] == s@[lo + 1]);
        }
    }
    r
}

/// Whether the characters `s[lo..hi]` are exactly `.`.
fn is_dot(s: &[char], lo: usize, hi: usize) -> (r: bool)
    requires
        lo <= hi <= s@.len(),
    ensures
        r == (s@.subrange(lo as int, hi as int) == seq!['.']),
{
    let r = hi - lo == 1 && s[lo] == '.';
    proof {
        let t = s@.subrange(lo as int, hi as int);
        if r {
            assert(t =~= seq!['.']);
        } else if t == seq!['.'] {
            assert(t.len() == 1);
            assert(t[0] == s@[lo as int]);
        }
    }
    r
}


/// `s` with every `\` turned into `/`.
fn slashes(rel: &str) -> (s: Vec<char>)
    ensures
        s@ == backslash_to_slash(rel@),
{
    let raw = chars_of(rel);
    let mut s: Vec<char> = Vec::new();
    let mut i: usize = 0;
    while i < raw.len()
        invariant
            i <= raw@.len(),
            raw@ == rel@,
            s@ == backslash_to_slash(raw@).take(i as int),
        decreases raw@.len() - i,
    {
        let c = raw[i];
        s.push(if c == '\\' { '/' } else { c });
        i = i + 1;
        assert(s@ =~= backslash_to_slash(raw@).take(i as int));
    }
    assert(s@ =~= backslash_to_slash(rel@));
    s
}

/// Bounds, inside `s`, of the names that normalisation keeps.
fn clean_bounds(s: &[char]) -> (kept: Vec<(usize, usize)>)
    ensures
        forall|k: int| 0 <= k < kept@.len() ==> #[trigger] kept@[k].0 <= kept@[k].1 <= s@.len(),
        pieces_at(s@, kept@) == clean_names(split_on(s@, '/')),
{
    assert(s@.subrange(0, s@.len() as int) =~= s@);
    let ghost parts = split_on(s@, '/');
    let b = split_bounds(s, 0, s.len(), '/');
    let ghost whole = s@.subrange(0, s@.len() as int);
    assert forall|k: int| 0 <= k < b@.len() implies #[trigger] b@[k].0 <= b@[k].1 <= s@.len()
        && pieces_at(s@, b@)[k] == parts[k] by {
        assert(split_on(whole, '/')[k] == s@.subrange(b@[k].0 as int, b@[k].1 as int));
    }
    assert(pieces_at(s@, b@) =~= parts);
    let mut kept: Vec<(usize, usize)> = Vec::new();
    let mut j: usize = 0;
    while j < b.len()
        invariant
            j <= b@.len(),
            b@.len() == parts.len(),
            pieces_at(s@, b@) == parts,
            forall|k: int| 0 <= k < b@.len() ==> #[trigger] b@[k].0 <= b@[k].1 <= s@.len(),
            forall|k: int| 0 <= k < kept@.len() ==> #[trigger] kept@[k].0 <= kept@[k].1 <= s@.len(),
            pieces_at(s@, kept@) == clean_names(parts.take(j as int)),
        decreases b@.len() - j,
    {
        let (x, y) = b[j];
        let ghost before = pieces_at(s@, kept@);
        proof {
            assert(parts.take(j + 1).drop_last() =~= parts.take(j as int));
            assert(parts.take(j + 1).last() == parts[j as int]);
            assert(parts[j as int] == pieces_at(s@, b@)[j as int]);
        }
        if is_dot_dot(s, x, y) {
            if kept.len() > 0 {
                kept.pop();
                assert(pieces_at(s@, kept@) =~= before.drop_last());
            }
        } else if y == x || is_dot(s, x, y) {
        } else {
            kept.push((x, y));
            assert(pieces_at(s@, kept@) =~= before.push(parts[j as int]));
        }
        j = j + 1;
    }
    assert(parts.take(b@.len() as int) =~= parts);
    kept
}

/// The kept names joined with `/`.
fn join_bounds(s: &[char], kept: &Vec<(usize, usize)>) -> (out: Vec<char>)
    requires
        forall|k: int| 0 <= k < kept@.len() ==> #[trigger] kept@[k].0 <= kept@[k].1 <= s@.len(),
    ensures
        out@ == join_names(pieces_at(s@, kept@)),
{
    let ghost names = pieces_at(s@, kept@);
    let mut out: Vec<char> = Vec::new();
    let mut k: usize = 0;
    while k < kept.len()
        invariant
            k <= kept@.len(),
            names == pieces_at(s@, kept@),
            forall|m: int| 0 <= m < kept@.len() ==> #[trigger] kept@[m].0 <= kept@[m].1 <= s@.len(),
            out@ == join_names(names.take(k as int)),
        decreases kept@.len() - k,
    {
        let (x, y) = kept[k];
        proof {
            assert(names.take(k + 1).drop_last() =~= names.take(k as int));
            assert(names.take(k + 1).last() == names[k as int]);
        }
        let ghost prev = out@;
        if k > 0 {
            out.push('/');
        }
        let ghost start = out@;
        let mut m = x;
        while m < y
            invariant
                x <= m <= y <= s@.len(),
                out@ == start + s@.subrange(x as int, m as int),
            decreases y - m,
        {
            out.push(s[m]);
            m = m + 1;
            assert(out@ =~= start + s@.subrange(x as int, m as int));
        }
        proof {
            if k == 0 {
                assert(names.take(1) =~= seq![names[0]]);
                assert(out@ =~= join_names(names.take(1)));
            } else {
                assert(out@ =~= join_names(names.take(k + 1)));
            }
        }
        k = k + 1;
    }
    assert(names.take(kept@.len() as int) =~= names);
    out
}

/// The normalised form of a relative path.
pub fn normalize_relative(relative_path: &str) -> (r: String)
    ensures
        r@ == clean_relative(relative_path@),
{
    let s = slashes(relative_path);
    let kept = clean_bounds(s.as_slice());
    let out = join_bounds(s.as_slice(), &kept);
    string_from(out.as_slice())
}

/// Whether the extension is one of the binary ones.
fn binary_extension(e: &str) -> (r: bool)
    ensures
        r == is_binary_extension(e@),
{
    str_eq(e, "png") || str_eq(e, "jpg") || str_eq(e, "jpeg") || str_eq(e, "gif") || str_eq(
        e,
        "bmp",
    ) || str_eq(e, "ico") || str_eq(e, "webp") || str_eq(e, "exe") || str_eq(e, "dll")
        || str_eq(e, "so") || str_eq(e, "dylib") || str_eq(e, "zip") || str_eq(e, "tar")
        || str_eq(e, "gz") || str_eq(e, "rar") || str_eq(e, "7z") || str_eq(e, "pdf") || str_eq(
        e,
        "doc",
    ) || str_eq(e, "docx") || str_eq(e, "xls") || str_eq(e, "xlsx") || str_eq(e, "mp3")
        || str_eq(e, "mp4") || str_eq(e, "avi") || str_eq(e, "mov") || str_eq(e, "wav")
        || str_eq(e, "ttf") || str_eq(e, "otf") || str_eq(e, "woff") || str_eq(e, "woff2")
        || str_eq(e, "o") || str_eq(e, "obj") || str_eq(e, "class") || str_eq(e, "pyc")
}

impl SecurityService {
    /// Resolves `relative_path` under `project_root` without touching the
    /// file system: `\` counts as `/`, `.` and empty pieces are dropped, `..`
    /// removes the previous kept name and never climbs above the root.  The
    /// rest is joined to the root by the platform's rules; the result must
    /// begin, case-insensitively, with the root's text and lie inside the
    /// root component by component.
    pub fn resolve_project_path_no_fs(
        project_root: &str,
        relative_path: &str,
        platform: Platform,
    ) -> (r: Result<String, AppError>)
        ensures
            match r {
                Ok(t) => t@ == resolved_path(platform, project_root@, relative_path@)
                    && stays_under_root(platform, project_root@, relative_path@),
                Err(e) => !stays_under_root(platform, project_root@, relative_path@) && e.code@
                    == "PATH_TRAVERSAL"@ && e.message@ == "Path escapes project root"@,
            },
    {
        let clean = normalize_relative(relative_path);
        let target = join_in(platform, project_root, clean.as_str());
        let target_lower = chars_of(to_lowercase(target.as_str()).as_str());
        let root_lower = chars_of(to_lowercase(project_root).as_str());
        assert(target_lower@.subrange(0, target_lower@.len() as int) =~= target_lower@);
        if !has_prefix_at(target_lower.as_slice(), 0, target_lower.len(), root_lower.as_slice()) {
            return Err(AppError::new("PATH_TRAVERSAL", "Path escapes project root"));
        }
        if !lies_inside(platform, target.as_str(), project_root) {
            return Err(AppError::new("PATH_TRAVERSAL", "Path escapes project root"));
        }
        Ok(target)
    }

    /// Whether the path's extension, lowercased, marks a binary file.
    pub fn is_binary_file(path: &str, platform: Platform) -> (r: bool)
        ensures
            r == binary_path(platform, path@),
    {
        match extension_in(platform, path) {
            Some(e) => {
                let lower = to_lowercase(e.as_str());
                binary_extension(lower.as_str())
            },
            None => false,
        }
    }
}


/// A name that normalisation may keep: not empty, not `.` or `..`, and free
/// of `/` and `\`.
pub open spec fn plain_name(x: Seq<char>) -> bool {
    &&& x.len() > 0
    &&& x != seq!['.']
    &&& x != dot_dot()
    &&& forall|j: int| 0 <= j < x.len() ==> x[j] != '/' && x[j] != '\\'
}

/// The pieces of a split never hold the separator, and hold only
/// characters that satisfy `p` when the whole sequence does.
pub proof fn lemma_split_pieces(s: Seq<char>, c: char, p: spec_fn(char) -> bool)
    requires
        forall|j: int| 0 <= j < s.len() ==> p(s[j]),
    ensures
        forall|i: int, j: int|
            0 <= i < split_on(s, c).len() && 0 <= j < split_on(s, c)[i].len() ==> split_on(s, c)[i][j]
                != c && p(#[trigger] split_on(s, c)[i][j]),
    decreases s.len(),
{
    crate::text::lemma_index_of(s, c);
    match index_of(s, c) {
        None => {},
        Some(k) => {
            let rest = s.skip(k + 1);
            lemma_split_pieces(rest, c, p);
            assert forall|i: int, j: int|
                0 <= i < split_on(s, c).len() && 0 <= j < split_on(s, c)[i].len() implies split_on(
                s,
                c,
            )[i][j] != c && p(#[trigger] split_on(s, c)[i][j]) by {
                if i == 0 {
                    assert(split_on(s, c)[0] == s.take(k));
                } else {
                    assert(split_on(s, c)[i] == split_on(rest, c)[i - 1]);
                }
            }
        },
    }
}

/// Normalisation keeps only plain names.
pub proof fn lemma_clean_names_plain(parts: Seq<Seq<char>>)
    requires
        forall|i: int, j: int|
            0 <= i < parts.len() && 0 <= j < parts[i].len() ==> #[trigger] parts[i][j] != '/'
                && parts[i][j] != '\\',
    ensures
        forall|i: int| 0 <= i < clean_names(parts).len() ==> plain_name(#[trigger] clean_names(parts)[i]),
    decreases parts.len(),
{
    if parts.len() > 0 {
        let init = parts.drop_last();
        assert forall|i: int, j: int| 0 <= i < init.len() && 0 <= j < init[i].len() implies #[trigger] init[i][j]
            != '/' && init[i][j] != '\\' by {
            assert(init[i] == parts[i]);
        }
        lemma_clean_names_plain(init);
        let last = parts.last();
        let prev = clean_names(init);
        assert(last == parts[parts.len() - 1]);
        assert forall|j: int| 0 <= j < last.len() implies last[j] != '/' && last[j] != '\\' by {
            assert(parts[parts.len() - 1][j] == last[j]);
        }
        let cur = clean_names(parts);
        assert(cur == clean_step(prev, last));
        assert forall|i: int| 0 <= i < cur.len() implies plain_name(#[trigger] cur[i]) by {
            if i < prev.len() {
                assert(cur[i] == prev[i]);
            } else {
                assert(cur[i] == last);
            }
        }
    }
}

/// `find` on a sequence with the character in it.
proof fn lemma_index_of_concat(x: Seq<char>, y: Seq<char>, c: char)
    requires
        forall|j: int| 0 <= j < x.len() ==> x[j] != c,
    ensures
        index_of(x + seq![c] + y, c) == Some(x.len() as int),
{
    let s = x + seq![c] + y;
    crate::text::lemma_index_of_from(s, c, x.len() as int);
}

/// Splitting `x / y`, where `y` holds no separator, gives the pieces of `x`
/// and then `y`.
pub proof fn lemma_split_append(x: Seq<char>, y: Seq<char>, c: char)
    requires
        forall|j: int| 0 <= j < y.len() ==> y[j] != c,
    ensures
        split_on(x + seq![c] + y, c) == split_on(x, c) + seq![y],
    decreases x.len(),
{
    let s = x + seq![c] + y;
    crate::text::lemma_index_of(x, c);
    crate::text::lemma_index_of_from(y, c, y.len() as int);
    match index_of(x, c) {
        None => {
            lemma_index_of_concat(x, y, c);
            assert(s.take(x.len() as int) =~= x);
            assert(s.skip(x.len() as int + 1) =~= y);
            assert(split_on(y, c) == seq![y]);
            assert(split_on(x, c) == seq![x]);
            assert(split_on(s, c) == seq![x] + split_on(y, c));
            assert(split_on(s, c) =~= split_on(x, c) + seq![y]);
        },
        Some(k) => {
            crate::text::lemma_index_of(s, c);
            crate::text::lemma_index_of_from(s, c, k);
            let rest = x.skip(k + 1);
            assert(s.take(k) =~= x.take(k));
            assert(s.skip(k + 1) =~= rest + seq![c] + y);
            lemma_split_append(rest, y, c);
            assert(split_on(x, c) == seq![x.take(k)] + split_on(rest, c));
            assert(split_on(s, c) =~= split_on(x, c) + seq![y]);
        },
    }
}

/// Splitting the join of plain names at `/` gives the names back.
pub proof fn lemma_split_join(names: Seq<Seq<char>>)
    requires
        names.len() > 0,
        forall|i: int| 0 <= i < names.len() ==> plain_name(#[trigger] names[i]),
    ensures
        split_on(join_names(names), '/') == names,
    decreases names.len(),
{
    if names.len() == 1 {
        let n = names[0];
        crate::text::lemma_index_of_from(n, '/', n.len() as int);
        assert(split_on(n, '/') =~= names);
    } else {
        let init = names.drop_last();
        assert forall|i: int| 0 <= i < init.len() implies plain_name(#[trigger] init[i]) by {
            assert(init[i] == names[i]);
        }
        lemma_split_join(init);
        let last = names.last();
        assert(plain_name(names[names.len() - 1]));
        lemma_split_append(join_names(init), last, '/');
        assert(split_on(join_names(names), '/') =~= names);
    }
}

/// Normalising plain names changes nothing.
pub proof fn lemma_clean_plain_fixed(names: Seq<Seq<char>>)
    requires
        forall|i: int| 0 <= i < names.len() ==> plain_name(#[trigger] names[i]),
    ensures
        clean_names(names) == names,
    decreases names.len(),
{
    if names.len() > 0 {
        let init = names.drop_last();
        assert forall|i: int| 0 <= i < init.len() implies plain_name(#[trigger] init[i]) by {
            assert(init[i] == names[i]);
        }
        lemma_clean_plain_fixed(init);
        assert(plain_name(names[names.len() - 1]));
        assert(init.push(names.last()) =~= names);
    }
}

/// The join of plain names holds no `\`.
proof fn lemma_join_no_backslash(names: Seq<Seq<char>>)
    requires
        forall|i: int| 0 <= i < names.len() ==> plain_name(#[trigger] names[i]),
    ensures
        forall|j: int| 0 <= j < join_names(names).len() ==> join_names(names)[j] != '\\',
    decreases names.len(),
{
    if names.len() > 1 {
        let init = names.drop_last();
        assert forall|i: int| 0 <= i < init.len() implies plain_name(#[trigger] init[i]) by {
            assert(init[i] == names[i]);
        }
        lemma_join_no_backslash(init);
        assert(plain_name(names[names.len() - 1]));
        let a = join_names(init);
        let l = names.last();
        assert forall|j: int| 0 <= j < join_names(names).len() implies join_names(names)[j] != '\\' by {
            if j < a.len() {
                assert(join_names(names)[j] == a[j]);
            } else if j > a.len() {
                assert(join_names(names)[j] == l[j - a.len() - 1]);
            }
        }
    } else if names.len() == 1 {
        assert(plain_name(names[0]));
    }
}

/// The join of plain names starts with the first name's first character,
/// so it is never empty and never starts with `/`.
proof fn lemma_join_starts_plain(names: Seq<Seq<char>>)
    requires
        names.len() > 0,
        forall|i: int| 0 <= i < names.len() ==> plain_name(#[trigger] names[i]),
    ensures
        join_names(names).len() > 0,
        join_names(names)[0] == names[0][0],
        join_names(names)[0] != '/',
    decreases names.len(),
{
    assert(plain_name(names[0]));
    if names.len() > 1 {
        let init = names.drop_last();
        assert forall|i: int| 0 <= i < init.len() implies plain_name(#[trigger] init[i]) by {
            assert(init[i] == names[i]);
        }
        lemma_join_starts_plain(init);
        assert(init[0] == names[0]);
    }
}

/// Every name that a relative path keeps is plain: never empty, never `.`
/// or `..`, never holding a separator.  So the normalised path only ever
/// descends below the root.
pub proof fn lemma_relative_names_plain(rel: Seq<char>)
    ensures
        forall|i: int|
            0 <= i < relative_names(rel).len() ==> plain_name(#[trigger] relative_names(rel)[i]),
{
    let s = backslash_to_slash(rel);
    let p = |ch: char| ch != '\\';
    assert forall|j: int| 0 <= j < s.len() implies p(s[j]) by {}
    lemma_split_pieces(s, '/', p);
    let parts = split_on(s, '/');
    assert forall|i: int, j: int| 0 <= i < parts.len() && 0 <= j < parts[i].len() implies #[trigger] parts[i][j]
        != '/' && parts[i][j] != '\\' by {
        assert(p(parts[i][j]));
    }
    lemma_clean_names_plain(parts);
}

/// Under Unix rules the resolved path is the root, a separator when
/// needed, and then the normalised relative path: its text always begins
/// with the root's.
pub proof fn lemma_resolved_begins_with_root(pl: Platform, root: Seq<char>, rel: Seq<char>)
    requires
        pl != Platform::Windows,
    ensures
        starts_with(resolved_path(pl, root, rel), root),
        resolved_path(pl, root, rel) == join_path(root, clean_relative(rel)),
{
    let names = relative_names(rel);
    lemma_relative_names_plain(rel);
    let c = clean_relative(rel);
    if c.len() > 0 {
        lemma_join_starts_plain(names);
    }
    assert(!is_absolute(c));
    let t = resolved_path(pl, root, rel);
    assert(t.take(root.len() as int) =~= root);
}

/// Normalising an already normalised relative path gives it back.
pub proof fn lemma_normalize_idempotent(rel: Seq<char>)
    ensures
        clean_relative(clean_relative(rel)) == clean_relative(rel),
{
    let names = relative_names(rel);
    lemma_relative_names_plain(rel);
    let c = clean_relative(rel);
    lemma_join_no_backslash(names);
    assert(backslash_to_slash(c) =~= c);
    if names.len() == 0 {
        assert(c =~= Seq::<char>::empty());
        crate::text::lemma_index_of_from(c, '/', 0);
        assert(split_on(c, '/') =~= seq![c]);
        assert(clean_names(seq![c]) =~= Seq::<Seq<char>>::empty()) by {
            assert(seq![c].drop_last() =~= Seq::<Seq<char>>::empty());
            assert(seq![c].last() == c);
            assert(c.len() == 0);
            assert(clean_names(seq![c]) == clean_step(clean_names(seq![c].drop_last()), c));
        }
    } else {
        lemma_split_join(names);
        lemma_clean_plain_fixed(names);
    }
}

/// Resolving an already resolved relative path gives the same target: the
/// relative part of a resolved path is the normalised relative path `c`,
/// and resolving `c` under the same root gives the same path and is
/// accepted exactly when the first resolution was.  Under Unix rules the
/// resolved text is the root, a separator unless the root is empty or ends
/// with one, and then `c`.
pub proof fn lemma_resolve_idempotent(pl: Platform, root: Seq<char>, rel: Seq<char>)
    ensures
        resolved_path(pl, root, clean_relative(rel)) == resolved_path(pl, root, rel),
        stays_under_root(pl, root, clean_relative(rel)) == stays_under_root(pl, root, rel),
        pl != Platform::Windows ==> resolved_path(pl, root, rel) == join_path(
            root,
            clean_relative(rel),
        ),
        pl != Platform::Windows && root.len() > 0 && root.last() != '/' ==> resolved_path(
            pl,
            root,
            rel,
        ).skip(root.len() + 1int) == clean_relative(rel),
{
    lemma_normalize_idempotent(rel);
    if pl != Platform::Windows {
        lemma_resolved_begins_with_root(pl, root, rel);
        let c = clean_relative(rel);
        if root.len() > 0 && root.last() != '/' {
            assert((root + seq!['/'] + c).skip(root.len() + 1int) =~= c);
        }
    }
}

/// The extensions of binary files, which are never opened as text: images
/// (png, jpg, jpeg, gif, bmp, ico, webp), programs and libraries (exe, dll,
/// so, dylib), archives (zip, tar, gz, rar, 7z), documents (pdf, doc, docx,
/// xls, xlsx), media (mp3, mp4, avi, mov, wav), fonts (ttf, otf, woff,
/// woff2) and compiled code (o, obj, class, pyc).
pub proof fn lemma_binary_extensions()
    ensures
        is_binary_extension("png"@),
        is_binary_extension("jpg"@),
        is_binary_extension("jpeg"@),
        is_binary_extension("gif"@),
        is_binary_extension("bmp"@),
        is_binary_extension("ico"@),
        is_binary_extension("webp"@),
        is_binary_extension("exe"@),
        is_binary_extension("dll"@),
        is_binary_extension("so"@),
        is_binary_extension("dylib"@),
        is_binary_extension("zip"@),
        is_binary_extension("tar"@),
        is_binary_extension("gz"@),
        is_binary_extension("rar"@),
        is_binary_extension("7z"@),
        is_binary_extension("pdf"@),
        is_binary_extension("doc"@),
        is_binary_extension("docx"@),
        is_binary_extension("xls"@),
        is_binary_extension("xlsx"@),
        is_binary_extension("mp3"@),
        is_binary_extension("mp4"@),
        is_binary_extension("avi"@),
        is_binary_extension("mov"@),
        is_binary_extension("wav"@),
        is_binary_extension("ttf"@),
        is_binary_extension("otf"@),
        is_binary_extension("woff"@),
        is_binary_extension("woff2"@),
        is_binary_extension("o"@),
        is_binary_extension("obj"@),
        is_binary_extension("class"@),
        is_binary_extension("pyc"@),
{
}

} // verus!
