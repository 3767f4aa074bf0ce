//! Paths as character sequences, following the component rules of
//! `std::path`: Unix rules (`/` separators) here, Windows rules (prefixes,
//! verbatim paths, `\` and `/` separators) in `winpaths`, and a dispatch on
//! the platform for the library's callers.

use vstd::prelude::*;
use crate::winpaths::{
    is_verbatim_kind, prefix_of, sep_in, w_components, w_file_name, w_is_absolute, w_is_normal,
    w_join, w_prefix, win_begins_with, win_components, win_file_name, win_is_absolute, win_join,
};
use crate::text::{
    bounds_within, chars_of, concat, owned, pieces_at, slice_to_vec, split_bounds, split_on, str_eq,
    string_from,
};

verus! {

/// The platform whose rules a path follows, and for which shells and
/// commands are made.
#[derive(Debug, Clone, Copy, PartialEq, Eq, Structural)]
pub enum Platform {
    Windows,
    Linux,
    Other,
}

/// A piece between separators that names something: neither empty nor `.`.
pub open spec fn is_named_piece(x: Seq<char>) -> bool {
    x.len() > 0 && x != seq!['.']
}

/// The pieces that `Path::components` reports as `Normal` or `ParentDir`:
/// the `/`-separated pieces without the empty ones and the `.` ones.
pub open spec fn named_pieces(pieces: Seq<Seq<char>>) -> Seq<Seq<char>>
    decreases pieces.len(),
{
    if pieces.len() == 0 {
        seq![]
    } else {
        let r = named_pieces(pieces.drop_last());
        if is_named_piece(pieces.last()) {
            r.push(pieces.last())
        } else {
            r
        }
    }
}

/// The component marker for a leading `/`.
pub open spec fn root_marker() -> Seq<char> {
    seq!['/']
}

/// The component marker for a leading `.`.
pub open spec fn cur_marker() -> Seq<char> {
    seq!['.']
}

/// `Path::components` of a Unix path: a root marker when the path starts
/// with `/`, a current-directory marker when it is relative and its first
/// piece is `.`, then its named pieces.
pub open spec fn components(p: Seq<char>) -> Seq<Seq<char>> {
    let pieces = split_on(p, '/');
    let head = if p.len() > 0 && p[0] == '/' {
        seq![root_marker()]
    } else if pieces.len() > 0 && pieces[0] == cur_marker() {
        seq![cur_marker()]
    } else {
        Seq::<Seq<char>>::empty()
    };
    head + named_pieces(pieces)
}

/// `Path::starts_with`: the components of `base` begin the components of `p`.
pub open spec fn path_starts_with(p: Seq<char>, base: Seq<char>) -> bool {
    let a = components(p);
    let b = components(base);
    b.len() <= a.len() && a.take(b.len() as int) == b
}

/// `Path::file_name`: the last named piece, unless it is `..`.
pub open spec fn file_name(p: Seq<char>) -> Option<Seq<char>> {
    let n = named_pieces(split_on(p, '/'));
    if n.len() == 0 || n.last() == seq!['.', '.'] {
        None
    } else {
        Some(n.last())
    }
}

/// The index of the last `c` in `s`.
pub open spec fn last_index_of(s: Seq<char>, c: char) -> Option<int>
    decreases s.len(),
{
    if s.len() == 0 {
        None
    } else if s.last() == c {
        Some(s.len() - 1)
    } else {
        last_index_of(s.drop_last(), c)
    }
}

/// `Path::extension`: what follows the last `.` of the file name, unless
/// the name has no `.` or its only `.` is the first character.
pub open spec fn extension(p: Seq<char>) -> Option<Seq<char>> {
    match file_name(p) {
        None => None,
        Some(n) => match last_index_of(n, '.') {
            None => None,
            Some(k) => if k == 0 {
                None
            } else {
                Some(n.skip(k + 1))
            },
        },
    }
}

/// `Path::is_absolute` on Unix.
pub open spec fn is_absolute(p: Seq<char>) -> bool {
    p.len() > 0 && p[0] == '/'
}

/// `PathBuf::join` with a relative argument on Unix: a separator is added
/// unless the base is empty or already ends with one.
pub open spec fn join_path(base: Seq<char>, rel: Seq<char>) -> Seq<char> {
    if base.len() == 0 {
        rel
    } else if base.last() == '/' {
        base + rel
    } else {
        base + seq!['/'] + rel
    }
}

pub proof fn lemma_last_index_of(s: Seq<char>, c: char)
    ensures
        match last_index_of(s, c) {
            Some(k) => 0 <= k < s.len() && s[k] == c && forall|j: int| k < j < s.len() ==> s[j] != c,
            None => forall|j: int| 0 <= j < s.len() ==> s[j] != c,
        },
    decreases s.len(),
{
    if s.len() > 0 && s.last() != c {
        let t = s.drop_last();
        lemma_last_index_of(t, c);
        match last_index_of(t, c) {
            Some(k) => {
                assert forall|j: int| k < j < s.len() implies s[j] != c by {
                    if j < s.len() - 1 {
                        assert(s[j] == t[j]);
                    }
                }
            },
            None => {
                assert forall|j: int| 0 <= j < s.len() implies s[j] != c by {
                    if j < s.len() - 1 {
                        assert(s[j] == t[j]);
                    }
                }
            },
        }
    }
}

/// Bounds of the named pieces among the pieces `s[lo..hi]` splits into.
#[verifier::spinoff_prover]
fn named_piece_bounds(s: &[char], lo: usize, hi: usize) -> (r: Vec<(usize, usize)>)
    requires
        lo <= hi <= s@.len(),
    ensures
        r@.len() == named_pieces(split_on(s@.subrange(lo as int, hi as int), '/')).len(),
        forall|i: int|
            0 <= i < r@.len() ==> #[trigger] r@[i].0 <= r@[i].1 <= hi && lo <= r@[i].0
                && named_pieces(split_on(s@.subrange(lo as int, hi as int), '/'))[i]
                == s@.subrange(r@[i].0 as int, r@[i].1 as int),
{
    let ghost pieces = split_on(s@.subrange(lo as int, hi as int), '/');
    let b = split_bounds(s, lo, hi, '/');
    assert forall|j: int| 0 <= j < b@.len() implies #[trigger] b@[j].0 <= b@[j].1 <= hi && lo
        <= b@[j].0 && pieces[j] == s@.subrange(b@[j].0 as int, b@[j].1 as int) by {
        assert(split_on(s@.subrange(lo as int, hi as int), '/')[j] == s@.subrange(
            b@[j].0 as int,
            b@[j].1 as int,
        ));
    }
    let mut r: Vec<(usize, usize)> = Vec::new();
    let mut i: usize = 0;
    while i < b.len()
        invariant
            i <= b@.len(),
            b@.len() == pieces.len(),
            forall|j: int|
                0 <= j < b@.len() ==> #[trigger] b@[j].0 <= b@[j].1 <= hi && lo <= b@[j].0
                    && pieces[j] == s@.subrange(b@[j].0 as int, b@[j].1 as int),
            hi <= s@.len(),
            r@.len() == named_pieces(pieces.take(i as int)).len(),
            forall|j: int|
                0 <= j < r@.len() ==> #[trigger] r@[j].0 <= r@[j].1 <= hi && lo <= r@[j].0
                    && named_pieces(pieces.take(i as int))[j] == s@.subrange(
                    r@[j].0 as int,
                    r@[j].1 as int,
                ),
        decreases b@.len() - i,
    {
        let (x, y) = b[i];
        let ghost prev = named_pieces(pieces.take(i as int));
        assert(pieces.take(i + 1).drop_last() =~= pieces.take(i as int));
        assert(pieces.take(i + 1).last() == pieces[i as int]);
        let keep = y > x && !(y - x == 1 && s[x] == '.');
        assert(keep == is_named_piece(pieces[i as int])) by {
            let piece = s@.subrange(x as int, y as int);
            if y - x == 1 {
                if piece == seq!['.'] {
                    assert(piece[0] == s@[x as int]);
                } else {
                    assert(s@[x as int] != '.') by {
                        if s@[x as int] == '.' {
                            assert(piece =~= seq!['.']);
                        }
                    }
                }
            } else if y > x {
                assert(piece.len() != 1);
            }
        }
        assert(named_pieces(pieces.take(i + 1)) == (if is_named_piece(pieces[i as int]) {
            prev.push(pieces[i as int])
        } else {
            prev
        }));
        let ghost rv = r@;
        let ghost k = i as int;
        assert(pieces[k] == s@.subrange(x as int, y as int));
        if keep {
            r.push((x, y));
        }
        i = i + 1;
        assert forall|j: int| 0 <= j < r@.len() implies #[trigger] r@[j].0 <= r@[j].1 <= hi && lo
            <= r@[j].0 && named_pieces(pieces.take(i as int))[j] == s@.subrange(
            r@[j].0 as int,
            r@[j].1 as int,
        ) by {
            if j < prev.len() {
                assert(r@[j] == rv[j]);
                assert(rv[j].0 <= rv[j].1 <= hi && lo <= rv[j].0 && prev[j] == s@.subrange(
                    rv[j].0 as int,
                    rv[j].1 as int,
                ));
                assert(named_pieces(pieces.take(i as int))[j] == prev[j]);
            } else {
                assert(keep);
                assert(j == prev.len());
                assert(r@[j] == (x, y));
                assert(x <= y <= hi && lo <= x);
                assert(named_pieces(pieces.take(i as int)) == prev.push(pieces[k]));
                assert(named_pieces(pieces.take(i as int))[j] == pieces[k]);
            }
        }
    }
    assert(pieces.take(b@.len() as int) =~= pieces);
    r
}

/// `Path::file_name`.
pub fn path_file_name(p: &str) -> (r: Option<String>)
    ensures
        match r {
            Some(n) => file_name(p@) == Some(n@),
            None => file_name(p@) is None,
        },
{
    let s = chars_of(p);
    let n = named_piece_bounds(s.as_slice(), 0, s.len());
    assert(s@.subrange(0, s@.len() as int) =~= p@);
    if n.len() == 0 {
        return None;
    }
    let (x, y) = n[n.len() - 1];
    assert(n@[n@.len() - 1].0 <= n@[n@.len() - 1].1 <= s@.len());
    let ghost last = s@.subrange(x as int, y as int);
    if y - x == 2 && s[x] == '.' && s[x + 1] == '.' {
        assert(last =~= seq!['.', '.']);
        return None;
    }
    assert(last != seq!['.', '.']) by {
        if last == seq!['.', '.'] {
            assert(last.len() == 2);
            assert(y - x == 2);
            assert(last[0] == s@[x + 0]);
            assert(last[1] == s@[x + 1]);
        }
    }
    Some(string_from(slice_to_vec(s.as_slice(), x, y).as_slice()))
}

/// The last index in `s[lo..hi]` holding `c`, relative to `lo`.
fn rfind_char(s: &[char], lo: usize, hi: usize, c: char) -> (r: Option<usize>)
    requires
        lo <= hi <= s@.len(),
    ensures
        match r {
            Some(k) => last_index_of(s@.subrange(lo as int, hi as int), c) == Some(k as int),
            None => last_index_of(s@.subrange(lo as int, hi as int), c) is None,
        },
{
    let mut k = hi;
    while k > lo && s[k - 1] != c
        invariant
            lo <= k <= hi <= s@.len(),
            last_index_of(s@.subrange(lo as int, hi as int), c) == last_index_of(
                s@.subrange(lo as int, k as int),
                c,
            ),
        decreases k - lo,
    {
        assert(s@.subrange(lo as int, k as int).drop_last() =~= s@.subrange(lo as int, k - 1));
        k = k - 1;
    }
    if k == lo {
        None
    } else {
        Some(k - 1 - lo)
    }
}

/// `Path::extension`.
pub fn path_extension(p: &str) -> (r: Option<String>)
    ensures
        match r {
            Some(e) => extension(p@) == Some(e@),
            None => extension(p@) is None,
        },
{
    match path_file_name(p) {
        None => None,
        Some(name) => {
            let s = chars_of(name.as_str());
            assert(s@.subrange(0, s@.len() as int) =~= s@);
            match rfind_char(s.as_slice(), 0, s.len(), '.') {
                None => None,
                Some(k) => {
                    proof {
                        lemma_last_index_of(s@.subrange(0, s@.len() as int), '.');
                    }
                    if k == 0 {
                        None
                    } else {
                        Some(string_from(slice_to_vec(s.as_slice(), k + 1, s.len()).as_slice()))
                    }
                },
            }
        },
    }
}

/// `PathBuf::join` of a relative path on Unix.
pub fn join_paths(base: &str, rel: &str) -> (r: String)
    ensures
        r@ == join_path(base@, rel@),
{
    let b = chars_of(base);
    if b.len() == 0 {
        return owned(rel);
    }
    if b[b.len() - 1] == '/' {
        return concat(base, rel);
    }
    let mut x = owned(base);
    x.push('/');
    let r = concat(x.as_str(), rel);
    assert(r@ =~= base@ + seq!['/'] + rel@);
    r
}


proof fn lemma_split_on_nonempty(s: Seq<char>, sep: char)
    ensures
        split_on(s, sep).len() >= 1,
{
    match crate::text::index_of(s, sep) {
        None => {},
        Some(k) => {},
    }
}

/// `Path::components` of a Unix path, each as a string.
pub fn path_components(p: &str) -> (r: Vec<String>)
    ensures
        r.deep_view() == components(p@),
{
    let s = chars_of(p);
    assert(s@.subrange(0, s@.len() as int) =~= p@);
    let ghost pieces = split_on(p@, '/');
    let mut r: Vec<String> = Vec::new();
    if s.len() > 0 && s[0] == '/' {
        let mut m = String::new();
        m.push('/');
        assert(m@ =~= root_marker());
        r.push(m);
    } else {
        let b = split_bounds(s.as_slice(), 0, s.len(), '/');
        proof {
            lemma_split_on_nonempty(p@, '/');
        }
        let (x, y) = b[0];
        if y - x == 1 && s[x] == '.' {
            assert(pieces[0] =~= cur_marker()) by {
                assert(pieces[0] == s@.subrange(x as int, y as int));
            }
            let mut m = String::new();
            m.push('.');
            assert(m@ =~= cur_marker());
            r.push(m);
        } else {
            assert(pieces[0] != cur_marker()) by {
                assert(pieces[0] == s@.subrange(x as int, y as int));
                if pieces[0] == cur_marker() {
                    assert(pieces[0].len() == 1);
                    assert(pieces[0][0] == s@[x as int]);
                }
            }
        }
    }
    let ghost head = r.deep_view();
    assert(head =~= components(p@).take(head.len() as int));
    let n = named_piece_bounds(s.as_slice(), 0, s.len());
    assert(split_on(s@.subrange(0, s@.len() as int), '/') == pieces);
    assert(pieces_at(s@, n@) =~= named_pieces(pieces)) by {
        assert forall|j: int| 0 <= j < n@.len() implies #[trigger] pieces_at(s@, n@)[j]
            == named_pieces(pieces)[j] by {
            assert(n@[j].0 <= n@[j].1);
        }
    }
    assert(bounds_within(n@, 0, s@.len() as int)) by {
        assert forall|j: int| 0 <= j < n@.len() implies 0 <= #[trigger] n@[j].0 <= n@[j].1
            <= s@.len() by {
            assert(n@[j].0 <= n@[j].1);
        }
    }
    let mut i: usize = 0;
    while i < n.len()
        invariant
            i <= n@.len(),
            n@.len() == named_pieces(pieces).len(),
            pieces == split_on(s@.subrange(0, s@.len() as int), '/'),
            pieces_at(s@, n@) == named_pieces(pieces),
            bounds_within(n@, 0, s@.len() as int),
            head.len() <= 1,
            components(p@) == head + named_pieces(pieces),
            r.deep_view() == head + named_pieces(pieces).take(i as int),
        decreases n@.len() - i,
    {
        let (x, y) = n[i];
        assert(0 <= n@[i as int].0 <= n@[i as int].1 <= s@.len());
        let piece = string_from(slice_to_vec(s.as_slice(), x, y).as_slice());
        assert(piece@ == pieces_at(s@, n@)[i as int]);
        let ghost before = r.deep_view();
        let ghost rv = r@;
        let ghost k = i as int;
        r.push(piece);
        assert(r@ == rv.push(piece));
        assert(before.len() == head.len() + k);
        i = i + 1;
        assert(r.deep_view() =~= head + named_pieces(pieces).take(i as int)) by {
            assert forall|j: int| 0 <= j < r@.len() implies #[trigger] r.deep_view()[j] == (head
                + named_pieces(pieces).take(i as int))[j] by {
                if j < before.len() {
                    assert(r@[j] == rv[j]);
                    assert(r.deep_view()[j] == before[j]);
                } else {
                    assert(j == head.len() + k);
                    assert(r@[j] == piece);
                    assert((head + named_pieces(pieces).take(i as int))[j] == named_pieces(pieces)[k]);
                }
            }
        }
    }
    assert(named_pieces(pieces).take(i as int) =~= named_pieces(pieces));
    r
}

/// `Path::starts_with`: whether the components of `base` begin those of `p`.
pub fn path_begins_with(p: &str, base: &str) -> (r: bool)
    ensures
        r == path_starts_with(p@, base@),
{
    let a = path_components(p);
    let b = path_components(base);
    if b.len() > a.len() {
        return false;
    }
    let mut i: usize = 0;
    while i < b.len()
        invariant
            i <= b@.len() <= a@.len(),
            a.deep_view() == components(p@),
            b.deep_view() == components(base@),
            forall|j: int| 0 <= j < i ==> a.deep_view()[j] == b.deep_view()[j],
        decreases b@.len() - i,
    {
        if !str_eq(a[i].as_str(), b[i].as_str()) {
            assert(a.deep_view().take(b@.len() as int)[i as int] != b.deep_view()[i as int]);
            return false;
        }
        i = i + 1;
    }
    assert(a.deep_view().take(b@.len() as int) =~= b.deep_view());
    true
}


/// Every path begins with itself, and with nothing longer than itself.
pub proof fn lemma_path_starts_with_self(p: Seq<char>, q: Seq<char>)
    ensures
        path_starts_with(p, p),
        path_starts_with(p, q) ==> components(q).len() <= components(p).len(),
{
    assert(components(p).take(components(p).len() as int) =~= components(p));
}


// ---------------------------------------------------------------------------
// Paths by platform: Windows rules on Windows, Unix rules elsewhere
// ---------------------------------------------------------------------------

/// Whether a name component under Unix rules: not the root, `.` or `..`.
pub open spec fn u_is_normal(c: Seq<char>) -> bool {
    c.len() > 0 && !c.contains('/') && c != seq!['.'] && c != seq!['.', '.']
}

/// `Path::components` on the platform.
pub open spec fn components_on(pl: Platform, p: Seq<char>) -> Seq<Seq<char>> {
    if pl == Platform::Windows {
        w_components(p)
    } else {
        components(p)
    }
}

/// Whether a component is a name on the platform.
pub open spec fn is_normal_on(pl: Platform, c: Seq<char>) -> bool {
    if pl == Platform::Windows {
        w_is_normal(c)
    } else {
        u_is_normal(c)
    }
}

/// `Path::is_absolute` on the platform.
pub open spec fn is_absolute_on(pl: Platform, p: Seq<char>) -> bool {
    if pl == Platform::Windows {
        w_is_absolute(p)
    } else {
        is_absolute(p)
    }
}

/// `Path::starts_with` on the platform.
pub open spec fn starts_with_on(pl: Platform, p: Seq<char>, base: Seq<char>) -> bool {
    let a = components_on(pl, p);
    let b = components_on(pl, base);
    b.len() <= a.len() && a.take(b.len() as int) == b
}

/// Whether `p` lies inside `base`: its components begin with those of
/// `base`, and every further one is a name (no root, prefix, `.` or `..`).
pub open spec fn inside_on(pl: Platform, p: Seq<char>, base: Seq<char>) -> bool {
    let a = components_on(pl, p);
    let b = components_on(pl, base);
    &&& starts_with_on(pl, p, base)
    &&& forall|i: int| b.len() <= i < a.len() ==> is_normal_on(pl, #[trigger] a[i])
}

/// `PathBuf::join` on the platform.
pub open spec fn join_on(pl: Platform, base: Seq<char>, rel: Seq<char>) -> Seq<char> {
    if pl == Platform::Windows {
        w_join(base, rel)
    } else if is_absolute(rel) {
        rel
    } else {
        join_path(base, rel)
    }
}

/// `Path::file_name` on the platform.
pub open spec fn file_name_on(pl: Platform, p: Seq<char>) -> Option<Seq<char>> {
    if pl == Platform::Windows {
        w_file_name(p)
    } else {
        file_name(p)
    }
}

/// The extension of a file name: what follows its last `.`, unless it has
/// none or its only `.` is the first character.
pub open spec fn name_extension(n: Seq<char>) -> Option<Seq<char>> {
    match last_index_of(n, '.') {
        None => None,
        Some(k) => if k == 0 {
            None
        } else {
            Some(n.skip(k + 1))
        },
    }
}

/// `Path::extension` on the platform.
pub open spec fn extension_on(pl: Platform, p: Seq<char>) -> Option<Seq<char>> {
    match file_name_on(pl, p) {
        None => None,
        Some(n) => name_extension(n),
    }
}

/// `Path::components` on the platform, each component as a string.
pub fn components_in(pl: Platform, p: &str) -> (r: Vec<String>)
    ensures
        r.deep_view() == components_on(pl, p@),
{
    if pl == Platform::Windows {
        win_components(p)
    } else {
        path_components(p)
    }
}

/// `Path::is_absolute` on the platform.
pub fn is_absolute_in(pl: Platform, p: &str) -> (r: bool)
    ensures
        r == is_absolute_on(pl, p@),
{
    if pl == Platform::Windows {
        win_is_absolute(p)
    } else {
        let c = chars_of(p);
        c.len() > 0 && c[0] == '/'
    }
}

/// `Path::starts_with` on the platform.
pub fn begins_with_in(pl: Platform, p: &str, base: &str) -> (r: bool)
    ensures
        r == starts_with_on(pl, p@, base@),
{
    if pl == Platform::Windows {
        win_begins_with(p, base)
    } else {
        path_begins_with(p, base)
    }
}

/// Whether `p` lies inside `base` on the platform.
pub fn lies_inside(pl: Platform, p: &str, base: &str) -> (r: bool)
    ensures
        r == inside_on(pl, p@, base@),
{
    let a = components_in(pl, p);
    let b = components_in(pl, base);
    if !begins_with_in(pl, p, base) {
        return false;
    }
    let mut i: usize = b.len();
    while i < a.len()
        invariant
            b@.len() <= i <= a@.len(),
            a.deep_view() == components_on(pl, p@),
            b.deep_view() == components_on(pl, base@),
            forall|j: int| b@.len() <= j < i ==> is_normal_on(pl, #[trigger] a.deep_view()[j]),
        decreases a@.len() - i,
    {
        if !name_on(pl, &a[i]) {
            assert(a.deep_view()[i as int] == a@[i as int]@);
            assert(!is_normal_on(pl, a.deep_view()[i as int]));
            return false;
        }
        i = i + 1;
    }
    true
}

/// Whether a component is a name on the platform.
fn name_on(pl: Platform, c: &String) -> (r: bool)
    ensures
        r == is_normal_on(pl, c@),
{
    let s = chars_of(c.as_str());
    let bad = if pl == Platform::Windows {
        '\\'
    } else {
        '/'
    };
    assert(bad == (if pl == Platform::Windows {
        '\\'
    } else {
        '/'
    }));
    if s.len() == 0 {
        return false;
    }
    if s.len() == 1 && s[0] == '.' {
        assert(c@ =~= seq!['.']);
        return false;
    }
    if s.len() == 2 && s[0] == '.' && s[1] == '.' {
        assert(c@ =~= seq!['.', '.']);
        return false;
    }
    assert(c@ != seq!['.']) by {
        if c@ == seq!['.'] {
            assert(s@.len() == 1 && s@[0] == '.');
        }
    }
    assert(c@ != seq!['.', '.']) by {
        if c@ == seq!['.', '.'] {
            assert(s@.len() == 2 && s@[0] == '.' && s@[1] == '.');
        }
    }
    let mut i: usize = 0;
    while i < s.len()
        invariant
            i <= s@.len(),
            s@ == c@,
            bad == (if pl == Platform::Windows {
                '\\'
            } else {
                '/'
            }),
            forall|j: int| 0 <= j < i ==> s@[j] != bad,
        decreases s@.len() - i,
    {
        if s[i] == bad {
            assert(c@.contains(bad)) by {
                assert(c@[i as int] == bad);
            }
            return false;
        }
        i = i + 1;
    }
    true
}

/// `PathBuf::join` on the platform.
pub fn join_in(pl: Platform, base: &str, rel: &str) -> (r: String)
    ensures
        r@ == join_on(pl, base@, rel@),
{
    if pl == Platform::Windows {
        win_join(base, rel)
    } else if is_absolute_in(Platform::Linux, rel) {
        owned(rel)
    } else {
        join_paths(base, rel)
    }
}

/// `Path::file_name` on the platform.
pub fn file_name_in(pl: Platform, p: &str) -> (r: Option<String>)
    ensures
        match r {
            Some(n) => file_name_on(pl, p@) == Some(n@),
            None => file_name_on(pl, p@) is None,
        },
{
    if pl == Platform::Windows {
        win_file_name(p)
    } else {
        path_file_name(p)
    }
}

/// `Path::extension` on the platform.
pub fn extension_in(pl: Platform, p: &str) -> (r: Option<String>)
    ensures
        match r {
            Some(e) => extension_on(pl, p@) == Some(e@),
            None => extension_on(pl, p@) is None,
        },
{
    match file_name_in(pl, p) {
        None => None,
        Some(name) => {
            let s = chars_of(name.as_str());
            assert(s@.subrange(0, s@.len() as int) =~= s@);
            match rfind_char(s.as_slice(), 0, s.len(), '.') {
                None => None,
                Some(k) => {
                    proof {
                        lemma_last_index_of(s@.subrange(0, s@.len() as int), '.');
                    }
                    if k == 0 {
                        None
                    } else {
                        Some(string_from(slice_to_vec(s.as_slice(), k + 1, s.len()).as_slice()))
                    }
                },
            }
        },
    }
}

// ---------------------------------------------------------------------------
// The temporary name a file is saved under: `Path::with_extension(p, "tmp")`
// ---------------------------------------------------------------------------

/// Whether `c` separates components on the platform (in a verbatim Windows
/// path only `\` does).
pub open spec fn sep_on(pl: Platform, c: char, verbatim: bool) -> bool {
    if pl == Platform::Windows {
        sep_in(c, verbatim)
    } else {
        c == '/'
    }
}

/// Whether the last character of `p` is trailing matter that no component
/// holds: a separator, or a `.` piece (outside verbatim paths), above `lo`.
pub open spec fn ends_in_junk(pl: Platform, p: Seq<char>, lo: int, verbatim: bool) -> bool {
    p.len() > lo && (sep_on(pl, p.last(), verbatim) || (!verbatim && p.last() == '.' && (p.len()
        == lo + 1 || sep_on(pl, p[p.len() - 2], verbatim))))
}

/// The path without its trailing separators and `.` pieces, never cut
/// below `lo` (the end of its prefix).
pub open spec fn strip_tail(pl: Platform, p: Seq<char>, lo: int, verbatim: bool) -> Seq<char>
    decreases p.len(),
{
    if p.len() > 0 && ends_in_junk(pl, p, lo, verbatim) {
        strip_tail(pl, p.drop_last(), lo, verbatim)
    } else {
        p
    }
}

/// Where the last piece of `q` starts: after its last separator above `lo`.
pub open spec fn piece_start(pl: Platform, q: Seq<char>, lo: int, verbatim: bool) -> int
    decreases q.len(),
{
    if q.len() == 0 || q.len() <= lo {
        lo
    } else if sep_on(pl, q.last(), verbatim) {
        q.len() as int
    } else {
        piece_start(pl, q.drop_last(), lo, verbatim)
    }
}

/// The length of a file name's stem: up to its last `.`, unless it has
/// none or that `.` is its first character.
pub open spec fn stem_len(n: Seq<char>) -> int {
    match last_index_of(n, '.') {
        Some(k) => if k > 0 {
            k
        } else {
            n.len() as int
        },
        None => n.len() as int,
    }
}

/// Where `Path::with_extension(p, "tmp")` cuts the path on the platform:
/// when the path ends in a file name (after its trailing separators and `.`
/// pieces), the text before that name and the name's stem; otherwise
/// `None`.
pub open spec fn tmp_parts_on(pl: Platform, p: Seq<char>) -> Option<(Seq<char>, Seq<char>)> {
    let verbatim = pl == Platform::Windows && is_verbatim_kind(w_prefix(p).0);
    let lo = if pl == Platform::Windows {
        w_prefix(p).1
    } else {
        0
    };
    let q = strip_tail(pl, p, lo, verbatim);
    let k = piece_start(pl, q, lo, verbatim);
    let n = q.skip(k);
    if n.len() == 0 || n == seq!['.'] || n == seq!['.', '.'] {
        None
    } else {
        Some((q.take(k), n.take(stem_len(n))))
    }
}

fn sep_char(pl: Platform, c: char, verbatim: bool) -> (r: bool)
    ensures
        r == sep_on(pl, c, verbatim),
{
    if pl == Platform::Windows {
        c == '\\' || (!verbatim && c == '/')
    } else {
        c == '/'
    }
}

fn junk_at(pl: Platform, s: &[char], lo: usize, e: usize, verbatim: bool) -> (r: bool)
    requires
        lo <= e <= s@.len(),
    ensures
        r == ends_in_junk(pl, s@.take(e as int), lo as int, verbatim),
{
    let ghost t = s@.take(e as int);
    if e <= lo {
        return false;
    }
    assert(t.last() == s@[e - 1]);
    if sep_char(pl, s[e - 1], verbatim) {
        return true;
    }
    if verbatim || s[e - 1] != '.' {
        return false;
    }
    if e == lo + 1 {
        return true;
    }
    assert(t[t.len() - 2] == s@[e - 2]);
    sep_char(pl, s[e - 2], verbatim)
}

/// The end of the path's text once its trailing separators and `.` pieces
/// are dropped.
fn strip_end(pl: Platform, s: &[char], lo: usize, verbatim: bool) -> (e: usize)
    requires
        lo <= s@.len(),
    ensures
        lo <= e <= s@.len(),
        strip_tail(pl, s@, lo as int, verbatim) == s@.take(e as int),
{
    let n = s.len();
    assert(s@.take(n as int) =~= s@);
    let mut e = n;
    while junk_at(pl, s, lo, e, verbatim)
        invariant
            lo <= e <= n == s@.len(),
            strip_tail(pl, s@, lo as int, verbatim) == strip_tail(
                pl,
                s@.take(e as int),
                lo as int,
                verbatim,
            ),
        decreases e,
    {
        assert(s@.take(e as int).drop_last() =~= s@.take(e - 1));
        e = e - 1;
    }
    e
}

/// Where the last piece of `s[..e]` starts.
fn piece_begin(pl: Platform, s: &[char], lo: usize, e: usize, verbatim: bool) -> (k: usize)
    requires
        lo <= e <= s@.len(),
    ensures
        lo <= k <= e,
        piece_start(pl, s@.take(e as int), lo as int, verbatim) == k,
{
    let ghost q = s@.take(e as int);
    assert(q.take(e as int) =~= q);
    let mut k = e;
    while k > lo && !sep_char(pl, s[k - 1], verbatim)
        invariant
            lo <= k <= e <= s@.len(),
            q == s@.take(e as int),
            piece_start(pl, q, lo as int, verbatim) == piece_start(
                pl,
                q.take(k as int),
                lo as int,
                verbatim,
            ),
        decreases k,
    {
        assert(q.take(k as int).drop_last() =~= q.take(k - 1));
        assert(q.take(k as int).last() == s@[k - 1]);
        k = k - 1;
    }
    proof {
        if k > lo {
            assert(q.take(k as int).last() == s@[k - 1]);
        }
    }
    k
}

/// The stem length of the name `s[k..e]`.
fn stem_of(s: &[char], k: usize, e: usize) -> (r: usize)
    requires
        k <= e <= s@.len(),
    ensures
        r as int == stem_len(s@.subrange(k as int, e as int)),
        r <= e - k,
{
    let len = e - k;
    proof {
        lemma_last_index_of(s@.subrange(k as int, e as int), '.');
    }
    match rfind_char(s, k, e, '.') {
        Some(j) => if j > 0 {
            j
        } else {
            len
        },
        None => len,
    }
}

/// Where `Path::with_extension(p, "tmp")` cuts the path on the platform:
/// the text before the file name and the name's stem.
pub fn tmp_parts_in(pl: Platform, p: &str) -> (r: Option<(String, String)>)
    ensures
        match r {
            Some((dir, stem)) => tmp_parts_on(pl, p@) == Some((dir@, stem@)),
            None => tmp_parts_on(pl, p@) is None,
        },
{
    let s = chars_of(p);
    let (lo, verbatim) = if pl == Platform::Windows {
        let (kind, plen, _key) = prefix_of(s.as_slice());
        (plen, 1 <= kind && kind <= 3)
    } else {
        (0, false)
    };
    assert(s@ == p@);
    assert(verbatim == (pl == Platform::Windows && is_verbatim_kind(w_prefix(p@).0)));
    assert(lo as int == (if pl == Platform::Windows {
        w_prefix(p@).1
    } else {
        0
    }));
    let e = strip_end(pl, s.as_slice(), lo, verbatim);
    let k = piece_begin(pl, s.as_slice(), lo, e, verbatim);
    let ghost q = s@.take(e as int);
    let ghost name = q.skip(k as int);
    assert(name =~= s@.subrange(k as int, e as int));
    let len = e - k;
    if len == 0 {
        return None;
    }
    if len == 1 && s[k] == '.' {
        assert(name =~= seq!['.']);
        return None;
    }
    if len == 2 && s[k] == '.' && s[k + 1] == '.' {
        assert(name =~= seq!['.', '.']);
        return None;
    }
    assert(name != seq!['.']) by {
        if name == seq!['.'] {
            assert(name[0] == s@[k as int]);
        }
    }
    assert(name != seq!['.', '.']) by {
        if name == seq!['.', '.'] {
            assert(name[0] == s@[k as int]);
            assert(name[1] == s@[k + 1]);
        }
    }
    let stem = stem_of(s.as_slice(), k, e);
    let dir = string_from(slice_to_vec(s.as_slice(), 0, k).as_slice());
    let st = string_from(slice_to_vec(s.as_slice(), k, k + stem).as_slice());
    assert(dir@ =~= q.take(k as int));
    assert(st@ =~= name.take(stem as int));
    Some((dir, st))
}

} // verus!
