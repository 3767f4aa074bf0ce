//! Paths under the rules of `std::path` on Windows: `\` and `/` separate
//! components (only `\` inside verbatim `\\?\` paths), a path may begin with
//! a prefix (`C:`, `\\server\share`, `\\?\C:`, `\\?\UNC\server\share`,
//! `\\?\name`, `\\.\name`), and a path is absolute when it has both a
//! prefix and a root.
//!
//! Components are written as character sequences: a prefix as `\\`, a kind
//! letter and its parsed parts (drive letters in capitals), the root as `\`,
//! the current directory as `.`, the parent as `..`, and a name as itself
//! (a name never holds `\`, so it cannot be taken for a prefix or the root).

use vstd::prelude::*;
use crate::text::{
    chars_of, concat, owned, pieces_at, slice_to_vec, split_bounds, split_on, str_eq, string_from,
};

verus! {

/// A separator outside verbatim paths.
pub open spec fn is_wsep(c: char) -> bool {
    c == '\\' || c == '/'
}

/// A separator in a path that is verbatim or not.
pub open spec fn sep_in(c: char, verbatim: bool) -> bool {
    c == '\\' || (!verbatim && c == '/')
}

/// An ASCII letter, which may name a drive.
pub open spec fn is_drive_letter(c: char) -> bool {
    ('a' <= c && c <= 'z') || ('A' <= c && c <= 'Z')
}

/// The capital of an ASCII letter.
pub open spec fn upper_letter(c: char) -> char {
    if 'a' <= c && c <= 'z' {
        ((c as u32) - 32) as char
    } else {
        c
    }
}

/// The first separator at or after `i`, or the length.
pub open spec fn next_sep(s: Seq<char>, i: int, verbatim: bool) -> int
    decreases s.len() - i,
{
    if i >= s.len() {
        s.len() as int
    } else if sep_in(s[i], verbatim) {
        i
    } else {
        next_sep(s, i + 1, verbatim)
    }
}

/// The root component.
pub open spec fn root_key() -> Seq<char> {
    seq!['\\']
}

/// A prefix component: `\\`, the kind letter, the parsed parts.
pub open spec fn prefix_key(tag: char, parts: Seq<char>) -> Seq<char> {
    seq!['\\', '\\', tag] + parts
}

/// The kind of a prefix: 0 none, 1 verbatim, 2 verbatim UNC, 3 verbatim
/// disk, 4 device namespace, 5 UNC, 6 disk.
pub open spec fn is_verbatim_kind(kind: int) -> bool {
    1 <= kind <= 3
}

/// The prefix of a path as its kind, its length in characters and its
/// component, as `std::path` parses it on Windows.
pub open spec fn w_prefix(p: Seq<char>) -> (int, int, Seq<char>) {
    if p.len() >= 2 && is_wsep(p[0]) && is_wsep(p[1]) {
        if p.len() >= 4 && p[0] == '\\' && p[1] == '\\' && p[2] == '?' && p[3] == '\\' {
            if p.len() >= 8 && p[4] == 'U' && p[5] == 'N' && p[6] == 'C' && is_wsep(p[7]) {
                let e1 = next_sep(p, 8, true);
                let e2 = if e1 < p.len() {
                    next_sep(p, e1 + 1, true)
                } else {
                    e1
                };
                let share = if e1 < p.len() {
                    p.subrange(e1 + 1, e2)
                } else {
                    Seq::<char>::empty()
                };
                (
                    2,
                    if share.len() > 0 {
                        e2
                    } else {
                        e1
                    },
                    prefix_key('W', p.subrange(8, e1) + seq!['\\'] + share),
                )
            } else if p.len() >= 6 && is_drive_letter(p[4]) && p[5] == ':' && (p.len() == 6 || p[6]
                == '\\') {
                (3, 6, prefix_key('E', seq![upper_letter(p[4])]))
            } else {
                let e = next_sep(p, 4, true);
                (1, e, prefix_key('V', p.subrange(4, e)))
            }
        } else if p.len() >= 4 && p[2] == '.' && is_wsep(p[3]) {
            let e = next_sep(p, 4, false);
            (4, e, prefix_key('N', p.subrange(4, e)))
        } else {
            let e1 = next_sep(p, 2, false);
            if e1 < p.len() && e1 > 2 {
                let e2 = next_sep(p, e1 + 1, false);
                if e2 > e1 + 1 {
                    (5, e2, prefix_key('U', p.subrange(2, e1) + seq!['\\'] + p.subrange(e1 + 1, e2)))
                } else {
                    (0, 0, Seq::<char>::empty())
                }
            } else {
                (0, 0, Seq::<char>::empty())
            }
        }
    } else if p.len() >= 2 && is_drive_letter(p[0]) && p[1] == ':' {
        (6, 2, prefix_key('D', seq![upper_letter(p[0])]))
    } else {
        (0, 0, Seq::<char>::empty())
    }
}

/// Text with `/` made `\`.
pub open spec fn unify_seps(s: Seq<char>) -> Seq<char> {
    s.map_values(|c: char| if c == '/' { '\\' } else { c })
}

/// Whether a piece between separators is a component: not empty, and not
/// `.` outside verbatim paths.
pub open spec fn keep_piece(x: Seq<char>, verbatim: bool) -> bool {
    x.len() > 0 && (verbatim || x != seq!['.'])
}

/// The pieces that are components, in order.
pub open spec fn kept_pieces(pieces: Seq<Seq<char>>, verbatim: bool) -> Seq<Seq<char>>
    decreases pieces.len(),
{
    if pieces.len() == 0 {
        seq![]
    } else {
        let r = kept_pieces(pieces.drop_last(), verbatim);
        if keep_piece(pieces.last(), verbatim) {
            r.push(pieces.last())
        } else {
            r
        }
    }
}

/// The pieces of the text after the prefix and the start.
pub open spec fn body_pieces(body: Seq<char>, verbatim: bool) -> Seq<Seq<char>> {
    split_on(
        if verbatim {
            body
        } else {
            unify_seps(body)
        },
        '\\',
    )
}

/// Whether the text after the prefix starts with a separator.
pub open spec fn w_physical_root(p: Seq<char>) -> bool {
    let rest = p.skip(w_prefix(p).1);
    rest.len() > 0 && is_wsep(rest[0])
}

/// Whether the path has a root, written or implied by its prefix.
pub open spec fn w_has_root(p: Seq<char>) -> bool {
    let kind = w_prefix(p).0;
    w_physical_root(p) || (kind != 0 && kind != 6)
}

/// `Path::is_absolute` on Windows: a prefix and a root.
pub open spec fn w_is_absolute(p: Seq<char>) -> bool {
    w_prefix(p).0 != 0 && w_has_root(p)
}

/// `Path::components` on Windows.
pub open spec fn w_components(p: Seq<char>) -> Seq<Seq<char>> {
    let (kind, plen, key) = w_prefix(p);
    let verbatim = is_verbatim_kind(kind);
    let rest = p.skip(plen);
    let phys = rest.len() > 0 && is_wsep(rest[0]);
    let cur = (kind == 0 || kind == 6) && !phys && rest.len() > 0 && rest[0] == '.' && (rest.len() == 1 || sep_in(
        rest[1],
        verbatim,
    ));
    let pre = if kind != 0 {
        seq![key]
    } else {
        Seq::<Seq<char>>::empty()
    };
    let start = if phys {
        seq![root_key()]
    } else if kind != 0 && kind != 6 && !verbatim {
        seq![root_key()]
    } else if cur {
        seq![seq!['.']]
    } else {
        Seq::<Seq<char>>::empty()
    };
    let body = if phys || cur {
        rest.skip(1)
    } else {
        rest
    };
    pre + start + kept_pieces(body_pieces(body, verbatim), verbatim)
}

/// A name component: not a prefix, the root, `.` or `..`.
pub open spec fn w_is_normal(c: Seq<char>) -> bool {
    c.len() > 0 && !c.contains('\\') && c != seq!['.'] && c != seq!['.', '.']
}

/// `Path::starts_with` on Windows.
pub open spec fn w_starts_with(p: Seq<char>, base: Seq<char>) -> bool {
    let a = w_components(p);
    let b = w_components(base);
    b.len() <= a.len() && a.take(b.len() as int) == b
}

/// `Path::file_name` on Windows: the last component when it is a name.
pub open spec fn w_file_name(p: Seq<char>) -> Option<Seq<char>> {
    let c = w_components(p);
    if c.len() > 0 && w_is_normal(c.last()) {
        Some(c.last())
    } else {
        None
    }
}

/// Whether `PathBuf::push` puts a separator after `base`: it does not end
/// with one and is not just a drive (`C:`).
pub open spec fn w_need_sep(base: Seq<char>) -> bool {
    let (kind, plen, _) = w_prefix(base);
    base.len() > 0 && !is_wsep(base.last()) && !(kind == 6 && plen == base.len())
}

/// One component of a relative path pushed onto a verbatim path's
/// components: the root cuts back to the prefix, `.` is dropped, `..` drops
/// a last name.
pub open spec fn w_step(buf: Seq<Seq<char>>, c: Seq<char>) -> Seq<Seq<char>> {
    if c == root_key() {
        seq![root_key()]
    } else if c == seq!['.'] {
        buf
    } else if c == seq!['.', '.'] {
        if buf.len() > 0 && w_is_normal(buf.last()) {
            buf.drop_last()
        } else {
            buf
        }
    } else {
        buf.push(c)
    }
}

/// The components pushed one by one.
pub open spec fn w_fold(buf: Seq<Seq<char>>, comps: Seq<Seq<char>>) -> Seq<Seq<char>>
    decreases comps.len(),
{
    if comps.len() == 0 {
        buf
    } else {
        w_fold(w_step(buf, comps[0]), comps.drop_first())
    }
}

/// Components written out with `\` between them (none after the root).
pub open spec fn w_render(comps: Seq<Seq<char>>, need: bool) -> Seq<char>
    decreases comps.len(),
{
    if comps.len() == 0 {
        seq![]
    } else {
        (if need && comps[0] != root_key() {
            seq!['\\']
        } else {
            Seq::<char>::empty()
        }) + comps[0] + w_render(comps.drop_first(), comps[0] != root_key())
    }
}

/// `PathBuf::join` on Windows: an absolute path, or one with a prefix,
/// replaces the base; onto a verbatim base the components are pushed one
/// by one; a path with a root keeps only the base's prefix; otherwise the
/// two are joined with `\` where needed.
pub open spec fn w_join(base: Seq<char>, rel: Seq<char>) -> Seq<char> {
    let (bk, bl, _) = w_prefix(base);
    if w_is_absolute(rel) || w_prefix(rel).0 != 0 {
        rel
    } else if is_verbatim_kind(bk) && rel.len() > 0 {
        base.take(bl) + w_render(w_fold(w_components(base).drop_first(), w_components(rel)), true)
    } else if w_has_root(rel) {
        base.take(bl) + rel
    } else if w_need_sep(base) {
        base + seq!['\\'] + rel
    } else {
        base + rel
    }
}

// ---------------------------------------------------------------------------
// Executable forms
// ---------------------------------------------------------------------------

fn next_sep_at(s: &[char], i: usize, verbatim: bool) -> (r: usize)
    requires
        i <= s@.len(),
    ensures
        r as int == next_sep(s@, i as int, verbatim),
        i <= r <= s@.len(),
{
    let mut k = i;
    while k < s.len() && !(s[k] == '\\' || (!verbatim && s[k] == '/'))
        invariant
            i <= k <= s@.len(),
            next_sep(s@, i as int, verbatim) == next_sep(s@, k as int, verbatim),
        decreases s@.len() - k,
    {
        k = k + 1;
    }
    k
}

fn is_letter(c: char) -> (r: bool)
    ensures
        r == is_drive_letter(c),
{
    ('a' <= c && c <= 'z') || ('A' <= c && c <= 'Z')
}

fn upper(c: char) -> (r: char)
    ensures
        r == upper_letter(c),
{
    if 'a' <= c && c <= 'z' {
        match c {
            'a' => 'A',
            'b' => 'B',
            'c' => 'C',
            'd' => 'D',
            'e' => 'E',
            'f' => 'F',
            'g' => 'G',
            'h' => 'H',
            'i' => 'I',
            'j' => 'J',
            'k' => 'K',
            'l' => 'L',
            'm' => 'M',
            'n' => 'N',
            'o' => 'O',
            'p' => 'P',
            'q' => 'Q',
            'r' => 'R',
            's' => 'S',
            't' => 'T',
            'u' => 'U',
            'v' => 'V',
            'w' => 'W',
            'x' => 'X',
            'y' => 'Y',
            _ => 'Z',
        }
    } else {
        c
    }
}

fn key_of(tag: char, parts: Vec<char>) -> (r: Vec<char>)
    ensures
        r@ == prefix_key(tag, parts@),
{
    let mut k: Vec<char> = Vec::new();
    k.push('\\');
    k.push('\\');
    k.push(tag);
    let mut i: usize = 0;
    while i < parts.len()
        invariant
            i <= parts@.len(),
            k@ == seq!['\\', '\\', tag] + parts@.take(i as int),
        decreases parts@.len() - i,
    {
        k.push(parts[i]);
        i = i + 1;
        assert(k@ =~= seq!['\\', '\\', tag] + parts@.take(i as int));
    }
    assert(parts@.take(parts@.len() as int) =~= parts@);
    k
}

fn two_parts(s: &[char], a: usize, b: usize, c: usize, d: usize) -> (r: Vec<char>)
    requires
        a <= b <= s@.len(),
        c <= d <= s@.len(),
    ensures
        r@ == s@.subrange(a as int, b as int) + seq!['\\'] + s@.subrange(c as int, d as int),
{
    let mut v = slice_to_vec(s, a, b);
    v.push('\\');
    let w = slice_to_vec(s, c, d);
    let ghost before = v@;
    let mut i: usize = 0;
    while i < w.len()
        invariant
            i <= w@.len(),
            v@ == before + w@.take(i as int),
        decreases w@.len() - i,
    {
        v.push(w[i]);
        i = i + 1;
        assert(v@ =~= before + w@.take(i as int));
    }
    assert(w@.take(w@.len() as int) =~= w@);
    v
}

/// The prefix of a path: its kind, length and component.
pub(crate) fn prefix_of(p: &[char]) -> (r: (u8, usize, Vec<char>))
    ensures
        w_prefix(p@) == (r.0 as int, r.1 as int, r.2@),
        r.1 <= p@.len(),
{
    let n = p.len();
    if n >= 2 && (p[0] == '\\' || p[0] == '/') && (p[1] == '\\' || p[1] == '/') {
        if n >= 4 && p[0] == '\\' && p[1] == '\\' && p[2] == '?' && p[3] == '\\' {
            if n >= 8 && p[4] == 'U' && p[5] == 'N' && p[6] == 'C' && (p[7] == '\\' || p[7] == '/') {
                let e1 = next_sep_at(p, 8, true);
                let e2 = if e1 < n {
                    next_sep_at(p, e1 + 1, true)
                } else {
                    e1
                };
                let (s0, s1) = if e1 < n {
                    (e1 + 1, e2)
                } else {
                    (e1, e1)
                };
                assert(e1 < n ==> s0 == e1 + 1 && s1 == e2);
                let parts = two_parts(p, 8, e1, s0, s1);
                proof {
                    if e1 >= n {
                        assert(p@.subrange(s0 as int, s1 as int) =~= Seq::<char>::empty());
                    }
                }
                let len = if s1 > s0 {
                    e2
                } else {
                    e1
                };
                (2, len, key_of('W', parts))
            } else if n >= 6 && is_letter(p[4]) && p[5] == ':' && (n == 6 || p[6] == '\\') {
                let mut v: Vec<char> = Vec::new();
                v.push(upper(p[4]));
                assert(v@ =~= seq![upper_letter(p@[4])]);
                (3, 6, key_of('E', v))
            } else {
                let e = next_sep_at(p, 4, true);
                (1, e, key_of('V', slice_to_vec(p, 4, e)))
            }
        } else if n >= 4 && p[2] == '.' && (p[3] == '\\' || p[3] == '/') {
            let e = next_sep_at(p, 4, false);
            (4, e, key_of('N', slice_to_vec(p, 4, e)))
        } else {
            let e1 = next_sep_at(p, 2, false);
            if e1 < n && e1 > 2 {
                let e2 = next_sep_at(p, e1 + 1, false);
                if e2 > e1 + 1 {
                    (5, e2, key_of('U', two_parts(p, 2, e1, e1 + 1, e2)))
                } else {
                    (0, 0, Vec::new())
                }
            } else {
                (0, 0, Vec::new())
            }
        }
    } else if n >= 2 && is_letter(p[0]) && p[1] == ':' {
        let mut v: Vec<char> = Vec::new();
        v.push(upper(p[0]));
        assert(v@ =~= seq![upper_letter(p@[0])]);
        (6, 2, key_of('D', v))
    } else {
        (0, 0, Vec::new())
    }
}

/// The pieces of `body` that are components, as strings.
fn kept_piece_strings(body: &[char], verbatim: bool) -> (r: Vec<String>)
    ensures
        r.deep_view() == kept_pieces(body_pieces(body@, verbatim), verbatim),
{
    let mut u: Vec<char> = Vec::new();
    let mut j: usize = 0;
    while j < body.len()
        invariant
            j <= body@.len(),
            u@ == (if verbatim {
                body@
            } else {
                unify_seps(body@)
            }).take(j as int),
        decreases body@.len() - j,
    {
        let c = body[j];
        if !verbatim && c == '/' {
            u.push('\\');
        } else {
            u.push(c);
        }
        j = j + 1;
        assert(u@ =~= (if verbatim {
            body@
        } else {
            unify_seps(body@)
        }).take(j as int));
    }
    let ghost whole = if verbatim {
        body@
    } else {
        unify_seps(body@)
    };
    assert(whole.take(body@.len() as int) =~= whole);
    assert(u@ == whole);
    let b = split_bounds(u.as_slice(), 0, u.len(), '\\');
    assert(u@.subrange(0, u@.len() as int) =~= u@);
    let ghost pieces = split_on(u@, '\\');
    assert(pieces == body_pieces(body@, verbatim));
    let mut r: Vec<String> = Vec::new();
    let mut i: usize = 0;
    while i < b.len()
        invariant
            i <= b@.len(),
            b@.len() == pieces.len(),
            pieces_at(u@, b@) == pieces,
            crate::text::bounds_within(b@, 0, u@.len() as int),
            r.deep_view() == kept_pieces(pieces.take(i as int), verbatim),
        decreases b@.len() - i,
    {
        let (x, y) = b[i];
        assert(0 <= b@[i as int].0 <= b@[i as int].1 <= u@.len());
        let ghost piece = pieces[i as int];
        assert(piece == u@.subrange(x as int, y as int));
        assert(pieces.take(i + 1).drop_last() =~= pieces.take(i as int));
        assert(pieces.take(i + 1).last() == piece);
        let keep = y > x && (verbatim || !(y - x == 1 && u[x] == '.'));
        assert(keep == keep_piece(piece, verbatim)) by {
            if y - x == 1 {
                assert(piece[0] == u@[x as int]);
                if u@[x as int] == '.' {
                    assert(piece =~= seq!['.']);
                }
            } else if y > x {
                assert(piece.len() != 1);
            }
        }
        let ghost before = r.deep_view();
        if keep {
            let ghost rv = r@;
            let st = string_from(slice_to_vec(u.as_slice(), x, y).as_slice());
            r.push(st);
            assert(r.deep_view() =~= before.push(piece)) by {
                assert forall|k: int| 0 <= k < r@.len() implies #[trigger] r.deep_view()[k] == before.push(
                    piece,
                )[k] by {
                    if k < rv.len() {
                        assert(r@[k] == rv[k]);
                    }
                }
            }
        }
        i = i + 1;
    }
    assert(pieces.take(b@.len() as int) =~= pieces);
    r
}

fn push_all(r: &mut Vec<String>, more: Vec<String>)
    ensures
        final(r).deep_view() == old(r).deep_view() + more.deep_view(),
{
    let ghost start = r.deep_view();
    let mut i: usize = 0;
    while i < more.len()
        invariant
            i <= more@.len(),
            r@.len() == start.len() + i,
            r.deep_view() == start + more.deep_view().take(i as int),
        decreases more@.len() - i,
    {
        let ghost rv = r@;
        let ghost before = r.deep_view();
        let item = more[i].clone();
        assert(item@ == more.deep_view()[i as int]);
        r.push(item);
        assert(r@ == rv.push(item));
        i = i + 1;
        assert(r.deep_view() =~= start + more.deep_view().take(i as int)) by {
            assert forall|k: int| 0 <= k < r@.len() implies #[trigger] r.deep_view()[k] == (start
                + more.deep_view().take(i as int))[k] by {
                if k < rv.len() {
                    assert(r@[k] == rv[k]);
                    assert(before[k] == (start + more.deep_view().take(i - 1))[k]);
                    if k >= start.len() {
                        assert(more.deep_view().take(i - 1)[k - start.len()] == more.deep_view()[k
                            - start.len()]);
                    }
                } else {
                    assert(r@[k] == item);
                }
            }
        }
    }
    assert(more.deep_view().take(more@.len() as int) =~= more.deep_view());
}

/// `Path::components` on Windows, each component as a string.
pub fn win_components(p: &str) -> (r: Vec<String>)
    ensures
        r.deep_view() == w_components(p@),
{
    let s = chars_of(p);
    let (kind, plen, key) = prefix_of(s.as_slice());
    let verbatim = 1 <= kind && kind <= 3;
    let n = s.len();
    let ghost rest = s@.skip(plen as int);
    let phys = plen < n && (s[plen] == '\\' || s[plen] == '/');
    assert(phys == (rest.len() > 0 && is_wsep(rest[0])));
    let cur = (kind == 0 || kind == 6) && !phys && plen < n && s[plen] == '.' && (plen + 1 == n || s[plen + 1]
        == '\\' || (!verbatim && s[plen + 1] == '/'));
    assert(cur == ((kind == 0 || kind == 6) && !phys && rest.len() > 0 && rest[0] == '.' && (rest.len() == 1
        || sep_in(rest[1], verbatim))));
    let mut r: Vec<String> = Vec::new();
    if kind != 0 {
        r.push(string_from(key.as_slice()));
    }
    if phys || (kind != 0 && kind != 6 && !verbatim) {
        let mut m = String::new();
        m.push('\\');
        assert(m@ =~= root_key());
        r.push(m);
    } else if cur {
        let mut m = String::new();
        m.push('.');
        assert(m@ =~= seq!['.']);
        r.push(m);
    }
    let ghost head = r.deep_view();
    let from = if phys || cur {
        plen + 1
    } else {
        plen
    };
    let body = slice_to_vec(s.as_slice(), from, n);
    let ghost w = w_prefix(p@);
    assert(s@ == p@);
    assert(body@ =~= (if phys || cur {
        rest.skip(1)
    } else {
        rest
    }));
    let more = kept_piece_strings(body.as_slice(), verbatim);
    push_all(&mut r, more);
    assert(head =~= (if kind != 0 {
        seq![w.2]
    } else {
        Seq::<Seq<char>>::empty()
    }) + (if phys {
        seq![root_key()]
    } else if kind != 0 && kind != 6 && !verbatim {
        seq![root_key()]
    } else if cur {
        seq![seq!['.']]
    } else {
        Seq::<Seq<char>>::empty()
    }));
    r
}

/// `Path::is_absolute` on Windows.
pub fn win_is_absolute(p: &str) -> (r: bool)
    ensures
        r == w_is_absolute(p@),
{
    let s = chars_of(p);
    let (kind, plen, _key) = prefix_of(s.as_slice());
    let phys = plen < s.len() && (s[plen] == '\\' || s[plen] == '/');
    assert(s@ == p@);
    kind != 0 && (phys || kind != 6)
}

/// Whether two component lists begin alike: the second a prefix of the first.
fn components_begin_with(a: &Vec<String>, b: &Vec<String>) -> (r: bool)
    ensures
        r == (b@.len() <= a@.len() && a.deep_view().take(b@.len() as int) == b.deep_view()),
{
    if b.len() > a.len() {
        return false;
    }
    let mut i: usize = 0;
    while i < b.len()
        invariant
            i <= b@.len() <= a@.len(),
            forall|j: int| 0 <= j < i ==> a.deep_view()[j] == b.deep_view()[j],
        decreases b@.len() - i,
    {
        if !str_eq(a[i].as_str(), b[i].as_str()) {
            assert(a.deep_view().take(b@.len() as int)[i as int] != b.deep_view()[i as int]);
            return false;
        }
        i = i + 1;
    }
    assert(a.deep_view().take(b@.len() as int) =~= b.deep_view());
    true
}

/// `Path::starts_with` on Windows.
pub fn win_begins_with(p: &str, base: &str) -> (r: bool)
    ensures
        r == w_starts_with(p@, base@),
{
    let a = win_components(p);
    let b = win_components(base);
    components_begin_with(&a, &b)
}

/// Whether a component is a name.
fn is_name(c: &String) -> (r: bool)
    ensures
        r == w_is_normal(c@),
{
    let s = chars_of(c.as_str());
    if s.len() == 0 {
        return false;
    }
    if s.len() == 1 && s[0] == '.' {
        assert(c@ =~= seq!['.']);
        return false;
    }
    if s.len() == 2 && s[0] == '.' && s[1] == '.' {
        assert(c@ =~= seq!['.', '.']);
        return false;
    }
    assert(c@ != seq!['.']) by {
        if c@ == seq!['.'] {
            assert(s@.len() == 1 && s@[0] == '.');
        }
    }
    assert(c@ != seq!['.', '.']) by {
        if c@ == seq!['.', '.'] {
            assert(s@.len() == 2 && s@[0] == '.' && s@[1] == '.');
        }
    }
    let mut i: usize = 0;
    while i < s.len()
        invariant
            i <= s@.len(),
            s@ == c@,
            forall|j: int| 0 <= j < i ==> s@[j] != '\\',
        decreases s@.len() - i,
    {
        if s[i] == '\\' {
            assert(c@.contains('\\')) by {
                assert(c@[i as int] == '\\');
            }
            return false;
        }
        i = i + 1;
    }
    true
}

/// `Path::file_name` on Windows.
pub fn win_file_name(p: &str) -> (r: Option<String>)
    ensures
        match r {
            Some(n) => w_file_name(p@) == Some(n@),
            None => w_file_name(p@) is None,
        },
{
    let c = win_components(p);
    if c.len() == 0 {
        return None;
    }
    let last = c[c.len() - 1].clone();
    assert(c.deep_view().last() == last@);
    if is_name(&last) {
        Some(last)
    } else {
        None
    }
}


fn fold_step(buf: &mut Vec<String>, c: &String)
    ensures
        final(buf).deep_view() == w_step(old(buf).deep_view(), c@),
{
    let ghost b0 = buf.deep_view();
    proof {
        reveal_strlit("\\");
        reveal_strlit(".");
        reveal_strlit("..");
        assert("\\"@ =~= root_key());
        assert("."@ =~= seq!['.']);
        assert(".."@ =~= seq!['.', '.']);
    }
    if str_eq(c.as_str(), "\\") {
        assert(c@ == root_key()) by {
            reveal_strlit("\\");
            assert("\\"@ =~= root_key());
        }
        buf.clear();
        let mut m = String::new();
        m.push('\\');
        assert(m@ =~= root_key());
        buf.push(m);
        assert(buf.deep_view() =~= seq![root_key()]);
    } else if str_eq(c.as_str(), ".") {
        assert(c@ == seq!['.']) by {
            reveal_strlit(".");
            assert("."@ =~= seq!['.']);
        }
    } else if str_eq(c.as_str(), "..") {
        assert(c@ == seq!['.', '.']) by {
            reveal_strlit("..");
            assert(".."@ =~= seq!['.', '.']);
        }
        assert(c@ != root_key() && c@ != seq!['.']);
        if buf.len() > 0 && is_name(&buf[buf.len() - 1]) {
            assert(buf.deep_view().last() == buf@[buf@.len() - 1]@);
            let ghost bv = buf@;
            let _x = buf.pop();
            assert(buf.deep_view() =~= b0.drop_last()) by {
                assert forall|k: int| 0 <= k < buf@.len() implies #[trigger] buf.deep_view()[k]
                    == b0.drop_last()[k] by {
                    assert(buf@[k] == bv[k]);
                }
            }
        } else {
            assert(b0.len() > 0 ==> b0.last() == buf@[buf@.len() - 1]@);
        }
    } else {
        proof {
            reveal_strlit("\\");
            reveal_strlit(".");
            reveal_strlit("..");
            assert("\\"@ =~= root_key());
            assert("."@ =~= seq!['.']);
            assert(".."@ =~= seq!['.', '.']);
        }
        let ghost bv = buf@;
        let item = c.clone();
        buf.push(item);
        assert(buf.deep_view() =~= b0.push(c@)) by {
            assert forall|k: int| 0 <= k < buf@.len() implies #[trigger] buf.deep_view()[k]
                == b0.push(c@)[k] by {
                if k < bv.len() {
                    assert(buf@[k] == bv[k]);
                }
            }
        }
    }
}

fn render_into(out: String, comps: &Vec<String>, need: bool) -> (r: String)
    ensures
        r@ == out@ + w_render(comps.deep_view(), need),
{
    let ghost cv = comps.deep_view();
    let ghost out0 = out@;
    let mut out = out;
    let mut flag = need;
    let mut i: usize = 0;
    assert(cv.skip(0) =~= cv);
    while i < comps.len()
        invariant
            i <= comps@.len(),
            cv == comps.deep_view(),
            out@ + w_render(cv.skip(i as int), flag) == out0 + w_render(cv, need),
        decreases comps@.len() - i,
    {
        let ghost rest = cv.skip(i as int);
        assert(rest[0] == comps@[i as int]@);
        assert(rest.drop_first() =~= cv.skip(i + 1));
        let is_root = str_eq(comps[i].as_str(), "\\");
        assert(is_root == (rest[0] == root_key())) by {
            reveal_strlit("\\");
            assert("\\"@ =~= root_key());
        }
        let ghost o1 = out@;
        if flag && !is_root {
            out.push('\\');
        }
        out = concat(out.as_str(), comps[i].as_str());
        assert(out@ + w_render(cv.skip(i + 1), !is_root) =~= o1 + w_render(rest, flag));
        flag = !is_root;
        i = i + 1;
    }
    assert(cv.skip(i as int) =~= Seq::<Seq<char>>::empty());
    assert(out@ =~= out0 + w_render(cv, need));
    out
}

/// `PathBuf::join` on Windows.
pub fn win_join(base: &str, rel: &str) -> (r: String)
    ensures
        r@ == w_join(base@, rel@),
{
    let b = chars_of(base);
    let (bk, bl, _bkey) = prefix_of(b.as_slice());
    let rc = chars_of(rel);
    let (rk, rl, _rkey) = prefix_of(rc.as_slice());
    assert(b@ == base@ && rc@ == rel@);
    if win_is_absolute(rel) || rk != 0 {
        return owned(rel);
    }
    let head = string_from(slice_to_vec(b.as_slice(), 0, bl).as_slice());
    assert(head@ =~= base@.take(bl as int));
    if 1 <= bk && bk <= 3 && rc.len() > 0 {
        let mut buf = win_components(base);
        assert(buf.deep_view().len() > 0);
        let ghost bfull = buf.deep_view();
        let ghost bv = buf@;
        let _p = buf.remove(0);
        assert(buf.deep_view() =~= bfull.drop_first()) by {
            assert forall|k: int| 0 <= k < buf@.len() implies #[trigger] buf.deep_view()[k]
                == bfull.drop_first()[k] by {
                assert(buf@[k] == bv[k + 1]);
            }
        }
        let rcomps = win_components(rel);
        let ghost rv = rcomps.deep_view();
        let ghost buf0 = buf.deep_view();
        let mut i: usize = 0;
        assert(rv.skip(0) =~= rv);
        while i < rcomps.len()
            invariant
                i <= rcomps@.len(),
                rv == rcomps.deep_view(),
                w_fold(buf0, rv) == w_fold(buf.deep_view(), rv.skip(i as int)),
            decreases rcomps@.len() - i,
        {
            assert(rv.skip(i as int)[0] == rcomps@[i as int]@);
            assert(rv.skip(i as int).drop_first() =~= rv.skip(i + 1));
            fold_step(&mut buf, &rcomps[i]);
            i = i + 1;
        }
        assert(rv.skip(i as int) =~= Seq::<Seq<char>>::empty());
        let r = render_into(head, &buf, true);
        return r;
    }
    let rel_root = rc.len() > 0 && (rc[0] == '\\' || rc[0] == '/');
    assert(rk == 0 ==> rl == 0);
    if rel_root {
        return concat(head.as_str(), rel);
    }
    let need = b.len() > 0 && !(b[b.len() - 1] == '\\' || b[b.len() - 1] == '/') && !(bk == 6 && bl
        == b.len());
    if need {
        let mut x = owned(base);
        x.push('\\');
        let r = concat(x.as_str(), rel);
        assert(r@ =~= base@ + seq!['\\'] + rel@);
        r
    } else {
        concat(base, rel)
    }
}

} // verus!
