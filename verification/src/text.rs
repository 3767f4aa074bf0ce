//! Character-sequence helpers shared by the services: whitespace trimming,
//! line and field splitting, prefix and search tests, decimal parsing.

use vstd::prelude::*;

verus! {

/// `String::push` appends one character to the end of the string.
pub assume_specification[ String::push ](s: &mut String, ch: char)
    ensures
        final(s)@ == old(s)@.push(ch),
;

/// The lowercase form of a string as `str::to_lowercase` computes it
/// (Unicode lowercase mapping, context-dependent for final sigma).
pub uninterp spec fn lowercase_of(s: Seq<char>) -> Seq<char>;

/// A character below 128.
pub open spec fn is_ascii_char(c: char) -> bool {
    (c as u32) < 128
}

/// The ASCII lowercase of a character: `A`-`Z` become `a`-`z`.
pub open spec fn ascii_lower(c: char) -> char {
    if 'A' <= c && c <= 'Z' {
        ((c as u32) + 32) as char
    } else {
        c
    }
}

/// Calls `str::to_lowercase`.  The result is named by `lowercase_of`; the
/// Unicode tables are not restated.  The contract adds the one case the
/// documentation spells out: ASCII text keeps its length and has its
/// capitals `A`-`Z` replaced by `a`-`z`.
#[verifier::external_body]
pub(crate) fn to_lowercase(s: &str) -> (r: String)
    ensures
        r@ == lowercase_of(s@),
        (forall|i: int| 0 <= i < s@.len() ==> is_ascii_char(#[trigger] s@[i])) ==> r@
            == s@.map_values(|c: char| ascii_lower(c)),
{
    s.to_lowercase()
}

/// The text that `String::from_utf8_lossy` makes of some bytes.
pub uninterp spec fn utf8_lossy(bytes: Seq<u8>) -> Seq<char>;

/// Calls `String::from_utf8_lossy` and takes the result as an owned string.
/// The result is named by `utf8_lossy`; the contract adds that bytes below
/// 128 (ASCII, itself valid UTF-8) come out one character each, unchanged.
#[verifier::external_body]
pub(crate) fn lossy_text(bytes: &[u8]) -> (r: String)
    ensures
        r@ == utf8_lossy(bytes@),
        (forall|i: int| 0 <= i < bytes@.len() ==> bytes@[i] < 128) ==> r@ == bytes@.map_values(
            |b: u8| b as char,
        ),
{
    String::from_utf8_lossy(bytes).into_owned()
}

/// The characters of a string slice, in order.
pub fn chars_of(s: &str) -> (v: Vec<char>)
    ensures
        v@ == s@,
{
    let mut v: Vec<char> = Vec::new();
    for c in it: s.chars()
        invariant
            v@ == it.seq().take(it.index() as int),
            it.seq() == s@,
    {
        v.push(c);
    }
    v
}

/// A string holding exactly the given characters.
pub fn string_from(v: &[char]) -> (s: String)
    ensures
        s@ == v@,
{
    let mut s = String::new();
    let mut i: usize = 0;
    while i < v.len()
        invariant
            i <= v@.len(),
            s@ == v@.take(i as int),
        decreases v@.len() - i,
    {
        s.push(v[i]);
        i = i + 1;
        assert(s@ =~= v@.take(i as int));
    }
    assert(v@.take(v@.len() as int) =~= v@);
    s
}

/// A fresh copy of a string slice.
pub fn owned(s: &str) -> (r: String)
    ensures
        r@ == s@,
{
    let v = chars_of(s);
    string_from(v.as_slice())
}

/// The characters of `a` followed by those of `b`.
pub fn concat(a: &str, b: &str) -> (r: String)
    ensures
        r@ == a@ + b@,
{
    let mut r = owned(a);
    let v = chars_of(b);
    let mut i: usize = 0;
    while i < v.len()
        invariant
            i <= v@.len(),
            v@ == b@,
            r@ == a@ + b@.take(i as int),
        decreases v@.len() - i,
    {
        r.push(v[i]);
        i = i + 1;
        assert(r@ =~= a@ + b@.take(i as int));
    }
    assert(b@.take(b@.len() as int) =~= b@);
    r
}

/// Whether two string slices hold the same characters.
pub fn str_eq(a: &str, b: &str) -> (r: bool)
    ensures
        r == (a@ == b@),
{
    let x = chars_of(a);
    let y = chars_of(b);
    seq_eq(x.as_slice(), y.as_slice())
}

/// Whether two character slices are equal.
pub fn seq_eq(a: &[char], b: &[char]) -> (r: bool)
    ensures
        r == (a@ == b@),
{
    if a.len() != b.len() {
        return false;
    }
    let mut i: usize = 0;
    while i < a.len()
        invariant
            a@.len() == b@.len(),
            i <= a@.len(),
            forall|j: int| 0 <= j < i ==> a@[j] == b@[j],
        decreases a@.len() - i,
    {
        if a[i] != b[i] {
            return false;
        }
        i = i + 1;
    }
    assert(a@ =~= b@);
    true
}

/// The characters of `s` from index `lo` up to (not including) `hi`.
pub fn slice_to_vec(s: &[char], lo: usize, hi: usize) -> (r: Vec<char>)
    requires
        lo <= hi <= s@.len(),
    ensures
        r@ == s@.subrange(lo as int, hi as int),
{
    let mut r: Vec<char> = Vec::new();
    let mut i: usize = lo;
    while i < hi
        invariant
            lo <= i <= hi <= s@.len(),
            r@ == s@.subrange(lo as int, i as int),
        decreases hi - i,
    {
        r.push(s[i]);
        i = i + 1;
        assert(r@ =~= s@.subrange(lo as int, i as int));
    }
    r
}

/// The pieces of `s` named by index bounds.
pub open spec fn pieces_at(s: Seq<char>, b: Seq<(usize, usize)>) -> Seq<Seq<char>> {
    Seq::new(b.len(), |i: int| s.subrange(b[i].0 as int, b[i].1 as int))
}

/// Every bound lies inside `lo..hi` and is ordered.
pub open spec fn bounds_within(b: Seq<(usize, usize)>, lo: int, hi: int) -> bool {
    forall|i: int| 0 <= i < b.len() ==> lo <= #[trigger] b[i].0 <= b[i].1 <= hi
}

// ---------------------------------------------------------------------------
// Whitespace and trimming
// ---------------------------------------------------------------------------

/// Unicode `White_Space`, the property that `char::is_whitespace` tests.
pub open spec fn is_ws(c: char) -> bool {
    let u = c as u32;
    ||| (0x9 <= u && u <= 0xd)
    ||| u == 0x20
    ||| u == 0x85
    ||| u == 0xa0
    ||| u == 0x1680
    ||| (0x2000 <= u && u <= 0x200a)
    ||| u == 0x2028
    ||| u == 0x2029
    ||| u == 0x202f
    ||| u == 0x205f
    ||| u == 0x3000
}

/// Tests Unicode `White_Space`.
pub fn is_whitespace(c: char) -> (r: bool)
    ensures
        r == is_ws(c),
{
    let u = c as u32;
    (0x9 <= u && u <= 0xd) || u == 0x20 || u == 0x85 || u == 0xa0 || u == 0x1680 || (0x2000
        <= u && u <= 0x200a) || u == 0x2028 || u == 0x2029 || u == 0x202f || u == 0x205f || u
        == 0x3000
}

/// `s` without its leading whitespace.
pub open spec fn trim_start(s: Seq<char>) -> Seq<char>
    decreases s.len(),
{
    if s.len() > 0 && is_ws(s[0]) {
        trim_start(s.drop_first())
    } else {
        s
    }
}

/// `s` without its trailing whitespace.
pub open spec fn trim_end(s: Seq<char>) -> Seq<char>
    decreases s.len(),
{
    if s.len() > 0 && is_ws(s.last()) {
        trim_end(s.drop_last())
    } else {
        s
    }
}

/// `s` without leading or trailing whitespace, as `str::trim` gives it.
pub open spec fn trim(s: Seq<char>) -> Seq<char> {
    trim_end(trim_start(s))
}

/// The first index at or after `lo` below `hi` that holds no whitespace, or `hi`.
pub fn skip_ws(s: &[char], lo: usize, hi: usize) -> (i: usize)
    requires
        lo <= hi <= s@.len(),
    ensures
        lo <= i <= hi,
        trim_start(s@.subrange(lo as int, hi as int)) == s@.subrange(i as int, hi as int),
        forall|j: int| lo <= j < i ==> is_ws(s@[j]),
{
    let mut i = lo;
    while i < hi && is_whitespace(s[i])
        invariant
            lo <= i <= hi <= s@.len(),
            trim_start(s@.subrange(lo as int, hi as int)) == trim_start(
                s@.subrange(i as int, hi as int),
            ),
            forall|j: int| lo <= j < i ==> is_ws(s@[j]),
        decreases hi - i,
    {
        assert(s@.subrange(i as int, hi as int).drop_first() =~= s@.subrange(
            i + 1,
            hi as int,
        ));
        i = i + 1;
    }
    i
}

/// The smallest index at or above `lo` such that `s[index..hi]` is all whitespace.
pub fn skip_ws_back(s: &[char], lo: usize, hi: usize) -> (k: usize)
    requires
        lo <= hi <= s@.len(),
    ensures
        lo <= k <= hi,
        trim_end(s@.subrange(lo as int, hi as int)) == s@.subrange(lo as int, k as int),
        forall|j: int| k <= j < hi ==> is_ws(s@[j]),
{
    let mut k = hi;
    while k > lo && is_whitespace(s[k - 1])
        invariant
            lo <= k <= hi <= s@.len(),
            trim_end(s@.subrange(lo as int, hi as int)) == trim_end(
                s@.subrange(lo as int, k as int),
            ),
            forall|j: int| k <= j < hi ==> is_ws(s@[j]),
        decreases k - lo,
    {
        assert(s@.subrange(lo as int, k as int).drop_last() =~= s@.subrange(
            lo as int,
            k - 1,
        ));
        k = k - 1;
    }
    k
}

/// `trim_end` of a sequence whose start is already trimmed stays start-trimmed.
pub proof fn lemma_trim_end_keeps_start(s: Seq<char>)
    requires
        s.len() > 0 ==> !is_ws(s[0]),
    ensures
        trim_end(s).len() > 0 ==> !is_ws(trim_end(s)[0]),
        trim_end(s).len() <= s.len(),
        trim_end(s) == s.take(trim_end(s).len() as int),
    decreases s.len(),
{
    if s.len() > 0 && is_ws(s.last()) {
        let t = s.drop_last();
        lemma_trim_end_keeps_start(t);
        assert(trim_end(t) =~= s.take(trim_end(t).len() as int));
    } else {
        assert(s.take(s.len() as int) =~= s);
    }
}

/// Bounds of `trim(s[lo..hi])` inside `s`.
pub fn trim_bounds(s: &[char], lo: usize, hi: usize) -> (r: (usize, usize))
    requires
        lo <= hi <= s@.len(),
    ensures
        lo <= r.0 <= r.1 <= hi,
        trim(s@.subrange(lo as int, hi as int)) == s@.subrange(r.0 as int, r.1 as int),
{
    let a = skip_ws(s, lo, hi);
    let b = skip_ws_back(s, a, hi);
    proof {
        r_helper_trim(s@, lo as int, a as int, hi as int, b as int);
    }
    (a, b)
}

proof fn r_helper_trim(s: Seq<char>, lo: int, a: int, hi: int, b: int)
    requires
        0 <= lo <= a <= b <= hi <= s.len(),
        trim_start(s.subrange(lo, hi)) == s.subrange(a, hi),
        trim_end(s.subrange(a, hi)) == s.subrange(a, b),
    ensures
        trim(s.subrange(lo, hi)) == s.subrange(a, b),
{
}

/// `str::trim` over a character slice.
pub fn trim_chars(s: &[char]) -> (r: Vec<char>)
    ensures
        r@ == trim(s@),
{
    let (a, b) = trim_bounds(s, 0, s.len());
    assert(s@.subrange(0, s@.len() as int) =~= s@);
    slice_to_vec(s, a, b)
}

// ---------------------------------------------------------------------------
// Searching
// ---------------------------------------------------------------------------

/// Whether `p` is a prefix of `s`.
pub open spec fn starts_with(s: Seq<char>, p: Seq<char>) -> bool {
    p.len() <= s.len() && s.take(p.len() as int) == p
}

/// Whether `t` occurs in `s` as a contiguous run.
pub open spec fn contains_seq(s: Seq<char>, t: Seq<char>) -> bool {
    exists|i: int| 0 <= i && i + t.len() <= s.len() && #[trigger] s.subrange(i, i + t.len()) == t
}

/// The index of the first occurrence of `c` in `s`, as `str::find` with a
/// character pattern gives it (in characters rather than bytes).
pub open spec fn index_of(s: Seq<char>, c: char) -> Option<int>
    decreases s.len(),
{
    if s.len() == 0 {
        None
    } else if s[0] == c {
        Some(0)
    } else {
        match index_of(s.drop_first(), c) {
            Some(i) => Some(i + 1),
            None => None,
        }
    }
}

/// What `index_of` gives, stated through the positions.
pub proof fn lemma_index_of(s: Seq<char>, c: char)
    ensures
        match index_of(s, c) {
            Some(i) => 0 <= i < s.len() && s[i] == c && forall|j: int| 0 <= j < i ==> s[j] != c,
            None => forall|j: int| 0 <= j < s.len() ==> s[j] != c,
        },
    decreases s.len(),
{
    if s.len() > 0 && s[0] != c {
        lemma_index_of(s.drop_first(), c);
        match index_of(s.drop_first(), c) {
            Some(i) => {
                assert forall|j: int| 0 <= j < i + 1 implies s[j] != c by {
                    if j > 0 {
                        assert(s[j] == s.drop_first()[j - 1]);
                    }
                }
            },
            None => {
                assert forall|j: int| 0 <= j < s.len() implies s[j] != c by {
                    if j > 0 {
                        assert(s[j] == s.drop_first()[j - 1]);
                    }
                }
            },
        }
    }
}

/// `index_of` is determined by the positions it names.
pub proof fn lemma_index_of_from(s: Seq<char>, c: char, i: int)
    requires
        0 <= i <= s.len(),
        i < s.len() ==> s[i] == c,
        forall|j: int| 0 <= j < i ==> s[j] != c,
    ensures
        index_of(s, c) == (if i < s.len() { Some(i) } else { None::<int> }),
{
    lemma_index_of(s, c);
    match index_of(s, c) {
        Some(k) => {
            if k < i {
            } else if k > i {
                assert(i < s.len());
            }
        },
        None => {},
    }
}

/// The first index in `s[lo..hi]` holding `c`, or `hi`.
pub fn find_char(s: &[char], lo: usize, hi: usize, c: char) -> (k: usize)
    requires
        lo <= hi <= s@.len(),
    ensures
        lo <= k <= hi,
        k < hi ==> s@[k as int] == c,
        forall|j: int| lo <= j < k ==> s@[j] != c,
        index_of(s@.subrange(lo as int, hi as int), c) == (if k < hi {
            Some(k - lo)
        } else {
            None::<int>
        }),
{
    let mut k = lo;
    while k < hi && s[k] != c
        invariant
            lo <= k <= hi <= s@.len(),
            forall|j: int| lo <= j < k ==> s@[j] != c,
        decreases hi - k,
    {
        k = k + 1;
    }
    proof {
        let sub = s@.subrange(lo as int, hi as int);
        lemma_index_of_from(sub, c, k - lo);
    }
    k
}

/// Whether `s[lo..hi]` starts with `p`.
pub fn has_prefix_at(s: &[char], lo: usize, hi: usize, p: &[char]) -> (r: bool)
    requires
        lo <= hi <= s@.len(),
    ensures
        r == starts_with(s@.subrange(lo as int, hi as int), p@),
{
    if p.len() > hi - lo {
        return false;
    }
    let mut i: usize = 0;
    while i < p.len()
        invariant
            p@.len() <= hi - lo,
            lo <= hi <= s@.len(),
            i <= p@.len(),
            forall|j: int| 0 <= j < i ==> s@[lo + j] == p@[j],
        decreases p@.len() - i,
    {
        if s[lo + i] != p[i] {
            assert(s@.subrange(lo as int, hi as int).take(p@.len() as int)[i as int] != p@[i as int]);
            return false;
        }
        i = i + 1;
    }
    assert(s@.subrange(lo as int, hi as int).take(p@.len() as int) =~= p@);
    true
}

/// Whether `t` occurs in `s[lo..hi]`.
pub fn contains_at(s: &[char], lo: usize, hi: usize, t: &[char]) -> (r: bool)
    requires
        lo <= hi <= s@.len(),
    ensures
        r == contains_seq(s@.subrange(lo as int, hi as int), t@),
{
    let ghost sub = s@.subrange(lo as int, hi as int);
    if t.len() > hi - lo {
        return false;
    }
    let mut i: usize = lo;
    let last = hi - t.len();
    loop
        invariant
            lo <= i <= last,
            last == hi - t@.len(),
            t@.len() <= hi - lo,
            hi <= s@.len(),
            sub == s@.subrange(lo as int, hi as int),
            forall|j: int|
                0 <= j < i - lo ==> #[trigger] sub.subrange(j, j + t@.len()) != t@,
        ensures
            i == last,
            forall|j: int|
                0 <= j <= i - lo ==> #[trigger] sub.subrange(j, j + t@.len()) != t@,
        decreases last - i,
    {
        let m = has_prefix_at(s, i, hi, t);
        assert(s@.subrange(i as int, hi as int).take(t@.len() as int) =~= sub.subrange(
            i - lo,
            i - lo + t@.len(),
        ));
        if m {
            return true;
        }
        if i == last {
            break;
        }
        i = i + 1;
    }
    assert forall|j: int| 0 <= j && j + t@.len() <= sub.len() implies #[trigger] sub.subrange(
        j,
        j + t@.len(),
    ) != t@ by {
        assert(j <= i - lo);
    }
    false
}

// ---------------------------------------------------------------------------
// Splitting
// ---------------------------------------------------------------------------

/// `str::split` with a character separator: every piece, empty ones included.
pub open spec fn split_on(s: Seq<char>, sep: char) -> Seq<Seq<char>>
    decreases s.len(),
{
    match index_of(s, sep) {
        None => seq![s],
        Some(k) => {
            if 0 <= k < s.len() {
                seq![s.take(k)] + split_on(s.skip(k + 1), sep)
            } else {
                seq![s]
            }
        },
    }
}

/// A line with its `\r` ending removed, if it has one.
pub open spec fn strip_cr(s: Seq<char>) -> Seq<char> {
    if s.len() > 0 && s.last() == '\r' {
        s.drop_last()
    } else {
        s
    }
}

/// `str::lines`: pieces ended by `\n` (a `\r` right before it dropped too);
/// a final line ending adds no empty line.
pub open spec fn lines(s: Seq<char>) -> Seq<Seq<char>>
    decreases s.len(),
{
    if s.len() == 0 {
        seq![]
    } else {
        match index_of(s, '\n') {
            None => seq![s],
            Some(k) => {
                if 0 <= k < s.len() {
                    seq![strip_cr(s.take(k))] + lines(s.skip(k + 1))
                } else {
                    seq![s]
                }
            },
        }
    }
}

/// `str::split_whitespace`: the maximal runs of non-whitespace characters.
pub open spec fn words(s: Seq<char>) -> Seq<Seq<char>>
    decreases s.len(),
{
    let t = trim_start(s);
    if t.len() == 0 {
        seq![]
    } else {
        let k = first_ws(t);
        if 0 < k <= t.len() && t.len() <= s.len() {
            seq![t.take(k)] + words(t.skip(k))
        } else {
            seq![t]
        }
    }
}

/// The index of the first whitespace character of `s`, or its length.
pub open spec fn first_ws(s: Seq<char>) -> int
    decreases s.len(),
{
    if s.len() == 0 {
        0
    } else if is_ws(s[0]) {
        0
    } else {
        1 + first_ws(s.drop_first())
    }
}

pub proof fn lemma_trim_start_len(s: Seq<char>)
    ensures
        trim_start(s).len() <= s.len(),
        trim_start(s) == s.skip(s.len() - trim_start(s).len()),
        trim_start(s).len() > 0 ==> !is_ws(trim_start(s)[0]),
    decreases s.len(),
{
    if s.len() > 0 && is_ws(s[0]) {
        lemma_trim_start_len(s.drop_first());
        assert(s.drop_first().skip(s.drop_first().len() - trim_start(s.drop_first()).len())
            =~= s.skip(s.len() - trim_start(s).len()));
    } else {
        assert(s.skip(0) =~= s);
    }
}

pub proof fn lemma_first_ws(s: Seq<char>)
    ensures
        0 <= first_ws(s) <= s.len(),
        forall|j: int| 0 <= j < first_ws(s) ==> !is_ws(s[j]),
        first_ws(s) < s.len() ==> is_ws(s[first_ws(s)]),
    decreases s.len(),
{
    if s.len() > 0 && !is_ws(s[0]) {
        lemma_first_ws(s.drop_first());
        assert forall|j: int| 0 <= j < first_ws(s) implies !is_ws(s[j]) by {
            if j > 0 {
                assert(s[j] == s.drop_first()[j - 1]);
            }
        }
    }
}


pub proof fn lemma_first_ws_from(s: Seq<char>, i: int)
    requires
        0 <= i <= s.len(),
        forall|j: int| 0 <= j < i ==> !is_ws(s[j]),
        i < s.len() ==> is_ws(s[i]),
    ensures
        first_ws(s) == i,
    decreases s.len(),
{
    if s.len() > 0 && i > 0 {
        assert forall|j: int| 0 <= j < i - 1 implies !is_ws(s.drop_first()[j]) by {
            assert(s.drop_first()[j] == s[j + 1]);
        }
        lemma_first_ws_from(s.drop_first(), i - 1);
    }
}

/// The first index in `s[lo..hi]` holding whitespace, or `hi`.
pub fn find_ws(s: &[char], lo: usize, hi: usize) -> (k: usize)
    requires
        lo <= hi <= s@.len(),
    ensures
        lo <= k <= hi,
        first_ws(s@.subrange(lo as int, hi as int)) == k - lo,
{
    let mut k = lo;
    while k < hi && !is_whitespace(s[k])
        invariant
            lo <= k <= hi <= s@.len(),
            forall|j: int| lo <= j < k ==> !is_ws(s@[j]),
        decreases hi - k,
    {
        k = k + 1;
    }
    proof {
        let sub = s@.subrange(lo as int, hi as int);
        assert forall|j: int| 0 <= j < k - lo implies !is_ws(sub[j]) by {
            assert(sub[j] == s@[lo + j]);
        }
        lemma_first_ws_from(sub, k - lo);
    }
    k
}

/// Bounds, inside `s`, of the pieces of `str::lines` applied to `s[lo..hi]`.
pub fn line_bounds(s: &[char], lo: usize, hi: usize) -> (r: Vec<(usize, usize)>)
    requires
        lo <= hi <= s@.len(),
    ensures
        r@.len() == lines(s@.subrange(lo as int, hi as int)).len(),
        forall|i: int|
            0 <= i < r@.len() ==> r@[i].0 <= r@[i].1 <= hi && lo <= r@[i].0 && #[trigger] lines(
                s@.subrange(lo as int, hi as int),
            )[i] == s@.subrange(r@[i].0 as int, r@[i].1 as int),
    pieces_at(s@, r@) == lines(s@.subrange(lo as int, hi as int)),
        bounds_within(r@, lo as int, hi as int),
{
    let ghost whole = s@.subrange(lo as int, hi as int);
    let ghost mut done: Seq<Seq<char>> = seq![];
    let mut r: Vec<(usize, usize)> = Vec::new();
    let mut p: usize = lo;
    while p < hi
        invariant
            lo <= p <= hi <= s@.len(),
            whole == s@.subrange(lo as int, hi as int),
            lines(whole) == done + lines(s@.subrange(p as int, hi as int)),
            r@.len() == done.len(),
            forall|i: int|
                0 <= i < r@.len() ==> #[trigger] r@[i].0 <= r@[i].1 <= hi && lo <= r@[i].0 && done[i]
                    == s@.subrange(r@[i].0 as int, r@[i].1 as int),
        decreases hi - p,
    {
        let k = find_char(s, p, hi, '\n');
        let ghost rest = s@.subrange(p as int, hi as int);
        if k < hi {
            let mut e = k;
            if e > p && s[e - 1] == '\r' {
                e = e - 1;
            }
            proof {
                assert(rest.take(k - p) =~= s@.subrange(p as int, k as int));
                assert(rest.skip(k - p + 1) =~= s@.subrange(k + 1, hi as int));
                assert(strip_cr(rest.take(k - p)) =~= s@.subrange(p as int, e as int));
                done = done.push(s@.subrange(p as int, e as int));
                assert(lines(rest) == seq![s@.subrange(p as int, e as int)] + lines(
                    s@.subrange(k + 1, hi as int),
                ));
                assert(lines(whole) =~= done + lines(s@.subrange(k + 1, hi as int)));
            }
            r.push((p, e));
            p = k + 1;
        } else {
            proof {
                done = done.push(rest);
                assert(lines(rest) == seq![rest]);
                assert(lines(s@.subrange(hi as int, hi as int)) =~= Seq::<Seq<char>>::empty());
                assert(lines(whole) =~= done + lines(s@.subrange(hi as int, hi as int)));
            }
            r.push((p, hi));
            p = hi;
        }
    }
    proof {
        assert(lines(s@.subrange(p as int, hi as int)) =~= Seq::<Seq<char>>::empty());
        assert(lines(whole) =~= done);
        assert forall|i: int| 0 <= i < r@.len() implies r@[i].0 <= r@[i].1 <= hi && lo <= r@[i].0
            && #[trigger] lines(whole)[i] == s@.subrange(r@[i].0 as int, r@[i].1 as int) by {
            assert(r@[i].0 <= r@[i].1);
        }
        assert(pieces_at(s@, r@) =~= lines(whole));
    }
    r
}

/// Bounds, inside `s`, of the pieces of `str::split(sep)` applied to `s[lo..hi]`.
pub fn split_bounds(s: &[char], lo: usize, hi: usize, sep: char) -> (r: Vec<(usize, usize)>)
    requires
        lo <= hi <= s@.len(),
    ensures
        r@.len() == split_on(s@.subrange(lo as int, hi as int), sep).len(),
        forall|i: int|
            0 <= i < r@.len() ==> r@[i].0 <= r@[i].1 <= hi && lo <= r@[i].0 && #[trigger] split_on(
                s@.subrange(lo as int, hi as int),
                sep,
            )[i] == s@.subrange(r@[i].0 as int, r@[i].1 as int),
    pieces_at(s@, r@) == split_on(s@.subrange(lo as int, hi as int), sep),
        bounds_within(r@, lo as int, hi as int),
{
    let ghost whole = s@.subrange(lo as int, hi as int);
    let ghost mut done: Seq<Seq<char>> = seq![];
    let mut r: Vec<(usize, usize)> = Vec::new();
    let mut p: usize = lo;
    loop
        invariant_except_break
            split_on(whole, sep) == done + split_on(s@.subrange(p as int, hi as int), sep),
        invariant
            lo <= p <= hi <= s@.len(),
            whole == s@.subrange(lo as int, hi as int),
            r@.len() == done.len(),
            forall|i: int|
                0 <= i < r@.len() ==> #[trigger] r@[i].0 <= r@[i].1 <= hi && lo <= r@[i].0 && done[i]
                    == s@.subrange(r@[i].0 as int, r@[i].1 as int),
        ensures
            split_on(whole, sep) == done,
            r@.len() == done.len(),
            forall|i: int|
                0 <= i < r@.len() ==> #[trigger] r@[i].0 <= r@[i].1 <= hi && lo <= r@[i].0 && done[i]
                    == s@.subrange(r@[i].0 as int, r@[i].1 as int),
        decreases hi - p,
    {
        let k = find_char(s, p, hi, sep);
        let ghost rest = s@.subrange(p as int, hi as int);
        let ghost rv = r@;
        let ghost dv = done;
        if k < hi {
            proof {
                assert(rest.take(k - p) =~= s@.subrange(p as int, k as int));
                assert(rest.skip(k - p + 1) =~= s@.subrange(k + 1, hi as int));
                done = done.push(s@.subrange(p as int, k as int));
                assert(split_on(whole, sep) =~= done + split_on(s@.subrange(k + 1, hi as int), sep));
            }
            r.push((p, k));
            assert forall|i: int| 0 <= i < r@.len() implies #[trigger] r@[i].0 <= r@[i].1 <= hi
                && lo <= r@[i].0 && done[i] == s@.subrange(r@[i].0 as int, r@[i].1 as int) by {
                if i < rv.len() {
                    assert(r@[i] == rv[i] && done[i] == dv[i]);
                }
            }
            p = k + 1;
        } else {
            proof {
                done = done.push(rest);
                assert(split_on(whole, sep) =~= done);
            }
            r.push((p, hi));
            assert forall|i: int| 0 <= i < r@.len() implies #[trigger] r@[i].0 <= r@[i].1 <= hi
                && lo <= r@[i].0 && done[i] == s@.subrange(r@[i].0 as int, r@[i].1 as int) by {
                if i < rv.len() {
                    assert(r@[i] == rv[i] && done[i] == dv[i]);
                }
            }
            break;
        }
    }
    assert(pieces_at(s@, r@) =~= split_on(whole, sep));
    r
}

/// Bounds, inside `s`, of the words of `str::split_whitespace` applied to `s[lo..hi]`.
pub fn word_bounds(s: &[char], lo: usize, hi: usize) -> (r: Vec<(usize, usize)>)
    requires
        lo <= hi <= s@.len(),
    ensures
        r@.len() == words(s@.subrange(lo as int, hi as int)).len(),
        forall|i: int|
            0 <= i < r@.len() ==> r@[i].0 <= r@[i].1 <= hi && lo <= r@[i].0 && #[trigger] words(
                s@.subrange(lo as int, hi as int),
            )[i] == s@.subrange(r@[i].0 as int, r@[i].1 as int),
    pieces_at(s@, r@) == words(s@.subrange(lo as int, hi as int)),
        bounds_within(r@, lo as int, hi as int),
{
    let ghost whole = s@.subrange(lo as int, hi as int);
    let ghost mut done: Seq<Seq<char>> = seq![];
    let mut r: Vec<(usize, usize)> = Vec::new();
    let mut p: usize = lo;
    loop
        invariant
            lo <= p <= hi <= s@.len(),
            whole == s@.subrange(lo as int, hi as int),
            words(whole) == done + words(s@.subrange(p as int, hi as int)),
            r@.len() == done.len(),
            forall|i: int|
                0 <= i < r@.len() ==> #[trigger] r@[i].0 <= r@[i].1 <= hi && lo <= r@[i].0 && done[i]
                    == s@.subrange(r@[i].0 as int, r@[i].1 as int),
        ensures
            words(whole) == done,
            r@.len() == done.len(),
            forall|i: int|
                0 <= i < r@.len() ==> #[trigger] r@[i].0 <= r@[i].1 <= hi && lo <= r@[i].0 && done[i]
                    == s@.subrange(r@[i].0 as int, r@[i].1 as int),
        decreases hi - p,
    {
        let a = skip_ws(s, p, hi);
        let ghost rest = s@.subrange(p as int, hi as int);
        let ghost t = s@.subrange(a as int, hi as int);
        proof {
            lemma_trim_start_len(rest);
        }
        if a == hi {
            proof {
                assert(t.len() == 0);
                assert(words(rest) =~= Seq::<Seq<char>>::empty());
                assert(done + words(rest) =~= done);
            }
            break;
        }
        let b = find_ws(s, a, hi);
        proof {
            assert(!is_ws(t[0]));
            lemma_first_ws(t.drop_first());
            assert(b > a);
            assert(t.take(b - a) =~= s@.subrange(a as int, b as int));
            assert(t.skip(b - a) =~= s@.subrange(b as int, hi as int));
            assert(words(rest) == seq![s@.subrange(a as int, b as int)] + words(
                s@.subrange(b as int, hi as int),
            ));
            done = done.push(s@.subrange(a as int, b as int));
            assert(words(whole) =~= done + words(s@.subrange(b as int, hi as int)));
        }
        r.push((a, b));
        p = b;
    }
    assert(pieces_at(s@, r@) =~= words(whole));
    r
}

} // verus!
