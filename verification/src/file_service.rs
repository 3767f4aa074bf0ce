//! Directory listings, text-file reading and saving decisions for the editor.

use vstd::prelude::*;
use crate::clock::{rfc3339_from_timestamp, rfc3339_of};
use crate::models::{AppError, FileReadResult, FileTreeItem, FileWriteResult};
use crate::paths::{
    extension_in, extension_on, file_name_in, file_name_on, tmp_parts_in, tmp_parts_on, Platform,
};
use crate::security::{binary_path, SecurityService};
use crate::text::{chars_of, concat, lowercase_of, owned, str_eq, string_from, to_lowercase};

verus! {

/// The service behind the file explorer and the editor.
pub struct FileService;

/// The type of a directory entry, as `DirEntry::file_type` reports it
/// (symbolic links are not followed).
#[derive(Debug, Clone, Copy)]
pub struct EntryType {
    pub is_dir: bool,
    pub is_symlink: bool,
}

/// What `DirEntry::metadata` reports: the length and, where the platform
/// has it, the modification time as UNIX seconds and nanoseconds.
#[derive(Debug, Clone, Copy)]
pub struct EntryMetadata {
    pub len: u64,
    pub modified: Option<(i64, u32)>,
}

/// One entry read from a directory: its name, its type (or the text of
/// the error that reading the type gave) and its metadata when readable.
#[derive(Debug)]
pub struct DirEntryInfo {
    pub name: String,
    pub file_type: Result<EntryType, String>,
    pub metadata: Option<EntryMetadata>,
}

/// The contents of a `FileTreeItem` as plain values.
pub struct FileTreeItemView {
    pub name: Seq<char>,
    pub relative_path: Seq<char>,
    pub kind: Seq<char>,
    pub size: Option<i64>,
    pub modified_at: Option<Seq<char>>,
}

/// An optional string as an optional character sequence.
pub open spec fn opt_view(o: Option<String>) -> Option<Seq<char>> {
    match o {
        Some(s) => Some(s@),
        None => None,
    }
}

impl View for FileTreeItem {
    type V = FileTreeItemView;

    open spec fn view(&self) -> FileTreeItemView {
        FileTreeItemView {
            name: self.name@,
            relative_path: self.relative_path@,
            kind: self.kind@,
            size: self.size,
            modified_at: opt_view(self.modified_at),
        }
    }
}

/// Whether an entry sorts as a directory (an unreadable type counts as not).
pub open spec fn entry_is_dir(e: DirEntryInfo) -> bool {
    match e.file_type {
        Ok(t) => t.is_dir,
        Err(_) => false,
    }
}

/// Lexicographic order of names by character code, which is the byte
/// order of their UTF-8 encodings.
pub open spec fn name_lt(a: Seq<char>, b: Seq<char>) -> bool
    decreases a.len(),
{
    if a.len() == 0 {
        b.len() > 0
    } else if b.len() == 0 {
        false
    } else if a[0] < b[0] {
        true
    } else if a[0] > b[0] {
        false
    } else {
        name_lt(a.drop_first(), b.drop_first())
    }
}

/// The listing order: directories before everything else, then by name.
pub open spec fn goes_before(a: DirEntryInfo, b: DirEntryInfo) -> bool {
    (entry_is_dir(a) && !entry_is_dir(b)) || (entry_is_dir(a) == entry_is_dir(b) && name_lt(
        a.name@,
        b.name@,
    ))
}

/// Where `x` goes in an ordered listing: before the first entry that it
/// goes before, so that entries of equal rank keep their order.
pub open spec fn insert_position(sorted: Seq<DirEntryInfo>, x: DirEntryInfo) -> int
    decreases sorted.len(),
{
    if sorted.len() == 0 {
        0
    } else if goes_before(x, sorted[0]) {
        0
    } else {
        1 + insert_position(sorted.drop_first(), x)
    }
}

/// The entries in listing order, ties in their original order (a stable sort).
pub open spec fn sort_entries(s: Seq<DirEntryInfo>) -> Seq<DirEntryInfo>
    decreases s.len(),
{
    if s.len() == 0 {
        s
    } else {
        let t = sort_entries(s.drop_last());
        t.insert(insert_position(t, s.last()), s.last())
    }
}

/// The names that listings leave out.
pub open spec fn is_ignored_name(n: Seq<char>) -> bool {
    ||| n == ".git"@ ||| n == "node_modules"@ ||| n == "dist"@ ||| n == "build"@
    ||| n == ".next"@ ||| n == ".nuxt"@ ||| n == "target"@ ||| n == "coverage"@
    ||| n == ".cache"@ ||| n == "vendor"@
}

/// The entries whose names are not ignored, in order.
pub open spec fn visible_entries(s: Seq<DirEntryInfo>) -> Seq<DirEntryInfo>
    decreases s.len(),
{
    if s.len() == 0 {
        s
    } else {
        let r = visible_entries(s.drop_last());
        if is_ignored_name(s.last().name@) {
            r
        } else {
            r.push(s.last())
        }
    }
}

/// The text of the first entry type that could not be read, if any.
pub open spec fn first_type_error(s: Seq<DirEntryInfo>) -> Option<Seq<char>>
    decreases s.len(),
{
    if s.len() == 0 {
        None
    } else {
        match s[0].file_type {
            Err(m) => Some(m@),
            Ok(_) => first_type_error(s.drop_first()),
        }
    }
}

/// The path of a child, relative to the project: just the name when the
/// listed directory is the root (empty or `.`).
pub open spec fn child_path(rel: Seq<char>, name: Seq<char>) -> Seq<char> {
    if rel.len() == 0 || rel == seq!['.'] {
        name
    } else {
        rel + seq!['/'] + name
    }
}

/// The kind text of a listed entry.
pub open spec fn kind_text(t: EntryType) -> Seq<char> {
    if t.is_dir {
        "directory"@
    } else if t.is_symlink {
        "symlink"@
    } else {
        "file"@
    }
}

/// The listing item of an entry whose type was read.
pub open spec fn item_view(rel: Seq<char>, e: DirEntryInfo) -> FileTreeItemView {
    FileTreeItemView {
        name: e.name@,
        relative_path: child_path(rel, e.name@),
        kind: match e.file_type {
            Ok(t) => kind_text(t),
            Err(_) => Seq::empty(),
        },
        size: match e.metadata {
            Some(m) => Some(m.len as i64),
            None => None,
        },
        modified_at: match e.metadata {
            Some(m) => match m.modified {
                Some(t) => rfc3339_of(t.0, t.1),
                None => None,
            },
            None => None,
        },
    }
}

/// The language identifier the editor uses for a lowercased extension.
pub open spec fn language_for(e: Seq<char>) -> Option<Seq<char>> {
    if e == "ts"@ || e == "tsx"@ {
        Some("typescript"@)
    } else if e == "js"@ || e == "jsx"@ || e == "mjs"@ {
        Some("javascript"@)
    } else if e == "rs"@ {
        Some("rust"@)
    } else if e == "py"@ {
        Some("python"@)
    } else if e == "go"@ {
        Some("go"@)
    } else if e == "java"@ {
        Some("java"@)
    } else if e == "c"@ || e == "h"@ {
        Some("c"@)
    } else if e == "cpp"@ || e == "hpp"@ || e == "cc"@ || e == "cxx"@ {
        Some("cpp"@)
    } else if e == "cs"@ {
        Some("csharp"@)
    } else if e == "html"@ || e == "htm"@ {
        Some("html"@)
    } else if e == "css"@ || e == "scss"@ || e == "less"@ {
        Some("css"@)
    } else if e == "json"@ {
        Some("json"@)
    } else if e == "xml"@ || e == "svg"@ {
        Some("xml"@)
    } else if e == "yaml"@ || e == "yml"@ {
        Some("yaml"@)
    } else if e == "md"@ || e == "markdown"@ {
        Some("markdown"@)
    } else if e == "sql"@ {
        Some("sql"@)
    } else if e == "sh"@ || e == "bash"@ || e == "zsh"@ {
        Some("shell"@)
    } else if e == "ps1"@ {
        Some("powershell"@)
    } else if e == "toml"@ {
        Some("toml"@)
    } else if e == "ini"@ || e == "cfg"@ || e == "conf"@ {
        Some("ini"@)
    } else if e == "vue"@ {
        Some("vue"@)
    } else if e == "svelte"@ {
        Some("svelte"@)
    } else if e == "rb"@ {
        Some("ruby"@)
    } else if e == "php"@ {
        Some("php"@)
    } else if e == "swift"@ {
        Some("swift"@)
    } else if e == "kt"@ || e == "kts"@ {
        Some("kotlin"@)
    } else if e == "dart"@ {
        Some("dart"@)
    } else if e == "lua"@ {
        Some("lua"@)
    } else if e == "r"@ {
        Some("r"@)
    } else {
        None
    }
}

/// The language of a path, from its lowercased extension under the
/// platform's path rules.
pub open spec fn path_language(pl: Platform, p: Seq<char>) -> Option<Seq<char>> {
    match extension_on(pl, p) {
        Some(e) => language_for(lowercase_of(e)),
        None => None,
    }
}

/// Files larger than this are refused.
pub open spec fn max_read_size() -> int {
    10_485_760
}

/// Files larger than this open read-only.
pub open spec fn max_edit_size() -> int {
    2_097_152
}

fn some_text(s: &str) -> (r: Option<String>)
    ensures
        r matches Some(t) && t@ == s@,
{
    Some(owned(s))
}

fn language_of_extension(e: &str) -> (r: Option<String>)
    ensures
        opt_view(r) == language_for(e@),
{
    if str_eq(e, "ts") || str_eq(e, "tsx") {
        some_text("typescript")
    } else if str_eq(e, "js") || str_eq(e, "jsx") || str_eq(e, "mjs") {
        some_text("javascript")
    } else if str_eq(e, "rs") {
        some_text("rust")
    } else if str_eq(e, "py") {
        some_text("python")
    } else if str_eq(e, "go") {
        some_text("go")
    } else if str_eq(e, "java") {
        some_text("java")
    } else if str_eq(e, "c") || str_eq(e, "h") {
        some_text("c")
    } else if str_eq(e, "cpp") || str_eq(e, "hpp") || str_eq(e, "cc") || str_eq(e, "cxx") {
        some_text("cpp")
    } else if str_eq(e, "cs") {
        some_text("csharp")
    } else if str_eq(e, "html") || str_eq(e, "htm") {
        some_text("html")
    } else if str_eq(e, "css") || str_eq(e, "scss") || str_eq(e, "less") {
        some_text("css")
    } else if str_eq(e, "json") {
        some_text("json")
    } else if str_eq(e, "xml") || str_eq(e, "svg") {
        some_text("xml")
    } else if str_eq(e, "yaml") || str_eq(e, "yml") {
        some_text("yaml")
    } else if str_eq(e, "md") || str_eq(e, "markdown") {
        some_text("markdown")
    } else if str_eq(e, "sql") {
        some_text("sql")
    } else if str_eq(e, "sh") || str_eq(e, "bash") || str_eq(e, "zsh") {
        some_text("shell")
    } else if str_eq(e, "ps1") {
        some_text("powershell")
    } else if str_eq(e, "toml") {
        some_text("toml")
    } else if str_eq(e, "ini") || str_eq(e, "cfg") || str_eq(e, "conf") {
        some_text("ini")
    } else if str_eq(e, "vue") {
        some_text("vue")
    } else if str_eq(e, "svelte") {
        some_text("svelte")
    } else if str_eq(e, "rb") {
        some_text("ruby")
    } else if str_eq(e, "php") {
        some_text("php")
    } else if str_eq(e, "swift") {
        some_text("swift")
    } else if str_eq(e, "kt") || str_eq(e, "kts") {
        some_text("kotlin")
    } else if str_eq(e, "dart") {
        some_text("dart")
    } else if str_eq(e, "lua") {
        some_text("lua")
    } else if str_eq(e, "r") {
        some_text("r")
    } else {
        None
    }
}

impl FileService {
    /// The editor language of a path, from its lowercased extension.
    pub fn detect_language(path: &str, platform: Platform) -> (r: Option<String>)
        ensures
            opt_view(r) == path_language(platform, path@),
    {
        match extension_in(platform, path) {
            Some(e) => {
                let lower = to_lowercase(e.as_str());
                language_of_extension(lower.as_str())
            },
            None => None,
        }
    }
}


proof fn lemma_name_lt_skip(a: Seq<char>, b: Seq<char>, i: int)
    requires
        0 <= i <= a.len(),
        i <= b.len(),
        forall|j: int| 0 <= j < i ==> a[j] == b[j],
    ensures
        name_lt(a, b) == name_lt(a.skip(i), b.skip(i)),
    decreases i,
{
    if i > 0 {
        assert(a.len() > 0 && b.len() > 0);
        assert(a[0] == b[0]);
        lemma_name_lt_skip(a.drop_first(), b.drop_first(), i - 1);
        assert(a.drop_first().skip(i - 1) =~= a.skip(i));
        assert(b.drop_first().skip(i - 1) =~= b.skip(i));
    } else {
        assert(a.skip(0) =~= a);
        assert(b.skip(0) =~= b);
    }
}

/// Whether name `a` sorts before name `b`.
fn name_before(a: &[char], b: &[char]) -> (r: bool)
    ensures
        r == name_lt(a@, b@),
{
    let mut i: usize = 0;
    while i < a.len() && i < b.len() && a[i] == b[i]
        invariant
            i <= a@.len(),
            i <= b@.len(),
            forall|j: int| 0 <= j < i ==> a@[j] == b@[j],
        decreases a@.len() - i,
    {
        i = i + 1;
    }
    proof {
        lemma_name_lt_skip(a@, b@, i as int);
    }
    if i == a.len() {
        proof {
            assert(a@.skip(i as int).len() == 0);
        }
        i < b.len()
    } else if i == b.len() {
        proof {
            assert(b@.skip(i as int).len() == 0);
        }
        false
    } else {
        let x = a[i];
        let y = b[i];
        proof {
            assert(a@.skip(i as int)[0] == a@[i as int]);
            assert(b@.skip(i as int)[0] == b@[i as int]);
        }
        x < y
    }
}

fn is_dir_entry(e: &DirEntryInfo) -> (r: bool)
    ensures
        r == entry_is_dir(*e),
{
    match &e.file_type {
        Ok(t) => t.is_dir,
        Err(_) => false,
    }
}

/// Whether entry `a` is listed before entry `b`.
fn entry_goes_before(a: &DirEntryInfo, b: &DirEntryInfo) -> (r: bool)
    ensures
        r == goes_before(*a, *b),
{
    let da = is_dir_entry(a);
    let db = is_dir_entry(b);
    if da && !db {
        return true;
    }
    if da != db {
        return false;
    }
    let na = chars_of(a.name.as_str());
    let nb = chars_of(b.name.as_str());
    name_before(na.as_slice(), nb.as_slice())
}

proof fn lemma_insert_position_from(sorted: Seq<DirEntryInfo>, x: DirEntryInfo, p: int)
    requires
        0 <= p <= sorted.len(),
        forall|j: int| 0 <= j < p ==> !goes_before(x, #[trigger] sorted[j]),
        p < sorted.len() ==> goes_before(x, sorted[p]),
    ensures
        insert_position(sorted, x) == p,
    decreases sorted.len(),
{
    if sorted.len() > 0 && p > 0 {
        assert(!goes_before(x, sorted[0]));
        assert forall|j: int| 0 <= j < p - 1 implies !goes_before(x, #[trigger] sorted.drop_first()[j]) by {
            assert(sorted.drop_first()[j] == sorted[j + 1]);
        }
        lemma_insert_position_from(sorted.drop_first(), x, p - 1);
    }
}

/// The entries in listing order.
fn sort_listing(entries: Vec<DirEntryInfo>) -> (r: Vec<DirEntryInfo>)
    ensures
        r@ == sort_entries(entries@),
{
    let ghost orig = entries@;
    let mut rest = entries;
    let mut out: Vec<DirEntryInfo> = Vec::new();
    let ghost mut i: int = 0;
    while rest.len() > 0
        invariant
            0 <= i <= orig.len(),
            rest@ == orig.skip(i),
            out@ == sort_entries(orig.take(i)),
        decreases rest@.len(),
    {
        let x = rest.remove(0);
        proof {
            assert(x == orig[i]);
            assert(rest@ =~= orig.skip(i + 1));
            assert(orig.take(i + 1).drop_last() =~= orig.take(i));
            assert(orig.take(i + 1).last() == x);
        }
        let mut p: usize = 0;
        while p < out.len() && !entry_goes_before(&x, &out[p])
            invariant
                p <= out@.len(),
                forall|j: int| 0 <= j < p ==> !goes_before(x, #[trigger] out@[j]),
            decreases out@.len() - p,
        {
            p = p + 1;
        }
        proof {
            lemma_insert_position_from(out@, x, p as int);
        }
        out.insert(p, x);
        proof {
            i = i + 1;
        }
    }
    assert(orig.take(i) =~= orig);
    out
}

proof fn lemma_visible_append(a: Seq<DirEntryInfo>, b: Seq<DirEntryInfo>)
    ensures
        visible_entries(a + b) == visible_entries(a) + visible_entries(b),
    decreases b.len(),
{
    if b.len() == 0 {
        assert(a + b =~= a);
        assert(visible_entries(a) + visible_entries(b) =~= visible_entries(a));
    } else {
        lemma_visible_append(a, b.drop_last());
        assert((a + b).drop_last() =~= a + b.drop_last());
        assert((a + b).last() == b.last());
        if is_ignored_name(b.last().name@) {
        } else {
            assert(visible_entries(a + b) =~= visible_entries(a) + visible_entries(b));
        }
    }
}

proof fn lemma_first_error_append(p: Seq<DirEntryInfo>, q: Seq<DirEntryInfo>)
    ensures
        first_type_error(p + q) == (match first_type_error(p) {
            Some(m) => Some(m),
            None => first_type_error(q),
        }),
    decreases p.len(),
{
    if p.len() == 0 {
        assert(p + q =~= q);
    } else {
        assert((p + q)[0] == p[0]);
        assert((p + q).drop_first() =~= p.drop_first() + q);
        lemma_first_error_append(p.drop_first(), q);
    }
}

/// The relative path of a listed child.
fn child_relative_path(rel: &str, name: &str) -> (r: String)
    ensures
        r@ == child_path(rel@, name@),
{
    let rc = chars_of(rel);
    if rc.len() == 0 || str_eq(rel, ".") {
        proof {
            reveal_strlit(".");
            assert("."@ =~= seq!['.']);
        }
        return owned(name);
    }
    proof {
        reveal_strlit(".");
        assert("."@ =~= seq!['.']);
        assert(rel@ != seq!['.']);
    }
    let mut x = owned(rel);
    x.push('/');
    let r = concat(x.as_str(), name);
    assert(r@ =~= rel@ + seq!['/'] + name@);
    r
}

fn ignored_name(n: &str) -> (r: bool)
    ensures
        r == is_ignored_name(n@),
{
    str_eq(n, ".git") || str_eq(n, "node_modules") || str_eq(n, "dist") || str_eq(n, "build")
        || str_eq(n, ".next") || str_eq(n, ".nuxt") || str_eq(n, "target") || str_eq(
        n,
        "coverage",
    ) || str_eq(n, ".cache") || str_eq(n, "vendor")
}

fn modified_text(m: Option<(i64, u32)>) -> (r: Option<String>)
    ensures
        opt_view(r) == (match m {
            Some(t) => rfc3339_of(t.0, t.1),
            None => None,
        }),
{
    match m {
        Some((secs, nanos)) => rfc3339_from_timestamp(secs, nanos),
        None => None,
    }
}

/// The listing item of an entry whose type was read.
fn make_item(rel: &str, e: &DirEntryInfo, t: EntryType) -> (r: FileTreeItem)
    requires
        e.file_type == Ok::<EntryType, String>(t),
    ensures
        r@ == item_view(rel@, *e),
{
    let kind = if t.is_dir {
        owned("directory")
    } else if t.is_symlink {
        owned("symlink")
    } else {
        owned("file")
    };
    let (size, modified_at) = match e.metadata {
        Some(m) => (Some(m.len as i64), modified_text(m.modified)),
        None => (None, None),
    };
    FileTreeItem {
        name: e.name.clone(),
        relative_path: child_relative_path(rel, e.name.as_str()),
        kind,
        size,
        modified_at,
    }
}

impl FileService {
    /// The checks made before a directory is read: it must exist and be a
    /// directory.
    pub fn check_listable(exists: bool, is_dir: bool) -> (r: Result<(), AppError>)
        ensures
            match r {
                Ok(()) => exists && is_dir,
                Err(e) => if !exists {
                    e.code@ == "DIR_NOT_FOUND"@ && e.message@ == "Directory does not exist"@
                } else {
                    !is_dir && e.code@ == "NOT_DIRECTORY"@ && e.message@
                        == "Path is not a directory"@
                },
            },
    {
        if !exists {
            return Err(AppError::new("DIR_NOT_FOUND", "Directory does not exist"));
        }
        if !is_dir {
            return Err(AppError::new("NOT_DIRECTORY", "Path is not a directory"));
        }
        Ok(())
    }

    /// Turns the entries read from the directory at `relative_path` into the
    /// listing: directories first, then by name, ignored names left out.
    /// An entry whose type could not be read fails the whole listing.
    pub fn build_listing(relative_path: &str, entries: Vec<DirEntryInfo>) -> (r: Result<
        Vec<FileTreeItem>,
        AppError,
    >)
        ensures
            ({
                let shown = visible_entries(sort_entries(entries@));
                match r {
                    Ok(items) => first_type_error(shown) is None && items@.len() == shown.len()
                        && forall|i: int|
                        0 <= i < shown.len() ==> (#[trigger] items@[i])@ == item_view(
                            relative_path@,
                            shown[i],
                        ),
                    Err(e) => first_type_error(shown) == Some(e.message@.skip(25)) && e.code@
                        == "IO_ERROR"@ && e.message@.take(25) == "Failed to get file type: "@,
                }
            }),
    {
        let ghost orig = entries@;
        let sorted = sort_listing(entries);
        let ghost all = sorted@;
        let mut items: Vec<FileTreeItem> = Vec::new();
        let mut i: usize = 0;
        while i < sorted.len()
            invariant
                i <= sorted@.len(),
                all == sorted@,
                all == sort_entries(orig),
                orig == entries@,
                first_type_error(visible_entries(all.take(i as int))) is None,
                items@.len() == visible_entries(all.take(i as int)).len(),
                forall|k: int|
                    0 <= k < items@.len() ==> (#[trigger] items@[k])@ == item_view(
                        relative_path@,
                        visible_entries(all.take(i as int))[k],
                    ),
            decreases sorted@.len() - i,
        {
            let e = &sorted[i];
            let ghost before = visible_entries(all.take(i as int));
            proof {
                assert(all.take(i + 1).drop_last() =~= all.take(i as int));
                assert(all.take(i + 1).last() == *e);
                lemma_visible_append(all.take(i + 1), all.skip(i + 1));
                assert(all.take(i + 1) + all.skip(i + 1) =~= all);
            }
            if ignored_name(e.name.as_str()) {
                assert(visible_entries(all.take(i + 1)) == before);
            } else {
                match &e.file_type {
                    Err(m) => {
                        let msg = concat("Failed to get file type: ", m.as_str());
                        proof {
                            reveal_strlit("Failed to get file type: ");
                            let now = visible_entries(all.take(i + 1));
                            assert(now == before.push(*e));
                            lemma_first_error_append(before, seq![*e]);
                            assert(before.push(*e) =~= before + seq![*e]);
                            assert(first_type_error(seq![*e]) == Some(m@));
                            lemma_first_error_append(now, visible_entries(all.skip(i + 1)));
                            assert(first_type_error(now) == Some(m@));
                            assert(visible_entries(all) == now + visible_entries(all.skip(i + 1)));
                            assert(first_type_error(visible_entries(all)) == Some(m@));
                            assert("Failed to get file type: "@.len() == 25);
                            assert(msg@.skip(25) =~= m@);
                            assert(msg@.take(25) =~= "Failed to get file type: "@);
                            assert(all == sort_entries(orig));
                            assert(first_type_error(visible_entries(sort_entries(orig))) == Some(msg@.skip(25)));
                        }
                        let err = AppError { code: owned("IO_ERROR"), message: msg };
                        assert(err.code@ == "IO_ERROR"@);
                        assert(err.message@.take(25) == "Failed to get file type: "@);
                        let r: Result<Vec<FileTreeItem>, AppError> = Err(err);
                        assert(match r {
                            Ok(_) => false,
                            Err(e) => first_type_error(visible_entries(sort_entries(orig))) == Some(e.message@.skip(25)) && e.code@
                                == "IO_ERROR"@ && e.message@.take(25) == "Failed to get file type: "@,
                        });
                        return r;
                    },
                    Ok(t) => {
                        let item = make_item(relative_path, e, *t);
                        items.push(item);
                        proof {
                            let now = visible_entries(all.take(i + 1));
                            assert(now == before.push(*e));
                            lemma_first_error_append(before, seq![*e]);
                            assert(before.push(*e) =~= before + seq![*e]);
                            assert(seq![*e].drop_first() =~= Seq::<DirEntryInfo>::empty());
                            assert(seq![*e][0] == *e);
                            assert(first_type_error(seq![*e]) == first_type_error(Seq::<DirEntryInfo>::empty()));
                            assert(first_type_error(now) is None);
                            assert forall|k: int| 0 <= k < items@.len() implies (#[trigger] items@[k])@
                                == item_view(relative_path@, now[k]) by {
                                if k < before.len() {
                                    assert(now[k] == before[k]);
                                }
                            }
                        }
                    },
                }
            }
            i = i + 1;
        }
        assert(all.take(sorted@.len() as int) =~= all);
        Ok(items)
    }

    /// The checks made before a file is opened as text: it must exist, be a
    /// file, and not have a binary extension.
    pub fn check_readable(target: &str, exists: bool, is_file: bool, platform: Platform) -> (r:
        Result<(), AppError>)
        ensures
            match r {
                Ok(()) => exists && is_file && !binary_path(platform, target@),
                Err(e) => if !exists {
                    e.code@ == "FILE_NOT_FOUND"@ && e.message@ == "File does not exist"@
                } else if !is_file {
                    e.code@ == "NOT_FILE"@ && e.message@ == "Path is not a file"@
                } else {
                    binary_path(platform, target@) && e.code@ == "BINARY_FILE"@ && e.message@
                        == "Cannot open binary file as text"@
                },
            },
    {
        if !exists {
            return Err(AppError::new("FILE_NOT_FOUND", "File does not exist"));
        }
        if !is_file {
            return Err(AppError::new("NOT_FILE", "Path is not a file"));
        }
        if SecurityService::is_binary_file(target, platform) {
            return Err(AppError::new("BINARY_FILE", "Cannot open binary file as text"));
        }
        Ok(())
    }

    /// The size check: files over 10 MiB are refused; files over 2 MiB open
    /// read-only (the result says whether the file is read-only).
    pub fn check_read_size(size: i64) -> (r: Result<bool, AppError>)
        ensures
            match r {
                Ok(read_only) => size <= max_read_size() && read_only == (size > max_edit_size()),
                Err(e) => size > max_read_size() && e.code@ == "FILE_TOO_LARGE"@ && e.message@
                    == "File exceeds maximum size limit of 10MB"@,
            },
    {
        if size > 10_485_760 {
            return Err(AppError::new("FILE_TOO_LARGE", "File exceeds maximum size limit of 10MB"));
        }
        Ok(size > 2_097_152)
    }

    /// The editor's record of a file that was read: the relative path is
    /// the one asked for, or the target's file name when none was given;
    /// the time is the file's modification time, or `now` (the caller's
    /// clock reading) when that cannot be had.
    pub fn build_read_result(
        project_root: &str,
        relative_path: &str,
        target: &str,
        content: String,
        size: i64,
        modified: Option<(i64, u32)>,
        now: String,
        read_only: bool,
        platform: Platform,
    ) -> (r: FileReadResult)
        ensures
            r.project_id@ == project_root@,
            r.relative_path@ == (if relative_path@.len() == 0 {
                match file_name_on(platform, target@) {
                    Some(n) => n,
                    None => Seq::empty(),
                }
            } else {
                relative_path@
            }),
            r.content == content,
            opt_view(r.language_id) == path_language(platform, target@),
            r.size == size,
            r.read_only == read_only,
            r.modified_at@ == match (match modified {
                Some(t) => rfc3339_of(t.0, t.1),
                None => None,
            }) {
                Some(m) => m,
                None => now@,
            },
    {
        let language_id = FileService::detect_language(target, platform);
        let modified_at = match modified_text(modified) {
            Some(t) => t,
            None => now,
        };
        let rel = chars_of(relative_path);
        let rel_path = if rel.len() == 0 {
            match file_name_in(platform, target) {
                Some(n) => n,
                None => String::new(),
            }
        } else {
            owned(relative_path)
        };
        FileReadResult {
            project_id: owned(project_root),
            relative_path: rel_path,
            content,
            language_id,
            size,
            modified_at,
            read_only,
        }
    }

    /// The answer to a saved file, with the file's new modification time
    /// (or `now`, the caller's clock reading, when that cannot be had).
    pub fn write_result(modified: Option<(i64, u32)>, now: String) -> (r: FileWriteResult)
        ensures
            r.ok,
            r.modified_at@ == match (match modified {
                Some(t) => rfc3339_of(t.0, t.1),
                None => None,
            }) {
                Some(m) => m,
                None => now@,
            },
    {
        let modified_at = match modified_text(modified) {
            Some(t) => t,
            None => now,
        };
        FileWriteResult { ok: true, modified_at }
    }
}


/// The file operations whose failures are reported as I/O errors.
pub enum IoStage {
    ReadDir,
    Metadata,
    ReadFile,
    CreateParent,
    Write,
    Finalize,
}

/// The words before the system's message for each stage.
pub open spec fn io_prefix(stage: IoStage) -> Seq<char> {
    match stage {
        IoStage::ReadDir => "Failed to read directory: "@,
        IoStage::Metadata => "Failed to get metadata: "@,
        IoStage::ReadFile => "Failed to read file: "@,
        IoStage::CreateParent => "Failed to create parent directory: "@,
        IoStage::Write => "Failed to write file: "@,
        IoStage::Finalize => "Failed to finalize file write: "@,
    }
}

impl FileService {
    /// The error for a failed file operation, around the system's message.
    pub fn io_error(stage: IoStage, detail: &str) -> (e: AppError)
        ensures
            e.code@ == "IO_ERROR"@,
            e.message@ == io_prefix(stage) + detail@,
    {
        let prefix = match stage {
            IoStage::ReadDir => "Failed to read directory: ",
            IoStage::Metadata => "Failed to get metadata: ",
            IoStage::ReadFile => "Failed to read file: ",
            IoStage::CreateParent => "Failed to create parent directory: ",
            IoStage::Write => "Failed to write file: ",
            IoStage::Finalize => "Failed to finalize file write: ",
        };
        AppError::new("IO_ERROR", concat(prefix, detail).as_str())
    }
}


/// Whether two characters of file names match: equal, or on Windows, whose
/// file systems ignore case, equal up to ASCII case.
pub open spec fn same_char_on(pl: Platform, a: char, b: char) -> bool {
    ||| a == b
    ||| pl == Platform::Windows && 'A' <= a && a <= 'Z' && (b as u32) == (a as u32) + 32
    ||| pl == Platform::Windows && 'A' <= b && b <= 'Z' && (a as u32) == (b as u32) + 32
}

/// Whether two file names name the same file in one directory.
pub open spec fn same_name_on(pl: Platform, a: Seq<char>, b: Seq<char>) -> bool {
    a.len() == b.len() && forall|i: int| 0 <= i < a.len() ==> same_char_on(pl, a[i], b[i])
}

/// Whether a name is free: it matches none of the names already taken.
pub open spec fn name_free(pl: Platform, name: Seq<char>, taken: Seq<Seq<char>>) -> bool {
    forall|i: int| 0 <= i < taken.len() ==> !same_name_on(pl, name, #[trigger] taken[i])
}

/// The `k`-th name tried for a temporary file: the stem, `.tmp`, and `k`
/// times `~`.
pub open spec fn temp_name(stem: Seq<char>, k: nat) -> Seq<char> {
    stem + seq!['.', 't', 'm', 'p'] + Seq::new(k, |i: int| '~')
}

/// Whether `r` is the temporary file chosen for `target`: the text before
/// the target's file name followed by the first free name tried, or the
/// target itself when it does not end in a file name.
pub open spec fn is_temp_choice(
    pl: Platform,
    target: Seq<char>,
    taken: Seq<Seq<char>>,
    r: Seq<char>,
) -> bool {
    match tmp_parts_on(pl, target) {
        None => r == target,
        Some((dir, stem)) => exists|k: nat|
            #![trigger temp_name(stem, k)]
            {
                &&& r == dir + temp_name(stem, k)
                &&& name_free(pl, temp_name(stem, k), taken)
                &&& forall|j: nat| j < k ==> !name_free(pl, #[trigger] temp_name(stem, j), taken)
            },
    }
}

fn same_char(pl: Platform, a: char, b: char) -> (r: bool)
    ensures
        r == same_char_on(pl, a, b),
{
    if a == b {
        return true;
    }
    if pl != Platform::Windows {
        return false;
    }
    let x = a as u32;
    let y = b as u32;
    (65 <= x && x <= 90 && y == x + 32) || (65 <= y && y <= 90 && x == y + 32)
}

fn same_name(pl: Platform, a: &[char], b: &str) -> (r: bool)
    ensures
        r == same_name_on(pl, a@, b@),
{
    let t = chars_of(b);
    if a.len() != t.len() {
        return false;
    }
    let mut i: usize = 0;
    while i < a.len()
        invariant
            i <= a@.len() == t@.len(),
            t@ == b@,
            forall|j: int| 0 <= j < i ==> same_char_on(pl, a@[j], b@[j]),
        decreases a@.len() - i,
    {
        if !same_char(pl, a[i], t[i]) {
            return false;
        }
        i = i + 1;
    }
    true
}

fn name_taken(pl: Platform, name: &[char], taken: &Vec<String>) -> (r: bool)
    ensures
        r == !name_free(pl, name@, taken.deep_view()),
{
    let mut i: usize = 0;
    while i < taken.len()
        invariant
            i <= taken@.len(),
            forall|j: int| 0 <= j < i ==> !same_name_on(pl, name@, #[trigger] taken.deep_view()[j]),
        decreases taken@.len() - i,
    {
        assert(taken.deep_view()[i as int] == taken@[i as int]@);
        if same_name(pl, name, taken[i].as_str()) {
            return true;
        }
        i = i + 1;
    }
    false
}

/// The longest of the names, in characters.
fn longest(taken: &Vec<String>) -> (m: usize)
    ensures
        forall|i: int| 0 <= i < taken@.len() ==> #[trigger] taken.deep_view()[i].len() <= m,
{
    let mut m: usize = 0;
    let mut i: usize = 0;
    while i < taken.len()
        invariant
            i <= taken@.len(),
            forall|j: int| 0 <= j < i ==> #[trigger] taken.deep_view()[j].len() <= m,
        decreases taken@.len() - i,
    {
        assert(taken.deep_view()[i as int] == taken@[i as int]@);
        let n = chars_of(taken[i].as_str()).len();
        if n > m {
            m = n;
        }
        i = i + 1;
    }
    m
}

impl FileService {
    /// The temporary file a save goes to before it is renamed over `target`,
    /// beside it in the same folder.  The first name tried is the target's
    /// stem with the extension `tmp`, as `Path::with_extension` gives under
    /// the platform's path rules; while a name matches one of `taken` (the
    /// names already in the folder), a `~` is added.  So the temporary file
    /// never replaces an existing one.  A target that does not end in a
    /// file name is returned unchanged.
    pub fn temp_write_path(target: &str, platform: Platform, taken: &Vec<String>) -> (r: String)
        ensures
            is_temp_choice(platform, target@, taken.deep_view(), r@),
    {
        match tmp_parts_in(platform, target) {
            None => owned(target),
            Some((dir, stem)) => {
                let m = longest(taken);
                let mut name = chars_of(stem.as_str());
                name.push('.');
                name.push('t');
                name.push('m');
                name.push('p');
                let ghost mut k: nat = 0;
                assert(name@ =~= temp_name(stem@, 0));
                loop
                    invariant
                        tmp_parts_on(platform, target@) == Some((dir@, stem@)),
                        name@ == temp_name(stem@, k),
                        forall|i: int| 0 <= i < taken@.len() ==> #[trigger] taken.deep_view()[i].len() <= m,
                        forall|j: nat| j < k ==> !name_free(platform, #[trigger] temp_name(stem@, j), taken.deep_view()),
                    decreases m + 1 - name@.len(),
                {
                    if !name_taken(platform, name.as_slice(), taken) {
                        let r = concat(dir.as_str(), string_from(name.as_slice()).as_str());
                        assert(r@ =~= dir@ + temp_name(stem@, k));
                        assert(name_free(platform, temp_name(stem@, k), taken.deep_view()));
                        proof {
                            let parts = tmp_parts_on(platform, target@);
                            let pair = parts.unwrap();
                            let d = pair.0;
                            let st = pair.1;
                            assert(d == dir@ && st == stem@);
                            assert(r@ == d + temp_name(st, k));
                            assert(name_free(platform, temp_name(st, k), taken.deep_view()));
                            assert(forall|j: nat|
                                j < k ==> !name_free(
                                    platform,
                                    #[trigger] temp_name(st, j),
                                    taken.deep_view(),
                                ));
                        }
                        assert(is_temp_choice(platform, target@, taken.deep_view(), r@));
                        return r;
                    }
                    let ghost i = choose|i: int| 0 <= i < taken.deep_view().len() && same_name_on(platform, name@, taken.deep_view()[i]);
                    assert(name@.len() <= m);
                    name.push('~');
                    proof {
                        k = k + 1;
                    }
                    assert(name@ =~= temp_name(stem@, k));
                }
            },
        }
    }
}


/// Whether entries are in listing order: no entry goes before an earlier one.
pub open spec fn in_listing_order(v: Seq<DirEntryInfo>) -> bool {
    forall|i: int, j: int| 0 <= i < j < v.len() ==> !goes_before(#[trigger] v[j], #[trigger] v[i])
}

proof fn lemma_name_lt_irreflexive(a: Seq<char>)
    ensures
        !name_lt(a, a),
    decreases a.len(),
{
    if a.len() > 0 {
        lemma_name_lt_irreflexive(a.drop_first());
    }
}

proof fn lemma_name_lt_transitive(a: Seq<char>, b: Seq<char>, c: Seq<char>)
    requires
        name_lt(a, b),
        name_lt(b, c),
    ensures
        name_lt(a, c),
    decreases a.len(),
{
    if a.len() > 0 && b.len() > 0 && c.len() > 0 && a[0] == b[0] && b[0] == c[0] {
        lemma_name_lt_transitive(a.drop_first(), b.drop_first(), c.drop_first());
    }
}

proof fn lemma_goes_before_order(a: DirEntryInfo, b: DirEntryInfo, c: DirEntryInfo)
    ensures
        !goes_before(a, a),
        goes_before(a, b) && goes_before(b, c) ==> goes_before(a, c),
{
    lemma_name_lt_irreflexive(a.name@);
    if goes_before(a, b) && goes_before(b, c) && entry_is_dir(a) == entry_is_dir(b) && entry_is_dir(
        b,
    ) == entry_is_dir(c) {
        lemma_name_lt_transitive(a.name@, b.name@, c.name@);
    }
}

proof fn lemma_insert_position(t: Seq<DirEntryInfo>, x: DirEntryInfo)
    ensures
        0 <= insert_position(t, x) <= t.len(),
        forall|j: int| 0 <= j < insert_position(t, x) ==> !goes_before(x, #[trigger] t[j]),
        insert_position(t, x) < t.len() ==> goes_before(x, t[insert_position(t, x)]),
    decreases t.len(),
{
    if t.len() > 0 && !goes_before(x, t[0]) {
        let r = t.drop_first();
        lemma_insert_position(r, x);
        assert forall|j: int| 0 <= j < insert_position(t, x) implies !goes_before(
            x,
            #[trigger] t[j],
        ) by {
            if j > 0 {
                assert(t[j] == r[j - 1]);
            }
        }
    }
}

proof fn lemma_insert_keeps_order(t: Seq<DirEntryInfo>, x: DirEntryInfo)
    requires
        in_listing_order(t),
    ensures
        in_listing_order(t.insert(insert_position(t, x), x)),
{
    let p = insert_position(t, x);
    lemma_insert_position(t, x);
    let u = t.insert(p, x);
    assert forall|i: int, j: int| 0 <= i < j < u.len() implies !goes_before(
        #[trigger] u[j],
        #[trigger] u[i],
    ) by {
        if j < p {
            assert(u[i] == t[i] && u[j] == t[j]);
        } else if j == p {
            assert(u[i] == t[i] && u[j] == x);
        } else if i < p {
            assert(u[i] == t[i] && u[j] == t[j - 1]);
        } else if i == p {
            assert(u[i] == x && u[j] == t[j - 1]);
            lemma_goes_before_order(t[j - 1], x, t[p]);
            if j - 1 > p {
                assert(!goes_before(t[j - 1], t[p]));
            }
        } else {
            assert(u[i] == t[i - 1] && u[j] == t[j - 1]);
        }
    }
}

proof fn lemma_sort_entries(s: Seq<DirEntryInfo>)
    ensures
        in_listing_order(sort_entries(s)),
        sort_entries(s).to_multiset() == s.to_multiset(),
    decreases s.len(),
{
    if s.len() > 0 {
        let t = sort_entries(s.drop_last());
        lemma_sort_entries(s.drop_last());
        lemma_insert_keeps_order(t, s.last());
        lemma_insert_position(t, s.last());
        vstd::seq_lib::to_multiset_insert(t, insert_position(t, s.last()), s.last());
        vstd::seq_lib::to_multiset_build(s.drop_last(), s.last());
        assert(s.drop_last().push(s.last()) =~= s);
    } else {
        assert(sort_entries(s) == s);
    }
}

proof fn lemma_visible_keeps_order(s: Seq<DirEntryInfo>)
    requires
        in_listing_order(s),
    ensures
        in_listing_order(visible_entries(s)),
        forall|i: int|
            0 <= i < visible_entries(s).len() ==> s.contains(#[trigger] visible_entries(s)[i]),
    decreases s.len(),
{
    if s.len() > 0 {
        let init = s.drop_last();
        assert(in_listing_order(init)) by {
            assert forall|i: int, j: int| 0 <= i < j < init.len() implies !goes_before(
                #[trigger] init[j],
                #[trigger] init[i],
            ) by {
                assert(init[i] == s[i] && init[j] == s[j]);
            }
        }
        lemma_visible_keeps_order(init);
        let r = visible_entries(init);
        assert forall|i: int| 0 <= i < r.len() implies s.contains(#[trigger] r[i]) by {
            let k = choose|k: int| 0 <= k < init.len() && init[k] == r[i];
            assert(s[k] == r[i]);
        }
        if !is_ignored_name(s.last().name@) {
            let v = r.push(s.last());
            assert forall|i: int, j: int| 0 <= i < j < v.len() implies !goes_before(
                #[trigger] v[j],
                #[trigger] v[i],
            ) by {
                if j < r.len() {
                    assert(v[i] == r[i] && v[j] == r[j]);
                } else {
                    assert(v[j] == s.last());
                    assert(v[i] == r[i]);
                    assert(init.contains(r[i]));
                    let k = choose|k: int| 0 <= k < init.len() && init[k] == r[i];
                    assert(s[k] == r[i]);
                    assert(s[s.len() - 1] == s.last());
                }
            }
            assert forall|i: int| 0 <= i < v.len() implies s.contains(#[trigger] v[i]) by {
                if i < r.len() {
                    assert(v[i] == r[i]);
                } else {
                    assert(s[s.len() - 1] == v[i]);
                }
            }
        }
    }
}

/// A directory listing is in order — directories before other entries,
/// entries of the same kind by name — and sorting loses no entry and adds
/// none.
pub proof fn lemma_listing_in_order(entries: Seq<DirEntryInfo>)
    ensures
        in_listing_order(visible_entries(sort_entries(entries))),
        sort_entries(entries).to_multiset() == entries.to_multiset(),
{
    lemma_sort_entries(entries);
    lemma_visible_keeps_order(sort_entries(entries));
}

/// In a listing no directory comes after a non-directory, and of two
/// entries of the same kind the later never has the smaller name.
pub proof fn lemma_listing_dirs_first(entries: Seq<DirEntryInfo>)
    ensures
        forall|i: int, j: int|
            0 <= i < j < visible_entries(sort_entries(entries)).len() && entry_is_dir(
                #[trigger] visible_entries(sort_entries(entries))[j],
            ) ==> entry_is_dir(#[trigger] visible_entries(sort_entries(entries))[i]),
        forall|i: int, j: int|
            0 <= i < j < visible_entries(sort_entries(entries)).len() && entry_is_dir(
                #[trigger] visible_entries(sort_entries(entries))[i],
            ) == entry_is_dir(#[trigger] visible_entries(sort_entries(entries))[j]) ==> !name_lt(
                visible_entries(sort_entries(entries))[j].name@,
                visible_entries(sort_entries(entries))[i].name@,
            ),
{
    lemma_listing_in_order(entries);
}

/// Names compare by character code from the left: a proper prefix comes
/// first, and otherwise the first differing character decides; no name
/// comes before itself.
pub proof fn lemma_name_order(a: Seq<char>, b: Seq<char>, k: int)
    requires
        0 <= k <= a.len(),
        k <= b.len(),
        a.take(k) == b.take(k),
    ensures
        !name_lt(a, a),
        k == a.len() && k < b.len() ==> name_lt(a, b) && !name_lt(b, a),
        k < a.len() && k < b.len() && a[k] < b[k] ==> name_lt(a, b) && !name_lt(b, a),
    decreases k,
{
    lemma_name_lt_irreflexive(a);
    if k > 0 {
        assert(a[0] == a.take(k)[0] && b[0] == b.take(k)[0]);
        assert(a.drop_first().take(k - 1) =~= b.drop_first().take(k - 1)) by {
            assert forall|i: int| 0 <= i < k - 1 implies #[trigger] a.drop_first().take(k - 1)[i]
                == b.drop_first().take(k - 1)[i] by {
                assert(a.take(k)[i + 1] == b.take(k)[i + 1]);
                assert(a.take(k)[i + 1] == a[i + 1] && b.take(k)[i + 1] == b[i + 1]);
            }
        }
        lemma_name_order(a.drop_first(), b.drop_first(), k - 1);
    }
}

/// The ten folder and file names a listing leaves out.
pub open spec fn listed_out(n: Seq<char>) -> bool {
    n == ".git"@ || n == "node_modules"@ || n == "dist"@ || n == "build"@ || n == ".next"@
        || n == ".nuxt"@ || n == "target"@ || n == "coverage"@ || n == ".cache"@ || n == "vendor"@
}

/// A listing never shows `.git`, `node_modules`, `dist`, `build`, `.next`,
/// `.nuxt`, `target`, `coverage`, `.cache` or `vendor`, and it shows every
/// other entry it is given.
pub proof fn lemma_listing_leaves_out_ignored(s: Seq<DirEntryInfo>)
    ensures
        forall|i: int|
            0 <= i < visible_entries(s).len() ==> !listed_out(#[trigger] visible_entries(s)[i].name@),
        forall|j: int|
            0 <= j < s.len() && !listed_out(#[trigger] s[j].name@) ==> visible_entries(s).contains(s[j]),
    decreases s.len(),
{
    if s.len() > 0 {
        let init = s.drop_last();
        lemma_listing_leaves_out_ignored(init);
        let r = visible_entries(init);
        let v = visible_entries(s);
        assert forall|i: int| 0 <= i < v.len() implies !listed_out(#[trigger] v[i].name@) by {
            if i < r.len() {
                assert(v[i] == r[i]);
            }
        }
        assert forall|j: int| 0 <= j < s.len() && !listed_out(#[trigger] s[j].name@) implies v.contains(
            s[j],
        ) by {
            if j < init.len() {
                assert(init[j] == s[j]);
                let m = choose|m: int| 0 <= m < r.len() && r[m] == s[j];
                assert(v[m] == r[m]);
            } else {
                assert(s[j] == s.last());
                assert(v[v.len() - 1] == s.last());
            }
        }
    }
}

/// The editor's language table: each listed extension names its language.
pub proof fn lemma_language_table()
    ensures
        language_for("ts"@) == Some("typescript"@),
        language_for("tsx"@) == Some("typescript"@),
        language_for("js"@) == Some("javascript"@),
        language_for("jsx"@) == Some("javascript"@),
        language_for("mjs"@) == Some("javascript"@),
        language_for("rs"@) == Some("rust"@),
        language_for("py"@) == Some("python"@),
        language_for("go"@) == Some("go"@),
        language_for("java"@) == Some("java"@),
        language_for("c"@) == Some("c"@),
        language_for("h"@) == Some("c"@),
        language_for("cpp"@) == Some("cpp"@),
        language_for("hpp"@) == Some("cpp"@),
        language_for("cc"@) == Some("cpp"@),
        language_for("cxx"@) == Some("cpp"@),
        language_for("cs"@) == Some("csharp"@),
        language_for("html"@) == Some("html"@),
        language_for("htm"@) == Some("html"@),
        language_for("css"@) == Some("css"@),
        language_for("scss"@) == Some("css"@),
        language_for("less"@) == Some("css"@),
        language_for("json"@) == Some("json"@),
        language_for("xml"@) == Some("xml"@),
        language_for("svg"@) == Some("xml"@),
        language_for("yaml"@) == Some("yaml"@),
        language_for("yml"@) == Some("yaml"@),
        language_for("md"@) == Some("markdown"@),
        language_for("markdown"@) == Some("markdown"@),
        language_for("sql"@) == Some("sql"@),
        language_for("sh"@) == Some("shell"@),
        language_for("bash"@) == Some("shell"@),
        language_for("zsh"@) == Some("shell"@),
        language_for("ps1"@) == Some("powershell"@),
        language_for("toml"@) == Some("toml"@),
        language_for("ini"@) == Some("ini"@),
        language_for("cfg"@) == Some("ini"@),
        language_for("conf"@) == Some("ini"@),
        language_for("vue"@) == Some("vue"@),
        language_for("svelte"@) == Some("svelte"@),
        language_for("rb"@) == Some("ruby"@),
        language_for("php"@) == Some("php"@),
        language_for("swift"@) == Some("swift"@),
        language_for("kt"@) == Some("kotlin"@),
        language_for("kts"@) == Some("kotlin"@),
        language_for("dart"@) == Some("dart"@),
        language_for("lua"@) == Some("lua"@),
        language_for("r"@) == Some("r"@),
        language_for("txt"@) is None,
{
    reveal_strlit("ts");
    reveal_strlit("tsx");
    reveal_strlit("js");
    reveal_strlit("jsx");
    reveal_strlit("mjs");
    reveal_strlit("rs");
    reveal_strlit("py");
    reveal_strlit("go");
    reveal_strlit("java");
    reveal_strlit("c");
    reveal_strlit("h");
    reveal_strlit("cpp");
    reveal_strlit("hpp");
    reveal_strlit("cc");
    reveal_strlit("cxx");
    reveal_strlit("cs");
    reveal_strlit("html");
    reveal_strlit("htm");
    reveal_strlit("css");
    reveal_strlit("scss");
    reveal_strlit("less");
    reveal_strlit("json");
    reveal_strlit("xml");
    reveal_strlit("svg");
    reveal_strlit("yaml");
    reveal_strlit("yml");
    reveal_strlit("md");
    reveal_strlit("markdown");
    reveal_strlit("sql");
    reveal_strlit("sh");
    reveal_strlit("bash");
    reveal_strlit("zsh");
    reveal_strlit("ps1");
    reveal_strlit("toml");
    reveal_strlit("ini");
    reveal_strlit("cfg");
    reveal_strlit("conf");
    reveal_strlit("vue");
    reveal_strlit("svelte");
    reveal_strlit("rb");
    reveal_strlit("php");
    reveal_strlit("swift");
    reveal_strlit("kt");
    reveal_strlit("kts");
    reveal_strlit("dart");
    reveal_strlit("lua");
    reveal_strlit("r");
    reveal_strlit("txt");
    assert(language_for("ts"@) == Some("typescript"@));
    assert(language_for("tsx"@) == Some("typescript"@)) by {
        assert("tsx"@.len() != "ts"@.len());
    }
    assert(language_for("js"@) == Some("javascript"@)) by {
        assert("js"@[0] != "ts"@[0] && "js"@.len() != "tsx"@.len());
    }
    assert(language_for("jsx"@) == Some("javascript"@)) by {
        assert("jsx"@.len() != "ts"@.len() && "jsx"@[0] != "tsx"@[0]
            && "jsx"@.len() != "js"@.len());
    }
    assert(language_for("mjs"@) == Some("javascript"@)) by {
        assert("mjs"@.len() != "ts"@.len() && "mjs"@[0] != "tsx"@[0]
            && "mjs"@.len() != "js"@.len() && "mjs"@[0] != "jsx"@[0]);
    }
    assert(language_for("rs"@) == Some("rust"@)) by {
        assert("rs"@[0] != "ts"@[0] && "rs"@.len() != "tsx"@.len() && "rs"@[0] != "js"@[0]
            && "rs"@.len() != "jsx"@.len() && "rs"@.len() != "mjs"@.len());
    }
    assert(language_for("py"@) == Some("python"@)) by {
        assert("py"@[0] != "ts"@[0] && "py"@.len() != "tsx"@.len() && "py"@[0] != "js"@[0]
            && "py"@.len() != "jsx"@.len() && "py"@.len() != "mjs"@.len()
            && "py"@[0] != "rs"@[0]);
    }
    assert(language_for("go"@) == Some("go"@)) by {
        assert("go"@[0] != "ts"@[0] && "go"@.len() != "tsx"@.len() && "go"@[0] != "js"@[0]
            && "go"@.len() != "jsx"@.len() && "go"@.len() != "mjs"@.len()
            && "go"@[0] != "rs"@[0] && "go"@[0] != "py"@[0]);
    }
    assert(language_for("java"@) == Some("java"@)) by {
        assert("java"@.len() != "ts"@.len() && "java"@.len() != "tsx"@.len()
            && "java"@.len() != "js"@.len() && "java"@.len() != "jsx"@.len()
            && "java"@.len() != "mjs"@.len() && "java"@.len() != "rs"@.len()
            && "java"@.len() != "py"@.len() && "java"@.len() != "go"@.len());
    }
    assert(language_for("c"@) == Some("c"@)) by {
        assert("c"@.len() != "ts"@.len() && "c"@.len() != "tsx"@.len()
            && "c"@.len() != "js"@.len() && "c"@.len() != "jsx"@.len()
            && "c"@.len() != "mjs"@.len() && "c"@.len() != "rs"@.len()
            && "c"@.len() != "py"@.len() && "c"@.len() != "go"@.len()
            && "c"@.len() != "java"@.len());
    }
    assert(language_for("h"@) == Some("c"@)) by {
        assert("h"@.len() != "ts"@.len() && "h"@.len() != "tsx"@.len()
            && "h"@.len() != "js"@.len() && "h"@.len() != "jsx"@.len()
            && "h"@.len() != "mjs"@.len() && "h"@.len() != "rs"@.len()
            && "h"@.len() != "py"@.len() && "h"@.len() != "go"@.len()
            && "h"@.len() != "java"@.len() && "h"@[0] != "c"@[0]);
    }
    assert(language_for("cpp"@) == Some("cpp"@)) by {
        assert("cpp"@.len() != "ts"@.len() && "cpp"@[0] != "tsx"@[0]
            && "cpp"@.len() != "js"@.len() && "cpp"@[0] != "jsx"@[0] && "cpp"@[0] != "mjs"@[0]
            && "cpp"@.len() != "rs"@.len() && "cpp"@.len() != "py"@.len()
            && "cpp"@.len() != "go"@.len() && "cpp"@.len() != "java"@.len()
            && "cpp"@.len() != "c"@.len() && "cpp"@.len() != "h"@.len());
    }
    assert(language_for("hpp"@) == Some("cpp"@)) by {
        assert("hpp"@.len() != "ts"@.len() && "hpp"@[0] != "tsx"@[0]
            && "hpp"@.len() != "js"@.len() && "hpp"@[0] != "jsx"@[0] && "hpp"@[0] != "mjs"@[0]
            && "hpp"@.len() != "rs"@.len() && "hpp"@.len() != "py"@.len()
            && "hpp"@.len() != "go"@.len() && "hpp"@.len() != "java"@.len()
            && "hpp"@.len() != "c"@.len() && "hpp"@.len() != "h"@.len()
            && "hpp"@[0] != "cpp"@[0]);
    }
    assert(language_for("cc"@) == Some("cpp"@)) by {
        assert("cc"@[0] != "ts"@[0] && "cc"@.len() != "tsx"@.len() && "cc"@[0] != "js"@[0]
            && "cc"@.len() != "jsx"@.len() && "cc"@.len() != "mjs"@.len()
            && "cc"@[0] != "rs"@[0] && "cc"@[0] != "py"@[0] && "cc"@[0] != "go"@[0]
            && "cc"@.len() != "java"@.len() && "cc"@.len() != "c"@.len()
            && "cc"@.len() != "h"@.len() && "cc"@.len() != "cpp"@.len()
            && "cc"@.len() != "hpp"@.len());
    }
    assert(language_for("cxx"@) == Some("cpp"@)) by {
        assert("cxx"@.len() != "ts"@.len() && "cxx"@[0] != "tsx"@[0]
            && "cxx"@.len() != "js"@.len() && "cxx"@[0] != "jsx"@[0] && "cxx"@[0] != "mjs"@[0]
            && "cxx"@.len() != "rs"@.len() && "cxx"@.len() != "py"@.len()
            && "cxx"@.len() != "go"@.len() && "cxx"@.len() != "java"@.len()
            && "cxx"@.len() != "c"@.len() && "cxx"@.len() != "h"@.len()
            && "cxx"@[1] != "cpp"@[1] && "cxx"@[0] != "hpp"@[0] && "cxx"@.len() != "cc"@.len());
    }
    assert(language_for("cs"@) == Some("csharp"@)) by {
        assert("cs"@[0] != "ts"@[0] && "cs"@.len() != "tsx"@.len() && "cs"@[0] != "js"@[0]
            && "cs"@.len() != "jsx"@.len() && "cs"@.len() != "mjs"@.len()
            && "cs"@[0] != "rs"@[0] && "cs"@[0] != "py"@[0] && "cs"@[0] != "go"@[0]
            && "cs"@.len() != "java"@.len() && "cs"@.len() != "c"@.len()
            && "cs"@.len() != "h"@.len() && "cs"@.len() != "cpp"@.len()
            && "cs"@.len() != "hpp"@.len() && "cs"@[1] != "cc"@[1]
            && "cs"@.len() != "cxx"@.len());
    }
    assert(language_for("html"@) == Some("html"@)) by {
        assert("html"@.len() != "ts"@.len() && "html"@.len() != "tsx"@.len()
            && "html"@.len() != "js"@.len() && "html"@.len() != "jsx"@.len()
            && "html"@.len() != "mjs"@.len() && "html"@.len() != "rs"@.len()
            && "html"@.len() != "py"@.len() && "html"@.len() != "go"@.len()
            && "html"@[0] != "java"@[0] && "html"@.len() != "c"@.len()
            && "html"@.len() != "h"@.len() && "html"@.len() != "cpp"@.len()
            && "html"@.len() != "hpp"@.len() && "html"@.len() != "cc"@.len()
            && "html"@.len() != "cxx"@.len() && "html"@.len() != "cs"@.len());
    }
    assert(language_for("htm"@) == Some("html"@)) by {
        assert("htm"@.len() != "ts"@.len() && "htm"@[0] != "tsx"@[0]
            && "htm"@.len() != "js"@.len() && "htm"@[0] != "jsx"@[0] && "htm"@[0] != "mjs"@[0]
            && "htm"@.len() != "rs"@.len() && "htm"@.len() != "py"@.len()
            && "htm"@.len() != "go"@.len() && "htm"@.len() != "java"@.len()
            && "htm"@.len() != "c"@.len() && "htm"@.len() != "h"@.len()
            && "htm"@[0] != "cpp"@[0] && "htm"@[1] != "hpp"@[1] && "htm"@.len() != "cc"@.len()
            && "htm"@[0] != "cxx"@[0] && "htm"@.len() != "cs"@.len()
            && "htm"@.len() != "html"@.len());
    }
    assert(language_for("css"@) == Some("css"@)) by {
        assert("css"@.len() != "ts"@.len() && "css"@[0] != "tsx"@[0]
            && "css"@.len() != "js"@.len() && "css"@[0] != "jsx"@[0] && "css"@[0] != "mjs"@[0]
            && "css"@.len() != "rs"@.len() && "css"@.len() != "py"@.len()
            && "css"@.len() != "go"@.len() && "css"@.len() != "java"@.len()
            && "css"@.len() != "c"@.len() && "css"@.len() != "h"@.len()
            && "css"@[1] != "cpp"@[1] && "css"@[0] != "hpp"@[0] && "css"@.len() != "cc"@.len()
            && "css"@[1] != "cxx"@[1] && "css"@.len() != "cs"@.len()
            && "css"@.len() != "html"@.len() && "css"@[0] != "htm"@[0]);
    }
    assert(language_for("scss"@) == Some("css"@)) by {
        assert("scss"@.len() != "ts"@.len() && "scss"@.len() != "tsx"@.len()
            && "scss"@.len() != "js"@.len() && "scss"@.len() != "jsx"@.len()
            && "scss"@.len() != "mjs"@.len() && "scss"@.len() != "rs"@.len()
            && "scss"@.len() != "py"@.len() && "scss"@.len() != "go"@.len()
            && "scss"@[0] != "java"@[0] && "scss"@.len() != "c"@.len()
            && "scss"@.len() != "h"@.len() && "scss"@.len() != "cpp"@.len()
            && "scss"@.len() != "hpp"@.len() && "scss"@.len() != "cc"@.len()
            && "scss"@.len() != "cxx"@.len() && "scss"@.len() != "cs"@.len()
            && "scss"@[0] != "html"@[0] && "scss"@.len() != "htm"@.len()
            && "scss"@.len() != "css"@.len());
    }
    assert(language_for("less"@) == Some("css"@)) by {
        assert("less"@.len() != "ts"@.len() && "less"@.len() != "tsx"@.len()
            && "less"@.len() != "js"@.len() && "less"@.len() != "jsx"@.len()
            && "less"@.len() != "mjs"@.len() && "less"@.len() != "rs"@.len()
            && "less"@.len() != "py"@.len() && "less"@.len() != "go"@.len()
            && "less"@[0] != "java"@[0] && "less"@.len() != "c"@.len()
            && "less"@.len() != "h"@.len() && "less"@.len() != "cpp"@.len()
            && "less"@.len() != "hpp"@.len() && "less"@.len() != "cc"@.len()
            && "less"@.len() != "cxx"@.len() && "less"@.len() != "cs"@.len()
            && "less"@[0] != "html"@[0] && "less"@.len() != "htm"@.len()
            && "less"@.len() != "css"@.len() && "less"@[0] != "scss"@[0]);
    }
    assert(language_for("json"@) == Some("json"@)) by {
        assert("json"@.len() != "ts"@.len() && "json"@.len() != "tsx"@.len()
            && "json"@.len() != "js"@.len() && "json"@.len() != "jsx"@.len()
            && "json"@.len() != "mjs"@.len() && "json"@.len() != "rs"@.len()
            && "json"@.len() != "py"@.len() && "json"@.len() != "go"@.len()
            && "json"@[1] != "java"@[1] && "json"@.len() != "c"@.len()
            && "json"@.len() != "h"@.len() && "json"@.len() != "cpp"@.len()
            && "json"@.len() != "hpp"@.len() && "json"@.len() != "cc"@.len()
            && "json"@.len() != "cxx"@.len() && "json"@.len() != "cs"@.len()
            && "json"@[0] != "html"@[0] && "json"@.len() != "htm"@.len()
            && "json"@.len() != "css"@.len() && "json"@[0] != "scss"@[0]
            && "json"@[0] != "less"@[0]);
    }
    assert(language_for("xml"@) == Some("xml"@)) by {
        assert("xml"@.len() != "ts"@.len() && "xml"@[0] != "tsx"@[0]
            && "xml"@.len() != "js"@.len() && "xml"@[0] != "jsx"@[0] && "xml"@[0] != "mjs"@[0]
            && "xml"@.len() != "rs"@.len() && "xml"@.len() != "py"@.len()
            && "xml"@.len() != "go"@.len() && "xml"@.len() != "java"@.len()
            && "xml"@.len() != "c"@.len() && "xml"@.len() != "h"@.len()
            && "xml"@[0] != "cpp"@[0] && "xml"@[0] != "hpp"@[0] && "xml"@.len() != "cc"@.len()
            && "xml"@[0] != "cxx"@[0] && "xml"@.len() != "cs"@.len()
            && "xml"@.len() != "html"@.len() && "xml"@[0] != "htm"@[0] && "xml"@[0] != "css"@[0]
            && "xml"@.len() != "scss"@.len() && "xml"@.len() != "less"@.len()
            && "xml"@.len() != "json"@.len());
    }
    assert(language_for("svg"@) == Some("xml"@)) by {
        assert("svg"@.len() != "ts"@.len() && "svg"@[0] != "tsx"@[0]
            && "svg"@.len() != "js"@.len() && "svg"@[0] != "jsx"@[0] && "svg"@[0] != "mjs"@[0]
            && "svg"@.len() != "rs"@.len() && "svg"@.len() != "py"@.len()
            && "svg"@.len() != "go"@.len() && "svg"@.len() != "java"@.len()
            && "svg"@.len() != "c"@.len() && "svg"@.len() != "h"@.len()
            && "svg"@[0] != "cpp"@[0] && "svg"@[0] != "hpp"@[0] && "svg"@.len() != "cc"@.len()
            && "svg"@[0] != "cxx"@[0] && "svg"@.len() != "cs"@.len()
            && "svg"@.len() != "html"@.len() && "svg"@[0] != "htm"@[0] && "svg"@[0] != "css"@[0]
            && "svg"@.len() != "scss"@.len() && "svg"@.len() != "less"@.len()
            && "svg"@.len() != "json"@.len() && "svg"@[0] != "xml"@[0]);
    }
    assert(language_for("yaml"@) == Some("yaml"@)) by {
        assert("yaml"@.len() != "ts"@.len() && "yaml"@.len() != "tsx"@.len()
            && "yaml"@.len() != "js"@.len() && "yaml"@.len() != "jsx"@.len()
            && "yaml"@.len() != "mjs"@.len() && "yaml"@.len() != "rs"@.len()
            && "yaml"@.len() != "py"@.len() && "yaml"@.len() != "go"@.len()
            && "yaml"@[0] != "java"@[0] && "yaml"@.len() != "c"@.len()
            && "yaml"@.len() != "h"@.len() && "yaml"@.len() != "cpp"@.len()
            && "yaml"@.len() != "hpp"@.len() && "yaml"@.len() != "cc"@.len()
            && "yaml"@.len() != "cxx"@.len() && "yaml"@.len() != "cs"@.len()
            && "yaml"@[0] != "html"@[0] && "yaml"@.len() != "htm"@.len()
            && "yaml"@.len() != "css"@.len() && "yaml"@[0] != "scss"@[0]
            && "yaml"@[0] != "less"@[0] && "yaml"@[0] != "json"@[0]
            && "yaml"@.len() != "xml"@.len() && "yaml"@.len() != "svg"@.len());
    }
    assert(language_for("yml"@) == Some("yaml"@)) by {
        assert("yml"@.len() != "ts"@.len() && "yml"@[0] != "tsx"@[0]
            && "yml"@.len() != "js"@.len() && "yml"@[0] != "jsx"@[0] && "yml"@[0] != "mjs"@[0]
            && "yml"@.len() != "rs"@.len() && "yml"@.len() != "py"@.len()
            && "yml"@.len() != "go"@.len() && "yml"@.len() != "java"@.len()
            && "yml"@.len() != "c"@.len() && "yml"@.len() != "h"@.len()
            && "yml"@[0] != "cpp"@[0] && "yml"@[0] != "hpp"@[0] && "yml"@.len() != "cc"@.len()
            && "yml"@[0] != "cxx"@[0] && "yml"@.len() != "cs"@.len()
            && "yml"@.len() != "html"@.len() && "yml"@[0] != "htm"@[0] && "yml"@[0] != "css"@[0]
            && "yml"@.len() != "scss"@.len() && "yml"@.len() != "less"@.len()
            && "yml"@.len() != "json"@.len() && "yml"@[0] != "xml"@[0] && "yml"@[0] != "svg"@[0]
            && "yml"@.len() != "yaml"@.len());
    }
    assert(language_for("md"@) == Some("markdown"@)) by {
        assert("md"@[0] != "ts"@[0] && "md"@.len() != "tsx"@.len() && "md"@[0] != "js"@[0]
            && "md"@.len() != "jsx"@.len() && "md"@.len() != "mjs"@.len()
            && "md"@[0] != "rs"@[0] && "md"@[0] != "py"@[0] && "md"@[0] != "go"@[0]
            && "md"@.len() != "java"@.len() && "md"@.len() != "c"@.len()
            && "md"@.len() != "h"@.len() && "md"@.len() != "cpp"@.len()
            && "md"@.len() != "hpp"@.len() && "md"@[0] != "cc"@[0]
            && "md"@.len() != "cxx"@.len() && "md"@[0] != "cs"@[0]
            && "md"@.len() != "html"@.len() && "md"@.len() != "htm"@.len()
            && "md"@.len() != "css"@.len() && "md"@.len() != "scss"@.len()
            && "md"@.len() != "less"@.len() && "md"@.len() != "json"@.len()
            && "md"@.len() != "xml"@.len() && "md"@.len() != "svg"@.len()
            && "md"@.len() != "yaml"@.len() && "md"@.len() != "yml"@.len());
    }
    assert(language_for("markdown"@) == Some("markdown"@)) by {
        assert("markdown"@.len() != "ts"@.len() && "markdown"@.len() != "tsx"@.len()
            && "markdown"@.len() != "js"@.len() && "markdown"@.len() != "jsx"@.len()
            && "markdown"@.len() != "mjs"@.len() && "markdown"@.len() != "rs"@.len()
            && "markdown"@.len() != "py"@.len() && "markdown"@.len() != "go"@.len()
            && "markdown"@.len() != "java"@.len() && "markdown"@.len() != "c"@.len()
            && "markdown"@.len() != "h"@.len() && "markdown"@.len() != "cpp"@.len()
            && "markdown"@.len() != "hpp"@.len() && "markdown"@.len() != "cc"@.len()
            && "markdown"@.len() != "cxx"@.len() && "markdown"@.len() != "cs"@.len()
            && "markdown"@.len() != "html"@.len() && "markdown"@.len() != "htm"@.len()
            && "markdown"@.len() != "css"@.len() && "markdown"@.len() != "scss"@.len()
            && "markdown"@.len() != "less"@.len() && "markdown"@.len() != "json"@.len()
            && "markdown"@.len() != "xml"@.len() && "markdown"@.len() != "svg"@.len()
            && "markdown"@.len() != "yaml"@.len() && "markdown"@.len() != "yml"@.len()
            && "markdown"@.len() != "md"@.len());
    }
    assert(language_for("sql"@) == Some("sql"@)) by {
        assert("sql"@.len() != "ts"@.len() && "sql"@[0] != "tsx"@[0]
            && "sql"@.len() != "js"@.len() && "sql"@[0] != "jsx"@[0] && "sql"@[0] != "mjs"@[0]
            && "sql"@.len() != "rs"@.len() && "sql"@.len() != "py"@.len()
            && "sql"@.len() != "go"@.len() && "sql"@.len() != "java"@.len()
            && "sql"@.len() != "c"@.len() && "sql"@.len() != "h"@.len()
            && "sql"@[0] != "cpp"@[0] && "sql"@[0] != "hpp"@[0] && "sql"@.len() != "cc"@.len()
            && "sql"@[0] != "cxx"@[0] && "sql"@.len() != "cs"@.len()
            && "sql"@.len() != "html"@.len() && "sql"@[0] != "htm"@[0] && "sql"@[0] != "css"@[0]
            && "sql"@.len() != "scss"@.len() && "sql"@.len() != "less"@.len()
            && "sql"@.len() != "json"@.len() && "sql"@[0] != "xml"@[0] && "sql"@[1] != "svg"@[1]
            && "sql"@.len() != "yaml"@.len() && "sql"@[0] != "yml"@[0]
            && "sql"@.len() != "md"@.len() && "sql"@.len() != "markdown"@.len());
    }
    assert(language_for("sh"@) == Some("shell"@)) by {
        assert("sh"@[0] != "ts"@[0] && "sh"@.len() != "tsx"@.len() && "sh"@[0] != "js"@[0]
            && "sh"@.len() != "jsx"@.len() && "sh"@.len() != "mjs"@.len()
            && "sh"@[0] != "rs"@[0] && "sh"@[0] != "py"@[0] && "sh"@[0] != "go"@[0]
            && "sh"@.len() != "java"@.len() && "sh"@.len() != "c"@.len()
            && "sh"@.len() != "h"@.len() && "sh"@.len() != "cpp"@.len()
            && "sh"@.len() != "hpp"@.len() && "sh"@[0] != "cc"@[0]
            && "sh"@.len() != "cxx"@.len() && "sh"@[0] != "cs"@[0]
            && "sh"@.len() != "html"@.len() && "sh"@.len() != "htm"@.len()
            && "sh"@.len() != "css"@.len() && "sh"@.len() != "scss"@.len()
            && "sh"@.len() != "less"@.len() && "sh"@.len() != "json"@.len()
            && "sh"@.len() != "xml"@.len() && "sh"@.len() != "svg"@.len()
            && "sh"@.len() != "yaml"@.len() && "sh"@.len() != "yml"@.len()
            && "sh"@[0] != "md"@[0] && "sh"@.len() != "markdown"@.len()
            && "sh"@.len() != "sql"@.len());
    }
    assert(language_for("bash"@) == Some("shell"@)) by {
        assert("bash"@.len() != "ts"@.len() && "bash"@.len() != "tsx"@.len()
            && "bash"@.len() != "js"@.len() && "bash"@.len() != "jsx"@.len()
            && "bash"@.len() != "mjs"@.len() && "bash"@.len() != "rs"@.len()
            && "bash"@.len() != "py"@.len() && "bash"@.len() != "go"@.len()
            && "bash"@[0] != "java"@[0] && "bash"@.len() != "c"@.len()
            && "bash"@.len() != "h"@.len() && "bash"@.len() != "cpp"@.len()
            && "bash"@.len() != "hpp"@.len() && "bash"@.len() != "cc"@.len()
            && "bash"@.len() != "cxx"@.len() && "bash"@.len() != "cs"@.len()
            && "bash"@[0] != "html"@[0] && "bash"@.len() != "htm"@.len()
            && "bash"@.len() != "css"@.len() && "bash"@[0] != "scss"@[0]
            && "bash"@[0] != "less"@[0] && "bash"@[0] != "json"@[0]
            && "bash"@.len() != "xml"@.len() && "bash"@.len() != "svg"@.len()
            && "bash"@[0] != "yaml"@[0] && "bash"@.len() != "yml"@.len()
            && "bash"@.len() != "md"@.len() && "bash"@.len() != "markdown"@.len()
            && "bash"@.len() != "sql"@.len() && "bash"@.len() != "sh"@.len());
    }
    assert(language_for("zsh"@) == Some("shell"@)) by {
        assert("zsh"@.len() != "ts"@.len() && "zsh"@[0] != "tsx"@[0]
            && "zsh"@.len() != "js"@.len() && "zsh"@[0] != "jsx"@[0] && "zsh"@[0] != "mjs"@[0]
            && "zsh"@.len() != "rs"@.len() && "zsh"@.len() != "py"@.len()
            && "zsh"@.len() != "go"@.len() && "zsh"@.len() != "java"@.len()
            && "zsh"@.len() != "c"@.len() && "zsh"@.len() != "h"@.len()
            && "zsh"@[0] != "cpp"@[0] && "zsh"@[0] != "hpp"@[0] && "zsh"@.len() != "cc"@.len()
            && "zsh"@[0] != "cxx"@[0] && "zsh"@.len() != "cs"@.len()
            && "zsh"@.len() != "html"@.len() && "zsh"@[0] != "htm"@[0] && "zsh"@[0] != "css"@[0]
            && "zsh"@.len() != "scss"@.len() && "zsh"@.len() != "less"@.len()
            && "zsh"@.len() != "json"@.len() && "zsh"@[0] != "xml"@[0] && "zsh"@[0] != "svg"@[0]
            && "zsh"@.len() != "yaml"@.len() && "zsh"@[0] != "yml"@[0]
            && "zsh"@.len() != "md"@.len() && "zsh"@.len() != "markdown"@.len()
            && "zsh"@[0] != "sql"@[0] && "zsh"@.len() != "sh"@.len()
            && "zsh"@.len() != "bash"@.len());
    }
    assert(language_for("ps1"@) == Some("powershell"@)) by {
        assert("ps1"@.len() != "ts"@.len() && "ps1"@[0] != "tsx"@[0]
            && "ps1"@.len() != "js"@.len() && "ps1"@[0] != "jsx"@[0] && "ps1"@[0] != "mjs"@[0]
            && "ps1"@.len() != "rs"@.len() && "ps1"@.len() != "py"@.len()
            && "ps1"@.len() != "go"@.len() && "ps1"@.len() != "java"@.len()
            && "ps1"@.len() != "c"@.len() && "ps1"@.len() != "h"@.len()
            && "ps1"@[0] != "cpp"@[0] && "ps1"@[0] != "hpp"@[0] && "ps1"@.len() != "cc"@.len()
            && "ps1"@[0] != "cxx"@[0] && "ps1"@.len() != "cs"@.len()
            && "ps1"@.len() != "html"@.len() && "ps1"@[0] != "htm"@[0] && "ps1"@[0] != "css"@[0]
            && "ps1"@.len() != "scss"@.len() && "ps1"@.len() != "less"@.len()
            && "ps1"@.len() != "json"@.len() && "ps1"@[0] != "xml"@[0] && "ps1"@[0] != "svg"@[0]
            && "ps1"@.len() != "yaml"@.len() && "ps1"@[0] != "yml"@[0]
            && "ps1"@.len() != "md"@.len() && "ps1"@.len() != "markdown"@.len()
            && "ps1"@[0] != "sql"@[0] && "ps1"@.len() != "sh"@.len()
            && "ps1"@.len() != "bash"@.len() && "ps1"@[0] != "zsh"@[0]);
    }
    assert(language_for("toml"@) == Some("toml"@)) by {
        assert("toml"@.len() != "ts"@.len() && "toml"@.len() != "tsx"@.len()
            && "toml"@.len() != "js"@.len() && "toml"@.len() != "jsx"@.len()
            && "toml"@.len() != "mjs"@.len() && "toml"@.len() != "rs"@.len()
            && "toml"@.len() != "py"@.len() && "toml"@.len() != "go"@.len()
            && "toml"@[0] != "java"@[0] && "toml"@.len() != "c"@.len()
            && "toml"@.len() != "h"@.len() && "toml"@.len() != "cpp"@.len()
            && "toml"@.len() != "hpp"@.len() && "toml"@.len() != "cc"@.len()
            && "toml"@.len() != "cxx"@.len() && "toml"@.len() != "cs"@.len()
            && "toml"@[0] != "html"@[0] && "toml"@.len() != "htm"@.len()
            && "toml"@.len() != "css"@.len() && "toml"@[0] != "scss"@[0]
            && "toml"@[0] != "less"@[0] && "toml"@[0] != "json"@[0]
            && "toml"@.len() != "xml"@.len() && "toml"@.len() != "svg"@.len()
            && "toml"@[0] != "yaml"@[0] && "toml"@.len() != "yml"@.len()
            && "toml"@.len() != "md"@.len() && "toml"@.len() != "markdown"@.len()
            && "toml"@.len() != "sql"@.len() && "toml"@.len() != "sh"@.len()
            && "toml"@[0] != "bash"@[0] && "toml"@.len() != "zsh"@.len()
            && "toml"@.len() != "ps1"@.len());
    }
    assert(language_for("ini"@) == Some("ini"@)) by {
        assert("ini"@.len() != "ts"@.len() && "ini"@[0] != "tsx"@[0]
            && "ini"@.len() != "js"@.len() && "ini"@[0] != "jsx"@[0] && "ini"@[0] != "mjs"@[0]
            && "ini"@.len() != "rs"@.len() && "ini"@.len() != "py"@.len()
            && "ini"@.len() != "go"@.len() && "ini"@.len() != "java"@.len()
            && "ini"@.len() != "c"@.len() && "ini"@.len() != "h"@.len()
            && "ini"@[0] != "cpp"@[0] && "ini"@[0] != "hpp"@[0] && "ini"@.len() != "cc"@.len()
            && "ini"@[0] != "cxx"@[0] && "ini"@.len() != "cs"@.len()
            && "ini"@.len() != "html"@.len() && "ini"@[0] != "htm"@[0] && "ini"@[0] != "css"@[0]
            && "ini"@.len() != "scss"@.len() && "ini"@.len() != "less"@.len()
            && "ini"@.len() != "json"@.len() && "ini"@[0] != "xml"@[0] && "ini"@[0] != "svg"@[0]
            && "ini"@.len() != "yaml"@.len() && "ini"@[0] != "yml"@[0]
            && "ini"@.len() != "md"@.len() && "ini"@.len() != "markdown"@.len()
            && "ini"@[0] != "sql"@[0] && "ini"@.len() != "sh"@.len()
            && "ini"@.len() != "bash"@.len() && "ini"@[0] != "zsh"@[0] && "ini"@[0] != "ps1"@[0]
            && "ini"@.len() != "toml"@.len());
    }
    assert(language_for("cfg"@) == Some("ini"@)) by {
        assert("cfg"@.len() != "ts"@.len() && "cfg"@[0] != "tsx"@[0]
            && "cfg"@.len() != "js"@.len() && "cfg"@[0] != "jsx"@[0] && "cfg"@[0] != "mjs"@[0]
            && "cfg"@.len() != "rs"@.len() && "cfg"@.len() != "py"@.len()
            && "cfg"@.len() != "go"@.len() && "cfg"@.len() != "java"@.len()
            && "cfg"@.len() != "c"@.len() && "cfg"@.len() != "h"@.len()
            && "cfg"@[1] != "cpp"@[1] && "cfg"@[0] != "hpp"@[0] && "cfg"@.len() != "cc"@.len()
            && "cfg"@[1] != "cxx"@[1] && "cfg"@.len() != "cs"@.len()
            && "cfg"@.len() != "html"@.len() && "cfg"@[0] != "htm"@[0] && "cfg"@[1] != "css"@[1]
            && "cfg"@.len() != "scss"@.len() && "cfg"@.len() != "less"@.len()
            && "cfg"@.len() != "json"@.len() && "cfg"@[0] != "xml"@[0] && "cfg"@[0] != "svg"@[0]
            && "cfg"@.len() != "yaml"@.len() && "cfg"@[0] != "yml"@[0]
            && "cfg"@.len() != "md"@.len() && "cfg"@.len() != "markdown"@.len()
            && "cfg"@[0] != "sql"@[0] && "cfg"@.len() != "sh"@.len()
            && "cfg"@.len() != "bash"@.len() && "cfg"@[0] != "zsh"@[0] && "cfg"@[0] != "ps1"@[0]
            && "cfg"@.len() != "toml"@.len() && "cfg"@[0] != "ini"@[0]);
    }
    assert(language_for("conf"@) == Some("ini"@)) by {
        assert("conf"@.len() != "ts"@.len() && "conf"@.len() != "tsx"@.len()
            && "conf"@.len() != "js"@.len() && "conf"@.len() != "jsx"@.len()
            && "conf"@.len() != "mjs"@.len() && "conf"@.len() != "rs"@.len()
            && "conf"@.len() != "py"@.len() && "conf"@.len() != "go"@.len()
            && "conf"@[0] != "java"@[0] && "conf"@.len() != "c"@.len()
            && "conf"@.len() != "h"@.len() && "conf"@.len() != "cpp"@.len()
            && "conf"@.len() != "hpp"@.len() && "conf"@.len() != "cc"@.len()
            && "conf"@.len() != "cxx"@.len() && "conf"@.len() != "cs"@.len()
            && "conf"@[0] != "html"@[0] && "conf"@.len() != "htm"@.len()
            && "conf"@.len() != "css"@.len() && "conf"@[0] != "scss"@[0]
            && "conf"@[0] != "less"@[0] && "conf"@[0] != "json"@[0]
            && "conf"@.len() != "xml"@.len() && "conf"@.len() != "svg"@.len()
            && "conf"@[0] != "yaml"@[0] && "conf"@.len() != "yml"@.len()
            && "conf"@.len() != "md"@.len() && "conf"@.len() != "markdown"@.len()
            && "conf"@.len() != "sql"@.len() && "conf"@.len() != "sh"@.len()
            && "conf"@[0] != "bash"@[0] && "conf"@.len() != "zsh"@.len()
            && "conf"@.len() != "ps1"@.len() && "conf"@[0] != "toml"@[0]
            && "conf"@.len() != "ini"@.len() && "conf"@.len() != "cfg"@.len());
    }
    assert(language_for("vue"@) == Some("vue"@)) by {
        assert("vue"@.len() != "ts"@.len() && "vue"@[0] != "tsx"@[0]
            && "vue"@.len() != "js"@.len() && "vue"@[0] != "jsx"@[0] && "vue"@[0] != "mjs"@[0]
            && "vue"@.len() != "rs"@.len() && "vue"@.len() != "py"@.len()
            && "vue"@.len() != "go"@.len() && "vue"@.len() != "java"@.len()
            && "vue"@.len() != "c"@.len() && "vue"@.len() != "h"@.len()
            && "vue"@[0] != "cpp"@[0] && "vue"@[0] != "hpp"@[0] && "vue"@.len() != "cc"@.len()
            && "vue"@[0] != "cxx"@[0] && "vue"@.len() != "cs"@.len()
            && "vue"@.len() != "html"@.len() && "vue"@[0] != "htm"@[0] && "vue"@[0] != "css"@[0]
            && "vue"@.len() != "scss"@.len() && "vue"@.len() != "less"@.len()
            && "vue"@.len() != "json"@.len() && "vue"@[0] != "xml"@[0] && "vue"@[0] != "svg"@[0]
            && "vue"@.len() != "yaml"@.len() && "vue"@[0] != "yml"@[0]
            && "vue"@.len() != "md"@.len() && "vue"@.len() != "markdown"@.len()
            && "vue"@[0] != "sql"@[0] && "vue"@.len() != "sh"@.len()
            && "vue"@.len() != "bash"@.len() && "vue"@[0] != "zsh"@[0] && "vue"@[0] != "ps1"@[0]
            && "vue"@.len() != "toml"@.len() && "vue"@[0] != "ini"@[0] && "vue"@[0] != "cfg"@[0]
            && "vue"@.len() != "conf"@.len());
    }
    assert(language_for("svelte"@) == Some("svelte"@)) by {
        assert("svelte"@.len() != "ts"@.len() && "svelte"@.len() != "tsx"@.len()
            && "svelte"@.len() != "js"@.len() && "svelte"@.len() != "jsx"@.len()
            && "svelte"@.len() != "mjs"@.len() && "svelte"@.len() != "rs"@.len()
            && "svelte"@.len() != "py"@.len() && "svelte"@.len() != "go"@.len()
            && "svelte"@.len() != "java"@.len() && "svelte"@.len() != "c"@.len()
            && "svelte"@.len() != "h"@.len() && "svelte"@.len() != "cpp"@.len()
            && "svelte"@.len() != "hpp"@.len() && "svelte"@.len() != "cc"@.len()
            && "svelte"@.len() != "cxx"@.len() && "svelte"@.len() != "cs"@.len()
            && "svelte"@.len() != "html"@.len() && "svelte"@.len() != "htm"@.len()
            && "svelte"@.len() != "css"@.len() && "svelte"@.len() != "scss"@.len()
            && "svelte"@.len() != "less"@.len() && "svelte"@.len() != "json"@.len()
            && "svelte"@.len() != "xml"@.len() && "svelte"@.len() != "svg"@.len()
            && "svelte"@.len() != "yaml"@.len() && "svelte"@.len() != "yml"@.len()
            && "svelte"@.len() != "md"@.len() && "svelte"@.len() != "markdown"@.len()
            && "svelte"@.len() != "sql"@.len() && "svelte"@.len() != "sh"@.len()
            && "svelte"@.len() != "bash"@.len() && "svelte"@.len() != "zsh"@.len()
            && "svelte"@.len() != "ps1"@.len() && "svelte"@.len() != "toml"@.len()
            && "svelte"@.len() != "ini"@.len() && "svelte"@.len() != "cfg"@.len()
            && "svelte"@.len() != "conf"@.len() && "svelte"@.len() != "vue"@.len());
    }
    assert(language_for("rb"@) == Some("ruby"@)) by {
        assert("rb"@[0] != "ts"@[0] && "rb"@.len() != "tsx"@.len() && "rb"@[0] != "js"@[0]
            && "rb"@.len() != "jsx"@.len() && "rb"@.len() != "mjs"@.len()
            && "rb"@[1] != "rs"@[1] && "rb"@[0] != "py"@[0] && "rb"@[0] != "go"@[0]
            && "rb"@.len() != "java"@.len() && "rb"@.len() != "c"@.len()
            && "rb"@.len() != "h"@.len() && "rb"@.len() != "cpp"@.len()
            && "rb"@.len() != "hpp"@.len() && "rb"@[0] != "cc"@[0]
            && "rb"@.len() != "cxx"@.len() && "rb"@[0] != "cs"@[0]
            && "rb"@.len() != "html"@.len() && "rb"@.len() != "htm"@.len()
            && "rb"@.len() != "css"@.len() && "rb"@.len() != "scss"@.len()
            && "rb"@.len() != "less"@.len() && "rb"@.len() != "json"@.len()
            && "rb"@.len() != "xml"@.len() && "rb"@.len() != "svg"@.len()
            && "rb"@.len() != "yaml"@.len() && "rb"@.len() != "yml"@.len()
            && "rb"@[0] != "md"@[0] && "rb"@.len() != "markdown"@.len()
            && "rb"@.len() != "sql"@.len() && "rb"@[0] != "sh"@[0]
            && "rb"@.len() != "bash"@.len() && "rb"@.len() != "zsh"@.len()
            && "rb"@.len() != "ps1"@.len() && "rb"@.len() != "toml"@.len()
            && "rb"@.len() != "ini"@.len() && "rb"@.len() != "cfg"@.len()
            && "rb"@.len() != "conf"@.len() && "rb"@.len() != "vue"@.len()
            && "rb"@.len() != "svelte"@.len());
    }
    assert(language_for("php"@) == Some("php"@)) by {
        assert("php"@.len() != "ts"@.len() && "php"@[0] != "tsx"@[0]
            && "php"@.len() != "js"@.len() && "php"@[0] != "jsx"@[0] && "php"@[0] != "mjs"@[0]
            && "php"@.len() != "rs"@.len() && "php"@.len() != "py"@.len()
            && "php"@.len() != "go"@.len() && "php"@.len() != "java"@.len()
            && "php"@.len() != "c"@.len() && "php"@.len() != "h"@.len()
            && "php"@[0] != "cpp"@[0] && "php"@[0] != "hpp"@[0] && "php"@.len() != "cc"@.len()
            && "php"@[0] != "cxx"@[0] && "php"@.len() != "cs"@.len()
            && "php"@.len() != "html"@.len() && "php"@[0] != "htm"@[0] && "php"@[0] != "css"@[0]
            && "php"@.len() != "scss"@.len() && "php"@.len() != "less"@.len()
            && "php"@.len() != "json"@.len() && "php"@[0] != "xml"@[0] && "php"@[0] != "svg"@[0]
            && "php"@.len() != "yaml"@.len() && "php"@[0] != "yml"@[0]
            && "php"@.len() != "md"@.len() && "php"@.len() != "markdown"@.len()
            && "php"@[0] != "sql"@[0] && "php"@.len() != "sh"@.len()
            && "php"@.len() != "bash"@.len() && "php"@[0] != "zsh"@[0] && "php"@[1] != "ps1"@[1]
            && "php"@.len() != "toml"@.len() && "php"@[0] != "ini"@[0] && "php"@[0] != "cfg"@[0]
            && "php"@.len() != "conf"@.len() && "php"@[0] != "vue"@[0]
            && "php"@.len() != "svelte"@.len() && "php"@.len() != "rb"@.len());
    }
    assert(language_for("swift"@) == Some("swift"@)) by {
        assert("swift"@.len() != "ts"@.len() && "swift"@.len() != "tsx"@.len()
            && "swift"@.len() != "js"@.len() && "swift"@.len() != "jsx"@.len()
            && "swift"@.len() != "mjs"@.len() && "swift"@.len() != "rs"@.len()
            && "swift"@.len() != "py"@.len() && "swift"@.len() != "go"@.len()
            && "swift"@.len() != "java"@.len() && "swift"@.len() != "c"@.len()
            && "swift"@.len() != "h"@.len() && "swift"@.len() != "cpp"@.len()
            && "swift"@.len() != "hpp"@.len() && "swift"@.len() != "cc"@.len()
            && "swift"@.len() != "cxx"@.len() && "swift"@.len() != "cs"@.len()
            && "swift"@.len() != "html"@.len() && "swift"@.len() != "htm"@.len()
            && "swift"@.len() != "css"@.len() && "swift"@.len() != "scss"@.len()
            && "swift"@.len() != "less"@.len() && "swift"@.len() != "json"@.len()
            && "swift"@.len() != "xml"@.len() && "swift"@.len() != "svg"@.len()
            && "swift"@.len() != "yaml"@.len() && "swift"@.len() != "yml"@.len()
            && "swift"@.len() != "md"@.len() && "swift"@.len() != "markdown"@.len()
            && "swift"@.len() != "sql"@.len() && "swift"@.len() != "sh"@.len()
            && "swift"@.len() != "bash"@.len() && "swift"@.len() != "zsh"@.len()
            && "swift"@.len() != "ps1"@.len() && "swift"@.len() != "toml"@.len()
            && "swift"@.len() != "ini"@.len() && "swift"@.len() != "cfg"@.len()
            && "swift"@.len() != "conf"@.len() && "swift"@.len() != "vue"@.len()
            && "swift"@.len() != "svelte"@.len() && "swift"@.len() != "rb"@.len()
            && "swift"@.len() != "php"@.len());
    }
    assert(language_for("kt"@) == Some("kotlin"@)) by {
        assert("kt"@[0] != "ts"@[0] && "kt"@.len() != "tsx"@.len() && "kt"@[0] != "js"@[0]
            && "kt"@.len() != "jsx"@.len() && "kt"@.len() != "mjs"@.len()
            && "kt"@[0] != "rs"@[0] && "kt"@[0] != "py"@[0] && "kt"@[0] != "go"@[0]
            && "kt"@.len() != "java"@.len() && "kt"@.len() != "c"@.len()
            && "kt"@.len() != "h"@.len() && "kt"@.len() != "cpp"@.len()
            && "kt"@.len() != "hpp"@.len() && "kt"@[0] != "cc"@[0]
            && "kt"@.len() != "cxx"@.len() && "kt"@[0] != "cs"@[0]
            && "kt"@.len() != "html"@.len() && "kt"@.len() != "htm"@.len()
            && "kt"@.len() != "css"@.len() && "kt"@.len() != "scss"@.len()
            && "kt"@.len() != "less"@.len() && "kt"@.len() != "json"@.len()
            && "kt"@.len() != "xml"@.len() && "kt"@.len() != "svg"@.len()
            && "kt"@.len() != "yaml"@.len() && "kt"@.len() != "yml"@.len()
            && "kt"@[0] != "md"@[0] && "kt"@.len() != "markdown"@.len()
            && "kt"@.len() != "sql"@.len() && "kt"@[0] != "sh"@[0]
            && "kt"@.len() != "bash"@.len() && "kt"@.len() != "zsh"@.len()
            && "kt"@.len() != "ps1"@.len() && "kt"@.len() != "toml"@.len()
            && "kt"@.len() != "ini"@.len() && "kt"@.len() != "cfg"@.len()
            && "kt"@.len() != "conf"@.len() && "kt"@.len() != "vue"@.len()
            && "kt"@.len() != "svelte"@.len() && "kt"@[0] != "rb"@[0]
            && "kt"@.len() != "php"@.len() && "kt"@.len() != "swift"@.len());
    }
    assert(language_for("kts"@) == Some("kotlin"@)) by {
        assert("kts"@.len() != "ts"@.len() && "kts"@[0] != "tsx"@[0]
            && "kts"@.len() != "js"@.len() && "kts"@[0] != "jsx"@[0] && "kts"@[0] != "mjs"@[0]
            && "kts"@.len() != "rs"@.len() && "kts"@.len() != "py"@.len()
            && "kts"@.len() != "go"@.len() && "kts"@.len() != "java"@.len()
            && "kts"@.len() != "c"@.len() && "kts"@.len() != "h"@.len()
            && "kts"@[0] != "cpp"@[0] && "kts"@[0] != "hpp"@[0] && "kts"@.len() != "cc"@.len()
            && "kts"@[0] != "cxx"@[0] && "kts"@.len() != "cs"@.len()
            && "kts"@.len() != "html"@.len() && "kts"@[0] != "htm"@[0] && "kts"@[0] != "css"@[0]
            && "kts"@.len() != "scss"@.len() && "kts"@.len() != "less"@.len()
            && "kts"@.len() != "json"@.len() && "kts"@[0] != "xml"@[0] && "kts"@[0] != "svg"@[0]
            && "kts"@.len() != "yaml"@.len() && "kts"@[0] != "yml"@[0]
            && "kts"@.len() != "md"@.len() && "kts"@.len() != "markdown"@.len()
            && "kts"@[0] != "sql"@[0] && "kts"@.len() != "sh"@.len()
            && "kts"@.len() != "bash"@.len() && "kts"@[0] != "zsh"@[0] && "kts"@[0] != "ps1"@[0]
            && "kts"@.len() != "toml"@.len() && "kts"@[0] != "ini"@[0] && "kts"@[0] != "cfg"@[0]
            && "kts"@.len() != "conf"@.len() && "kts"@[0] != "vue"@[0]
            && "kts"@.len() != "svelte"@.len() && "kts"@.len() != "rb"@.len()
            && "kts"@[0] != "php"@[0] && "kts"@.len() != "swift"@.len()
            && "kts"@.len() != "kt"@.len());
    }
    assert(language_for("dart"@) == Some("dart"@)) by {
        assert("dart"@.len() != "ts"@.len() && "dart"@.len() != "tsx"@.len()
            && "dart"@.len() != "js"@.len() && "dart"@.len() != "jsx"@.len()
            && "dart"@.len() != "mjs"@.len() && "dart"@.len() != "rs"@.len()
            && "dart"@.len() != "py"@.len() && "dart"@.len() != "go"@.len()
            && "dart"@[0] != "java"@[0] && "dart"@.len() != "c"@.len()
            && "dart"@.len() != "h"@.len() && "dart"@.len() != "cpp"@.len()
            && "dart"@.len() != "hpp"@.len() && "dart"@.len() != "cc"@.len()
            && "dart"@.len() != "cxx"@.len() && "dart"@.len() != "cs"@.len()
            && "dart"@[0] != "html"@[0] && "dart"@.len() != "htm"@.len()
            && "dart"@.len() != "css"@.len() && "dart"@[0] != "scss"@[0]
            && "dart"@[0] != "less"@[0] && "dart"@[0] != "json"@[0]
            && "dart"@.len() != "xml"@.len() && "dart"@.len() != "svg"@.len()
            && "dart"@[0] != "yaml"@[0] && "dart"@.len() != "yml"@.len()
            && "dart"@.len() != "md"@.len() && "dart"@.len() != "markdown"@.len()
            && "dart"@.len() != "sql"@.len() && "dart"@.len() != "sh"@.len()
            && "dart"@[0] != "bash"@[0] && "dart"@.len() != "zsh"@.len()
            && "dart"@.len() != "ps1"@.len() && "dart"@[0] != "toml"@[0]
            && "dart"@.len() != "ini"@.len() && "dart"@.len() != "cfg"@.len()
            && "dart"@[0] != "conf"@[0] && "dart"@.len() != "vue"@.len()
            && "dart"@.len() != "svelte"@.len() && "dart"@.len() != "rb"@.len()
            && "dart"@.len() != "php"@.len() && "dart"@.len() != "swift"@.len()
            && "dart"@.len() != "kt"@.len() && "dart"@.len() != "kts"@.len());
    }
    assert(language_for("lua"@) == Some("lua"@)) by {
        assert("lua"@.len() != "ts"@.len() && "lua"@[0] != "tsx"@[0]
            && "lua"@.len() != "js"@.len() && "lua"@[0] != "jsx"@[0] && "lua"@[0] != "mjs"@[0]
            && "lua"@.len() != "rs"@.len() && "lua"@.len() != "py"@.len()
            && "lua"@.len() != "go"@.len() && "lua"@.len() != "java"@.len()
            && "lua"@.len() != "c"@.len() && "lua"@.len() != "h"@.len()
            && "lua"@[0] != "cpp"@[0] && "lua"@[0] != "hpp"@[0] && "lua"@.len() != "cc"@.len()
            && "lua"@[0] != "cxx"@[0] && "lua"@.len() != "cs"@.len()
            && "lua"@.len() != "html"@.len() && "lua"@[0] != "htm"@[0] && "lua"@[0] != "css"@[0]
            && "lua"@.len() != "scss"@.len() && "lua"@.len() != "less"@.len()
            && "lua"@.len() != "json"@.len() && "lua"@[0] != "xml"@[0] && "lua"@[0] != "svg"@[0]
            && "lua"@.len() != "yaml"@.len() && "lua"@[0] != "yml"@[0]
            && "lua"@.len() != "md"@.len() && "lua"@.len() != "markdown"@.len()
            && "lua"@[0] != "sql"@[0] && "lua"@.len() != "sh"@.len()
            && "lua"@.len() != "bash"@.len() && "lua"@[0] != "zsh"@[0] && "lua"@[0] != "ps1"@[0]
            && "lua"@.len() != "toml"@.len() && "lua"@[0] != "ini"@[0] && "lua"@[0] != "cfg"@[0]
            && "lua"@.len() != "conf"@.len() && "lua"@[0] != "vue"@[0]
            && "lua"@.len() != "svelte"@.len() && "lua"@.len() != "rb"@.len()
            && "lua"@[0] != "php"@[0] && "lua"@.len() != "swift"@.len()
            && "lua"@.len() != "kt"@.len() && "lua"@[0] != "kts"@[0]
            && "lua"@.len() != "dart"@.len());
    }
    assert(language_for("r"@) == Some("r"@)) by {
        assert("r"@.len() != "ts"@.len() && "r"@.len() != "tsx"@.len()
            && "r"@.len() != "js"@.len() && "r"@.len() != "jsx"@.len()
            && "r"@.len() != "mjs"@.len() && "r"@.len() != "rs"@.len()
            && "r"@.len() != "py"@.len() && "r"@.len() != "go"@.len()
            && "r"@.len() != "java"@.len() && "r"@[0] != "c"@[0] && "r"@[0] != "h"@[0]
            && "r"@.len() != "cpp"@.len() && "r"@.len() != "hpp"@.len()
            && "r"@.len() != "cc"@.len() && "r"@.len() != "cxx"@.len()
            && "r"@.len() != "cs"@.len() && "r"@.len() != "html"@.len()
            && "r"@.len() != "htm"@.len() && "r"@.len() != "css"@.len()
            && "r"@.len() != "scss"@.len() && "r"@.len() != "less"@.len()
            && "r"@.len() != "json"@.len() && "r"@.len() != "xml"@.len()
            && "r"@.len() != "svg"@.len() && "r"@.len() != "yaml"@.len()
            && "r"@.len() != "yml"@.len() && "r"@.len() != "md"@.len()
            && "r"@.len() != "markdown"@.len() && "r"@.len() != "sql"@.len()
            && "r"@.len() != "sh"@.len() && "r"@.len() != "bash"@.len()
            && "r"@.len() != "zsh"@.len() && "r"@.len() != "ps1"@.len()
            && "r"@.len() != "toml"@.len() && "r"@.len() != "ini"@.len()
            && "r"@.len() != "cfg"@.len() && "r"@.len() != "conf"@.len()
            && "r"@.len() != "vue"@.len() && "r"@.len() != "svelte"@.len()
            && "r"@.len() != "rb"@.len() && "r"@.len() != "php"@.len()
            && "r"@.len() != "swift"@.len() && "r"@.len() != "kt"@.len()
            && "r"@.len() != "kts"@.len() && "r"@.len() != "dart"@.len()
            && "r"@.len() != "lua"@.len());
    }
    assert(language_for("txt"@) is None) by {
        assert("txt"@.len() != "ts"@.len() && "txt"@[1] != "tsx"@[1]
            && "txt"@.len() != "js"@.len() && "txt"@[0] != "jsx"@[0] && "txt"@[0] != "mjs"@[0]
            && "txt"@.len() != "rs"@.len() && "txt"@.len() != "py"@.len()
            && "txt"@.len() != "go"@.len() && "txt"@.len() != "java"@.len()
            && "txt"@.len() != "c"@.len() && "txt"@.len() != "h"@.len()
            && "txt"@[0] != "cpp"@[0] && "txt"@[0] != "hpp"@[0] && "txt"@.len() != "cc"@.len()
            && "txt"@[0] != "cxx"@[0] && "txt"@.len() != "cs"@.len()
            && "txt"@.len() != "html"@.len() && "txt"@[0] != "htm"@[0] && "txt"@[0] != "css"@[0]
            && "txt"@.len() != "scss"@.len() && "txt"@.len() != "less"@.len()
            && "txt"@.len() != "json"@.len() && "txt"@[0] != "xml"@[0] && "txt"@[0] != "svg"@[0]
            && "txt"@.len() != "yaml"@.len() && "txt"@[0] != "yml"@[0]
            && "txt"@.len() != "md"@.len() && "txt"@.len() != "markdown"@.len()
            && "txt"@[0] != "sql"@[0] && "txt"@.len() != "sh"@.len()
            && "txt"@.len() != "bash"@.len() && "txt"@[0] != "zsh"@[0] && "txt"@[0] != "ps1"@[0]
            && "txt"@.len() != "toml"@.len() && "txt"@[0] != "ini"@[0] && "txt"@[0] != "cfg"@[0]
            && "txt"@.len() != "conf"@.len() && "txt"@[0] != "vue"@[0]
            && "txt"@.len() != "svelte"@.len() && "txt"@.len() != "rb"@.len()
            && "txt"@[0] != "php"@[0] && "txt"@.len() != "swift"@.len()
            && "txt"@.len() != "kt"@.len() && "txt"@[0] != "kts"@[0]
            && "txt"@.len() != "dart"@.len() && "txt"@[0] != "lua"@[0]
            && "txt"@.len() != "r"@.len());
    }
}

/// A path whose extension, lowercased, is listed in the language table is
/// given that language; a path without an extension gets none.
pub proof fn lemma_path_language_by_extension(pl: Platform, p: Seq<char>)
    ensures
        extension_on(pl, p) is None ==> path_language(pl, p) is None,
        extension_on(pl, p) matches Some(e) && lowercase_of(e) == "py"@ ==> path_language(pl, p)
            == Some("python"@),
        extension_on(pl, p) matches Some(e) && lowercase_of(e) == "rs"@ ==> path_language(pl, p)
            == Some("rust"@),
        extension_on(pl, p) matches Some(e) && lowercase_of(e) == "ts"@ ==> path_language(pl, p)
            == Some("typescript"@),
{
    lemma_language_table();
}

} // verus!
