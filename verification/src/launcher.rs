//! The decisions of the Windows launcher: the interface language, the way
//! the application is started, the version banner values, and the UTF-16
//! strings that the Windows API takes and gives.

use vstd::prelude::*;
use crate::app_info::{blank, flag_on, flag_value_on, non_blank, trimmed_non_empty};
use crate::file_service::opt_view;
use crate::terminal_service::{id_index, lemma_id_index_from};
use crate::text::{
    ascii_lower, chars_of, concat, has_prefix_at, is_ascii_char, is_ws, lowercase_of, owned,
    slice_to_vec, starts_with, str_eq, string_from, to_lowercase, trim, trim_chars, trim_end,
    trim_start,
};

verus! {

/// The language of the launcher's messages and of the application.
#[derive(Debug, Clone, Copy, PartialEq, Eq, Structural)]
pub enum Language {
    Vi,
    En,
}

/// How the application is started.
#[derive(Debug, Clone, Copy, PartialEq, Eq, Structural)]
pub enum Mode {
    /// The console is hidden (or minimised) while the application runs.
    Hidden,
    /// The console stays while the application runs.
    Visible,
    /// The application is started and the launcher ends at once.
    Detached,
}

/// The short code of a language.
pub open spec fn language_code(l: Language) -> Seq<char> {
    match l {
        Language::Vi => "vi"@,
        Language::En => "en"@,
    }
}

/// The language a lowercase name stands for.
pub open spec fn language_named(s: Seq<char>) -> Option<Language> {
    if s == "vi"@ || s == "vietnamese"@ {
        Some(Language::Vi)
    } else if s == "en"@ || s == "english"@ {
        Some(Language::En)
    } else {
        None
    }
}

/// Whether every character is ASCII.
pub open spec fn is_ascii_text(s: Seq<char>) -> bool {
    forall|i: int| 0 <= i < s.len() ==> is_ascii_char(#[trigger] s[i])
}

/// The text with ASCII capitals made small.
pub open spec fn ascii_lowercase(s: Seq<char>) -> Seq<char> {
    s.map_values(|c: char| ascii_lower(c))
}

/// Giving a language's code back to `Language::from_code` names that
/// language again: the code is ASCII, has no surrounding whitespace, and
/// is already lowercase.
pub proof fn lemma_code_names_language(l: Language)
    ensures
        is_ascii_text(trim(language_code(l))),
        language_named(ascii_lowercase(trim(language_code(l)))) == Some(l),
{
    reveal_strlit("vi");
    reveal_strlit("en");
    reveal_strlit("vietnamese");
    let c = language_code(l);
    assert(c.len() == 2);
    assert(!is_ws(c[0]) && !is_ws(c[1]));
    assert(trim_start(c) == c);
    assert(trim_end(c) == c) by {
        assert(c.drop_last() =~= seq![c[0]]);
    }
    assert(trim(c) == c);
    assert(ascii_lowercase(c) =~= c);
    if l == Language::En {
        assert(c != "vi"@ && c != "vietnamese"@);
    }
}

/// The language a code or name stands for, ignoring surrounding whitespace
/// and case.
pub open spec fn language_of(v: Seq<char>) -> Option<Language> {
    language_named(lowercase_of(trim(v)))
}

impl Language {
    /// `vi` or `en`.
    pub fn code(self) -> (r: &'static str)
        ensures
            r@ == language_code(self),
    {
        match self {
            Language::Vi => "vi",
            Language::En => "en",
        }
    }

    /// The language named by `value`: `vi` or `vietnamese`, `en` or
    /// `english`, in any case and with surrounding whitespace.
    pub fn from_code(value: &str) -> (r: Option<Language>)
        ensures
            r == language_of(value@),
            is_ascii_text(trim(value@)) ==> r == language_named(ascii_lowercase(trim(value@))),
    {
        let t = string_from(trim_chars(chars_of(value).as_slice()).as_slice());
        let l = to_lowercase(t.as_str());
        if str_eq(l.as_str(), "vi") || str_eq(l.as_str(), "vietnamese") {
            Some(Language::Vi)
        } else if str_eq(l.as_str(), "en") || str_eq(l.as_str(), "english") {
            Some(Language::En)
        } else {
            None
        }
    }
}

/// What one argument says of the language, if anything: `--vi`, `--en`, or
/// `--lang=` followed by a code (which may name no language).
pub open spec fn arg_language(a: Seq<char>) -> Option<Option<Language>> {
    if a == "--vi"@ {
        Some(Some(Language::Vi))
    } else if a == "--en"@ {
        Some(Some(Language::En))
    } else if starts_with(a, "--lang="@) {
        Some(language_of(a.skip("--lang="@.len() as int)))
    } else {
        None
    }
}

/// The first argument that says something of the language.
pub open spec fn first_language_arg(args: Seq<Seq<char>>) -> Option<Option<Language>>
    decreases args.len(),
{
    if args.len() == 0 {
        None
    } else {
        match arg_language(args[0]) {
            Some(r) => Some(r),
            None => first_language_arg(args.drop_first()),
        }
    }
}

/// The language the command line asks for: the first `--vi`, `--en` or
/// `--lang=code` decides; failing those, the argument after the first
/// `--lang`.
pub open spec fn args_language(args: Seq<Seq<char>>) -> Option<Language> {
    match first_language_arg(args) {
        Some(r) => r,
        None => match id_index(args, "--lang"@) {
            Some(p) => if p + 1 < args.len() {
                language_of(args[p + 1])
            } else {
                None
            },
            None => None,
        },
    }
}

fn arg_language_of(a: &str) -> (r: Option<Option<Language>>)
    ensures
        r == arg_language(a@),
{
    if str_eq(a, "--vi") {
        return Some(Some(Language::Vi));
    }
    if str_eq(a, "--en") {
        return Some(Some(Language::En));
    }
    let s = chars_of(a);
    let p = chars_of("--lang=");
    assert(s@.subrange(0, s@.len() as int) =~= s@);
    if has_prefix_at(s.as_slice(), 0, s.len(), p.as_slice()) {
        let rest = string_from(slice_to_vec(s.as_slice(), p.len(), s.len()).as_slice());
        assert(rest@ =~= a@.skip("--lang="@.len() as int));
        Some(Language::from_code(rest.as_str()))
    } else {
        None
    }
}

/// The language the command line asks for.
pub fn language_from_args(args: &Vec<String>) -> (r: Option<Language>)
    ensures
        r == args_language(args.deep_view()),
{
    let ghost all = args.deep_view();
    let mut i: usize = 0;
    assert(all.skip(0) =~= all);
    while i < args.len()
        invariant
            i <= args@.len(),
            all == args.deep_view(),
            first_language_arg(all) == first_language_arg(all.skip(i as int)),
        decreases args@.len() - i,
    {
        let found = arg_language_of(args[i].as_str());
        assert(all.skip(i as int)[0] == args@[i as int]@);
        assert(all.skip(i as int).drop_first() =~= all.skip(i + 1));
        match found {
            Some(r) => {
                return r;
            },
            None => {},
        }
        i = i + 1;
    }
    assert(all.skip(i as int) =~= Seq::<Seq<char>>::empty());
    let mut k: usize = 0;
    while k < args.len()
        invariant
            k <= args@.len(),
            all == args.deep_view(),
            first_language_arg(all) is None,
            forall|j: int| 0 <= j < k ==> all[j] != "--lang"@,
        decreases args@.len() - k,
    {
        if str_eq(args[k].as_str(), "--lang") {
            proof {
                lemma_id_index_from(all, "--lang"@, k as int);
            }
            if k + 1 < args.len() {
                return Language::from_code(args[k + 1].as_str());
            }
            return None;
        }
        k = k + 1;
    }
    proof {
        lemma_id_index_from(all, "--lang"@, k as int);
    }
    None
}

/// Whether `flag` is among the arguments.
pub fn has_arg(args: &Vec<String>, flag: &str) -> (r: bool)
    ensures
        r == args.deep_view().contains(flag@),
{
    let mut i: usize = 0;
    while i < args.len()
        invariant
            i <= args@.len(),
            forall|j: int| 0 <= j < i ==> args.deep_view()[j] != flag@,
        decreases args@.len() - i,
    {
        if str_eq(args[i].as_str(), flag) {
            assert(args.deep_view()[i as int] == flag@);
            return true;
        }
        i = i + 1;
    }
    false
}

/// The language to use: the command line's, else the one in
/// `CLIDESK_LAUNCH_LANG` (`env_lang`), else `Vi` — except in interactive
/// mode, where the user is asked instead of falling back (`None`).
pub open spec fn launch_language_of(args: Seq<Seq<char>>, env_lang: Option<Seq<char>>) -> Option<
    Language,
> {
    match args_language(args) {
        Some(l) => Some(l),
        None => match (match env_lang {
            Some(v) => language_of(v),
            None => None,
        }) {
            Some(l) => Some(l),
            None => if args.contains("--interactive"@) {
                None
            } else {
                Some(Language::Vi)
            },
        },
    }
}

/// The language to use, or `None` when the user is to be asked.
pub fn launch_language(args: &Vec<String>, env_lang: Option<String>) -> (r: Option<Language>)
    ensures
        r == launch_language_of(args.deep_view(), opt_view(env_lang)),
{
    match language_from_args(args) {
        Some(l) => Some(l),
        None => {
            let from_env = match env_lang {
                Some(v) => Language::from_code(v.as_str()),
                None => None,
            };
            match from_env {
                Some(l) => Some(l),
                None => if has_arg(args, "--interactive") {
                    None
                } else {
                    Some(Language::Vi)
                },
            }
        },
    }
}

/// The mode the flags ask for: `--detached`, then `--hidden`, then
/// `--visible` or `--no-menu`; with none of them, `--interactive` means the
/// user is asked (`None`), and otherwise the console stays visible.
pub open spec fn mode_of(args: Seq<Seq<char>>) -> Option<Mode> {
    if args.contains("--detached"@) {
        Some(Mode::Detached)
    } else if args.contains("--hidden"@) {
        Some(Mode::Hidden)
    } else if args.contains("--visible"@) || args.contains("--no-menu"@) {
        Some(Mode::Visible)
    } else if args.contains("--interactive"@) {
        None
    } else {
        Some(Mode::Visible)
    }
}

/// The launch mode, or `None` when the user is to be asked.
pub fn launch_mode(args: &Vec<String>) -> (r: Option<Mode>)
    ensures
        r == mode_of(args.deep_view()),
{
    if has_arg(args, "--detached") {
        Some(Mode::Detached)
    } else if has_arg(args, "--hidden") {
        Some(Mode::Hidden)
    } else if has_arg(args, "--visible") || has_arg(args, "--no-menu") {
        Some(Mode::Visible)
    } else if has_arg(args, "--interactive") {
        None
    } else {
        Some(Mode::Visible)
    }
}

/// A menu answer: `1` or `2`, with surrounding whitespace.
pub open spec fn menu_pick(input: Seq<char>) -> Option<bool> {
    if trim(input) == "1"@ {
        Some(true)
    } else if trim(input) == "2"@ {
        Some(false)
    } else {
        None
    }
}

fn menu_answer(input: &str) -> (r: Option<bool>)
    ensures
        r == menu_pick(input@),
{
    let t = string_from(trim_chars(chars_of(input).as_slice()).as_slice());
    if str_eq(t.as_str(), "1") {
        Some(true)
    } else if str_eq(t.as_str(), "2") {
        Some(false)
    } else {
        None
    }
}

/// The language picked in the menu: `1` Vietnamese, `2` English; any
/// other answer is asked again (`None`).
pub fn language_choice(input: &str) -> (r: Option<Language>)
    ensures
        r == match menu_pick(input@) {
            Some(true) => Some(Language::Vi),
            Some(false) => Some(Language::En),
            None => None::<Language>,
        },
{
    match menu_answer(input) {
        Some(true) => Some(Language::Vi),
        Some(false) => Some(Language::En),
        None => None,
    }
}

/// The mode picked in the menu: `1` hidden, `2` visible; any other answer
/// is asked again (`None`).
pub fn mode_choice(input: &str) -> (r: Option<Mode>)
    ensures
        r == match menu_pick(input@) {
            Some(true) => Some(Mode::Hidden),
            Some(false) => Some(Mode::Visible),
            None => None::<Mode>,
        },
{
    match menu_answer(input) {
        Some(true) => Some(Mode::Hidden),
        Some(false) => Some(Mode::Visible),
        None => None,
    }
}

/// The version banner values.
pub struct VersionInfo {
    pub current: String,
    pub latest: Option<String>,
    pub update_available: bool,
    pub update_command: String,
}

impl VersionInfo {
    /// The values from `CLIDESK_VERSION`, `CLIDESK_LATEST_VERSION`,
    /// `CLIDESK_UPDATE_AVAILABLE` and `CLIDESK_UPDATE_COMMAND`: the version
    /// unless blank (else `dev`), the latest trimmed unless empty, an update
    /// when the flag is `1` or `true` in any case, the command unless blank
    /// (else `npm i -g clidesk`).
    pub fn from_env(
        version: Option<String>,
        latest: Option<String>,
        available: Option<String>,
        command: Option<String>,
    ) -> (r: VersionInfo)
        ensures
            r.current@ == match non_blank(opt_view(version)) {
                Some(v) => v,
                None => "dev"@,
            },
            opt_view(r.latest) == trimmed_non_empty(opt_view(latest)),
            r.update_available == match available {
                Some(a) => flag_on(a@),
                None => false,
            },
            r.update_command@ == match non_blank(opt_view(command)) {
                Some(c) => c,
                None => "npm i -g clidesk"@,
            },
    {
        let current = match version {
            Some(v) => if blank(v.as_str()) {
                owned("dev")
            } else {
                v
            },
            None => owned("dev"),
        };
        let latest = match latest {
            Some(v) => {
                let t = trim_chars(chars_of(v.as_str()).as_slice());
                if t.len() > 0 {
                    Some(string_from(t.as_slice()))
                } else {
                    None
                }
            },
            None => None,
        };
        let update_available = match available {
            Some(a) => flag_value_on(a.as_str()),
            None => false,
        };
        let update_command = match command {
            Some(c) => if blank(c.as_str()) {
                owned("npm i -g clidesk")
            } else {
                c
            },
            None => owned("npm i -g clidesk"),
        };
        VersionInfo { current, latest, update_available, update_command }
    }
}

// ---------------------------------------------------------------------------
// UTF-16
// ---------------------------------------------------------------------------

/// The UTF-16 code units of one character.
pub open spec fn utf16_units(c: char) -> Seq<u16> {
    let u = c as u32;
    if u < 0x10000 {
        seq![u as u16]
    } else {
        let v = u - 0x10000;
        seq![(0xD800 + v / 0x400) as u16, (0xDC00 + v % 0x400) as u16]
    }
}

/// `str::encode_utf16`: the code units of every character, in order.
pub open spec fn utf16_of(s: Seq<char>) -> Seq<u16>
    decreases s.len(),
{
    if s.len() == 0 {
        seq![]
    } else {
        utf16_of(s.drop_last()) + utf16_units(s.last())
    }
}

/// The code of a character, which is a Unicode scalar value.
fn code_of(ch: char) -> (u: u32)
    ensures
        u == ch as u32,
        u <= 0x10FFFF,
{
    ch as u32
}

/// A NUL-terminated UTF-16 string, as the Windows API takes it.
pub fn to_wide(s: &str) -> (r: Vec<u16>)
    ensures
        r@ == utf16_of(s@).push(0),
{
    let c = chars_of(s);
    let mut r: Vec<u16> = Vec::new();
    let mut i: usize = 0;
    while i < c.len()
        invariant
            i <= c@.len(),
            c@ == s@,
            r@ == utf16_of(c@.take(i as int)),
        decreases c@.len() - i,
    {
        let ch = c[i];
        let u = code_of(ch);
        assert(c@.take(i + 1).drop_last() =~= c@.take(i as int));
        if u < 0x10000 {
            r.push(u as u16);
            assert(r@ =~= utf16_of(c@.take(i + 1)));
        } else {
            let v = u - 0x10000;
            r.push((0xD800 + v / 0x400) as u16);
            r.push((0xDC00 + v % 0x400) as u16);
            assert(r@ =~= utf16_of(c@.take(i + 1)));
        }
        i = i + 1;
    }
    assert(c@.take(c@.len() as int) =~= c@);
    r.push(0);
    r
}

/// The units before the first NUL, or all of them.
pub open spec fn before_nul(w: Seq<u16>) -> Seq<u16>
    decreases w.len(),
{
    if w.len() == 0 {
        w
    } else if w[0] == 0 {
        seq![]
    } else {
        seq![w[0]] + before_nul(w.drop_first())
    }
}

/// A high (leading) surrogate.
pub open spec fn is_high_surrogate(u: u16) -> bool {
    0xD800 <= u < 0xDC00
}

/// A low (trailing) surrogate.
pub open spec fn is_low_surrogate(u: u16) -> bool {
    0xDC00 <= u < 0xE000
}

/// `String::from_utf16_lossy`: a surrogate pair makes one character, a
/// surrogate on its own makes U+FFFD, any other unit is its own character.
pub open spec fn utf16_lossy(w: Seq<u16>) -> Seq<char>
    decreases w.len(),
{
    if w.len() == 0 {
        seq![]
    } else if is_high_surrogate(w[0]) && w.len() >= 2 && is_low_surrogate(w[1]) {
        seq![(0x10000 + (w[0] - 0xD800) * 0x400 + (w[1] - 0xDC00)) as u32 as char] + utf16_lossy(
            w.skip(2),
        )
    } else if is_high_surrogate(w[0]) || is_low_surrogate(w[0]) {
        seq!['\u{FFFD}'] + utf16_lossy(w.skip(1))
    } else {
        seq![w[0] as u32 as char] + utf16_lossy(w.skip(1))
    }
}

/// Whether a number is the code of a character: below 0x110000 and not a
/// surrogate.
pub open spec fn is_char_code(u: u32) -> bool {
    u < 0xD800 || (0xE000 <= u && u < 0x110000)
}

/// Calls `char::from_u32`, which gives the character with a code exactly
/// when the code is below 0x110000 and not a surrogate.
#[verifier::external_body]
fn char_from_code(u: u32) -> (r: Option<char>)
    ensures
        is_char_code(u) ==> r == Some(u as char),
        !is_char_code(u) ==> r is None,
{
    char::from_u32(u)
}

/// The text of a NUL-terminated UTF-16 buffer from the Windows API.
pub fn from_wide(w: &[u16]) -> (r: String)
    ensures
        r@ == utf16_lossy(before_nul(w@)),
{
    let mut end: usize = 0;
    assert(w@.skip(0) =~= w@);
    assert(w@.take(0) =~= Seq::<u16>::empty());
    while end < w.len() && w[end] != 0
        invariant
            end <= w@.len(),
            before_nul(w@) == w@.take(end as int) + before_nul(w@.skip(end as int)),
        decreases w@.len() - end,
    {
        assert(w@.skip(end as int).drop_first() =~= w@.skip(end + 1));
        assert(w@.take(end + 1) =~= w@.take(end as int) + seq![w@[end as int]]);
        end = end + 1;
    }
    assert(before_nul(w@) =~= w@.take(end as int)) by {
        if end < w@.len() {
            assert(w@.skip(end as int)[0] == 0);
        } else {
            assert(w@.skip(end as int) =~= Seq::<u16>::empty());
        }
    }
    let ghost units = w@.take(end as int);
    let mut out = String::new();
    let mut i: usize = 0;
    assert(units.skip(0) =~= units);
    assert(out@ + utf16_lossy(units.skip(0)) =~= utf16_lossy(units));
    while i < end
        invariant
            i <= end <= w@.len(),
            units == w@.take(end as int),
            out@ + utf16_lossy(units.skip(i as int)) == utf16_lossy(units),
        decreases end - i,
    {
        let ghost rest = units.skip(i as int);
        let a = w[i];
        assert(rest[0] == a);
        if 0xD800 <= a && a < 0xDC00 && i + 1 < end && 0xDC00 <= w[i + 1] && w[i + 1] < 0xE000 {
            let b = w[i + 1];
            assert(rest[1] == b);
            let code: u32 = 0x10000 + ((a - 0xD800) as u32) * 0x400 + ((b - 0xDC00) as u32);
            let c = match char_from_code(code) {
                Some(c) => c,
                None => '\u{FFFD}',
            };
            assert(rest.skip(2) =~= units.skip(i + 2));
            let ghost before = out@;
            out.push(c);
            assert(out@ + utf16_lossy(units.skip(i + 2)) =~= before + utf16_lossy(rest));
            i = i + 2;
        } else if 0xD800 <= a && a < 0xE000 {
            assert(rest.skip(1) =~= units.skip(i + 1));
            let ghost before = out@;
            out.push('\u{FFFD}');
            assert(out@ + utf16_lossy(units.skip(i + 1)) =~= before + utf16_lossy(rest));
            i = i + 1;
        } else {
            let c = match char_from_code(a as u32) {
                Some(c) => c,
                None => '\u{FFFD}',
            };
            assert(rest.skip(1) =~= units.skip(i + 1));
            let ghost before = out@;
            out.push(c);
            assert(out@ + utf16_lossy(units.skip(i + 1)) =~= before + utf16_lossy(rest));
            i = i + 1;
        }
    }
    assert(units.skip(i as int) =~= Seq::<u16>::empty());
    assert(out@ =~= utf16_lossy(units));
    out
}

/// No character is NUL.
pub open spec fn has_no_nul(s: Seq<char>) -> bool {
    forall|i: int| 0 <= i < s.len() ==> s[i] != '\0'
}

proof fn lemma_utf16_of_prepend(c: char, t: Seq<char>)
    ensures
        utf16_of(seq![c] + t) == utf16_units(c) + utf16_of(t),
    decreases t.len(),
{
    if t.len() == 0 {
        assert(seq![c] + t =~= seq![c]);
        assert(seq![c].drop_last() =~= Seq::<char>::empty());
        assert(utf16_of(seq![c]) == utf16_of(Seq::<char>::empty()) + utf16_units(c));
        assert(utf16_units(c) + utf16_of(t) =~= utf16_units(c));
        assert(utf16_of(Seq::<char>::empty()) + utf16_units(c) =~= utf16_units(c));
    } else {
        lemma_utf16_of_prepend(c, t.drop_last());
        assert((seq![c] + t).drop_last() =~= seq![c] + t.drop_last());
        assert((seq![c] + t).last() == t.last());
        assert(utf16_units(c) + utf16_of(t) =~= utf16_units(c) + utf16_of(t.drop_last())
            + utf16_units(t.last()));
    }
}

proof fn lemma_units_decode(c: char, rest: Seq<u16>)
    requires
        c != '\0',
    ensures
        utf16_lossy(utf16_units(c) + rest) == seq![c] + utf16_lossy(rest),
        forall|j: int| 0 <= j < utf16_units(c).len() ==> utf16_units(c)[j] != 0,
{
    let u = c as u32;
    let w = utf16_units(c) + rest;
    if u < 0x10000 {
        assert(w[0] == u as u16);
        assert(w[0] as u32 == u);
        assert(!(0xD800 <= u && u < 0xE000));
        assert(w.skip(1) =~= rest);
        assert(w[0] as u32 as char == c);
    } else {
        let v = u - 0x10000;
        assert(v < 0x100000);
        let hi = (0xD800 + v / 0x400) as u16;
        let lo = (0xDC00 + v % 0x400) as u16;
        assert(w[0] == hi && w[1] == lo);
        assert(hi as int == 0xD800 + v / 0x400);
        assert(lo as int == 0xDC00 + v % 0x400);
        assert(w.skip(2) =~= rest);
        assert((v / 0x400) * 0x400 + v % 0x400 == v) by (nonlinear_arith);
        assert((0x10000 + (w[0] - 0xD800) * 0x400 + (w[1] - 0xDC00)) as u32 == u);
    }
}

proof fn lemma_before_nul_append(x: Seq<u16>)
    requires
        forall|j: int| 0 <= j < x.len() ==> x[j] != 0,
    ensures
        before_nul(x.push(0)) == x,
    decreases x.len(),
{
    if x.len() > 0 {
        lemma_before_nul_append(x.drop_first());
        assert(x.push(0).drop_first() =~= x.drop_first().push(0));
        assert(seq![x[0]] + x.drop_first() =~= x);
    } else {
        assert(x.push(0)[0] == 0);
    }
}

proof fn lemma_utf16_no_zero(s: Seq<char>)
    requires
        has_no_nul(s),
    ensures
        forall|j: int| 0 <= j < utf16_of(s).len() ==> utf16_of(s)[j] != 0,
    decreases s.len(),
{
    if s.len() > 0 {
        lemma_utf16_no_zero(s.drop_last());
        lemma_units_decode(s.last(), Seq::<u16>::empty());
        let a = utf16_of(s.drop_last());
        let b = utf16_units(s.last());
        assert forall|j: int| 0 <= j < utf16_of(s).len() implies utf16_of(s)[j] != 0 by {
            if j < a.len() {
                assert(utf16_of(s)[j] == a[j]);
            } else {
                assert(utf16_of(s)[j] == b[j - a.len()]);
            }
        }
    }
}

proof fn lemma_utf16_decode(s: Seq<char>)
    requires
        has_no_nul(s),
    ensures
        utf16_lossy(utf16_of(s)) == s,
    decreases s.len(),
{
    if s.len() > 0 {
        let t = s.drop_first();
        lemma_utf16_decode(t);
        assert(seq![s[0]] + t =~= s);
        lemma_utf16_of_prepend(s[0], t);
        lemma_units_decode(s[0], utf16_of(t));
    } else {
        assert(utf16_of(s) =~= Seq::<u16>::empty());
    }
}

/// Reading back a string that was made wide gives the string again, as
/// long as it holds no NUL (the terminator that the wide form ends with).
pub proof fn lemma_wide_round_trip(s: Seq<char>)
    requires
        has_no_nul(s),
    ensures
        utf16_lossy(before_nul(utf16_of(s).push(0))) == s,
{
    lemma_utf16_no_zero(s);
    lemma_before_nul_append(utf16_of(s));
    lemma_utf16_decode(s);
}

// ---------------------------------------------------------------------------
// Console hosts and messages
// ---------------------------------------------------------------------------

/// How many parents up the launcher looks for the terminal that hosts it.
pub const PARENT_HOPS: u32 = 8;

/// Whether a process name (lowercase file name) is Windows Terminal.
pub fn is_terminal_host(name: &str) -> (r: bool)
    ensures
        r == (name@ == "windowsterminal.exe"@ || name@ == "wt.exe"@),
{
    str_eq(name, "windowsterminal.exe") || str_eq(name, "wt.exe")
}

/// Whether a process name (lowercase file name) is a console host.
pub fn is_console_host(name: &str) -> (r: bool)
    ensures
        r == (name@ == "conhost.exe"@ || name@ == "openconsole.exe"@),
{
    str_eq(name, "conhost.exe") || str_eq(name, "openconsole.exe")
}

/// The message when the launcher cannot find the application binary.
pub fn app_not_found_message(lang: Language, path: &str) -> (r: String)
    ensures
        r@ == match lang {
            Language::Vi => "[CliDesk] Không tìm thấy app binary.\n[CliDesk] Path: "@ + path@,
            Language::En => "[CliDesk] App binary not found.\n[CliDesk] Path: "@ + path@,
        },
{
    match lang {
        Language::Vi => concat("[CliDesk] Không tìm thấy app binary.\n[CliDesk] Path: ", path),
        Language::En => concat("[CliDesk] App binary not found.\n[CliDesk] Path: ", path),
    }
}

/// The message when the launcher cannot read its own path.
pub fn launcher_path_message(lang: Language, detail: &str) -> (r: String)
    ensures
        r@ == match lang {
            Language::Vi => "[CliDesk] Không thể lấy đường dẫn launcher: "@ + detail@,
            Language::En => "[CliDesk] Failed to read launcher path: "@ + detail@,
        },
{
    match lang {
        Language::Vi => concat("[CliDesk] Không thể lấy đường dẫn launcher: ", detail),
        Language::En => concat("[CliDesk] Failed to read launcher path: ", detail),
    }
}

/// The message when the launcher's folder cannot be told.
pub fn launcher_dir_message(lang: Language) -> (r: String)
    ensures
        r@ == match lang {
            Language::Vi => "[CliDesk] Không thể xác định thư mục launcher."@,
            Language::En => "[CliDesk] Failed to resolve launcher directory."@,
        },
{
    match lang {
        Language::Vi => owned("[CliDesk] Không thể xác định thư mục launcher."),
        Language::En => owned("[CliDesk] Failed to resolve launcher directory."),
    }
}


/// The decimal digit character of `d` (below 10).
pub open spec fn digit_char(d: nat) -> char {
    if d == 0 {
        '0'
    } else if d == 1 {
        '1'
    } else if d == 2 {
        '2'
    } else if d == 3 {
        '3'
    } else if d == 4 {
        '4'
    } else if d == 5 {
        '5'
    } else if d == 6 {
        '6'
    } else if d == 7 {
        '7'
    } else if d == 8 {
        '8'
    } else {
        '9'
    }
}

/// The decimal text of a number, without leading zeros.
pub open spec fn decimal(n: nat) -> Seq<char>
    decreases n,
{
    if n < 10 {
        seq![digit_char(n)]
    } else {
        decimal(n / 10).push(digit_char(n % 10))
    }
}

fn digit(d: u32) -> (c: char)
    requires
        d < 10,
    ensures
        c == digit_char(d as nat),
{
    if d == 0 {
        '0'
    } else if d == 1 {
        '1'
    } else if d == 2 {
        '2'
    } else if d == 3 {
        '3'
    } else if d == 4 {
        '4'
    } else if d == 5 {
        '5'
    } else if d == 6 {
        '6'
    } else if d == 7 {
        '7'
    } else if d == 8 {
        '8'
    } else {
        '9'
    }
}

/// The decimal text of `n`, as `format!("{}", n)` writes it.
pub fn decimal_text(n: u32) -> (r: String)
    ensures
        r@ == decimal(n as nat),
    decreases n,
{
    if n < 10 {
        let mut s = String::new();
        s.push(digit(n));
        assert(s@ =~= decimal(n as nat));
        s
    } else {
        let mut s = decimal_text(n / 10);
        s.push(digit(n % 10));
        s
    }
}

/// The name of the Job Object that ties the application to the launcher
/// with process id `pid`.
pub fn job_object_name(pid: u32) -> (r: String)
    ensures
        r@ == "Local\\CliDeskJob_"@ + decimal(pid as nat),
{
    let d = decimal_text(pid);
    concat("Local\\CliDeskJob_", d.as_str())
}

/// What can go wrong while starting the application inside a Job Object.
pub enum JobFailure {
    /// The application's folder cannot be told.
    AppDir,
    /// Starting the application at `path` failed with `detail`.
    Open { path: String, detail: String },
    Create,
    Configure,
    Assign,
}

/// The message for each failure, in the launcher's language.
pub open spec fn job_failure_text(lang: Language, f: JobFailure) -> Seq<char> {
    match (lang, f) {
        (Language::Vi, JobFailure::AppDir) => "[CliDesk] Không thể xác định thư mục app."@,
        (Language::En, JobFailure::AppDir) => "[CliDesk] Failed to resolve app directory."@,
        (Language::Vi, JobFailure::Open { path, detail }) => "[CliDesk] Không thể mở app CliDesk.\n[CliDesk] Path: "@
            + path@ + "\n[CliDesk] Lỗi: "@ + detail@,
        (Language::En, JobFailure::Open { path, detail }) => "[CliDesk] Failed to open CliDesk.\n[CliDesk] Path: "@
            + path@ + "\n[CliDesk] Error: "@ + detail@,
        (Language::Vi, JobFailure::Create) => "[CliDesk] Không thể tạo Windows Job Object."@,
        (Language::En, JobFailure::Create) => "[CliDesk] Failed to create Windows Job Object."@,
        (Language::Vi, JobFailure::Configure) => "[CliDesk] Không thể cấu hình Windows Job Object."@,
        (Language::En, JobFailure::Configure) => "[CliDesk] Failed to configure Windows Job Object."@,
        (Language::Vi, JobFailure::Assign) => "[CliDesk] Không thể gán CliDesk vào Windows Job Object."@,
        (Language::En, JobFailure::Assign) => "[CliDesk] Failed to assign CliDesk to Windows Job Object."@,
    }
}

fn join3(a: &str, b: &str, c: &str, d: &str) -> (r: String)
    ensures
        r@ == a@ + b@ + c@ + d@,
{
    let x = concat(a, b);
    let y = concat(x.as_str(), c);
    concat(y.as_str(), d)
}

/// The message for a failure while starting the application.
pub fn job_failure_message(lang: Language, failure: &JobFailure) -> (r: String)
    ensures
        r@ == job_failure_text(lang, *failure),
{
    match (lang, failure) {
        (Language::Vi, JobFailure::AppDir) => owned("[CliDesk] Không thể xác định thư mục app."),
        (Language::En, JobFailure::AppDir) => owned("[CliDesk] Failed to resolve app directory."),
        (Language::Vi, JobFailure::Open { path, detail }) => join3(
            "[CliDesk] Không thể mở app CliDesk.\n[CliDesk] Path: ",
            path.as_str(),
            "\n[CliDesk] Lỗi: ",
            detail.as_str(),
        ),
        (Language::En, JobFailure::Open { path, detail }) => join3(
            "[CliDesk] Failed to open CliDesk.\n[CliDesk] Path: ",
            path.as_str(),
            "\n[CliDesk] Error: ",
            detail.as_str(),
        ),
        (Language::Vi, JobFailure::Create) => owned("[CliDesk] Không thể tạo Windows Job Object."),
        (Language::En, JobFailure::Create) => owned("[CliDesk] Failed to create Windows Job Object."),
        (Language::Vi, JobFailure::Configure) => owned("[CliDesk] Không thể cấu hình Windows Job Object."),
        (Language::En, JobFailure::Configure) => owned("[CliDesk] Failed to configure Windows Job Object."),
        (Language::Vi, JobFailure::Assign) => owned("[CliDesk] Không thể gán CliDesk vào Windows Job Object."),
        (Language::En, JobFailure::Assign) => owned("[CliDesk] Failed to assign CliDesk to Windows Job Object."),
    }
}

/// The kind of console the launcher runs in, as the debug output names it.
pub fn terminal_host_label(in_windows_terminal: bool, has_console: bool) -> (r: &'static str)
    ensures
        r@ == if in_windows_terminal {
            "Windows Terminal"@
        } else if has_console {
            "conhost/CMD/powershell (classic)"@
        } else {
            "unknown (no console)"@
        },
{
    if in_windows_terminal {
        "Windows Terminal"
    } else if has_console {
        "conhost/CMD/powershell (classic)"
    } else {
        "unknown (no console)"
    }
}

/// The lines that show the version, and the update when one is available.
pub fn version_status_lines(lang: Language, info: &VersionInfo) -> (r: Vec<String>)
    ensures
        r.deep_view() == version_status(lang, info.current@, opt_view_ref(&info.latest), info.update_available, info.update_command@),
{
    let mut v: Vec<String> = Vec::new();
    let latest = match &info.latest {
        Some(l) => l.clone(),
        None => owned("latest"),
    };
    match lang {
        Language::Vi => {
            v.push(concat("[CliDesk] Phiên bản hiện tại: ", info.current.as_str()));
            if info.update_available {
                v.push(concat("[CliDesk] Có bản mới: ", latest.as_str()));
                v.push(concat("[CliDesk] Cập nhật: ", info.update_command.as_str()));
            }
        },
        Language::En => {
            v.push(concat("[CliDesk] Current version: ", info.current.as_str()));
            if info.update_available {
                v.push(concat("[CliDesk] Update available: ", latest.as_str()));
                v.push(concat("[CliDesk] Update: ", info.update_command.as_str()));
            }
        },
    }
    assert(v.deep_view() =~= version_status(lang, info.current@, opt_view_ref(&info.latest), info.update_available, info.update_command@));
    v
}

/// An optional string behind a reference, as an optional sequence.
pub open spec fn opt_view_ref(o: &Option<String>) -> Option<Seq<char>> {
    match o {
        Some(s) => Some(s@),
        None => None,
    }
}

/// The version banner: the current version, then, when an update is
/// available, the latest version (`latest` when unknown) and the command.
pub open spec fn version_status(
    lang: Language,
    current: Seq<char>,
    latest: Option<Seq<char>>,
    update_available: bool,
    command: Seq<char>,
) -> Seq<Seq<char>> {
    let l = match latest {
        Some(x) => x,
        None => "latest"@,
    };
    match lang {
        Language::Vi => if update_available {
            seq![
                "[CliDesk] Phiên bản hiện tại: "@ + current,
                "[CliDesk] Có bản mới: "@ + l,
                "[CliDesk] Cập nhật: "@ + command,
            ]
        } else {
            seq!["[CliDesk] Phiên bản hiện tại: "@ + current]
        },
        Language::En => if update_available {
            seq![
                "[CliDesk] Current version: "@ + current,
                "[CliDesk] Update available: "@ + l,
                "[CliDesk] Update: "@ + command,
            ]
        } else {
            seq!["[CliDesk] Current version: "@ + current]
        },
    }
}

} // verus!
