//! Validation of user settings and the rows that store them.

use vstd::prelude::*;
use crate::models::AppError;
use crate::number::{parse_i32, parse_i32_at};
use crate::text::{chars_of, concat, owned, str_eq};

verus! {

/// The service behind the settings page.
pub struct SettingsService;

/// A validated setting, ready to be stored with its time of change.
#[derive(Debug)]
pub struct SettingRow {
    pub key: String,
    pub value: String,
    pub updated_at: String,
}

/// What the store answered to a lookup of one key.
#[derive(Debug)]
pub enum SettingLookup {
    Found(String),
    NoRows,
    Failed(String),
}

/// The keys that can be set.
pub open spec fn is_setting_key(k: Seq<char>) -> bool {
    ||| k == "security.mode"@ ||| k == "ui.theme"@ ||| k == "ui.language"@
    ||| k == "terminal.defaultShell.windows"@ ||| k == "terminal.defaultShell.linux"@
    ||| k == "editor.fontSize"@ ||| k == "terminal.fontSize"@ ||| k == "tray.close_to_tray"@
    ||| k == "tray.minimize_to_tray"@
}

/// The error code and message that a key and value are refused with, or
/// `None` when the setting is acceptable.
pub open spec fn setting_error(key: Seq<char>, value: Seq<char>) -> Option<(Seq<char>, Seq<char>)> {
    if !is_setting_key(key) {
        Some(("INVALID_SETTING_KEY"@, "Unknown setting key: "@ + key))
    } else if key == "security.mode"@ {
        if value == "relaxed"@ || value == "standard"@ || value == "strict"@ {
            None
        } else {
            Some(("INVALID_SETTING_VALUE"@, "Security mode must be: relaxed, standard, or strict"@))
        }
    } else if key == "ui.theme"@ {
        if value == "light"@ || value == "dark"@ {
            None
        } else {
            Some(("INVALID_SETTING_VALUE"@, "Theme must be: light or dark"@))
        }
    } else if key == "ui.language"@ {
        if value == "vi"@ || value == "en"@ {
            None
        } else {
            Some(("INVALID_SETTING_VALUE"@, "Language must be: vi or en"@))
        }
    } else if key == "editor.fontSize"@ || key == "terminal.fontSize"@ {
        match parse_i32(value) {
            Some(size) => if size < 8 || size > 72 {
                Some(("INVALID_SETTING_VALUE"@, "Font size must be between 8 and 72"@))
            } else {
                None
            },
            None => Some(("INVALID_SETTING_VALUE"@, "Font size must be a number"@)),
        }
    } else if key == "tray.close_to_tray"@ || key == "tray.minimize_to_tray"@ {
        if value == "true"@ || value == "false"@ {
            None
        } else {
            Some(("INVALID_SETTING_VALUE"@, "Tray setting must be 'true' or 'false'"@))
        }
    } else {
        None
    }
}

/// The settings that a new database starts with.
pub open spec fn default_settings() -> Seq<(Seq<char>, Seq<char>)> {
    seq![
        ("security.mode"@, "standard"@),
        ("ui.theme"@, "dark"@),
        ("terminal.fontSize"@, "14"@),
        ("editor.fontSize"@, "14"@),
    ]
}

fn is_key(key: &str) -> (r: bool)
    ensures
        r == is_setting_key(key@),
{
    str_eq(key, "security.mode") || str_eq(key, "ui.theme") || str_eq(key, "ui.language")
        || str_eq(key, "terminal.defaultShell.windows") || str_eq(
        key,
        "terminal.defaultShell.linux",
    ) || str_eq(key, "editor.fontSize") || str_eq(key, "terminal.fontSize") || str_eq(
        key,
        "tray.close_to_tray",
    ) || str_eq(key, "tray.minimize_to_tray")
}

fn bad_value(message: &str) -> (r: Result<(), AppError>)
    ensures
        r matches Err(e) && e.code@ == "INVALID_SETTING_VALUE"@ && e.message@ == message@,
{
    Err(AppError::new("INVALID_SETTING_VALUE", message))
}

impl SettingsService {
    pub fn new() -> (r: Self) {
        SettingsService
    }

    /// Checks a key and value: the key must be a known one, and the keys
    /// with a fixed set of values (security mode, theme, language, tray
    /// switches) or a range (font sizes, 8 to 72) must get such a value.
    pub fn validate(key: &str, value: &str) -> (r: Result<(), AppError>)
        ensures
            match r {
                Ok(()) => setting_error(key@, value@) is None,
                Err(e) => setting_error(key@, value@) == Some((e.code@, e.message@)),
            },
    {
        if !is_key(key) {
            let msg = concat("Unknown setting key: ", key);
            return Err(AppError { code: owned("INVALID_SETTING_KEY"), message: msg });
        }
        if str_eq(key, "security.mode") {
            if str_eq(value, "relaxed") || str_eq(value, "standard") || str_eq(value, "strict") {
                return Ok(());
            }
            return bad_value("Security mode must be: relaxed, standard, or strict");
        }
        if str_eq(key, "ui.theme") {
            if str_eq(value, "light") || str_eq(value, "dark") {
                return Ok(());
            }
            return bad_value("Theme must be: light or dark");
        }
        if str_eq(key, "ui.language") {
            if str_eq(value, "vi") || str_eq(value, "en") {
                return Ok(());
            }
            return bad_value("Language must be: vi or en");
        }
        if str_eq(key, "editor.fontSize") || str_eq(key, "terminal.fontSize") {
            let v = chars_of(value);
            assert(v@.subrange(0, v@.len() as int) =~= v@);
            match parse_i32_at(v.as_slice(), 0, v.len()) {
                Some(size) => {
                    if size < 8 || size > 72 {
                        return bad_value("Font size must be between 8 and 72");
                    }
                    return Ok(());
                },
                None => {
                    return bad_value("Font size must be a number");
                },
            }
        }
        if str_eq(key, "tray.close_to_tray") || str_eq(key, "tray.minimize_to_tray") {
            if str_eq(value, "true") || str_eq(value, "false") {
                return Ok(());
            }
            return bad_value("Tray setting must be 'true' or 'false'");
        }
        Ok(())
    }

    /// Validates a setting and gives the row to store, stamped with the
    /// time of the change `now` (the caller's clock reading).
    pub fn set(key: &str, value: &str, now: String) -> (r: Result<SettingRow, AppError>)
        ensures
            match r {
                Ok(row) => setting_error(key@, value@) is None && row.key@ == key@ && row.value@
                    == value@ && row.updated_at@ == now@,
                Err(e) => setting_error(key@, value@) == Some((e.code@, e.message@)),
            },
    {
        match SettingsService::validate(key, value) {
            Ok(()) => Ok(SettingRow { key: owned(key), value: owned(value), updated_at: now }),
            Err(e) => Err(e),
        }
    }

    /// The answer to a lookup: the stored value, nothing when no row has
    /// the key, or a query error.
    pub fn get(lookup: SettingLookup) -> (r: Result<Option<String>, AppError>)
        ensures
            match lookup {
                SettingLookup::Found(v) => r == Ok::<Option<String>, AppError>(Some(v)),
                SettingLookup::NoRows => r == Ok::<Option<String>, AppError>(None),
                SettingLookup::Failed(m) => r matches Err(e) && e.code@ == "DB_QUERY_ERROR"@
                    && e.message@ == "Failed to get setting: "@ + m@,
            },
    {
        match lookup {
            SettingLookup::Found(v) => Ok(Some(v)),
            SettingLookup::NoRows => Ok(None),
            SettingLookup::Failed(m) => Err(
                AppError {
                    code: owned("DB_QUERY_ERROR"),
                    message: concat("Failed to get setting: ", m.as_str()),
                },
            ),
        }
    }

    /// The readable settings rows, as key and value, in the order read;
    /// rows that could not be read are left out.
    pub fn get_all(rows: Vec<Result<(String, String), String>>) -> (r: Vec<(String, String)>)
        ensures
            r@ == ok_settings(rows@),
    {
        let ghost all = rows@;
        let mut rest = rows;
        let mut r: Vec<(String, String)> = Vec::new();
        let ghost mut k: int = 0;
        assert(all.skip(0) =~= all);
        while rest.len() > 0
            invariant
                0 <= k <= all.len(),
                rest@ == all.skip(k),
                r@ == ok_settings(all.take(k)),
            decreases rest@.len(),
        {
            let row = rest.remove(0);
            assert(row == all[k]);
            assert(rest@ =~= all.skip(k + 1));
            assert(all.take(k + 1).drop_last() =~= all.take(k));
            assert(all.take(k + 1).last() == all[k]);
            match row {
                Ok(kv) => {
                    r.push(kv);
                },
                Err(_) => {},
            }
            proof {
                k = k + 1;
            }
        }
        assert(all.take(k) =~= all);
        r
    }

    /// The error for a failed settings query or save, around the database's
    /// message `detail`.
    pub fn db_error(action: SettingsDbAction, detail: &str) -> (e: AppError)
        ensures
            e.code@ == match action {
                SettingsDbAction::Save => "DB_UPDATE_ERROR"@,
                _ => "DB_QUERY_ERROR"@,
            },
            e.message@ == match action {
                SettingsDbAction::Prepare => "Failed to query settings: "@,
                SettingsDbAction::Read => "Failed to map settings: "@,
                SettingsDbAction::Save => "Failed to save setting: "@,
            } + detail@,
    {
        match action {
            SettingsDbAction::Prepare => AppError::new(
                "DB_QUERY_ERROR",
                concat("Failed to query settings: ", detail).as_str(),
            ),
            SettingsDbAction::Read => AppError::new(
                "DB_QUERY_ERROR",
                concat("Failed to map settings: ", detail).as_str(),
            ),
            SettingsDbAction::Save => AppError::new(
                "DB_UPDATE_ERROR",
                concat("Failed to save setting: ", detail).as_str(),
            ),
        }
    }

    /// The settings a new database starts with, as key and value.
    pub fn defaults() -> (r: Vec<(String, String)>)
        ensures
            r@.len() == default_settings().len(),
            forall|i: int|
                0 <= i < r@.len() ==> (#[trigger] r@[i]).0@ == default_settings()[i].0 && r@[i].1@
                    == default_settings()[i].1,
    {
        let mut r: Vec<(String, String)> = Vec::new();
        r.push((owned("security.mode"), owned("standard")));
        r.push((owned("ui.theme"), owned("dark")));
        r.push((owned("terminal.fontSize"), owned("14")));
        r.push((owned("editor.fontSize"), owned("14")));
        r
    }
}


/// The settings database operations whose failures are reported.
pub enum SettingsDbAction {
    /// Preparing the query of all settings.
    Prepare,
    /// Running the query of all settings.
    Read,
    /// Saving one setting.
    Save,
}

/// The readable rows, in order.
pub open spec fn ok_settings(rows: Seq<Result<(String, String), String>>) -> Seq<(String, String)>
    decreases rows.len(),
{
    if rows.len() == 0 {
        seq![]
    } else {
        let r = ok_settings(rows.drop_last());
        match rows.last() {
            Ok(kv) => r.push(kv),
            Err(_) => r,
        }
    }
}

/// Every setting that a new database starts with passes validation.
pub proof fn lemma_defaults_are_valid()
    ensures
        forall|i: int|
            0 <= i < default_settings().len() ==> setting_error(
                (#[trigger] default_settings()[i]).0,
                default_settings()[i].1,
            ) is None,
{
    reveal_strlit("security.mode");
    reveal_strlit("ui.theme");
    reveal_strlit("ui.language");
    reveal_strlit("terminal.defaultShell.windows");
    reveal_strlit("terminal.defaultShell.linux");
    reveal_strlit("editor.fontSize");
    reveal_strlit("terminal.fontSize");
    reveal_strlit("tray.close_to_tray");
    reveal_strlit("tray.minimize_to_tray");
    reveal_strlit("standard");
    reveal_strlit("dark");
    reveal_strlit("14");
    let fourteen = "14"@;
    assert(fourteen.len() == 2);
    assert(crate::number::all_digits(fourteen));
    assert(fourteen.drop_last() =~= seq!['1']);
    assert(seq!['1'].drop_last() =~= Seq::<char>::empty());
    assert(('1' as u32) - ('0' as u32) == 1);
    assert(seq!['1'].last() == '1');
    assert(crate::number::digits_value(Seq::<char>::empty()) == 0);
    assert(crate::number::digits_value(seq!['1']) == crate::number::digits_value(seq!['1'].drop_last()) * 10 + 1);
    assert(crate::number::digits_value(seq!['1']) == 1);
    assert(crate::number::digits_value(fourteen) == 14);
    assert(parse_i32(fourteen) == Some(14i32));
    assert("security.mode"@.len() == 13);
    assert("ui.theme"@.len() == 8);
    assert("ui.language"@.len() == 11);
    assert("terminal.fontSize"@.len() == 17);
    assert("editor.fontSize"@.len() == 15);
    assert("security.mode"@ != "ui.theme"@);
    assert("terminal.fontSize"@ != "security.mode"@);
    assert("terminal.fontSize"@ != "ui.theme"@);
    assert("terminal.fontSize"@ != "ui.language"@);
    assert("editor.fontSize"@ != "security.mode"@);
    assert("editor.fontSize"@ != "ui.theme"@);
    assert("editor.fontSize"@ != "ui.language"@);
    assert("ui.theme"@ != "ui.language"@);
}

/// The values each setting with a fixed choice accepts are exactly the
/// ones its error message names: `relaxed`, `standard`, `strict` for the
/// security mode, `light` and `dark` for the theme, `vi` and `en` for the
/// language, `true` and `false` for the two tray settings.
pub proof fn lemma_setting_choices(v: Seq<char>)
    ensures
        setting_error("security.mode"@, v) is None <==> (v == "relaxed"@ || v == "standard"@ || v
            == "strict"@),
        setting_error("ui.theme"@, v) is None <==> (v == "light"@ || v == "dark"@),
        setting_error("ui.language"@, v) is None <==> (v == "vi"@ || v == "en"@),
        setting_error("tray.close_to_tray"@, v) is None <==> (v == "true"@ || v == "false"@),
        setting_error("tray.minimize_to_tray"@, v) is None <==> (v == "true"@ || v == "false"@),
{
    reveal_strlit("security.mode");
    reveal_strlit("ui.theme");
    reveal_strlit("ui.language");
    reveal_strlit("editor.fontSize");
    reveal_strlit("terminal.fontSize");
    reveal_strlit("tray.close_to_tray");
    reveal_strlit("tray.minimize_to_tray");
    assert("ui.theme"@.len() != "security.mode"@.len());
    assert("ui.language"@.len() != "security.mode"@.len() && "ui.language"@.len() != "ui.theme"@.len());
    assert("tray.close_to_tray"@.len() != "tray.minimize_to_tray"@.len());
}

/// The nine keys that can be set; any other key is refused as unknown.
pub open spec fn settable(k: Seq<char>) -> bool {
    k == "security.mode"@ || k == "ui.theme"@ || k == "ui.language"@
        || k == "terminal.defaultShell.windows"@ || k == "terminal.defaultShell.linux"@
        || k == "editor.fontSize"@ || k == "terminal.fontSize"@ || k == "tray.close_to_tray"@
        || k == "tray.minimize_to_tray"@
}

/// A key outside the nine settable ones is refused as an unknown key,
/// whatever the value; the two default-shell settings take any value; the
/// two font sizes take a whole number from 8 to 72.
pub proof fn lemma_setting_keys_and_sizes(k: Seq<char>, v: Seq<char>)
    ensures
        !settable(k) ==> setting_error(k, v) == Some(
            ("INVALID_SETTING_KEY"@, "Unknown setting key: "@ + k),
        ),
        settable(k) ==> !(setting_error(k, v) matches Some((c, _)) && c == "INVALID_SETTING_KEY"@),
        setting_error("terminal.defaultShell.windows"@, v) is None,
        setting_error("terminal.defaultShell.linux"@, v) is None,
        setting_error("editor.fontSize"@, v) is None <==> (parse_i32(v) matches Some(n) && 8 <= n
            && n <= 72),
        setting_error("terminal.fontSize"@, v) is None <==> (parse_i32(v) matches Some(n) && 8 <= n
            && n <= 72),
{
    reveal_strlit("security.mode");
    reveal_strlit("ui.theme");
    reveal_strlit("ui.language");
    reveal_strlit("terminal.defaultShell.windows");
    reveal_strlit("terminal.defaultShell.linux");
    reveal_strlit("editor.fontSize");
    reveal_strlit("terminal.fontSize");
    reveal_strlit("tray.close_to_tray");
    reveal_strlit("tray.minimize_to_tray");
    reveal_strlit("INVALID_SETTING_KEY");
    reveal_strlit("INVALID_SETTING_VALUE");
    assert("INVALID_SETTING_KEY"@.len() != "INVALID_SETTING_VALUE"@.len());
    assert("terminal.defaultShell.windows"@.len() != "security.mode"@.len()
        && "terminal.defaultShell.windows"@.len() != "ui.theme"@.len()
        && "terminal.defaultShell.windows"@.len() != "ui.language"@.len()
        && "terminal.defaultShell.windows"@.len() != "editor.fontSize"@.len()
        && "terminal.defaultShell.windows"@.len() != "terminal.fontSize"@.len()
        && "terminal.defaultShell.windows"@.len() != "tray.close_to_tray"@.len()
        && "terminal.defaultShell.windows"@.len() != "tray.minimize_to_tray"@.len());
    assert("terminal.defaultShell.linux"@.len() != "security.mode"@.len()
        && "terminal.defaultShell.linux"@.len() != "ui.theme"@.len()
        && "terminal.defaultShell.linux"@.len() != "ui.language"@.len()
        && "terminal.defaultShell.linux"@.len() != "editor.fontSize"@.len()
        && "terminal.defaultShell.linux"@.len() != "terminal.fontSize"@.len()
        && "terminal.defaultShell.linux"@.len() != "tray.close_to_tray"@.len()
        && "terminal.defaultShell.linux"@.len() != "tray.minimize_to_tray"@.len());
    assert("editor.fontSize"@.len() != "security.mode"@.len() && "editor.fontSize"@.len()
        != "ui.theme"@.len() && "editor.fontSize"@.len() != "ui.language"@.len());
    assert("terminal.fontSize"@.len() != "security.mode"@.len() && "terminal.fontSize"@.len()
        != "ui.theme"@.len() && "terminal.fontSize"@.len() != "ui.language"@.len());
}

} // verus!
