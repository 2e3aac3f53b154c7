//! Settings in `config.json` and the files in the user data directory.
//!
//! The data directory is `<platform config dir>/aistatus/`; `config.json`
//! holds the theme, the floating window's position and the MiMo cookie,
//! `balance.json` the cards. Reading and writing the files happens around
//! this module; it decides the paths and what a setting read from the file
//! means.
use vstd::prelude::*;

use crate::data::opt_view;
use crate::text::{chars_eq, chars_of, push_str, string_of};

verus! {

/// `c` separates path components, given the platform's main separator
/// `sep` (`/` is accepted everywhere).
pub open spec fn is_path_separator(c: char, sep: char) -> bool {
    c == '/' || c == sep
}

/// `PathBuf::join` of a relative `name` onto `base`: a separator is put
/// between them unless `base` is empty or already ends with one.
pub open spec fn path_join(base: Seq<char>, name: Seq<char>, sep: char) -> Seq<char> {
    if base.len() == 0 || is_path_separator(base.last(), sep) {
        base + name
    } else {
        base + seq![sep] + name
    }
}

/// `base` joined with `name` using the separator `sep`.
fn join_path(base: &str, name: &str, sep: char) -> (r: String)
    ensures
        r@ == path_join(base@, name@, sep),
{
    let mut v = chars_of(base);
    let n = v.len();
    if n > 0 && v[n - 1] != '/' && v[n - 1] != sep {
        v.push(sep);
    }
    push_str(&mut v, name);
    string_of(&v)
}

/// The platform configuration directory, or `.` when there is none.
pub open spec fn config_base(config_dir: Option<&str>) -> Seq<char> {
    match config_dir {
        Some(d) => d@,
        None => "."@,
    }
}

/// The data directory `<config_dir>/aistatus`, where `config_dir` is the
/// platform's configuration directory (`.` when there is none) and `sep`
/// the platform's main path separator (`std::path::MAIN_SEPARATOR`).
pub fn data_dir(config_dir: Option<&str>, sep: char) -> (r: String)
    ensures
        r@ == path_join(config_base(config_dir), "aistatus"@, sep),
{
    let base = match config_dir {
        Some(d) => d,
        None => ".",
    };
    join_path(base, "aistatus", sep)
}

/// The full path of `config.json` in the data directory.
pub fn config_path(data_dir: &str, sep: char) -> (r: String)
    ensures
        r@ == path_join(data_dir@, "config.json"@, sep),
{
    join_path(data_dir, "config.json", sep)
}

/// The full path of `balance.json` in the data directory (created from the
/// built-in template on first run).
pub fn balance_path(data_dir: &str, sep: char) -> (r: String)
    ensures
        r@ == path_join(data_dir@, "balance.json"@, sep),
{
    join_path(data_dir, "balance.json", sep)
}

/// The directory part that `path_join` puts in front of a name: `dir`,
/// followed by `sep` unless it is empty or already ends with a separator.
pub open spec fn dir_prefix(dir: Seq<char>, sep: char) -> Seq<char> {
    if dir.len() == 0 || is_path_separator(dir.last(), sep) {
        dir
    } else {
        dir + seq![sep]
    }
}

/// `config.json` and `balance.json` lie side by side: both paths are the
/// same directory part followed by the file's name, and they differ.
pub proof fn law_config_files_side_by_side(dir: Seq<char>, sep: char)
    ensures
        path_join(dir, "config.json"@, sep) == dir_prefix(dir, sep) + "config.json"@,
        path_join(dir, "balance.json"@, sep) == dir_prefix(dir, sep) + "balance.json"@,
        path_join(dir, "config.json"@, sep) != path_join(dir, "balance.json"@, sep),
{
    reveal_strlit("config.json");
    reveal_strlit("balance.json");
    let p = dir_prefix(dir, sep);
    assert((p + "config.json"@).len() != (p + "balance.json"@).len());
}

// ───────────────────────── reading and writing `config.json` ─────────────────────────

/// What serde_json reads from a config text: the text parsed as a JSON
/// value, then the string found by following the object keys of `path`
/// (`None` when the text does not parse, a key is missing, a step is not
/// an object, or the value found is not a string).
pub uninterp spec fn config_str_at(text: Seq<char>, path: Seq<Seq<char>>) -> Option<Seq<char>>;

/// The characters of an optional text.
pub open spec fn opt_text(t: Option<&str>) -> Option<Seq<char>> {
    match t {
        Some(s) => Some(s@),
        None => None,
    }
}

/// The string at `path` of an optional config text; `None` without a text.
pub open spec fn text_str_at(text: Option<Seq<char>>, path: Seq<Seq<char>>) -> Option<Seq<char>> {
    match text {
        Some(t) => config_str_at(t, path),
        None => None,
    }
}

/// `serde_json::from_str::<Value>` on `text`, then `Value::get(key)` and
/// `Value::as_str`: the string at the top-level `key`, if any.
#[verifier::external_body]
fn config_str_field(text: &str, key: &str) -> (r: Option<String>)
    ensures
        opt_view(r) == config_str_at(text@, seq![key@]),
{
    let v: serde_json::Value = serde_json::from_str(text).ok()?;
    v.get(key)?.as_str().map(|s| s.to_string())
}

/// `serde_json::from_str::<Value>` on `text`, then `Value::get(key)`,
/// `Value::get(sub)` and `Value::as_str`: the string at `key.sub`, if any.
#[verifier::external_body]
fn config_str_field2(text: &str, key: &str, sub: &str) -> (r: Option<String>)
    ensures
        opt_view(r) == config_str_at(text@, seq![key@, sub@]),
{
    let v: serde_json::Value = serde_json::from_str(text).ok()?;
    v.get(key)?.get(sub)?.as_str().map(|s| s.to_string())
}

// ───────────────────────── JSON objects of serde_json ─────────────────────────

/// `serde_json::Value`, carried through opaquely.
#[verifier::external_type_specification]
#[verifier::external_body]
pub struct ExJsonValue(serde_json::Value);

/// `serde_json::Map`, a JSON object; what it holds is seen through
/// `json_strings` and `json_depth`.
#[verifier::external_type_specification]
#[verifier::external_body]
#[verifier::reject_recursive_types(K)]
#[verifier::reject_recursive_types(V)]
pub struct ExJsonMap<K, V>(serde_json::Map<K, V>);

/// A JSON object of serde_json, as `config.json` holds one.
pub type JsonObject = serde_json::Map<String, serde_json::Value>;

/// The strings a JSON object holds: for each key path (a key of the object,
/// then keys of nested objects) that leads to a string, that string.
pub uninterp spec fn json_strings(m: JsonObject) -> Map<
    Seq<Seq<char>>,
    Seq<char>,
>;

/// How deeply objects and arrays nest in a JSON object, the object itself
/// counting 1 (serde_json parses at most 127 levels).
pub uninterp spec fn json_depth(m: JsonObject) -> nat;

/// The string an object holds at `path`; never one at the empty path, which
/// is the object itself.
pub open spec fn strings_at(m: JsonObject, path: Seq<Seq<char>>) -> Option<
    Seq<char>,
> {
    if path.len() > 0 && json_strings(m).contains_key(path) {
        Some(json_strings(m)[path])
    } else {
        None
    }
}

/// `serde_json::from_str` into a `Map`: the text's object, or `None` when
/// the text does not parse or is not an object. The object holds what
/// `config_str_at` reads from the text; without one, no key path of the
/// text leads to a string.
#[verifier::external_body]
fn parse_json_object(text: &str) -> (r: Option<JsonObject>)
    ensures
        match r {
            Some(m) => json_depth(m) <= 127 && forall|p: Seq<Seq<char>>|
                #[trigger] strings_at(m, p) == config_str_at(text@, p),
            None => forall|p: Seq<Seq<char>>|
                p.len() >= 1 ==> #[trigger] config_str_at(text@, p) is None,
        },
{
    serde_json::from_str::<JsonObject>(text).ok()
}

/// `serde_json::Map::new`: an empty object.
#[verifier::external_body]
fn new_json_object() -> (r: JsonObject)
    ensures
        json_strings(r) =~= Map::empty(),
        json_depth(r) == 1,
{
    serde_json::Map::new()
}

/// `serde_json::Map::insert` of the string `value` at `key`, replacing
/// whatever was there.
#[verifier::external_body]
fn json_insert_str(m: &mut JsonObject, key: &str, value: &str)
    ensures
        json_depth(*final(m)) <= json_depth(*old(m)),
        forall|p: Seq<Seq<char>>|
            #[trigger] strings_at(*final(m), p) == if p.len() >= 1 && p[0] == key@ {
                if p.len() == 1 {
                    Some(value@)
                } else {
                    None
                }
            } else {
                strings_at(*old(m), p)
            },
{
    m.insert(key.to_string(), serde_json::Value::String(value.to_string()));
}

/// `serde_json::Map::insert` of the object `value` at `key`, replacing
/// whatever was there.
#[verifier::external_body]
fn json_insert_object(
    m: &mut JsonObject,
    key: &str,
    value: JsonObject,
)
    ensures
        json_depth(*final(m)) <= json_depth(*old(m)) || json_depth(*final(m)) <= json_depth(value)
            + 1,
        forall|p: Seq<Seq<char>>|
            #[trigger] strings_at(*final(m), p) == if p.len() >= 1 && p[0] == key@ {
                strings_at(value, p.drop_first())
            } else {
                strings_at(*old(m), p)
            },
{
    m.insert(key.to_string(), serde_json::Value::Object(value));
}

/// `serde_json::to_string_pretty` of an object. Reading the text back gives
/// the strings the object holds, when it nests no deeper than serde_json
/// parses; what else the text holds (numbers, arrays, spacing) is not
/// stated.
#[verifier::external_body]
fn json_object_text(m: &JsonObject) -> (r: String)
    ensures
        json_depth(*m) <= 127 ==> forall|p: Seq<Seq<char>>|
            #[trigger] config_str_at(r@, p) == strings_at(*m, p),
{
    serde_json::to_string_pretty(m).unwrap_or_default()
}

/// The object held in `config.json`: the text's object, or an empty object
/// when there is no readable file, it does not parse, or it is not an
/// object.
fn config_object(config_text: Option<&str>) -> (r: JsonObject)
    ensures
        json_depth(r) <= 127,
        forall|p: Seq<Seq<char>>|
            p.len() >= 1 ==> #[trigger] strings_at(r, p) == text_str_at(opt_text(config_text), p),
{
    let parsed = match config_text {
        Some(t) => parse_json_object(t),
        None => None,
    };
    match parsed {
        Some(m) => m,
        None => new_json_object(),
    }
}

/// The new text of `config.json` when the object `value` is saved at `key`
/// into the old text `config_text` (`None` when there was no readable
/// file). When `value` nests no deeper than serde_json parses, the strings
/// under `key` are those of `value`, and every path under another key reads
/// as in the old text.
pub fn config_with_entry(
    config_text: Option<&str>,
    key: &str,
    value: JsonObject,
) -> (r: String)
    ensures
        json_depth(value) <= 126 ==> forall|p: Seq<Seq<char>>|
            p.len() >= 1 && p[0] == key@ ==> #[trigger] config_str_at(r@, p) == strings_at(
                value,
                p.drop_first(),
            ),
        json_depth(value) <= 126 ==> forall|p: Seq<Seq<char>>|
            p.len() >= 1 && p[0] != key@ ==> #[trigger] config_str_at(r@, p) == text_str_at(
                opt_text(config_text),
                p,
            ),
{
    let mut m = config_object(config_text);
    let ghost before = m;
    let ghost vd = json_depth(value);
    let ghost vv = value;
    json_insert_object(&mut m, key, value);
    let r = json_object_text(&m);
    proof {
        if vd <= 126 {
            assert forall|p: Seq<Seq<char>>| p.len() >= 1 && p[0] != key@ implies #[trigger] config_str_at(
                r@,
                p,
            ) == text_str_at(opt_text(config_text), p) by {
                assert(strings_at(m, p) == strings_at(before, p));
            }
            assert forall|p: Seq<Seq<char>>| p.len() >= 1 && p[0] == key@ implies #[trigger] config_str_at(
                r@,
                p,
            ) == strings_at(vv, p.drop_first()) by {
                assert(strings_at(m, p) == strings_at(vv, p.drop_first()));
            }
        }
    }
    r
}

/// The theme names the settings accept.
pub open spec fn valid_theme(t: Seq<char>) -> bool {
    t == "system"@ || t == "dark"@ || t == "light"@
}

/// The theme that a `theme` field of `config.json` stands for: the field
/// when it is `system`, `dark` or `light`; `system` when it is missing, not
/// a string, or anything else.
pub open spec fn loaded_theme(field: Option<Seq<char>>) -> Seq<char> {
    match field {
        Some(t) => if valid_theme(t) {
            t
        } else {
            "system"@
        },
        None => "system"@,
    }
}

/// Whether `t` names a theme the settings accept.
pub fn theme_accepted(t: &str) -> (r: bool)
    ensures
        r == valid_theme(t@),
{
    let v = chars_of(t);
    let a = chars_of("system");
    let b = chars_of("dark");
    let c = chars_of("light");
    chars_eq(&v, &a) || chars_eq(&v, &b) || chars_eq(&v, &c)
}

/// The theme setting from the text of `config.json` (`None` when the file
/// could not be read): its `theme` string when that is a valid theme,
/// `system` otherwise.
pub fn load_theme(config_text: Option<&str>) -> (r: String)
    ensures
        r@ == loaded_theme(text_str_at(opt_text(config_text), seq!["theme"@])),
{
    let field = match config_text {
        Some(t) => config_str_field(t, "theme"),
        None => None,
    };
    match field {
        Some(f) => {
            if theme_accepted(f.as_str()) {
                f
            } else {
                String::from_str("system")
            }
        },
        None => String::from_str("system"),
    }
}

/// The MiMo cookie setting from the text of `config.json`: its
/// `mimo.cookie` string, or the empty string (not configured) when the file
/// could not be read, does not parse, or has no such string.
pub fn load_mimo_cookie(config_text: Option<&str>) -> (r: String)
    ensures
        r@ == match text_str_at(opt_text(config_text), seq!["mimo"@, "cookie"@]) {
            Some(c) => c,
            None => Seq::<char>::empty(),
        },
{
    let field = match config_text {
        Some(t) => config_str_field2(t, "mimo", "cookie"),
        None => None,
    };
    match field {
        Some(c) => c,
        None => String::new(),
    }
}

/// The new text of `config.json` when the theme `theme` is saved into the
/// old text `config_text` (`None` when there was no readable file). Every
/// other setting is kept, and a valid theme is read back as itself.
pub fn config_with_theme(config_text: Option<&str>, theme: &str) -> (r: String)
    ensures
        config_str_at(r@, seq!["theme"@]) == Some(theme@),
        valid_theme(theme@) ==> loaded_theme(config_str_at(r@, seq!["theme"@])) == theme@,
        forall|p: Seq<Seq<char>>|
            p.len() >= 1 && p[0] != "theme"@ ==> #[trigger] config_str_at(r@, p) == text_str_at(
                opt_text(config_text),
                p,
            ),
{
    let mut m = config_object(config_text);
    let ghost before = m;
    json_insert_str(&mut m, "theme", theme);
    let r = json_object_text(&m);
    proof {
        assert(strings_at(m, seq!["theme"@]) == Some(theme@));
        assert forall|p: Seq<Seq<char>>| p.len() >= 1 && p[0] != "theme"@ implies #[trigger] config_str_at(
            r@,
            p,
        ) == text_str_at(opt_text(config_text), p) by {
            assert(strings_at(m, p) == strings_at(before, p));
        }
    }
    r
}

/// The new text of `config.json` when the MiMo cookie `cookie` is saved
/// into the old text `config_text` (`None` when there was no readable
/// file): `mimo` becomes `{"cookie": cookie}`, every other setting is kept,
/// and the cookie is read back as saved.
pub fn config_with_mimo_cookie(config_text: Option<&str>, cookie: &str) -> (r: String)
    ensures
        config_str_at(r@, seq!["mimo"@, "cookie"@]) == Some(cookie@),
        forall|p: Seq<Seq<char>>|
            p.len() >= 1 && p[0] != "mimo"@ ==> #[trigger] config_str_at(r@, p) == text_str_at(
                opt_text(config_text),
                p,
            ),
{
    let mut inner = new_json_object();
    json_insert_str(&mut inner, "cookie", cookie);
    let ghost iv = inner;
    assert(json_depth(iv) <= 126);
    let r = config_with_entry(config_text, "mimo", inner);
    proof {
        let p = seq!["mimo"@, "cookie"@];
        assert(p.drop_first() =~= seq!["cookie"@]);
        assert(config_str_at(r@, p) == strings_at(iv, p.drop_first()));
    }
    r
}

} // verus!
