//! Where the settings live, what their files are called, and what is made of a file that
//! could, or could not, be read.

use vstd::prelude::*;
use vstd::utf8::encode_utf8;

use crate::number::{decimal, decimal_text};
use crate::order::{in_order, sort_names};
use crate::paths::{join_bytes, join_path, joined_path, path_of, under};
use crate::text::{
    cat2, cat3, chars_of, ends_with, outcome, stands_at, string_between, text_of, texts,
};

verus! {

/// Name of the settings file.
pub const CONFIG_FILE: &'static str = "config.json";

/// The ending of every file kept here.
pub const JSON: &'static str = ".json";

/// The user's configuration directory, from `dirs::config_dir`, as the bytes that the system
/// keeps the path in. It depends on the environment, so nothing is said of it.
#[verifier::external_body]
fn user_config_dir() -> (r: Option<Vec<u8>>) {
    dirs::config_dir().map(|path| path.into_os_string().into_encoded_bytes())
}

/// The application's directory under a configuration directory, or under `.config` where
/// there is none.
pub open spec fn config_dir_in(base: Option<Seq<u8>>) -> Seq<u8> {
    match base {
        Some(base) => under(base, "predator-sense"@),
        None => under(encode_utf8(".config"@), "predator-sense"@),
    }
}

/// The application's directory under a configuration directory, or under `.config` where
/// there is none.
pub fn config_dir_under(base: &Option<Vec<u8>>) -> (r: Vec<u8>)
    ensures
        r@ == config_dir_in(path_of(*base)),
{
    match base {
        Some(base) => join_bytes(base.as_slice(), "predator-sense"),
        None => join_bytes(".config".as_bytes(), "predator-sense"),
    }
}

/// The application's directory, under whatever the user's configuration directory is.
pub fn config_dir() -> (r: Vec<u8>)
    ensures
        exists|base: Option<Seq<u8>>| r@ == #[trigger] config_dir_in(base),
{
    let base = user_config_dir();
    config_dir_under(&base)
}

/// Where lighting profiles are kept.
pub fn profiles_dir() -> (r: Vec<u8>)
    ensures
        exists|base: Option<Seq<u8>>| r@ == under(#[trigger] config_dir_in(base), "profiles"@),
{
    join_bytes(config_dir().as_slice(), "profiles")
}

/// Where macros are kept.
pub fn macros_dir() -> (r: Vec<u8>)
    ensures
        exists|base: Option<Seq<u8>>| r@ == under(#[trigger] config_dir_in(base), "macros"@),
{
    join_bytes(config_dir().as_slice(), "macros")
}

/// What `char::is_alphanumeric` says of a character.
pub uninterp spec fn alphanumeric(c: char) -> bool;

/// Whether a character is an ASCII letter or digit.
pub open spec fn ascii_alphanumeric(c: char) -> bool {
    let n = c as u32;
    ||| 0x30 <= n <= 0x39
    ||| 0x41 <= n <= 0x5a
    ||| 0x61 <= n <= 0x7a
}

/// `char::is_alphanumeric` goes by the Unicode properties of its argument and by nothing
/// else. Among the ASCII characters, those with such a property are the letters and digits.
pub assume_specification[ char::is_alphanumeric ](c: char) -> (r: bool)
    ensures
        r == alphanumeric(c),
        (c as u32) < 0x80 ==> r == ascii_alphanumeric(c),
;

/// Whether a character is kept in a file name.
pub open spec fn kept_in_name(c: char) -> bool {
    if (c as u32) < 0x80 {
        ascii_alphanumeric(c) || c == '-' || c == '_' || c == ' '
    } else {
        alphanumeric(c)
    }
}

/// The characters of a name that are kept in a file name, in order.
pub open spec fn sanitized(name: Seq<char>) -> Seq<char>
    decreases name.len(),
{
    if name.len() == 0 {
        seq![]
    } else if kept_in_name(name.last()) {
        sanitized(name.drop_last()).push(name.last())
    } else {
        sanitized(name.drop_last())
    }
}

/// A name reduced to the characters that are safe in a file name.
pub fn sanitize_filename(name: &str) -> (r: String)
    ensures
        r@ == sanitized(name@),
{
    let v = chars_of(name);
    let mut out = String::new();
    let mut i: usize = 0;
    assert(v@.take(0) == Seq::<char>::empty());
    while i < v.len()
        invariant
            i <= v@.len(),
            v@ == name@,
            out@ == sanitized(v@.take(i as int)),
        decreases v@.len() - i,
    {
        let c: char = v[i];
        assert(v@.take(i + 1).drop_last() == v@.take(i as int));
        assert(v@.take(i + 1).last() == c);
        if c.is_alphanumeric() || c == '-' || c == '_' || c == ' ' {
            out.push(c);
        }
        i = i + 1;
    }
    assert(v@.take(i as int) == v@);
    out
}

/// A sanitised name names a file in the directory it is joined to and no other: it holds
/// neither a separator nor a dot.
pub proof fn law_sanitized_name_stays_in_its_directory(name: Seq<char>)
    ensures
        forall|i: int|
            0 <= i < sanitized(name).len() ==> #[trigger] sanitized(name)[i] != '/'
                && sanitized(name)[i] != '.',
    decreases name.len(),
{
    if name.len() > 0 {
        let before = sanitized(name.drop_last());
        law_sanitized_name_stays_in_its_directory(name.drop_last());
        assert forall|i: int| 0 <= i < sanitized(name).len() implies #[trigger] sanitized(name)[i]
            != '/' && sanitized(name)[i] != '.' by {
            if i < before.len() {
                assert(sanitized(name)[i] == before[i]);
            }
        }
    }
}

/// Sanitising a name twice is sanitising it once.
pub proof fn law_sanitizing_is_idempotent(name: Seq<char>)
    ensures
        sanitized(sanitized(name)) == sanitized(name),
    decreases name.len(),
{
    if name.len() > 0 {
        law_sanitizing_is_idempotent(name.drop_last());
        if kept_in_name(name.last()) {
            let s = sanitized(name);
            assert(s.drop_last() == sanitized(name.drop_last()));
            assert(s.last() == name.last());
        }
    }
}

/// The file a named item is kept in.
pub open spec fn item_path(dir: Seq<u8>, name: Seq<char>) -> Seq<u8> {
    under(dir, sanitized(name) + JSON@)
}

/// The file, under `dir`, that the profile or macro of this name is kept in.
pub fn item_file(dir: &[u8], name: &str) -> (r: Vec<u8>)
    ensures
        r@ == item_path(dir@, name@),
{
    let file = cat2(sanitize_filename(name).as_str(), JSON);
    join_bytes(dir, file.as_str())
}

/// Whether a file name ends as the files kept here do.
pub open spec fn is_json(file: Seq<char>) -> bool {
    stands_at(file, JSON@, file.len() - JSON@.len())
}

/// A file name without its ending.
pub open spec fn without_ending(file: Seq<char>) -> Seq<char> {
    file.take(file.len() - JSON@.len())
}

/// A file name without any endings it has.
pub open spec fn without_endings(file: Seq<char>) -> Seq<char>
    decreases file.len(),
{
    if is_json(file) && JSON@.len() > 0 {
        without_endings(without_ending(file))
    } else {
        file
    }
}

fn strip_ending(file: &str) -> (r: Option<String>)
    ensures
        match r {
            Some(name) => is_json(file@) && name@ == without_ending(file@),
            None => !is_json(file@),
        },
{
    proof {
        reveal_strlit(".json");
    }
    if !ends_with(file, JSON) {
        return None;
    }
    let v = chars_of(file);
    let n: usize = v.len();
    assert(n == file@.len());
    Some(string_between(&v, 0, n - 5))
}

fn strip_endings(file: &str) -> (r: String)
    ensures
        r@ == without_endings(file@),
{
    proof {
        reveal_strlit(".json");
    }
    let mut rest = file.to_owned();
    loop
        invariant
            without_endings(rest@) == without_endings(file@),
            JSON@.len() == 5,
        ensures
            !is_json(rest@),
            without_endings(rest@) == without_endings(file@),
        decreases rest@.len(),
    {
        match strip_ending(rest.as_str()) {
            None => {
                break;
            },
            Some(shorter) => {
                rest = shorter;
            },
        }
    }
    rest
}

/// The names of the profiles among the entries of the profiles directory, in the order of
/// the entries.
pub open spec fn profile_names(entries: Seq<Seq<char>>) -> Seq<Seq<char>>
    decreases entries.len(),
{
    if entries.len() == 0 {
        seq![]
    } else {
        let before = profile_names(entries.drop_last());
        if is_json(entries.last()) {
            before.push(without_endings(entries.last()))
        } else {
            before
        }
    }
}

/// The names of the saved profiles, given the entries of their directory.
pub fn list_profiles(entries: &Vec<String>) -> (r: Vec<String>)
    ensures
        texts(r@) == profile_names(texts(entries@)),
{
    let mut out: Vec<String> = Vec::new();
    let mut i: usize = 0;
    assert(texts(entries@).take(0) =~= seq![]);
    assert(texts(out@) =~= seq![]);
    while i < entries.len()
        invariant
            i <= entries@.len(),
            texts(out@) == profile_names(texts(entries@).take(i as int)),
        decreases entries@.len() - i,
    {
        let ghost before = out@;
        let ghost all = texts(entries@);
        assert(all.take(i + 1).drop_last() =~= all.take(i as int));
        assert(all.take(i + 1).last() == entries@[i as int]@);
        if ends_with(entries[i].as_str(), JSON) {
            let name = strip_endings(entries[i].as_str());
            out.push(name);
            assert(texts(out@) =~= texts(before).push(name@));
        }
        i = i + 1;
    }
    assert(texts(entries@).take(i as int) =~= texts(entries@));
    out
}

/// The names of the macros among the entries of the macros directory, in the order of the
/// entries.
pub open spec fn macro_names(entries: Seq<Seq<char>>) -> Seq<Seq<char>>
    decreases entries.len(),
{
    if entries.len() == 0 {
        seq![]
    } else {
        let before = macro_names(entries.drop_last());
        if is_json(entries.last()) {
            before.push(without_ending(entries.last()))
        } else {
            before
        }
    }
}

/// The names of the saved macros in order, given the entries of their directory.
pub fn list_macros(entries: &Vec<String>) -> (r: Vec<String>)
    ensures
        in_order(texts(r@)),
        texts(r@).to_multiset() == macro_names(texts(entries@)).to_multiset(),
{
    let mut out: Vec<String> = Vec::new();
    let mut i: usize = 0;
    assert(texts(entries@).take(0) =~= seq![]);
    assert(texts(out@) =~= seq![]);
    while i < entries.len()
        invariant
            i <= entries@.len(),
            texts(out@) == macro_names(texts(entries@).take(i as int)),
        decreases entries@.len() - i,
    {
        let ghost before = out@;
        let ghost all = texts(entries@);
        assert(all.take(i + 1).drop_last() =~= all.take(i as int));
        assert(all.take(i + 1).last() == entries@[i as int]@);
        match strip_ending(entries[i].as_str()) {
            Some(name) => {
                out.push(name);
                assert(texts(out@) =~= texts(before).push(name@));
            },
            None => {},
        }
        i = i + 1;
    }
    assert(texts(entries@).take(i as int) =~= texts(entries@));
    sort_names(out)
}

/// A saved item is listed under its sanitised name.
pub proof fn law_saved_item_is_listed(name: Seq<char>)
    ensures
        macro_names(seq![sanitized(name) + JSON@]) == seq![sanitized(name)],
        profile_names(seq![sanitized(name) + JSON@]) == seq![sanitized(name)],
{
    reveal_strlit(".json");
    let file = sanitized(name) + JSON@;
    assert(is_json(file)) by {
        assert(file.subrange(file.len() - 5, file.len() as int) =~= JSON@);
    }
    assert(without_ending(file) =~= sanitized(name));
    assert(seq![file].drop_last() =~= seq![]);
    law_sanitized_name_stays_in_its_directory(name);
    let s = sanitized(name);
    assert(!is_json(s)) by {
        if is_json(s) {
            assert(s.subrange(s.len() - 5, s.len() as int)[0] == '.');
            assert(s[s.len() - 5] == '.');
        }
    }
    reveal_with_fuel(without_endings, 3);
    reveal_with_fuel(macro_names, 3);
    reveal_with_fuel(profile_names, 3);
    assert(macro_names(seq![file]) =~= seq![s]);
    assert(profile_names(seq![file]) =~= seq![s]);
}

/// Why a file could not be read, or removed.
#[derive(Debug)]
pub enum ReadFault {
    NotFound,
    Other(String),
}

/// What came of deleting a macro's file: one that was gone already is no error.
pub fn delete_macro(removed: Result<(), ReadFault>) -> (r: Result<(), String>)
    ensures
        outcome(r) == (match removed {
            Err(ReadFault::Other(error)) => Err("Erro ao apagar macro: "@ + error@),
            _ => Ok(()),
        }),
        // A macro that is gone is what was asked for.
        removed is Ok ==> r is Ok,
        removed is Err && removed->Err_0 is NotFound ==> r is Ok,
        removed is Err && removed->Err_0 is Other ==> r is Err,
{
    match removed {
        Err(ReadFault::Other(error)) => Err(cat2("Erro ao apagar macro: ", error.as_str())),
        _ => Ok(()),
    }
}

/// What reading the settings file found. Settings that cannot be read are still in the file,
/// so nothing may be written over them unasked; that is what tells them from a fresh install.
#[derive(Debug)]
pub enum AppConfigSource<C> {
    /// There is no file yet.
    Missing,
    Loaded(C),
    /// The file is there but could not be read or parsed.
    Unreadable(String),
}

/// What a read of the settings file means: `read` is the outcome of reading the file and,
/// where that worked, of parsing it.
pub fn read_app_config_at<C>(read: Result<Result<C, String>, ReadFault>) -> (r: AppConfigSource<C>)
    ensures
        match read {
            Ok(Ok(config)) => r == AppConfigSource::Loaded(config),
            Ok(Err(error)) => r matches AppConfigSource::Unreadable(e) && e@ == error@,
            Err(ReadFault::NotFound) => r is Missing,
            Err(ReadFault::Other(error)) => r matches AppConfigSource::Unreadable(e) && e@
                == error@,
        },
        // Only a file that is not there counts as a fresh start.
        r is Missing <==> read is Err && read->Err_0 is NotFound,
        r is Loaded <==> read is Ok && read->Ok_0 is Ok,
{
    match read {
        Ok(Ok(config)) => AppConfigSource::Loaded(config),
        Ok(Err(error)) => AppConfigSource::Unreadable(error),
        Err(ReadFault::NotFound) => AppConfigSource::Missing,
        Err(ReadFault::Other(error)) => AppConfigSource::Unreadable(error),
    }
}

/// What goes before the reason that settings could not be loaded.
pub const UNREADABLE_NOTE: &'static str =
    "config: config.json exists but could not be loaded, running on defaults without overwriting it: ";

/// The line to log about where the settings came from, if there is one: settings that cannot
/// be read are reported once.
pub fn load_app_config_source<C>(source: &AppConfigSource<C>, logged: &mut bool) -> (r: Option<
    String,
>)
    ensures
        match source {
            AppConfigSource::Unreadable(error) => {
                &&& *final(logged)
                &&& text_of(r) == (if *old(logged) {
                    None
                } else {
                    Some(UNREADABLE_NOTE@ + error@)
                })
            },
            _ => *final(logged) == *old(logged) && r is None,
        },
        r is Some <==> source is Unreadable && !*old(logged),
{
    match source {
        AppConfigSource::Unreadable(error) => {
            if *logged {
                None
            } else {
                *logged = true;
                Some(cat2(UNREADABLE_NOTE, error.as_str()))
            }
        },
        _ => None,
    }
}

/// The settings to run on: those that were loaded, or the defaults.
pub fn load_app_config<C>(source: AppConfigSource<C>, defaults: C) -> (r: C)
    ensures
        r == (match source {
            AppConfigSource::Loaded(config) => config,
            _ => defaults,
        }),
        source is Loaded ==> r == source->Loaded_0,
        !(source is Loaded) ==> r == defaults,
{
    match source {
        AppConfigSource::Loaded(config) => config,
        _ => defaults,
    }
}

/// The settings to export. Without a file the defaults are what is in force; but settings
/// that cannot be read are not replaced by defaults under the user's own file name.
pub fn export_app_config_to<C>(source: AppConfigSource<C>, defaults: C) -> (r: Result<C, String>)
    ensures
        match source {
            AppConfigSource::Loaded(config) => r == Ok::<C, String>(config),
            AppConfigSource::Missing => r == Ok::<C, String>(defaults),
            AppConfigSource::Unreadable(error) => outcome(r) == Err::<C, _>(error@),
        },
        r is Err <==> source is Unreadable,
        source is Loaded ==> r->Ok_0 == source->Loaded_0,
{
    match source {
        AppConfigSource::Loaded(config) => Ok(config),
        AppConfigSource::Missing => Ok(defaults),
        AppConfigSource::Unreadable(error) => Err(error),
    }
}

/// The settings a file to import holds. Only a file that the application would itself load is
/// accepted.
pub fn import_app_config_from<C>(source: AppConfigSource<C>) -> (r: Result<C, String>)
    ensures
        match source {
            AppConfigSource::Loaded(config) => r == Ok::<C, String>(config),
            AppConfigSource::Missing => outcome(r) == Err::<C, _>("no such file"@),
            AppConfigSource::Unreadable(error) => outcome(r) == Err::<C, _>(error@),
        },
        r is Ok <==> source is Loaded,
        r is Ok ==> r->Ok_0 == source->Loaded_0,
{
    match source {
        AppConfigSource::Loaded(config) => Ok(config),
        AppConfigSource::Missing => Err("no such file".to_owned()),
        AppConfigSource::Unreadable(error) => Err(error),
    }
}

/// A local time, to the minute.
#[derive(Debug, Clone, Copy, PartialEq, Eq, Structural)]
pub struct Moment {
    pub year: u32,
    pub month: u32,
    pub day: u32,
    pub hour: u32,
    pub minute: u32,
}

/// Zeros in front of a text, up to a width.
pub open spec fn padded(text: Seq<char>, width: int) -> Seq<char>
    decreases width - text.len(),
{
    if text.len() >= width {
        text
    } else {
        padded(seq!['0'] + text, width)
    }
}

fn pad(n: u32, width: usize) -> (r: String)
    ensures
        r@ == padded(decimal_text(n as nat), width as int),
{
    let mut out = decimal(n as u64);
    let ghost wanted = padded(out@, width as int);
    let mut len: usize = chars_of(out.as_str()).len();
    while len < width
        invariant
            len == out@.len(),
            padded(out@, width as int) == wanted,
        decreases width - len,
    {
        proof {
            reveal_strlit("0");
            assert("0"@ =~= seq!['0']);
        }
        out = cat2("0", out.as_str());
        len = len + 1;
    }
    out
}

/// A time as part of a file name: `2026-09-18-1611`.
pub open spec fn stamp(at: Moment) -> Seq<char> {
    padded(decimal_text(at.year as nat), 4) + "-"@ + padded(decimal_text(at.month as nat), 2) + "-"@
        + padded(decimal_text(at.day as nat), 2) + "-"@ + padded(decimal_text(at.hour as nat), 2)
        + padded(decimal_text(at.minute as nat), 2)
}

/// A time as part of a file name: `2026-09-18-1611`.
pub fn file_timestamp(at: Moment) -> (r: String)
    ensures
        r@ == stamp(at),
{
    let mut out = pad(at.year, 4);
    out.append("-");
    out.append(pad(at.month, 2).as_str());
    out.append("-");
    out.append(pad(at.day, 2).as_str());
    out.append("-");
    out.append(pad(at.hour, 2).as_str());
    out.append(pad(at.minute, 2).as_str());
    out
}

/// The name an exported settings file is offered under.
pub fn suggested_export_filename(at: Moment) -> (r: String)
    ensures
        r@ == "predator-sense-settings-"@ + stamp(at) + JSON@,
{
    cat3("predator-sense-settings-", file_timestamp(at).as_str(), JSON)
}

/// Where a settings file is copied to before something replaces it; `None` where there is
/// no such file, and so nothing to lose.
pub fn backup_config_file(present: bool, dir: &[u8], at: Moment) -> (r: Option<Vec<u8>>)
    ensures
        path_of(r) == (if present {
            Some(under(dir@, "config-backup-"@ + stamp(at) + JSON@))
        } else {
            None
        }),
        r is Some <==> present,
{
    if !present {
        return None;
    }
    let name = cat3("config-backup-", file_timestamp(at).as_str(), JSON);
    Some(join_bytes(dir, name.as_str()))
}

/// The settings file, and where it is copied to before something replaces it.
pub fn backup_app_config(present: bool, at: Moment) -> (r: (Vec<u8>, Option<Vec<u8>>))
    ensures
        exists|base: Option<Seq<u8>>|
            {
                let dir = #[trigger] config_dir_in(base);
                &&& r.0@ == under(dir, CONFIG_FILE@)
                &&& path_of(r.1) == (if present {
                    Some(under(dir, "config-backup-"@ + stamp(at) + JSON@))
                } else {
                    None
                })
            },
{
    let dir = config_dir();
    (join_bytes(dir.as_slice(), CONFIG_FILE), backup_config_file(present, dir.as_slice(), at))
}

/// What to do to the session's autostart entries.
#[derive(Debug)]
pub struct Autostart {
    pub dir: String,
    pub entry: String,
    /// What to write to `entry`; `None` removes it.
    pub contents: Option<String>,
    /// An entry that would start a second key listener; it is always removed.
    pub obsolete: String,
}

/// The autostart entry of the application.
pub const AUTOSTART_ENTRY: &'static str =
    "[Desktop Entry]\nType=Application\nName=Predator Sense\nExec=/opt/predator-sense/predator-sense --background\nHidden=false\nNoDisplay=true\nX-GNOME-Autostart-enabled=true\nComment=Predator Sense for Linux\n";

/// The session's autostart directory.
pub open spec fn autostart_dir(home: Option<Seq<char>>) -> Seq<char> {
    match home {
        Some(home) => joined_path(home, ".config/autostart"@),
        None => joined_path("/home/user"@, ".config/autostart"@),
    }
}

/// What turning autostart on or off does.
pub fn set_autostart(enabled: bool, home: &Option<String>) -> (r: Autostart)
    ensures
        r.dir@ == autostart_dir(text_of(*home)),
        r.entry@ == joined_path(r.dir@, "predator-sense.desktop"@),
        r.obsolete@ == joined_path(r.dir@, "predator-sense-hotkey.desktop"@),
        text_of(r.contents) == (if enabled {
            Some(AUTOSTART_ENTRY@)
        } else {
            None
        }),
        r.contents is Some <==> enabled,
{
    let dir = match home {
        Some(home) => join_path(home.as_str(), ".config/autostart"),
        None => join_path("/home/user", ".config/autostart"),
    };
    let entry = join_path(dir.as_str(), "predator-sense.desktop");
    let obsolete = join_path(dir.as_str(), "predator-sense-hotkey.desktop");
    let contents = if enabled {
        Some(AUTOSTART_ENTRY.to_owned())
    } else {
        None
    };
    Autostart { dir, entry, contents, obsolete }
}

/// The application keeps its files in a directory of its own, under the user's configuration
/// directory where there is one.
pub proof fn law_files_lie_in_the_applications_directory(base: Seq<char>)
    requires
        base.len() > 0 && base.last() != '/',
    ensures
        config_dir_in(Some(encode_utf8(base))) == encode_utf8(base + "/predator-sense"@),
        config_dir_in(None) == encode_utf8(".config/predator-sense"@),
        CONFIG_FILE@ == "config.json"@,
        JSON@ == ".json"@,
{
    crate::paths::law_text_paths_join_alike(base, "predator-sense"@);
    crate::paths::law_text_paths_join_alike(".config"@, "predator-sense"@);
    reveal_strlit("/");
    reveal_strlit(".config");
    reveal_strlit("predator-sense");
    reveal_strlit("/predator-sense");
    reveal_strlit(".config/predator-sense");
    assert(base + "/"@ + "predator-sense"@ =~= base + "/predator-sense"@);
    assert(".config"@ + "/"@ + "predator-sense"@ =~= ".config/predator-sense"@);
}

/// Letters, digits, hyphens, underscores and blanks of a name are kept, in their order, and
/// no other ASCII character is.
pub proof fn law_names_keep_their_letters(name: Seq<char>, c: char)
    requires
        (c as u32) < 0x80,
    ensures
        'a' <= c <= 'z' || 'A' <= c <= 'Z' || '0' <= c <= '9' || c == '-' || c == '_' || c == ' '
            ==> sanitized(name.push(c)) == sanitized(name).push(c),
        !('a' <= c <= 'z' || 'A' <= c <= 'Z' || '0' <= c <= '9' || c == '-' || c == '_' || c
            == ' ') ==> sanitized(name.push(c)) == sanitized(name),
{
    assert(name.push(c).drop_last() =~= name);
}

/// A file is listed where it ends in `.json`, without that ending, behind those before it;
/// any other file is passed over.
pub proof fn law_files_are_listed_by_their_ending(
    entries: Seq<Seq<char>>,
    stem: Seq<char>,
    other: Seq<char>,
)
    requires
        !stands_at(stem, ".json"@, stem.len() - 5),
        !stands_at(other, ".json"@, other.len() - 5),
    ensures
        macro_names(entries.push(stem + ".json"@)) == macro_names(entries).push(stem),
        profile_names(entries.push(stem + ".json"@)) == profile_names(entries).push(stem),
        macro_names(entries.push(other)) == macro_names(entries),
        profile_names(entries.push(other)) == profile_names(entries),
{
    reveal_strlit(".json");
    let file = stem + ".json"@;
    assert(JSON@ == ".json"@);
    assert(file.subrange(file.len() - 5, file.len() as int) =~= ".json"@);
    assert(is_json(file));
    assert(without_ending(file) =~= stem);
    assert(!is_json(stem) && !is_json(other));
    assert(without_endings(stem) == stem);
    assert(without_endings(file) == stem);
    assert(entries.push(file).drop_last() =~= entries);
    assert(entries.push(other).drop_last() =~= entries);
}

/// Zeros in front of a number bring it to its width and do not change it.
pub proof fn law_padding_keeps_the_number(n: nat, max: nat, width: int)
    requires
        n <= max,
        0 <= width,
    ensures
        padded(decimal_text(n), width).len() == (if decimal_text(n).len() >= width {
            decimal_text(n).len() as int
        } else {
            width
        }),
        crate::number::decimal_value(padded(decimal_text(n), width), max) == Some(n),
{
    crate::number::lemma_decimal_text(n);
    lemma_padding(decimal_text(n), width);
    assert(crate::number::digit_value(padded(decimal_text(n), width)[0], 10) is Some);
}

proof fn lemma_zero_in_front(s: Seq<char>)
    requires
        s.len() > 0,
    ensures
        crate::number::digits_value(seq!['0'] + s, 10) == crate::number::digits_value(s, 10),
    decreases s.len(),
{
    let t = seq!['0'] + s;
    assert(t.last() == s.last());
    assert(t.drop_last() =~= seq!['0'] + s.drop_last());
    if s.len() == 1 {
        assert(s.drop_last() =~= Seq::<char>::empty());
        assert(t.drop_last() =~= seq!['0']);
        assert(seq!['0'].drop_last() =~= Seq::<char>::empty());
        assert(crate::number::digits_value(Seq::<char>::empty(), 10) == 0);
        assert(crate::number::digits_value(seq!['0'], 10) == 0);
    } else {
        lemma_zero_in_front(s.drop_last());
    }
}

proof fn lemma_padding(text: Seq<char>, width: int)
    requires
        crate::number::all_digits(text, 10),
        0 <= width,
    ensures
        crate::number::all_digits(padded(text, width), 10),
        crate::number::digits_value(padded(text, width), 10) == crate::number::digits_value(
            text,
            10,
        ),
        padded(text, width).len() == (if text.len() >= width {
            text.len() as int
        } else {
            width
        }),
    decreases width - text.len(),
{
    if text.len() < width {
        let longer = seq!['0'] + text;
        assert forall|i: int| 0 <= i < longer.len() implies (
        #[trigger] crate::number::digit_value(longer[i], 10)) is Some by {
            if i > 0 {
                assert(longer[i] == text[i - 1]);
            }
        }
        lemma_zero_in_front(text);
        lemma_padding(longer, width);
    }
}

/// A time stands in a file name as year, month and day with hyphens between and behind them,
/// and then hour and minute, each in its own width.
pub proof fn law_stamp_holds_the_time(at: Moment)
    requires
        at.year < 10_000,
        at.month < 100 && at.day < 100 && at.hour < 100 && at.minute < 100,
    ensures
        stamp(at).len() == 15,
        crate::number::decimal_value(stamp(at).subrange(0, 4), 9999) == Some(at.year as nat),
        crate::number::decimal_value(stamp(at).subrange(5, 7), 99) == Some(at.month as nat),
        crate::number::decimal_value(stamp(at).subrange(8, 10), 99) == Some(at.day as nat),
        crate::number::decimal_value(stamp(at).subrange(11, 13), 99) == Some(at.hour as nat),
        crate::number::decimal_value(stamp(at).subrange(13, 15), 99) == Some(at.minute as nat),
        stamp(at)[4] == '-' && stamp(at)[7] == '-' && stamp(at)[10] == '-',
{
    reveal_strlit("-");
    lemma_short_text(at.year as nat);
    lemma_short_text(at.month as nat);
    lemma_short_text(at.day as nat);
    lemma_short_text(at.hour as nat);
    lemma_short_text(at.minute as nat);
    law_padding_keeps_the_number(at.year as nat, 9999, 4);
    law_padding_keeps_the_number(at.month as nat, 99, 2);
    law_padding_keeps_the_number(at.day as nat, 99, 2);
    law_padding_keeps_the_number(at.hour as nat, 99, 2);
    law_padding_keeps_the_number(at.minute as nat, 99, 2);
    let year = padded(decimal_text(at.year as nat), 4);
    let month = padded(decimal_text(at.month as nat), 2);
    let day = padded(decimal_text(at.day as nat), 2);
    let hour = padded(decimal_text(at.hour as nat), 2);
    let minute = padded(decimal_text(at.minute as nat), 2);
    assert(stamp(at).subrange(0, 4) =~= year);
    assert(stamp(at).subrange(5, 7) =~= month);
    assert(stamp(at).subrange(8, 10) =~= day);
    assert(stamp(at).subrange(11, 13) =~= hour);
    assert(stamp(at).subrange(13, 15) =~= minute);
}

proof fn lemma_short_text(n: nat)
    ensures
        n < 100 ==> decimal_text(n).len() <= 2,
        n < 10_000 ==> decimal_text(n).len() <= 4,
{
    reveal_with_fuel(decimal_text, 5);
}

/// The session starts what stands in its autostart directory, under the user's home.
pub proof fn law_autostart_lies_in_the_home(home: Seq<char>)
    requires
        home.len() > 0 && home.last() != '/',
    ensures
        autostart_dir(Some(home)) == home + "/.config/autostart"@,
        autostart_dir(None) == "/home/user/.config/autostart"@,
{
    reveal_strlit("/");
    reveal_strlit(".config/autostart");
    reveal_strlit("/.config/autostart");
    reveal_strlit("/home/user");
    reveal_strlit("/home/user/.config/autostart");
    assert(home + "/"@ + ".config/autostart"@ =~= home + "/.config/autostart"@);
    assert("/home/user"@ + "/"@ + ".config/autostart"@ =~= "/home/user/.config/autostart"@);
}

} // verus!
