use vstd::prelude::*;
use crate::toml_doc::{self, TomlDocument, TomlScalar, ScalarView, DocumentView};

verus! {

/// The ANSI color codes used for each column of a listing.
#[derive(Clone)]
pub struct Colors {
    pub size: String,
    pub date: String,
    pub time: String,
    pub file: String,
    pub dir: String,
    pub executable: String,
}

impl Colors {
    /// The built-in colors (suited to a dark terminal theme).
    pub open spec fn is_default(&self) -> bool {
        &&& self.size@ == "32"@
        &&& self.date@ == "34"@
        &&& self.time@ == "34"@
        &&& self.file@ == "38;5;250"@
        &&& self.dir@ == "33"@
        &&& self.executable@ == "32"@
    }
}

impl Default for Colors {
    fn default() -> (r: Self)
        ensures
            r.is_default(),
    {
        Colors {
            size: String::from_str("32"),
            date: String::from_str("34"),
            time: String::from_str("34"),
            file: String::from_str("38;5;250"),
            dir: String::from_str("33"),
            executable: String::from_str("32"),
        }
    }
}

/// What the listing shows.
#[derive(Clone)]
pub struct Settings {
    pub all: bool,
    pub permissions: bool,
    pub showdir: bool,
}

impl Default for Settings {
    fn default() -> (r: Self)
        ensures
            !r.all,
            !r.permissions,
            !r.showdir,
    {
        Settings { all: false, permissions: false, showdir: false }
    }
}

/// The whole configuration: colors and settings.
#[derive(Clone)]
pub struct Config {
    pub colors: Colors,
    pub settings: Settings,
}

impl Default for Config {
    fn default() -> (r: Self)
        ensures
            r.colors.is_default(),
            !r.settings.all,
            !r.settings.permissions,
            !r.settings.showdir,
    {
        Config { colors: Colors::default(), settings: Settings::default() }
    }
}

/// A string setting `key` of table `table`: its text where the document holds a
/// string there, else `default`.
pub open spec fn text_setting(doc: DocumentView, table: Seq<char>, key: Seq<char>, default: Seq<char>) -> Seq<char> {
    match toml_doc::lookup(doc, table) {
        Some(Some(t)) => match toml_doc::lookup(t, key) {
            Some(ScalarView::Text(s)) => s,
            _ => default,
        },
        _ => default,
    }
}

/// A boolean setting `key` of table `table`: its value where the document holds a
/// boolean there, else `default`.
pub open spec fn flag_setting(doc: DocumentView, table: Seq<char>, key: Seq<char>, default: bool) -> bool {
    match toml_doc::lookup(doc, table) {
        Some(Some(t)) => match toml_doc::lookup(t, key) {
            Some(ScalarView::Flag(b)) => b,
            _ => default,
        },
        _ => default,
    }
}

impl Config {
    /// The configuration used when no configuration file is read: default colors,
    /// hidden files and permissions not shown, directories shown.
    pub open spec fn is_initial(&self) -> bool {
        &&& self.colors.is_default()
        &&& !self.settings.all
        &&& !self.settings.permissions
        &&& self.settings.showdir
    }

    /// Every setting as the document `doc` gives it, with the initial value
    /// where the document gives none of the right type.
    pub open spec fn follows_document(&self, doc: DocumentView) -> bool {
        &&& self.colors.size@ == text_setting(doc, "colors"@, "size"@, "32"@)
        &&& self.colors.date@ == text_setting(doc, "colors"@, "date"@, "34"@)
        &&& self.colors.time@ == text_setting(doc, "colors"@, "time"@, "34"@)
        &&& self.colors.file@ == text_setting(doc, "colors"@, "file"@, "38;5;250"@)
        &&& self.colors.dir@ == text_setting(doc, "colors"@, "dir"@, "33"@)
        &&& self.colors.executable@ == text_setting(doc, "colors"@, "exec"@, "32"@)
        &&& self.settings.all == flag_setting(doc, "settings"@, "all"@, false)
        &&& self.settings.permissions == flag_setting(doc, "settings"@, "permissions"@, false)
        &&& self.settings.showdir == flag_setting(doc, "settings"@, "showdir"@, true)
    }
}

/// The configuration before any file is read.
pub fn initial_config() -> (r: Config)
    ensures
        r.is_initial(),
{
    Config { colors: Colors::default(), settings: Settings { all: false, permissions: false, showdir: true } }
}

fn text_value(doc: &TomlDocument, table: &str, key: &str, default: &str) -> (r: String)
    ensures
        r@ == text_setting(doc@, table@, key@, default@),
{
    if let Some(t) = doc.table(table) {
        if let Some(v) = t.get(key) {
            if let TomlScalar::Text(s) = v {
                return s.clone();
            }
        }
    }
    String::from_str(default)
}

fn flag_value(doc: &TomlDocument, table: &str, key: &str, default: bool) -> (r: bool)
    ensures
        r == flag_setting(doc@, table@, key@, default),
{
    if let Some(t) = doc.table(table) {
        if let Some(v) = t.get(key) {
            if let TomlScalar::Flag(b) = v {
                return *b;
            }
        }
    }
    default
}

/// The configuration given by a configuration file: `content` is the file's text,
/// or `None` where there is no file. Text that is not a TOML document gives the
/// initial configuration; otherwise each setting of `[colors]` and `[settings]`
/// that the document holds with the right type replaces the initial value.
pub fn load_config(content: Option<&str>) -> (r: Config)
    ensures
        match content {
            None => r.is_initial(),
            Some(text) => match toml_doc::toml_document(text@) {
                None => r.is_initial(),
                Some(doc) => r.follows_document(doc),
            },
        },
{
    let text = match content {
        None => return initial_config(),
        Some(text) => text,
    };
    match toml_doc::parse_toml(text) {
        None => initial_config(),
        Some(doc) => config_from_document(&doc),
    }
}

/// The configuration that a parsed configuration file gives: each setting of
/// `[colors]` and `[settings]` that the document holds with the right type, the
/// initial value for the others.
pub fn config_from_document(doc: &TomlDocument) -> (r: Config)
    ensures
        r.follows_document(doc@),
{
    Config {
        colors: Colors {
            size: text_value(doc, "colors", "size", "32"),
            date: text_value(doc, "colors", "date", "34"),
            time: text_value(doc, "colors", "time", "34"),
            file: text_value(doc, "colors", "file", "38;5;250"),
            dir: text_value(doc, "colors", "dir", "33"),
            executable: text_value(doc, "colors", "exec", "32"),
        },
        settings: Settings {
            all: flag_value(doc, "settings", "all", false),
            permissions: flag_value(doc, "settings", "permissions", false),
            showdir: flag_value(doc, "settings", "showdir", true),
        },
    }
}

/// The configuration file written when none exists yet.
pub fn default_config_text() -> (r: String)
    ensures
        r@ == "[settings]\nall = false\npermissions = false\nshowdir = true\n\n[colors]\nsize = \"32\"\ndate = \"34\"\ntime = \"34\"\nfile = \"38;5;250\"\ndir = \"33\"\nexec = \"32\"\n"@,
{
    String::from_str(
        "[settings]\nall = false\npermissions = false\nshowdir = true\n\n[colors]\nsize = \"32\"\ndate = \"34\"\ntime = \"34\"\nfile = \"38;5;250\"\ndir = \"33\"\nexec = \"32\"\n",
    )
}

/// A setting that the document does not hold keeps its default: where the table is
/// missing, is not a table, or has no entry with the key.
pub proof fn law_missing_settings_keep_their_defaults(
    doc: DocumentView,
    table: Seq<char>,
    key: Seq<char>,
    default_flag: bool,
    default_text: Seq<char>,
)
    requires
        match toml_doc::lookup(doc, table) {
            Some(Some(t)) => forall|i: int| 0 <= i < t.len() ==> (#[trigger] t[i]).0 != key,
            _ => true,
        },
    ensures
        flag_setting(doc, table, key, default_flag) == default_flag,
        text_setting(doc, table, key, default_text) == default_text,
{
}

/// A setting that the document holds with the right type is taken as it is; one of
/// another type falls back to the default.
pub proof fn law_present_settings_are_taken(
    doc: DocumentView,
    table: Seq<char>,
    key: Seq<char>,
    t: toml_doc::TableView,
    i: int,
    default_flag: bool,
    default_text: Seq<char>,
)
    requires
        toml_doc::lookup(doc, table) == Some(Some(t)),
        0 <= i < t.len(),
        t[i].0 == key,
        toml_doc::keys_distinct(t),
    ensures
        t[i].1 matches ScalarView::Flag(b) ==> flag_setting(doc, table, key, default_flag) == b,
        t[i].1 matches ScalarView::Text(s) ==> text_setting(doc, table, key, default_text) == s,
        !(t[i].1 is Flag) ==> flag_setting(doc, table, key, default_flag) == default_flag,
        !(t[i].1 is Text) ==> text_setting(doc, table, key, default_text) == default_text,
{
    toml_doc::lemma_lookup_first(t, key, i);
}

/// A configuration file whose `[settings]` table has no `showdir` entry lists
/// directories; one without `all` or `permissions` shows neither hidden files nor
/// permissions.
pub proof fn law_unset_settings_keep_initial_values(config: Config, doc: DocumentView, t: toml_doc::TableView)
    requires
        config.follows_document(doc),
        toml_doc::lookup(doc, "settings"@) == Some(Some(t)),
    ensures
        (forall|i: int| 0 <= i < t.len() ==> (#[trigger] t[i]).0 != "showdir"@) ==> config.settings.showdir,
        (forall|i: int| 0 <= i < t.len() ==> (#[trigger] t[i]).0 != "all"@) ==> !config.settings.all,
        (forall|i: int| 0 <= i < t.len() ==> (#[trigger] t[i]).0 != "permissions"@) ==> !config.settings.permissions,
{
}

} // verus!
