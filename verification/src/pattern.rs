use vstd::prelude::*;
use crate::text::chars_of;

verus! {

/// Whether `s` holds a glob wildcard: '*', '?' or '['.
pub open spec fn has_glob_chars_spec(s: Seq<char>) -> bool {
    s.contains('*') || s.contains('?') || s.contains('[')
}

/// Whether the command-line path holds a glob wildcard ('*', '?' or '[').
pub fn has_glob_chars(s: &str) -> (r: bool)
    ensures
        r == has_glob_chars_spec(s@),
{
    let v = chars_of(s);
    let mut i: usize = 0;
    while i < v.len()
        invariant
            v@ == s@,
            0 <= i <= v@.len(),
            forall|j: int| 0 <= j < i ==> v@[j] != '*' && v@[j] != '?' && v@[j] != '[',
        decreases v@.len() - i,
    {
        if v[i] == '*' || v[i] == '?' || v[i] == '[' {
            assert(s@[i as int] == v@[i as int]);
            return true;
        }
        i = i + 1;
    }
    false
}

/// Whether `glob::Pattern::new` accepts `pattern`.
pub uninterp spec fn glob_valid(pattern: Seq<char>) -> bool;

/// Whether the glob pattern compiled from `pattern` matches `name`.
pub uninterp spec fn glob_match(pattern: Seq<char>, name: Seq<char>) -> bool;

/// Calls `glob::Pattern::new`; the contract claims that it succeeds exactly when
/// `glob_valid` holds of the text, a function of the text alone.
#[verifier::external_body]
fn glob_compiles(pattern: &str) -> (ok: bool)
    ensures
        ok == glob_valid(pattern@),
{
    glob::Pattern::new(pattern).is_ok()
}

/// Calls `glob::Pattern::matches` on the pattern compiled from `pattern`; the
/// contract claims that the answer is `glob_match` of the two texts (compiling
/// and matching read nothing else).
#[verifier::external_body]
fn glob_matches(pattern: &str, name: &str) -> (m: bool)
    requires
        glob_valid(pattern@),
    ensures
        m == glob_match(pattern@, name@),
{
    glob::Pattern::new(pattern).map_or(false, |p| p.matches(name))
}

/// A glob pattern that names in a directory are filtered by.
pub struct NamePattern {
    source: String,
}

impl NamePattern {
    /// The text the pattern was written as.
    pub closed spec fn source(&self) -> Seq<char> {
        self.source@
    }

    #[verifier::type_invariant]
    closed spec fn inv(self) -> bool {
        glob_valid(self.source@)
    }

    /// Compiles `text`; `None` where it is not a valid glob pattern.
    pub fn new(text: &str) -> (r: Option<NamePattern>)
        ensures
            r is Some <==> glob_valid(text@),
            r matches Some(p) ==> p.source() == text@,
    {
        if glob_compiles(text) {
            Some(NamePattern { source: String::from_str(text) })
        } else {
            None
        }
    }

    /// Whether `name` matches the pattern.
    pub fn matches(&self, name: &str) -> (m: bool)
        ensures
            m == glob_match(self.source(), name@),
    {
        proof {
            use_type_invariant(self);
        }
        glob_matches(self.source.as_str(), name)
    }

    /// The pattern's text.
    pub fn as_str(&self) -> (s: &str)
        ensures
            s@ == self.source(),
    {
        self.source.as_str()
    }
}

/// The parent of `path` by `std::path::Path::parent`, as text.
pub uninterp spec fn path_parent(path: Seq<char>) -> Option<Seq<char>>;

/// The final component of `path` by `std::path::Path::file_name`, as text.
pub uninterp spec fn path_file_name(path: Seq<char>) -> Option<Seq<char>>;

/// Calls `std::path::Path::parent` on `path`. The parent of a path given as text
/// is a prefix of that text, so the lossy conversion back replaces nothing.
/// The contract claims that the result is the name `path_parent` of the text.
#[verifier::external_body]
fn parent_of(path: &str) -> (r: Option<String>)
    ensures
        r matches Some(p) ==> path_parent(path@) == Some(p@),
        r is None ==> path_parent(path@) is None,
{
    std::path::Path::new(path).parent().map(|p| p.to_string_lossy().into_owned())
}

/// Calls `std::path::Path::file_name` on `path`, kept where it is text. The
/// contract claims that the result is the name `path_file_name` of the text.
#[verifier::external_body]
fn file_name_of(path: &str) -> (r: Option<String>)
    ensures
        r matches Some(n) ==> path_file_name(path@) == Some(n@),
        r is None ==> path_file_name(path@) is None,
{
    std::path::Path::new(path).file_name().and_then(|n| n.to_str()).map(String::from)
}

/// `Some(text)` where `text` is a valid glob pattern, else `None`.
pub open spec fn compiled(text: Seq<char>) -> Option<Seq<char>> {
    if glob_valid(text) {
        Some(text)
    } else {
        None
    }
}

/// The directory to list and the pattern to filter it by, for a command-line path
/// that does not exist as given. A path with a wildcard is split into its parent
/// directory ("." where it has none) and the pattern of its last component; a path
/// whose parent is empty or absent is a pattern of the current directory as a
/// whole. A path without a wildcard is a directory with no pattern.
pub open spec fn directory_and_pattern_spec(input: Seq<char>) -> (Seq<char>, Option<Seq<char>>) {
    if has_glob_chars_spec(input) {
        match path_parent(input) {
            Some(parent) => if parent.len() == 0 {
                (seq!['.'], compiled(input))
            } else {
                (
                    parent,
                    match path_file_name(input) {
                        Some(name) => compiled(name),
                        None => None,
                    },
                )
            },
            None => (seq!['.'], compiled(input)),
        }
    } else {
        (input, None)
    }
}

pub open spec fn pattern_source(p: Option<NamePattern>) -> Option<Seq<char>> {
    match p {
        Some(p) => Some(p.source()),
        None => None,
    }
}

fn current_dir_text() -> (r: String)
    ensures
        r@ == seq!['.'],
{
    let r = String::from_str(".");
    proof {
        reveal_strlit(".");
    }
    r
}

/// Splits a command-line path into the directory to list and an optional glob
/// pattern for the names in it (see [`directory_and_pattern_spec`]).
pub fn parse_directory_and_pattern(input: &str) -> (r: (String, Option<NamePattern>))
    ensures
        r.0@ == directory_and_pattern_spec(input@).0,
        pattern_source(r.1) == directory_and_pattern_spec(input@).1,
{
    if has_glob_chars(input) {
        match parent_of(input) {
            Some(parent) => {
                if parent.as_str().unicode_len() == 0 {
                    (current_dir_text(), NamePattern::new(input))
                } else {
                    let pattern = match file_name_of(input) {
                        Some(name) => NamePattern::new(name.as_str()),
                        None => None,
                    };
                    (parent, pattern)
                }
            },
            None => (current_dir_text(), NamePattern::new(input)),
        }
    } else {
        (String::from_str(input), None)
    }
}

/// Whether `s` names a hidden file: it starts with '.'.
pub open spec fn is_hidden(name: Seq<char>) -> bool {
    name.len() > 0 && name[0] == '.'
}

/// Whether a directory entry named `name` is listed: hidden names only when
/// `show_all`, and, where there is a pattern, only names that it matches.
pub open spec fn entry_is_listed_spec(name: Seq<char>, show_all: bool, pattern: Option<Seq<char>>) -> bool {
    &&& show_all || !is_hidden(name)
    &&& match pattern {
        Some(p) => glob_match(p, name),
        None => true,
    }
}

/// See [`entry_is_listed_spec`].
pub fn entry_is_listed(name: &str, show_all: bool, pattern: Option<&NamePattern>) -> (r: bool)
    ensures
        r == entry_is_listed_spec(
            name@,
            show_all,
            match pattern {
                Some(p) => Some(p.source()),
                None => None,
            },
        ),
{
    if !show_all {
        let n = name.unicode_len();
        if n > 0 && name.get_char(0) == '.' {
            return false;
        }
    }
    match pattern {
        Some(p) => p.matches(name),
        None => true,
    }
}

/// With a pattern, a name that may be shown (any name with `show_all`, else a
/// name not starting with '.') is listed exactly when the pattern matches the
/// name itself, as written in the directory.
pub proof fn law_pattern_decides_on_the_name_as_written(name: Seq<char>, pattern: Seq<char>, show_all: bool)
    requires
        show_all || name.len() == 0 || name[0] != '.',
    ensures
        entry_is_listed_spec(name, show_all, Some(pattern)) == glob_match(pattern, name),
{
}

/// Without a pattern, every name is listed with `show_all`, and otherwise exactly
/// the names that do not start with '.'.
pub proof fn law_only_dot_names_are_hidden(name: Seq<char>, show_all: bool)
    ensures
        entry_is_listed_spec(name, show_all, None) == (show_all || name.len() == 0 || name[0] != '.'),
{
}

/// A name starting with '.' is never listed without `show_all`, whatever the
/// pattern.
pub proof fn law_dot_names_need_all(name: Seq<char>, pattern: Option<Seq<char>>)
    requires
        name.len() > 0,
        name[0] == '.',
    ensures
        !entry_is_listed_spec(name, false, pattern),
{
}

} // verus!
