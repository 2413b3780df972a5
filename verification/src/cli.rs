use vstd::prelude::*;
use crate::config::Settings;
use crate::pattern;

verus! {

/// The command line: a path (default "."), and the flags --all, --permissions,
/// --version, --showdir and --no-showdir.
pub struct Args {
    pub path: String,
    pub all: bool,
    pub permissions: bool,
    pub version: bool,
    pub showdir: bool,
    pub no_showdir: bool,
}

/// Whether directories are listed: --no-showdir hides them, else --showdir shows
/// them, else the configuration decides.
pub fn resolve_show_dirs(args: &Args, settings: &Settings) -> (r: bool)
    ensures
        r == (if args.no_showdir {
            false
        } else if args.showdir {
            true
        } else {
            settings.showdir
        }),
{
    if args.no_showdir {
        false
    } else if args.showdir {
        true
    } else {
        settings.showdir
    }
}

/// What a listing shows, once the command line and the configuration are combined.
pub struct ListOptions {
    pub show_all: bool,
    pub show_permissions: bool,
    pub show_dirs: bool,
}

/// Combines the command line with the configuration: a flag turns hidden files or
/// permissions on whatever the configuration says, and directories follow
/// [`resolve_show_dirs`].
pub fn resolve_options(args: &Args, settings: &Settings) -> (r: ListOptions)
    ensures
        r.show_all == (args.all || settings.all),
        r.show_permissions == (args.permissions || settings.permissions),
        r.show_dirs == (if args.no_showdir {
            false
        } else if args.showdir {
            true
        } else {
            settings.showdir
        }),
{
    ListOptions {
        show_all: args.all || settings.all,
        show_permissions: args.permissions || settings.permissions,
        show_dirs: resolve_show_dirs(args, settings),
    }
}

/// What the command-line path turned out to be on disk.
pub enum PathKind {
    Directory,
    File,
    Absent,
}

/// The first step for the command-line path.
pub enum Plan {
    /// List the directory the path names.
    ListPath,
    /// Show the one file the path names.
    ShowPath,
    /// Read the path as a glob pattern (see `parse_directory_and_pattern`).
    ExpandGlob,
    /// Report that the path does not exist.
    Missing,
}

/// A directory is listed, a file is shown; a path that does not exist is read as
/// a glob pattern where it holds a wildcard, and is an error otherwise.
pub fn plan_for_path(kind: PathKind, path: &str) -> (r: Plan)
    ensures
        match kind {
            PathKind::Directory => r is ListPath,
            PathKind::File => r is ShowPath,
            PathKind::Absent => if pattern::has_glob_chars_spec(path@) {
                r is ExpandGlob
            } else {
                r is Missing
            },
        },
{
    match kind {
        PathKind::Directory => Plan::ListPath,
        PathKind::File => Plan::ShowPath,
        PathKind::Absent => if pattern::has_glob_chars(path) {
            Plan::ExpandGlob
        } else {
            Plan::Missing
        },
    }
}

/// Where a glob pattern's names are looked for.
pub enum GlobPlan {
    /// In the pattern's own directory.
    ListTarget,
    /// In the current directory.
    ListCurrent,
    /// Nowhere: report that the path does not exist.
    Missing,
}

/// The pattern's directory where it is an existing directory; else the current
/// directory where there is a valid pattern; else the path is reported missing.
pub fn plan_for_glob(target_is_dir: bool, has_pattern: bool) -> (r: GlobPlan)
    ensures
        target_is_dir ==> r is ListTarget,
        !target_is_dir && has_pattern ==> r is ListCurrent,
        !target_is_dir && !has_pattern ==> r is Missing,
{
    if target_is_dir {
        GlobPlan::ListTarget
    } else if has_pattern {
        GlobPlan::ListCurrent
    } else {
        GlobPlan::Missing
    }
}

} // verus!
