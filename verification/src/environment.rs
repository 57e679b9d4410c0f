//! Whether a directory can hold a Fact environment: `fact here` refuses a
//! directory with foreign files, or whose known files and directories have
//! the wrong kind, unless forced.
//!
//! What the directory holds is read by the caller and handed over as plain
//! values: the names and shown paths of its entries, in the order they were
//! listed, and the kind of each known path.

use vstd::prelude::*;
use crate::text::{concat, str_eq};

verus! {

/// What a path names.
#[derive(Clone, Copy, Debug, PartialEq, Eq, Structural)]
pub enum PathKind {
    Missing,
    File,
    Directory,
    Other,
}

/// A known path of an environment: how it is shown and what it names.
pub struct KnownPath {
    pub display: String,
    pub kind: PathKind,
}

/// A directory entry: its file name and how its path is shown.
pub struct DirEntry {
    pub name: String,
    pub display: String,
}

/// What `fact here` looks at in a directory.
pub struct EnvironmentScan {
    pub entries: Vec<DirEntry>,
    pub catalog: KnownPath,
    pub remotes: KnownPath,
    pub profiles: KnownPath,
    pub personas: KnownPath,
    pub active: KnownPath,
    pub identities: KnownPath,
    pub ledgers: KnownPath,
}

/// The names an environment directory may hold.
pub open spec fn environment_name(n: Seq<char>) -> bool {
    n == "active"@ || n == "catalog.toml"@ || n == "identities"@ || n == "ledgers"@ || n
        == "personas.toml"@ || n == "profiles.toml"@ || n == "remotes.toml"@
}

/// The first entry, in listing order, that an environment may not hold.
pub open spec fn first_foreign(entries: Seq<DirEntry>) -> Option<Seq<char>>
    decreases entries.len(),
{
    if entries.len() == 0 {
        None
    } else {
        match first_foreign(entries.drop_last()) {
            Some(d) => Some(d),
            None => if environment_name(entries.last().name@) {
                None
            } else {
                Some(entries.last().display@)
            },
        }
    }
}

/// A known path that exists but is not a file.
pub open spec fn not_file(p: KnownPath) -> bool {
    p.kind == PathKind::Directory || p.kind == PathKind::Other
}

/// A known path that exists but is not a directory.
pub open spec fn not_directory(p: KnownPath) -> bool {
    p.kind == PathKind::File || p.kind == PathKind::Other
}

pub open spec fn foreign_error(display: Seq<char>) -> Seq<char> {
    display + " is not a Fact environment file; rerun with --force to accept it"@
}

pub open spec fn not_file_error(display: Seq<char>) -> Seq<char> {
    display + " exists but is not a file"@
}

pub open spec fn not_directory_error(display: Seq<char>) -> Seq<char> {
    display + " exists but is not a directory"@
}

/// Why a directory cannot hold an environment, checked in this order: a
/// foreign entry; a known file that is not a file; a known directory that is
/// not a directory. Nothing is refused when forced.
pub open spec fn layout_error(s: EnvironmentScan, force: bool) -> Option<Seq<char>> {
    if force {
        None
    } else if first_foreign(s.entries@) is Some {
        Some(foreign_error(first_foreign(s.entries@)->Some_0))
    } else if not_file(s.catalog) {
        Some(not_file_error(s.catalog.display@))
    } else if not_file(s.remotes) {
        Some(not_file_error(s.remotes.display@))
    } else if not_file(s.profiles) {
        Some(not_file_error(s.profiles.display@))
    } else if not_file(s.personas) {
        Some(not_file_error(s.personas.display@))
    } else if not_file(s.active) {
        Some(not_file_error(s.active.display@))
    } else if not_directory(s.identities) {
        Some(not_directory_error(s.identities.display@))
    } else if not_directory(s.ledgers) {
        Some(not_directory_error(s.ledgers.display@))
    } else {
        None
    }
}

fn is_environment_name(n: &str) -> (r: bool)
    ensures
        r == environment_name(n@),
{
    str_eq(n, "active") || str_eq(n, "catalog.toml") || str_eq(n, "identities") || str_eq(
        n,
        "ledgers",
    ) || str_eq(n, "personas.toml") || str_eq(n, "profiles.toml") || str_eq(n, "remotes.toml")
}

fn foreign_entry(entries: &Vec<DirEntry>) -> (r: Option<String>)
    ensures
        match r {
            Some(d) => first_foreign(entries@) == Some(d@),
            None => first_foreign(entries@) is None,
        },
{
    let mut i: usize = 0;
    while i < entries.len()
        invariant
            i <= entries@.len(),
            first_foreign(entries@.take(i as int)) is None,
        decreases entries@.len() - i,
    {
        assert(entries@.take(i + 1).drop_last() =~= entries@.take(i as int));
        if !is_environment_name(entries[i].name.as_str()) {
            proof {
                lemma_first_foreign_prefix(entries@, i as int + 1);
            }
            return Some(entries[i].display.clone());
        }
        i = i + 1;
    }
    assert(entries@.take(entries@.len() as int) =~= entries@);
    None
}

/// Once a prefix has a foreign entry, the whole list has the same first one.
proof fn lemma_first_foreign_prefix(entries: Seq<DirEntry>, m: int)
    requires
        0 <= m <= entries.len(),
        first_foreign(entries.take(m)) is Some,
    ensures
        first_foreign(entries) == first_foreign(entries.take(m)),
    decreases entries.len() - m,
{
    if m < entries.len() {
        assert(entries.take(m + 1).drop_last() =~= entries.take(m));
        lemma_first_foreign_prefix(entries, m + 1);
    } else {
        assert(entries.take(m) =~= entries);
    }
}

fn wrong_kind(p: &KnownPath, directory: bool) -> (r: Option<String>)
    ensures
        match r {
            Some(e) => if directory {
                not_directory(*p) && e@ == not_directory_error(p.display@)
            } else {
                not_file(*p) && e@ == not_file_error(p.display@)
            },
            None => if directory {
                !not_directory(*p)
            } else {
                !not_file(*p)
            },
        },
{
    let bad = match p.kind {
        PathKind::Missing => false,
        PathKind::File => directory,
        PathKind::Directory => !directory,
        PathKind::Other => true,
    };
    if !bad {
        return None;
    }
    if directory {
        Some(concat(p.display.as_str(), " exists but is not a directory"))
    } else {
        Some(concat(p.display.as_str(), " exists but is not a file"))
    }
}

/// Checks that a directory can hold a Fact environment.
pub fn check_environment_layout(scan: &EnvironmentScan, force: bool) -> (r: Result<(), String>)
    ensures
        match r {
            Ok(()) => layout_error(*scan, force) is None,
            Err(e) => layout_error(*scan, force) == Some(e@),
        },
{
    if force {
        return Ok(());
    }
    match foreign_entry(&scan.entries) {
        Some(d) => {
            return Err(concat(d.as_str(), " is not a Fact environment file; rerun with --force to accept it"));
        },
        None => {},
    }
    match wrong_kind(&scan.catalog, false) {
        Some(e) => return Err(e),
        None => {},
    }
    match wrong_kind(&scan.remotes, false) {
        Some(e) => return Err(e),
        None => {},
    }
    match wrong_kind(&scan.profiles, false) {
        Some(e) => return Err(e),
        None => {},
    }
    match wrong_kind(&scan.personas, false) {
        Some(e) => return Err(e),
        None => {},
    }
    match wrong_kind(&scan.active, false) {
        Some(e) => return Err(e),
        None => {},
    }
    match wrong_kind(&scan.identities, true) {
        Some(e) => return Err(e),
        None => {},
    }
    match wrong_kind(&scan.ledgers, true) {
        Some(e) => return Err(e),
        None => {},
    }
    Ok(())
}

} // verus!
