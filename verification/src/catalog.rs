//! The in-memory catalog: a read-only tree of named directories and files
//! holding the bundled template assets, with lookup by path, and the
//! filesystem actions an instantiation plans over it.

use crate::strutil::str_eq;
use vstd::prelude::*;
use vstd::string::StringExecFns;

verus! {

/// A file bundled in the catalog.
#[derive(Debug)]
pub struct CatalogFile {
    pub name: String,
    pub contents: Vec<u8>,
}

/// A directory bundled in the catalog.
#[derive(Debug)]
pub struct CatalogDir {
    pub name: String,
    pub entries: Vec<CatalogEntry>,
}

/// One entry of a catalog directory.
#[derive(Debug)]
pub enum CatalogEntry {
    Dir(CatalogDir),
    File(CatalogFile),
}

/// The three read-only asset trees the engine works from: the template
/// catalog itself, the adapter binaries keyed by tier name, and the shared
/// interface-fragment directories keyed by fragment name.
#[derive(Debug)]
pub struct Catalog {
    pub examples: CatalogDir,
    pub adapters: CatalogDir,
    pub wit: CatalogDir,
}

/// The name of an entry.
pub open spec fn entry_name(e: CatalogEntry) -> Seq<char> {
    match e {
        CatalogEntry::Dir(d) => d.name@,
        CatalogEntry::File(f) => f.name@,
    }
}

/// The first entry with the given name, scanning from position `i`.
pub open spec fn find_entry_from(es: Seq<CatalogEntry>, name: Seq<char>, i: int) -> Option<
    CatalogEntry,
>
    decreases es.len() - i,
{
    if i < 0 || i >= es.len() {
        None
    } else if entry_name(es[i]) == name {
        Some(es[i])
    } else {
        find_entry_from(es, name, i + 1)
    }
}

/// The first entry with the given name.
pub open spec fn find_entry(es: Seq<CatalogEntry>, name: Seq<char>) -> Option<CatalogEntry> {
    find_entry_from(es, name, 0)
}

/// The directory reached from `d` by following the path segments from
/// position `from` on.
pub open spec fn lookup_dir_from(d: CatalogDir, path: Seq<Seq<char>>, from: int) -> Option<
    CatalogDir,
>
    decreases path.len() - from,
{
    if from < 0 || from >= path.len() {
        Some(d)
    } else {
        match find_entry(d.entries@, path[from]) {
            Some(CatalogEntry::Dir(sub)) => lookup_dir_from(sub, path, from + 1),
            _ => None,
        }
    }
}

/// The directory reached from `d` by following the path segments.
pub open spec fn lookup_dir(d: CatalogDir, path: Seq<Seq<char>>) -> Option<CatalogDir> {
    lookup_dir_from(d, path, 0)
}

/// The file reached from `d` by following the path segments: all but the
/// last name directories, the last a file.
pub open spec fn lookup_file_from(d: CatalogDir, path: Seq<Seq<char>>, from: int) -> Option<
    CatalogFile,
>
    decreases path.len() - from,
{
    if from < 0 || from >= path.len() {
        None
    } else {
        match find_entry(d.entries@, path[from]) {
            Some(CatalogEntry::Dir(sub)) => {
                if from + 1 < path.len() {
                    lookup_file_from(sub, path, from + 1)
                } else {
                    None
                }
            },
            Some(CatalogEntry::File(f)) => {
                if from + 1 == path.len() {
                    Some(f)
                } else {
                    None
                }
            },
            None => None,
        }
    }
}

/// The file reached from `d` by following the path segments.
pub open spec fn lookup_file(d: CatalogDir, path: Seq<Seq<char>>) -> Option<CatalogFile> {
    lookup_file_from(d, path, 0)
}

/// The first entry of `d` with the given name.
pub fn find_child<'a>(d: &'a CatalogDir, name: &str) -> (r: Option<&'a CatalogEntry>)
    ensures
        r is Some <==> find_entry(d.entries@, name@) is Some,
        r matches Some(e) ==> find_entry(d.entries@, name@) == Some(*e),
{
    let mut i: usize = 0;
    while i < d.entries.len()
        invariant
            i <= d.entries.len(),
            find_entry(d.entries@, name@) == find_entry_from(d.entries@, name@, i as int),
        decreases d.entries.len() - i,
    {
        let matches = match &d.entries[i] {
            CatalogEntry::Dir(sub) => str_eq(sub.name.as_str(), name),
            CatalogEntry::File(f) => str_eq(f.name.as_str(), name),
        };
        if matches {
            return Some(&d.entries[i]);
        }
        i = i + 1;
    }
    None
}

/// The directory reached from `d` by following `path[from..]`.
pub fn get_dir_from<'a>(d: &'a CatalogDir, path: &Vec<String>, from: usize) -> (r: Option<
    &'a CatalogDir,
>)
    requires
        from <= path.len(),
    ensures
        r is Some <==> lookup_dir_from(*d, path.deep_view(), from as int) is Some,
        r matches Some(sub) ==> lookup_dir_from(*d, path.deep_view(), from as int) == Some(*sub),
    decreases path.len() - from,
{
    if from == path.len() {
        return Some(d);
    }
    proof {
        assert(path.deep_view()[from as int] == path[from as int]@);
    }
    match find_child(d, path[from].as_str()) {
        Some(CatalogEntry::Dir(sub)) => get_dir_from(sub, path, from + 1),
        Some(CatalogEntry::File(_)) => None,
        None => None,
    }
}

/// The directory reached from `d` by following `path`.
pub fn get_dir<'a>(d: &'a CatalogDir, path: &Vec<String>) -> (r: Option<&'a CatalogDir>)
    ensures
        r is Some <==> lookup_dir(*d, path.deep_view()) is Some,
        r matches Some(sub) ==> lookup_dir(*d, path.deep_view()) == Some(*sub),
{
    get_dir_from(d, path, 0)
}

/// The file reached from `d` by following `path[from..]`.
pub fn get_file_from<'a>(d: &'a CatalogDir, path: &Vec<String>, from: usize) -> (r: Option<
    &'a CatalogFile,
>)
    requires
        from <= path.len(),
    ensures
        r is Some <==> lookup_file_from(*d, path.deep_view(), from as int) is Some,
        r matches Some(f) ==> lookup_file_from(*d, path.deep_view(), from as int) == Some(*f),
    decreases path.len() - from,
{
    if from == path.len() {
        return None;
    }
    proof {
        assert(path.deep_view()[from as int] == path[from as int]@);
    }
    match find_child(d, path[from].as_str()) {
        Some(CatalogEntry::Dir(sub)) => {
            if from + 1 < path.len() {
                get_file_from(sub, path, from + 1)
            } else {
                None
            }
        },
        Some(CatalogEntry::File(f)) => {
            if from + 1 == path.len() {
                Some(f)
            } else {
                None
            }
        },
        None => None,
    }
}

/// The file reached from `d` by following `path`.
pub fn get_file<'a>(d: &'a CatalogDir, path: &Vec<String>) -> (r: Option<&'a CatalogFile>)
    ensures
        r is Some <==> lookup_file(*d, path.deep_view()) is Some,
        r matches Some(f) ==> lookup_file(*d, path.deep_view()) == Some(*f),
{
    get_file_from(d, path, 0)
}

/// One planned filesystem action. Instantiation computes a list of these;
/// the caller carries them out in order.
#[derive(Debug, Clone, PartialEq, Eq)]
pub enum FsAction {
    /// Create a directory, and any missing parent.
    MkDir { path: String },
    /// Write a file with the given contents, replacing any existing file.
    WriteFile { path: String, contents: Vec<u8> },
}

/// The mathematical shape of a planned action.
pub enum Act {
    MkDir { path: Seq<char> },
    WriteFile { path: Seq<char>, contents: Seq<u8> },
}

impl View for FsAction {
    type V = Act;

    open spec fn view(&self) -> Act {
        match self {
            FsAction::MkDir { path } => Act::MkDir { path: path@ },
            FsAction::WriteFile { path, contents } => Act::WriteFile {
                path: path@,
                contents: contents@,
            },
        }
    }
}

impl DeepView for FsAction {
    type V = Act;

    open spec fn deep_view(&self) -> Act {
        self.view()
    }
}

/// Two path segments joined by the path separator.
pub fn join_path(base: &str, name: &str) -> (r: String)
    ensures
        r@ == base@ + seq!['/'] + name@,
{
    let mut r = String::from_str(base);
    crate::strutil::push_char(&mut r, '/');
    r.append(name);
    proof {
        assert(base@.push('/') =~= base@ + seq!['/']);
    }
    r
}

} // verus!
