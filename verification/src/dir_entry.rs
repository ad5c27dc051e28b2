//! An entry of a folder listing, holding what the application state reads of
//! it as plain values.

use vstd::prelude::*;
use std::path::PathBuf;

verus! {

/// A path of the file system, carried through unread.
#[verifier::external_type_specification]
#[verifier::external_body]
pub struct ExPathBuf(PathBuf);

/// `PathBuf::clone`, which copies the path; nothing is claimed of the copy.
pub assume_specification[ <PathBuf as Clone>::clone ](p: &PathBuf) -> PathBuf;

/// A stripped-down version of ``std::fs::DirEntry``: its path, its file name
/// (empty where the name is not valid Unicode) and whether it is a folder.
#[derive(Clone)]
pub struct CustomDirEntry {
    _path: PathBuf,
    _file_name: String,
    _is_dir: bool,
}

impl CustomDirEntry {
    /// The characters of the file name.
    pub closed spec fn name(&self) -> Seq<char> {
        self._file_name@
    }

    /// Whether the entry is a folder.
    pub closed spec fn dir(&self) -> bool {
        self._is_dir
    }

    /// The path of the entry.
    pub closed spec fn path_view(&self) -> PathBuf {
        self._path
    }

    /// An entry with the given path, checked file name and folder flag.
    pub fn new(path: PathBuf, file_name: String, is_dir: bool) -> (r: Self)
        ensures
            r.name() == file_name@,
            r.dir() == is_dir,
            r.path_view() == path,
    {
        CustomDirEntry { _path: path, _file_name: file_name, _is_dir: is_dir }
    }

    /// Return the file name of this directory entry. Where the name on disk is
    /// not valid Unicode, this is the empty string.
    pub fn file_name_checked(&self) -> (r: String)
        ensures
            r@ == self.name(),
    {
        self._file_name.clone()
    }

    /// The file name, borrowed.
    pub fn file_name(&self) -> (r: &String)
        ensures
            r@ == self.name(),
    {
        &self._file_name
    }

    /// The path of this entry.
    pub fn path(&self) -> (r: &PathBuf)
        ensures
            *r == self.path_view(),
    {
        &self._path
    }

    /// Whether this entry is a folder.
    pub fn is_dir(&self) -> (r: bool)
        ensures
            r == self.dir(),
    {
        self._is_dir
    }
}

} // verus!
