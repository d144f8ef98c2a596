use vstd::prelude::*;

use crate::attr::{FileType, ROOT_INODE};
use crate::error::FsError;

verus! {

/// Whether two strings hold the same characters.
pub fn str_eq(a: &str, b: &str) -> (r: bool)
    ensures
        r == (a@ == b@),
{
    let n = a.unicode_len();
    if n != b.unicode_len() {
        return false;
    }
    let mut i: usize = 0;
    while i < n
        invariant
            n == a@.len(),
            n == b@.len(),
            i <= n,
            forall|k: int| 0 <= k < i ==> a@[k] == b@[k],
        decreases n - i,
    {
        if a.get_char(i) != b.get_char(i) {
            return false;
        }
        i = i + 1;
    }
    assert(a@ =~= b@);
    true
}

/// `.` and `..`, which no node may be named.
pub open spec fn is_reserved_name(name: Seq<char>) -> bool {
    name == seq!['.'] || name == seq!['.', '.']
}

/// Whether `name` is `.` or `..`.
pub fn is_reserved(name: &str) -> (r: bool)
    ensures
        r == is_reserved_name(name@),
{
    let n = name.unicode_len();
    if n == 1 {
        let r = name.get_char(0) == '.';
        assert(r ==> name@ =~= seq!['.']);
        r
    } else if n == 2 {
        let r = name.get_char(0) == '.' && name.get_char(1) == '.';
        assert(r ==> name@ =~= seq!['.', '.']);
        r
    } else {
        false
    }
}

/// The outcome of the checks on a parent before a lookup by name: it must
/// exist and be a directory.
pub open spec fn spec_check_dir(node: Option<FileType>) -> Result<(), FsError> {
    match node {
        None => Err(FsError::InodeNotFound),
        Some(FileType::RegularFile) => Err(FsError::InvalidInodeType),
        Some(FileType::Directory) => Ok(()),
    }
}

/// Checks that a node, of kind `node` if it exists, is a directory.
pub fn check_dir(node: Option<FileType>) -> (r: Result<(), FsError>)
    ensures
        r == spec_check_dir(node),
{
    match node {
        None => Err(FsError::InodeNotFound),
        Some(FileType::RegularFile) => Err(FsError::InvalidInodeType),
        Some(FileType::Directory) => Ok(()),
    }
}

/// Checks a `create_nod` of `name` under a parent of kind `parent` (if it
/// exists); `name_exists` tells whether the parent already has that name.
pub fn check_create_nod(name: &str, parent: Option<FileType>, name_exists: bool) -> (r: Result<(), FsError>)
    ensures
        is_reserved_name(name@) ==> r is Err && r->Err_0 is InvalidInput,
        !is_reserved_name(name@) ==> r == match spec_check_dir(parent) {
            Err(e) => Err(e),
            Ok(()) => if name_exists {
                Err(FsError::AlreadyExists)
            } else {
                Ok(())
            },
        },
{
    if is_reserved(name) {
        return Err(FsError::InvalidInput("name cannot be '.' or '..'"));
    }
    match check_dir(parent) {
        Err(e) => Err(e),
        Ok(()) => if name_exists {
            Err(FsError::AlreadyExists)
        } else {
            Ok(())
        },
    }
}

/// Whether a drawn inode id may name a new node: above the root's and not
/// in use.
pub fn accept_inode_candidate(candidate: u64, in_use: bool) -> (r: bool)
    ensures
        r == (candidate > ROOT_INODE && !in_use),
{
    candidate > ROOT_INODE && !in_use
}

/// Whether a new node is opened on creation: only a regular file, and only
/// when reading or writing was asked for.
pub fn opens_on_create(kind: FileType, read: bool, write: bool) -> (r: bool)
    ensures
        r == (kind == FileType::RegularFile && (read || write)),
{
    kind == FileType::RegularFile && (read || write)
}

/// The outcome of the checks before deleting an entry that should be of
/// kind `expected`: the parent must be a directory, the name must be found,
/// and the node found must be of that kind.
pub open spec fn spec_check_delete(parent: Option<FileType>, found: Option<FileType>, expected: FileType) -> Result<(), FsError> {
    if parent != Some(FileType::Directory) {
        Err(FsError::InvalidInodeType)
    } else if found is None {
        Err(FsError::NotFound("name not found"))
    } else if found != Some(expected) {
        Err(FsError::InvalidInodeType)
    } else {
        Ok(())
    }
}

/// Checks a deletion under a parent of kind `parent` of an entry found as
/// `found` that should be of kind `expected`.
pub fn check_delete(parent: Option<FileType>, found: Option<FileType>, expected: FileType) -> (r: Result<(), FsError>)
    ensures
        r == spec_check_delete(parent, found, expected),
{
    if parent != Some(FileType::Directory) {
        return Err(FsError::InvalidInodeType);
    }
    match found {
        None => Err(FsError::NotFound("name not found")),
        Some(kind) => if kind != expected {
            Err(FsError::InvalidInodeType)
        } else {
            Ok(())
        },
    }
}

/// Checks that a directory about to be removed or replaced has no
/// children.
pub fn check_dir_empty(children: usize) -> (r: Result<(), FsError>)
    ensures
        r == if children == 0 {
            Ok::<(), FsError>(())
        } else {
            Err(FsError::NotEmpty)
        },
{
    if children > 0 {
        Err(FsError::NotEmpty)
    } else {
        Ok(())
    }
}

/// How many entries of a directory's listing are the synthetic `.` and
/// `..`: the root has only `.`.
pub open spec fn synthetic_entries(ino: u64) -> int {
    if ino == ROOT_INODE {
        1
    } else {
        2
    }
}

/// The number of children of directory `ino`, of kind `node` if it exists,
/// whose listing holds `listed` entries, `.` and `..` not counted.
pub fn children_count(ino: u64, node: Option<FileType>, listed: usize) -> (r: Result<usize, FsError>)
    ensures
        node != Some(FileType::Directory) ==> r == Err::<usize, FsError>(FsError::InvalidInodeType),
        node == Some(FileType::Directory) && listed >= synthetic_entries(ino) ==> r == Ok::<
            usize,
            FsError,
        >((listed - synthetic_entries(ino)) as usize),
        node == Some(FileType::Directory) && listed < synthetic_entries(ino) ==> r == Err::<
            usize,
            FsError,
        >(FsError::InvalidDataDirStructure),
{
    if node != Some(FileType::Directory) {
        return Err(FsError::InvalidInodeType);
    }
    let synthetic: usize = if ino == ROOT_INODE {
        1
    } else {
        2
    };
    if listed < synthetic {
        Err(FsError::InvalidDataDirStructure)
    } else {
        Ok(listed - synthetic)
    }
}

/// The outcome of the checks of `rename`: `Ok(false)` when source and
/// destination are the same entry and nothing is to be done.
pub open spec fn spec_check_rename(
    parent: u64,
    name: Seq<char>,
    new_parent: u64,
    new_name: Seq<char>,
    parent_kind: Option<FileType>,
    new_parent_kind: Option<FileType>,
    name_exists: bool,
) -> Result<bool, FsError> {
    match spec_check_dir(parent_kind) {
        Err(e) => Err(e),
        Ok(()) => match spec_check_dir(new_parent_kind) {
            Err(e) => Err(e),
            Ok(()) => if !name_exists {
                Err(FsError::NotFound("name not found"))
            } else {
                Ok(!(parent == new_parent && name == new_name))
            },
        },
    }
}

/// Checks a rename of `name` in `parent` to `new_name` in `new_parent`,
/// given the kinds of both parents and whether `name` exists in `parent`.
pub fn check_rename(
    parent: u64,
    name: &str,
    new_parent: u64,
    new_name: &str,
    parent_kind: Option<FileType>,
    new_parent_kind: Option<FileType>,
    name_exists: bool,
) -> (r: Result<bool, FsError>)
    ensures
        r == spec_check_rename(
            parent,
            name@,
            new_parent,
            new_name@,
            parent_kind,
            new_parent_kind,
            name_exists,
        ),
{
    match check_dir(parent_kind) {
        Err(e) => Err(e),
        Ok(()) => match check_dir(new_parent_kind) {
            Err(e) => Err(e),
            Ok(()) => if !name_exists {
                Err(FsError::NotFound("name not found"))
            } else {
                Ok(!(parent == new_parent && str_eq(name, new_name)))
            },
        },
    }
}

/// Checks the destination of a move: an existing directory there may only
/// be replaced when it is empty.
pub fn check_rename_destination(dest: Option<FileType>, dest_children: usize) -> (r: Result<(), FsError>)
    ensures
        r == if dest == Some(FileType::Directory) && dest_children > 0 {
            Err::<(), FsError>(FsError::NotEmpty)
        } else {
            Ok(())
        },
{
    if dest == Some(FileType::Directory) && dest_children > 0 {
        Err(FsError::NotEmpty)
    } else {
        Ok(())
    }
}

} // verus!
