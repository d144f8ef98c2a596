use encfs_core::attr::FileType;
use encfs_core::error::FsError;
use encfs_core::tree::{
    accept_inode_candidate, check_create_nod, check_delete, check_dir, check_dir_empty,
    check_rename, check_rename_destination, children_count, is_reserved, opens_on_create, str_eq,
};

const DIR: Option<FileType> = Some(FileType::Directory);
const REG: Option<FileType> = Some(FileType::RegularFile);

#[test]
fn reserved_names() {
    assert!(is_reserved("."));
    assert!(is_reserved(".."));
    assert!(!is_reserved("..."));
    assert!(!is_reserved("a"));
    assert!(!is_reserved(""));
}

#[test]
fn create_checks() {
    assert!(matches!(check_create_nod(".", DIR, false), Err(FsError::InvalidInput(_))));
    assert!(matches!(check_create_nod("..", DIR, false), Err(FsError::InvalidInput(_))));
    assert_eq!(check_create_nod("a", None, false), Err(FsError::InodeNotFound));
    assert_eq!(check_create_nod("a", REG, false), Err(FsError::InvalidInodeType));
    assert_eq!(check_create_nod("a", DIR, true), Err(FsError::AlreadyExists));
    assert_eq!(check_create_nod("hello.txt", DIR, false), Ok(()));
}

#[test]
fn lookup_parent_checks() {
    assert_eq!(check_dir(None), Err(FsError::InodeNotFound));
    assert_eq!(check_dir(REG), Err(FsError::InvalidInodeType));
    assert_eq!(check_dir(DIR), Ok(()));
}

#[test]
fn inode_candidates() {
    assert!(!accept_inode_candidate(0, false));
    assert!(!accept_inode_candidate(1, false));
    assert!(!accept_inode_candidate(5, true));
    assert!(accept_inode_candidate(2, false));
    assert!(accept_inode_candidate(u64::MAX, false));
}

#[test]
fn opening_on_create() {
    assert!(opens_on_create(FileType::RegularFile, true, false));
    assert!(opens_on_create(FileType::RegularFile, false, true));
    assert!(!opens_on_create(FileType::RegularFile, false, false));
    assert!(!opens_on_create(FileType::Directory, true, true));
}

#[test]
fn non_empty_dir_is_not_deleted() {
    // "a" holds "x": the root lists ".", "a"; "a" lists ".", "..", "x"
    assert_eq!(check_delete(DIR, DIR, FileType::Directory), Ok(()));
    let children = children_count(77, DIR, 3).unwrap();
    assert_eq!(children, 1);
    assert_eq!(check_dir_empty(children), Err(FsError::NotEmpty));
}

#[test]
fn delete_checks() {
    assert_eq!(check_delete(REG, REG, FileType::RegularFile), Err(FsError::InvalidInodeType));
    assert_eq!(check_delete(None, REG, FileType::RegularFile), Err(FsError::InvalidInodeType));
    assert!(matches!(check_delete(DIR, None, FileType::RegularFile), Err(FsError::NotFound(_))));
    assert_eq!(check_delete(DIR, DIR, FileType::RegularFile), Err(FsError::InvalidInodeType));
    assert_eq!(check_delete(DIR, REG, FileType::RegularFile), Ok(()));
    assert_eq!(check_dir_empty(0), Ok(()));
}

#[test]
fn children_counts() {
    assert_eq!(children_count(1, DIR, 1), Ok(0));
    assert_eq!(children_count(1, DIR, 4), Ok(3));
    assert_eq!(children_count(2, DIR, 2), Ok(0));
    assert_eq!(children_count(2, DIR, 1), Err(FsError::InvalidDataDirStructure));
    assert_eq!(children_count(2, REG, 5), Err(FsError::InvalidInodeType));
    assert_eq!(children_count(2, None, 5), Err(FsError::InvalidInodeType));
}

#[test]
fn rename_checks() {
    assert_eq!(check_rename(2, "x", 3, "y", None, DIR, true), Err(FsError::InodeNotFound));
    assert_eq!(check_rename(2, "x", 3, "y", REG, DIR, true), Err(FsError::InvalidInodeType));
    assert_eq!(check_rename(2, "x", 3, "y", DIR, None, true), Err(FsError::InodeNotFound));
    assert_eq!(check_rename(2, "x", 3, "y", DIR, REG, true), Err(FsError::InvalidInodeType));
    assert!(matches!(check_rename(2, "x", 3, "y", DIR, DIR, false), Err(FsError::NotFound(_))));
    // across directories: a move
    assert_eq!(check_rename(2, "x", 3, "y", DIR, DIR, true), Ok(true));
    // same entry: nothing to do
    assert_eq!(check_rename(2, "x", 2, "x", DIR, DIR, true), Ok(false));
    assert_eq!(check_rename(2, "x", 2, "y", DIR, DIR, true), Ok(true));
}

#[test]
fn rename_destination_checks() {
    assert_eq!(check_rename_destination(DIR, 2), Err(FsError::NotEmpty));
    assert_eq!(check_rename_destination(DIR, 0), Ok(()));
    assert_eq!(check_rename_destination(REG, 2), Ok(()));
    assert_eq!(check_rename_destination(None, 0), Ok(()));
}

#[test]
fn string_equality() {
    assert!(str_eq("héllo", "héllo"));
    assert!(!str_eq("hello", "hellO"));
    assert!(!str_eq("a", "ab"));
}

#[test]
fn rename_across_directories_is_a_move() {
    // a and b are directories; a/x moves to b/y, nothing stands at b/y
    assert_eq!(check_rename(10, "x", 20, "y", DIR, DIR, true), Ok(true));
    assert_eq!(check_rename_destination(None, 0), Ok(()));
    // afterwards a/x is gone: renaming it again finds nothing
    assert!(matches!(check_rename(10, "x", 20, "y", DIR, DIR, false), Err(FsError::NotFound(_))));
}
