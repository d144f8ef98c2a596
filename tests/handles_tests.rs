use encfs_core::attr::{CreateFileAttr, FileAttr, FileType, SetFileAttr};
use encfs_core::error::FsError;
use encfs_core::handles::{
    needs_rewind, HandleTable, ReadHandleContextOperation, WriteHandleContextOperation,
};
use encfs_core::time::Timestamp;

fn ts(secs: u64) -> Timestamp {
    Timestamp::new(secs, 0)
}

fn file(ino: u64, size: u64) -> FileAttr {
    let mut attr = FileAttr::from_create(
        CreateFileAttr { kind: FileType::RegularFile, perm: 0o644, uid: 0, gid: 0, rdev: 0, flags: 0 },
        ino,
        ts(10),
    );
    attr.size = size;
    attr
}

fn dir(ino: u64) -> FileAttr {
    FileAttr::from_create(
        CreateFileAttr { kind: FileType::Directory, perm: 0o755, uid: 0, gid: 0, rdev: 0, flags: 0 },
        ino,
        ts(10),
    )
}

#[test]
fn handles_start_at_one_and_increase() {
    let mut t = HandleTable::new();
    let a = t.open(true, false, file(7, 0)).unwrap();
    let b = t.open(true, false, file(7, 0)).unwrap();
    assert_eq!(a, 1);
    assert_eq!(b, 2);
    assert!(t.is_read_handle(a));
    assert!(!t.is_write_handle(a));
}

#[test]
fn double_open_for_write_is_refused() {
    let mut t = HandleTable::new();
    let fh1 = t.open(false, true, file(7, 0)).unwrap();
    assert_eq!(t.open(false, true, file(7, 0)), Err(FsError::AlreadyOpenForWrite));
    // read and write together is refused too, and leaves no read handle behind
    assert_eq!(t.open(true, true, file(7, 0)), Err(FsError::AlreadyOpenForWrite));
    assert!(!t.is_read_handle(2));
    // fh1 remains usable
    assert_eq!(t.check_write(7, Some(FileType::RegularFile), fh1, 0, 3, 100), Ok(3));
    t.finish_write(fh1, 3, ts(20));
    assert_eq!(t.fused_attr(file(7, 0)).size, 3);
    // another inode may have its own writer
    assert!(t.open(false, true, file(8, 0)).is_ok());
}

#[test]
fn open_needs_a_mode_and_a_file() {
    let mut t = HandleTable::new();
    assert!(matches!(t.open(false, false, file(7, 0)), Err(FsError::InvalidInput(_))));
    assert_eq!(t.open(true, false, dir(9)), Err(FsError::InvalidInodeType));
}

#[test]
fn release_hands_back_updates() {
    let mut t = HandleTable::new();
    let fh = t.open(true, true, file(7, 5)).unwrap();
    t.finish_write(fh, 12, ts(30));
    t.finish_read(fh, ts(40));
    let rel = t.release(fh).unwrap();
    let r = rel.read_update.unwrap();
    assert_eq!(r.ino, 7);
    assert_eq!(r.set_attr.size, None);
    assert_eq!(r.set_attr.atime, Some(ts(40)));
    let w = rel.write_update.unwrap();
    assert_eq!(w.set_attr.size, Some(12));
    assert_eq!(w.set_attr.mtime, Some(ts(30)));
    assert!(!t.is_read_handle(fh));
    assert!(!t.is_write_handle(fh));
    assert_eq!(t.writer_of(7), None);
    // a writer may open again
    assert!(t.open(false, true, file(7, 12)).is_ok());
}

#[test]
fn release_of_zero_and_unknown_handles() {
    let mut t = HandleTable::new();
    let rel = t.release(0).unwrap();
    assert_eq!(rel.read_update, None);
    assert_eq!(rel.write_update, None);
    assert_eq!(t.release(42), Err(FsError::InvalidFileHandle));
}

#[test]
fn size_after_release_is_the_writer_size() {
    let mut t = HandleTable::new();
    let stored = file(7, 5);
    let fh = t.open(false, true, stored).unwrap();
    t.finish_write(fh, 9, ts(30));
    let rel = t.release(fh).unwrap();
    let mut next = t.fused_attr(stored);
    encfs_core::attr::merge_attr(&mut next, &rel.write_update.unwrap().set_attr);
    assert_eq!(t.fused_attr(next).size, 9);
}

#[test]
fn observed_attributes_merge_open_handles() {
    let mut t = HandleTable::new();
    let stored = file(7, 5);
    let r1 = t.open(true, false, stored).unwrap();
    let r2 = t.open(true, false, stored).unwrap();
    t.finish_read(r1, ts(50));
    t.finish_read(r2, ts(40));
    let w = t.open(false, true, stored).unwrap();
    t.finish_write(w, 8, ts(45));
    let seen = t.fused_attr(stored);
    assert_eq!(seen.atime, ts(50));
    assert_eq!(seen.mtime, ts(45));
    assert_eq!(seen.ctime, ts(45));
    assert_eq!(seen.crtime, ts(10));
    // readers never change the size, the writer does
    assert_eq!(seen.size, 8);
    // other inodes are not affected
    assert_eq!(t.fused_attr(file(8, 1)), file(8, 1));
}

#[test]
fn timestamps_observed_never_go_back() {
    let mut t = HandleTable::new();
    let stored = file(7, 5);
    let r = t.open(true, false, stored).unwrap();
    t.finish_read(r, ts(60));
    let first = t.fused_attr(stored);
    let rel = t.release(r).unwrap();
    let mut next = t.fused_attr(stored);
    encfs_core::attr::merge_attr(&mut next, &rel.read_update.unwrap().set_attr);
    let second = t.fused_attr(next);
    assert!(first.atime.le(&second.atime));
    assert_eq!(second.atime, ts(60));
}

#[test]
fn read_checks() {
    let mut t = HandleTable::new();
    let fh = t.open(true, false, file(7, 0)).unwrap();
    assert_eq!(t.check_read(7, None, fh), Err(FsError::InodeNotFound));
    assert_eq!(t.check_read(7, Some(FileType::Directory), fh), Err(FsError::InvalidInodeType));
    assert_eq!(t.check_read(8, Some(FileType::RegularFile), fh), Err(FsError::InvalidFileHandle));
    assert_eq!(t.check_read(7, Some(FileType::RegularFile), fh + 1), Err(FsError::InvalidFileHandle));
    assert_eq!(t.check_read(7, Some(FileType::RegularFile), fh), Ok(()));
}

#[test]
fn write_checks_and_clamping() {
    let mut t = HandleTable::new();
    let fh = t.open(false, true, file(7, 0)).unwrap();
    let reg = Some(FileType::RegularFile);
    assert_eq!(t.check_write(7, None, fh, 0, 1, 10), Err(FsError::InodeNotFound));
    assert_eq!(t.check_write(7, reg, fh + 1, 0, 1, 10), Err(FsError::InvalidFileHandle));
    assert_eq!(t.check_write(7, reg, fh, 0, 0, 10), Ok(0));
    assert_eq!(t.check_write(7, reg, fh, 11, 1, 10), Err(FsError::MaxFilesizeExceeded(10)));
    assert_eq!(t.check_write(7, reg, fh, 8, 5, 10), Ok(2));
    assert_eq!(t.check_write(7, reg, fh, 10, 5, 10), Ok(0));
    assert_eq!(t.check_write(7, reg, fh, 2, 5, 10), Ok(5));
}

#[test]
fn write_grows_size_only_forward() {
    let mut t = HandleTable::new();
    let fh = t.open(false, true, file(7, 10)).unwrap();
    t.finish_write(fh, 4, ts(20));
    assert_eq!(t.fused_attr(file(7, 10)).size, 10);
    t.finish_write(fh, 15, ts(21));
    assert_eq!(t.fused_attr(file(7, 10)).size, 15);
    t.set_write_size(fh, 3);
    assert_eq!(t.fused_attr(file(7, 10)).size, 3);
}

#[test]
fn flush_actions() {
    let mut t = HandleTable::new();
    let r = t.open(true, false, file(7, 0)).unwrap();
    let w = t.open(false, true, file(7, 0)).unwrap();
    assert_eq!(t.flush_action(0), Ok(false));
    assert_eq!(t.flush_action(r), Ok(false));
    assert_eq!(t.flush_action(w), Ok(true));
    assert_eq!(t.flush_action(99), Err(FsError::InvalidFileHandle));
}

#[test]
fn reset_skips_the_notifying_handle() {
    let mut t = HandleTable::new();
    let r1 = t.open(true, false, file(7, 0)).unwrap();
    let rw = t.open(true, true, file(7, 0)).unwrap();
    let _other = t.open(true, false, file(8, 0)).unwrap();
    let (readers, writer) = t.handles_to_reset(7, Some(rw));
    assert_eq!(readers, vec![r1]);
    assert_eq!(writer, None);
    let (readers, writer) = t.handles_to_reset(7, None);
    assert_eq!(readers.len(), 2);
    assert!(readers.contains(&r1) && readers.contains(&rw));
    assert_eq!(writer, Some(rw));
}

#[test]
fn rewind_decision() {
    assert!(needs_rewind(10, 5));
    assert!(!needs_rewind(5, 5));
    assert!(!needs_rewind(0, 0));
    assert!(needs_rewind(0, -1));
}

#[test]
fn context_operations_name_their_inode() {
    assert_eq!(ReadHandleContextOperation::Create { ino: 4 }.get_ino(), 4);
    assert_eq!(WriteHandleContextOperation::Create { ino: 6 }.get_ino(), 6);
    let _ = SetFileAttr::default();
}

#[test]
fn create_write_read_bookkeeping() {
    // create "hello.txt" opened for read and write, write 11 bytes, read them
    // back, release, open again for read
    let mut t = HandleTable::new();
    let stored = file(42, 0);
    let fh = t.open(true, true, stored).unwrap();
    let reg = Some(FileType::RegularFile);
    assert_eq!(t.check_write(42, reg, fh, 0, 11, 1 << 20), Ok(11));
    t.finish_write(fh, 11, ts(11));
    assert_eq!(t.check_read(42, reg, fh), Ok(()));
    t.finish_read(fh, ts(12));
    assert_eq!(t.fused_attr(stored).size, 11);
    let rel = t.release(fh).unwrap();
    let mut next = t.fused_attr(stored);
    encfs_core::attr::merge_attr(&mut next, &rel.read_update.unwrap().set_attr);
    let mut next2 = t.fused_attr(next);
    encfs_core::attr::merge_attr(&mut next2, &rel.write_update.unwrap().set_attr);
    assert_eq!(next2.size, 11);
    let again = t.open(true, false, next2).unwrap();
    assert_eq!(t.check_read(42, reg, again), Ok(()));
    assert_eq!(t.fused_attr(next2).size, 11);
}
