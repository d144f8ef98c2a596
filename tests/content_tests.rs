use encfs_core::attr::{merge_attr, CreateFileAttr, FileAttr, FileType};
use encfs_core::content::{
    apply_truncate, apply_write, drain_step, plan_truncate, read_into, size_after_content_change,
    truncate_update, DrainStep, TruncatePlan,
};
use encfs_core::error::FsError;
use encfs_core::time::Timestamp;

fn file(size: u64) -> FileAttr {
    let mut attr = FileAttr::from_create(
        CreateFileAttr { kind: FileType::RegularFile, perm: 0o644, uid: 0, gid: 0, rdev: 0, flags: 0 },
        9,
        Timestamp::new(1, 0),
    );
    attr.size = size;
    attr
}

#[test]
fn truncate_extend_copies_then_fills_zeros() {
    // a file of size 3 holding "abc" truncated to 6: copy 3 bytes, add 3 zeros
    assert_eq!(
        plan_truncate(FileType::RegularFile, 3, 6),
        Ok(TruncatePlan::CopyThenFill { copy_len: 3, zeros: 3 })
    );
    let mut attr = file(3);
    merge_attr(&mut attr, &truncate_update(6, Timestamp::new(5, 0)));
    assert_eq!(attr.size, 6);
    assert_eq!(attr.mtime, Timestamp::new(5, 0));
    assert_eq!(attr.ctime, Timestamp::new(5, 0));
}

#[test]
fn truncate_shrink_and_zero() {
    assert_eq!(
        plan_truncate(FileType::RegularFile, 10, 4),
        Ok(TruncatePlan::CopyThenFill { copy_len: 4, zeros: 0 })
    );
    assert_eq!(plan_truncate(FileType::RegularFile, 10, 0), Ok(TruncatePlan::Recreate));
    assert_eq!(plan_truncate(FileType::RegularFile, 10, 10), Ok(TruncatePlan::NoOp));
    assert_eq!(plan_truncate(FileType::Directory, 10, 4), Err(FsError::InvalidInodeType));
}

#[test]
fn truncate_twice_is_truncate_once() {
    let mut attr = file(3);
    assert_ne!(plan_truncate(attr.kind, attr.size, 8), Ok(TruncatePlan::NoOp));
    merge_attr(&mut attr, &truncate_update(8, Timestamp::new(2, 0)));
    assert_eq!(plan_truncate(attr.kind, attr.size, 8), Ok(TruncatePlan::NoOp));
}

#[test]
fn content_change_grows_record_only_past_its_size() {
    let attr = file(10);
    assert_eq!(size_after_content_change(attr, 4), None);
    assert_eq!(size_after_content_change(attr, 10), None);
    assert_eq!(size_after_content_change(attr, 12).unwrap().size, 12);
}

#[test]
fn drain_steps() {
    assert_eq!(drain_step(10, 0, 10), DrainStep::Done);
    assert_eq!(drain_step(10, 0, 4), DrainStep::Continue(4));
    assert_eq!(drain_step(10, 4, 0), DrainStep::Stalled);
    assert_eq!(drain_step(0, 0, 0), DrainStep::Done);
}

#[test]
fn write_then_read_round_trips() {
    let mut data = Vec::new();
    apply_write(&mut data, 0, b"hello world");
    let mut buf = [0u8; 11];
    assert_eq!(read_into(&data, 0, &mut buf), 11);
    assert_eq!(&buf, b"hello world");
}

#[test]
fn write_past_end_fills_zeros() {
    let mut data = b"ab".to_vec();
    apply_write(&mut data, 4, b"cd");
    assert_eq!(data, b"ab\0\0cd".to_vec());
    apply_write(&mut data, 1, b"XY");
    assert_eq!(data, b"aXY\0cd".to_vec());
    apply_write(&mut data, 6, b"");
    assert_eq!(data, b"aXY\0cd".to_vec());
}

#[test]
fn reads_stop_at_the_end() {
    let data = b"abcdef".to_vec();
    let mut buf = [9u8; 4];
    assert_eq!(read_into(&data, 4, &mut buf), 2);
    assert_eq!(buf, [b'e', b'f', 9, 9]);
    assert_eq!(read_into(&data, 6, &mut buf), 0);
    assert_eq!(read_into(&data, 100, &mut buf), 0);
    let mut empty: [u8; 0] = [];
    assert_eq!(read_into(&data, 0, &mut empty), 0);
}

#[test]
fn truncate_extend_reads_back_zeros() {
    // "abc" truncated to 6 reads back as "abc" and three zeros
    let mut data = b"abc".to_vec();
    match plan_truncate(FileType::RegularFile, 3, 6) {
        Ok(TruncatePlan::CopyThenFill { copy_len, zeros }) => apply_truncate(&mut data, copy_len, zeros),
        other => panic!("unexpected plan {:?}", other),
    }
    let mut buf = [1u8; 6];
    assert_eq!(read_into(&data, 0, &mut buf), 6);
    assert_eq!(&buf, b"abc\0\0\0");
}

#[test]
fn truncate_shrink_keeps_prefix() {
    let mut data = b"abcdef".to_vec();
    apply_truncate(&mut data, 2, 0);
    assert_eq!(data, b"ab".to_vec());
}
