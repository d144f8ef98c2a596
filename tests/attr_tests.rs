use encfs_core::attr::{
    merge_attr, CreateFileAttr, FileAttr, FileType, SetFileAttr, TimeAndSizeFileAttr,
};
use encfs_core::time::{max_timestamp, Timestamp};

fn ts(secs: u64) -> Timestamp {
    Timestamp::new(secs, 0)
}

fn sample(ino: u64) -> FileAttr {
    let create = CreateFileAttr {
        kind: FileType::RegularFile,
        perm: 0o644,
        uid: 10,
        gid: 20,
        rdev: 0,
        flags: 0,
    };
    FileAttr::from_create(create, ino, ts(100))
}

#[test]
fn from_create_sets_links_and_times() {
    let file = sample(5);
    assert_eq!(file.ino, 5);
    assert_eq!(file.size, 0);
    assert_eq!(file.nlink, 1);
    assert_eq!(file.atime, ts(100));
    assert_eq!(file.crtime, ts(100));
    let dir = FileAttr::from_create(
        CreateFileAttr { kind: FileType::Directory, perm: 0o755, uid: 0, gid: 0, rdev: 0, flags: 0 },
        1,
        ts(7),
    );
    assert_eq!(dir.nlink, 2);
    assert_eq!(dir.kind, FileType::Directory);
}

#[test]
fn merge_takes_later_times_and_overwrites_rest() {
    let mut attr = sample(5);
    let set = SetFileAttr::default()
        .with_atime(ts(50))
        .with_mtime(ts(200))
        .with_size(42)
        .with_perm(0o600)
        .with_uid(1)
        .with_gid(2)
        .with_flags(9)
        .with_rdev(77);
    merge_attr(&mut attr, &set);
    // an earlier access time does not move the record back
    assert_eq!(attr.atime, ts(100));
    assert_eq!(attr.mtime, ts(200));
    assert_eq!(attr.ctime, ts(100));
    assert_eq!(attr.size, 42);
    assert_eq!(attr.perm, 0o600);
    assert_eq!(attr.uid, 1);
    assert_eq!(attr.gid, 2);
    assert_eq!(attr.flags, 9);
    // rdev is not merged
    assert_eq!(attr.rdev, 0);
}

#[test]
fn merge_of_empty_update_changes_nothing() {
    let mut attr = sample(3);
    let before = attr;
    merge_attr(&mut attr, &SetFileAttr::default());
    assert_eq!(attr, before);
}

#[test]
fn with_flags_sets_flags_not_rdev() {
    let set = SetFileAttr::default().with_flags(4);
    assert_eq!(set.flags, Some(4));
    assert_eq!(set.rdev, None);
}

#[test]
fn builders_set_each_field() {
    let set = SetFileAttr::default()
        .with_size(1)
        .with_atime(ts(2))
        .with_mtime(ts(3))
        .with_ctime(ts(4))
        .with_crtime(ts(5))
        .with_perm(6)
        .with_uid(7)
        .with_gid(8)
        .with_rdev(9)
        .with_flags(10);
    assert_eq!(set.size, Some(1));
    assert_eq!(set.atime, Some(ts(2)));
    assert_eq!(set.mtime, Some(ts(3)));
    assert_eq!(set.ctime, Some(ts(4)));
    assert_eq!(set.crtime, Some(ts(5)));
    assert_eq!(set.perm, Some(6));
    assert_eq!(set.uid, Some(7));
    assert_eq!(set.gid, Some(8));
    assert_eq!(set.rdev, Some(9));
    assert_eq!(set.flags, Some(10));
}

#[test]
fn snapshot_round_trips_through_set_attr() {
    let snap = TimeAndSizeFileAttr::new(ts(1), ts(2), ts(3), ts(4), 99);
    let set: SetFileAttr = snap.into();
    assert_eq!(set.atime, Some(ts(1)));
    assert_eq!(set.crtime, Some(ts(4)));
    assert_eq!(set.size, Some(99));
    assert_eq!(snap.to_time_set_attr().size, None);
    let from_attr: TimeAndSizeFileAttr = sample(8).into();
    assert_eq!(from_attr.size, 0);
    assert_eq!(from_attr.mtime, ts(100));
}

#[test]
fn timestamps_order_by_seconds_then_nanos() {
    let a = Timestamp::new(5, 900);
    let b = Timestamp::new(6, 1);
    assert!(a.le(&b));
    assert!(!b.le(&a));
    assert_eq!(max_timestamp(a, b), b);
    assert_eq!(max_timestamp(Timestamp::new(6, 2), b), Timestamp::new(6, 2));
}
