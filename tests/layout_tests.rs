use encfs_core::attr::{CreateFileAttr, FileAttr, FileType};
use encfs_core::time::Timestamp;
use encfs_core::cache::AttrCache;
use encfs_core::error::FsError;
use encfs_core::layout::{
    check_structure, contents_path, entry_artifacts, hash_artifact_name, hash_artifact_path,
    hash_dir_path, inode_path, key_enc_path, key_salt_path, ls_artifact_path, ls_dir_path,
    synthetic_logical_name,
};
use encfs_core::vault::{
    key_or_invalid_password, plan_key_setup, require_password, still_fresh, SALT_LEN,
};

#[test]
fn artifact_paths() {
    assert_eq!(inode_path(42), "inodes/42");
    assert_eq!(inode_path(u64::MAX), "inodes/18446744073709551615");
    assert_eq!(contents_path(1), "contents/1");
    assert_eq!(ls_dir_path(7), "contents/7/ls");
    assert_eq!(hash_dir_path(7), "contents/7/hash");
    assert_eq!(ls_artifact_path(7, "$."), "contents/7/ls/$.");
    assert_eq!(hash_artifact_path(7, &[0xab, 0x01]), "contents/7/hash/ab01");
    assert_eq!(key_enc_path(), "security/key.enc");
    assert_eq!(key_salt_path(), "security/key.salt");
}

#[test]
fn hash_names_are_lower_hex() {
    assert_eq!(hash_artifact_name(&[0x00, 0xff, 0x10, 0x9c]), "00ff109c");
    assert_eq!(hash_artifact_name(&[]), "");
}

#[test]
fn distinct_hashes_have_distinct_entries() {
    assert_ne!(hash_artifact_path(7, &[1, 2]), hash_artifact_path(7, &[1, 3]));
    assert_ne!(hash_artifact_path(7, &[0x12]), hash_artifact_path(7, &[0x01, 0x02]));
    assert_eq!(hash_artifact_path(7, &[0x12]), hash_artifact_path(7, &[0x12]));
}

#[test]
fn synthetic_names() {
    assert_eq!(synthetic_logical_name("$."), Some("."));
    assert_eq!(synthetic_logical_name("$.."), Some(".."));
    assert_eq!(synthetic_logical_name("abc"), None);
    assert_eq!(synthetic_logical_name("$..."), None);
}

#[test]
fn entry_artifacts_are_coherent() {
    let a = entry_artifacts(12, FileType::Directory, "ZW5j", &[1, 2]);
    assert_eq!(a.ls.name, "ZW5j");
    assert_eq!(a.hash.name, "0102");
    assert_eq!(a.hash.encrypted_name, a.ls.name);
    assert_eq!((a.hash.ino, a.hash.kind), (a.ls.ino, a.ls.kind));
}

fn names(v: &[&str]) -> Vec<String> {
    v.iter().map(|s| s.to_string()).collect()
}

#[test]
fn structure_checks() {
    let full = names(&["security", "inodes", "contents"]);
    assert_eq!(check_structure(true, &full, false, true, true), Ok(()));
    assert_eq!(check_structure(true, &full, false, false, true), Err(FsError::InvalidDataDirStructure));
    assert_eq!(check_structure(true, &full, false, true, false), Err(FsError::InvalidDataDirStructure));
    assert_eq!(check_structure(false, &full, false, true, true), Err(FsError::InvalidDataDirStructure));
    assert_eq!(check_structure(true, &vec![], true, false, false), Ok(()));
    assert_eq!(check_structure(true, &vec![], false, false, false), Err(FsError::InvalidDataDirStructure));
    let extra = names(&["security", "inodes", "contents", "x"]);
    assert_eq!(check_structure(true, &extra, false, true, true), Err(FsError::InvalidDataDirStructure));
    let wrong = names(&["security", "inodes", "other"]);
    assert_eq!(check_structure(true, &wrong, false, true, true), Err(FsError::InvalidDataDirStructure));
}

#[test]
fn attr_cache_keeps_and_evicts() {
    let mut cache = AttrCache::new();
    let create = CreateFileAttr { kind: FileType::RegularFile, perm: 0, uid: 0, gid: 0, rdev: 0, flags: 0 };
    assert_eq!(cache.lookup(3), None);
    let a = FileAttr::from_create(create, 3, Timestamp::new(1, 0));
    cache.store(a);
    assert_eq!(cache.lookup(3), Some(a));
    let mut b = a;
    b.size = 10;
    cache.store(b);
    assert_eq!(cache.lookup(3), Some(b));
    cache.demote(3);
    assert_eq!(cache.lookup(3), Some(b));
    for ino in 100..2100u64 {
        cache.store(FileAttr::from_create(create, ino, Timestamp::new(1, 0)));
    }
    // the cache holds 2000 records: the oldest one left
    assert_eq!(cache.lookup(3), None);
    assert!(cache.lookup(2099).is_some());
}

#[test]
fn key_setup() {
    assert_eq!(SALT_LEN, 16);
    let fresh = plan_key_setup(false, false);
    assert!(fresh.new_salt && fresh.new_key);
    let existing = plan_key_setup(true, true);
    assert!(!existing.new_salt && !existing.new_key);
    assert_eq!(require_password(None), Err(FsError::InvalidPassword));
    assert_eq!(require_password(Some("p".to_string())), Ok("p".to_string()));
    assert_eq!(key_or_invalid_password::<()>(Err(())), Err(FsError::InvalidPassword));
    assert_eq!(key_or_invalid_password::<()>(Ok(vec![1, 2])), Ok(vec![1, 2]));
}

#[test]
fn key_expires_after_ten_idle_minutes() {
    assert!(still_fresh(0));
    assert!(still_fresh(599));
    assert!(!still_fresh(600));
}

#[test]
fn demoted_record_is_evicted_first() {
    let create = CreateFileAttr { kind: FileType::RegularFile, perm: 0, uid: 0, gid: 0, rdev: 0, flags: 0 };
    let mut cache = AttrCache::new();
    cache.store(FileAttr::from_create(create, 3, Timestamp::new(1, 0)));
    cache.store(FileAttr::from_create(create, 4, Timestamp::new(1, 0)));
    cache.demote(4);
    // 1998 more records fill the cache without evicting anything
    for ino in 1000..2998u64 {
        cache.store(FileAttr::from_create(create, ino, Timestamp::new(1, 0)));
    }
    assert!(cache.lookup(4).is_some());
    cache.demote(4);
    // one more evicts the demoted record, not the older one
    cache.store(FileAttr::from_create(create, 5000, Timestamp::new(1, 0)));
    assert_eq!(cache.lookup(4), None);
    assert!(cache.lookup(3).is_some());
    assert!(cache.lookup(5000).is_some());
}
