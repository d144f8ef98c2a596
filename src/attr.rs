use vstd::prelude::*;

use crate::time::{max_timestamp, ts_le, ts_max, Timestamp};

verus! {

/// The inode id of the root directory.
pub const ROOT_INODE: u64 = 1;

/// Kinds of node the filesystem stores.
#[derive(Clone, Copy, Debug, PartialEq, Eq, Structural, Hash)]
pub enum FileType {
    /// Directory (`S_IFDIR`)
    Directory,
    /// Regular file (`S_IFREG`)
    RegularFile,
}

/// File attributes.
#[derive(Clone, Copy, Debug, PartialEq, Eq, Structural)]
pub struct FileAttr {
    /// Inode number
    pub ino: u64,
    /// Size in bytes
    pub size: u64,
    /// Size in blocks
    pub blocks: u64,
    /// Time of last access
    pub atime: Timestamp,
    /// Time of last modification
    pub mtime: Timestamp,
    /// Time of last change
    pub ctime: Timestamp,
    /// Time of creation (macOS only)
    pub crtime: Timestamp,
    /// Kind of file (directory, file, pipe, etc.)
    pub kind: FileType,
    /// Permissions
    pub perm: u16,
    /// Number of hard links
    pub nlink: u32,
    /// User id
    pub uid: u32,
    /// Group id
    pub gid: u32,
    /// Rdev
    pub rdev: u32,
    /// Block size
    pub blksize: u32,
    /// Flags (macOS only, see chflags(2))
    pub flags: u32,
}

/// A sparse update of [`FileAttr`]: only the fields that are present apply.
#[derive(Clone, Copy, Debug, PartialEq, Eq, Structural)]
pub struct SetFileAttr {
    /// Size in bytes
    pub size: Option<u64>,
    /// Time of last access
    pub atime: Option<Timestamp>,
    /// Time of last modification
    pub mtime: Option<Timestamp>,
    /// Time of last change
    pub ctime: Option<Timestamp>,
    /// Time of creation (macOS only)
    pub crtime: Option<Timestamp>,
    /// Permissions
    pub perm: Option<u16>,
    /// User id
    pub uid: Option<u32>,
    /// Group id
    pub gid: Option<u32>,
    /// Rdev
    pub rdev: Option<u32>,
    /// Flags (macOS only, see chflags(2))
    pub flags: Option<u32>,
}

/// What the caller chooses when a node is created.
#[derive(Clone, Copy, Debug, PartialEq, Eq, Structural)]
pub struct CreateFileAttr {
    /// Kind of file (directory, file, pipe, etc.)
    pub kind: FileType,
    /// Permissions
    pub perm: u16,
    /// User id
    pub uid: u32,
    /// Group id
    pub gid: u32,
    /// Rdev
    pub rdev: u32,
    /// Flags (macOS only, see chflags(2))
    pub flags: u32,
}

/// An update to apply to the stored record of an inode.
#[derive(Clone, Copy, Debug, PartialEq, Eq, Structural)]
pub struct InodeUpdate {
    pub ino: u64,
    pub set_attr: SetFileAttr,
}

/// The timestamps and the size that an open handle keeps for its inode.
#[derive(Clone, Copy, Debug, PartialEq, Eq, Structural)]
pub struct TimeAndSizeFileAttr {
    pub atime: Timestamp,
    pub mtime: Timestamp,
    pub ctime: Timestamp,
    pub crtime: Timestamp,
    pub size: u64,
}

impl FileAttr {
    /// The invariants every stored attribute record satisfies.
    pub open spec fn wf(self) -> bool {
        &&& self.ino >= 1
        &&& self.ino == ROOT_INODE ==> self.kind == FileType::Directory
        &&& self.kind == FileType::Directory ==> self.nlink >= 2
    }

    /// The attribute record of a node created with `value`, with inode id
    /// `ino` and all four timestamps set to `now`.
    pub open spec fn spec_from_create(value: CreateFileAttr, ino: u64, now: Timestamp) -> FileAttr {
        FileAttr {
            ino,
            size: 0,
            blocks: 0,
            atime: now,
            mtime: now,
            ctime: now,
            crtime: now,
            kind: value.kind,
            perm: value.perm,
            nlink: if value.kind == FileType::Directory { 2 } else { 1 },
            uid: value.uid,
            gid: value.gid,
            rdev: value.rdev,
            blksize: 0,
            flags: value.flags,
        }
    }

    /// Builds the attribute record of a new node.
    pub fn from_create(value: CreateFileAttr, ino: u64, now: Timestamp) -> (r: FileAttr)
        ensures
            r == FileAttr::spec_from_create(value, ino, now),
            ino >= 1 && (ino == ROOT_INODE ==> value.kind == FileType::Directory) ==> r.wf(),
    {
        FileAttr {
            ino,
            size: 0,
            blocks: 0,
            atime: now,
            mtime: now,
            ctime: now,
            crtime: now,
            kind: value.kind,
            perm: value.perm,
            nlink: if value.kind == FileType::Directory {
                2
            } else {
                1
            },
            uid: value.uid,
            gid: value.gid,
            rdev: value.rdev,
            blksize: 0,
            flags: value.flags,
        }
    }
}

/// The update with no field present.
pub open spec fn empty_set_attr() -> SetFileAttr {
    SetFileAttr {
        size: None,
        atime: None,
        mtime: None,
        ctime: None,
        crtime: None,
        perm: None,
        uid: None,
        gid: None,
        rdev: None,
        flags: None,
    }
}

impl Default for SetFileAttr {
    fn default() -> (r: SetFileAttr)
        ensures
            r == empty_set_attr(),
    {
        SetFileAttr {
            size: None,
            atime: None,
            mtime: None,
            ctime: None,
            crtime: None,
            perm: None,
            uid: None,
            gid: None,
            rdev: None,
            flags: None,
        }
    }
}

impl SetFileAttr {
    pub fn with_size(self, size: u64) -> (r: Self)
        ensures
            r == (SetFileAttr { size: Some(size), ..self }),
    {
        SetFileAttr { size: Some(size), ..self }
    }

    pub fn with_atime(self, atime: Timestamp) -> (r: Self)
        ensures
            r == (SetFileAttr { atime: Some(atime), ..self }),
    {
        SetFileAttr { atime: Some(atime), ..self }
    }

    pub fn with_mtime(self, mtime: Timestamp) -> (r: Self)
        ensures
            r == (SetFileAttr { mtime: Some(mtime), ..self }),
    {
        SetFileAttr { mtime: Some(mtime), ..self }
    }

    pub fn with_ctime(self, ctime: Timestamp) -> (r: Self)
        ensures
            r == (SetFileAttr { ctime: Some(ctime), ..self }),
    {
        SetFileAttr { ctime: Some(ctime), ..self }
    }

    pub fn with_crtime(self, crtime: Timestamp) -> (r: Self)
        ensures
            r == (SetFileAttr { crtime: Some(crtime), ..self }),
    {
        SetFileAttr { crtime: Some(crtime), ..self }
    }

    pub fn with_perm(self, perm: u16) -> (r: Self)
        ensures
            r == (SetFileAttr { perm: Some(perm), ..self }),
    {
        SetFileAttr { perm: Some(perm), ..self }
    }

    pub fn with_uid(self, uid: u32) -> (r: Self)
        ensures
            r == (SetFileAttr { uid: Some(uid), ..self }),
    {
        SetFileAttr { uid: Some(uid), ..self }
    }

    pub fn with_gid(self, gid: u32) -> (r: Self)
        ensures
            r == (SetFileAttr { gid: Some(gid), ..self }),
    {
        SetFileAttr { gid: Some(gid), ..self }
    }

    pub fn with_rdev(self, rdev: u32) -> (r: Self)
        ensures
            r == (SetFileAttr { rdev: Some(rdev), ..self }),
    {
        SetFileAttr { rdev: Some(rdev), ..self }
    }

    pub fn with_flags(self, flags: u32) -> (r: Self)
        ensures
            r == (SetFileAttr { flags: Some(flags), ..self }),
    {
        SetFileAttr { flags: Some(flags), ..self }
    }
}

impl TimeAndSizeFileAttr {
    pub fn new(atime: Timestamp, mtime: Timestamp, ctime: Timestamp, crtime: Timestamp, size: u64) -> (r: Self)
        ensures
            r == (TimeAndSizeFileAttr { atime, mtime, ctime, crtime, size }),
    {
        TimeAndSizeFileAttr { atime, mtime, ctime, crtime, size }
    }

    /// The snapshot of `attr` that a handle keeps.
    pub open spec fn spec_of_attr(attr: FileAttr) -> TimeAndSizeFileAttr {
        TimeAndSizeFileAttr {
            atime: attr.atime,
            mtime: attr.mtime,
            ctime: attr.ctime,
            crtime: attr.crtime,
            size: attr.size,
        }
    }

    /// The update that writes the four timestamps and the size back.
    pub open spec fn spec_to_set_attr(self) -> SetFileAttr {
        SetFileAttr {
            atime: Some(self.atime),
            mtime: Some(self.mtime),
            ctime: Some(self.ctime),
            crtime: Some(self.crtime),
            size: Some(self.size),
            ..empty_set_attr()
        }
    }

    /// The update that writes the four timestamps back and leaves the size.
    pub open spec fn spec_to_time_set_attr(self) -> SetFileAttr {
        SetFileAttr { size: None, ..self.spec_to_set_attr() }
    }

    pub fn to_set_attr(&self) -> (r: SetFileAttr)
        ensures
            r == self.spec_to_set_attr(),
    {
        SetFileAttr::default().with_atime(self.atime).with_mtime(self.mtime).with_ctime(
            self.ctime,
        ).with_crtime(self.crtime).with_size(self.size)
    }

    pub fn to_time_set_attr(&self) -> (r: SetFileAttr)
        ensures
            r == self.spec_to_time_set_attr(),
    {
        let mut r = self.to_set_attr();
        r.size = None;
        r
    }
}

impl From<FileAttr> for TimeAndSizeFileAttr {
    fn from(value: FileAttr) -> (r: TimeAndSizeFileAttr) {
        TimeAndSizeFileAttr {
            atime: value.atime,
            mtime: value.mtime,
            ctime: value.ctime,
            crtime: value.crtime,
            size: value.size,
        }
    }
}

impl vstd::std_specs::convert::FromSpecImpl<FileAttr> for TimeAndSizeFileAttr {
    open spec fn obeys_from_spec() -> bool {
        true
    }

    open spec fn from_spec(v: FileAttr) -> TimeAndSizeFileAttr {
        TimeAndSizeFileAttr::spec_of_attr(v)
    }
}

impl From<TimeAndSizeFileAttr> for SetFileAttr {
    fn from(value: TimeAndSizeFileAttr) -> (r: SetFileAttr) {
        value.to_set_attr()
    }
}

impl vstd::std_specs::convert::FromSpecImpl<TimeAndSizeFileAttr> for SetFileAttr {
    open spec fn obeys_from_spec() -> bool {
        true
    }

    open spec fn from_spec(v: TimeAndSizeFileAttr) -> SetFileAttr {
        v.spec_to_set_attr()
    }
}

/// `new` merged into `old`: the later timestamp where `new` has one.
pub open spec fn merge_time(old: Timestamp, new: Option<Timestamp>) -> Timestamp {
    match new {
        Some(t) => ts_max(t, old),
        None => old,
    }
}

/// `new` overwriting `old` where it is present.
pub open spec fn overwrite<T>(old: T, new: Option<T>) -> T {
    match new {
        Some(v) => v,
        None => old,
    }
}

/// The result of applying the update `s` to `attr`: timestamps take the
/// later of old and new, size, permissions, owner, group and flags are
/// overwritten, everything else stays.
pub open spec fn merged(attr: FileAttr, s: SetFileAttr) -> FileAttr {
    FileAttr {
        size: overwrite(attr.size, s.size),
        atime: merge_time(attr.atime, s.atime),
        mtime: merge_time(attr.mtime, s.mtime),
        ctime: merge_time(attr.ctime, s.ctime),
        crtime: merge_time(attr.crtime, s.crtime),
        perm: overwrite(attr.perm, s.perm),
        uid: overwrite(attr.uid, s.uid),
        gid: overwrite(attr.gid, s.gid),
        flags: overwrite(attr.flags, s.flags),
        ..attr
    }
}

/// Each timestamp of `b` is no earlier than the same timestamp of `a`.
pub open spec fn times_le(a: FileAttr, b: FileAttr) -> bool {
    &&& ts_le(a.atime, b.atime)
    &&& ts_le(a.mtime, b.mtime)
    &&& ts_le(a.ctime, b.ctime)
    &&& ts_le(a.crtime, b.crtime)
}

/// Applies the update `set_attr` to `attr`.
pub fn merge_attr(attr: &mut FileAttr, set_attr: &SetFileAttr)
    ensures
        *final(attr) == merged(*old(attr), *set_attr),
        times_le(*old(attr), *final(attr)),
{
    if let Some(size) = set_attr.size {
        attr.size = size;
    }
    if let Some(atime) = set_attr.atime {
        attr.atime = max_timestamp(atime, attr.atime);
    }
    if let Some(mtime) = set_attr.mtime {
        attr.mtime = max_timestamp(mtime, attr.mtime);
    }
    if let Some(ctime) = set_attr.ctime {
        attr.ctime = max_timestamp(ctime, attr.ctime);
    }
    if let Some(crtime) = set_attr.crtime {
        attr.crtime = max_timestamp(crtime, attr.crtime);
    }
    if let Some(perm) = set_attr.perm {
        attr.perm = perm;
    }
    if let Some(uid) = set_attr.uid {
        attr.uid = uid;
    }
    if let Some(gid) = set_attr.gid {
        attr.gid = gid;
    }
    if let Some(flags) = set_attr.flags {
        attr.flags = flags;
    }
}

/// Merging an update never moves a timestamp back, and a present timestamp
/// of the update is reached.
pub proof fn lemma_merge_monotone(attr: FileAttr, s: SetFileAttr)
    ensures
        times_le(attr, merged(attr, s)),
        s.atime is Some ==> ts_le(s.atime->0, merged(attr, s).atime),
        s.mtime is Some ==> ts_le(s.mtime->0, merged(attr, s).mtime),
        s.ctime is Some ==> ts_le(s.ctime->0, merged(attr, s).ctime),
        s.crtime is Some ==> ts_le(s.crtime->0, merged(attr, s).crtime),
{
}

} // verus!
