use std::collections::HashMap;

use vstd::prelude::*;

use crate::attr::{merged, FileAttr, FileType, InodeUpdate, TimeAndSizeFileAttr};
use crate::error::FsError;
use crate::time::Timestamp;

verus! {

broadcast use vstd::std_specs::hash::group_hash_axioms;

/// What an open handle keeps: the inode it is bound to and the timestamps
/// and size it has seen or changed since it was opened.
#[derive(Clone, Copy, Debug, PartialEq, Eq, Structural)]
pub struct HandleContext {
    pub ino: u64,
    pub attr: TimeAndSizeFileAttr,
}

/// The request to create a read context.
pub enum ReadHandleContextOperation {
    Create { ino: u64 },
}

impl ReadHandleContextOperation {
    pub fn get_ino(&self) -> (r: u64)
        ensures
            r == match *self {
                ReadHandleContextOperation::Create { ino } => ino,
            },
    {
        match *self {
            ReadHandleContextOperation::Create { ino } => ino,
        }
    }
}

/// The request to create a write context.
pub enum WriteHandleContextOperation {
    Create { ino: u64 },
}

impl WriteHandleContextOperation {
    pub fn get_ino(&self) -> (r: u64)
        ensures
            r == match *self {
                WriteHandleContextOperation::Create { ino } => ino,
            },
    {
        match *self {
            WriteHandleContextOperation::Create { ino } => ino,
        }
    }
}

/// Open read and write handles, and for each inode which handles are open
/// on it. Handles are drawn from a counter that starts at 1; 0 means "no
/// handle".
pub struct HandleTable {
    read_handles: HashMap<u64, HandleContext>,
    write_handles: HashMap<u64, HandleContext>,
    /// For each inode, its read handles, each once, in the order they were
    /// opened (a list, so that merging their timestamps walks it by index).
    opened_files_for_read: HashMap<u64, Vec<u64>>,
    /// For each inode, its one write handle.
    opened_files_for_write: HashMap<u64, u64>,
    current_handle: u64,
}

/// The abstract state of a [`HandleTable`].
pub struct HandleTableView {
    /// Read contexts by handle.
    pub read: Map<u64, HandleContext>,
    /// Write contexts by handle.
    pub write: Map<u64, HandleContext>,
    /// For each inode with open read handles, those handles in the order
    /// they were opened.
    pub readers: Map<u64, Seq<u64>>,
    /// For each inode with an open write handle, that handle.
    pub writer: Map<u64, u64>,
    /// The next handle to hand out.
    pub next: u64,
}

impl HandleTableView {
    /// The table's invariant: handles are below the counter and never 0;
    /// each read handle is listed, once, under its inode and nowhere else;
    /// each inode has at most one write handle, which the writer index
    /// names.
    pub open spec fn wf(self) -> bool {
        &&& self.next >= 1
        &&& forall|fh: u64| #[trigger]
            self.read.contains_key(fh) ==> {
                &&& 1 <= fh < self.next
                &&& self.readers.contains_key(self.read[fh].ino)
                &&& self.readers[self.read[fh].ino].contains(fh)
            }
        &&& forall|ino: u64| #[trigger]
            self.readers.contains_key(ino) ==> {
                &&& self.readers[ino].len() > 0
                &&& self.readers[ino].no_duplicates()
                &&& forall|i: int|
                    0 <= i < self.readers[ino].len() ==> self.read.contains_key(
                        #[trigger] self.readers[ino][i],
                    ) && self.read[self.readers[ino][i]].ino == ino
            }
        &&& forall|fh: u64| #[trigger]
            self.write.contains_key(fh) ==> {
                &&& 1 <= fh < self.next
                &&& self.writer.contains_key(self.write[fh].ino)
                &&& self.writer[self.write[fh].ino] == fh
            }
        &&& forall|ino: u64| #[trigger]
            self.writer.contains_key(ino) ==> self.write.contains_key(self.writer[ino])
                && self.write[self.writer[ino]].ino == ino
    }

    /// `fh` is an open read handle bound to `ino`.
    pub open spec fn reads(self, fh: u64, ino: u64) -> bool {
        self.read.contains_key(fh) && self.read[fh].ino == ino
    }

    /// `fh` is an open write handle bound to `ino`.
    pub open spec fn writes(self, fh: u64, ino: u64) -> bool {
        self.write.contains_key(fh) && self.write[fh].ino == ino
    }

    /// Some write handle is open on `ino`.
    pub open spec fn has_writer(self, ino: u64) -> bool {
        exists|fh: u64| self.writes(fh, ino)
    }
}

/// `attr` with the timestamps of the read contexts `fhs` merged in, in
/// order; a reader's size is never merged.
pub open spec fn fold_reads(read: Map<u64, HandleContext>, attr: FileAttr, fhs: Seq<u64>) -> FileAttr
    decreases fhs.len(),
{
    if fhs.len() == 0 {
        attr
    } else {
        merged(
            fold_reads(read, attr, fhs.drop_last()),
            read[fhs.last()].attr.spec_to_time_set_attr(),
        )
    }
}

impl HandleTableView {
    /// The attributes of `stored.ino` as callers observe them: the stored
    /// record with the timestamps of every open read handle merged in, then
    /// the timestamps and the size of the open write handle.
    pub open spec fn fused(self, stored: FileAttr) -> FileAttr {
        let with_reads = if self.readers.contains_key(stored.ino) {
            fold_reads(self.read, stored, self.readers[stored.ino])
        } else {
            stored
        };
        if self.writer.contains_key(stored.ino) {
            merged(with_reads, self.write[self.writer[stored.ino]].attr.spec_to_set_attr())
        } else {
            with_reads
        }
    }

    /// Whether `open` succeeds on these arguments.
    pub open spec fn can_open(self, read: bool, write: bool, stored: FileAttr) -> bool {
        &&& read || write
        &&& stored.kind != FileType::Directory
        &&& !(write && self.has_writer(stored.ino))
        &&& self.next < u64::MAX
    }
}

/// What `release` leaves to apply to the stored records.
#[derive(Clone, Copy, Debug, PartialEq, Eq, Structural)]
pub struct Released {
    /// The timestamps a read context collected, without its size.
    pub read_update: Option<InodeUpdate>,
    /// The timestamps and the size a write context collected.
    pub write_update: Option<InodeUpdate>,
}

/// The index of `x` in `v`.
fn position_of(v: &Vec<u64>, x: u64) -> (i: usize)
    requires
        v@.contains(x),
    ensures
        i < v@.len(),
        v@[i as int] == x,
{
    let mut i: usize = 0;
    while i < v.len()
        invariant
            v@.contains(x),
            i <= v@.len(),
            forall|k: int| 0 <= k < i ==> v@[k] != x,
        decreases v@.len() - i,
    {
        if v[i] == x {
            return i;
        }
        i = i + 1;
    }
    i
}

/// Removing the read handle at index `idx` of its inode's list keeps the
/// table well formed.
proof fn lemma_remove_reader(
    before: HandleTableView,
    after: HandleTableView,
    fh: u64,
    ino: u64,
    idx: int,
)
    requires
        before.wf(),
        before.read.contains_key(fh),
        before.read[fh].ino == ino,
        before.readers.contains_key(ino),
        0 <= idx < before.readers[ino].len(),
        before.readers[ino][idx] == fh,
        after.read == before.read.remove(fh),
        after.readers == if before.readers[ino].len() == 1 {
            before.readers.remove(ino)
        } else {
            before.readers.insert(ino, before.readers[ino].remove(idx))
        },
        after.write == before.write,
        after.writer == before.writer,
        after.next == before.next,
    ensures
        after.wf(),
{
    let s = before.readers[ino];
    let t = s.remove(idx);
    s.remove_ensures(idx);
    assert(t.no_duplicates()) by {
        assert forall|a: int, b: int| 0 <= a < t.len() && 0 <= b < t.len() && a != b implies t[a]
            != t[b] by {
            let a2 = if a < idx { a } else { a + 1 };
            let b2 = if b < idx { b } else { b + 1 };
            assert(t[a] == s[a2] && t[b] == s[b2]);
        }
    }
    assert forall|k: int| 0 <= k < t.len() implies t[k] != fh by {
        let k2 = if k < idx { k } else { k + 1 };
        assert(t[k] == s[k2]);
    }
    assert forall|f: u64| #[trigger] after.read.contains_key(f) implies {
        &&& 1 <= f < after.next
        &&& after.readers.contains_key(after.read[f].ino)
        &&& after.readers[after.read[f].ino].contains(f)
    } by {
        assert(before.read.contains_key(f) && f != fh);
        if before.read[f].ino == ino {
            let k = choose|k: int| 0 <= k < s.len() && s[k] == f;
            assert(k != idx);
            let k2 = if k < idx { k } else { k - 1 };
            assert(t[k2] == f);
            assert(s.len() != 1);
        }
    }
    assert forall|i: u64| #[trigger] after.readers.contains_key(i) implies {
        &&& after.readers[i].len() > 0
        &&& after.readers[i].no_duplicates()
        &&& forall|k: int|
            0 <= k < after.readers[i].len() ==> after.read.contains_key(#[trigger] after.readers[i][k])
                && after.read[after.readers[i][k]].ino == i
    } by {
        if i == ino {
            assert forall|k: int| 0 <= k < after.readers[i].len() implies after.read.contains_key(
                #[trigger] after.readers[i][k],
            ) && after.read[after.readers[i][k]].ino == i by {
                let k2 = if k < idx { k } else { k + 1 };
                assert(t[k] == s[k2]);
            }
        } else {
            assert forall|k: int| 0 <= k < after.readers[i].len() implies after.read.contains_key(
                #[trigger] after.readers[i][k],
            ) && after.read[after.readers[i][k]].ino == i by {
                assert(before.read.contains_key(before.readers[i][k]));
            }
        }
    }
}

/// The outcome of the checks of `read`: the node must exist, be a regular
/// file, and `fh` must be a read handle bound to it.
pub open spec fn spec_check_read(v: HandleTableView, ino: u64, node: Option<FileType>, fh: u64) -> Result<(), FsError> {
    match node {
        None => Err(FsError::InodeNotFound),
        Some(FileType::Directory) => Err(FsError::InvalidInodeType),
        Some(FileType::RegularFile) => if v.reads(fh, ino) {
            Ok(())
        } else {
            Err(FsError::InvalidFileHandle)
        },
    }
}

/// How many bytes of a `len`-byte write at `offset` fit below `max_len`.
pub open spec fn spec_write_len(offset: u64, len: usize, max_len: usize) -> int {
    if offset + len > max_len {
        max_len - offset
    } else {
        len as int
    }
}

/// The outcome of the checks of `write`: how many bytes to write, or why
/// none may be written.
pub open spec fn spec_check_write(
    v: HandleTableView,
    ino: u64,
    node: Option<FileType>,
    fh: u64,
    offset: u64,
    len: usize,
    max_len: usize,
) -> Result<usize, FsError> {
    match node {
        None => Err(FsError::InodeNotFound),
        Some(FileType::Directory) => Err(FsError::InvalidInodeType),
        Some(FileType::RegularFile) => if !v.writes(fh, ino) {
            Err(FsError::InvalidFileHandle)
        } else if len == 0 {
            Ok(0)
        } else if offset > max_len {
            Err(FsError::MaxFilesizeExceeded(max_len))
        } else {
            Ok(spec_write_len(offset, len, max_len) as usize)
        },
    }
}

/// Replacing what a write context holds, with its inode kept, keeps the
/// table well formed.
proof fn lemma_write_ctx_replaced(before: HandleTableView, after: HandleTableView, fh: u64)
    requires
        before.wf(),
        before.write.contains_key(fh),
        after.write.contains_key(fh),
        after.write[fh].ino == before.write[fh].ino,
        after.write == before.write.insert(fh, after.write[fh]),
        after.read == before.read,
        after.readers == before.readers,
        after.writer == before.writer,
        after.next == before.next,
    ensures
        after.wf(),
{
    assert(after.write.dom() =~= before.write.dom());
    assert forall|f: u64| #[trigger] after.write.contains_key(f) implies {
        &&& 1 <= f < after.next
        &&& after.writer.contains_key(after.write[f].ino)
        &&& after.writer[after.write[f].ino] == f
    } by {
        assert(before.write.contains_key(f));
    }
}

/// A reader whose stream stands past `changed_from` must be rewound: what
/// it would read next may have been rewritten.
pub open spec fn spec_needs_rewind(stream_pos: u64, changed_from: i64) -> bool {
    stream_pos > changed_from
}

/// Whether a reader at `stream_pos` must be rewound after the content
/// changed from `changed_from` on.
pub fn needs_rewind(stream_pos: u64, changed_from: i64) -> (r: bool)
    ensures
        r == spec_needs_rewind(stream_pos, changed_from),
{
    changed_from < 0 || stream_pos > changed_from as u64
}

impl View for HandleTable {
    type V = HandleTableView;

    closed spec fn view(&self) -> HandleTableView {
        HandleTableView {
            read: self.read_handles@,
            write: self.write_handles@,
            readers: self.opened_files_for_read@.map_values(|v: Vec<u64>| v@),
            writer: self.opened_files_for_write@,
            next: self.current_handle,
        }
    }
}

impl HandleTable {
    pub open spec fn inv(&self) -> bool {
        self@.wf()
    }

    /// An empty table whose first handle will be 1.
    pub fn new() -> (r: HandleTable)
        ensures
            r.inv(),
            r@.read.is_empty(),
            r@.write.is_empty(),
            r@.next == 1,
    {
        let r = HandleTable {
            read_handles: HashMap::new(),
            write_handles: HashMap::new(),
            opened_files_for_read: HashMap::new(),
            opened_files_for_write: HashMap::new(),
            current_handle: 1,
        };
        assert(r@.readers =~= Map::empty());
        r
    }

    /// Whether `fh` is an open read handle.
    pub fn is_read_handle(&self, fh: u64) -> (r: bool)
        ensures
            r == self@.read.contains_key(fh),
    {
        self.read_handles.contains_key(&fh)
    }

    /// Whether `fh` is an open write handle.
    pub fn is_write_handle(&self, fh: u64) -> (r: bool)
        ensures
            r == self@.write.contains_key(fh),
    {
        self.write_handles.contains_key(&fh)
    }

    /// The attributes of `stored.ino` as callers observe them, given its
    /// stored record: see [`HandleTableView::fused`].
    pub fn fused_attr(&self, stored: FileAttr) -> (r: FileAttr)
        requires
            self.inv(),
        ensures
            r == self@.fused(stored),
    {
        let ino = stored.ino;
        let mut attr = stored;
        match self.opened_files_for_read.get(&ino) {
            Some(fhs) => {
                assert(self@.readers.contains_key(ino) && self@.readers[ino] == fhs@);
                let n = fhs.len();
                let mut i: usize = 0;
                while i < n
                    invariant
                        self.inv(),
                        self@.readers.contains_key(ino),
                        self@.readers[ino] == fhs@,
                        n == fhs@.len(),
                        0 <= i <= n,
                        attr == fold_reads(self@.read, stored, fhs@.subrange(0, i as int)),
                    decreases n - i,
                {
                    let fh = fhs[i];
                    assert(self@.read.contains_key(self@.readers[ino][i as int]));
                    let ctx = self.read_handles.get(&fh).unwrap();
                    let upd = ctx.attr.to_time_set_attr();
                    crate::attr::merge_attr(&mut attr, &upd);
                    assert(fhs@.subrange(0, i + 1).drop_last() =~= fhs@.subrange(0, i as int));
                    i = i + 1;
                }
                assert(fhs@.subrange(0, n as int) =~= fhs@);
            },
            None => {
                assert(!self@.readers.contains_key(ino));
            },
        }
        match self.opened_files_for_write.get(&ino) {
            Some(fh) => {
                assert(self@.writer.contains_key(ino));
                let ctx = self.write_handles.get(fh).unwrap();
                let upd = ctx.attr.to_set_attr();
                crate::attr::merge_attr(&mut attr, &upd);
            },
            None => {},
        }
        attr
    }

    /// Opens `stored.ino` for reading, writing or both, with one new handle
    /// for both contexts. A read context starts from the stored record; a
    /// write context starts from the attributes callers observe.
    pub fn open(&mut self, read: bool, write: bool, stored: FileAttr) -> (r: Result<u64, FsError>)
        requires
            old(self).inv(),
        ensures
            final(self).inv(),
            r is Ok <==> old(self)@.can_open(read, write, stored),
            !read && !write ==> r is Err && r->Err_0 is InvalidInput,
            (read || write) && stored.kind == FileType::Directory ==> r == Err::<u64, FsError>(
                FsError::InvalidInodeType,
            ),
            (read || write) && stored.kind != FileType::Directory && write && old(
                self,
            )@.has_writer(stored.ino) ==> r == Err::<u64, FsError>(FsError::AlreadyOpenForWrite),
            r is Err ==> final(self)@ == old(self)@,
            r is Ok ==> {
                let fh = r->Ok_0;
                &&& fh == old(self)@.next
                &&& final(self)@.next == old(self)@.next + 1
                &&& final(self)@.read == if read {
                    old(self)@.read.insert(
                        fh,
                        HandleContext {
                            ino: stored.ino,
                            attr: TimeAndSizeFileAttr::spec_of_attr(stored),
                        },
                    )
                } else {
                    old(self)@.read
                }
                &&& final(self)@.write == if write {
                    old(self)@.write.insert(
                        fh,
                        HandleContext {
                            ino: stored.ino,
                            attr: TimeAndSizeFileAttr::spec_of_attr(old(self)@.fused(stored)),
                        },
                    )
                } else {
                    old(self)@.write
                }
                &&& final(self)@.readers == if read {
                    old(self)@.readers.insert(
                        stored.ino,
                        if old(self)@.readers.contains_key(stored.ino) {
                            old(self)@.readers[stored.ino].push(fh)
                        } else {
                            seq![fh]
                        },
                    )
                } else {
                    old(self)@.readers
                }
                &&& final(self)@.writer == if write {
                    old(self)@.writer.insert(stored.ino, fh)
                } else {
                    old(self)@.writer
                }
            },
    {
        let ino = stored.ino;
        if !read && !write {
            return Err(FsError::InvalidInput("read and write cannot be false at the same time"));
        }
        if stored.kind == FileType::Directory {
            return Err(FsError::InvalidInodeType);
        }
        if write {
            if let Some(_) = self.writer_of(ino) {
                return Err(FsError::AlreadyOpenForWrite);
            }
        }
        if self.current_handle == u64::MAX {
            return Err(FsError::Other("no file handle left"));
        }
        let write_attr = TimeAndSizeFileAttr::from(self.fused_attr(stored));
        let fh = self.current_handle;
        self.current_handle = fh + 1;
        let ghost before = self@;
        assert(before.wf()) by {
            assert(before.read == old(self)@.read && before.write == old(self)@.write);
            assert(before.readers == old(self)@.readers && before.writer == old(self)@.writer);
        }
        if read {
            let ctx = HandleContext { ino, attr: TimeAndSizeFileAttr::from(stored) };
            self.read_handles.insert(fh, ctx);
            let mut fhs = match self.opened_files_for_read.remove(&ino) {
                Some(v) => v,
                None => Vec::new(),
            };
            let ghost prev = fhs@;
            assert(prev == if before.readers.contains_key(ino) {
                before.readers[ino]
            } else {
                Seq::<u64>::empty()
            });
            assert(Seq::<u64>::empty().push(fh) =~= seq![fh]);
            fhs.push(fh);
            self.opened_files_for_read.insert(ino, fhs);
            assert(self@.readers =~= before.readers.insert(ino, prev.push(fh)));
            assert(!prev.contains(fh));
            assert(self@.wf()) by {
                assert forall|i: u64| #[trigger] self@.readers.contains_key(i) implies {
                    &&& self@.readers[i].len() > 0
                    &&& self@.readers[i].no_duplicates()
                    &&& forall|k: int|
                        0 <= k < self@.readers[i].len() ==> self@.read.contains_key(
                            #[trigger] self@.readers[i][k],
                        ) && self@.read[self@.readers[i][k]].ino == i
                } by {
                    if i == ino {
                        assert forall|k: int| 0 <= k < self@.readers[i].len() implies self@.read.contains_key(
                            #[trigger] self@.readers[i][k],
                        ) && self@.read[self@.readers[i][k]].ino == i by {
                            if k < prev.len() {
                                assert(before.readers[ino][k] == prev[k]);
                            }
                        }
                    }
                }
                assert forall|f: u64| #[trigger] self@.read.contains_key(f) implies {
                    &&& 1 <= f < self@.next
                    &&& self@.readers.contains_key(self@.read[f].ino)
                    &&& self@.readers[self@.read[f].ino].contains(f)
                } by {
                    if f != fh && self@.read[f].ino == ino {
                        assert(prev.contains(f));
                        let k = choose|k: int| 0 <= k < prev.len() && prev[k] == f;
                        assert(prev.push(fh)[k] == f);
                    }
                    if f == fh {
                        assert(prev.push(fh)[prev.len() as int] == fh);
                    }
                }
            }
        }
        if write {
            assert(self@.wf());
            let ghost mid = self@;
            assert(mid.write == old(self)@.write && mid.writer == old(self)@.writer);
            assert(!old(self)@.has_writer(ino));
            assert(!mid.writer.contains_key(ino)) by {
                if mid.writer.contains_key(ino) {
                    assert(mid.write.contains_key(mid.writer[ino]));
                    assert(old(self)@.writes(mid.writer[ino], ino));
                }
            }
            let ctx = HandleContext { ino, attr: write_attr };
            self.write_handles.insert(fh, ctx);
            self.opened_files_for_write.insert(ino, fh);
            assert(!mid.write.contains_key(fh)) by {
                if mid.write.contains_key(fh) {
                    assert(old(self)@.write.contains_key(fh));
                }
            }
            assert(self@.write == mid.write.insert(fh, ctx));
            assert(self@.writer == mid.writer.insert(ino, fh));
            assert(self@.read == mid.read && self@.readers == mid.readers && self@.next == mid.next);
            assert forall|f: u64| #[trigger] self@.write.contains_key(f) implies {
                &&& 1 <= f < self@.next
                &&& self@.writer.contains_key(self@.write[f].ino)
                &&& self@.writer[self@.write[f].ino] == f
            } by {
                if f != fh {
                    assert(mid.write.contains_key(f));
                    assert(mid.write[f].ino != ino);
                }
            }
            assert forall|i: u64| #[trigger] self@.writer.contains_key(i) implies self@.write.contains_key(
                self@.writer[i],
            ) && self@.write[self@.writer[i]].ino == i by {
                if i != ino {
                    assert(mid.writer.contains_key(i));
                }
            }
            assert(self@.wf());
        }
        Ok(fh)
    }

    /// Closes `fh`. The contexts it named leave the table and are handed
    /// back as updates for the stored records; handle 0 is a no-op.
    pub fn release(&mut self, fh: u64) -> (r: Result<Released, FsError>)
        requires
            old(self).inv(),
        ensures
            final(self).inv(),
            fh == 0 ==> r == Ok::<Released, FsError>(
                Released { read_update: None, write_update: None },
            ),
            fh != 0 && !old(self)@.read.contains_key(fh) && !old(self)@.write.contains_key(fh)
                ==> r == Err::<Released, FsError>(FsError::InvalidFileHandle),
            r is Err || fh == 0 ==> final(self)@ == old(self)@,
            fh != 0 && (old(self)@.read.contains_key(fh) || old(self)@.write.contains_key(fh))
                ==> r is Ok,
            r is Ok && fh != 0 ==> {
                &&& final(self)@.read == old(self)@.read.remove(fh)
                &&& final(self)@.write == old(self)@.write.remove(fh)
                &&& final(self)@.next == old(self)@.next
                &&& r->Ok_0.read_update == if old(self)@.read.contains_key(fh) {
                    Some(
                        InodeUpdate {
                            ino: old(self)@.read[fh].ino,
                            set_attr: old(self)@.read[fh].attr.spec_to_time_set_attr(),
                        },
                    )
                } else {
                    None
                }
                &&& r->Ok_0.write_update == if old(self)@.write.contains_key(fh) {
                    Some(
                        InodeUpdate {
                            ino: old(self)@.write[fh].ino,
                            set_attr: old(self)@.write[fh].attr.spec_to_set_attr(),
                        },
                    )
                } else {
                    None
                }
                &&& old(self)@.read.contains_key(fh) ==> {
                    let ino = old(self)@.read[fh].ino;
                    let fhs = old(self)@.readers[ino];
                    exists|idx: int|
                        0 <= idx < fhs.len() && fhs[idx] == fh && final(self)@.readers == if fhs.len()
                            == 1 {
                            old(self)@.readers.remove(ino)
                        } else {
                            old(self)@.readers.insert(ino, fhs.remove(idx))
                        }
                }
                &&& !old(self)@.read.contains_key(fh) ==> final(self)@.readers == old(self)@.readers
                &&& final(self)@.writer == if old(self)@.write.contains_key(fh) {
                    old(self)@.writer.remove(old(self)@.write[fh].ino)
                } else {
                    old(self)@.writer
                }
            },
    {
        if fh == 0 {
            return Ok(Released { read_update: None, write_update: None });
        }
        let mut read_update: Option<InodeUpdate> = None;
        let ghost start = self@;
        match self.read_handles.remove(&fh) {
            Some(ctx) => {
                let ino = ctx.ino;
                assert(start.read.contains_key(fh) && start.read[fh] == ctx);
                assert(start.readers.contains_key(ino));
                let mut fhs = match self.opened_files_for_read.remove(&ino) {
                    Some(v) => v,
                    None => {
                        assert(false);
                        Vec::new()
                    },
                };
                let ghost prev = fhs@;
                assert(prev == start.readers[ino]);
                let idx = position_of(&fhs, fh);
                fhs.remove(idx);
                if fhs.len() > 0 {
                    self.opened_files_for_read.insert(ino, fhs);
                    assert(self@.readers =~= start.readers.insert(ino, prev.remove(idx as int)));
                } else {
                    assert(self@.readers =~= start.readers.remove(ino));
                }
                proof {
                    lemma_remove_reader(start, self@, fh, ino, idx as int);
                    assert(prev.len() == 1 <==> fhs@.len() == 0);
                }
                read_update = Some(InodeUpdate { ino, set_attr: ctx.attr.to_time_set_attr() });
            },
            None => {
                assert(self@.read =~= start.read);
                assert(self@ == start);
            },
        }
        let mut write_update: Option<InodeUpdate> = None;
        let ghost mid = self@;
        match self.write_handles.remove(&fh) {
            Some(ctx) => {
                let ino = ctx.ino;
                assert(mid.write.contains_key(fh) && mid.write[fh] == ctx);
                self.opened_files_for_write.remove(&ino);
                assert(self@.writer == mid.writer.remove(ino));
                assert(self@.write == mid.write.remove(fh));
                assert(self@.read == mid.read && self@.readers == mid.readers);
                assert forall|f: u64| #[trigger] self@.write.contains_key(f) implies {
                    &&& 1 <= f < self@.next
                    &&& self@.writer.contains_key(self@.write[f].ino)
                    &&& self@.writer[self@.write[f].ino] == f
                } by {
                    assert(mid.write.contains_key(f));
                }
                assert forall|i: u64| #[trigger] self@.writer.contains_key(i) implies self@.write.contains_key(
                    self@.writer[i],
                ) && self@.write[self@.writer[i]].ino == i by {
                    assert(mid.writer.contains_key(i));
                    assert(mid.writer[i] != fh);
                }
                write_update = Some(InodeUpdate { ino, set_attr: ctx.attr.to_set_attr() });
            },
            None => {
                assert(self@.write =~= mid.write);
                assert(self@ == mid);
            },
        }
        if read_update.is_none() && write_update.is_none() {
            return Err(FsError::InvalidFileHandle);
        }
        Ok(Released { read_update, write_update })
    }

    /// Checks a read of `ino` through `fh`; `node` is the kind of the node
    /// if it exists.
    pub fn check_read(&self, ino: u64, node: Option<FileType>, fh: u64) -> (r: Result<(), FsError>)
        ensures
            r == spec_check_read(self@, ino, node, fh),
    {
        match node {
            None => Err(FsError::InodeNotFound),
            Some(FileType::Directory) => Err(FsError::InvalidInodeType),
            Some(FileType::RegularFile) => match self.read_handles.get(&fh) {
                Some(ctx) => if ctx.ino == ino {
                    Ok(())
                } else {
                    Err(FsError::InvalidFileHandle)
                },
                None => Err(FsError::InvalidFileHandle),
            },
        }
    }

    /// Records in the read context `fh` that it was read at `now`.
    pub fn finish_read(&mut self, fh: u64, now: Timestamp)
        requires
            old(self).inv(),
            old(self)@.read.contains_key(fh),
        ensures
            final(self).inv(),
            final(self)@ == (HandleTableView {
                read: old(self)@.read.insert(
                    fh,
                    HandleContext {
                        attr: TimeAndSizeFileAttr { atime: now, ..old(self)@.read[fh].attr },
                        ..old(self)@.read[fh]
                    },
                ),
                ..old(self)@
            }),
    {
        let mut ctx = *self.read_handles.get(&fh).unwrap();
        ctx.attr.atime = now;
        self.read_handles.insert(fh, ctx);
        assert(self@.read.dom() =~= old(self)@.read.dom());
        assert forall|f: u64| #[trigger] self@.read.contains_key(f) implies {
            &&& 1 <= f < self@.next
            &&& self@.readers.contains_key(self@.read[f].ino)
            &&& self@.readers[self@.read[f].ino].contains(f)
        } by {
            assert(old(self)@.read.contains_key(f));
        }
    }

    /// Checks a write of `len` bytes at `offset` to `ino` through `fh`, and
    /// gives how many of them fit below `max_len`, the largest size the
    /// cipher can hold.
    pub fn check_write(
        &self,
        ino: u64,
        node: Option<FileType>,
        fh: u64,
        offset: u64,
        len: usize,
        max_len: usize,
    ) -> (r: Result<usize, FsError>)
        ensures
            r == spec_check_write(self@, ino, node, fh, offset, len, max_len),
            r is Ok ==> r->Ok_0 <= len && offset + r->Ok_0 <= max_len || r->Ok_0 == 0,
    {
        match node {
            None => Err(FsError::InodeNotFound),
            Some(FileType::Directory) => Err(FsError::InvalidInodeType),
            Some(FileType::RegularFile) => {
                let bound = match self.write_handles.get(&fh) {
                    Some(ctx) => ctx.ino == ino,
                    None => false,
                };
                if !bound {
                    return Err(FsError::InvalidFileHandle);
                }
                if len == 0 {
                    return Ok(0);
                }
                if offset > max_len as u64 {
                    return Err(FsError::MaxFilesizeExceeded(max_len));
                }
                let room = (max_len as u64 - offset) as usize;
                if len > room {
                    Ok(room)
                } else {
                    Ok(len)
                }
            },
        }
    }

    /// Records in the write context `fh` that a write ended at position
    /// `pos` at time `now`: the size grows to `pos` if that is larger, and
    /// the modification and change times become `now`.
    pub fn finish_write(&mut self, fh: u64, pos: u64, now: Timestamp)
        requires
            old(self).inv(),
            old(self)@.write.contains_key(fh),
        ensures
            final(self).inv(),
            final(self)@ == (HandleTableView {
                write: old(self)@.write.insert(
                    fh,
                    HandleContext {
                        attr: TimeAndSizeFileAttr {
                            size: if pos > old(self)@.write[fh].attr.size {
                                pos
                            } else {
                                old(self)@.write[fh].attr.size
                            },
                            mtime: now,
                            ctime: now,
                            ..old(self)@.write[fh].attr
                        },
                        ..old(self)@.write[fh]
                    },
                ),
                ..old(self)@
            }),
    {
        let mut ctx = *self.write_handles.get(&fh).unwrap();
        if pos > ctx.attr.size {
            ctx.attr.size = pos;
        }
        ctx.attr.mtime = now;
        ctx.attr.ctime = now;
        self.write_handles.insert(fh, ctx);
        proof {
            lemma_write_ctx_replaced(old(self)@, self@, fh);
        }
    }

    /// Replaces the size that the write context `fh` holds, after the
    /// content changed beneath it.
    pub fn set_write_size(&mut self, fh: u64, size: u64)
        requires
            old(self).inv(),
            old(self)@.write.contains_key(fh),
        ensures
            final(self).inv(),
            final(self)@ == (HandleTableView {
                write: old(self)@.write.insert(
                    fh,
                    HandleContext {
                        attr: TimeAndSizeFileAttr { size, ..old(self)@.write[fh].attr },
                        ..old(self)@.write[fh]
                    },
                ),
                ..old(self)@
            }),
    {
        let mut ctx = *self.write_handles.get(&fh).unwrap();
        ctx.attr.size = size;
        self.write_handles.insert(fh, ctx);
        proof {
            lemma_write_ctx_replaced(old(self)@, self@, fh);
        }
    }

    /// What `flush` must do for `fh`: `Ok(true)` when a writer must be
    /// flushed, `Ok(false)` for handle 0 and for a read handle.
    pub fn flush_action(&self, fh: u64) -> (r: Result<bool, FsError>)
        ensures
            fh == 0 ==> r == Ok::<bool, FsError>(false),
            fh != 0 ==> r == if self@.write.contains_key(fh) {
                Ok::<bool, FsError>(true)
            } else if self@.read.contains_key(fh) {
                Ok::<bool, FsError>(false)
            } else {
                Err(FsError::InvalidFileHandle)
            },
    {
        if fh == 0 {
            return Ok(false);
        }
        if self.write_handles.contains_key(&fh) {
            Ok(true)
        } else if self.read_handles.contains_key(&fh) {
            Ok(false)
        } else {
            Err(FsError::InvalidFileHandle)
        }
    }

    /// The handles to reset after the content of `ino` changed: every read
    /// handle on it but `skip`, and its write handle unless that is `skip`.
    pub fn handles_to_reset(&self, ino: u64, skip: Option<u64>) -> (r: (Vec<u64>, Option<u64>))
        requires
            self.inv(),
        ensures
            r.0@.no_duplicates(),
            forall|f: u64| r.0@.contains(f) <==> self@.reads(f, ino) && skip != Some(f),
            r.1 is Some <==> exists|f: u64| self@.writes(f, ino) && skip != Some(f),
            r.1 is Some ==> self@.writes(r.1->0, ino),
    {
        let mut out: Vec<u64> = Vec::new();
        match self.opened_files_for_read.get(&ino) {
            Some(fhs) => {
                assert(self@.readers.contains_key(ino) && self@.readers[ino] == fhs@);
                let n = fhs.len();
                let mut i: usize = 0;
                while i < n
                    invariant
                        self.inv(),
                        self@.readers.contains_key(ino),
                        self@.readers[ino] == fhs@,
                        n == fhs@.len(),
                        0 <= i <= n,
                        out@.no_duplicates(),
                        forall|f: u64|
                            out@.contains(f) <==> (exists|k: int|
                                0 <= k < i && fhs@[k] == f) && skip != Some(f),
                    decreases n - i,
                {
                    let fh = fhs[i];
                    let keep = match skip {
                        Some(s) => s != fh,
                        None => true,
                    };
                    assert(keep == (skip != Some(fh)));
                    assert(fh == fhs@[i as int]);
                    if keep {
                        assert(!out@.contains(fh)) by {
                            if out@.contains(fh) {
                                let k = choose|k: int| 0 <= k < i && fhs@[k] == fh;
                                assert(fhs@[k] == fhs@[i as int]);
                            }
                        }
                        let ghost prev = out@;
                        out.push(fh);
                        assert forall|f: u64|
                            out@.contains(f) <==> (exists|k: int|
                                0 <= k < i + 1 && fhs@[k] == f) && skip != Some(f) by {
                            if out@.contains(f) && f != fh {
                                let j = choose|j: int| 0 <= j < out@.len() && out@[j] == f;
                                assert(prev[j] == f);
                                assert(prev.contains(f));
                                let k = choose|k: int| 0 <= k < i && fhs@[k] == f;
                                assert(0 <= k < i + 1 && fhs@[k] == f);
                            }
                            if f == fh {
                                assert(fhs@[i as int] == f);
                            }
                            if (exists|k: int| 0 <= k < i + 1 && fhs@[k] == f) && skip != Some(f) {
                                let k = choose|k: int| 0 <= k < i + 1 && fhs@[k] == f;
                                if k < i {
                                    assert(prev.contains(f));
                                    let j = choose|j: int| 0 <= j < prev.len() && prev[j] == f;
                                    assert(out@[j] == f);
                                } else {
                                    assert(out@[prev.len() as int] == f);
                                }
                            }
                        }
                    } else {
                        assert forall|f: u64| #[trigger]
                            out@.contains(f) implies (exists|k: int|
                                0 <= k < i + 1 && fhs@[k] == f) && skip != Some(f) by {
                            let k = choose|k: int| 0 <= k < i && fhs@[k] == f;
                            assert(0 <= k < i + 1 && fhs@[k] == f);
                        }
                        assert forall|f: u64|
                            (exists|k: int| 0 <= k < i + 1 && fhs@[k] == f) && skip != Some(
                                f,
                            ) implies #[trigger] out@.contains(f) by {
                            let k = choose|k: int| 0 <= k < i + 1 && fhs@[k] == f;
                            assert(k < i);
                            assert(exists|k: int| 0 <= k < i && fhs@[k] == f);
                        }
                    }
                    i = i + 1;
                }
                assert forall|f: u64| out@.contains(f) <==> self@.reads(f, ino) && skip != Some(f) by {
                    if self@.reads(f, ino) {
                        assert(self@.readers[ino].contains(f));
                        let k = choose|k: int| 0 <= k < fhs@.len() && fhs@[k] == f;
                    }
                    if (exists|k: int| 0 <= k < n && fhs@[k] == f) {
                        let k = choose|k: int| 0 <= k < n && fhs@[k] == f;
                        assert(self@.read.contains_key(self@.readers[ino][k]));
                    }
                }
            },
            None => {
                assert(!self@.readers.contains_key(ino));
                assert forall|f: u64| out@.contains(f) <==> self@.reads(f, ino) && skip != Some(f) by {
                    if self@.reads(f, ino) {
                        assert(self@.read.contains_key(f));
                    }
                }
            },
        }
        let w = match self.writer_of(ino) {
            Some(fh) => match skip {
                Some(s) => if s == fh {
                    None
                } else {
                    Some(fh)
                },
                None => Some(fh),
            },
            None => None,
        };
        assert((w is Some) <==> exists|f: u64| self@.writes(f, ino) && skip != Some(f)) by {
            if exists|f: u64| self@.writes(f, ino) && skip != Some(f) {
                let f = choose|f: u64| self@.writes(f, ino) && skip != Some(f);
                assert(self@.writer[ino] == f);
            }
        }
        (out, w)
    }

    /// The write handle open on `ino`, if any.
    pub fn writer_of(&self, ino: u64) -> (r: Option<u64>)
        requires
            self.inv(),
        ensures
            r is Some <==> self@.has_writer(ino),
            r is Some ==> self@.writes(r->0, ino),
    {
        match self.opened_files_for_write.get(&ino) {
            Some(fh) => {
                assert(self@.writer.contains_key(ino) && self@.writer[ino] == *fh);
                assert(self@.writes(*fh, ino));
                Some(*fh)
            },
            None => {
                assert(!self@.writer.contains_key(ino));
                assert forall|fh: u64| !self@.writes(fh, ino) by {
                    if self@.writes(fh, ino) {
                        assert(self@.write.contains_key(fh));
                    }
                }
                None
            },
        }
    }
}

} // verus!
