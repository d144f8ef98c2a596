use vstd::prelude::*;

use crate::attr::{FileAttr, FileType, SetFileAttr, empty_set_attr};
use crate::error::FsError;
use crate::time::Timestamp;

verus! {

/// How the content of a file is brought to a new size.
#[derive(Clone, Copy, Debug, PartialEq, Eq, Structural)]
pub enum TruncatePlan {
    /// The size is already the requested one: nothing changes.
    NoOp,
    /// Size 0: the content artifact is removed and created again, empty.
    Recreate,
    /// The first `copy_len` bytes of the old content are copied into a new
    /// artifact, followed by `zeros` zero bytes.
    CopyThenFill { copy_len: u64, zeros: u64 },
}

/// The plan for truncating a node of kind `kind` and size `current` to
/// size `size`.
pub open spec fn spec_plan_truncate(kind: FileType, current: u64, size: u64) -> Result<TruncatePlan, FsError> {
    if kind == FileType::Directory {
        Err(FsError::InvalidInodeType)
    } else if size == current {
        Ok(TruncatePlan::NoOp)
    } else if size == 0 {
        Ok(TruncatePlan::Recreate)
    } else if size > current {
        Ok(TruncatePlan::CopyThenFill { copy_len: current, zeros: (size - current) as u64 })
    } else {
        Ok(TruncatePlan::CopyThenFill { copy_len: size, zeros: 0 })
    }
}

/// Plans a truncate of a node of kind `kind` and size `current` to `size`.
pub fn plan_truncate(kind: FileType, current: u64, size: u64) -> (r: Result<TruncatePlan, FsError>)
    ensures
        r == spec_plan_truncate(kind, current, size),
        r matches Ok(TruncatePlan::CopyThenFill { copy_len, zeros }) ==> copy_len + zeros == size,
{
    if kind == FileType::Directory {
        return Err(FsError::InvalidInodeType);
    }
    if size == current {
        Ok(TruncatePlan::NoOp)
    } else if size == 0 {
        Ok(TruncatePlan::Recreate)
    } else if size > current {
        Ok(TruncatePlan::CopyThenFill { copy_len: current, zeros: size - current })
    } else {
        Ok(TruncatePlan::CopyThenFill { copy_len: size, zeros: 0 })
    }
}

/// The update a truncate to `size` at time `now` makes to the record.
pub open spec fn spec_truncate_update(size: u64, now: Timestamp) -> SetFileAttr {
    SetFileAttr { size: Some(size), mtime: Some(now), ctime: Some(now), ..empty_set_attr() }
}

/// The update a truncate to `size` at time `now` makes to the record.
pub fn truncate_update(size: u64, now: Timestamp) -> (r: SetFileAttr)
    ensures
        r == spec_truncate_update(size, now),
{
    SetFileAttr::default().with_size(size).with_mtime(now).with_ctime(now)
}

/// The record to store after a writer reported that it wrote up to
/// `last_write_pos`: `attr` grown to that size, or `None` when the record
/// already covers it.
pub fn size_after_content_change(attr: FileAttr, last_write_pos: u64) -> (r: Option<FileAttr>)
    ensures
        last_write_pos > attr.size ==> r == Some(FileAttr { size: last_write_pos, ..attr }),
        last_write_pos <= attr.size ==> r is None,
{
    if last_write_pos > attr.size {
        Some(FileAttr { size: last_write_pos, ..attr })
    } else {
        None
    }
}

/// The state of a loop that hands `total` bytes to a writer piece by piece.
#[derive(Clone, Copy, Debug, PartialEq, Eq, Structural)]
pub enum DrainStep {
    /// All bytes were taken.
    Done,
    /// This many bytes were taken so far; the rest is still to write.
    Continue(usize),
    /// The writer took nothing though bytes are left.
    Stalled,
}

/// The next state after the writer took `written` more bytes, `done` of
/// `total` having been taken before.
pub open spec fn spec_drain_step(total: usize, done: usize, written: usize) -> DrainStep {
    if done + written >= total {
        DrainStep::Done
    } else if written == 0 {
        DrainStep::Stalled
    } else {
        DrainStep::Continue((done + written) as usize)
    }
}

/// Advances a loop that hands `total` bytes to a writer: `done` were taken
/// before, the writer just took `written`.
pub fn drain_step(total: usize, done: usize, written: usize) -> (r: DrainStep)
    requires
        done <= total,
        written <= total - done,
    ensures
        r == spec_drain_step(total, done, written),
        r matches DrainStep::Continue(n) ==> done < n < total,
{
    if written >= total - done {
        DrainStep::Done
    } else if written == 0 {
        DrainStep::Stalled
    } else {
        DrainStep::Continue(done + written)
    }
}

/// `n` zero bytes.
pub open spec fn zeros(n: int) -> Seq<u8> {
    Seq::new(n as nat, |i: int| 0u8)
}

/// `data` cut or zero-extended to `len` bytes.
pub open spec fn resized(data: Seq<u8>, len: int) -> Seq<u8> {
    if len <= data.len() {
        data.subrange(0, len)
    } else {
        data + zeros(len - data.len())
    }
}

/// The content after `bytes` are written at `offset` into `data`: a gap
/// between the old end and `offset` reads as zeros.
pub open spec fn spec_written(data: Seq<u8>, offset: int, bytes: Seq<u8>) -> Seq<u8> {
    let end = offset + bytes.len();
    let filled = if data.len() < end {
        resized(data, end)
    } else {
        data
    };
    filled.subrange(0, offset) + bytes + filled.subrange(end, filled.len() as int)
}

/// What a read of up to `want` bytes at `offset` returns from `data`:
/// nothing past the end.
pub open spec fn spec_read(data: Seq<u8>, offset: int, want: int) -> Seq<u8> {
    if offset >= data.len() {
        Seq::empty()
    } else if offset + want <= data.len() {
        data.subrange(offset, offset + want)
    } else {
        data.subrange(offset, data.len() as int)
    }
}

/// Cuts or zero-extends `data` to `len` bytes.
fn resize_to(data: &mut Vec<u8>, len: usize)
    ensures
        final(data)@ == resized(old(data)@, len as int),
{
    let ghost d0 = data@;
    if len <= data.len() {
        data.truncate(len);
        assert(data@ =~= resized(d0, len as int));
    } else {
        while data.len() < len
            invariant
                d0.len() <= data@.len() <= len,
                data@ =~= d0 + zeros(data@.len() - d0.len()),
            decreases len - data@.len(),
        {
            data.push(0);
            assert(data@ =~= d0 + zeros(data@.len() - d0.len()));
        }
    }
}

/// Writes `bytes` at `offset` into the plaintext `data` of a file,
/// zero-filling any gap before `offset`.
pub fn apply_write(data: &mut Vec<u8>, offset: usize, bytes: &[u8])
    requires
        offset + bytes@.len() <= usize::MAX,
    ensures
        final(data)@ == spec_written(old(data)@, offset as int, bytes@),
{
    let end = offset + bytes.len();
    let ghost d0 = data@;
    if data.len() < end {
        resize_to(data, end);
    }
    let ghost filled = data@;
    assert(filled == if d0.len() < end {
        resized(d0, end as int)
    } else {
        d0
    });
    let mut i: usize = 0;
    while i < bytes.len()
        invariant
            end == offset + bytes@.len(),
            filled.len() >= end,
            data@.len() == filled.len(),
            i <= bytes@.len(),
            forall|k: int| 0 <= k < i ==> data@[offset + k] == bytes@[k],
            forall|k: int|
                0 <= k < filled.len() && !(offset <= k < offset + i) ==> data@[k] == filled[k],
        decreases bytes@.len() - i,
    {
        data.set(offset + i, bytes[i]);
        i = i + 1;
    }
    assert(data@ =~= spec_written(d0, offset as int, bytes@));
}

/// Copies into `buf` what a read of `buf.len()` bytes at `offset` returns
/// from the plaintext `data`, and gives how many bytes that is; past the
/// end nothing is read.
pub fn read_into(data: &[u8], offset: u64, buf: &mut [u8]) -> (n: usize)
    ensures
        n == spec_read(data@, offset as int, old(buf)@.len() as int).len(),
        final(buf)@.len() == old(buf)@.len(),
        final(buf)@.subrange(0, n as int) == spec_read(data@, offset as int, old(buf)@.len() as int),
        final(buf)@.subrange(n as int, final(buf)@.len() as int) == old(buf)@.subrange(
            n as int,
            old(buf)@.len() as int,
        ),
{
    if offset >= data.len() as u64 {
        assert(final(buf)@.subrange(0, 0) =~= Seq::<u8>::empty());
        assert(buf@.subrange(0, buf@.len() as int) =~= buf@);
        return 0;
    }
    let start = offset as usize;
    let room = data.len() - start;
    let n = if buf.len() <= room {
        buf.len()
    } else {
        room
    };
    let ghost b0 = buf@;
    let dlen = data.len();
    let mut i: usize = 0;
    while i < n
        invariant
            n <= buf@.len(),
            buf@.len() == b0.len(),
            dlen == data@.len(),
            start + n <= dlen,
            i <= n,
            forall|k: int| 0 <= k < i ==> buf@[k] == data@[start + k],
            forall|k: int| i <= k < b0.len() ==> buf@[k] == b0[k],
        decreases n - i,
    {
        buf[i] = data[start + i];
        i = i + 1;
    }
    assert(buf@.subrange(0, n as int) =~= spec_read(data@, offset as int, b0.len() as int));
    assert(buf@.subrange(n as int, buf@.len() as int) =~= b0.subrange(n as int, b0.len() as int));
    n
}

/// The plaintext of a file after a truncate that copies `copy_len` bytes
/// and appends `zeros` zero bytes.
pub open spec fn spec_truncated(data: Seq<u8>, copy_len: int, zeros: int) -> Seq<u8> {
    resized(resized(data, copy_len), copy_len + zeros)
}

/// Carries out a [`TruncatePlan::CopyThenFill`] on the plaintext `data`.
pub fn apply_truncate(data: &mut Vec<u8>, copy_len: u64, zeros: u64)
    requires
        copy_len + zeros <= usize::MAX,
    ensures
        final(data)@ == spec_truncated(old(data)@, copy_len as int, zeros as int),
{
    resize_to(data, copy_len as usize);
    resize_to(data, (copy_len + zeros) as usize);
}

} // verus!
