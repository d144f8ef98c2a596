//! Properties of the engine that relate several operations.
use vstd::prelude::*;

use crate::attr::{merged, times_le, FileAttr, InodeUpdate, SetFileAttr, TimeAndSizeFileAttr};
use crate::content::{
    resized, spec_plan_truncate, spec_read, spec_truncate_update, spec_written, TruncatePlan,
};
use crate::handles::{fold_reads, HandleContext, HandleTableView, Released};
use crate::error::FsError;
use crate::time::{lemma_ts_le_total_order, ts_le, Timestamp};

verus! {

/// Timestamp number `i` of a record: access, modification, change, creation.
pub open spec fn time_of(a: FileAttr, i: int) -> Timestamp {
    if i == 0 {
        a.atime
    } else if i == 1 {
        a.mtime
    } else if i == 2 {
        a.ctime
    } else {
        a.crtime
    }
}

/// Timestamp number `i` of a handle's snapshot.
pub open spec fn snap_time(a: TimeAndSizeFileAttr, i: int) -> Timestamp {
    if i == 0 {
        a.atime
    } else if i == 1 {
        a.mtime
    } else if i == 2 {
        a.ctime
    } else {
        a.crtime
    }
}

proof fn lemma_times_le_by_index(a: FileAttr, b: FileAttr)
    requires
        forall|i: int| 0 <= i < 4 ==> ts_le(#[trigger] time_of(a, i), time_of(b, i)),
    ensures
        times_le(a, b),
{
    assert(ts_le(time_of(a, 0), time_of(b, 0)));
    assert(ts_le(time_of(a, 1), time_of(b, 1)));
    assert(ts_le(time_of(a, 2), time_of(b, 2)));
    assert(ts_le(time_of(a, 3), time_of(b, 3)));
}

proof fn lemma_ts_trans(a: Timestamp, b: Timestamp, c: Timestamp)
    requires
        ts_le(a, b),
        ts_le(b, c),
    ensures
        ts_le(a, c),
{
    lemma_ts_le_total_order(a, b, c);
}

/// Folding the read contexts `fhs` into `attr` keeps every field but the
/// timestamps, and each timestamp becomes the latest of `attr`'s and the
/// contexts'.
proof fn lemma_fold_reads(read: Map<u64, HandleContext>, attr: FileAttr, fhs: Seq<u64>)
    ensures
        fold_reads(read, attr, fhs) == (FileAttr {
            atime: fold_reads(read, attr, fhs).atime,
            mtime: fold_reads(read, attr, fhs).mtime,
            ctime: fold_reads(read, attr, fhs).ctime,
            crtime: fold_reads(read, attr, fhs).crtime,
            ..attr
        }),
        forall|i: int|
            0 <= i < 4 ==> ts_le(#[trigger] time_of(attr, i), time_of(fold_reads(read, attr, fhs), i)),
        forall|i: int, k: int|
            0 <= i < 4 && 0 <= k < fhs.len() ==> ts_le(
                #[trigger] snap_time(read[fhs[k]].attr, i),
                time_of(fold_reads(read, attr, fhs), i),
            ),
        forall|i: int|
            0 <= i < 4 ==> #[trigger] time_of(fold_reads(read, attr, fhs), i) == time_of(attr, i)
                || exists|k: int|
                0 <= k < fhs.len() && time_of(fold_reads(read, attr, fhs), i) == snap_time(
                    read[fhs[k]].attr,
                    i,
                ),
    decreases fhs.len(),
{
    if fhs.len() > 0 {
        let prev = fhs.drop_last();
        lemma_fold_reads(read, attr, prev);
        let p = fold_reads(read, attr, prev);
        let c = read[fhs.last()].attr;
        let f = fold_reads(read, attr, fhs);
        assert(f == merged(p, c.spec_to_time_set_attr()));
        assert forall|i: int| 0 <= i < 4 implies ts_le(#[trigger] snap_time(c, i), time_of(f, i))
            && ts_le(time_of(p, i), time_of(f, i)) && (time_of(f, i) == time_of(p, i) || time_of(f, i)
            == snap_time(c, i)) by {
            lemma_ts_le_total_order(snap_time(c, i), time_of(p, i), time_of(p, i));
        }
        assert forall|i: int| 0 <= i < 4 implies ts_le(#[trigger] time_of(attr, i), time_of(f, i)) by {
            lemma_ts_trans(time_of(attr, i), time_of(p, i), time_of(f, i));
        }
        assert forall|i: int, k: int| 0 <= i < 4 && 0 <= k < fhs.len() implies ts_le(
            #[trigger] snap_time(read[fhs[k]].attr, i),
            time_of(f, i),
        ) by {
            if k < fhs.len() - 1 {
                assert(fhs[k] == prev[k]);
                assert(ts_le(snap_time(read[prev[k]].attr, i), time_of(p, i)));
                lemma_ts_trans(snap_time(read[fhs[k]].attr, i), time_of(p, i), time_of(f, i));
            }
        }
        assert forall|i: int| 0 <= i < 4 implies #[trigger] time_of(f, i) == time_of(attr, i)
            || exists|k: int|
            0 <= k < fhs.len() && time_of(f, i) == snap_time(read[fhs[k]].attr, i) by {
            if time_of(f, i) == snap_time(c, i) {
                assert(fhs[fhs.len() - 1] == fhs.last());
            } else if time_of(p, i) != time_of(attr, i) {
                let k = choose|k: int| 0 <= k < prev.len() && time_of(p, i) == snap_time(
                    read[prev[k]].attr,
                    i,
                );
                assert(fhs[k] == prev[k]);
            }
        }
    }
}

/// The observed record of `stored.ino` differs from `stored` only in its
/// timestamps and size; each timestamp is the latest of the stored one and
/// those of the handles open on the inode; the size is the writer's, if
/// there is one.
proof fn lemma_fused(t: HandleTableView, stored: FileAttr)
    requires
        t.wf(),
    ensures
        ({
            let f = t.fused(stored);
            let ino = stored.ino;
            &&& f == (FileAttr {
                atime: f.atime,
                mtime: f.mtime,
                ctime: f.ctime,
                crtime: f.crtime,
                size: f.size,
                ..stored
            })
            &&& t.writer.contains_key(ino) ==> f.size == t.write[t.writer[ino]].attr.size
            &&& !t.writer.contains_key(ino) ==> f.size == stored.size
            &&& forall|i: int| 0 <= i < 4 ==> ts_le(#[trigger] time_of(stored, i), time_of(f, i))
            &&& forall|i: int, fh: u64|
                0 <= i < 4 && #[trigger] t.reads(fh, ino) ==> ts_le(
                    snap_time(t.read[fh].attr, i),
                    #[trigger] time_of(f, i),
                )
            &&& forall|i: int, fh: u64|
                0 <= i < 4 && #[trigger] t.writes(fh, ino) ==> ts_le(
                    snap_time(t.write[fh].attr, i),
                    #[trigger] time_of(f, i),
                )
            &&& forall|i: int|
                0 <= i < 4 ==> #[trigger] time_of(f, i) == time_of(stored, i) || (exists|fh: u64|
                    t.reads(fh, ino) && time_of(f, i) == snap_time(t.read[fh].attr, i)) || (exists|
                    fh: u64,
                |
                    t.writes(fh, ino) && time_of(f, i) == snap_time(t.write[fh].attr, i))
        }),
{
    let ino = stored.ino;
    let fhs = if t.readers.contains_key(ino) {
        t.readers[ino]
    } else {
        Seq::<u64>::empty()
    };
    assert(fold_reads(t.read, stored, Seq::<u64>::empty()) == stored);
    let w = fold_reads(t.read, stored, fhs);
    lemma_fold_reads(t.read, stored, fhs);
    assert(w == if t.readers.contains_key(ino) {
        fold_reads(t.read, stored, t.readers[ino])
    } else {
        stored
    });
    let f = t.fused(stored);
    assert forall|fh: u64| t.reads(fh, ino) implies fhs.contains(fh) by {
        assert(t.read.contains_key(fh));
    }
    if t.writer.contains_key(ino) {
        let wc = t.write[t.writer[ino]].attr;
        assert(f == merged(w, wc.spec_to_set_attr()));
        assert forall|i: int| 0 <= i < 4 implies ts_le(#[trigger] snap_time(wc, i), time_of(f, i))
            && ts_le(time_of(w, i), time_of(f, i)) && (time_of(f, i) == time_of(w, i) || time_of(
            f,
            i,
        ) == snap_time(wc, i)) by {
            lemma_ts_le_total_order(snap_time(wc, i), time_of(w, i), time_of(w, i));
        }
        assert forall|i: int| 0 <= i < 4 implies ts_le(#[trigger] time_of(stored, i), time_of(f, i)) by {
            lemma_ts_trans(time_of(stored, i), time_of(w, i), time_of(f, i));
        }
        assert forall|i: int, fh: u64| 0 <= i < 4 && #[trigger] t.reads(fh, ino) implies ts_le(
            snap_time(t.read[fh].attr, i),
            #[trigger] time_of(f, i),
        ) by {
            let k = choose|k: int| 0 <= k < fhs.len() && fhs[k] == fh;
            assert(ts_le(snap_time(t.read[fhs[k]].attr, i), time_of(w, i)));
            lemma_ts_trans(snap_time(t.read[fh].attr, i), time_of(w, i), time_of(f, i));
        }
        assert forall|i: int, fh: u64| 0 <= i < 4 && #[trigger] t.writes(fh, ino) implies ts_le(
            snap_time(t.write[fh].attr, i),
            #[trigger] time_of(f, i),
        ) by {
            assert(t.writer[ino] == fh);
        }
        assert forall|i: int| 0 <= i < 4 implies #[trigger] time_of(f, i) == time_of(stored, i) || (
        exists|fh: u64| t.reads(fh, ino) && time_of(f, i) == snap_time(t.read[fh].attr, i)) || (
        exists|fh: u64| t.writes(fh, ino) && time_of(f, i) == snap_time(t.write[fh].attr, i)) by {
            if time_of(f, i) == snap_time(wc, i) {
                assert(t.writes(t.writer[ino], ino));
            } else if time_of(w, i) != time_of(stored, i) {
                let k = choose|k: int| 0 <= k < fhs.len() && time_of(w, i) == snap_time(
                    t.read[fhs[k]].attr,
                    i,
                );
                assert(t.reads(fhs[k], ino));
            }
        }
    } else {
        assert(f == w);
        assert forall|i: int, fh: u64| 0 <= i < 4 && #[trigger] t.reads(fh, ino) implies ts_le(
            snap_time(t.read[fh].attr, i),
            #[trigger] time_of(f, i),
        ) by {
            let k = choose|k: int| 0 <= k < fhs.len() && fhs[k] == fh;
            assert(ts_le(snap_time(t.read[fhs[k]].attr, i), time_of(w, i)));
        }
        assert forall|i: int, fh: u64| 0 <= i < 4 && #[trigger] t.writes(fh, ino) implies ts_le(
            snap_time(t.write[fh].attr, i),
            #[trigger] time_of(f, i),
        ) by {
            assert(t.write.contains_key(fh));
        }
        assert forall|i: int| 0 <= i < 4 implies #[trigger] time_of(f, i) == time_of(stored, i) || (
        exists|fh: u64| t.reads(fh, ino) && time_of(f, i) == snap_time(t.read[fh].attr, i)) || (
        exists|fh: u64| t.writes(fh, ino) && time_of(f, i) == snap_time(t.write[fh].attr, i)) by {
            if time_of(w, i) != time_of(stored, i) {
                let k = choose|k: int| 0 <= k < fhs.len() && time_of(w, i) == snap_time(
                    t.read[fhs[k]].attr,
                    i,
                );
                assert(t.reads(fhs[k], ino));
            }
        }
    }
}

/// Timestamp monotonicity across `update_inode`: the record observed after
/// an update, which is merged into the observed record and stored, is no
/// earlier in any timestamp than the one observed before it.
pub proof fn lemma_update_keeps_times(t: HandleTableView, stored: FileAttr, s: SetFileAttr)
    requires
        t.wf(),
    ensures
        times_le(t.fused(stored), t.fused(merged(t.fused(stored), s))),
{
    let before = t.fused(stored);
    let next = merged(before, s);
    lemma_fused(t, stored);
    lemma_fused(t, next);
    assert forall|i: int| 0 <= i < 4 implies ts_le(#[trigger] time_of(before, i), time_of(t.fused(next), i)) by {
        lemma_ts_le_total_order(time_of(before, i), time_of(next, i), time_of(next, i));
        lemma_ts_trans(time_of(before, i), time_of(next, i), time_of(t.fused(next), i));
    }
    lemma_times_le_by_index(before, t.fused(next));
}

/// A record is no earlier than any table's observation of it requires.
proof fn lemma_time_le_fused(t: HandleTableView, x: FileAttr, i: int)
    requires
        t.wf(),
        0 <= i < 4,
    ensures
        ts_le(time_of(x, i), time_of(t.fused(x), i)),
        t.fused(x).ino == x.ino,
{
    lemma_fused(t, x);
}

/// Merging an update reaches both the record's and the update's times.
proof fn lemma_time_merged(x: FileAttr, s: SetFileAttr, i: int)
    requires
        0 <= i < 4,
    ensures
        ts_le(time_of(x, i), time_of(merged(x, s), i)),
        merged(x, s).ino == x.ino,
{
    let m = merged(x, s);
    if i == 0 && s.atime is Some {
        lemma_ts_le_total_order(s.atime->0, x.atime, x.atime);
    } else if i == 1 && s.mtime is Some {
        lemma_ts_le_total_order(s.mtime->0, x.mtime, x.mtime);
    } else if i == 2 && s.ctime is Some {
        lemma_ts_le_total_order(s.ctime->0, x.ctime, x.ctime);
    } else if i == 3 && s.crtime is Some {
        lemma_ts_le_total_order(s.crtime->0, x.crtime, x.crtime);
    } else {
        lemma_ts_le_total_order(time_of(x, i), time_of(x, i), time_of(x, i));
    }
}

/// Merging a handle's snapshot back reaches the snapshot's times.
proof fn lemma_snap_merged(x: FileAttr, a: TimeAndSizeFileAttr, with_size: bool, i: int)
    requires
        0 <= i < 4,
    ensures
        ts_le(
            snap_time(a, i),
            time_of(
                merged(
                    x,
                    if with_size {
                        a.spec_to_set_attr()
                    } else {
                        a.spec_to_time_set_attr()
                    },
                ),
                i,
            ),
        ),
{
    lemma_ts_le_total_order(snap_time(a, i), time_of(x, i), time_of(x, i));
}

/// Timestamp monotonicity across `open`: what is observed of any inode
/// after a handle was opened is no earlier than before.
pub proof fn lemma_open_keeps_times(
    before: HandleTableView,
    after: HandleTableView,
    fh: u64,
    stored: FileAttr,
)
    requires
        before.wf(),
        after.wf(),
        fh == before.next,
        after.read == before.read || (exists|c: HandleContext|
            after.read == before.read.insert(fh, c)),
        after.write == before.write || (exists|c: HandleContext|
            after.write == before.write.insert(fh, c)),
    ensures
        times_le(before.fused(stored), after.fused(stored)),
{
    let ino = stored.ino;
    let b = before.fused(stored);
    let a = after.fused(stored);
    lemma_fused(before, stored);
    lemma_fused(after, stored);
    assert forall|f: u64| #[trigger] before.reads(f, ino) implies after.reads(f, ino)
        && after.read[f] == before.read[f] by {
        assert(before.read.contains_key(f));
    }
    assert forall|f: u64| #[trigger] before.writes(f, ino) implies after.writes(f, ino)
        && after.write[f] == before.write[f] by {
        assert(before.write.contains_key(f));
    }
    assert forall|i: int| 0 <= i < 4 implies ts_le(#[trigger] time_of(b, i), time_of(a, i)) by {
        if time_of(b, i) != time_of(stored, i) {
            if exists|f: u64| before.reads(f, ino) && time_of(b, i) == snap_time(before.read[f].attr, i) {
                let f = choose|f: u64| before.reads(f, ino) && time_of(b, i) == snap_time(before.read[f].attr, i);
                assert(after.reads(f, ino));
            } else {
                let f = choose|f: u64| before.writes(f, ino) && time_of(b, i) == snap_time(before.write[f].attr, i);
                assert(after.writes(f, ino));
            }
        }
    }
    lemma_times_le_by_index(b, a);
}

/// The stored record of `stored.ino` after the update `u` is applied
/// through `update_inode` on table `t`; updates of other inodes leave it.
pub open spec fn applied(t: HandleTableView, stored: FileAttr, u: Option<InodeUpdate>) -> FileAttr {
    match u {
        Some(u) => if u.ino == stored.ino {
            merged(t.fused(stored), u.set_attr)
        } else {
            stored
        },
        None => stored,
    }
}

/// Timestamp monotonicity across `release`: once the updates it hands back
/// are applied, what is observed of any inode is no earlier than before.
pub proof fn lemma_release_keeps_times(
    before: HandleTableView,
    after: HandleTableView,
    fh: u64,
    rel: Released,
    stored: FileAttr,
)
    requires
        before.wf(),
        after.wf(),
        after.read == before.read.remove(fh),
        after.write == before.write.remove(fh),
        rel.read_update == if before.read.contains_key(fh) {
            Some(
                InodeUpdate {
                    ino: before.read[fh].ino,
                    set_attr: before.read[fh].attr.spec_to_time_set_attr(),
                },
            )
        } else {
            None
        },
        rel.write_update == if before.write.contains_key(fh) {
            Some(
                InodeUpdate {
                    ino: before.write[fh].ino,
                    set_attr: before.write[fh].attr.spec_to_set_attr(),
                },
            )
        } else {
            None
        },
    ensures
        times_le(
            before.fused(stored),
            after.fused(applied(after, applied(after, stored, rel.read_update), rel.write_update)),
        ),
{
    let ino = stored.ino;
    let b = before.fused(stored);
    let s1 = applied(after, stored, rel.read_update);
    let s2 = applied(after, s1, rel.write_update);
    let o = after.fused(s2);
    lemma_fused(before, stored);
    assert forall|i: int| 0 <= i < 4 implies ts_le(#[trigger] time_of(b, i), time_of(o, i)) by {
        let a0 = after.fused(stored);
        let a1 = after.fused(s1);
        lemma_time_le_fused(after, stored, i);
        lemma_time_le_fused(after, s1, i);
        lemma_time_le_fused(after, s2, i);
        // stored <= a0 <= s1 <= a1 <= s2 <= o, each step where it applies
        match rel.read_update {
            Some(u) => if u.ino == ino {
                lemma_time_merged(a0, u.set_attr, i);
                lemma_snap_merged(a0, before.read[fh].attr, false, i);
            },
            None => {},
        }
        assert(s1.ino == ino);
        match rel.write_update {
            Some(u) => if u.ino == ino {
                lemma_time_merged(a1, u.set_attr, i);
                lemma_snap_merged(a1, before.write[fh].attr, true, i);
            },
            None => {},
        }
        lemma_ts_le_total_order(time_of(a0, i), time_of(a0, i), time_of(a0, i));
        lemma_ts_le_total_order(time_of(a1, i), time_of(a1, i), time_of(a1, i));
        let w_applies = rel.write_update is Some && rel.write_update->0.ino == ino;
        let r_applies = rel.read_update is Some && rel.read_update->0.ino == ino;
        if w_applies {
            lemma_ts_trans(time_of(s1, i), time_of(a1, i), time_of(s2, i));
            lemma_ts_trans(time_of(s1, i), time_of(s2, i), time_of(o, i));
            lemma_ts_trans(time_of(a1, i), time_of(s2, i), time_of(o, i));
        } else {
            assert(s2 == s1);
        }
        // now s1 <= o and a1 <= o
        if r_applies {
            lemma_ts_trans(time_of(a0, i), time_of(s1, i), time_of(o, i));
        } else {
            assert(s1 == stored);
        }
        assert(ts_le(time_of(s1, i), time_of(o, i)));
        assert(ts_le(time_of(a0, i), time_of(o, i)));
        lemma_fused(after, stored);
        if time_of(b, i) == time_of(stored, i) {
            lemma_ts_trans(time_of(stored, i), time_of(a0, i), time_of(o, i));
        } else if exists|f: u64| before.reads(f, ino) && time_of(b, i) == snap_time(before.read[f].attr, i) {
            let f = choose|f: u64| before.reads(f, ino) && time_of(b, i) == snap_time(before.read[f].attr, i);
            if f == fh {
                lemma_ts_trans(snap_time(before.read[fh].attr, i), time_of(s1, i), time_of(o, i));
            } else {
                assert(after.reads(f, ino));
                lemma_ts_trans(snap_time(before.read[f].attr, i), time_of(a0, i), time_of(o, i));
            }
        } else {
            let f = choose|f: u64| before.writes(f, ino) && time_of(b, i) == snap_time(before.write[f].attr, i);
            if f == fh {
                assert(s2 == merged(a1, before.write[fh].attr.spec_to_set_attr()));
                lemma_ts_trans(snap_time(before.write[fh].attr, i), time_of(s2, i), time_of(o, i));
            } else {
                assert(after.writes(f, ino));
                lemma_ts_trans(snap_time(before.write[f].attr, i), time_of(a0, i), time_of(o, i));
            }
        }
    }
    lemma_times_le_by_index(b, o);
}

/// What is observed of an inode does not move back when every handle open
/// on it stays open with timestamps no earlier than before.
proof fn lemma_grown_keeps_times(before: HandleTableView, after: HandleTableView, stored: FileAttr)
    requires
        before.wf(),
        after.wf(),
        forall|f: u64| #[trigger]
            before.reads(f, stored.ino) ==> after.reads(f, stored.ino)
                && forall|i: int|
                0 <= i < 4 ==> ts_le(
                    snap_time(before.read[f].attr, i),
                    #[trigger] snap_time(after.read[f].attr, i),
                ),
        forall|f: u64| #[trigger]
            before.writes(f, stored.ino) ==> after.writes(f, stored.ino) && forall|i: int|
                0 <= i < 4 ==> ts_le(
                    snap_time(before.write[f].attr, i),
                    #[trigger] snap_time(after.write[f].attr, i),
                ),
    ensures
        times_le(before.fused(stored), after.fused(stored)),
{
    let ino = stored.ino;
    let b = before.fused(stored);
    let a = after.fused(stored);
    lemma_fused(before, stored);
    lemma_fused(after, stored);
    assert forall|i: int| 0 <= i < 4 implies ts_le(#[trigger] time_of(b, i), time_of(a, i)) by {
        if time_of(b, i) != time_of(stored, i) {
            if exists|f: u64| before.reads(f, ino) && time_of(b, i) == snap_time(before.read[f].attr, i) {
                let f = choose|f: u64| before.reads(f, ino) && time_of(b, i) == snap_time(before.read[f].attr, i);
                assert(after.reads(f, ino));
                lemma_ts_trans(snap_time(before.read[f].attr, i), snap_time(after.read[f].attr, i), time_of(a, i));
            } else {
                let f = choose|f: u64| before.writes(f, ino) && time_of(b, i) == snap_time(before.write[f].attr, i);
                assert(after.writes(f, ino));
                lemma_ts_trans(snap_time(before.write[f].attr, i), snap_time(after.write[f].attr, i), time_of(a, i));
            }
        }
    }
    lemma_times_le_by_index(b, a);
}

/// Timestamp monotonicity across a read: when the clock has not gone back
/// behind the handle's access time, recording the access at `now` moves
/// nothing observed back.
pub proof fn lemma_read_keeps_times(
    before: HandleTableView,
    after: HandleTableView,
    fh: u64,
    now: Timestamp,
    stored: FileAttr,
)
    requires
        before.wf(),
        after.wf(),
        before.read.contains_key(fh),
        ts_le(before.read[fh].attr.atime, now),
        after == (HandleTableView {
            read: before.read.insert(
                fh,
                HandleContext {
                    attr: TimeAndSizeFileAttr { atime: now, ..before.read[fh].attr },
                    ..before.read[fh]
                },
            ),
            ..before
        }),
    ensures
        times_le(before.fused(stored), after.fused(stored)),
{
    assert forall|f: u64| #[trigger] before.reads(f, stored.ino) implies after.reads(f, stored.ino)
        && forall|i: int|
        0 <= i < 4 ==> ts_le(
            snap_time(before.read[f].attr, i),
            #[trigger] snap_time(after.read[f].attr, i),
        ) by {
        assert forall|i: int| 0 <= i < 4 implies ts_le(
            snap_time(before.read[f].attr, i),
            #[trigger] snap_time(after.read[f].attr, i),
        ) by {
            lemma_ts_le_total_order(snap_time(before.read[f].attr, i), now, now);
        }
    }
    assert forall|f: u64| #[trigger] before.writes(f, stored.ino) implies after.writes(f, stored.ino)
        && forall|i: int|
        0 <= i < 4 ==> ts_le(
            snap_time(before.write[f].attr, i),
            #[trigger] snap_time(after.write[f].attr, i),
        ) by {
        assert forall|i: int| 0 <= i < 4 implies ts_le(
            snap_time(before.write[f].attr, i),
            #[trigger] snap_time(after.write[f].attr, i),
        ) by {
            lemma_ts_le_total_order(snap_time(before.write[f].attr, i), now, now);
        }
    }
    lemma_grown_keeps_times(before, after, stored);
}

/// Timestamp monotonicity across a write: when the clock has not gone back
/// behind the handle's modification and change times, recording the write
/// at `now` moves nothing observed back.
pub proof fn lemma_write_keeps_times(
    before: HandleTableView,
    after: HandleTableView,
    fh: u64,
    pos: u64,
    now: Timestamp,
    stored: FileAttr,
)
    requires
        before.wf(),
        after.wf(),
        before.write.contains_key(fh),
        ts_le(before.write[fh].attr.mtime, now),
        ts_le(before.write[fh].attr.ctime, now),
        after == (HandleTableView {
            write: before.write.insert(
                fh,
                HandleContext {
                    attr: TimeAndSizeFileAttr {
                        size: if pos > before.write[fh].attr.size {
                            pos
                        } else {
                            before.write[fh].attr.size
                        },
                        mtime: now,
                        ctime: now,
                        ..before.write[fh].attr
                    },
                    ..before.write[fh]
                },
            ),
            ..before
        }),
    ensures
        times_le(before.fused(stored), after.fused(stored)),
{
    assert forall|f: u64| #[trigger] before.reads(f, stored.ino) implies after.reads(f, stored.ino)
        && forall|i: int|
        0 <= i < 4 ==> ts_le(
            snap_time(before.read[f].attr, i),
            #[trigger] snap_time(after.read[f].attr, i),
        ) by {
        assert forall|i: int| 0 <= i < 4 implies ts_le(
            snap_time(before.read[f].attr, i),
            #[trigger] snap_time(after.read[f].attr, i),
        ) by {
            lemma_ts_le_total_order(snap_time(before.read[f].attr, i), now, now);
        }
    }
    assert forall|f: u64| #[trigger] before.writes(f, stored.ino) implies after.writes(f, stored.ino)
        && forall|i: int|
        0 <= i < 4 ==> ts_le(
            snap_time(before.write[f].attr, i),
            #[trigger] snap_time(after.write[f].attr, i),
        ) by {
        assert forall|i: int| 0 <= i < 4 implies ts_le(
            snap_time(before.write[f].attr, i),
            #[trigger] snap_time(after.write[f].attr, i),
        ) by {
            lemma_ts_le_total_order(snap_time(before.write[f].attr, i), now, now);
        }
    }
    lemma_grown_keeps_times(before, after, stored);
}

/// Single writer: two write handles open on the same inode are the same
/// handle.
pub proof fn lemma_single_writer(t: HandleTableView, ino: u64, fh1: u64, fh2: u64)
    requires
        t.wf(),
        t.writes(fh1, ino),
        t.writes(fh2, ino),
    ensures
        fh1 == fh2,
{
    assert(t.write.contains_key(fh1) && t.write.contains_key(fh2));
}

/// Size fidelity after release: once a write handle is released and the
/// updates it hands back are applied, the observed size of its inode is the
/// size the handle ended with.
pub proof fn lemma_release_size(
    before: HandleTableView,
    after: HandleTableView,
    fh: u64,
    rel: Released,
    stored: FileAttr,
)
    requires
        before.wf(),
        after.wf(),
        before.write.contains_key(fh),
        stored.ino == before.write[fh].ino,
        after.writer == before.writer.remove(stored.ino),
        rel.read_update == if before.read.contains_key(fh) {
            Some(
                InodeUpdate {
                    ino: before.read[fh].ino,
                    set_attr: before.read[fh].attr.spec_to_time_set_attr(),
                },
            )
        } else {
            None
        },
        rel.write_update == Some(
            InodeUpdate {
                ino: before.write[fh].ino,
                set_attr: before.write[fh].attr.spec_to_set_attr(),
            },
        ),
    ensures
        after.fused(
            applied(after, applied(after, stored, rel.read_update), rel.write_update),
        ).size == before.write[fh].attr.size,
{
    let s1 = applied(after, stored, rel.read_update);
    lemma_fused(after, stored);
    assert(s1.ino == stored.ino);
    let s2 = applied(after, s1, rel.write_update);
    lemma_fused(after, s1);
    assert(s2.size == before.write[fh].attr.size);
    lemma_fused(after, s2);
}

/// Truncate idempotence: after a truncate to `size` (its update merged
/// into the observed record and stored, and an open writer's size reset to
/// the stored size), a second truncate to `size` plans nothing.
pub proof fn lemma_truncate_idempotent(
    t: HandleTableView,
    t2: HandleTableView,
    stored: FileAttr,
    size: u64,
    now: Timestamp,
)
    requires
        t.wf(),
        t2.wf(),
        spec_plan_truncate(t.fused(stored).kind, t.fused(stored).size, size) is Ok,
        t2.read == t.read,
        t2.readers == t.readers,
        t2.writer == t.writer,
        t2.write == if t.writer.contains_key(stored.ino) {
            t.write.insert(
                t.writer[stored.ino],
                HandleContext {
                    attr: TimeAndSizeFileAttr { size, ..t.write[t.writer[stored.ino]].attr },
                    ..t.write[t.writer[stored.ino]]
                },
            )
        } else {
            t.write
        },
    ensures
        ({
            let next = merged(t.fused(stored), spec_truncate_update(size, now));
            spec_plan_truncate(t2.fused(next).kind, t2.fused(next).size, size) == Ok::<
                TruncatePlan,
                FsError,
            >(TruncatePlan::NoOp)
        }),
{
    let next = merged(t.fused(stored), spec_truncate_update(size, now));
    lemma_fused(t, stored);
    assert(next.ino == stored.ino);
    lemma_fused(t2, next);
}

/// Round trip: right after `bytes` are written at `offset` into a file's
/// plaintext, a read of `bytes.len()` bytes at `offset` returns `bytes`,
/// whatever the file held before.
pub proof fn lemma_write_then_read(data: Seq<u8>, offset: nat, bytes: Seq<u8>)
    ensures
        spec_read(spec_written(data, offset as int, bytes), offset as int, bytes.len() as int)
            == bytes,
{
    let end = offset + bytes.len();
    let filled = if data.len() < end {
        resized(data, end as int)
    } else {
        data
    };
    assert(filled.len() >= end);
    let w = spec_written(data, offset as int, bytes);
    assert(w.len() == filled.len());
    if bytes.len() == 0 {
        assert(spec_read(w, offset as int, 0) =~= bytes);
    } else {
        assert(w.subrange(offset as int, end as int) =~= bytes);
    }
}

/// What is observed of an inode is the same for two stored records that
/// differ only in size and the same handle table, as far as timestamps go.
proof fn lemma_resize_keeps_times(t: HandleTableView, stored: FileAttr, size: u64)
    requires
        t.wf(),
    ensures
        times_le(t.fused(stored), t.fused(FileAttr { size, ..stored })),
{
    let s2 = FileAttr { size, ..stored };
    let ino = stored.ino;
    let b = t.fused(stored);
    let a = t.fused(s2);
    lemma_fused(t, stored);
    lemma_fused(t, s2);
    assert forall|i: int| 0 <= i < 4 implies ts_le(#[trigger] time_of(b, i), time_of(a, i)) by {
        assert(time_of(s2, i) == time_of(stored, i));
        if time_of(b, i) != time_of(stored, i) {
            if exists|f: u64| t.reads(f, ino) && time_of(b, i) == snap_time(t.read[f].attr, i) {
                let f = choose|f: u64| t.reads(f, ino) && time_of(b, i) == snap_time(t.read[f].attr, i);
                assert(t.reads(f, s2.ino));
            } else {
                let f = choose|f: u64| t.writes(f, ino) && time_of(b, i) == snap_time(t.write[f].attr, i);
                assert(t.writes(f, s2.ino));
            }
        }
    }
    lemma_times_le_by_index(b, a);
}

/// One change of the engine's state, seen from one inode: what happens to
/// the handle table and to that inode's stored record.
pub enum ObservedStep {
    /// `update_inode` of this inode with this update.
    Update(SetFileAttr),
    /// `open` handed out this handle, on any inode.
    Open(u64),
    /// `release` of this handle, on any inode, with the updates it handed
    /// back applied.
    Release(u64, Released),
    /// A read through this handle recorded at this time.
    Read(u64, Timestamp),
    /// A write through this handle, ending at this position, at this time.
    Write(u64, u64, Timestamp),
    /// The size a write handle holds was reset to this size.
    SetWriteSize(u64, u64),
    /// The stored size of this inode was rewritten to this size.
    Resize(u64),
    /// Work on other inodes only.
    Unchanged,
}

/// `step` leads from table `b` with stored record `s` to table `a` with
/// stored record `s2`, as the operations' contracts describe it; reads and
/// writes happen at times no earlier than the handle's own.
pub open spec fn step_ok(
    b: HandleTableView,
    s: FileAttr,
    step: ObservedStep,
    a: HandleTableView,
    s2: FileAttr,
) -> bool {
    match step {
        ObservedStep::Update(u) => a == b && s2 == merged(b.fused(s), u),
        ObservedStep::Open(fh) => {
            &&& s2 == s
            &&& fh == b.next
            &&& a.read == b.read || (exists|c: HandleContext| a.read == b.read.insert(fh, c))
            &&& a.write == b.write || (exists|c: HandleContext| a.write == b.write.insert(fh, c))
        },
        ObservedStep::Release(fh, rel) => {
            &&& a.read == b.read.remove(fh)
            &&& a.write == b.write.remove(fh)
            &&& rel.read_update == if b.read.contains_key(fh) {
                Some(
                    InodeUpdate {
                        ino: b.read[fh].ino,
                        set_attr: b.read[fh].attr.spec_to_time_set_attr(),
                    },
                )
            } else {
                None
            }
            &&& rel.write_update == if b.write.contains_key(fh) {
                Some(
                    InodeUpdate {
                        ino: b.write[fh].ino,
                        set_attr: b.write[fh].attr.spec_to_set_attr(),
                    },
                )
            } else {
                None
            }
            &&& s2 == applied(a, applied(a, s, rel.read_update), rel.write_update)
        },
        ObservedStep::Read(fh, now) => {
            &&& b.read.contains_key(fh)
            &&& ts_le(b.read[fh].attr.atime, now)
            &&& a == (HandleTableView {
                read: b.read.insert(
                    fh,
                    HandleContext {
                        attr: TimeAndSizeFileAttr { atime: now, ..b.read[fh].attr },
                        ..b.read[fh]
                    },
                ),
                ..b
            })
            &&& s2 == s
        },
        ObservedStep::Write(fh, pos, now) => {
            &&& b.write.contains_key(fh)
            &&& ts_le(b.write[fh].attr.mtime, now)
            &&& ts_le(b.write[fh].attr.ctime, now)
            &&& a == (HandleTableView {
                write: b.write.insert(
                    fh,
                    HandleContext {
                        attr: TimeAndSizeFileAttr {
                            size: if pos > b.write[fh].attr.size {
                                pos
                            } else {
                                b.write[fh].attr.size
                            },
                            mtime: now,
                            ctime: now,
                            ..b.write[fh].attr
                        },
                        ..b.write[fh]
                    },
                ),
                ..b
            })
            &&& s2 == s
        },
        ObservedStep::SetWriteSize(fh, size) => {
            &&& b.write.contains_key(fh)
            &&& a == (HandleTableView {
                write: b.write.insert(
                    fh,
                    HandleContext {
                        attr: TimeAndSizeFileAttr { size, ..b.write[fh].attr },
                        ..b.write[fh]
                    },
                ),
                ..b
            })
            &&& s2 == s
        },
        ObservedStep::Resize(size) => a == b && s2 == (FileAttr { size, ..s }),
        ObservedStep::Unchanged => a == b && s2 == s,
    }
}

/// No single step moves an observed timestamp back.
pub proof fn lemma_step_keeps_times(
    b: HandleTableView,
    s: FileAttr,
    step: ObservedStep,
    a: HandleTableView,
    s2: FileAttr,
)
    requires
        b.wf(),
        a.wf(),
        step_ok(b, s, step, a, s2),
    ensures
        times_le(b.fused(s), a.fused(s2)),
{
    match step {
        ObservedStep::Update(u) => {
            lemma_update_keeps_times(b, s, u);
        },
        ObservedStep::Open(fh) => {
            lemma_open_keeps_times(b, a, fh, s);
        },
        ObservedStep::Release(fh, rel) => {
            lemma_release_keeps_times(b, a, fh, rel, s);
        },
        ObservedStep::Read(fh, now) => {
            lemma_read_keeps_times(b, a, fh, now, s);
        },
        ObservedStep::Write(fh, pos, now) => {
            lemma_write_keeps_times(b, a, fh, pos, now, s);
        },
        ObservedStep::SetWriteSize(fh, size) => {
            assert forall|f: u64| #[trigger] b.reads(f, s.ino) implies a.reads(f, s.ino) && forall|
                i: int,
            |
                0 <= i < 4 ==> ts_le(
                    snap_time(b.read[f].attr, i),
                    #[trigger] snap_time(a.read[f].attr, i),
                ) by {
                assert forall|i: int| 0 <= i < 4 implies ts_le(
                    snap_time(b.read[f].attr, i),
                    #[trigger] snap_time(a.read[f].attr, i),
                ) by {
                    lemma_ts_le_total_order(snap_time(b.read[f].attr, i), snap_time(b.read[f].attr, i), snap_time(b.read[f].attr, i));
                }
            }
            assert forall|f: u64| #[trigger] b.writes(f, s.ino) implies a.writes(f, s.ino) && forall|
                i: int,
            |
                0 <= i < 4 ==> ts_le(
                    snap_time(b.write[f].attr, i),
                    #[trigger] snap_time(a.write[f].attr, i),
                ) by {
                assert forall|i: int| 0 <= i < 4 implies ts_le(
                    snap_time(b.write[f].attr, i),
                    #[trigger] snap_time(a.write[f].attr, i),
                ) by {
                    lemma_ts_le_total_order(snap_time(b.write[f].attr, i), snap_time(b.write[f].attr, i), snap_time(b.write[f].attr, i));
                }
            }
            lemma_grown_keeps_times(b, a, s);
        },
        ObservedStep::Resize(size) => {
            lemma_resize_keeps_times(b, s, size);
        },
        ObservedStep::Unchanged => {
            lemma_resize_keeps_times(b, s, s.size);
            assert(FileAttr { size: s.size, ..s } == s);
        },
    }
}

/// Timestamp monotonicity: along any sequence of steps, each of the access,
/// modification, change and creation times observed of an inode never goes
/// back, as long as reads and writes are recorded at times no earlier than
/// their handle's own.
pub proof fn lemma_observed_times_never_go_back(
    tables: Seq<HandleTableView>,
    records: Seq<FileAttr>,
    steps: Seq<ObservedStep>,
    i: int,
    j: int,
)
    requires
        tables.len() == steps.len() + 1,
        records.len() == tables.len(),
        forall|k: int| 0 <= k < tables.len() ==> #[trigger] tables[k].wf(),
        forall|k: int|
            0 <= k < steps.len() ==> step_ok(
                tables[k],
                records[k],
                #[trigger] steps[k],
                tables[k + 1],
                records[k + 1],
            ),
        0 <= i <= j < tables.len(),
    ensures
        times_le(tables[i].fused(records[i]), tables[j].fused(records[j])),
    decreases j - i,
{
    let first = tables[i].fused(records[i]);
    if i == j {
        lemma_ts_le_total_order(first.atime, first.atime, first.atime);
        lemma_ts_le_total_order(first.mtime, first.mtime, first.mtime);
        lemma_ts_le_total_order(first.ctime, first.ctime, first.ctime);
        lemma_ts_le_total_order(first.crtime, first.crtime, first.crtime);
    } else {
        lemma_observed_times_never_go_back(tables, records, steps, i, j - 1);
        assert(tables[j - 1].wf() && tables[j].wf());
        assert(step_ok(tables[j - 1], records[j - 1], steps[j - 1], tables[j], records[j]));
        lemma_step_keeps_times(tables[j - 1], records[j - 1], steps[j - 1], tables[j], records[j]);
        let mid = tables[j - 1].fused(records[j - 1]);
        let last = tables[j].fused(records[j]);
        lemma_ts_trans(first.atime, mid.atime, last.atime);
        lemma_ts_trans(first.mtime, mid.mtime, last.mtime);
        lemma_ts_trans(first.ctime, mid.ctime, last.ctime);
        lemma_ts_trans(first.crtime, mid.crtime, last.crtime);
    }
}

} // verus!
