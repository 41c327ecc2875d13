//! Startup recovery: replaying the journal over a snapshot, and the laws
//! that replay obeys.

use crate::bytesio::{spec_u64_from_be_bytes, u64_from_be_bytes};
use crate::decode::{dec_logentry, dec_records};
use crate::errnos::EILSEQ;
use crate::fs::{
    format_fs, format_fs_view, fs_wf, fsck, fsck_filter, inode_wf, tbl_lookup, tbl_unique, tbl_v,
    FilesystemMetadata, FilesystemMetadataV, Inode, InodePair, InodePairV, InodeV, NEXTINODE_CAP,
};
use crate::persist::{check_inode_wf, deserialize_metadata, check_fs_wf};
use crate::fs::tbl_find;
use crate::decode::dec_meta;
use vstd::prelude::*;
use vstd::slice::slice_subrange;

verus! {

/// The index of the first row holding `n`, or -1.
pub open spec fn tbl_index_of(s: Seq<InodePairV>, n: usize) -> int
    decreases s.len(),
{
    if s.len() == 0 {
        -1
    } else if s[0].num == n {
        0
    } else {
        let r = tbl_index_of(s.skip(1), n);
        if r == -1 {
            -1
        } else {
            1 + r
        }
    }
}

pub proof fn lemma_tbl_index_of(s: Seq<InodePairV>, n: usize)
    ensures
        tbl_index_of(s, n) == -1 ==> forall|j: int| 0 <= j < s.len() ==> s[j].num != n,
        tbl_index_of(s, n) != -1 ==> {
            let i = tbl_index_of(s, n);
            &&& 0 <= i < s.len()
            &&& s[i].num == n
            &&& forall|j: int| 0 <= j < i ==> s[j].num != n
        },
    decreases s.len(),
{
    if s.len() > 0 && s[0].num != n {
        lemma_tbl_index_of(s.skip(1), n);
        let r = tbl_index_of(s.skip(1), n);
        if r == -1 {
            assert forall|j: int| 0 <= j < s.len() implies s[j].num != n by {
                if j > 0 {
                    assert(s.skip(1)[j - 1].num != n);
                }
            }
        } else {
            assert(s[1 + r] == s.skip(1)[r]);
            assert forall|j: int| 0 <= j < 1 + r implies s[j].num != n by {
                if j > 0 {
                    assert(s.skip(1)[j - 1].num != n);
                }
            }
        }
    }
}

/// Apply one journal record to the table: a `Some` record binds (or
/// rebinds) an inode number, a `None` record unbinds it.  The step refuses
/// a malformed inode or a table grown past the machine cap.
pub open spec fn apply_record(t: Seq<InodePairV>, r: (usize, Option<InodeV>)) -> Option<
    Seq<InodePairV>,
> {
    match r.1 {
        Some(ino) => if !inode_wf(ino) {
            None
        } else {
            let i = tbl_index_of(t, r.0);
            if i >= 0 {
                Some(t.update(i, InodePairV { num: r.0, inode: ino }))
            } else if t.len() < NEXTINODE_CAP as nat {
                Some(t.push(InodePairV { num: r.0, inode: ino }))
            } else {
                None
            }
        },
        None => {
            let i = tbl_index_of(t, r.0);
            if i >= 0 {
                Some(t.remove(i))
            } else {
                Some(t)
            }
        },
    }
}

/// Replay a record sequence in order.
pub open spec fn replay_steps(t: Seq<InodePairV>, recs: Seq<(usize, Option<InodeV>)>) -> Option<
    Seq<InodePairV>,
>
    decreases recs.len(),
{
    if recs.len() == 0 {
        Some(t)
    } else {
        match apply_record(t, recs[0]) {
            Some(t1) => replay_steps(t1, recs.skip(1)),
            None => None,
        }
    }
}

/// The largest inode number a `Some` record binds, starting from `base`.
pub open spec fn records_max(recs: Seq<(usize, Option<InodeV>)>, base: usize) -> usize
    decreases recs.len(),
{
    if recs.len() == 0 {
        base
    } else {
        let base1 = if recs[0].1 is Some && recs[0].0 > base {
            recs[0].0
        } else {
            base
        };
        records_max(recs.skip(1), base1)
    }
}

/// What one inode number resolves to after a replay, in terms of the
/// records alone.
pub open spec fn replay_lookup(
    recs: Seq<(usize, Option<InodeV>)>,
    n: usize,
    base: Option<InodeV>,
) -> Option<InodeV>
    decreases recs.len(),
{
    if recs.len() == 0 {
        base
    } else {
        replay_lookup(
            recs.skip(1),
            n,
            if recs[0].0 == n {
                recs[0].1
            } else {
                base
            },
        )
    }
}

pub proof fn lemma_apply_record(t: Seq<InodePairV>, r: (usize, Option<InodeV>))
    requires
        tbl_unique(t),
        apply_record(t, r) is Some,
    ensures
        tbl_unique(apply_record(t, r)->Some_0),
        forall|n: usize| #[trigger]
            tbl_lookup(apply_record(t, r)->Some_0, n) == if n == r.0 {
                r.1
            } else {
                tbl_lookup(t, n)
            },
{
    lemma_tbl_index_of(t, r.0);
    let i = tbl_index_of(t, r.0);
    let t1 = apply_record(t, r)->Some_0;
    match r.1 {
        Some(ino) => {
            if i >= 0 {
                assert forall|n: usize| #[trigger]
                    tbl_lookup(t1, n) == (if n == r.0 {
                        r.1
                    } else {
                        tbl_lookup(t, n)
                    }) by {
                    crate::fs::lemma_tbl_lookup_update(
                        t,
                        r.0,
                        i,
                        InodePairV { num: r.0, inode: ino },
                        n,
                    );
                }
                assert(tbl_unique(t1)) by {
                    assert(forall|j: int| 0 <= j < t1.len() ==> t1[j].num == t[j].num);
                }
            } else {
                crate::fs::lemma_tbl_lookup_none(t, r.0);
                assert forall|n: usize| #[trigger]
                    tbl_lookup(t1, n) == (if n == r.0 {
                        r.1
                    } else {
                        tbl_lookup(t, n)
                    }) by {
                    crate::fs::lemma_tbl_lookup_push(t, InodePairV { num: r.0, inode: ino }, n);
                }
                assert(tbl_unique(t1)) by {
                    assert(forall|j: int| 0 <= j < t.len() ==> t1[j] == t[j]);
                    assert(forall|j: int| 0 <= j < t.len() ==> t[j].num != r.0);
                }
            }
        },
        None => {
            if i >= 0 {
                assert forall|n: usize| #[trigger]
                    tbl_lookup(t1, n) == (if n == r.0 {
                        r.1
                    } else {
                        tbl_lookup(t, n)
                    }) by {
                    crate::fs::lemma_tbl_lookup_remove(t, r.0, i, n);
                }
                assert(tbl_unique(t1)) by {
                    assert(forall|j: int|
                        0 <= j < t1.len() ==> t1[j] == (if j < i {
                            t[j]
                        } else {
                            t[j + 1]
                        }));
                }
            } else {
                crate::fs::lemma_tbl_lookup_none(t, r.0);
            }
        },
    }
}

/// A replayed table resolves every inode number to what the records say:
/// the last record for that number wins, and untouched numbers keep their
/// snapshot binding.
pub proof fn lemma_replay_steps_lookup(t: Seq<InodePairV>, recs: Seq<(usize, Option<InodeV>)>)
    requires
        tbl_unique(t),
        replay_steps(t, recs) is Some,
    ensures
        tbl_unique(replay_steps(t, recs)->Some_0),
        forall|n: usize| #[trigger]
            tbl_lookup(replay_steps(t, recs)->Some_0, n) == replay_lookup(
                recs,
                n,
                tbl_lookup(t, n),
            ),
    decreases recs.len(),
{
    if recs.len() == 0 {
    } else {
        let t1 = apply_record(t, recs[0])->Some_0;
        lemma_apply_record(t, recs[0]);
        lemma_replay_steps_lookup(t1, recs.skip(1));
    }
}

pub proof fn lemma_replay_lookup_untouched(
    recs: Seq<(usize, Option<InodeV>)>,
    n: usize,
    b: Option<InodeV>,
)
    requires
        forall|k: int| 0 <= k < recs.len() ==> (#[trigger] recs[k]).0 != n,
    ensures
        replay_lookup(recs, n, b) == b,
    decreases recs.len(),
{
    if recs.len() > 0 {
        lemma_replay_lookup_untouched(recs.skip(1), n, b);
    }
}

pub proof fn lemma_replay_lookup_touched(
    recs: Seq<(usize, Option<InodeV>)>,
    n: usize,
    b1: Option<InodeV>,
    b2: Option<InodeV>,
)
    requires
        exists|k: int| 0 <= k < recs.len() && (#[trigger] recs[k]).0 == n,
    ensures
        replay_lookup(recs, n, b1) == replay_lookup(recs, n, b2),
    decreases recs.len(),
{
    let k = choose|k: int| 0 <= k < recs.len() && (#[trigger] recs[k]).0 == n;
    if recs[0].0 == n {
        assert(replay_lookup(recs, n, b1) == replay_lookup(recs.skip(1), n, recs[0].1));
    } else {
        assert(recs.skip(1)[k - 1].0 == n);
        lemma_replay_lookup_touched(recs.skip(1), n, b1, b2);
    }
}

/// Journal replay is idempotent on the inode table: replaying the records
/// a second time over an already-replayed table leaves every binding as it
/// was.  (The `nextinode` counter is not covered: each replay advances it
/// by one even when the records bind nothing new.)
pub proof fn lemma_journal_replay_idempotent(
    recs: Seq<(usize, Option<InodeV>)>,
    n: usize,
    base: Option<InodeV>,
)
    ensures
        replay_lookup(recs, n, replay_lookup(recs, n, base)) == replay_lookup(recs, n, base),
{
    if exists|k: int| 0 <= k < recs.len() && (#[trigger] recs[k]).0 == n {
        lemma_replay_lookup_touched(recs, n, replay_lookup(recs, n, base), base);
    } else {
        assert(forall|k: int| 0 <= k < recs.len() ==> (#[trigger] recs[k]).0 != n);
        lemma_replay_lookup_untouched(recs, n, base);
        lemma_replay_lookup_untouched(recs, n, replay_lookup(recs, n, base));
    }
}

/// The table-level form: replaying the same records twice from the same
/// snapshot table gives the same table, binding for binding.
pub proof fn lemma_replay_steps_idempotent(
    t: Seq<InodePairV>,
    recs: Seq<(usize, Option<InodeV>)>,
    t1: Seq<InodePairV>,
    t2: Seq<InodePairV>,
)
    requires
        tbl_unique(t),
        replay_steps(t, recs) == Some(t1),
        replay_steps(t1, recs) == Some(t2),
    ensures
        forall|n: usize| #[trigger] tbl_lookup(t2, n) == tbl_lookup(t1, n),
{
    lemma_replay_steps_lookup(t, recs);
    lemma_replay_steps_lookup(t1, recs);
    assert forall|n: usize| #[trigger] tbl_lookup(t2, n) == tbl_lookup(t1, n) by {
        lemma_journal_replay_idempotent(recs, n, tbl_lookup(t, n));
    }
}

} // verus!

verus! {

pub open spec fn rec_v(t: (usize, Option<Inode>)) -> (usize, Option<InodeV>) {
    (
        t.0,
        match t.1 {
            Some(i) => Some(i@),
            None => None,
        },
    )
}

pub open spec fn recs_v(s: Seq<(usize, Option<Inode>)>) -> Seq<(usize, Option<InodeV>)> {
    s.map_values(|t: (usize, Option<Inode>)| rec_v(t))
}

/// The records held by a raw journal file: an 8-byte big-endian count of
/// valid bytes, then exactly that many bytes of records.
pub open spec fn journal_records(j: Seq<u8>) -> Option<Seq<(usize, Option<InodeV>)>> {
    if j.len() >= 8 {
        let size = spec_u64_from_be_bytes(j.subrange(0, 8)) as int;
        if size + 8 <= j.len() {
            dec_records(j.subrange(8, 8 + size), 0)
        } else {
            None
        }
    } else {
        None
    }
}

/// Load the filesystem at startup.  An absent snapshot formats afresh
/// (whatever journal is lying around is unusable alone).  A present
/// snapshot is decoded and checked; a present journal is then replayed
/// over it record by record, `nextinode` moves past every replayed inode
/// number, and `fsck` sweeps out the inodes whose invariants no longer
/// hold.  Any undecodable or ill-formed byte is fatal corruption.
#[verifier::rlimit(100)]
pub fn load_fs(snapshot: &Option<Vec<u8>>, journal: &Option<Vec<u8>>, time: u64) -> (r: Result<
    FilesystemMetadata,
    i32,
>)
    ensures
        match snapshot {
            None => r matches Ok(m) && m@ == format_fs_view(time) && fs_wf(m@),
            Some(b) => {
                match journal {
                    None => {
                        &&& (r matches Ok(m) ==> dec_meta(b@) == Some(m@) && fs_wf(m@))
                        &&& (r matches Err(e) ==> e == -(EILSEQ as i32))
                        &&& (({
                            &&& dec_meta(b@) matches Some(v)
                            &&& fs_wf(v)
                        }) ==> r is Ok)
                    },
                    Some(j) => {
                        &&& (r matches Ok(m) ==> {
                            &&& dec_meta(b@) is Some
                            &&& fs_wf(dec_meta(b@)->Some_0)
                            &&& journal_records(j@) is Some
                            &&& {
                                let base = dec_meta(b@)->Some_0;
                                let recs = journal_records(j@)->Some_0;
                                &&& replay_steps(base.inodetable, recs) is Some
                                &&& records_max(recs, base.nextinode) < NEXTINODE_CAP
                                &&& m@.nextinode == records_max(recs, base.nextinode) + 1
                                &&& m@.dev_id == base.dev_id
                                &&& (forall|n: usize| #[trigger]
                                    tbl_lookup(m@.inodetable, n) == fsck_filter(
                                        replay_lookup(recs, n, tbl_lookup(base.inodetable, n)),
                                    ))
                                &&& fs_wf(m@)
                            }
                        })
                        &&& (r matches Err(e) ==> e == -(EILSEQ as i32))
                        &&& (({
                            &&& dec_meta(b@) matches Some(v)
                            &&& fs_wf(v)
                            &&& journal_records(j@) matches Some(recs)
                            &&& replay_steps(v.inodetable, recs) is Some
                            &&& records_max(recs, v.nextinode) < NEXTINODE_CAP
                        }) ==> r is Ok)
                    },
                }
            },
        },
{
    let b = match snapshot {
        None => {
            // a journal with no snapshot cannot be recovered alone: reformat
            return Ok(format_fs(time));
        },
        Some(b) => b,
    };
    let mut m = match deserialize_metadata(b) {
        Some(m) => m,
        None => {
            return Err(-EILSEQ);
        },
    };
    if !check_fs_wf(&m) {
        return Err(-EILSEQ);
    }
    let j = match journal {
        None => {
            return Ok(m);
        },
        Some(j) => j,
    };
    if j.len() < 8 {
        return Err(-EILSEQ);
    }
    let hdr = slice_subrange(j.as_slice(), 0, 8);
    let size64 = u64_from_be_bytes(hdr);
    if size64 > (j.len() - 8) as u64 {
        return Err(-EILSEQ);
    }
    let size = size64 as usize;

    // copy out the valid record region
    let mut region: Vec<u8> = Vec::new();
    let mut c: usize = 0;
    while c < size
        invariant
            c <= size,
            size + 8 <= j@.len(),
            j@.len() <= usize::MAX,
            snapshot is Some,
            b@ == snapshot->Some_0@,
            journal is Some,
            j@ == journal->Some_0@,
            region@ == j@.subrange(8, 8 + c as int),
        decreases size - c,
    {
        region.push(j[8 + c]);
        proof {
            assert(j@.subrange(8, 8 + (c + 1) as int) =~= j@.subrange(8, 8 + c as int).push(
                j@[8 + c],
            ));
        }
        c = c + 1;
    }
    let ghost regionv = j@.subrange(8, 8 + size as int);

    // parse the region into records
    let mut recs: Vec<(usize, Option<Inode>)> = Vec::new();
    let mut pos: usize = 0;
    while pos < region.len()
        invariant
            pos <= region@.len(),
            region@ == regionv,
            snapshot is Some,
            b@ == snapshot->Some_0@,
            journal is Some,
            j@ == journal->Some_0@,
            journal_records(j@) == dec_records(regionv, 0),
            dec_meta(b@) is Some,
            fs_wf(dec_meta(b@)->Some_0),
            forall|k: int|
                0 <= k < recs@.len() ==> (#[trigger] recs_v(recs@)[k]).0 <= NEXTINODE_CAP,
            dec_records(region@, 0) == (match dec_records(region@, pos as int) {
                Some(rest) => Some(recs_v(recs@) + rest),
                None => None::<Seq<(usize, Option<InodeV>)>>,
            }),
        decreases region@.len() - pos,
    {
        match dec_logentry(&region, pos) {
            Some((rec, p2)) => {
                if p2 <= pos || p2 > region.len() {
                    return Err(-EILSEQ);
                }
                let ghost r0 = recs_v(recs@);
                let ghost recvv = rec_v(rec);
                recs.push(rec);
                proof {
                    assert(recs_v(recs@) =~= r0.push(recvv));
                    assert forall|rest: Seq<(usize, Option<InodeV>)>|
                        r0 + (seq![recvv] + rest) =~= recs_v(recs@) + rest by {}
                }
                pos = p2;
            },
            None => {
                return Err(-EILSEQ);
            },
        }
    }
    proof {
        assert(dec_records(region@, pos as int) == Some(Seq::<(usize, Option<InodeV>)>::empty()));
        assert(recs_v(recs@) + Seq::<(usize, Option<InodeV>)>::empty() =~= recs_v(recs@));
        assert(journal_records(j@) == Some(recs_v(recs@)));
    }

    // replay the records over the snapshot
    let ghost recsv = recs_v(recs@);
    let ghost basev = m@;
    let ghost basetable = tbl_v(m.inodetable@);
    let base_next = m.nextinode;
    let mut maxino: usize = m.nextinode;
    let mut i: usize = 0;
    proof {
        assert(recsv.skip(0) =~= recsv);
    }
    while i < recs.len()
        invariant
            i <= recs@.len(),
            recsv == recs_v(recs@),
            snapshot is Some,
            b@ == snapshot->Some_0@,
            journal is Some,
            j@ == journal->Some_0@,
            journal_records(j@) == Some(recsv),
            dec_meta(b@) == Some(basev),
            fs_wf(basev),
            basetable == basev.inodetable,
            base_next == basev.nextinode,
            recsv.len() == recs@.len(),
            forall|k: int| 0 <= k < recsv.len() ==> (#[trigger] recsv[k]).0 <= NEXTINODE_CAP,
            tbl_unique(tbl_v(m.inodetable@)),
            m.inodetable@.len() <= NEXTINODE_CAP,
            maxino <= NEXTINODE_CAP,
            base_next <= maxino,
            m.nextinode == basev.nextinode,
            m.dev_id == basev.dev_id,
            forall|k: int|
                0 <= k < m.inodetable@.len() ==> (#[trigger] tbl_v(m.inodetable@)[k]).num <= maxino
                    && inode_wf(tbl_v(m.inodetable@)[k].inode),
            replay_steps(basetable, recsv) == replay_steps(
                tbl_v(m.inodetable@),
                recsv.skip(i as int),
            ),
            records_max(recsv, base_next) == records_max(recsv.skip(i as int), maxino),
        decreases recs@.len() - i,
    {
        proof {
            assert(recsv[i as int] == rec_v(recs@[i as int]));
            assert(recsv.skip(i as int)[0] == recsv[i as int]);
            assert(recsv.skip(i as int).skip(1) =~= recsv.skip(i + 1 as int));
        }
        let ghost cur = tbl_v(m.inodetable@);
        let num = recs[i].0;
        match &recs[i].1 {
            Some(ino) => {
                if !check_inode_wf(ino) {
                    proof {
                        assert(apply_record(cur, recsv[i as int]) is None);
                    }
                    return Err(-EILSEQ);
                }
                if num > maxino {
                    maxino = num;
                }
                let newinode = crate::fs::clone_inode(ino);
                proof {
                    assert(recsv[i as int].1 == Some(ino@));
                }
                match tbl_find(&m.inodetable, num) {
                    Some(idx) => {
                        proof {
                            assert(cur[idx as int] == m.inodetable@[idx as int]@);
                            lemma_tbl_index_of(cur, num);
                            let io = tbl_index_of(cur, num);
                            if io < idx {
                                assert(cur[io].num == num);
                            }
                            assert(io == idx);
                        }
                        let ghost seq0 = m.inodetable@;
                        m.inodetable.remove(idx);
                        m.inodetable.insert(idx, InodePair { num, inode: newinode });
                        proof {
                            let p = InodePairV { num, inode: ino@ };
                            assert(tbl_v(m.inodetable@) =~= cur.update(idx as int, p));
                            assert(apply_record(cur, recsv[i as int]) == Some(
                                tbl_v(m.inodetable@),
                            ));
                            assert forall|k: int|
                                0 <= k < m.inodetable@.len() implies (#[trigger] tbl_v(
                                m.inodetable@,
                            )[k]).num <= maxino && inode_wf(tbl_v(m.inodetable@)[k].inode) by {
                                if k != idx {
                                    assert(tbl_v(m.inodetable@)[k] == cur[k]);
                                }
                            }
                        }
                    },
                    None => {
                        proof {
                            lemma_tbl_index_of(cur, num);
                            crate::fs::lemma_tbl_none_no_index(cur, num);
                            assert(tbl_index_of(cur, num) == -1) by {
                                if tbl_index_of(cur, num) >= 0 {
                                    assert(cur[tbl_index_of(cur, num)].num == num);
                                }
                            }
                        }
                        if m.inodetable.len() >= NEXTINODE_CAP {
                            proof {
                                assert(apply_record(cur, recsv[i as int]) is None);
                            }
                            return Err(-EILSEQ);
                        }
                        m.inodetable.push(InodePair { num, inode: newinode });
                        proof {
                            let p = InodePairV { num, inode: ino@ };
                            assert(tbl_v(m.inodetable@) =~= cur.push(p));
                            assert(apply_record(cur, recsv[i as int]) == Some(
                                tbl_v(m.inodetable@),
                            ));
                            assert forall|k: int|
                                0 <= k < m.inodetable@.len() implies (#[trigger] tbl_v(
                                m.inodetable@,
                            )[k]).num <= maxino && inode_wf(tbl_v(m.inodetable@)[k].inode) by {
                                if k < cur.len() {
                                    assert(tbl_v(m.inodetable@)[k] == cur[k]);
                                }
                            }
                        }
                    },
                }
            },
            None => {
                proof {
                    assert(recsv[i as int].1 is None);
                }
                match tbl_find(&m.inodetable, num) {
                    Some(idx) => {
                        proof {
                            assert(cur[idx as int] == m.inodetable@[idx as int]@);
                            lemma_tbl_index_of(cur, num);
                            let io = tbl_index_of(cur, num);
                            if io < idx {
                                assert(cur[io].num == num);
                            }
                            assert(io == idx);
                        }
                        m.inodetable.remove(idx);
                        proof {
                            assert(tbl_v(m.inodetable@) =~= cur.remove(idx as int));
                            assert(apply_record(cur, recsv[i as int]) == Some(
                                tbl_v(m.inodetable@),
                            ));
                            assert forall|k: int|
                                0 <= k < m.inodetable@.len() implies (#[trigger] tbl_v(
                                m.inodetable@,
                            )[k]).num <= maxino && inode_wf(tbl_v(m.inodetable@)[k].inode) by {
                                if k < idx {
                                    assert(tbl_v(m.inodetable@)[k] == cur[k]);
                                } else {
                                    assert(tbl_v(m.inodetable@)[k] == cur[k + 1]);
                                }
                            }
                        }
                    },
                    None => {
                        proof {
                            lemma_tbl_index_of(cur, num);
                            crate::fs::lemma_tbl_none_no_index(cur, num);
                            assert(tbl_index_of(cur, num) == -1) by {
                                if tbl_index_of(cur, num) >= 0 {
                                    assert(cur[tbl_index_of(cur, num)].num == num);
                                }
                            }
                            assert(apply_record(cur, recsv[i as int]) == Some(
                                tbl_v(m.inodetable@),
                            ));
                        }
                    },
                }
            },
        }
        proof {
            lemma_apply_record(cur, recsv[i as int]);
        }
        i = i + 1;
    }
    proof {
        assert(recsv.skip(recs@.len() as int) =~= Seq::<(usize, Option<InodeV>)>::empty());
    }
    if maxino >= NEXTINODE_CAP {
        return Err(-EILSEQ);
    }
    m.nextinode = maxino + 1;
    proof {
        assert(fs_wf(m@));
        crate::recover::lemma_replay_steps_lookup(basetable, recsv);
    }
    fsck(&mut m);
    Ok(m)
}

} // verus!
