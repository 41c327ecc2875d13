//! Persistence: the in-memory image of the journal's mapped region, the
//! append of one metadata record, the snapshot writer and reader, and the
//! checks a freshly read snapshot must pass.
//!
//! The caller owns the actual disk traffic: it writes `persist_metadata`'s
//! bytes to the snapshot file, mirrors the journal image to its backing
//! file, and hands the raw file contents back in at recovery.

use crate::bytesio::{spec_u64_to_be_bytes, u64_to_be_bytes, COUNTMAPSIZE};
use crate::decode::{dec_inode, dec_meta, dec_rows_at, dec_u64, dec_usize, dec_inode_at, dec_usize_at};
use crate::errnos::EILSEQ;
use crate::fs::{
    bytes_eq, dict_find, dict_unique, dict_v, fs_wf, inode_wf, tbl_find, tbl_lookup, tbl_unique,
    tbl_v, DirEntry, DirectoryInode, FilesystemMetadata, FilesystemMetadataV, Inode, InodePair,
    InodePairV, InodeV, DIRTABLE_CAP, NAME_CAP, NEXTINODE_CAP,
};
use crate::serial::{enc_logentry, enc_meta, serialize_logentry, serialize_metadata};
use vstd::prelude::*;

verus! {

pub const MAP_1MB: usize = 1048576;

/// Machine cap on the journal's size.
pub const JOURNAL_CAP: usize = 0x40000000;

/// The in-memory image of the journal: the valid bytes of its data region
/// and the size the mapped region has grown to.  The on-disk file carries
/// the byte count as an 8-byte big-endian header before the data.
#[derive(Debug)]
pub struct EmulatedFileMap {
    pub count: usize,
    pub data: Vec<u8>,
    pub mapsize: usize,
}

pub ghost struct EmulatedFileMapV {
    pub count: usize,
    pub data: Seq<u8>,
    pub mapsize: usize,
}

impl View for EmulatedFileMap {
    type V = EmulatedFileMapV;

    open spec fn view(&self) -> EmulatedFileMapV {
        EmulatedFileMapV { count: self.count, data: self.data@, mapsize: self.mapsize }
    }
}

pub open spec fn map_wf(m: EmulatedFileMapV) -> bool {
    &&& m.count == m.data.len()
    &&& m.count <= m.mapsize
    &&& m.mapsize <= JOURNAL_CAP
}

impl EmulatedFileMap {
    /// A fresh, empty journal image with one region's worth of space.
    pub fn new() -> (r: EmulatedFileMap)
        ensures
            map_wf(r@),
            r@.data == Seq::<u8>::empty(),
            r@.count == 0,
    {
        EmulatedFileMap { count: 0, data: Vec::new(), mapsize: MAP_1MB - COUNTMAPSIZE }
    }

    /// Append bytes to the journal image, growing the region as needed; the
    /// journal refuses to grow past its machine cap.
    pub fn write_to_map(&mut self, bytes_to_write: &Vec<u8>) -> (r: i32)
        requires
            map_wf(old(self)@),
        ensures
            map_wf(final(self)@),
            r == 0 || r == -(EILSEQ as i32),
            (r == 0) == (old(self)@.count + bytes_to_write@.len() <= JOURNAL_CAP as nat),
            r == 0 ==> final(self)@.data == old(self)@.data + bytes_to_write@,
            r != 0 ==> final(self)@ == old(self)@,
            final(self)@.mapsize >= old(self)@.mapsize,
            old(self)@.count + bytes_to_write@.len() <= old(self)@.mapsize ==> final(self)@.mapsize
                == old(self)@.mapsize,
            (final(self)@.mapsize - old(self)@.mapsize) % (MAP_1MB as int) == 0 || final(self)@.mapsize == JOURNAL_CAP,
            r == 0 ==> final(self)@.mapsize == old(self)@.mapsize || final(self)@.mapsize
                == JOURNAL_CAP || final(self)@.mapsize < final(self)@.count + MAP_1MB,
    {
        let writelen = bytes_to_write.len();
        if writelen > JOURNAL_CAP - self.count {
            return -EILSEQ;
        }
        while self.mapsize - self.count < writelen
            invariant
                map_wf(self@),
                self.count + writelen <= JOURNAL_CAP,
                self.count == old(self).count,
                self.data == old(self).data,
                self.mapsize >= old(self).mapsize,
                (self.mapsize - old(self).mapsize) % (MAP_1MB as int) == 0 || self.mapsize
                    == JOURNAL_CAP,
                self.mapsize == old(self).mapsize || self.mapsize == JOURNAL_CAP || self.mapsize
                    < self.count + writelen + MAP_1MB,
                old(self).count + writelen <= old(self).mapsize ==> self.mapsize == old(self).mapsize,
            decreases JOURNAL_CAP - self.mapsize,
        {
            if self.mapsize > JOURNAL_CAP - MAP_1MB {
                self.mapsize = JOURNAL_CAP;
            } else {
                self.mapsize = self.mapsize + MAP_1MB;
            }
        }
        self.data.extend_from_slice(bytes_to_write.as_slice());
        self.count = self.count + writelen;
        0
    }

    /// The full on-disk image: the big-endian count header followed by the
    /// data region.
    pub fn full_log_bytes(&self) -> (r: Vec<u8>)
        requires
            map_wf(self@),
        ensures
            r@ == spec_u64_to_be_bytes(self@.count as u64) + self@.data,
    {
        let mut out = u64_to_be_bytes(self.count as u64);
        out.extend_from_slice(self.data.as_slice());
        proof {
            assert(out@ =~= spec_u64_to_be_bytes(self@.count as u64) + self@.data);
        }
        out
    }
}

/// Open a fresh journal.
pub fn create_log() -> (r: EmulatedFileMap)
    ensures
        map_wf(r@),
        r@.data == Seq::<u8>::empty(),
        r@.count == 0,
{
    EmulatedFileMap::new()
}

/// Append one mutation record to the journal: the inode's current binding,
/// or its absence.
pub fn log_metadata(metadata: &FilesystemMetadata, log: &mut EmulatedFileMap, inodenum: usize) -> (
    r: i32)
    requires
        map_wf(old(log)@),
        fs_wf(metadata@),
    ensures
        map_wf(final(log)@),
        r == 0 || r == -(EILSEQ as i32),
        (r == 0) == (old(log)@.count + enc_logentry(
            inodenum,
            tbl_lookup(metadata@.inodetable, inodenum),
        ).len() <= JOURNAL_CAP as nat),
        r == 0 ==> final(log)@.data == old(log)@.data + enc_logentry(
            inodenum,
            tbl_lookup(metadata@.inodetable, inodenum),
        ),
        r != 0 ==> final(log)@ == old(log)@,
{
    let entry = match tbl_find(&metadata.inodetable, inodenum) {
        Some(idx) => {
            proof {
                assert(tbl_v(metadata.inodetable@)[idx as int] == metadata.inodetable@[idx as int]@);
            }
            serialize_logentry(inodenum, &Some(&metadata.inodetable[idx].inode))
        },
        None => serialize_logentry(inodenum, &None),
    };
    log.write_to_map(&entry)
}

/// The serialized snapshot of the whole metadata, ready to be written to
/// the snapshot file.
pub fn persist_metadata(metadata: &FilesystemMetadata) -> (r: Vec<u8>)
    requires
        fs_wf(metadata@),
    ensures
        r@ == enc_meta(metadata@),
{
    serialize_metadata(metadata)
}

// ---------------------------------------------------------------------------
// Reading a snapshot back.
// ---------------------------------------------------------------------------

/// Decode a whole snapshot buffer.
pub fn deserialize_metadata(buf: &Vec<u8>) -> (r: Option<FilesystemMetadata>)
    ensures
        match r {
            Some(m) => dec_meta(buf@) == Some(m@),
            None => dec_meta(buf@) is None,
        },
{
    let (nextinode, p0) = match dec_usize(buf, 0) {
        Some(v) => v,
        None => {
            return None;
        },
    };
    if nextinode > NEXTINODE_CAP {
        return None;
    }
    let (dev_id, p1) = match dec_u64(buf, p0) {
        Some(v) => v,
        None => {
            return None;
        },
    };
    let (count, p2) = match dec_usize(buf, p1) {
        Some(v) => v,
        None => {
            return None;
        },
    };
    if count > NEXTINODE_CAP {
        return None;
    }
    let mut rows: Vec<InodePair> = Vec::new();
    let mut cur: usize = p2;
    let mut k: usize = 0;
    while k < count
        invariant
            k <= count,
            dec_rows_at(buf@, p2 as int, count as nat) == (match dec_rows_at(
                buf@,
                cur as int,
                (count - k) as nat,
            ) {
                Some(rp) => Some((tbl_v(rows@) + rp.0, rp.1)),
                None => None::<(Seq<InodePairV>, int)>,
            }),
            dec_meta(buf@) == (match dec_rows_at(buf@, p2 as int, count as nat) {
                Some(rp) => if rp.1 == buf@.len() {
                    Some(FilesystemMetadataV { nextinode, dev_id, inodetable: rp.0 })
                } else {
                    None
                },
                None => None::<FilesystemMetadataV>,
            }),
        decreases count - k,
    {
        let (num, c1) = match dec_usize(buf, cur) {
            Some(v) => v,
            None => {
                return None;
            },
        };
        if num > NEXTINODE_CAP {
            return None;
        }
        let (ino, c2) = match dec_inode(buf, c1) {
            Some(v) => v,
            None => {
                return None;
            },
        };
        let ghost tv0 = tbl_v(rows@);
        let ghost inov = ino@;
        rows.push(InodePair { num, inode: ino });
        proof {
            assert(tbl_v(rows@) =~= tv0.push(InodePairV { num, inode: inov }));
            assert forall|rest: Seq<InodePairV>|
                tv0 + (seq![InodePairV { num, inode: inov }] + rest) =~= tbl_v(rows@) + rest by {}
        }
        cur = c2;
        k = k + 1;
    }
    proof {
        assert(dec_rows_at(buf@, cur as int, 0) == Some((Seq::<InodePairV>::empty(), cur as int)));
        assert(tbl_v(rows@) + Seq::<InodePairV>::empty() =~= tbl_v(rows@));
    }
    if cur != buf.len() {
        return None;
    }
    let r = FilesystemMetadata { nextinode, dev_id, inodetable: rows };
    proof {
        assert(dec_meta(buf@) == Some(r@));
    }
    Some(r)
}

// ---------------------------------------------------------------------------
// Checking a snapshot that came from outside.
// ---------------------------------------------------------------------------

/// Whether one inode satisfies its structural invariant.
pub fn check_inode_wf(ino: &Inode) -> (r: bool)
    ensures
        r == inode_wf(ino@),
{
    match ino {
        Inode::Dir(d) => {
            let dict = &d.filename_to_inode_dict;
            if dict.len() > DIRTABLE_CAP {
                return false;
            }
            if d.linkcount as usize != 1 + dict.len() {
                return false;
            }
            let ghost dv = dict_v(dict@);
            let mut i: usize = 0;
            while i < dict.len()
                invariant
                    i <= dict@.len(),
                    dv == dict_v(dict@),
                    dv.len() == dict@.len(),
                    ino@ == InodeV::Dir(d@),
                    d@.dict == dv,
                    dict@.len() <= DIRTABLE_CAP,
                    d.linkcount == 1 + dict@.len(),
                    forall|a: int, b: int| 0 <= a < b < i ==> dv[a].name != dv[b].name,
                    forall|a: int| 0 <= a < i ==> (#[trigger] dv[a]).name.len() <= NAME_CAP as nat,
                decreases dict@.len() - i,
            {
                if dict[i].name.len() > NAME_CAP {
                    proof {
                        assert(dv[i as int] == dict@[i as int]@);
                    }
                    return false;
                }
                match dict_find(dict, &dict[i].name) {
                    Some(kk) => {
                        if kk != i {
                            proof {
                                assert(dv[kk as int].name == dv[i as int].name);
                                assert(kk < i || i < kk);
                            }
                            return false;
                        }
                    },
                    None => {
                        proof {
                            assert(dv[i as int] == dict@[i as int]@);
                            crate::fs::lemma_dict_none_no_index(dv, dv[i as int].name);
                            assert(false);
                        }
                    },
                }
                proof {
                    assert(dv[i as int] == dict@[i as int]@);
                    assert forall|a: int, b: int| 0 <= a < b < i + 1 implies dv[a].name
                        != dv[b].name by {
                        if b == i as int {
                            // a duplicate of an earlier name would have been
                            // found at its first index, not at i
                            if dv[a].name == dv[i as int].name {
                                crate::fs::lemma_dict_lookup_at(dv, dv[a].name, a);
                            }
                        }
                    }
                }
                i = i + 1;
            }
            proof {
                assert(dict_unique(dv));
            }
            true
        },
        _ => true,
    }
}

/// Whether the whole metadata satisfies the filesystem invariant.
pub fn check_fs_wf(m: &FilesystemMetadata) -> (r: bool)
    ensures
        r == fs_wf(m@),
{
    if m.nextinode > NEXTINODE_CAP {
        return false;
    }
    if m.inodetable.len() > NEXTINODE_CAP {
        return false;
    }
    let t = &m.inodetable;
    let ghost tv = tbl_v(t@);
    let mut i: usize = 0;
    while i < t.len()
        invariant
            i <= t@.len(),
            tv == tbl_v(t@),
            tv.len() == t@.len(),
            tv == m@.inodetable,
            m@.nextinode <= NEXTINODE_CAP,
            m@.inodetable.len() <= NEXTINODE_CAP as nat,
            forall|a: int, b: int| 0 <= a < b < i ==> tv[a].num != tv[b].num,
            forall|a: int|
                0 <= a < i ==> (#[trigger] tv[a]).num < m@.nextinode && inode_wf(tv[a].inode),
        decreases t@.len() - i,
    {
        proof {
            assert(tv[i as int] == t@[i as int]@);
        }
        if t[i].num >= m.nextinode {
            return false;
        }
        if !check_inode_wf(&t[i].inode) {
            return false;
        }
        match tbl_find(t, t[i].num) {
            Some(kk) => {
                if kk != i {
                    proof {
                        assert(tv[kk as int].num == tv[i as int].num);
                    }
                    return false;
                }
            },
            None => {
                proof {
                    crate::fs::lemma_tbl_none_no_index(tv, tv[i as int].num);
                    assert(false);
                }
            },
        }
        proof {
            assert forall|a: int, b: int| 0 <= a < b < i + 1 implies tv[a].num != tv[b].num by {
                if b == i as int {
                    if tv[a].num == tv[i as int].num {
                        crate::fs::lemma_tbl_lookup_at(tv, tv[a].num, a);
                    }
                }
            }
        }
        i = i + 1;
    }
    proof {
        assert(tbl_unique(tv));
    }
    true
}

impl FilesystemMetadata {
    /// Read the snapshot back into metadata: absent means a fresh format
    /// is wanted; present bytes must decode and satisfy the invariant.
    pub fn init_fs_metadata(snapshot: &Option<Vec<u8>>, time: u64) -> (r: Result<
        FilesystemMetadata,
        i32,
    >)
        ensures
            match snapshot {
                None => r matches Ok(m) && m@ == crate::fs::blank_fs_view(time),
                Some(b) => match r {
                    Ok(m) => dec_meta(b@) == Some(m@) && fs_wf(m@),
                    Err(e) => e == -(EILSEQ as i32) && (dec_meta(b@) is None || !fs_wf(
                        dec_meta(b@)->Some_0,
                    )),
                },
            },
    {
        match snapshot {
            None => Ok(FilesystemMetadata::blank_fs_init(time)),
            Some(b) => {
                match deserialize_metadata(b) {
                    Some(m) => {
                        if check_fs_wf(&m) {
                            Ok(m)
                        } else {
                            Err(-EILSEQ)
                        }
                    },
                    None => Err(-EILSEQ),
                }
            },
        }
    }
}

} // verus!
