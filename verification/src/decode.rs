//! Decoding the byte format of `serial`: each function consumes a prefix of
//! the buffer at a position and yields the decoded value with the next
//! position, or nothing when the bytes do not parse.

use crate::fs::{
    DevNo, DeviceInode, DirEntry, DirEntryV, DirectoryInode, DirectoryInodeV, FilesystemMetadata,
    FilesystemMetadataV, GenericInode, Inode, InodePair, InodePairV, InodeV, SocketInode, dict_v,
    tbl_v, DIRTABLE_CAP, NAME_CAP, NEXTINODE_CAP,
};
use crate::serial::{TAG_CHARDEV, TAG_DIR, TAG_FILE, TAG_SOCKET};
use vstd::bytes::{
    spec_u32_from_le_bytes, spec_u64_from_le_bytes, u32_from_le_bytes, u64_from_le_bytes,
};
use vstd::prelude::*;
use vstd::slice::slice_subrange;

verus! {

// ---------------------------------------------------------------------------
// The decoders, as spec functions.
// ---------------------------------------------------------------------------

pub open spec fn dec_u32_at(s: Seq<u8>, pos: int) -> Option<(u32, int)> {
    if 0 <= pos && pos + 4 <= s.len() {
        Some((spec_u32_from_le_bytes(s.subrange(pos, pos + 4)), pos + 4))
    } else {
        None
    }
}

pub open spec fn dec_u64_at(s: Seq<u8>, pos: int) -> Option<(u64, int)> {
    if 0 <= pos && pos + 8 <= s.len() {
        Some((spec_u64_from_le_bytes(s.subrange(pos, pos + 8)), pos + 8))
    } else {
        None
    }
}

pub open spec fn dec_usize_at(s: Seq<u8>, pos: int) -> Option<(usize, int)> {
    match dec_u64_at(s, pos) {
        Some((x, p)) => if x <= usize::MAX as u64 {
            Some((x as usize, p))
        } else {
            None
        },
        None => None,
    }
}

pub open spec fn dec_name_at(s: Seq<u8>, pos: int) -> Option<(Seq<u8>, int)> {
    match dec_u32_at(s, pos) {
        Some((len, p)) => if len <= NAME_CAP as u32 && p + len <= s.len() {
            Some((s.subrange(p, p + len), p + len))
        } else {
            None
        },
        None => None,
    }
}

pub open spec fn dec_common_at(s: Seq<u8>, pos: int) -> Option<(GenericInode, int)> {
    match dec_usize_at(s, pos) {
        Some((size, p1)) => match dec_u32_at(s, p1) {
            Some((uid, p2)) => match dec_u32_at(s, p2) {
                Some((gid, p3)) => match dec_u32_at(s, p3) {
                    Some((mode, p4)) => match dec_u32_at(s, p4) {
                        Some((linkcount, p5)) => match dec_u64_at(s, p5) {
                            Some((atime, p6)) => match dec_u64_at(s, p6) {
                                Some((ctime, p7)) => match dec_u64_at(s, p7) {
                                    Some((mtime, p8)) => Some(
                                        (
                                            GenericInode {
                                                size,
                                                uid,
                                                gid,
                                                mode,
                                                linkcount,
                                                refcount: 0,
                                                atime,
                                                ctime,
                                                mtime,
                                            },
                                            p8,
                                        ),
                                    ),
                                    None => None,
                                },
                                None => None,
                            },
                            None => None,
                        },
                        None => None,
                    },
                    None => None,
                },
                None => None,
            },
            None => None,
        },
        None => None,
    }
}

pub open spec fn dec_entries_at(s: Seq<u8>, pos: int, count: nat) -> Option<(Seq<DirEntryV>, int)>
    decreases count,
{
    if count == 0 {
        Some((Seq::<DirEntryV>::empty(), pos))
    } else {
        match dec_name_at(s, pos) {
            Some((name, p1)) => match dec_usize_at(s, p1) {
                Some((inode, p2)) => match dec_entries_at(s, p2, (count - 1) as nat) {
                    Some((rest, p3)) => Some((seq![DirEntryV { name, inode }] + rest, p3)),
                    None => None,
                },
                None => None,
            },
            None => None,
        }
    }
}

pub open spec fn dec_inode_at(s: Seq<u8>, pos: int) -> Option<(InodeV, int)> {
    if 0 <= pos < s.len() {
        let tag = s[pos];
        if tag == TAG_FILE {
            match dec_common_at(s, pos + 1) {
                Some((g, p)) => Some((InodeV::File(g), p)),
                None => None,
            }
        } else if tag == TAG_CHARDEV {
            match dec_common_at(s, pos + 1) {
                Some((g, p)) => match dec_u32_at(s, p) {
                    Some((major, p1)) => match dec_u32_at(s, p1) {
                        Some((minor, p2)) => Some(
                            (
                                InodeV::CharDev(
                                    DeviceInode {
                                        size: g.size,
                                        uid: g.uid,
                                        gid: g.gid,
                                        mode: g.mode,
                                        linkcount: g.linkcount,
                                        refcount: 0,
                                        atime: g.atime,
                                        ctime: g.ctime,
                                        mtime: g.mtime,
                                        dev: DevNo { major, minor },
                                    },
                                ),
                                p2,
                            ),
                        ),
                        None => None,
                    },
                    None => None,
                },
                None => None,
            }
        } else if tag == TAG_SOCKET {
            match dec_common_at(s, pos + 1) {
                Some((g, p)) => Some(
                    (
                        InodeV::Socket(
                            SocketInode {
                                size: g.size,
                                uid: g.uid,
                                gid: g.gid,
                                mode: g.mode,
                                linkcount: g.linkcount,
                                refcount: 0,
                                atime: g.atime,
                                ctime: g.ctime,
                                mtime: g.mtime,
                            },
                        ),
                        p,
                    ),
                ),
                None => None,
            }
        } else if tag == TAG_DIR {
            match dec_common_at(s, pos + 1) {
                Some((g, p)) => match dec_usize_at(s, p) {
                    Some((count, p1)) => if count <= DIRTABLE_CAP {
                        match dec_entries_at(s, p1, count as nat) {
                            Some((dict, p2)) => Some(
                                (
                                    InodeV::Dir(
                                        DirectoryInodeV {
                                            size: g.size,
                                            uid: g.uid,
                                            gid: g.gid,
                                            mode: g.mode,
                                            linkcount: g.linkcount,
                                            refcount: 0,
                                            atime: g.atime,
                                            ctime: g.ctime,
                                            mtime: g.mtime,
                                            dict,
                                        },
                                    ),
                                    p2,
                                ),
                            ),
                            None => None,
                        }
                    } else {
                        None
                    },
                    None => None,
                },
                None => None,
            }
        } else {
            None
        }
    } else {
        None
    }
}

pub open spec fn dec_logentry_at(s: Seq<u8>, pos: int) -> Option<
    ((usize, Option<InodeV>), int),
> {
    match dec_usize_at(s, pos) {
        Some((num, p)) => if num <= NEXTINODE_CAP {
            if 0 <= p < s.len() {
                let tag = s[p];
                if tag == 0 {
                    Some(((num, None), p + 1))
                } else if tag == 1 {
                    match dec_inode_at(s, p + 1) {
                        Some((ino, p2)) => Some(((num, Some(ino)), p2)),
                        None => None,
                    }
                } else {
                    None
                }
            } else {
                None
            }
        } else {
            None
        },
        None => None,
    }
}

/// The whole journal region: a sequence of records filling it exactly.
pub open spec fn dec_records(s: Seq<u8>, pos: int) -> Option<Seq<(usize, Option<InodeV>)>>
    decreases s.len() - pos,
{
    if pos == s.len() {
        Some(Seq::<(usize, Option<InodeV>)>::empty())
    } else if pos < 0 || pos > s.len() {
        None
    } else {
        match dec_logentry_at(s, pos) {
            Some((r, p2)) => if pos < p2 <= s.len() {
                match dec_records(s, p2) {
                    Some(rest) => Some(seq![r] + rest),
                    None => None,
                }
            } else {
                None
            },
            None => None,
        }
    }
}

pub open spec fn dec_rows_at(s: Seq<u8>, pos: int, count: nat) -> Option<(Seq<InodePairV>, int)>
    decreases count,
{
    if count == 0 {
        Some((Seq::<InodePairV>::empty(), pos))
    } else {
        match dec_usize_at(s, pos) {
            Some((num, p1)) => if num <= NEXTINODE_CAP {
                match dec_inode_at(s, p1) {
                    Some((ino, p2)) => match dec_rows_at(s, p2, (count - 1) as nat) {
                        Some((rest, p3)) => Some((seq![InodePairV { num, inode: ino }] + rest, p3)),
                        None => None,
                    },
                    None => None,
                }
            } else {
                None
            },
            None => None,
        }
    }
}

/// A whole snapshot, which must fill the buffer exactly.
pub open spec fn dec_meta(s: Seq<u8>) -> Option<FilesystemMetadataV> {
    match dec_usize_at(s, 0) {
        Some((nextinode, p0)) => if nextinode <= NEXTINODE_CAP {
            match dec_u64_at(s, p0) {
                Some((dev_id, p1)) => match dec_usize_at(s, p1) {
                    Some((count, p2)) => if count <= NEXTINODE_CAP {
                        match dec_rows_at(s, p2, count as nat) {
                            Some((rows, p3)) => if p3 == s.len() {
                                Some(FilesystemMetadataV { nextinode, dev_id, inodetable: rows })
                            } else {
                                None
                            },
                            None => None,
                        }
                    } else {
                        None
                    },
                    None => None,
                },
                None => None,
            }
        } else {
            None
        },
        None => None,
    }
}

} // verus!

verus! {

// ---------------------------------------------------------------------------
// Executable decoders, each proved against its spec mirror.
// ---------------------------------------------------------------------------

pub fn dec_u32(buf: &Vec<u8>, pos: usize) -> (r: Option<(u32, usize)>)
    ensures
        match r {
            Some(xp) => dec_u32_at(buf@, pos as int) == Some((xp.0, xp.1 as int)),
            None => dec_u32_at(buf@, pos as int) is None,
        },
{
    if buf.len() >= 4 && pos <= buf.len() - 4 {
        let sl = slice_subrange(buf.as_slice(), pos, pos + 4);
        let x = u32_from_le_bytes(sl);
        Some((x, pos + 4))
    } else {
        None
    }
}

pub fn dec_u64(buf: &Vec<u8>, pos: usize) -> (r: Option<(u64, usize)>)
    ensures
        match r {
            Some(xp) => dec_u64_at(buf@, pos as int) == Some((xp.0, xp.1 as int)),
            None => dec_u64_at(buf@, pos as int) is None,
        },
{
    if buf.len() >= 8 && pos <= buf.len() - 8 {
        let sl = slice_subrange(buf.as_slice(), pos, pos + 8);
        let x = u64_from_le_bytes(sl);
        Some((x, pos + 8))
    } else {
        None
    }
}

pub fn dec_usize(buf: &Vec<u8>, pos: usize) -> (r: Option<(usize, usize)>)
    ensures
        match r {
            Some(xp) => dec_usize_at(buf@, pos as int) == Some((xp.0, xp.1 as int)),
            None => dec_usize_at(buf@, pos as int) is None,
        },
{
    match dec_u64(buf, pos) {
        Some((x, p)) => {
            if x <= usize::MAX as u64 {
                Some((x as usize, p))
            } else {
                None
            }
        },
        None => None,
    }
}

pub fn dec_name(buf: &Vec<u8>, pos: usize) -> (r: Option<(Vec<u8>, usize)>)
    ensures
        match r {
            Some(np) => dec_name_at(buf@, pos as int) matches Some(sp) && sp.0 == np.0@ && sp.1
                == np.1 as int,
            None => dec_name_at(buf@, pos as int) is None,
        },
{
    match dec_u32(buf, pos) {
        Some((len32, p)) => {
            let len = len32 as usize;
            if len32 <= NAME_CAP as u32 && buf.len() >= len && p <= buf.len() - len {
                let mut out: Vec<u8> = Vec::new();
                let mut k: usize = 0;
                while k < len
                    invariant
                        k <= len,
                        p + len <= buf@.len(),
                        buf@.len() <= usize::MAX,
                        out@ == buf@.subrange(p as int, p + k as int),
                    decreases len - k,
                {
                    out.push(buf[p + k]);
                    proof {
                        assert(buf@.subrange(p as int, p + k + 1 as int) =~= buf@.subrange(
                            p as int,
                            p + k as int,
                        ).push(buf@[p + k]));
                    }
                    k = k + 1;
                }
                Some((out, p + len))
            } else {
                None
            }
        },
        None => None,
    }
}

pub fn dec_common(buf: &Vec<u8>, pos: usize) -> (r: Option<(GenericInode, usize)>)
    ensures
        match r {
            Some(gp) => dec_common_at(buf@, pos as int) == Some((gp.0, gp.1 as int)),
            None => dec_common_at(buf@, pos as int) is None,
        },
{
    let (size, p1) = match dec_usize(buf, pos) {
        Some(v) => v,
        None => {
            return None;
        },
    };
    let (uid, p2) = match dec_u32(buf, p1) {
        Some(v) => v,
        None => {
            return None;
        },
    };
    let (gid, p3) = match dec_u32(buf, p2) {
        Some(v) => v,
        None => {
            return None;
        },
    };
    let (mode, p4) = match dec_u32(buf, p3) {
        Some(v) => v,
        None => {
            return None;
        },
    };
    let (linkcount, p5) = match dec_u32(buf, p4) {
        Some(v) => v,
        None => {
            return None;
        },
    };
    let (atime, p6) = match dec_u64(buf, p5) {
        Some(v) => v,
        None => {
            return None;
        },
    };
    let (ctime, p7) = match dec_u64(buf, p6) {
        Some(v) => v,
        None => {
            return None;
        },
    };
    let (mtime, p8) = match dec_u64(buf, p7) {
        Some(v) => v,
        None => {
            return None;
        },
    };
    Some(
        (
            GenericInode { size, uid, gid, mode, linkcount, refcount: 0, atime, ctime, mtime },
            p8,
        ),
    )
}

pub fn dec_inode(buf: &Vec<u8>, pos: usize) -> (r: Option<(Inode, usize)>)
    ensures
        match r {
            Some(ip) => dec_inode_at(buf@, pos as int) matches Some(sp) && sp.0 == ip.0@ && sp.1
                == ip.1 as int,
            None => dec_inode_at(buf@, pos as int) is None,
        },
{
    if pos >= buf.len() {
        return None;
    }
    let tag = buf[pos];
    if tag == TAG_FILE {
        match dec_common(buf, pos + 1) {
            Some((g, p)) => Some((Inode::File(g), p)),
            None => None,
        }
    } else if tag == TAG_CHARDEV {
        let (g, p) = match dec_common(buf, pos + 1) {
            Some(v) => v,
            None => {
                return None;
            },
        };
        let (major, p1) = match dec_u32(buf, p) {
            Some(v) => v,
            None => {
                return None;
            },
        };
        let (minor, p2) = match dec_u32(buf, p1) {
            Some(v) => v,
            None => {
                return None;
            },
        };
        Some(
            (
                Inode::CharDev(
                    DeviceInode {
                        size: g.size,
                        uid: g.uid,
                        gid: g.gid,
                        mode: g.mode,
                        linkcount: g.linkcount,
                        refcount: 0,
                        atime: g.atime,
                        ctime: g.ctime,
                        mtime: g.mtime,
                        dev: DevNo { major, minor },
                    },
                ),
                p2,
            ),
        )
    } else if tag == TAG_SOCKET {
        match dec_common(buf, pos + 1) {
            Some((g, p)) => Some(
                (
                    Inode::Socket(
                        SocketInode {
                            size: g.size,
                            uid: g.uid,
                            gid: g.gid,
                            mode: g.mode,
                            linkcount: g.linkcount,
                            refcount: 0,
                            atime: g.atime,
                            ctime: g.ctime,
                            mtime: g.mtime,
                        },
                    ),
                    p,
                ),
            ),
            None => None,
        }
    } else if tag == TAG_DIR {
        let (g, p) = match dec_common(buf, pos + 1) {
            Some(v) => v,
            None => {
                return None;
            },
        };
        let (count, p1) = match dec_usize(buf, p) {
            Some(v) => v,
            None => {
                return None;
            },
        };
        if count > DIRTABLE_CAP {
            return None;
        }
        let mut entries: Vec<DirEntry> = Vec::new();
        let mut cur: usize = p1;
        let mut k: usize = 0;
        while k < count
            invariant
                k <= count,
                dec_entries_at(buf@, p1 as int, count as nat) == (match dec_entries_at(
                    buf@,
                    cur as int,
                    (count - k) as nat,
                ) {
                    Some(rp) => Some((dict_v(entries@) + rp.0, rp.1)),
                    None => None::<(Seq<DirEntryV>, int)>,
                }),
                dec_inode_at(buf@, pos as int) == (match dec_entries_at(
                    buf@,
                    p1 as int,
                    count as nat,
                ) {
                    Some(dp) => Some(
                        (
                            InodeV::Dir(
                                DirectoryInodeV {
                                    size: g.size,
                                    uid: g.uid,
                                    gid: g.gid,
                                    mode: g.mode,
                                    linkcount: g.linkcount,
                                    refcount: 0,
                                    atime: g.atime,
                                    ctime: g.ctime,
                                    mtime: g.mtime,
                                    dict: dp.0,
                                },
                            ),
                            dp.1,
                        ),
                    ),
                    None => None::<(InodeV, int)>,
                }),
            decreases count - k,
        {
            let (name, c1) = match dec_name(buf, cur) {
                Some(v) => v,
                None => {
                    return None;
                },
            };
            let (inode, c2) = match dec_usize(buf, c1) {
                Some(v) => v,
                None => {
                    return None;
                },
            };
            let ghost dv0 = dict_v(entries@);
            let ghost namev = name@;
            entries.push(DirEntry { name, inode });
            proof {
                assert(dict_v(entries@) =~= dv0.push(DirEntryV { name: namev, inode }));
                assert forall|rest: Seq<DirEntryV>|
                    dv0 + (seq![DirEntryV { name: namev, inode }] + rest) =~= dict_v(entries@)
                        + rest by {}
            }
            cur = c2;
            k = k + 1;
        }
        proof {
            assert(dec_entries_at(buf@, cur as int, 0) == Some(
                (Seq::<DirEntryV>::empty(), cur as int),
            ));
            assert(dict_v(entries@) + Seq::<DirEntryV>::empty() =~= dict_v(entries@));
        }
        Some(
            (
                Inode::Dir(
                    DirectoryInode {
                        size: g.size,
                        uid: g.uid,
                        gid: g.gid,
                        mode: g.mode,
                        linkcount: g.linkcount,
                        refcount: 0,
                        atime: g.atime,
                        ctime: g.ctime,
                        mtime: g.mtime,
                        filename_to_inode_dict: entries,
                    },
                ),
                cur,
            ),
        )
    } else {
        None
    }
}

pub fn dec_logentry(buf: &Vec<u8>, pos: usize) -> (r: Option<((usize, Option<Inode>), usize)>)
    ensures
        match r {
            Some(ep) => dec_logentry_at(buf@, pos as int) matches Some(sp) && sp.0.0 == ep.0.0
                && (match ep.0.1 {
                Some(i) => sp.0.1 == Some(i@),
                None => sp.0.1 is None,
            }) && sp.1 == ep.1 as int,
            None => dec_logentry_at(buf@, pos as int) is None,
        },
{
    let (num, p) = match dec_usize(buf, pos) {
        Some(v) => v,
        None => {
            return None;
        },
    };
    if num > NEXTINODE_CAP {
        return None;
    }
    if p >= buf.len() {
        return None;
    }
    let tag = buf[p];
    if tag == 0 {
        Some(((num, None), p + 1))
    } else if tag == 1 {
        match dec_inode(buf, p + 1) {
            Some((ino, p2)) => Some(((num, Some(ino)), p2)),
            None => None,
        }
    } else {
        None
    }
}

} // verus!
