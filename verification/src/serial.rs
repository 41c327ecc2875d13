//! The self-delimiting byte encoding of inodes, journal records, and whole
//! metadata snapshots.
//!
//! Every record is a concatenation of fixed-width little-endian integers and
//! length-prefixed names, so a journal region decodes as a sequence of
//! independently decodable records with no trailing index.

use crate::fs::{
    DevNo, DeviceInode, DirEntry, DirEntryV, DirectoryInode, DirectoryInodeV, FilesystemMetadata,
    FilesystemMetadataV, GenericInode, Inode, InodePair, InodePairV, InodeV, SocketInode, dict_v,
    inode_wf, tbl_v, NAME_CAP,
};
use vstd::bytes::{
    spec_u32_to_le_bytes, spec_u32_from_le_bytes, spec_u64_to_le_bytes, spec_u64_from_le_bytes,
    u32_to_le_bytes, u32_from_le_bytes, u64_to_le_bytes, u64_from_le_bytes,
    lemma_auto_spec_u32_to_from_le_bytes, lemma_auto_spec_u64_to_from_le_bytes,
};
use vstd::prelude::*;

verus! {

// Tags for the four inode kinds.
pub const TAG_FILE: u8 = 1;
pub const TAG_CHARDEV: u8 = 2;
pub const TAG_SOCKET: u8 = 3;
pub const TAG_DIR: u8 = 4;

// ---------------------------------------------------------------------------
// Encoding, as functions of the views.
// ---------------------------------------------------------------------------

pub open spec fn enc_u32(x: u32) -> Seq<u8> {
    spec_u32_to_le_bytes(x)
}

pub open spec fn enc_u64(x: u64) -> Seq<u8> {
    spec_u64_to_le_bytes(x)
}

pub open spec fn enc_usize(x: usize) -> Seq<u8> {
    spec_u64_to_le_bytes(x as u64)
}

pub open spec fn enc_name(s: Seq<u8>) -> Seq<u8>
    recommends
        s.len() <= NAME_CAP as nat,
{
    enc_u32(s.len() as u32) + s
}

/// The common inode fields, in a fixed order; `refcount` is deliberately
/// not persisted.
pub open spec fn enc_common(
    size: usize,
    uid: u32,
    gid: u32,
    mode: u32,
    linkcount: u32,
    atime: u64,
    ctime: u64,
    mtime: u64,
) -> Seq<u8> {
    enc_usize(size) + enc_u32(uid) + enc_u32(gid) + enc_u32(mode) + enc_u32(linkcount) + enc_u64(
        atime,
    ) + enc_u64(ctime) + enc_u64(mtime)
}

pub open spec fn enc_entries(s: Seq<DirEntryV>) -> Seq<u8>
    decreases s.len(),
{
    if s.len() == 0 {
        Seq::<u8>::empty()
    } else {
        enc_name(s[0].name) + enc_usize(s[0].inode) + enc_entries(s.skip(1))
    }
}

pub open spec fn enc_inode(i: InodeV) -> Seq<u8> {
    match i {
        InodeV::File(g) => seq![TAG_FILE] + enc_common(
            g.size,
            g.uid,
            g.gid,
            g.mode,
            g.linkcount,
            g.atime,
            g.ctime,
            g.mtime,
        ),
        InodeV::CharDev(c) => seq![TAG_CHARDEV] + enc_common(
            c.size,
            c.uid,
            c.gid,
            c.mode,
            c.linkcount,
            c.atime,
            c.ctime,
            c.mtime,
        ) + enc_u32(c.dev.major) + enc_u32(c.dev.minor),
        InodeV::Socket(s) => seq![TAG_SOCKET] + enc_common(
            s.size,
            s.uid,
            s.gid,
            s.mode,
            s.linkcount,
            s.atime,
            s.ctime,
            s.mtime,
        ),
        InodeV::Dir(d) => seq![TAG_DIR] + enc_common(
            d.size,
            d.uid,
            d.gid,
            d.mode,
            d.linkcount,
            d.atime,
            d.ctime,
            d.mtime,
        ) + enc_usize(d.dict.len() as usize) + enc_entries(d.dict),
    }
}

/// One journal record: an inode number bound to a new inode, or unbound.
pub open spec fn enc_logentry(num: usize, o: Option<InodeV>) -> Seq<u8> {
    match o {
        None => enc_usize(num) + seq![0u8],
        Some(i) => enc_usize(num) + seq![1u8] + enc_inode(i),
    }
}

pub open spec fn enc_rows(s: Seq<InodePairV>) -> Seq<u8>
    decreases s.len(),
{
    if s.len() == 0 {
        Seq::<u8>::empty()
    } else {
        enc_usize(s[0].num) + enc_inode(s[0].inode) + enc_rows(s.skip(1))
    }
}

/// A whole metadata snapshot.
pub open spec fn enc_meta(m: FilesystemMetadataV) -> Seq<u8> {
    enc_usize(m.nextinode) + enc_u64(m.dev_id) + enc_usize(m.inodetable.len() as usize) + enc_rows(
        m.inodetable,
    )
}

// ---------------------------------------------------------------------------
// Executable encoders.
// ---------------------------------------------------------------------------

pub fn ser_u32_into(out: &mut Vec<u8>, x: u32)
    ensures
        final(out)@ == old(out)@ + enc_u32(x),
{
    let mut b = u32_to_le_bytes(x);
    out.append(&mut b);
}

pub fn ser_u64_into(out: &mut Vec<u8>, x: u64)
    ensures
        final(out)@ == old(out)@ + enc_u64(x),
{
    let mut b = u64_to_le_bytes(x);
    out.append(&mut b);
}

pub fn ser_usize_into(out: &mut Vec<u8>, x: usize)
    ensures
        final(out)@ == old(out)@ + enc_usize(x),
{
    ser_u64_into(out, x as u64);
}

pub fn ser_name_into(out: &mut Vec<u8>, name: &Vec<u8>)
    requires
        name@.len() <= NAME_CAP as nat,
    ensures
        final(out)@ == old(out)@ + enc_name(name@),
{
    ser_u32_into(out, name.len() as u32);
    out.extend_from_slice(name.as_slice());
    proof {
        assert(out@ =~= old(out)@ + enc_name(name@));
    }
}

fn ser_common_into(
    out: &mut Vec<u8>,
    size: usize,
    uid: u32,
    gid: u32,
    mode: u32,
    linkcount: u32,
    atime: u64,
    ctime: u64,
    mtime: u64,
)
    ensures
        final(out)@ == old(out)@ + enc_common(size, uid, gid, mode, linkcount, atime, ctime, mtime),
{
    ser_usize_into(out, size);
    ser_u32_into(out, uid);
    ser_u32_into(out, gid);
    ser_u32_into(out, mode);
    ser_u32_into(out, linkcount);
    ser_u64_into(out, atime);
    ser_u64_into(out, ctime);
    ser_u64_into(out, mtime);
    proof {
        assert(out@ =~= old(out)@ + enc_common(
            size,
            uid,
            gid,
            mode,
            linkcount,
            atime,
            ctime,
            mtime,
        ));
    }
}

/// Append the encoding of one inode.
pub fn serialize_inode_into(out: &mut Vec<u8>, ino: &Inode)
    requires
        inode_wf(ino@),
    ensures
        final(out)@ == old(out)@ + enc_inode(ino@),
{
    match ino {
        Inode::File(g) => {
            out.push(TAG_FILE);
            ser_common_into(out, g.size, g.uid, g.gid, g.mode, g.linkcount, g.atime, g.ctime,
                g.mtime);
            proof {
                assert(out@ =~= old(out)@ + enc_inode(ino@));
            }
        },
        Inode::Socket(g) => {
            out.push(TAG_SOCKET);
            ser_common_into(out, g.size, g.uid, g.gid, g.mode, g.linkcount, g.atime, g.ctime,
                g.mtime);
            proof {
                assert(out@ =~= old(out)@ + enc_inode(ino@));
            }
        },
        Inode::CharDev(c) => {
            out.push(TAG_CHARDEV);
            ser_common_into(out, c.size, c.uid, c.gid, c.mode, c.linkcount, c.atime, c.ctime,
                c.mtime);
            ser_u32_into(out, c.dev.major);
            ser_u32_into(out, c.dev.minor);
            proof {
                assert(out@ =~= old(out)@ + enc_inode(ino@));
            }
        },
        Inode::Dir(d) => {
            out.push(TAG_DIR);
            ser_common_into(out, d.size, d.uid, d.gid, d.mode, d.linkcount, d.atime, d.ctime,
                d.mtime);
            let dict = &d.filename_to_inode_dict;
            ser_usize_into(out, dict.len());
            let ghost dv = dict_v(dict@);
            let ghost base = out@;
            let mut i: usize = 0;
            proof {
                assert(dv.skip(0) =~= dv);
                assert(base + enc_entries(dv) =~= out@ + enc_entries(dv.skip(0)));
            }
            while i < dict.len()
                invariant
                    i <= dict@.len(),
                    dv == dict_v(dict@),
                    dv.len() == dict@.len(),
                    forall|e: int| 0 <= e < dv.len() ==> (#[trigger] dv[e]).name.len() <= NAME_CAP as nat,
                    base + enc_entries(dv) == out@ + enc_entries(dv.skip(i as int)),
                decreases dict@.len() - i,
            {
                proof {
                    assert(dv[i as int] == dict@[i as int]@);
                    assert(dv.skip(i as int)[0] == dv[i as int]);
                    assert(dv.skip(i as int).skip(1) =~= dv.skip(i + 1 as int));
                }
                let ghost out0 = out@;
                ser_name_into(out, &dict[i].name);
                ser_usize_into(out, dict[i].inode);
                proof {
                    assert(out@ =~= out0 + (enc_name(dv[i as int].name) + enc_usize(
                        dv[i as int].inode,
                    )));
                    assert(out0 + (enc_name(dv[i as int].name) + enc_usize(dv[i as int].inode))
                        + enc_entries(dv.skip(i + 1 as int)) =~= out0 + enc_entries(
                        dv.skip(i as int),
                    ));
                    assert(base + enc_entries(dv) =~= out@ + enc_entries(dv.skip(i + 1 as int)));
                }
                i = i + 1;
            }
            proof {
                assert(enc_entries(dv.skip(dict@.len() as int)) =~= Seq::<u8>::empty());
                assert(out@ =~= base + enc_entries(dv));
                assert(out@ =~= old(out)@ + enc_inode(ino@));
            }
        },
    }
}

/// The encoding of one journal record.
pub fn serialize_logentry(inodenum: usize, ino: &Option<&Inode>) -> (r: Vec<u8>)
    requires
        match *ino {
            Some(i) => inode_wf(i@),
            None => true,
        },
    ensures
        r@ == enc_logentry(
            inodenum,
            match *ino {
                Some(i) => Some(i@),
                None => None,
            },
        ),
{
    let mut out: Vec<u8> = Vec::new();
    ser_usize_into(&mut out, inodenum);
    match ino {
        None => {
            out.push(0u8);
            proof {
                assert(out@ =~= enc_logentry(inodenum, None));
            }
        },
        Some(i) => {
            out.push(1u8);
            serialize_inode_into(&mut out, i);
            proof {
                assert(out@ =~= enc_logentry(inodenum, Some(i@)));
            }
        },
    }
    out
}

/// The encoding of the whole metadata snapshot.
pub fn serialize_metadata(m: &FilesystemMetadata) -> (r: Vec<u8>)
    requires
        forall|k: int|
            0 <= k < m@.inodetable.len() ==> inode_wf((#[trigger] m@.inodetable[k]).inode),
    ensures
        r@ == enc_meta(m@),
{
    let mut out: Vec<u8> = Vec::new();
    ser_usize_into(&mut out, m.nextinode);
    ser_u64_into(&mut out, m.dev_id);
    ser_usize_into(&mut out, m.inodetable.len());
    let ghost tv = tbl_v(m.inodetable@);
    let ghost base = out@;
    let mut i: usize = 0;
    proof {
        assert(tv == m@.inodetable);
        assert forall|k: int| 0 <= k < tv.len() implies inode_wf((#[trigger] tv[k]).inode) by {
            assert(inode_wf(m@.inodetable[k].inode));
        }
        assert(tv.skip(0) =~= tv);
        assert(base + enc_rows(tv) =~= out@ + enc_rows(tv.skip(0)));
    }
    while i < m.inodetable.len()
        invariant
            i <= m.inodetable@.len(),
            tv == tbl_v(m.inodetable@),
            tv.len() == m.inodetable@.len(),
            forall|k: int| 0 <= k < tv.len() ==> inode_wf((#[trigger] tv[k]).inode),
            base + enc_rows(tv) == out@ + enc_rows(tv.skip(i as int)),
        decreases m.inodetable@.len() - i,
    {
        proof {
            assert(tv[i as int] == m.inodetable@[i as int]@);
            assert(tv.skip(i as int)[0] == tv[i as int]);
            assert(tv.skip(i as int).skip(1) =~= tv.skip(i + 1 as int));
        }
        let ghost out0 = out@;
        ser_usize_into(&mut out, m.inodetable[i].num);
        serialize_inode_into(&mut out, &m.inodetable[i].inode);
        proof {
            assert(out@ =~= out0 + (enc_usize(tv[i as int].num) + enc_inode(tv[i as int].inode)));
            assert(out0 + (enc_usize(tv[i as int].num) + enc_inode(tv[i as int].inode)) + enc_rows(
                tv.skip(i + 1 as int),
            ) =~= out0 + enc_rows(tv.skip(i as int)));
            assert(base + enc_rows(tv) =~= out@ + enc_rows(tv.skip(i + 1 as int)));
        }
        i = i + 1;
    }
    proof {
        assert(enc_rows(tv.skip(m.inodetable@.len() as int)) =~= Seq::<u8>::empty());
        assert(out@ =~= base + enc_rows(tv));
        assert(out@ =~= enc_meta(m@));
    }
    out
}

} // verus!
