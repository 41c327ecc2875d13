//! Round-trip laws: decoding an encoding yields the original value, with
//! `refcount` reset to zero — the only field that is never persisted.

use crate::decode::{
    dec_common_at, dec_entries_at, dec_inode_at, dec_logentry_at, dec_meta, dec_records,
    dec_rows_at, dec_u32_at, dec_u64_at, dec_usize_at, dec_name_at,
};
use crate::fs::{
    fs_wf, inode_wf, DeviceInode, DirEntryV, DirectoryInodeV, FilesystemMetadataV, GenericInode,
    InodePairV, InodeV, SocketInode, DIRTABLE_CAP, NAME_CAP, NEXTINODE_CAP,
};
use crate::serial::{
    enc_common, enc_entries, enc_inode, enc_logentry, enc_meta, enc_name, enc_rows, enc_u32,
    enc_u64, enc_usize, TAG_CHARDEV, TAG_DIR, TAG_FILE, TAG_SOCKET,
};
use vstd::bytes::{lemma_auto_spec_u32_to_from_le_bytes, lemma_auto_spec_u64_to_from_le_bytes};
use vstd::prelude::*;

verus! {

/// An inode as it comes back from disk: every field intact but the
/// in-memory reference count, which restarts at zero.
pub open spec fn zero_refcount(i: InodeV) -> InodeV {
    match i {
        InodeV::File(g) => InodeV::File(GenericInode { refcount: 0, ..g }),
        InodeV::CharDev(c) => InodeV::CharDev(DeviceInode { refcount: 0, ..c }),
        InodeV::Socket(s) => InodeV::Socket(SocketInode { refcount: 0, ..s }),
        InodeV::Dir(d) => InodeV::Dir(DirectoryInodeV { refcount: 0, ..d }),
    }
}

pub open spec fn persist_row(p: InodePairV) -> InodePairV {
    InodePairV { num: p.num, inode: zero_refcount(p.inode) }
}

/// A snapshot as it comes back from disk.
pub open spec fn persist_meta(m: FilesystemMetadataV) -> FilesystemMetadataV {
    FilesystemMetadataV {
        nextinode: m.nextinode,
        dev_id: m.dev_id,
        inodetable: m.inodetable.map_values(|p: InodePairV| persist_row(p)),
    }
}

pub open spec fn persist_record(r: (usize, Option<InodeV>)) -> (usize, Option<InodeV>) {
    (
        r.0,
        match r.1 {
            Some(i) => Some(zero_refcount(i)),
            None => None,
        },
    )
}

pub open spec fn persist_records(rs: Seq<(usize, Option<InodeV>)>) -> Seq<(usize, Option<InodeV>)> {
    rs.map_values(|r: (usize, Option<InodeV>)| persist_record(r))
}

/// The encoding of a record sequence: the records, one after another.
pub open spec fn enc_records(rs: Seq<(usize, Option<InodeV>)>) -> Seq<u8>
    decreases rs.len(),
{
    if rs.len() == 0 {
        Seq::<u8>::empty()
    } else {
        enc_logentry(rs[0].0, rs[0].1) + enc_records(rs.skip(1))
    }
}

/// The bytes `b` sit in `s` at position `pos`.
pub open spec fn is_at(s: Seq<u8>, pos: int, b: Seq<u8>) -> bool {
    &&& 0 <= pos
    &&& pos + b.len() <= s.len()
    &&& s.subrange(pos, pos + b.len()) == b
}

pub proof fn lemma_is_at_split(s: Seq<u8>, pos: int, a: Seq<u8>, b: Seq<u8>)
    requires
        is_at(s, pos, a + b),
    ensures
        is_at(s, pos, a),
        is_at(s, pos + a.len(), b),
{
    let ab = a + b;
    assert forall|j: int| 0 <= j < a.len() implies s.subrange(pos, pos + a.len())[j] == a[j] by {
        assert(s.subrange(pos, pos + ab.len())[j] == s[pos + j]);
        assert(ab[j] == a[j]);
    }
    assert(s.subrange(pos, pos + a.len()) =~= a);
    assert forall|j: int|
        0 <= j < b.len() implies s.subrange(pos + a.len(), pos + a.len() + b.len())[j] == b[j] by {
        assert(s.subrange(pos, pos + ab.len())[a.len() + j] == s[pos + a.len() + j]);
        assert(ab[a.len() + j] == b[j]);
    }
    assert(s.subrange(pos + a.len(), pos + a.len() + b.len()) =~= b);
}

pub proof fn lemma_dec_u32_enc(s: Seq<u8>, pos: int, x: u32)
    requires
        is_at(s, pos, enc_u32(x)),
    ensures
        dec_u32_at(s, pos) == Some((x, pos + 4)),
{
    lemma_auto_spec_u32_to_from_le_bytes();
}

pub proof fn lemma_dec_u64_enc(s: Seq<u8>, pos: int, x: u64)
    requires
        is_at(s, pos, enc_u64(x)),
    ensures
        dec_u64_at(s, pos) == Some((x, pos + 8)),
{
    lemma_auto_spec_u64_to_from_le_bytes();
}

pub proof fn lemma_dec_usize_enc(s: Seq<u8>, pos: int, x: usize)
    requires
        is_at(s, pos, enc_usize(x)),
    ensures
        dec_usize_at(s, pos) == Some((x, pos + 8)),
{
    lemma_dec_u64_enc(s, pos, x as u64);
}

pub proof fn lemma_dec_name_enc(s: Seq<u8>, pos: int, name: Seq<u8>)
    requires
        name.len() <= NAME_CAP as nat,
        is_at(s, pos, enc_name(name)),
    ensures
        dec_name_at(s, pos) == Some((name, pos + 4 + name.len())),
        enc_name(name).len() == 4 + name.len(),
{
    lemma_auto_spec_u32_to_from_le_bytes();
    lemma_is_at_split(s, pos, enc_u32(name.len() as u32), name);
    lemma_dec_u32_enc(s, pos, name.len() as u32);
}

pub proof fn lemma_dec_common_enc(
    s: Seq<u8>,
    pos: int,
    size: usize,
    uid: u32,
    gid: u32,
    mode: u32,
    linkcount: u32,
    atime: u64,
    ctime: u64,
    mtime: u64,
)
    requires
        is_at(s, pos, enc_common(size, uid, gid, mode, linkcount, atime, ctime, mtime)),
    ensures
        dec_common_at(s, pos) == Some(
            (
                GenericInode { size, uid, gid, mode, linkcount, refcount: 0, atime, ctime, mtime },
                pos + 48,
            ),
        ),
        enc_common(size, uid, gid, mode, linkcount, atime, ctime, mtime).len() == 48,
{
    lemma_auto_spec_u32_to_from_le_bytes();
    lemma_auto_spec_u64_to_from_le_bytes();
    let a1 = enc_usize(size);
    let a2 = enc_u32(uid);
    let a3 = enc_u32(gid);
    let a4 = enc_u32(mode);
    let a5 = enc_u32(linkcount);
    let a6 = enc_u64(atime);
    let a7 = enc_u64(ctime);
    let a8 = enc_u64(mtime);
    lemma_is_at_split(s, pos, a1 + a2 + a3 + a4 + a5 + a6 + a7, a8);
    lemma_is_at_split(s, pos, a1 + a2 + a3 + a4 + a5 + a6, a7);
    lemma_is_at_split(s, pos, a1 + a2 + a3 + a4 + a5, a6);
    lemma_is_at_split(s, pos, a1 + a2 + a3 + a4, a5);
    lemma_is_at_split(s, pos, a1 + a2 + a3, a4);
    lemma_is_at_split(s, pos, a1 + a2, a3);
    lemma_is_at_split(s, pos, a1, a2);
    lemma_dec_usize_enc(s, pos, size);
    lemma_dec_u32_enc(s, pos + 8, uid);
    lemma_dec_u32_enc(s, pos + 12, gid);
    lemma_dec_u32_enc(s, pos + 16, mode);
    lemma_dec_u32_enc(s, pos + 20, linkcount);
    lemma_dec_u64_enc(s, pos + 24, atime);
    lemma_dec_u64_enc(s, pos + 32, ctime);
    lemma_dec_u64_enc(s, pos + 40, mtime);
}

pub proof fn lemma_dec_entries_enc(s: Seq<u8>, pos: int, d: Seq<DirEntryV>)
    requires
        forall|e: int| 0 <= e < d.len() ==> (#[trigger] d[e]).name.len() <= NAME_CAP as nat,
        is_at(s, pos, enc_entries(d)),
    ensures
        dec_entries_at(s, pos, d.len()) == Some((d, pos + enc_entries(d).len())),
    decreases d.len(),
{
    lemma_auto_spec_u32_to_from_le_bytes();
    lemma_auto_spec_u64_to_from_le_bytes();
    if d.len() == 0 {
    } else {
        let hn = enc_name(d[0].name);
        let hi = enc_usize(d[0].inode);
        let rest = enc_entries(d.skip(1));
        assert(enc_entries(d) == hn + hi + rest);
        lemma_is_at_split(s, pos, hn + hi, rest);
        lemma_is_at_split(s, pos, hn, hi);
        lemma_dec_name_enc(s, pos, d[0].name);
        lemma_dec_usize_enc(s, pos + hn.len(), d[0].inode);
        lemma_dec_entries_enc(s, pos + hn.len() + 8, d.skip(1));
        assert(seq![DirEntryV { name: d[0].name, inode: d[0].inode }] + d.skip(1) =~= d);
    }
}

pub proof fn lemma_dec_inode_enc(s: Seq<u8>, pos: int, i: InodeV)
    requires
        inode_wf(i),
        is_at(s, pos, enc_inode(i)),
    ensures
        dec_inode_at(s, pos) == Some((zero_refcount(i), pos + enc_inode(i).len())),
{
    lemma_auto_spec_u32_to_from_le_bytes();
    lemma_auto_spec_u64_to_from_le_bytes();
    match i {
        InodeV::File(g) => {
            let c = enc_common(g.size, g.uid, g.gid, g.mode, g.linkcount, g.atime, g.ctime,
                g.mtime);
            lemma_is_at_split(s, pos, seq![TAG_FILE], c);
            assert(s[pos] == TAG_FILE) by {
                assert(s.subrange(pos, pos + 1)[0] == s[pos]);
            }
            lemma_dec_common_enc(s, pos + 1, g.size, g.uid, g.gid, g.mode, g.linkcount, g.atime,
                g.ctime, g.mtime);
        },
        InodeV::Socket(g) => {
            let c = enc_common(g.size, g.uid, g.gid, g.mode, g.linkcount, g.atime, g.ctime,
                g.mtime);
            lemma_is_at_split(s, pos, seq![TAG_SOCKET], c);
            assert(s[pos] == TAG_SOCKET) by {
                assert(s.subrange(pos, pos + 1)[0] == s[pos]);
            }
            lemma_dec_common_enc(s, pos + 1, g.size, g.uid, g.gid, g.mode, g.linkcount, g.atime,
                g.ctime, g.mtime);
        },
        InodeV::CharDev(c) => {
            let cm = enc_common(c.size, c.uid, c.gid, c.mode, c.linkcount, c.atime, c.ctime,
                c.mtime);
            let ma = enc_u32(c.dev.major);
            let mi = enc_u32(c.dev.minor);
            assert(enc_inode(i) == seq![TAG_CHARDEV] + cm + ma + mi);
            lemma_is_at_split(s, pos, seq![TAG_CHARDEV] + cm + ma, mi);
            lemma_is_at_split(s, pos, seq![TAG_CHARDEV] + cm, ma);
            lemma_is_at_split(s, pos, seq![TAG_CHARDEV], cm);
            assert(s[pos] == TAG_CHARDEV) by {
                assert(s.subrange(pos, pos + 1)[0] == s[pos]);
            }
            lemma_dec_common_enc(s, pos + 1, c.size, c.uid, c.gid, c.mode, c.linkcount, c.atime,
                c.ctime, c.mtime);
            lemma_dec_u32_enc(s, pos + 49, c.dev.major);
            lemma_dec_u32_enc(s, pos + 53, c.dev.minor);
        },
        InodeV::Dir(d) => {
            let cm = enc_common(d.size, d.uid, d.gid, d.mode, d.linkcount, d.atime, d.ctime,
                d.mtime);
            let cl = enc_usize(d.dict.len() as usize);
            let en = enc_entries(d.dict);
            assert(enc_inode(i) == seq![TAG_DIR] + cm + cl + en);
            lemma_is_at_split(s, pos, seq![TAG_DIR] + cm + cl, en);
            lemma_is_at_split(s, pos, seq![TAG_DIR] + cm, cl);
            lemma_is_at_split(s, pos, seq![TAG_DIR], cm);
            assert(s[pos] == TAG_DIR) by {
                assert(s.subrange(pos, pos + 1)[0] == s[pos]);
            }
            lemma_dec_common_enc(s, pos + 1, d.size, d.uid, d.gid, d.mode, d.linkcount, d.atime,
                d.ctime, d.mtime);
            lemma_dec_usize_enc(s, pos + 49, d.dict.len() as usize);
            lemma_dec_entries_enc(s, pos + 57, d.dict);
        },
    }
}

pub proof fn lemma_dec_logentry_enc(s: Seq<u8>, pos: int, num: usize, o: Option<InodeV>)
    requires
        num <= NEXTINODE_CAP,
        match o {
            Some(i) => inode_wf(i),
            None => true,
        },
        is_at(s, pos, enc_logentry(num, o)),
    ensures
        dec_logentry_at(s, pos) == Some(
            ((num, persist_record((num, o)).1), pos + enc_logentry(num, o).len()),
        ),
        enc_logentry(num, o).len() >= 9,
{
    lemma_auto_spec_u64_to_from_le_bytes();
    match o {
        None => {
            lemma_is_at_split(s, pos, enc_usize(num), seq![0u8]);
            lemma_dec_usize_enc(s, pos, num);
            assert(s[pos + 8] == 0u8) by {
                assert(s.subrange(pos + 8, pos + 9)[0] == s[pos + 8]);
            }
        },
        Some(i) => {
            assert(enc_logentry(num, o) == enc_usize(num) + seq![1u8] + enc_inode(i));
            lemma_is_at_split(s, pos, enc_usize(num) + seq![1u8], enc_inode(i));
            lemma_is_at_split(s, pos, enc_usize(num), seq![1u8]);
            lemma_dec_usize_enc(s, pos, num);
            assert(s[pos + 8] == 1u8) by {
                assert(s.subrange(pos + 8, pos + 9)[0] == s[pos + 8]);
            }
            lemma_dec_inode_enc(s, pos + 9, i);
        },
    }
}

pub proof fn lemma_dec_records_enc(s: Seq<u8>, pos: int, rs: Seq<(usize, Option<InodeV>)>)
    requires
        forall|k: int|
            0 <= k < rs.len() ==> (#[trigger] rs[k]).0 <= NEXTINODE_CAP && (match rs[k].1 {
                Some(i) => inode_wf(i),
                None => true,
            }),
        is_at(s, pos, enc_records(rs)),
        pos + enc_records(rs).len() == s.len(),
    ensures
        dec_records(s, pos) == Some(persist_records(rs)),
    decreases rs.len(),
{
    if rs.len() == 0 {
        assert(persist_records(rs) =~= Seq::<(usize, Option<InodeV>)>::empty());
    } else {
        let h = enc_logentry(rs[0].0, rs[0].1);
        let rest = enc_records(rs.skip(1));
        assert(enc_records(rs) == h + rest);
        lemma_is_at_split(s, pos, h, rest);
        lemma_dec_logentry_enc(s, pos, rs[0].0, rs[0].1);
        lemma_dec_records_enc(s, pos + h.len(), rs.skip(1));
        assert(persist_records(rs) =~= seq![persist_record(rs[0])] + persist_records(rs.skip(1)));
    }
}

pub proof fn lemma_dec_rows_enc(s: Seq<u8>, pos: int, rows: Seq<InodePairV>)
    requires
        forall|k: int|
            0 <= k < rows.len() ==> (#[trigger] rows[k]).num <= NEXTINODE_CAP && inode_wf(
                rows[k].inode,
            ),
        is_at(s, pos, enc_rows(rows)),
    ensures
        dec_rows_at(s, pos, rows.len()) == Some(
            (rows.map_values(|p: InodePairV| persist_row(p)), pos + enc_rows(rows).len()),
        ),
    decreases rows.len(),
{
    lemma_auto_spec_u64_to_from_le_bytes();
    if rows.len() == 0 {
        assert(rows.map_values(|p: InodePairV| persist_row(p)) =~= Seq::<InodePairV>::empty());
    } else {
        let hn = enc_usize(rows[0].num);
        let hi = enc_inode(rows[0].inode);
        let rest = enc_rows(rows.skip(1));
        assert(enc_rows(rows) == hn + hi + rest);
        lemma_is_at_split(s, pos, hn + hi, rest);
        lemma_is_at_split(s, pos, hn, hi);
        lemma_dec_usize_enc(s, pos, rows[0].num);
        lemma_dec_inode_enc(s, pos + 8, rows[0].inode);
        lemma_dec_rows_enc(s, pos + hn.len() + hi.len(), rows.skip(1));
        assert(rows.map_values(|p: InodePairV| persist_row(p)) =~= seq![
            InodePairV { num: rows[0].num, inode: zero_refcount(rows[0].inode) },
        ] + rows.skip(1).map_values(|p: InodePairV| persist_row(p)));
    }
}

/// Serializing the metadata and reading it back is the identity on every
/// persisted field; only the in-memory reference counts restart at zero.
pub proof fn lemma_metadata_roundtrip(m: FilesystemMetadataV)
    requires
        fs_wf(m),
    ensures
        dec_meta(enc_meta(m)) == Some(persist_meta(m)),
{
    lemma_auto_spec_u64_to_from_le_bytes();
    let s = enc_meta(m);
    let a1 = enc_usize(m.nextinode);
    let a2 = enc_u64(m.dev_id);
    let a3 = enc_usize(m.inodetable.len() as usize);
    let a4 = enc_rows(m.inodetable);
    assert(s == a1 + a2 + a3 + a4);
    assert(s.subrange(0, s.len() as int) =~= s);
    lemma_is_at_split(s, 0, a1 + a2 + a3, a4);
    lemma_is_at_split(s, 0, a1 + a2, a3);
    lemma_is_at_split(s, 0, a1, a2);
    lemma_dec_usize_enc(s, 0, m.nextinode);
    lemma_dec_u64_enc(s, 8, m.dev_id);
    lemma_dec_usize_enc(s, 16, m.inodetable.len() as usize);
    assert forall|k: int|
        0 <= k < m.inodetable.len() implies (#[trigger] m.inodetable[k]).num <= NEXTINODE_CAP
        && inode_wf(m.inodetable[k].inode) by {}
    lemma_dec_rows_enc(s, 24, m.inodetable);
    assert(persist_meta(m).inodetable == m.inodetable.map_values(|p: InodePairV| persist_row(p)));
}

} // verus!
